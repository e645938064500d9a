use rf_mail::routing::{
    generate_route_code, resource_filter, resource_routes, routes_impl, HttpMethod, Registration, ResourceFilter,
    ResourceRoute, RouteDef,
};

fn route(method: &str, path: &str, handler: &str) -> RouteDef {
    RouteDef::Route { method: method.to_string(), path: path.to_string(), handler: handler.to_string() }
}

fn strings(v: &[&str]) -> Vec<String> {
    v.iter().map(|s| s.to_string()).collect()
}

fn reg(method: HttpMethod, path: &str, handler: &str, mws: &[&str]) -> Registration {
    Registration { method, path: path.to_string(), handler: handler.to_string(), middlewares: strings(mws) }
}

#[test]
fn documented_routes_block() {
    let routes = vec![
        route("get", "/posts", "post_controller::index"),
        route("post", "/posts", "post_controller::store"),
        RouteDef::Middleware {
            middlewares: strings(&["auth"]),
            nested: vec![route("get", "/profile", "profile_controller::show"), route("put", "/profile", "profile_controller::update")],
        },
        RouteDef::Prefix {
            prefix: "/api/v1".to_string(),
            nested: vec![route("get", "/users", "api::users::index"), route("post", "/users", "api::users::store")],
        },
    ];
    let regs = routes_impl(&routes);
    assert_eq!(
        regs,
        vec![
            reg(HttpMethod::Get, "/posts", "post_controller::index", &[]),
            reg(HttpMethod::Post, "/posts", "post_controller::store", &[]),
            reg(HttpMethod::Get, "/profile", "profile_controller::show", &["auth"]),
            reg(HttpMethod::Put, "/profile", "profile_controller::update", &["auth"]),
            reg(HttpMethod::Get, "/api/v1/users", "api::users::index", &[]),
            reg(HttpMethod::Post, "/api/v1/users", "api::users::store", &[]),
        ]
    );
}

#[test]
fn nested_groups_accumulate() {
    let tree = RouteDef::Prefix {
        prefix: "/api".to_string(),
        nested: vec![RouteDef::Middleware {
            middlewares: strings(&["auth", "throttle"]),
            nested: vec![
                RouteDef::Prefix { prefix: "/v2".to_string(), nested: vec![route("delete", "/x", "h::destroy")] },
                RouteDef::Middleware { middlewares: strings(&["admin"]), nested: vec![route("patch", "/y", "h::patch")] },
            ],
        }],
    };
    let regs = generate_route_code(&tree, "/root", &strings(&["log"]));
    assert_eq!(
        regs,
        vec![
            reg(HttpMethod::Delete, "/root/api/v2/x", "h::destroy", &["log", "auth", "throttle"]),
            reg(HttpMethod::Patch, "/root/api/y", "h::patch", &["log", "auth", "throttle", "admin"]),
        ]
    );
}

#[test]
fn method_words() {
    let regs = routes_impl(&vec![route("options", "/a", "h"), route("any", "/b", "h"), route("head", "/c", "h")]);
    assert_eq!(regs[0].method, HttpMethod::Options);
    assert_eq!(regs[1].method, HttpMethod::Any);
    assert_eq!(regs[2].method, HttpMethod::Get);
    assert!(routes_impl(&vec![]).is_empty());
}

fn rr(action: &str, method: HttpMethod, path: &str) -> ResourceRoute {
    ResourceRoute { action: action.to_string(), method, path: path.to_string() }
}

#[test]
fn resource_all_routes() {
    let routes = resource_routes("posts", &None);
    assert_eq!(
        routes,
        vec![
            rr("index", HttpMethod::Get, "/posts"),
            rr("create", HttpMethod::Get, "/posts/create"),
            rr("store", HttpMethod::Post, "/posts"),
            rr("show", HttpMethod::Get, "/posts/{id}"),
            rr("edit", HttpMethod::Get, "/posts/{id}/edit"),
            rr("update", HttpMethod::Put, "/posts/{id}"),
            rr("destroy", HttpMethod::Delete, "/posts/{id}"),
        ]
    );
}

#[test]
fn resource_only_and_except() {
    let only = resource_routes("users", &Some(ResourceFilter::Only(strings(&["show", "index"]))));
    assert_eq!(only, vec![rr("index", HttpMethod::Get, "/users"), rr("show", HttpMethod::Get, "/users/{id}")]);
    let except = resource_routes("comments", &Some(ResourceFilter::Except(strings(&["destroy"]))));
    assert_eq!(except.len(), 6);
    assert!(except.iter().all(|r| r.action != "destroy"));
    let a = resource_routes("x", &Some(ResourceFilter::Only(strings(&["edit", "store"])))).len();
    let b = resource_routes("x", &Some(ResourceFilter::Except(strings(&["edit", "store"])))).len();
    assert_eq!(a + b, 7);
}

#[test]
fn resource_filter_words() {
    assert!(matches!(resource_filter("only", strings(&["index"])), Ok(ResourceFilter::Only(ref l)) if l == &strings(&["index"])));
    assert!(matches!(resource_filter("except", vec![]), Ok(ResourceFilter::Except(ref l)) if l.is_empty()));
    match resource_filter("but", vec![]) {
        Err(e) => assert_eq!(e, "Expected 'only' or 'except'"),
        Ok(_) => panic!("expected a refusal"),
    }
}
