//! Route declarations: the `routes!` tree of routes, middleware groups and
//! prefix groups, flattened into the registrations it makes, and the seven
//! RESTful routes of a `resource!`.
use vstd::prelude::*;
use crate::text::{copy_str, push_str, str_eq, views};

verus! {

/// The HTTP method a route is registered for.
#[derive(Debug, Clone, Copy, PartialEq, Eq, Structural)]
pub enum HttpMethod {
    Get,
    Post,
    Put,
    Delete,
    Patch,
    Options,
    Any,
}

/// One item of a `routes!` block: a route `method "path" => handler`, a
/// group `middleware ["a", ..] { .. }`, or a group `prefix "/p" { .. }`.
#[derive(Debug)]
pub enum RouteDef {
    Route { method: String, path: String, handler: String },
    Middleware { middlewares: Vec<String>, nested: Vec<RouteDef> },
    Prefix { prefix: String, nested: Vec<RouteDef> },
}

/// A registration: the method, the full path, the handler and the
/// middlewares that wrap it, outermost first.
#[derive(Debug, PartialEq, Eq)]
pub struct Registration {
    pub method: HttpMethod,
    pub path: String,
    pub handler: String,
    pub middlewares: Vec<String>,
}

/// A registration as plain values.
pub struct RegView {
    pub method: HttpMethod,
    pub path: Seq<char>,
    pub handler: Seq<char>,
    pub middlewares: Seq<Seq<char>>,
}

/// The view of a registration.
pub open spec fn reg_view(r: Registration) -> RegView {
    RegView { method: r.method, path: r.path@, handler: r.handler@, middlewares: views(r.middlewares@) }
}

/// The views of a list of registrations.
pub open spec fn reg_views(v: Seq<Registration>) -> Seq<RegView> {
    v.map_values(|r: Registration| reg_view(r))
}

/// The method a route's method word names; an unknown word registers a
/// `GET` route.
pub open spec fn method_named(m: Seq<char>) -> HttpMethod {
    if m == "post"@ {
        HttpMethod::Post
    } else if m == "put"@ {
        HttpMethod::Put
    } else if m == "delete"@ {
        HttpMethod::Delete
    } else if m == "patch"@ {
        HttpMethod::Patch
    } else if m == "options"@ {
        HttpMethod::Options
    } else if m == "any"@ {
        HttpMethod::Any
    } else {
        HttpMethod::Get
    }
}

/// The registrations of item `r` inside groups with the path prefix
/// `prefix` and the middlewares `mws`: a route's path follows the prefix;
/// a middleware group adds its middlewares after the enclosing ones; a
/// prefix group appends its prefix to the enclosing one.
pub open spec fn regs_of(r: RouteDef, prefix: Seq<char>, mws: Seq<Seq<char>>) -> Seq<RegView>
    decreases r,
{
    match r {
        RouteDef::Route { method, path, handler } => seq![
            RegView { method: method_named(method@), path: prefix + path@, handler: handler@, middlewares: mws },
        ],
        RouteDef::Middleware { middlewares, nested } => regs_of_list(nested@, prefix, mws + views(middlewares@)),
        RouteDef::Prefix { prefix: p, nested } => regs_of_list(nested@, prefix + p@, mws),
    }
}

/// The registrations of the items `rs`, in order.
pub open spec fn regs_of_list(rs: Seq<RouteDef>, prefix: Seq<char>, mws: Seq<Seq<char>>) -> Seq<RegView>
    decreases rs,
{
    if rs.len() == 0 {
        Seq::empty()
    } else {
        regs_of_list(rs.drop_last(), prefix, mws) + regs_of(rs.last(), prefix, mws)
    }
}

fn method_for(m: &str) -> (r: HttpMethod)
    ensures
        r == method_named(m@),
{
    if str_eq(m, "post") {
        HttpMethod::Post
    } else if str_eq(m, "put") {
        HttpMethod::Put
    } else if str_eq(m, "delete") {
        HttpMethod::Delete
    } else if str_eq(m, "patch") {
        HttpMethod::Patch
    } else if str_eq(m, "options") {
        HttpMethod::Options
    } else if str_eq(m, "any") {
        HttpMethod::Any
    } else {
        HttpMethod::Get
    }
}

fn copy_strings(v: &Vec<String>) -> (r: Vec<String>)
    ensures
        views(r@) == views(v@),
{
    let mut r: Vec<String> = Vec::new();
    let mut i: usize = 0;
    while i < v.len()
        invariant
            i <= v.len(),
            views(r@) == views(v@.take(i as int)),
        decreases v.len() - i,
    {
        let ghost before = r@;
        r.push(copy_str(v[i].as_str()));
        proof {
            assert(views(r@) =~= views(before).push(v@[i as int]@));
            assert(views(v@.take(i + 1)) =~= views(v@.take(i as int)).push(v@[i as int]@));
        }
        i = i + 1;
    }
    proof {
        assert(v@.take(i as int) =~= v@);
    }
    r
}

fn concat_strings(a: &Vec<String>, b: &Vec<String>) -> (r: Vec<String>)
    ensures
        views(r@) == views(a@) + views(b@),
{
    let mut r = copy_strings(a);
    let mut c = copy_strings(b);
    let ghost ra = r@;
    let ghost rc = c@;
    r.append(&mut c);
    proof {
        assert(views(r@) =~= views(ra) + views(rc));
    }
    r
}

/// The registrations item `route` makes inside groups with the path prefix
/// `prefix` and the middlewares `middlewares`.
pub fn generate_route_code(route: &RouteDef, prefix: &str, middlewares: &Vec<String>) -> (r: Vec<Registration>)
    ensures
        reg_views(r@) == regs_of(*route, prefix@, views(middlewares@)),
    decreases route,
{
    match route {
        RouteDef::Route { method, path, handler } => {
            let mut full = copy_str(prefix);
            push_str(&mut full, path.as_str());
            let reg = Registration {
                method: method_for(method.as_str()),
                path: full,
                handler: copy_str(handler.as_str()),
                middlewares: copy_strings(middlewares),
            };
            let ghost rv = reg_view(reg);
            let r = vec![reg];
            proof {
                assert(reg_views(r@) =~= seq![rv]);
            }
            r
        },
        RouteDef::Middleware { middlewares: mw, nested } => {
            let combined = concat_strings(middlewares, mw);
            proof {
                assert(decreases_to!(*route => *nested));
            }
            generate_routes(nested, prefix, &combined)
        },
        RouteDef::Prefix { prefix: p, nested } => {
            let mut full = copy_str(prefix);
            push_str(&mut full, p.as_str());
            proof {
                assert(decreases_to!(*route => *nested));
            }
            generate_routes(nested, full.as_str(), middlewares)
        },
    }
}

/// The registrations the items `routes` make inside groups with the path
/// prefix `prefix` and the middlewares `middlewares`, in order.
pub fn generate_routes(routes: &Vec<RouteDef>, prefix: &str, middlewares: &Vec<String>) -> (r: Vec<Registration>)
    ensures
        reg_views(r@) == regs_of_list(routes@, prefix@, views(middlewares@)),
    decreases routes,
{
    let mut out: Vec<Registration> = Vec::new();
    let mut i: usize = 0;
    proof {
        assert(routes@.take(0) =~= Seq::<RouteDef>::empty());
        assert(reg_views(out@) =~= Seq::<RegView>::empty());
    }
    while i < routes.len()
        invariant
            i <= routes.len(),
            reg_views(out@) == regs_of_list(routes@.take(i as int), prefix@, views(middlewares@)),
        decreases routes.len() - i,
    {
        proof {
            assert(routes@.take(i + 1).drop_last() =~= routes@.take(i as int));
            assert(routes@.take(i + 1).last() == routes@[i as int]);
            assert(decreases_to!(*routes => routes@));
            assert(decreases_to!(routes@ => routes@[i as int]));
        }
        let mut regs = generate_route_code(&routes[i], prefix, middlewares);
        let ghost before = out@;
        let ghost added = regs@;
        out.append(&mut regs);
        proof {
            assert(reg_views(out@) =~= reg_views(before) + reg_views(added));
        }
        i = i + 1;
    }
    proof {
        assert(routes@.take(i as int) =~= routes@);
    }
    out
}

/// The registrations of a `routes!` block: its items at the top level,
/// with no prefix and no middlewares.
pub fn routes_impl(routes: &Vec<RouteDef>) -> (r: Vec<Registration>)
    ensures
        reg_views(r@) == regs_of_list(routes@, Seq::empty(), Seq::empty()),
{
    let none: Vec<String> = Vec::new();
    proof {
        assert(views(none@) =~= Seq::<Seq<char>>::empty());
        reveal_strlit("");
        assert(""@ =~= Seq::<char>::empty());
    }
    generate_routes(routes, "", &none)
}

/// Whether every registration in `regs` lies inside a group with path
/// prefix `prefix` and middlewares `mws`.
pub open spec fn all_scoped(regs: Seq<RegView>, prefix: Seq<char>, mws: Seq<Seq<char>>) -> bool {
    forall|k: int|
        0 <= k < regs.len() ==> prefix.is_prefix_of(#[trigger] regs[k].path) && mws.is_prefix_of(
            regs[k].middlewares,
        )
}

proof fn lemma_prefix_trans(a: Seq<char>, b: Seq<char>, c: Seq<char>)
    requires
        a.is_prefix_of(b),
        b.is_prefix_of(c),
    ensures
        a.is_prefix_of(c),
{
    assert(a =~= c.subrange(0, a.len() as int)) by {
        assert forall|i: int| 0 <= i < a.len() implies a[i] == c.subrange(0, a.len() as int)[i] by {
            assert(a[i] == b.subrange(0, a.len() as int)[i]);
            assert(b[i] == c.subrange(0, b.len() as int)[i]);
        }
    }
}

proof fn lemma_prefix_trans_seqs(a: Seq<Seq<char>>, b: Seq<Seq<char>>, c: Seq<Seq<char>>)
    requires
        a.is_prefix_of(b),
        b.is_prefix_of(c),
    ensures
        a.is_prefix_of(c),
{
    assert(a =~= c.subrange(0, a.len() as int)) by {
        assert forall|i: int| 0 <= i < a.len() implies a[i] == c.subrange(0, a.len() as int)[i] by {
            assert(a[i] == b.subrange(0, a.len() as int)[i]);
            assert(b[i] == c.subrange(0, b.len() as int)[i]);
        }
    }
}

/// A group's path prefix and middlewares apply to every route inside it,
/// at any depth: each registration's path begins with the prefix and its
/// middlewares begin with the group's middlewares.
pub proof fn lemma_group_scoping(r: RouteDef, prefix: Seq<char>, mws: Seq<Seq<char>>)
    ensures
        all_scoped(regs_of(r, prefix, mws), prefix, mws),
    decreases r,
{
    match r {
        RouteDef::Route { method, path, handler } => {
            assert(prefix.is_prefix_of(prefix + path@)) by {
                assert(prefix =~= (prefix + path@).subrange(0, prefix.len() as int));
            }
            assert(mws.is_prefix_of(mws)) by {
                assert(mws =~= mws.subrange(0, mws.len() as int));
            }
        },
        RouteDef::Middleware { middlewares, nested } => {
            let inner = mws + views(middlewares@);
            lemma_list_scoping(nested@, prefix, inner);
            assert(mws.is_prefix_of(inner)) by {
                assert(mws =~= inner.subrange(0, mws.len() as int));
            }
            let regs = regs_of(r, prefix, mws);
            assert forall|k: int| 0 <= k < regs.len() implies prefix.is_prefix_of(#[trigger] regs[k].path)
                && mws.is_prefix_of(regs[k].middlewares) by {
                assert(prefix.is_prefix_of(regs[k].path));
                lemma_prefix_trans_seqs(mws, inner, regs[k].middlewares);
            }
        },
        RouteDef::Prefix { prefix: p, nested } => {
            let inner = prefix + p@;
            lemma_list_scoping(nested@, inner, mws);
            assert(prefix.is_prefix_of(inner)) by {
                assert(prefix =~= inner.subrange(0, prefix.len() as int));
            }
            let regs = regs_of(r, prefix, mws);
            assert forall|k: int| 0 <= k < regs.len() implies prefix.is_prefix_of(#[trigger] regs[k].path)
                && mws.is_prefix_of(regs[k].middlewares) by {
                assert(inner.is_prefix_of(regs[k].path));
                lemma_prefix_trans(prefix, inner, regs[k].path);
            }
        },
    }
}

/// [`lemma_group_scoping`] for a list of items.
pub proof fn lemma_list_scoping(rs: Seq<RouteDef>, prefix: Seq<char>, mws: Seq<Seq<char>>)
    ensures
        all_scoped(regs_of_list(rs, prefix, mws), prefix, mws),
    decreases rs,
{
    if rs.len() > 0 {
        lemma_list_scoping(rs.drop_last(), prefix, mws);
        lemma_group_scoping(rs.last(), prefix, mws);
        let a = regs_of_list(rs.drop_last(), prefix, mws);
        let b = regs_of(rs.last(), prefix, mws);
        assert forall|k: int| 0 <= k < (a + b).len() implies prefix.is_prefix_of(#[trigger] (a + b)[k].path)
            && mws.is_prefix_of((a + b)[k].middlewares) by {
            if k < a.len() {
                assert((a + b)[k] == a[k]);
            } else {
                assert((a + b)[k] == b[k - a.len()]);
            }
        }
    }
}

/// Which of a resource's routes to make: `only: [..]` or `except: [..]`
/// the listed actions.
#[derive(Debug)]
pub enum ResourceFilter {
    Only(Vec<String>),
    Except(Vec<String>),
}

/// One route of a resource: the controller action, the method and the path.
#[derive(Debug, PartialEq, Eq)]
pub struct ResourceRoute {
    pub action: String,
    pub method: HttpMethod,
    pub path: String,
}

/// A filter as plain values: `(only, actions)`.
pub open spec fn filter_view(f: Option<ResourceFilter>) -> Option<(bool, Seq<Seq<char>>)> {
    match f {
        Some(ResourceFilter::Only(l)) => Some((true, views(l@))),
        Some(ResourceFilter::Except(l)) => Some((false, views(l@))),
        None => None,
    }
}

/// The seven RESTful routes of resource `name`: action, method and path.
pub open spec fn restful_routes(name: Seq<char>) -> Seq<(Seq<char>, HttpMethod, Seq<char>)> {
    seq![
        ("index"@, HttpMethod::Get, "/"@ + name),
        ("create"@, HttpMethod::Get, "/"@ + name + "/create"@),
        ("store"@, HttpMethod::Post, "/"@ + name),
        ("show"@, HttpMethod::Get, "/"@ + name + "/{id}"@),
        ("edit"@, HttpMethod::Get, "/"@ + name + "/{id}/edit"@),
        ("update"@, HttpMethod::Put, "/"@ + name + "/{id}"@),
        ("destroy"@, HttpMethod::Delete, "/"@ + name + "/{id}"@),
    ]
}

/// Whether a filter keeps the route of `action`.
pub open spec fn keeps(f: Option<(bool, Seq<Seq<char>>)>, action: Seq<char>) -> bool {
    match f {
        Some((only, l)) => if only {
            l.contains(action)
        } else {
            !l.contains(action)
        },
        None => true,
    }
}

/// The routes of `t` that the filter keeps, in order.
pub open spec fn kept_routes(
    t: Seq<(Seq<char>, HttpMethod, Seq<char>)>,
    f: Option<(bool, Seq<Seq<char>>)>,
) -> Seq<(Seq<char>, HttpMethod, Seq<char>)>
    decreases t.len(),
{
    if t.len() == 0 {
        Seq::empty()
    } else if keeps(f, t.last().0) {
        kept_routes(t.drop_last(), f).push(t.last())
    } else {
        kept_routes(t.drop_last(), f)
    }
}

/// The view of a resource route.
pub open spec fn resource_route_view(r: ResourceRoute) -> (Seq<char>, HttpMethod, Seq<char>) {
    (r.action@, r.method, r.path@)
}

fn listed(l: &Vec<String>, action: &str) -> (r: bool)
    ensures
        r == views(l@).contains(action@),
{
    let mut i: usize = 0;
    while i < l.len()
        invariant
            i <= l.len(),
            forall|j: int| 0 <= j < i ==> (#[trigger] l@[j])@ != action@,
        decreases l.len() - i,
    {
        if str_eq(l[i].as_str(), action) {
            proof {
                assert(views(l@)[i as int] == action@);
            }
            return true;
        }
        i = i + 1;
    }
    proof {
        if views(l@).contains(action@) {
            let j = choose|j: int| 0 <= j < views(l@).len() && views(l@)[j] == action@;
            assert(l@[j]@ == action@);
        }
    }
    false
}

fn keeps_exec(f: &Option<ResourceFilter>, action: &str) -> (r: bool)
    ensures
        r == keeps(filter_view(*f), action@),
{
    match f {
        Some(ResourceFilter::Only(l)) => listed(l, action),
        Some(ResourceFilter::Except(l)) => !listed(l, action),
        None => true,
    }
}

fn route_path(name: &str, tail: &str) -> (r: String)
    ensures
        r@ == "/"@ + name@ + tail@,
{
    let mut r = copy_str("/");
    push_str(&mut r, name);
    push_str(&mut r, tail);
    r
}

/// The routes of `resource!(name, Controller)` with an optional filter:
/// `index`, `create`, `store`, `show`, `edit`, `update` and `destroy` at
/// `/name`, `/name/create` and `/name/{id}` (`/name/{id}/edit`), keeping
/// only the listed actions or all but the listed ones.
pub fn resource_routes(name: &str, filter: &Option<ResourceFilter>) -> (r: Vec<ResourceRoute>)
    ensures
        r@.map_values(|x: ResourceRoute| resource_route_view(x)) == kept_routes(
            restful_routes(name@),
            filter_view(*filter),
        ),
{
    let mut all: Vec<ResourceRoute> = Vec::new();
    let mut p0 = copy_str("/");
    push_str(&mut p0, name);
    all.push(ResourceRoute { action: copy_str("index"), method: HttpMethod::Get, path: p0 });
    all.push(ResourceRoute { action: copy_str("create"), method: HttpMethod::Get, path: route_path(name, "/create") });
    let mut p2 = copy_str("/");
    push_str(&mut p2, name);
    all.push(ResourceRoute { action: copy_str("store"), method: HttpMethod::Post, path: p2 });
    all.push(ResourceRoute { action: copy_str("show"), method: HttpMethod::Get, path: route_path(name, "/{id}") });
    all.push(ResourceRoute { action: copy_str("edit"), method: HttpMethod::Get, path: route_path(name, "/{id}/edit") });
    all.push(ResourceRoute { action: copy_str("update"), method: HttpMethod::Put, path: route_path(name, "/{id}") });
    all.push(
        ResourceRoute { action: copy_str("destroy"), method: HttpMethod::Delete, path: route_path(name, "/{id}") },
    );
    let ghost table = restful_routes(name@);
    proof {
        assert(all@.map_values(|x: ResourceRoute| resource_route_view(x)) =~= table);
    }
    let mut out: Vec<ResourceRoute> = Vec::new();
    let mut rest = all;
    let mut i: usize = 0;
    proof {
        assert(table.take(0) =~= Seq::<(Seq<char>, HttpMethod, Seq<char>)>::empty());
        assert(out@.map_values(|x: ResourceRoute| resource_route_view(x)) =~= Seq::<
            (Seq<char>, HttpMethod, Seq<char>),
        >::empty());
        assert(rest@.map_values(|x: ResourceRoute| resource_route_view(x)) =~= table.skip(0));
    }
    while rest.len() > 0
        invariant
            i + rest@.len() == 7,
            table.len() == 7,
            rest@.map_values(|x: ResourceRoute| resource_route_view(x)) == table.skip(i as int),
            out@.map_values(|x: ResourceRoute| resource_route_view(x)) == kept_routes(
                table.take(i as int),
                filter_view(*filter),
            ),
        decreases rest@.len(),
    {
        let ghost rv = rest@.map_values(|x: ResourceRoute| resource_route_view(x));
        let ghost old_rest = rest@;
        let route = rest.remove(0);
        proof {
            assert(rest@ =~= old_rest.skip(1));
            assert forall|k: int| 0 <= k < rest@.len() implies #[trigger] resource_route_view(rest@[k]) == table.skip(
                i + 1,
            )[k] by {
                assert(rest@[k] == old_rest[k + 1]);
                assert(rv[k + 1] == resource_route_view(old_rest[k + 1]));
                assert(table.skip(i as int)[k + 1] == table.skip(i + 1)[k]);
            }
            assert(rv[0] == resource_route_view(route));
            assert(table[i as int] == rv[0]);
            assert(table.take(i + 1).drop_last() =~= table.take(i as int));
            assert(table.take(i + 1).last() == table[i as int]);
            assert(rest@.map_values(|x: ResourceRoute| resource_route_view(x)) =~= table.skip(i + 1));
        }
        if keeps_exec(filter, route.action.as_str()) {
            let ghost before = out@;
            out.push(route);
            proof {
                assert(out@.map_values(|x: ResourceRoute| resource_route_view(x)) =~= before.map_values(
                    |x: ResourceRoute| resource_route_view(x),
                ).push(table[i as int]));
            }
        }
        i = i + 1;
    }
    proof {
        assert(table.take(i as int) =~= table);
    }
    out
}

/// The filter `kind: [methods]` of a resource: `only` or `except`; any
/// other word is refused.
pub fn resource_filter(kind: &str, methods: Vec<String>) -> (r: Result<ResourceFilter, String>)
    ensures
        kind@ == "only"@ ==> (r matches Ok(ResourceFilter::Only(l)) && l@ == methods@),
        kind@ == "except"@ ==> (r matches Ok(ResourceFilter::Except(l)) && l@ == methods@),
        kind@ != "only"@ && kind@ != "except"@ ==> (r matches Err(e) && e@ == "Expected 'only' or 'except'"@),
{
    proof {
        reveal_strlit("only");
        reveal_strlit("except");
        assert("only"@.len() != "except"@.len());
    }
    if str_eq(kind, "only") {
        Ok(ResourceFilter::Only(methods))
    } else if str_eq(kind, "except") {
        Ok(ResourceFilter::Except(methods))
    } else {
        Err(copy_str("Expected 'only' or 'except'"))
    }
}

/// `only` and `except` with the same actions split a resource's routes:
/// every route is made by exactly one of them.
pub proof fn lemma_only_except_split(t: Seq<(Seq<char>, HttpMethod, Seq<char>)>, l: Seq<Seq<char>>)
    ensures
        kept_routes(t, Some((true, l))).len() + kept_routes(t, Some((false, l))).len() == t.len(),
        forall|k: int|
            0 <= k < t.len() ==> (kept_routes(t, Some((true, l))).contains(#[trigger] t[k]) || kept_routes(
                t,
                Some((false, l)),
            ).contains(t[k])),
    decreases t.len(),
{
    if t.len() > 0 {
        let init = t.drop_last();
        lemma_only_except_split(init, l);
        let a = kept_routes(t, Some((true, l)));
        let b = kept_routes(t, Some((false, l)));
        assert forall|k: int| 0 <= k < t.len() implies (a.contains(#[trigger] t[k]) || b.contains(t[k])) by {
            if k == t.len() - 1 {
                if keeps(Some((true, l)), t.last().0) {
                    assert(a.last() == t[k]);
                } else {
                    assert(b.last() == t[k]);
                }
            } else {
                assert(init[k] == t[k]);
                let ai = kept_routes(init, Some((true, l)));
                let bi = kept_routes(init, Some((false, l)));
                if ai.contains(t[k]) {
                    let j = choose|j: int| 0 <= j < ai.len() && ai[j] == t[k];
                    assert(a[j] == ai[j]);
                } else {
                    let j = choose|j: int| 0 <= j < bi.len() && bi[j] == t[k];
                    assert(b[j] == bi[j]);
                }
            }
        }
    }
}

} // verus!
