//! Auto-await insertion: the rewrite that wraps known framework calls in an
//! adapter that awaits futures and passes plain values through, so framework
//! code never has to spell out `.await`. Expressions are modelled by the
//! shapes the rewrite looks at.
use vstd::prelude::*;
use crate::text::{copy_str, str_eq, views};

verus! {

/// An expression, as far as the rewrite looks into it.
#[derive(Debug)]
pub enum Expr {
    /// `receiver.method(args)`
    MethodCall { receiver: Box<Expr>, method: String, args: Vec<Expr> },
    /// `func(args)`
    Call { func: Box<Expr>, args: Vec<Expr> },
    /// A path such as `User::find`, by its segments
    Path(Vec<String>),
    /// `base.await`
    Await(Box<Expr>),
    /// Any other expression, by its sub-expressions in order
    Other(Vec<Expr>),
}

/// The framework calls resolved by default: model, cache, auth, request,
/// database, storage, mail, queue, broadcasting and AI methods.
pub open spec fn default_async_names() -> Seq<Seq<char>> {
    seq![
        "find"@,
        "find_or_fail"@,
        "all"@,
        "first"@,
        "first_or_fail"@,
        "create"@,
        "update"@,
        "update_by_id"@,
        "delete"@,
        "destroy"@,
        "save"@,
        "insert"@,
        "insert_many"@,
        "get"@,
        "exists"@,
        "count"@,
        "paginate"@,
        "first_or_create"@,
        "update_or_create"@,
        "pluck"@,
        "value"@,
        "findOrFail"@,
        "firstOrFail"@,
        "firstOrCreate"@,
        "updateOrCreate"@,
        "updateById"@,
        "insertMany"@,
        "put"@,
        "forget"@,
        "flush"@,
        "has"@,
        "pull"@,
        "add"@,
        "forever"@,
        "remember"@,
        "remember_forever"@,
        "increment"@,
        "decrement"@,
        "tags"@,
        "attempt"@,
        "login"@,
        "logout"@,
        "check"@,
        "guest"@,
        "user"@,
        "id"@,
        "validate"@,
        "execute"@,
        "fetch"@,
        "fetch_one"@,
        "fetch_all"@,
        "fetch_optional"@,
        "begin_transaction"@,
        "commit"@,
        "rollback"@,
        "store"@,
        "download"@,
        "send"@,
        "push"@,
        "dispatch"@,
        "dispatch_later"@,
        "broadcast"@,
        "publish"@,
        "subscribe"@,
        "notify"@,
        "chat"@,
        "embed"@,
        "complete"@,
        "generate"@
    ]
}

/// Whether `e` is a path whose last segment is in `names`.
pub open spec fn path_matches(names: Seq<Seq<char>>, e: Expr) -> bool {
    e matches Expr::Path(segs) && segs@.len() > 0 && names.contains(segs@.last()@)
}

/// Whether `e` is the adapter `(&__rf_w(inner)).__rf_resolve().await`.
pub open spec fn is_adapter(e: Expr, inner: Expr) -> bool {
    &&& e matches Expr::Await(b)
    &&& *b matches Expr::MethodCall { receiver, method, args }
    &&& method@ == "__rf_resolve"@
    &&& args@.len() == 0
    &&& *receiver matches Expr::Other(r1)
    &&& r1@.len() == 1
    &&& r1@[0] matches Expr::Other(r2)
    &&& r2@.len() == 1
    &&& r2@[0] matches Expr::Call { func, args: call_args }
    &&& *func matches Expr::Path(segs)
    &&& views(segs@) == seq!["__rf_w"@]
    &&& call_args@.len() == 1
    &&& call_args@[0] == inner
}

/// The expression inside an adapter.
pub open spec fn adapter_inner(e: Expr) -> Expr {
    match e {
        Expr::Await(b) => match *b {
            Expr::MethodCall { receiver, .. } => match *receiver {
                Expr::Other(r1) => match r1@[0] {
                    Expr::Other(r2) => match r2@[0] {
                        Expr::Call { args, .. } => args@[0],
                        _ => arbitrary(),
                    },
                    _ => arbitrary(),
                },
                _ => arbitrary(),
            },
            _ => arbitrary(),
        },
        _ => arbitrary(),
    }
}

/// `after` itself, or the expression inside it when the call was wrapped.
pub open spec fn unwrapped(wrapped: bool, after: Expr) -> Expr {
    if wrapped {
        adapter_inner(after)
    } else {
        after
    }
}

/// Whether `after` is `before` rewritten: sub-expressions first, then each
/// method call whose name is in `names`, and each call of a path whose last
/// segment is in `names`, wrapped in the adapter.
pub open spec fn rewrites(names: Seq<Seq<char>>, before: Expr, after: Expr) -> bool
    decreases before,
{
    match before {
        Expr::MethodCall { receiver, method, args } => {
            let wrap = names.contains(method@);
            let core = unwrapped(wrap, after);
            &&& wrap ==> is_adapter(after, core)
            &&& core matches Expr::MethodCall { receiver: r2, method: m2, args: a2 }
            &&& m2@ == method@
            &&& rewrites(names, *receiver, *r2)
            &&& a2@.len() == args@.len()
            &&& forall|i: int| 0 <= i < args@.len() ==> rewrites(names, #[trigger] args@[i], a2@[i])
        },
        Expr::Call { func, args } => {
            let wrap = path_matches(names, *func);
            let core = unwrapped(wrap, after);
            &&& wrap ==> is_adapter(after, core)
            &&& core matches Expr::Call { func: f2, args: a2 }
            &&& rewrites(names, *func, *f2)
            &&& a2@.len() == args@.len()
            &&& forall|i: int| 0 <= i < args@.len() ==> rewrites(names, #[trigger] args@[i], a2@[i])
        },
        Expr::Path(segs) => after matches Expr::Path(s2) && views(s2@) == views(segs@),
        Expr::Await(base) => after matches Expr::Await(b2) && rewrites(names, *base, *b2),
        Expr::Other(subs) => after matches Expr::Other(s2) && s2@.len() == subs@.len() && forall|i: int|
            0 <= i < subs@.len() ==> rewrites(names, #[trigger] subs@[i], s2@[i]),
    }
}

/// Whether the rewrite wraps at least one call in `e`.
pub open spec fn wraps_any(names: Seq<Seq<char>>, e: Expr) -> bool
    decreases e,
{
    match e {
        Expr::MethodCall { receiver, method, args } => names.contains(method@) || wraps_any(names, *receiver)
            || exists|i: int| 0 <= i < args@.len() && wraps_any(names, #[trigger] args@[i]),
        Expr::Call { func, args } => path_matches(names, *func) || wraps_any(names, *func) || exists|i: int|
            0 <= i < args@.len() && wraps_any(names, #[trigger] args@[i]),
        Expr::Path(_) => false,
        Expr::Await(base) => wraps_any(names, *base),
        Expr::Other(subs) => exists|i: int| 0 <= i < subs@.len() && wraps_any(names, #[trigger] subs@[i]),
    }
}

/// Visitor state: the call names to resolve and whether anything was
/// wrapped.
#[derive(Debug)]
pub struct AwaitTransformer {
    async_functions: Vec<String>,
    extra: Vec<String>,
    /// Set once at least one call has been wrapped, so the caller knows
    /// whether the adapter prelude is needed.
    pub wrapped: bool,
}

impl AwaitTransformer {
    /// All names that are resolved: the framework list, then the extra ones.
    pub open spec fn names(&self) -> Seq<Seq<char>> {
        self.async_names() + self.extra_names()
    }

    /// Whether a call has been wrapped.
    pub closed spec fn has_wrapped(&self) -> bool {
        self.wrapped
    }

    /// The framework names alone.
    pub closed spec fn async_names(&self) -> Seq<Seq<char>> {
        views(self.async_functions@)
    }

    /// The names added per use.
    pub closed spec fn extra_names(&self) -> Seq<Seq<char>> {
        views(self.extra@)
    }

    /// A transformer resolving the framework calls.
    pub fn new() -> (t: Self)
        ensures
            t.async_names() == default_async_names(),
            t.extra_names().len() == 0,
            !t.has_wrapped(),
    {
        let mut v: Vec<String> = Vec::new();
        v.push(copy_str("find"));
        v.push(copy_str("find_or_fail"));
        v.push(copy_str("all"));
        v.push(copy_str("first"));
        v.push(copy_str("first_or_fail"));
        v.push(copy_str("create"));
        v.push(copy_str("update"));
        v.push(copy_str("update_by_id"));
        v.push(copy_str("delete"));
        v.push(copy_str("destroy"));
        v.push(copy_str("save"));
        v.push(copy_str("insert"));
        v.push(copy_str("insert_many"));
        v.push(copy_str("get"));
        v.push(copy_str("exists"));
        v.push(copy_str("count"));
        v.push(copy_str("paginate"));
        v.push(copy_str("first_or_create"));
        v.push(copy_str("update_or_create"));
        v.push(copy_str("pluck"));
        v.push(copy_str("value"));
        v.push(copy_str("findOrFail"));
        v.push(copy_str("firstOrFail"));
        v.push(copy_str("firstOrCreate"));
        v.push(copy_str("updateOrCreate"));
        v.push(copy_str("updateById"));
        v.push(copy_str("insertMany"));
        v.push(copy_str("put"));
        v.push(copy_str("forget"));
        v.push(copy_str("flush"));
        v.push(copy_str("has"));
        v.push(copy_str("pull"));
        v.push(copy_str("add"));
        v.push(copy_str("forever"));
        v.push(copy_str("remember"));
        v.push(copy_str("remember_forever"));
        v.push(copy_str("increment"));
        v.push(copy_str("decrement"));
        v.push(copy_str("tags"));
        v.push(copy_str("attempt"));
        v.push(copy_str("login"));
        v.push(copy_str("logout"));
        v.push(copy_str("check"));
        v.push(copy_str("guest"));
        v.push(copy_str("user"));
        v.push(copy_str("id"));
        v.push(copy_str("validate"));
        v.push(copy_str("execute"));
        v.push(copy_str("fetch"));
        v.push(copy_str("fetch_one"));
        v.push(copy_str("fetch_all"));
        v.push(copy_str("fetch_optional"));
        v.push(copy_str("begin_transaction"));
        v.push(copy_str("commit"));
        v.push(copy_str("rollback"));
        v.push(copy_str("store"));
        v.push(copy_str("download"));
        v.push(copy_str("send"));
        v.push(copy_str("push"));
        v.push(copy_str("dispatch"));
        v.push(copy_str("dispatch_later"));
        v.push(copy_str("broadcast"));
        v.push(copy_str("publish"));
        v.push(copy_str("subscribe"));
        v.push(copy_str("notify"));
        v.push(copy_str("chat"));
        v.push(copy_str("embed"));
        v.push(copy_str("complete"));
        v.push(copy_str("generate"));
        let t = AwaitTransformer { async_functions: v, extra: Vec::new(), wrapped: false };
        proof {
            assert(t.async_names() =~= default_async_names());
            assert(t.extra_names() =~= Seq::<Seq<char>>::empty());
        }
        t
    }

    /// A transformer resolving the framework calls and the `extra` names
    /// given per use.
    pub fn with_extra(extra: Vec<String>) -> (t: Self)
        ensures
            t.async_names() == default_async_names(),
            t.extra_names() == views(extra@),
            !t.has_wrapped(),
    {
        let mut t = Self::new();
        t.extra = extra;
        t
    }

    /// Add a framework call name to resolve.
    pub fn add_async_function(&mut self, name: String)
        ensures
            final(self).async_names() == old(self).async_names().push(name@),
            final(self).extra_names() == old(self).extra_names(),
            final(self).has_wrapped() == old(self).has_wrapped(),
    {
        let ghost before = self.async_functions@;
        let ghost nv = name@;
        self.async_functions.push(name);
        proof {
            assert(views(self.async_functions@) =~= views(before).push(nv));
        }
    }

    /// Whether a call of this name is resolved (framework list or extra
    /// names).
    pub fn should_await_method(&self, method_name: &str) -> (r: bool)
        ensures
            r == self.names().contains(method_name@),
    {
        let ghost all = self.names();
        let mut i: usize = 0;
        while i < self.async_functions.len()
            invariant
                i <= self.async_functions@.len(),
                all == views(self.async_functions@) + views(self.extra@),
                forall|j: int| 0 <= j < i ==> all[j] != method_name@,
            decreases self.async_functions.len() - i,
        {
            if str_eq(self.async_functions[i].as_str(), method_name) {
                proof {
                    assert(all[i as int] == method_name@);
                }
                return true;
            }
            i = i + 1;
        }
        let mut k: usize = 0;
        while k < self.extra.len()
            invariant
                k <= self.extra@.len(),
                all == views(self.async_functions@) + views(self.extra@),
                forall|j: int| 0 <= j < self.async_functions@.len() + k ==> all[j] != method_name@,
            decreases self.extra.len() - k,
        {
            if str_eq(self.extra[k].as_str(), method_name) {
                proof {
                    assert(all[self.async_functions@.len() + k] == method_name@);
                }
                return true;
            }
            k = k + 1;
        }
        false
    }

    fn path_should_await(&self, e: &Expr) -> (r: bool)
        ensures
            r == path_matches(self.names(), *e),
    {
        match e {
            Expr::Path(segs) => {
                if segs.len() == 0 {
                    false
                } else {
                    self.should_await_method(segs[segs.len() - 1].as_str())
                }
            },
            _ => false,
        }
    }

    /// `expr` wrapped in the adapter `(&__rf_w(expr)).__rf_resolve().await`.
    fn adapter(expr: Expr) -> (r: Expr)
        ensures
            is_adapter(r, expr),
            adapter_inner(r) == expr,
    {
        let mut segs: Vec<String> = Vec::new();
        segs.push(copy_str("__rf_w"));
        let mut call_args: Vec<Expr> = Vec::new();
        call_args.push(expr);
        let call = Expr::Call { func: Box::new(Expr::Path(segs)), args: call_args };
        let mut r2: Vec<Expr> = Vec::new();
        r2.push(call);
        let mut r1: Vec<Expr> = Vec::new();
        r1.push(Expr::Other(r2));
        let resolve = Expr::MethodCall {
            receiver: Box::new(Expr::Other(r1)),
            method: copy_str("__rf_resolve"),
            args: Vec::new(),
        };
        let r = Expr::Await(Box::new(resolve));
        proof {
            assert(views(segs@) =~= seq!["__rf_w"@]);
        }
        r
    }

    /// Every element of `items` rewritten, in order, and whether any call
    /// among them was wrapped.
    fn rewrite_all(&self, items: Vec<Expr>, Ghost(parent): Ghost<Expr>) -> (r: (Vec<Expr>, bool))
        requires
            forall|i: int| 0 <= i < items@.len() ==> decreases_to!(parent => #[trigger] items@[i]),
        ensures
            r.0@.len() == items@.len(),
            forall|i: int| 0 <= i < items@.len() ==> rewrites(self.names(), #[trigger] items@[i], r.0@[i]),
            r.1 == exists|i: int| 0 <= i < items@.len() && wraps_any(self.names(), #[trigger] items@[i]),
        decreases parent, 0nat,
    {
        let ghost orig = items@;
        let mut rest = items;
        let mut out: Vec<Expr> = Vec::new();
        let mut any = false;
        while rest.len() > 0
            invariant
                out@.len() + rest@.len() == orig.len(),
                forall|i: int| 0 <= i < rest@.len() ==> rest@[i] == orig[out@.len() + i],
                forall|i: int| 0 <= i < orig.len() ==> decreases_to!(parent => #[trigger] orig[i]),
                forall|i: int| 0 <= i < out@.len() ==> rewrites(self.names(), #[trigger] orig[i], out@[i]),
                any == exists|i: int| 0 <= i < out@.len() && wraps_any(self.names(), #[trigger] orig[i]),
            decreases rest@.len(),
        {
            let ghost k = out@.len() as int;
            let ghost old_rest = rest@;
            let item = rest.remove(0);
            proof {
                assert(old_rest[0] == orig[k]);
                assert(item == orig[k]);
                assert forall|i: int| 0 <= i < rest@.len() implies rest@[i] == orig[k + 1 + i] by {
                    assert(rest@[i] == old_rest[i + 1]);
                }
                assert(decreases_to!(parent => orig[k]));
            }
            let (done, w) = self.rewrite(item);
            out.push(done);
            proof {
                assert(rewrites(self.names(), orig[k], out@[k]));
                if w {
                    assert(wraps_any(self.names(), orig[k]));
                }
                if !(any || w) {
                    assert forall|i: int| 0 <= i < out@.len() implies !wraps_any(
                        self.names(),
                        #[trigger] orig[i],
                    ) by {
                        if i < k {
                        }
                    }
                }
            }
            any = any || w;
        }
        (out, any)
    }

    /// `e` rewritten, and whether any call in it was wrapped.
    fn rewrite(&self, e: Expr) -> (r: (Expr, bool))
        ensures
            rewrites(self.names(), e, r.0),
            r.1 == wraps_any(self.names(), e),
        decreases e, 1nat,
    {
        let ghost ge = e;
        match e {
            Expr::MethodCall { receiver, method, args } => {
                proof {
                    assert forall|i: int| 0 <= i < args@.len() implies decreases_to!(ge => #[trigger] args@[i]) by {
                        assert(decreases_to!(ge => args));
                        assert(decreases_to!(args => args@));
                        assert(decreases_to!(args@ => args@[i]));
                    }
                }
                let (r2, w1) = self.rewrite(*receiver);
                let (a2, w2) = self.rewrite_all(args, Ghost(ge));
                let wrap = self.should_await_method(method.as_str());
                let core = Expr::MethodCall { receiver: Box::new(r2), method, args: a2 };
                if wrap {
                    (Self::adapter(core), true)
                } else {
                    (core, w1 || w2)
                }
            },
            Expr::Call { func, args } => {
                proof {
                    assert forall|i: int| 0 <= i < args@.len() implies decreases_to!(ge => #[trigger] args@[i]) by {
                        assert(decreases_to!(ge => args));
                        assert(decreases_to!(args => args@));
                        assert(decreases_to!(args@ => args@[i]));
                    }
                }
                let wrap = self.path_should_await(&*func);
                let (f2, w1) = self.rewrite(*func);
                let (a2, w2) = self.rewrite_all(args, Ghost(ge));
                let core = Expr::Call { func: Box::new(f2), args: a2 };
                if wrap {
                    (Self::adapter(core), true)
                } else {
                    (core, w1 || w2)
                }
            },
            Expr::Path(segs) => (Expr::Path(segs), false),
            Expr::Await(base) => {
                let (b2, w) = self.rewrite(*base);
                (Expr::Await(Box::new(b2)), w)
            },
            Expr::Other(subs) => {
                proof {
                    assert forall|i: int| 0 <= i < subs@.len() implies decreases_to!(ge => #[trigger] subs@[i]) by {
                        assert(decreases_to!(ge => subs));
                        assert(decreases_to!(subs => subs@));
                        assert(decreases_to!(subs@ => subs@[i]));
                    }
                }
                let (s2, w) = self.rewrite_all(subs, Ghost(ge));
                (Expr::Other(s2), w)
            },
        }
    }

    /// Rewrite `expr` in place: every resolved call inside it, innermost
    /// first, is wrapped in the adapter; `wrapped` is set when any was.
    pub fn transform_expr(&mut self, expr: &mut Expr)
        ensures
            rewrites(old(self).names(), *old(expr), *final(expr)),
            final(self).names() == old(self).names(),
            final(self).async_names() == old(self).async_names(),
            final(self).extra_names() == old(self).extra_names(),
            final(self).has_wrapped() == (old(self).has_wrapped() || wraps_any(old(self).names(), *old(expr))),
    {
        let mut e = Expr::Other(Vec::new());
        std::mem::swap(&mut e, expr);
        let (r, w) = self.rewrite(e);
        *expr = r;
        if w {
            self.wrapped = true;
        }
    }
}

impl Default for AwaitTransformer {
    fn default() -> (t: Self)
        ensures
            t.async_names() == default_async_names(),
            t.extra_names().len() == 0,
            !t.has_wrapped(),
    {
        Self::new()
    }
}

} // verus!
