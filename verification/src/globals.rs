//! The predefined global values that may be hoisted: each global and each of
//! its static properties under its dotted path (`Array`, `Array.isArray`,
//! `Object.prototype.hasOwnProperty`), whether it may be hoisted, and whether
//! constructing it without arguments may be shared (a singleton).
//! A lot of globals in the Web API are still missing.
use vstd::prelude::*;
use crate::strmap::{entries_map, str_eq, StrMap};
use crate::global_categories::{
    add_categories, category_globals, add_globals_console, add_globals_js, add_globals_web,
    add_globals_web_background_fetch, add_globals_web_barcode, add_globals_web_battery,
    add_globals_web_bluetooth, add_globals_web_paint, add_globals_web_sync, add_globals_web_typed_css,
};

verus! {

pub struct GlobalFunctionArgument {
    pub hoist: bool,
}

pub struct GlobalFunction {
    pub arguments: Vec<GlobalFunctionArgument>,
    /// Constructing it without arguments may be shared.
    pub singleton: bool,
    pub hoist: bool,
}

pub enum GlobalValueKind {
    Object,
    Func(GlobalFunction),
    Const(serde_json::Value),
}

pub struct GlobalValue {
    pub hoist: bool,
    pub kind: GlobalValueKind,
}

/// Constructing the value without arguments may be shared.
pub open spec fn is_singleton(v: GlobalValue) -> bool {
    v.kind matches GlobalValueKind::Func(f) && f.singleton
}

/// The names of the two singletons.
pub open spec fn singleton_name(name: Seq<char>) -> bool {
    name == "TextEncoder"@ || name == "TextDecoder"@
}

/// `s` holds no `.`.
pub open spec fn no_dot(s: Seq<char>) -> bool {
    forall|i: int| 0 <= i < s.len() ==> s[i] != '.'
}

/// `k` is `name` or a path below it (`name.` followed by more).
pub open spec fn under(name: Seq<char>, k: Seq<char>) -> bool {
    &&& k.len() >= name.len()
    &&& k.subrange(0, name.len() as int) == name
    &&& (k.len() == name.len() || k[name.len() as int] == '.')
}

/// `k` has the same entry, or none, in both tables.
pub open spec fn keeps_entry<V>(t: Map<Seq<char>, V>, u: Map<Seq<char>, V>, k: Seq<char>) -> bool {
    &&& u.contains_key(k) == t.contains_key(k)
    &&& t.contains_key(k) ==> u[k] == t[k]
}

/// The table without `name` and the paths below it.
pub open spec fn drop_under<V>(t: Map<Seq<char>, V>, name: Seq<char>) -> Map<Seq<char>, V> {
    Map::new(|k: Seq<char>| t.contains_key(k) && !under(name, k), |k: Seq<char>| t[k])
}

/// The dotted path of property `prop` of the value at `path` (the empty path
/// is the global object itself).
pub open spec fn child_path(path: Seq<char>, prop: Seq<char>) -> Seq<char> {
    if path.len() == 0 {
        prop
    } else {
        path + seq!['.'] + prop
    }
}

impl GlobalValue {
    pub fn is_hoistable(&self) -> (r: bool)
        ensures
            r == self.hoist,
    {
        self.hoist
    }

    pub fn is_singleton_func(&self) -> (r: bool)
        ensures
            r == is_singleton(*self),
    {
        if let GlobalValueKind::Func(f) = &self.kind {
            return f.singleton;
        }
        false
    }
}

/// Whether `path` is `name` or a path below it.
fn is_under(path: &str, name: &str) -> (r: bool)
    ensures
        r == under(name@, path@),
{
    let n = name.unicode_len();
    let m = path.unicode_len();
    if m < n {
        return false;
    }
    let mut i: usize = 0;
    while i < n
        invariant
            n == name@.len(),
            m == path@.len(),
            n <= m,
            i <= n,
            forall|k: int| 0 <= k < i ==> path@[k] == name@[k],
        decreases n - i,
    {
        if path.get_char(i) != name.get_char(i) {
            assert(path@.subrange(0, n as int)[i as int] != name@[i as int]);
            return false;
        }
        i = i + 1;
    }
    assert(path@.subrange(0, n as int) =~= name@);
    if m == n {
        true
    } else {
        path.get_char(n) == '.'
    }
}

fn has_dot(s: &str) -> (r: bool)
    ensures
        r == !no_dot(s@),
{
    let n = s.unicode_len();
    let mut i: usize = 0;
    while i < n
        invariant
            n == s@.len(),
            i <= n,
            forall|k: int| 0 <= k < i ==> s@[k] != '.',
        decreases n - i,
    {
        if s.get_char(i) == '.' {
            return true;
        }
        i = i + 1;
    }
    false
}

pub(crate) fn join_path(path: &str, prop: &str) -> (r: String)
    ensures
        r@ == child_path(path@, prop@),
{
    if path.unicode_len() == 0 {
        String::from_str(prop)
    } else {
        let a = String::from_str(path).concat(".");
        proof {
            reveal_strlit(".");
            assert("."@ =~= seq!['.']);
        }
        a.concat(prop)
    }
}

/// A category of globals that `Globals::add` knows.
pub open spec fn known_category(c: Seq<char>) -> bool {
    ||| c == "js"@
    ||| c == "console"@
    ||| c == "web"@
    ||| c == "web:typed-css"@
    ||| c == "web:background-fetch"@
    ||| c == "web:barcode"@
    ||| c == "web:battery"@
    ||| c == "web:bluetooth"@
    ||| c == "web:sync"@
    ||| c == "web:paint"@
}

/// The relative paths of `vs` put below `name`.
pub open spec fn prefixed(name: Seq<char>, vs: Seq<(Seq<char>, GlobalValue)>) -> Seq<(Seq<char>, GlobalValue)> {
    vs.map_values(|e: (Seq<char>, GlobalValue)| (child_path(name, e.0), e.1))
}

/// Every listed value may be hoisted and none is a singleton.
pub open spec fn all_plain(vs: Seq<(Seq<char>, GlobalValue)>) -> bool {
    forall|i: int| 0 <= i < vs.len() ==> (#[trigger] vs[i]).1.hoist && !is_singleton(vs[i].1)
}

/// The texts and values of a list of named values.
pub open spec fn named_views(v: Seq<(String, GlobalValue)>) -> Seq<(Seq<char>, GlobalValue)> {
    v.map_values(|e: (String, GlobalValue)| (e.0@, e.1))
}

/// The texts of a list of category names.
pub open spec fn category_names(cs: Seq<String>) -> Seq<Seq<char>> {
    cs.map_values(|c: String| c@)
}

/// A function as the optimizer reads it: whether each argument may be
/// hoisted, whether argument-less constructions may be shared, and whether
/// it may be hoisted.
pub struct FunctionView {
    pub arguments: Seq<bool>,
    pub singleton: bool,
    pub hoist: bool,
}

/// The kind of a global value, as a plain value.
pub enum KindView {
    Object,
    Func(FunctionView),
    Const(serde_json::Value),
}

/// A global value as a plain value: whether it may be hoisted, and its kind.
pub struct GlobalView {
    pub hoist: bool,
    pub kind: KindView,
}

/// The arguments of a function, as whether each may be hoisted.
pub open spec fn argument_views(args: Seq<GlobalFunctionArgument>) -> Seq<bool> {
    args.map_values(|a: GlobalFunctionArgument| a.hoist)
}

/// A function as a plain value.
pub open spec fn function_view(f: GlobalFunction) -> FunctionView {
    FunctionView { arguments: argument_views(f.arguments@), singleton: f.singleton, hoist: f.hoist }
}

/// A global value as a plain value.
pub open spec fn global_view(v: GlobalValue) -> GlobalView {
    GlobalView {
        hoist: v.hoist,
        kind: match v.kind {
            GlobalValueKind::Object => KindView::Object,
            GlobalValueKind::Func(f) => KindView::Func(function_view(f)),
            GlobalValueKind::Const(c) => KindView::Const(c),
        },
    }
}

/// A function that may be hoisted, takes no arguments and whose
/// argument-less constructions may be shared.
pub open spec fn singleton_function() -> FunctionView {
    FunctionView { arguments: Seq::empty(), singleton: true, hoist: true }
}

/// The listed values as plain values, under their paths.
pub open spec fn view_list(vs: Seq<(Seq<char>, GlobalValue)>) -> Seq<(Seq<char>, GlobalView)> {
    vs.map_values(|e: (Seq<char>, GlobalValue)| (e.0, global_view(e.1)))
}

/// Listed values put below `name`.
pub open spec fn prefix_views(name: Seq<char>, fs: Seq<(Seq<char>, GlobalView)>) -> Seq<
    (Seq<char>, GlobalView),
> {
    fs.map_values(|e: (Seq<char>, GlobalView)| (child_path(name, e.0), e.1))
}

/// A built value in summary: the value, and its static properties
/// under their relative paths.
pub open spec fn plain_summary() -> (GlobalView, Seq<(Seq<char>, GlobalView)>) {
    (GlobalView { hoist: true, kind: KindView::Object }, Seq::empty())
}

/// The summary after adding static property `name` with summary `v`.
pub open spec fn with_static_summary(
    b: (GlobalView, Seq<(Seq<char>, GlobalView)>),
    name: Seq<char>,
    v: (GlobalView, Seq<(Seq<char>, GlobalView)>),
) -> (GlobalView, Seq<(Seq<char>, GlobalView)>) {
    (b.0, b.1.push((name, v.0)) + prefix_views(name, v.1))
}

/// The summary after making the value the function `f`.
pub open spec fn with_func_summary(b: (GlobalView, Seq<(Seq<char>, GlobalView)>), f: FunctionView) -> (
    GlobalView,
    Seq<(Seq<char>, GlobalView)>,
) {
    (GlobalView { hoist: b.0.hoist, kind: KindView::Func(f) }, b.1)
}

/// The table after recording the listed values under their paths.
pub open spec fn record_views(t: Map<Seq<char>, GlobalView>, fs: Seq<(Seq<char>, GlobalView)>) -> Map<
    Seq<char>,
    GlobalView,
>
    decreases fs.len(),
{
    if fs.len() == 0 {
        t
    } else {
        record_views(t, fs.drop_last()).insert(fs.last().0, fs.last().1)
    }
}

/// The table of values after adding the global `name` built as `b`, in place of
/// whatever was at `name` and below it.
pub open spec fn put(
    t: Map<Seq<char>, GlobalView>,
    name: Seq<char>,
    b: (GlobalView, Seq<(Seq<char>, GlobalView)>),
) -> Map<Seq<char>, GlobalView> {
    record_views(drop_under(t, name).insert(name, b.0), prefix_views(name, b.1))
}

proof fn lemma_record_views_other(t: Map<Seq<char>, GlobalView>, fs: Seq<(Seq<char>, GlobalView)>, k: Seq<char>)
    requires
        forall|j: int| 0 <= j < fs.len() ==> (#[trigger] fs[j]).0 != k,
    ensures
        record_views(t, fs).contains_key(k) == t.contains_key(k),
        t.contains_key(k) ==> record_views(t, fs)[k] == t[k],
    decreases fs.len(),
{
    if fs.len() > 0 {
        assert(fs[fs.len() - 1].0 != k);
        lemma_record_views_other(t, fs.drop_last(), k);
    }
}

proof fn lemma_record_views_last(t: Map<Seq<char>, GlobalView>, fs: Seq<(Seq<char>, GlobalView)>, i: int)
    requires
        0 <= i < fs.len(),
        forall|j: int| i < j < fs.len() ==> (#[trigger] fs[j]).0 != fs[i].0,
    ensures
        record_views(t, fs).contains_key(fs[i].0),
        record_views(t, fs)[fs[i].0] == fs[i].1,
    decreases fs.len(),
{
    if i < fs.len() - 1 {
        assert(fs[fs.len() - 1].0 != fs[i].0);
        lemma_record_views_last(t, fs.drop_last(), i);
    }
}

proof fn lemma_child_path_under(name: Seq<char>, p: Seq<char>)
    requires
        name.len() > 0,
    ensures
        under(name, child_path(name, p)),
        child_path(name, p).len() > name.len(),
        forall|q: Seq<char>| child_path(name, q) == child_path(name, p) ==> q == p,
{
    let c = child_path(name, p);
    assert(c.subrange(0, name.len() as int) =~= name);
    assert(c[name.len() as int] == '.');
    assert forall|q: Seq<char>| child_path(name, q) == child_path(name, p) implies q == p by {
        let d = child_path(name, q);
        assert(d.subrange(name.len() + 1int, d.len() as int) =~= q);
        assert(c.subrange(name.len() + 1int, c.len() as int) =~= p);
    }
}

/// Adding the global `name` leaves every path that is neither `name` nor
/// below it as it was.
pub proof fn lemma_put_keeps_others(
    t: Map<Seq<char>, GlobalView>,
    name: Seq<char>,
    b: (GlobalView, Seq<(Seq<char>, GlobalView)>),
    k: Seq<char>,
)
    requires
        name.len() > 0,
        !under(name, k),
    ensures
        put(t, name, b).contains_key(k) == t.contains_key(k),
        t.contains_key(k) ==> put(t, name, b)[k] == t[k],
{
    let fs = prefix_views(name, b.1);
    assert forall|j: int| 0 <= j < fs.len() implies (#[trigger] fs[j]).0 != k by {
        lemma_child_path_under(name, b.1[j].0);
    }
    lemma_record_views_other(drop_under(t, name).insert(name, b.0), fs, k);
    assert(k != name) by {
        assert(name.subrange(0, name.len() as int) =~= name);
    }
}

/// After adding the global `name` built as `b`, `name` has `b`'s own value.
pub proof fn lemma_put_own(
    t: Map<Seq<char>, GlobalView>,
    name: Seq<char>,
    b: (GlobalView, Seq<(Seq<char>, GlobalView)>),
)
    requires
        name.len() > 0,
    ensures
        put(t, name, b).contains_key(name),
        put(t, name, b)[name] == b.0,
{
    let fs = prefix_views(name, b.1);
    assert forall|j: int| 0 <= j < fs.len() implies (#[trigger] fs[j]).0 != name by {
        lemma_child_path_under(name, b.1[j].0);
    }
    lemma_record_views_other(drop_under(t, name).insert(name, b.0), fs, name);
}

/// After adding the global `name` built as `b`, `name` has `b`'s own value,
/// and each static property listed in `b` has, under its path below `name`,
/// the value listed last for that path.
pub proof fn lemma_put_adds(
    t: Map<Seq<char>, GlobalView>,
    name: Seq<char>,
    b: (GlobalView, Seq<(Seq<char>, GlobalView)>),
    i: int,
)
    requires
        name.len() > 0,
        0 <= i < b.1.len(),
        forall|j: int| i < j < b.1.len() ==> (#[trigger] b.1[j]).0 != b.1[i].0,
    ensures
        put(t, name, b).contains_key(name),
        put(t, name, b)[name] == b.0,
        put(t, name, b).contains_key(child_path(name, b.1[i].0)),
        put(t, name, b)[child_path(name, b.1[i].0)] == b.1[i].1,
{
    let m = drop_under(t, name).insert(name, b.0);
    let fs = prefix_views(name, b.1);
    assert forall|j: int| 0 <= j < fs.len() implies (#[trigger] fs[j]).0 != name by {
        lemma_child_path_under(name, b.1[j].0);
    }
    lemma_record_views_other(m, fs, name);
    lemma_child_path_under(name, b.1[i].0);
    assert forall|j: int| i < j < fs.len() implies (#[trigger] fs[j]).0 != fs[i].0 by {
        assert(b.1[j].0 != b.1[i].0);
    }
    lemma_record_views_last(m, fs, i);
}

proof fn lemma_view_list_push_prefixed(
    s: Seq<(Seq<char>, GlobalValue)>,
    x: (Seq<char>, GlobalValue),
    name: Seq<char>,
    vs: Seq<(Seq<char>, GlobalValue)>,
)
    ensures
        view_list(s.push(x) + prefixed(name, vs)) == view_list(s).push((x.0, global_view(x.1))) + prefix_views(
            name,
            view_list(vs),
        ),
{
    assert(view_list(s.push(x) + prefixed(name, vs)) =~= view_list(s).push((x.0, global_view(x.1))) + prefix_views(
        name,
        view_list(vs),
    ));
}

proof fn lemma_record_views(t: Map<Seq<char>, GlobalValue>, vs: Seq<(Seq<char>, GlobalValue)>)
    ensures
        record_all(t, vs).map_values(|v: GlobalValue| global_view(v)) == record_views(
            t.map_values(|v: GlobalValue| global_view(v)),
            view_list(vs),
        ),
    decreases vs.len(),
{
    if vs.len() == 0 {
        assert(view_list(vs) =~= Seq::<(Seq<char>, GlobalView)>::empty());
    } else {
        lemma_record_views(t, vs.drop_last());
        assert(view_list(vs).drop_last() =~= view_list(vs.drop_last()));
        assert(record_all(t, vs).map_values(|v: GlobalValue| global_view(v)) =~= record_all(
            t,
            vs.drop_last(),
        ).map_values(|v: GlobalValue| global_view(v)).insert(vs.last().0, global_view(vs.last().1)));
    }
}

/// Builds a global value together with its static properties.
pub struct GlobalObjectBuilder {
    statics: Vec<(String, GlobalValue)>,
    hoist: bool,
    kind: GlobalValueKind,
}

impl GlobalObjectBuilder {
    /// The value this builder builds.
    pub closed spec fn value(&self) -> GlobalValue {
        GlobalValue { hoist: self.hoist, kind: self.kind }
    }

    /// Its static properties, at any depth, under their paths relative to it.
    pub closed spec fn statics(&self) -> Seq<(Seq<char>, GlobalValue)> {
        named_views(self.statics@)
    }

    /// The value and its static properties, as plain values.
    pub open spec fn summary(&self) -> (GlobalView, Seq<(Seq<char>, GlobalView)>) {
        (global_view(self.value()), view_list(self.statics()))
    }

    /// Adds a static property, with its own static properties below it.
    pub fn with_static(self, name: &str, value: GlobalObjectBuilder) -> (r: Self)
        ensures
            r.value() == self.value(),
            r.statics() == self.statics().push((name@, value.value())) + prefixed(name@, value.statics()),
            r.summary() == with_static_summary(self.summary(), name@, value.summary()),
            all_plain(self.statics()) && value.value().hoist && !is_singleton(value.value()) && all_plain(
                value.statics(),
            ) ==> all_plain(r.statics()),
    {
        let mut s = self;
        let ghost vs = value.statics();
        let GlobalObjectBuilder { statics: mut inner, hoist, kind } = value;
        s.statics.push((name.to_owned(), GlobalValue { hoist, kind }));
        let ghost base = named_views(s.statics@);
        assert(base =~= self.statics().push((name@, value.value())));
        let ghost mut i: int = 0;
        while inner.len() > 0
            invariant
                0 <= i <= vs.len(),
                named_views(inner@) == vs.subrange(i, vs.len() as int),
                named_views(s.statics@) == base + prefixed(name@, vs.subrange(0, i)),
                s.hoist == self.hoist,
                s.kind == self.kind,
            decreases inner@.len(),
        {
            let ghost before = s.statics@;
            let ghost inner_before = inner@;
            proof {
                assert(named_views(inner_before).len() == inner_before.len());
                assert(named_views(inner_before)[0] == vs.subrange(i, vs.len() as int)[0]);
            }
            let (p, v) = inner.remove(0);
            proof {
                assert(named_views(inner_before)[0] == (inner_before[0].0@, inner_before[0].1));
                assert(vs[i] == (p@, v));
                assert(named_views(inner@) =~= named_views(inner_before).drop_first());
            }
            let full = join_path(name, p.as_str());
            s.statics.push((full, v));
            proof {
                assert(named_views(inner@) =~= vs.subrange(i + 1, vs.len() as int));
                assert(prefixed(name@, vs.subrange(0, i + 1)) =~= prefixed(name@, vs.subrange(0, i)).push(
                    (child_path(name@, p@), v),
                ));
                assert(named_views(s.statics@) =~= named_views(before).push((full@, v)));
                i = i + 1;
            }
        }
        proof {
            assert(vs.subrange(i, vs.len() as int).len() == 0);
            assert(vs.subrange(0, i) =~= vs);
            lemma_view_list_push_prefixed(self.statics(), (name@, value.value()), name@, vs);
            let r = named_views(s.statics@);
            let n0 = self.statics().len();
            if all_plain(self.statics()) && value.value().hoist && !is_singleton(value.value()) && all_plain(vs) {
                assert forall|k: int| 0 <= k < r.len() implies (#[trigger] r[k]).1.hoist && !is_singleton(r[k].1) by {
                    if k < n0 {
                        assert(r[k] == self.statics()[k]);
                    } else if k == n0 {
                        assert(r[k] == (name@, value.value()));
                    } else {
                        assert(r[k] == prefixed(name@, vs)[k - n0 - 1]);
                        assert(prefixed(name@, vs)[k - n0 - 1].1 == vs[k - n0 - 1].1);
                    }
                }
            }
        }
        s
    }

    /// Makes the value a function.
    pub fn with_func(self, func: GlobalFunctionBuilder) -> (r: Self)
        ensures
            r.statics() == self.statics(),
            r.value().hoist == self.value().hoist,
            r.value().kind == GlobalValueKind::Func(func.value()),
            r.summary() == with_func_summary(self.summary(), func.function_view()),
    {
        let mut s = self;
        s.kind = GlobalValueKind::Func(func.build());
        s
    }
}

/// An object that may be hoisted and has no static properties yet.
pub fn object() -> (r: GlobalObjectBuilder)
    ensures
        r.statics() == Seq::<(Seq<char>, GlobalValue)>::empty(),
        r.value().hoist,
        r.value().kind == GlobalValueKind::Object,
        all_plain(r.statics()),
        r.summary() == plain_summary(),
{
    let r = GlobalObjectBuilder { statics: Vec::new(), kind: GlobalValueKind::Object, hoist: true };
    assert(r.statics() =~= Seq::<(Seq<char>, GlobalValue)>::empty());
    assert(view_list(r.statics()) =~= Seq::<(Seq<char>, GlobalView)>::empty());
    r
}

/// Builds a global function.
pub struct GlobalFunctionBuilder {
    pub arguments: Vec<GlobalFunctionArgument>,
    pub singleton: bool,
    pub hoist: bool,
}

impl GlobalFunctionBuilder {
    /// The function this builder builds.
    pub open spec fn value(&self) -> GlobalFunction {
        GlobalFunction { arguments: self.arguments, singleton: self.singleton, hoist: self.hoist }
    }

    /// The function this builder builds, as a plain value.
    pub open spec fn function_view(&self) -> FunctionView {
        function_view(self.value())
    }

    /// Marks the function as one whose argument-less constructions may be shared.
    pub fn singleton(self) -> (r: Self)
        ensures
            r.singleton,
            r.hoist == self.hoist,
            r.arguments == self.arguments,
            r.function_view() == (FunctionView { singleton: true, ..self.function_view() }),
    {
        let mut s = self;
        s.singleton = true;
        s
    }

    pub fn build(self) -> (r: GlobalFunction)
        ensures
            r == self.value(),
    {
        GlobalFunction { arguments: self.arguments, singleton: self.singleton, hoist: self.hoist }
    }
}

/// A function that may be hoisted, takes no arguments and is no singleton.
pub fn func() -> (r: GlobalFunctionBuilder)
    ensures
        r.arguments@.len() == 0,
        !r.singleton,
        r.hoist,
        r.function_view() == (FunctionView { arguments: Seq::empty(), singleton: false, hoist: true }),
{
    let r = GlobalFunctionBuilder { arguments: Vec::new(), singleton: false, hoist: true };
    assert(argument_views(r.arguments@) =~= Seq::<bool>::empty());
    r
}

/// The table after recording the listed values under their paths, in order.
pub open spec fn record_all(t: Map<Seq<char>, GlobalValue>, vs: Seq<(Seq<char>, GlobalValue)>) -> Map<
    Seq<char>,
    GlobalValue,
>
    decreases vs.len(),
{
    if vs.len() == 0 {
        t
    } else {
        record_all(t, vs.drop_last()).insert(vs.last().0, vs.last().1)
    }
}

/// Every global may be hoisted, the global object may not, and the only
/// singletons are `TextEncoder` and `TextDecoder`.
pub open spec fn table_ok(root: GlobalValue, table: Map<Seq<char>, GlobalValue>) -> bool {
    &&& !root.hoist
    &&& !is_singleton(root)
    &&& forall|k: Seq<char>| #[trigger]
        table.contains_key(k) ==> table[k].hoist && (is_singleton(table[k]) ==> singleton_name(k))
}

/// The globals in use: the global object itself, and each global and static
/// property under its dotted path.
pub struct Globals {
    root: GlobalValue,
    entries: StrMap<GlobalValue>,
}

impl Globals {
    /// Each global and static property under its dotted path.
    pub closed spec fn table(&self) -> Map<Seq<char>, GlobalValue> {
        self.entries@
    }

    /// Each global and static property under its path, as a plain value:
    /// the whole table.
    pub open spec fn summary(&self) -> Map<Seq<char>, GlobalView> {
        self.table().map_values(|v: GlobalValue| global_view(v))
    }

    /// The global object (`window`, `globalThis`).
    pub closed spec fn root(&self) -> GlobalValue {
        self.root
    }

    /// Every global may be hoisted, the global object may not, and the only
    /// singletons are `TextEncoder` and `TextDecoder`: this holds of every
    /// value of the type.
    #[verifier::type_invariant]
    pub open spec fn wf(&self) -> bool {
        table_ok(self.root(), self.table())
    }

    /// No globals; the global object is an object that may not be hoisted.
    pub fn new() -> (r: Self)
        ensures
            r.table() == Map::<Seq<char>, GlobalValue>::empty(),
            r.root() == (GlobalValue { hoist: false, kind: GlobalValueKind::Object }),
    {
        Globals {
            root: GlobalValue { hoist: false, kind: GlobalValueKind::Object },
            entries: StrMap::new(),
        }
    }

    /// The global named `name`: `window` and `globalThis` are the global
    /// object itself; a name with a `.` is no global.
    pub open spec fn get_spec(&self, name: Seq<char>) -> Option<GlobalValue> {
        if name == "window"@ || name == "globalThis"@ {
            Some(self.root())
        } else if no_dot(name) && self.table().contains_key(name) {
            Some(self.table()[name])
        } else {
            None
        }
    }

    /// Static property `prop` of the value at `path`.
    pub open spec fn static_spec(&self, path: Seq<char>, prop: Seq<char>) -> Option<GlobalValue> {
        if no_dot(prop) && self.table().contains_key(child_path(path, prop)) {
            Some(self.table()[child_path(path, prop)])
        } else {
            None
        }
    }

    /// The global named `name`.
    pub fn get(&self, name: &str) -> (r: Option<&GlobalValue>)
        ensures
            match r {
                Some(v) => self.get_spec(name@) == Some(*v),
                None => self.get_spec(name@) is None,
            },
    {
        if str_eq(name, "window") || str_eq(name, "globalThis") {
            Some(&self.root)
        } else if has_dot(name) {
            None
        } else {
            self.entries.get(name)
        }
    }

    /// The value at dotted path `path`: the global object for the empty path.
    pub open spec fn value_at(&self, path: Seq<char>) -> Option<GlobalValue> {
        if path.len() == 0 {
            Some(self.root())
        } else if self.table().contains_key(path) {
            Some(self.table()[path])
        } else {
            None
        }
    }

    /// The value at dotted path `path`.
    pub fn at_path(&self, path: &str) -> (r: Option<&GlobalValue>)
        ensures
            match r {
                Some(v) => self.value_at(path@) == Some(*v),
                None => self.value_at(path@) is None,
            },
    {
        if path.unicode_len() == 0 {
            Some(&self.root)
        } else {
            self.entries.get(path)
        }
    }

    /// Static property `prop` of the global at `path` (the empty path being
    /// the global object).
    pub fn get_static(&self, path: &str, prop: &str) -> (r: Option<&GlobalValue>)
        ensures
            match r {
                Some(v) => self.static_spec(path@, prop@) == Some(*v),
                None => self.static_spec(path@, prop@) is None,
            },
    {
        if has_dot(prop) {
            None
        } else {
            let full = join_path(path, prop);
            self.entries.get(full.as_str())
        }
    }

    /// Adds the globals of each named category: `js`, `console`, `web`,
    /// `web:typed-css`, `web:background-fetch`, `web:barcode`, `web:battery`,
    /// `web:bluetooth`, `web:sync`, `web:paint`. Other names add nothing.
    pub fn add(&mut self, categories: &Vec<String>)
        ensures
            final(self).root() == old(self).root(),
            final(self).summary() == add_categories(old(self).summary(), category_names(categories@)),
            (forall|i: int| 0 <= i < categories@.len() ==> !known_category(#[trigger] categories@[i]@))
                ==> final(self).table() == old(self).table(),
    {
        let mut i: usize = 0;
        while i < categories.len()
            invariant
                i <= categories@.len(),
                self.root() == old(self).root(),
                self.summary() == add_categories(old(self).summary(), category_names(categories@).subrange(0, i as int)),
                (forall|j: int| 0 <= j < i ==> !known_category(#[trigger] categories@[j]@)) ==> self.table()
                    == old(self).table(),
            decreases categories@.len() - i,
        {
            let ghost before = self.summary();
            proof {
                let names = category_names(categories@);
                assert(names.subrange(0, i + 1).drop_last() =~= names.subrange(0, i as int));
                assert(names.subrange(0, i + 1).last() == categories@[i as int]@);
            }
            let name = categories[i].as_str();
            if str_eq(name, "js") {
                add_globals_js(self);
            } else if str_eq(name, "console") {
                add_globals_console(self);
            } else if str_eq(name, "web") {
                add_globals_web(self);
            } else if str_eq(name, "web:typed-css") {
                add_globals_web_typed_css(self);
            } else if str_eq(name, "web:background-fetch") {
                add_globals_web_background_fetch(self);
            } else if str_eq(name, "web:barcode") {
                add_globals_web_barcode(self);
            } else if str_eq(name, "web:battery") {
                add_globals_web_battery(self);
            } else if str_eq(name, "web:bluetooth") {
                add_globals_web_bluetooth(self);
            } else if str_eq(name, "web:sync") {
                add_globals_web_sync(self);
            } else if str_eq(name, "web:paint") {
                add_globals_web_paint(self);
            }
            assert(self.summary() == category_globals(name@, before));
            i = i + 1;
        }
        assert(category_names(categories@).subrange(0, i as int) =~= category_names(categories@));
    }

    /// Adds the global `name` with its static properties, replacing the
    /// global of that name and all its static properties.
    pub(crate) fn set(&mut self, name: &str, value: GlobalObjectBuilder)
        requires
            value.value().hoist,
            is_singleton(value.value()) ==> singleton_name(name@),
            all_plain(value.statics()),
        ensures
            final(self).root() == old(self).root(),
            final(self).table() == record_all(
                drop_under(old(self).table(), name@).insert(name@, value.value()),
                prefixed(name@, value.statics()),
            ),
            final(self).summary() == put(old(self).summary(), name@, value.summary()),
            name@.len() > 0 ==> final(self).summary().contains_key(name@) && final(self).summary()[name@]
                == value.summary().0,
            forall|k: Seq<char>|
                #![trigger final(self).summary().contains_key(k)]
                #![trigger old(self).summary().contains_key(k)]
                name@.len() > 0 && !under(name@, k) ==> keeps_entry(old(self).summary(), final(self).summary(), k),
    {
        proof {
            use_type_invariant(&*self);
        }
        let mut taken = Globals {
            root: GlobalValue { hoist: false, kind: GlobalValueKind::Object },
            entries: StrMap::new(),
        };
        std::mem::swap(&mut taken, self);
        proof {
            use_type_invariant(&taken);
        }
        let Globals { root, entries: all_entries } = taken;
        let ghost old_entries = all_entries@;
        let mut rest = all_entries.into_entries();
        let ghost all = rest@;
        let mut entries: StrMap<GlobalValue> = StrMap::new();
        let ghost mut j: int = 0;
        assert(entries@ =~= drop_under(entries_map(all.subrange(0, 0)), name@));
        while rest.len() > 0
            invariant
                0 <= j <= all.len(),
                rest@ == all.subrange(j, all.len() as int),
                entries@ == drop_under(entries_map(all.subrange(0, j)), name@),
            decreases rest@.len(),
        {
            let ghost rest_before = rest@;
            let (k, v) = rest.remove(0);
            proof {
                assert(rest_before[0] == all[j]);
                assert(all.subrange(0, j + 1).drop_last() =~= all.subrange(0, j));
                assert(rest@ =~= all.subrange(j + 1, all.len() as int));
            }
            let ghost before = entries@;
            if !is_under(k.as_str(), name) {
                entries.insert(k, v);
            }
            proof {
                assert(entries@ =~= drop_under(entries_map(all.subrange(0, j + 1)), name@));
                j = j + 1;
            }
        }
        proof {
            assert(all.subrange(0, j) =~= all);
            assert(entries@ == drop_under(old_entries, name@));
            assert(table_ok(root, entries@));
        }
        let ghost vs = value.statics();
        let GlobalObjectBuilder { statics: mut inner, hoist, kind } = value;
        let ghost t0 = entries@.insert(name@, value.value());
        let ghost e0 = entries@;
        entries.insert(name.to_owned(), GlobalValue { hoist, kind });
        proof {
            assert forall|k: Seq<char>| #[trigger] entries@.contains_key(k) implies entries@[k].hoist
                && (is_singleton(entries@[k]) ==> singleton_name(k)) by {
                if k != name@ {
                    assert(e0.contains_key(k));
                }
            }
        }
        let ghost mut i: int = 0;
        assert(record_all(t0, prefixed(name@, vs.subrange(0, 0))) == t0) by {
            assert(prefixed(name@, vs.subrange(0, 0)) =~= Seq::<(Seq<char>, GlobalValue)>::empty());
        }
        while inner.len() > 0
            invariant
                0 <= i <= vs.len(),
                all_plain(vs),
                named_views(inner@) == vs.subrange(i, vs.len() as int),
                entries@ == record_all(t0, prefixed(name@, vs.subrange(0, i))),
                root == old(self).root(),
                table_ok(root, entries@),
            decreases inner@.len(),
        {
            let ghost inner_before = inner@;
            proof {
                assert(named_views(inner_before).len() == inner_before.len());
                assert(named_views(inner_before)[0] == vs.subrange(i, vs.len() as int)[0]);
            }
            let (p, v) = inner.remove(0);
            proof {
                assert(named_views(inner_before)[0] == (inner_before[0].0@, inner_before[0].1));
                assert(vs[i] == (p@, v));
                assert(named_views(inner@) =~= named_views(inner_before).drop_first());
            }
            let full = join_path(name, p.as_str());
            let ghost before = entries@;
            entries.insert(full, v);
            proof {
                assert(named_views(inner@) =~= vs.subrange(i + 1, vs.len() as int));
                let pre = prefixed(name@, vs.subrange(0, i + 1));
                assert(pre.drop_last() =~= prefixed(name@, vs.subrange(0, i)));
                assert(entries@ == record_all(t0, pre));
                assert(v.hoist && !is_singleton(v));
                assert forall|k: Seq<char>| #[trigger] entries@.contains_key(k) implies entries@[k].hoist
                    && (is_singleton(entries@[k]) ==> singleton_name(k)) by {
                    if k != child_path(name@, p@) {
                        assert(before.contains_key(k));
                    }
                }
                i = i + 1;
            }
        }
        proof {
            assert(vs.subrange(0, i) =~= vs);
            lemma_record_views(t0, prefixed(name@, vs));
            assert(t0.map_values(|v: GlobalValue| global_view(v)) =~= drop_under(old(self).summary(), name@).insert(
                name@,
                global_view(value.value()),
            ));
            assert(view_list(prefixed(name@, vs)) =~= prefix_views(name@, view_list(vs)));
        }
        *self = Globals { root, entries };
        proof {
            if name@.len() > 0 {
                lemma_put_own(old(self).summary(), name@, value.summary());
                assert forall|k: Seq<char>| !under(name@, k) implies keeps_entry(old(self).summary(), self.summary(), k) by {
                    lemma_put_keeps_others(old(self).summary(), name@, value.summary(), k);
                }
            }
        }
    }
}


} // verus!
