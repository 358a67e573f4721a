//! Descriptions of outside modules: which of their functions hoist an
//! argument or open a hoist scope, and which exports are constants. The
//! module `oveo` holds the intrinsic functions `hoist`, `scope`, `dedupe`
//! and `key`.
use crate::strmap::StrMap;
use std::sync::Arc;
use vstd::prelude::*;

verus! {

/// A JSON value, held opaquely.
#[verifier::external_type_specification]
#[verifier::external_body]
pub struct ExJsonValue(serde_json::Value);

/// Name of the module of intrinsic functions.
pub const INTRINSICS_MODULE_NAME: &'static str = "oveo";

pub struct ExternModule {
    pub exports: StrMap<ExternValue>,
}

pub struct ExternMap {
    pub modules: StrMap<Arc<ExternModule>>,
}

pub enum ExternValue {
    Namespace(Arc<ExternModule>),
    Function(Arc<ExternFunction>),
    Const(Arc<ExternConst>),
}

pub struct ExternFunction {
    pub arguments: Vec<ExternFunctionArgument>,
    pub intrinsic: Option<IntrinsicFunction>,
}

#[derive(Clone, Copy, PartialEq, Eq, Debug, Structural)]
pub enum IntrinsicFunction {
    Hoist,
    Scope,
    Dedupe,
    Key,
}

#[derive(Clone, Copy, PartialEq, Eq, Debug, Structural)]
pub struct ExternFunctionArgument {
    pub hoist: bool,
    pub scope: bool,
}

pub struct ExternConst {
    pub value: serde_json::Value,
}

/// Calls `Arc::clone`: the result shares the value of `a`.
#[verifier::external_body]
pub(crate) fn arc_clone<T>(a: &Arc<T>) -> (r: Arc<T>)
    ensures
        r == *a,
{
    Arc::clone(a)
}

impl Clone for ExternValue {
    fn clone(&self) -> (r: Self)
        ensures
            r == *self,
    {
        match self {
            ExternValue::Namespace(m) => ExternValue::Namespace(arc_clone(m)),
            ExternValue::Function(f) => ExternValue::Function(arc_clone(f)),
            ExternValue::Const(c) => ExternValue::Const(arc_clone(c)),
        }
    }
}

/// `v` is the intrinsic function `kind` whose arguments are `args`.
pub open spec fn is_intrinsic(
    v: ExternValue,
    kind: IntrinsicFunction,
    args: Seq<ExternFunctionArgument>,
) -> bool {
    match v {
        ExternValue::Function(f) => f.intrinsic == Some(kind) && f.arguments@ == args,
        _ => false,
    }
}

/// The exports of the intrinsics module: `hoist` hoists its argument,
/// `scope` opens a hoist scope with it, `dedupe` and `key` take nothing
/// special.
pub open spec fn intrinsic_exports(exports: Map<Seq<char>, ExternValue>) -> bool {
    &&& exports.dom() =~= set!["hoist"@, "scope"@, "dedupe"@, "key"@]
    &&& is_intrinsic(
        exports["hoist"@],
        IntrinsicFunction::Hoist,
        seq![ExternFunctionArgument { hoist: true, scope: false }],
    )
    &&& is_intrinsic(
        exports["scope"@],
        IntrinsicFunction::Scope,
        seq![ExternFunctionArgument { hoist: false, scope: true }],
    )
    &&& is_intrinsic(exports["dedupe"@], IntrinsicFunction::Dedupe, seq![])
    &&& is_intrinsic(exports["key"@], IntrinsicFunction::Key, seq![])
}

/// An argument that is hoisted.
fn arg_hoist() -> (r: ExternFunctionArgument)
    ensures
        r == (ExternFunctionArgument { hoist: true, scope: false }),
{
    ExternFunctionArgument { hoist: true, scope: false }
}

/// An argument that opens a hoist scope.
fn arg_scope() -> (r: ExternFunctionArgument)
    ensures
        r == (ExternFunctionArgument { hoist: false, scope: true }),
{
    ExternFunctionArgument { hoist: false, scope: true }
}

fn add_intrinsic(
    intrinsics: &mut StrMap<ExternValue>,
    name: &str,
    kind: IntrinsicFunction,
    arguments: Vec<ExternFunctionArgument>,
)
    ensures
        final(intrinsics)@.dom() == old(intrinsics)@.dom().insert(name@),
        forall|k: Seq<char>|
            k != name@ && old(intrinsics)@.contains_key(k) ==> final(intrinsics)@[k] == old(
                intrinsics,
            )@[k],
        is_intrinsic(final(intrinsics)@[name@], kind, arguments@),
{
    let ghost args = arguments@;
    let v = ExternValue::Function(Arc::new(ExternFunction { arguments, intrinsic: Some(kind) }));
    intrinsics.insert(String::from_str(name), v);
}

/// The map after importing `items` in order; a later module of the same
/// name replaces an earlier one.
pub open spec fn import_spec(
    m: Map<Seq<char>, Arc<ExternModule>>,
    items: Seq<(String, ExternModule)>,
) -> Map<Seq<char>, Arc<ExternModule>>
    decreases items.len(),
{
    if items.len() == 0 {
        m
    } else {
        import_spec(m, items.drop_last()).insert(items.last().0@, Arc::new(items.last().1))
    }
}

impl ExternMap {
    /// A map that holds the intrinsics module and nothing else.
    pub fn new() -> (r: Self)
        ensures
            r.modules@.dom() =~= set![INTRINSICS_MODULE_NAME@],
            intrinsic_exports(r.modules@[INTRINSICS_MODULE_NAME@].exports@),
    {
        proof {
            reveal_strlit("hoist");
            reveal_strlit("scope");
            reveal_strlit("dedupe");
            reveal_strlit("key");
        }
        assert("hoist"@[0] == 'h' && "scope"@[0] == 's' && "dedupe"@[0] == 'd' && "key"@[0] == 'k');
        let mut exports = StrMap::new();
        let mut a1 = Vec::new();
        a1.push(arg_hoist());
        let mut a2 = Vec::new();
        a2.push(arg_scope());
        assert(a1@ =~= seq![ExternFunctionArgument { hoist: true, scope: false }]);
        assert(a2@ =~= seq![ExternFunctionArgument { hoist: false, scope: true }]);
        add_intrinsic(&mut exports, "hoist", IntrinsicFunction::Hoist, a1);
        add_intrinsic(&mut exports, "scope", IntrinsicFunction::Scope, a2);
        add_intrinsic(&mut exports, "dedupe", IntrinsicFunction::Dedupe, Vec::new());
        add_intrinsic(&mut exports, "key", IntrinsicFunction::Key, Vec::new());
        assert(intrinsic_exports(exports@));
        let mut modules = StrMap::new();
        modules.insert(
            String::from_str(INTRINSICS_MODULE_NAME),
            Arc::new(ExternModule { exports }),
        );
        ExternMap { modules }
    }

    /// Adds modules read from an extern file, in order; a module of a name
    /// already present replaces it.
    pub fn import_modules(&mut self, items: Vec<(String, ExternModule)>)
        ensures
            final(self).modules@ == import_spec(old(self).modules@, items@),
    {
        let ghost all = items@;
        let ghost m0 = self.modules@;
        let mut rest = items;
        let mut rev: Vec<(String, ExternModule)> = Vec::new();
        while rest.len() > 0
            invariant
                rev@ + rest@.reverse() == all.reverse(),
            decreases rest.len(),
        {
            let ghost r0 = rest@;
            let x = rest.pop().unwrap();
            proof {
                assert(r0 == rest@.push(x));
                assert(r0.reverse() =~= seq![x] + rest@.reverse());
                assert(rev@.push(x) + rest@.reverse() =~= rev@ + r0.reverse());
            }
            rev.push(x);
        }
        assert(rest@.reverse() =~= Seq::<(String, ExternModule)>::empty());
        assert(rev@ =~= all.reverse());
        let n = rev.len();
        let mut i: usize = 0;
        assert(all.subrange(0, 0) =~= Seq::<(String, ExternModule)>::empty());
        while i < n
            invariant
                n == all.len(),
                i <= n,
                rev@.len() == n - i,
                forall|k: int| 0 <= k < n - i ==> rev@[k] == all[n - 1 - k],
                self.modules@ == import_spec(m0, all.subrange(0, i as int)),
            decreases n - i,
        {
            let ghost r0 = rev@;
            let (name, module) = rev.pop().unwrap();
            proof {
                assert(rev@ =~= r0.drop_last());
                assert(all.subrange(0, i + 1).drop_last() =~= all.subrange(0, i as int));
                assert(all.subrange(0, i + 1).last() == all[i as int]);
            }
            self.modules.insert(name, Arc::new(module));
            i += 1;
        }
        assert(all.subrange(0, n as int) =~= all);
    }
}

} // verus!
