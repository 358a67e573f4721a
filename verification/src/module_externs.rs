//! Resolution of identifiers and member expressions to extern values, from
//! the imports of a module.
use crate::externs::{ExternMap, ExternModule, ExternValue, arc_clone};
use crate::strmap::StrMap;
use std::collections::HashMap;
use std::sync::Arc;
use vstd::prelude::*;

verus! {

broadcast use vstd::std_specs::hash::group_hash_axioms;

/// What resolution reads of an expression: an identifier reference and the
/// symbol it refers to (if it refers to a declared one), a static member
/// access, or anything else.
pub enum ExternRef {
    Identifier(Option<u32>),
    StaticMember(Box<ExternRef>, String),
    Other,
}

/// One binding of an import declaration and the symbol it declares.
pub enum ImportBinding {
    /// `import { imported as local } from "source"`
    Named(String, u32),
    /// `import local from "source"`
    Default(u32),
    /// `import * as local from "source"`
    Namespace(u32),
}

pub struct Externs<'ctx> {
    map: &'ctx ExternMap,
    symbols: HashMap<u32, ExternValue>,
}

/// The extern value that `node` denotes, given the values bound to symbols.
pub open spec fn resolve_spec(symbols: Map<u32, ExternValue>, node: ExternRef) -> Option<
    ExternValue,
>
    decreases node,
{
    match node {
        ExternRef::Identifier(Some(s)) => if symbols.contains_key(s) {
            Some(symbols[s])
        } else {
            None
        },
        ExternRef::StaticMember(obj, prop) => match resolve_spec(symbols, *obj) {
            Some(ExternValue::Namespace(m)) => if m.exports@.contains_key(prop@) {
                Some(m.exports@[prop@])
            } else {
                None
            },
            _ => None,
        },
        _ => None,
    }
}

/// The bindings after the import of `bs` from the module `m`: a named
/// import binds the export of that name, a default import the export
/// `default`, a namespace import the module itself; a name the module does
/// not export binds nothing.
pub open spec fn bind_spec(
    symbols: Map<u32, ExternValue>,
    m: Arc<ExternModule>,
    bs: Seq<ImportBinding>,
) -> Map<u32, ExternValue>
    decreases bs.len(),
{
    if bs.len() == 0 {
        symbols
    } else {
        let s = bind_spec(symbols, m, bs.drop_last());
        match bs.last() {
            ImportBinding::Named(name, local) => if m.exports@.contains_key(name@) {
                s.insert(local, m.exports@[name@])
            } else {
                s
            },
            ImportBinding::Default(local) => if m.exports@.contains_key("default"@) {
                s.insert(local, m.exports@["default"@])
            } else {
                s
            },
            ImportBinding::Namespace(local) => s.insert(local, ExternValue::Namespace(m)),
        }
    }
}

impl<'ctx> Externs<'ctx> {
    /// The extern value bound to each symbol.
    pub closed spec fn bindings(&self) -> Map<u32, ExternValue> {
        self.symbols@
    }

    /// The extern map the bindings come from.
    pub closed spec fn extern_map(&self) -> &'ctx ExternMap {
        self.map
    }

    pub fn new(map: &'ctx ExternMap) -> (r: Self)
        ensures
            r.bindings() == Map::<u32, ExternValue>::empty(),
            r.extern_map() == map,
    {
        Externs { map, symbols: HashMap::new() }
    }

    /// The extern value that `node` denotes.
    pub fn resolve(&self, node: &ExternRef) -> (r: Option<ExternValue>)
        ensures
            r == resolve_spec(self.bindings(), *node),
        decreases node,
    {
        match node {
            ExternRef::Identifier(Some(symbol_id)) => match self.symbols.get(symbol_id) {
                Some(v) => Some(v.clone()),
                None => None,
            },
            ExternRef::StaticMember(object, property) => match self.resolve(object) {
                Some(ExternValue::Namespace(m)) => match m.exports.get(property.as_str()) {
                    Some(v) => Some(v.clone()),
                    None => None,
                },
                _ => None,
            },
            _ => None,
        }
    }

    /// Binds `symbol_id` to `value`.
    pub fn insert(&mut self, symbol_id: u32, value: ExternValue)
        ensures
            final(self).bindings() == old(self).bindings().insert(symbol_id, value),
            final(self).extern_map() == old(self).extern_map(),
    {
        self.symbols.insert(symbol_id, value);
    }

    /// The described modules, by name.
    pub fn modules(&self) -> (r: &'ctx StrMap<Arc<ExternModule>>)
        ensures
            r == &self.extern_map().modules,
    {
        &self.map.modules
    }

    /// Binds the local symbols of an import declaration from `source`, if
    /// the extern map describes that module; otherwise binds nothing.
    pub fn import_declaration(&mut self, source: &str, bindings: &Vec<ImportBinding>)
        ensures
            final(self).extern_map() == old(self).extern_map(),
            old(self).extern_map().modules@.contains_key(source@) ==> final(self).bindings()
                == bind_spec(
                old(self).bindings(),
                old(self).extern_map().modules@[source@],
                bindings@,
            ),
            !old(self).extern_map().modules@.contains_key(source@) ==> final(self).bindings()
                == old(self).bindings(),
    {
        let module = match self.map.modules.get(source) {
            Some(m) => arc_clone(m),
            None => {
                return ;
            },
        };
        let ghost s0 = self.symbols@;
        let mut i: usize = 0;
        assert(bindings@.subrange(0, 0) =~= Seq::<ImportBinding>::empty());
        while i < bindings.len()
            invariant
                i <= bindings@.len(),
                self.map == old(self).map,
                self.symbols@ == bind_spec(s0, module, bindings@.subrange(0, i as int)),
            decreases bindings@.len() - i,
        {
            proof {
                assert(bindings@.subrange(0, i + 1).drop_last() =~= bindings@.subrange(0, i as int));
                assert(bindings@.subrange(0, i + 1).last() == bindings@[i as int]);
            }
            match &bindings[i] {
                ImportBinding::Named(name, local) => {
                    if let Some(v) = module.exports.get(name.as_str()) {
                        self.symbols.insert(*local, v.clone());
                    }
                },
                ImportBinding::Default(local) => {
                    if let Some(v) = module.exports.get("default") {
                        self.symbols.insert(*local, v.clone());
                    }
                },
                ImportBinding::Namespace(local) => {
                    self.symbols.insert(*local, ExternValue::Namespace(arc_clone(&module)));
                },
            }
            i += 1;
        }
        assert(bindings@.subrange(0, bindings@.len() as int) =~= bindings@);
    }
}

/// A named import resolves to the module's export of that name.
pub proof fn lemma_named_import_resolves(
    symbols: Map<u32, ExternValue>,
    m: Arc<ExternModule>,
    bs: Seq<ImportBinding>,
    name: String,
    local: u32,
)
    requires
        bs.len() > 0,
        bs.last() == ImportBinding::Named(name, local),
        m.exports@.contains_key(name@),
    ensures
        resolve_spec(bind_spec(symbols, m, bs), ExternRef::Identifier(Some(local))) == Some(
            m.exports@[name@],
        ),
{
}

/// A member of a namespace import resolves to the module's export of the
/// member's name, and to nothing when the module has no such export.
pub proof fn lemma_namespace_import_resolves(
    symbols: Map<u32, ExternValue>,
    m: Arc<ExternModule>,
    bs: Seq<ImportBinding>,
    local: u32,
    prop: String,
)
    requires
        bs.len() > 0,
        bs.last() == ImportBinding::Namespace(local),
    ensures
        resolve_spec(
            bind_spec(symbols, m, bs),
            ExternRef::StaticMember(Box::new(ExternRef::Identifier(Some(local))), prop),
        ) == (if m.exports@.contains_key(prop@) {
            Some(m.exports@[prop@])
        } else {
            None::<ExternValue>
        }),
{
    reveal_with_fuel(resolve_spec, 2);
}

/// A default import binds its local symbol to the module's `default`
/// export: an identifier referring to it resolves to that export, and to
/// nothing when the module has none (unless bound before).
pub proof fn lemma_default_import_resolves(
    symbols: Map<u32, ExternValue>,
    m: Arc<ExternModule>,
    bs: Seq<ImportBinding>,
    local: u32,
)
    requires
        bs.len() > 0,
        bs.last() == ImportBinding::Default(local),
    ensures
        m.exports@.contains_key("default"@) ==> resolve_spec(
            bind_spec(symbols, m, bs),
            ExternRef::Identifier(Some(local)),
        ) == Some(m.exports@["default"@]),
        !m.exports@.contains_key("default"@) ==> bind_spec(symbols, m, bs) == bind_spec(
            symbols,
            m,
            bs.drop_last(),
        ),
{
}

/// `import local from "m"` binds exactly as `import { default as local }
/// from "m"`.
pub proof fn lemma_default_is_named_default(
    symbols: Map<u32, ExternValue>,
    m: Arc<ExternModule>,
    bs: Seq<ImportBinding>,
    name: String,
    local: u32,
)
    requires
        name@ == "default"@,
    ensures
        bind_spec(symbols, m, bs.push(ImportBinding::Default(local))) == bind_spec(
            symbols,
            m,
            bs.push(ImportBinding::Named(name, local)),
        ),
{
    assert(bs.push(ImportBinding::Default(local)).drop_last() =~= bs);
    assert(bs.push(ImportBinding::Named(name, local)).drop_last() =~= bs);
}

} // verus!
