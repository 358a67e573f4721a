use vstd::prelude::*;

verus! {

/// Bit flags attached to an expression by the module phase and read back by
/// the chunk phase.
#[derive(Clone, Copy, PartialEq, Eq, Debug)]
pub struct Annotation {
    pub flags: u32,
}

/// Flag bit: the expression is to be deduplicated.
pub const DEDUPE_FLAG: u32 = 1;

/// Flag bit: the string literal is a property key.
pub const KEY_FLAG: u32 = 2;

/// Name of the marker call `__oveo__(expr, flags)`.
pub const ANNOTATION_ID_NAME: &'static str = "__oveo__";

impl Annotation {
    /// Spec view of the dedupe bit.
    pub open spec fn has_dedupe(self) -> bool {
        self.flags & DEDUPE_FLAG != 0
    }

    /// Spec view of the key bit.
    pub open spec fn has_key(self) -> bool {
        self.flags & KEY_FLAG != 0
    }

    pub fn new(flags: u32) -> (r: Self)
        ensures
            r.flags == flags,
    {
        Annotation { flags }
    }

    pub fn dedupe() -> (r: Self)
        ensures
            r.flags == DEDUPE_FLAG,
            r.has_dedupe(),
            !r.has_key(),
    {
        let r = Annotation { flags: DEDUPE_FLAG };
        assert(1u32 & 1u32 != 0 && 1u32 & 2u32 == 0) by (bit_vector);
        r
    }

    pub fn key() -> (r: Self)
        ensures
            r.flags == KEY_FLAG,
            r.has_key(),
            !r.has_dedupe(),
    {
        let r = Annotation { flags: KEY_FLAG };
        assert(2u32 & 2u32 != 0 && 2u32 & 1u32 == 0) by (bit_vector);
        r
    }

    pub fn is_dedupe(&self) -> (r: bool)
        ensures
            r == self.has_dedupe(),
            r == (self.flags % 2 == 1),
    {
        let f = self.flags;
        assert(f & 1u32 != 0 <==> f % 2 == 1) by (bit_vector);
        self.flags & DEDUPE_FLAG != 0
    }

    pub fn is_key(&self) -> (r: bool)
        ensures
            r == self.has_key(),
            r == ((self.flags / 2) % 2 == 1),
    {
        let f = self.flags;
        assert(f & 2u32 != 0 <==> (f / 2) % 2 == 1) by (bit_vector);
        self.flags & KEY_FLAG != 0
    }
}

} // verus!
