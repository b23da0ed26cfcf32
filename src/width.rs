use vstd::prelude::*;

verus! {

/// The integer width configured for diffstat counts.
#[derive(Clone, Copy, Debug, PartialEq, Eq, Structural)]
pub enum Width {
    Bits16,
    Bits32,
    Bits64,
}

/// The largest count that `w` holds.
pub open spec fn max_count(w: Width) -> nat {
    match w {
        Width::Bits16 => 0xffff,
        Width::Bits32 => 0xffff_ffff,
        Width::Bits64 => 0xffff_ffff_ffff_ffff,
    }
}

impl Width {
    /// The largest count this width holds.
    pub fn max_value(self) -> (r: u64)
        ensures
            r == max_count(self),
    {
        match self {
            Width::Bits16 => 0xffff,
            Width::Bits32 => 0xffff_ffff,
            Width::Bits64 => 0xffff_ffff_ffff_ffff,
        }
    }
}

} // verus!
