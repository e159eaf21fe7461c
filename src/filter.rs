use vstd::prelude::*;

verus! {

/// Filter designs. Only the second-order high-pass has a coefficient formula;
/// the others are rejected when selected.
#[derive(Clone, Copy, Debug, PartialEq, Eq, Structural)]
pub enum FilterAlgorithm {
    Lpf1P,
    Lpf1,
    Hpf1,
    Lpf2,
    Hpf2,
    Bpf2,
    Bsf2,
}

impl FilterAlgorithm {
    /// Whether coefficients can be computed for this design.
    pub fn is_implemented(self) -> (r: bool)
        ensures
            r == (self == FilterAlgorithm::Hpf2),
    {
        match self {
            FilterAlgorithm::Hpf2 => true,
            _ => false,
        }
    }
}

} // verus!
