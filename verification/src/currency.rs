use vstd::prelude::*;

verus! {

/// A currency, known by the number that ISO 4217 gives it.
#[derive(Debug, Clone, Copy, PartialEq, Eq, Structural)]
pub struct Currency {
    pub code: u16,
}

impl Currency {
    pub fn new(code: u16) -> (currency: Self)
        ensures
            currency.code == code,
    {
        Self { code }
    }
}

} // verus!
