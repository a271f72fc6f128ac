use vstd::prelude::*;

verus! {

/// Which outcome token an estimate favours.
#[derive(Debug, Clone, Copy, PartialEq, Eq, Structural)]
pub enum Direction {
    BuyYes,
    BuyNo,
    NoTrade,
}

} // verus!
