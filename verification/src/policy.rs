use vstd::prelude::*;

verus! {

/// Discrete actions of the limit-order policy.
#[derive(Debug, Clone, Copy, PartialEq, Eq, Structural)]
pub enum Action {
    Hold,
    PostBid,
    PostAsk,
    CancelAll,
    MarketBuy,
    MarketSell,
}

/// The action numbered `i`; numbers past the last action mean `Hold`.
pub open spec fn action_at(i: int) -> Action {
    if i == 1 {
        Action::PostBid
    } else if i == 2 {
        Action::PostAsk
    } else if i == 3 {
        Action::CancelAll
    } else if i == 4 {
        Action::MarketBuy
    } else if i == 5 {
        Action::MarketSell
    } else {
        Action::Hold
    }
}

/// The number of an action, in declaration order from 0.
pub open spec fn action_number(a: Action) -> nat {
    match a {
        Action::Hold => 0,
        Action::PostBid => 1,
        Action::PostAsk => 2,
        Action::CancelAll => 3,
        Action::MarketBuy => 4,
        Action::MarketSell => 5,
    }
}

impl Action {
    /// Number of actions.
    pub const COUNT: usize = 6;

    pub fn from_index(i: usize) -> (a: Action)
        ensures
            a == action_at(i as int),
    {
        match i {
            0 => Action::Hold,
            1 => Action::PostBid,
            2 => Action::PostAsk,
            3 => Action::CancelAll,
            4 => Action::MarketBuy,
            5 => Action::MarketSell,
            _ => Action::Hold,
        }
    }

    /// The number of this action, as its discriminant is.
    pub fn index(&self) -> (i: usize)
        ensures
            i == action_number(*self),
            i < Action::COUNT,
    {
        match self {
            Action::Hold => 0,
            Action::PostBid => 1,
            Action::PostAsk => 2,
            Action::CancelAll => 3,
            Action::MarketBuy => 4,
            Action::MarketSell => 5,
        }
    }
}

/// Numbering the actions and taking the action of a number undo each other:
/// every number below `COUNT` names exactly one action and every action has
/// a number below `COUNT`.
pub proof fn law_action_index_roundtrip(i: int, a: Action)
    ensures
        0 <= i < 6 ==> action_number(action_at(i)) == i,
        action_at(action_number(a) as int) == a,
        action_number(a) < 6,
{
}

} // verus!
