//! How long a proposal stays open, by the weight of the decision it asks for.
use vstd::prelude::*;

verus! {

/// The class of decision a proposal asks for; it sets the voting window and
/// the threshold.
#[derive(Clone, Copy, PartialEq, Eq, Debug, Structural)]
pub enum DecisionClass {
    Moderation,
    RuleChange,
    BanOrRecall,
    Constitutional,
}

/// The voting window, in days, for a proposal of decision class `class`:
/// three for moderation, five for rule changes and for bans or recalls, seven
/// for constitutional changes.
pub fn voting_window_days(class: DecisionClass) -> (days: i64)
    ensures
        days == match class {
            DecisionClass::Moderation => 3int,
            DecisionClass::RuleChange => 5,
            DecisionClass::BanOrRecall => 5,
            DecisionClass::Constitutional => 7,
        },
{
    match class {
        DecisionClass::Moderation => 3,
        DecisionClass::RuleChange => 5,
        DecisionClass::BanOrRecall => 5,
        DecisionClass::Constitutional => 7,
    }
}

} // verus!
