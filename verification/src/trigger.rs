//! The events that start a script.

use vstd::prelude::*;

verus! {

/// The event a hat block listens for. Matching is structural; the text
/// payloads compare by their characters.
#[derive(Debug)]
pub enum Trigger {
    WhenFlagClicked,
    WhenSpriteClicked,
    WhenKeyPressed(char),
    WhenBackdropSwitches(String),
    WhenIReceive(String),
    WhenIStartAsAClone,
}

/// Structural equality of two triggers, text payloads by their characters.
pub open spec fn trigger_matches_spec(a: Trigger, b: Trigger) -> bool {
    match (a, b) {
        (Trigger::WhenFlagClicked, Trigger::WhenFlagClicked) => true,
        (Trigger::WhenSpriteClicked, Trigger::WhenSpriteClicked) => true,
        (Trigger::WhenKeyPressed(c1), Trigger::WhenKeyPressed(c2)) => c1 == c2,
        (Trigger::WhenBackdropSwitches(s1), Trigger::WhenBackdropSwitches(s2)) => s1@ == s2@,
        (Trigger::WhenIReceive(s1), Trigger::WhenIReceive(s2)) => s1@ == s2@,
        (Trigger::WhenIStartAsAClone, Trigger::WhenIStartAsAClone) => true,
        _ => false,
    }
}

impl Trigger {
    /// Whether this trigger is the same event as another.
    pub fn matches(&self, other: &Trigger) -> (r: bool)
        ensures
            r == trigger_matches_spec(*self, *other),
    {
        match (self, other) {
            (Trigger::WhenFlagClicked, Trigger::WhenFlagClicked) => true,
            (Trigger::WhenSpriteClicked, Trigger::WhenSpriteClicked) => true,
            (Trigger::WhenKeyPressed(c1), Trigger::WhenKeyPressed(c2)) => *c1 == *c2,
            (Trigger::WhenBackdropSwitches(s1), Trigger::WhenBackdropSwitches(s2)) => {
                crate::scalar_value::str_eq(s1.as_str(), s2.as_str())
            },
            (Trigger::WhenIReceive(s1), Trigger::WhenIReceive(s2)) => {
                crate::scalar_value::str_eq(s1.as_str(), s2.as_str())
            },
            (Trigger::WhenIStartAsAClone, Trigger::WhenIStartAsAClone) => true,
            _ => false,
        }
    }

    /// A copy of the trigger.
    pub fn duplicate(&self) -> (r: Self)
        ensures
            r == *self,
    {
        match self {
            Trigger::WhenFlagClicked => Trigger::WhenFlagClicked,
            Trigger::WhenSpriteClicked => Trigger::WhenSpriteClicked,
            Trigger::WhenKeyPressed(c) => Trigger::WhenKeyPressed(*c),
            Trigger::WhenBackdropSwitches(s) => Trigger::WhenBackdropSwitches(s.clone()),
            Trigger::WhenIReceive(s) => Trigger::WhenIReceive(s.clone()),
            Trigger::WhenIStartAsAClone => Trigger::WhenIStartAsAClone,
        }
    }
}

/// Trigger matching is reflexive and symmetric.
pub proof fn lemma_trigger_matches_symmetric(a: Trigger, b: Trigger)
    ensures
        trigger_matches_spec(a, a),
        trigger_matches_spec(a, b) == trigger_matches_spec(b, a),
{
}

} // verus!
