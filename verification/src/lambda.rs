use vstd::prelude::*;
use crate::user::{BasicAttributes, User};

verus! {

/// What a successful action reports back to the caller: the messages to
/// display, and whether the action moved the actor to another room (so the
/// caller knows to redisplay the surroundings).
#[derive(Debug)]
pub struct ActionSuccess {
    pub messages: Vec<String>,
    pub room_move: bool,
}

impl ActionSuccess {
    /// Whether this outcome was a room move.
    pub open spec fn spec_was_room_move(self) -> bool {
        self.room_move
    }

    pub fn new(messages: Vec<String>) -> (r: ActionSuccess)
        ensures
            r.messages == messages,
            !r.spec_was_room_move(),
    {
        ActionSuccess { messages, room_move: false }
    }

    pub fn set_was_room_move(&mut self)
        ensures
            final(self).messages == old(self).messages,
            final(self).spec_was_room_move(),
    {
        self.room_move = true;
    }

    pub fn was_room_move(&self) -> (r: bool)
        ensures
            r == self.spec_was_room_move(),
    {
        self.room_move
    }
}

/// What a failed action reports back: the messages that explain the failure,
/// possibly none at all.
#[derive(Debug)]
pub struct ActionFailure {
    pub messages: Vec<String>,
}

/// Whether a list of owned messages reads, word for word, as the expected
/// sequence of texts.
pub open spec fn msgs_match(msgs: Seq<String>, expected: Seq<Seq<char>>) -> bool {
    &&& msgs.len() == expected.len()
    &&& forall|i: int| 0 <= i < msgs.len() ==> (#[trigger] msgs[i])@ == expected[i]
}

/// A path's exit condition: a guard that runs when an actor tries to traverse
/// the path. It may change the actor's attributes, emit messages, and either
/// allow or deny the passage. The set of guards is a closed enumeration, so
/// every effect is fully specified.
#[derive(Debug)]
pub enum ExitCondition {
    /// Allows passage, but costs the actor one hit point and warns it.
    Painful,
    /// Denies passage with the given reason.
    Blocked(String),
}

/// The optional guard slot of a path.
pub type ActionFunc = Option<ExitCondition>;

/// Wraps a guard for storage in a path's exit-condition slot.
pub fn mk_action_callback(cond: ExitCondition) -> (r: ActionFunc)
    ensures
        r == Some(cond),
{
    Some(cond)
}

/// One hit point is deducted on a painful passage; at the numeric floor the
/// value wraps, so the deduction can never abort.
pub open spec fn spec_pain_cost(hp: i32) -> i32 {
    if hp == i32::MIN {
        i32::MAX
    } else {
        (hp - 1) as i32
    }
}

impl ExitCondition {
    /// Whether this guard lets the given actor pass.
    pub open spec fn spec_allows(self, user: User) -> bool {
        match self {
            ExitCondition::Painful => true,
            ExitCondition::Blocked(_) => false,
        }
    }

    /// The actor as this guard leaves it, whether or not passage is allowed:
    /// a guard's changes are never rolled back on denial.
    pub open spec fn spec_apply(self, user: User) -> User {
        match self {
            ExitCondition::Painful => User {
                basic_attributes: BasicAttributes {
                    hp: spec_pain_cost(user.basic_attributes.hp),
                    ..user.basic_attributes
                },
                ..user
            },
            ExitCondition::Blocked(_) => user,
        }
    }

    /// The messages this guard emits for the given actor.
    pub open spec fn spec_messages(self, user: User) -> Seq<Seq<char>> {
        match self {
            ExitCondition::Painful => seq!["You passed through, but it hurt you."@],
            ExitCondition::Blocked(reason) => seq![reason@],
        }
    }

    /// Runs the guard on the traversing actor. The caller commits or abandons
    /// the room transfer depending on the verdict; the actor's attributes keep
    /// whatever the guard did to them either way.
    pub fn attempt(&self, user: &mut User) -> (r: Result<ActionSuccess, ActionFailure>)
        ensures
            *final(user) == self.spec_apply(*old(user)),
            r is Ok == self.spec_allows(*old(user)),
            (r matches Ok(s) ==> msgs_match(s.messages@, self.spec_messages(*old(user)))
                && !s.spec_was_room_move()),
            (r matches Err(f) ==> msgs_match(f.messages@, self.spec_messages(*old(user)))),
    {
        match self {
            ExitCondition::Painful => {
                let hp = user.basic_attributes.hp;
                user.basic_attributes.hp = if hp == i32::MIN {
                    i32::MAX
                } else {
                    hp - 1
                };
                let mut messages: Vec<String> = Vec::new();
                messages.push("You passed through, but it hurt you.".to_owned());
                Ok(ActionSuccess::new(messages))
            },
            ExitCondition::Blocked(reason) => {
                let mut messages: Vec<String> = Vec::new();
                messages.push(reason.clone());
                Err(ActionFailure { messages })
            },
        }
    }
}

} // verus!
