use vstd::prelude::*;

verus! {

/// The closed set of actor kinds. Each kind determines the default
/// attributes an actor starts with.
#[derive(Debug, Clone, Copy)]
pub enum UserType {
    Civilian,
    Viking,
    ElfLord,
}

/// An actor: an identity, the room it currently stands in, and attributes
/// that exit conditions may change as the actor travels.
#[derive(Debug)]
pub struct User {
    pub name: String,
    pub room_name: String,
    pub basic_attributes: BasicAttributes,
    pub special_attributes: SpecialAttributes,
}

impl User {
    /// An actor's identifier is never empty.
    pub open spec fn wf(self) -> bool {
        self.name@.len() > 0
    }

    pub fn new(name: String, starting_room_name: String, user_type: UserType) -> (user: User)
        requires
            name@.len() > 0,
        ensures
            user.name == name,
            user.room_name == starting_room_name,
            user.basic_attributes == BasicAttributes::spec_default(user_type),
            user.special_attributes == SpecialAttributes::spec_default(user_type),
            user.wf(),
    {
        let basic_attributes = BasicAttributes::default(&user_type);
        let special_attributes = SpecialAttributes::default(&user_type);
        User { name, room_name: starting_room_name, basic_attributes, special_attributes }
    }
}

/// The attributes every actor has, whatever its kind.
#[derive(Debug, Clone, Copy, PartialEq, Eq, Structural)]
pub struct BasicAttributes {
    pub hp: i32,
    pub mp: i32,
}

impl BasicAttributes {
    /// The starting attributes of each actor kind.
    pub open spec fn spec_default(user_type: UserType) -> BasicAttributes {
        match user_type {
            UserType::Civilian => BasicAttributes { hp: 20, mp: 7 },
            UserType::Viking => BasicAttributes { hp: 220, mp: 9 },
            UserType::ElfLord => BasicAttributes { hp: 80, mp: 28 },
        }
    }

    pub fn default(user_type: &UserType) -> (r: BasicAttributes)
        ensures
            r == BasicAttributes::spec_default(*user_type),
    {
        match user_type {
            UserType::Civilian => BasicAttributes { hp: 20, mp: 7 },
            UserType::Viking => BasicAttributes { hp: 220, mp: 9 },
            UserType::ElfLord => BasicAttributes { hp: 80, mp: 28 },
        }
    }
}

/// The kind-specific attribute of each actor kind.
#[derive(Debug, Clone, Copy, PartialEq, Eq, Structural)]
pub enum SpecialAttributes {
    Civilian { needlessly_chatter: usize },
    Viking { brutish_swing: u8 },
    ElfLord { fuck_infusion: u8 },
}

impl SpecialAttributes {
    /// The starting kind-specific attribute of each actor kind.
    pub open spec fn spec_default(user_type: UserType) -> SpecialAttributes {
        match user_type {
            UserType::Civilian => SpecialAttributes::Civilian { needlessly_chatter: 20 },
            UserType::Viking => SpecialAttributes::Viking { brutish_swing: 2 },
            UserType::ElfLord => SpecialAttributes::ElfLord { fuck_infusion: 3 },
        }
    }

    pub fn default(user_type: &UserType) -> (r: SpecialAttributes)
        ensures
            r == SpecialAttributes::spec_default(*user_type),
    {
        match user_type {
            UserType::Civilian => SpecialAttributes::Civilian { needlessly_chatter: 20 },
            UserType::Viking => SpecialAttributes::Viking { brutish_swing: 2 },
            UserType::ElfLord => SpecialAttributes::ElfLord { fuck_infusion: 3 },
        }
    }
}

} // verus!
