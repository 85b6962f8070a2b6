use vstd::prelude::*;
use vstd::string::StringExecFns;

pub mod lambda;
pub mod room;
pub mod user;

use lambda::{msgs_match, ActionFailure, ActionSuccess};
use room::{lemma_insert_user_effect, lemma_remove_user_effect, Direction, Path, Room};
use user::{BasicAttributes, SpecialAttributes, User, UserType};

verus! {

/// Compares an owned identifier with a borrowed word.
pub fn eq_str(a: &String, b: &str) -> (r: bool)
    ensures
        r == (a@ == b@),
{
    *a == b.to_owned()
}

/// A construction-time fault: a misuse of the world-building API. These are
/// programmer errors of the bootstrap code, never part of interactive play.
#[derive(Debug)]
pub enum WorldError {
    EmptyRoomName,
    EmptyRoomDescription,
    DuplicateRoom(String),
    EmptyUserName,
    DuplicateUser(String),
    EmptyPathName,
    /// A second path under the same name from the same room: the path name,
    /// then the room name.
    DuplicatePath(String, String),
    /// The room a path should lead to does not exist.
    NoSuchRoom(String),
    /// The room that was to be changed does not exist.
    RoomNotFoundForMutation(String),
}

impl WorldError {
    /// The text shown for this fault.
    pub open spec fn spec_message(self) -> Seq<char> {
        match self {
            WorldError::EmptyRoomName => "Empty room names are not allowed!"@,
            WorldError::EmptyRoomDescription => "Empty room descriptions are not allowed!"@,
            WorldError::DuplicateRoom(name) => "A room named "@ + name@ + " already exists!"@,
            WorldError::EmptyUserName => "Empty user names are not allowed!"@,
            WorldError::DuplicateUser(name) => "A user named "@ + name@ + " already exists!"@,
            WorldError::EmptyPathName => "Empty path names are not allowed!"@,
            WorldError::DuplicatePath(path, room) => "Path '"@ + path@ + "' from "@ + room@
                + " already exists!"@,
            WorldError::NoSuchRoom(name) => "No room named "@ + name@ + " exists!"@,
            WorldError::RoomNotFoundForMutation(name) => "Failed to find room named "@ + name@
                + " for mutation!"@,
        }
    }

    pub fn message(&self) -> (r: String)
        ensures
            r@ == self.spec_message(),
    {
        match self {
            WorldError::EmptyRoomName => "Empty room names are not allowed!".to_owned(),
            WorldError::EmptyRoomDescription => "Empty room descriptions are not allowed!".to_owned(),
            WorldError::DuplicateRoom(name) => {
                let mut m = "A room named ".to_owned();
                m.append(name.as_str());
                m.append(" already exists!");
                m
            },
            WorldError::EmptyUserName => "Empty user names are not allowed!".to_owned(),
            WorldError::DuplicateUser(name) => {
                let mut m = "A user named ".to_owned();
                m.append(name.as_str());
                m.append(" already exists!");
                m
            },
            WorldError::EmptyPathName => "Empty path names are not allowed!".to_owned(),
            WorldError::DuplicatePath(path, room) => {
                let mut m = "Path '".to_owned();
                m.append(path.as_str());
                m.append("' from ");
                m.append(room.as_str());
                m.append(" already exists!");
                m
            },
            WorldError::NoSuchRoom(name) => {
                let mut m = "No room named ".to_owned();
                m.append(name.as_str());
                m.append(" exists!");
                m
            },
            WorldError::RoomNotFoundForMutation(name) => {
                let mut m = "Failed to find room named ".to_owned();
                m.append(name.as_str());
                m.append(" for mutation!");
                m
            },
        }
    }
}

/// The table of all rooms, keyed by their unique names.
pub struct RoomStore {
    pub rooms: Vec<Room>,
}

impl RoomStore {
    /// No two rooms share a name.
    pub open spec fn names_unique(self) -> bool {
        forall|i: int, j: int|
            0 <= i < j < self.rooms@.len() ==> (#[trigger] self.rooms@[i]).name@ != (
            #[trigger] self.rooms@[j]).name@
    }

    pub open spec fn wf(self) -> bool {
        &&& self.names_unique()
        &&& forall|i: int| 0 <= i < self.rooms@.len() ==> (#[trigger] self.rooms@[i]).wf()
    }

    pub open spec fn has_room(self, name: Seq<char>) -> bool {
        exists|i: int| 0 <= i < self.rooms@.len() && (#[trigger] self.rooms@[i]).name@ == name
    }

    /// The position of the room with the given name; meaningful when
    /// `has_room` holds and names are unique.
    pub open spec fn room_idx(self, name: Seq<char>) -> int {
        choose|i: int| 0 <= i < self.rooms@.len() && (#[trigger] self.rooms@[i]).name@ == name
    }

    /// The room with the given name.
    pub open spec fn spec_room(self, name: Seq<char>) -> Room {
        self.rooms@[self.room_idx(name)]
    }

    /// Under unique names, the room found at a position is the one
    /// `room_idx` designates.
    pub proof fn lemma_room_idx(self, i: int)
        requires
            self.names_unique(),
            0 <= i < self.rooms@.len(),
        ensures
            self.has_room(self.rooms@[i].name@),
            self.room_idx(self.rooms@[i].name@) == i,
    {
        let name = self.rooms@[i].name@;
        assert(self.has_room(name));
        let j = self.room_idx(name);
        if i < j {
            assert(self.rooms@[i].name@ != self.rooms@[j].name@);
        } else if j < i {
            assert(self.rooms@[j].name@ != self.rooms@[i].name@);
        }
    }

    pub fn new() -> (r: RoomStore)
        ensures
            r.rooms@ == Seq::<Room>::empty(),
            r.wf(),
    {
        let r = RoomStore { rooms: Vec::new() };
        assert(r.rooms@ =~= Seq::<Room>::empty());
        r
    }

    /// The position of the room with the given name, if it exists.
    pub fn find_room_idx(&self, room_name: &String) -> (r: Option<usize>)
        ensures
            match r {
                Some(i) => 0 <= i < self.rooms@.len() && self.rooms@[i as int].name@ == room_name@,
                None => !self.has_room(room_name@),
            },
            r is Some == self.has_room(room_name@),
            self.names_unique() ==> (r matches Some(i) ==> i == self.room_idx(room_name@)),
    {
        let mut i: usize = 0;
        while i < self.rooms.len()
            invariant
                i <= self.rooms.len(),
                forall|k: int| 0 <= k < i ==> (#[trigger] self.rooms@[k]).name@ != room_name@,
            decreases self.rooms.len() - i,
        {
            if self.rooms[i].name == *room_name {
                proof {
                    if self.names_unique() {
                        self.lemma_room_idx(i as int);
                    }
                }
                return Some(i);
            }
            i += 1;
        }
        None
    }

    /// Whether a room with the given name exists.
    pub fn check_room_exists(&self, room_name: &String) -> (r: bool)
        ensures
            r == self.has_room(room_name@),
    {
        self.find_room_idx(room_name).is_some()
    }

    pub fn get_room(&self, room_name: &String) -> (r: &Room)
        requires
            self.names_unique(),
            self.has_room(room_name@),
        ensures
            *r == self.spec_room(room_name@),
    {
        let found = self.find_room_idx(room_name);
        match found {
            Some(i) => &self.rooms[i],
            None => unreached(),
        }
    }

    pub fn get_room_mut(&mut self, room_name: &String) -> (r: &mut Room)
        requires
            old(self).names_unique(),
            old(self).has_room(room_name@),
        ensures
            *r == old(self).spec_room(room_name@),
            final(self).rooms@ == old(self).rooms@.update(
                old(self).room_idx(room_name@),
                *final(r),
            ),
    {
        let found = self.find_room_idx(room_name);
        match found {
            Some(i) => &mut self.rooms[i],
            None => unreached(),
        }
    }
}

/// The closed set of world-scoped commands, recognized ahead of any
/// movement attempt.
pub enum GlobalActions {
    ListOnlineUsers,
}

impl GlobalActions {
    /// Which global action, if any, the given input names.
    pub open spec fn spec_from_text(s: Seq<char>) -> Option<GlobalActions> {
        if s == "list_users"@ {
            Some(GlobalActions::ListOnlineUsers)
        } else {
            None
        }
    }

    pub fn from_text(input: &String) -> (r: Option<GlobalActions>)
        ensures
            r == GlobalActions::spec_from_text(input@),
    {
        if eq_str(input, "list_users") {
            Some(GlobalActions::ListOnlineUsers)
        } else {
            None
        }
    }

    pub fn from_enum(input: GlobalActions) -> (r: String)
        ensures
            r@ == "list_users"@,
    {
        match input {
            GlobalActions::ListOnlineUsers => "list_users".to_owned(),
        }
    }
}

/// The table of all actors, keyed by their unique names.
pub struct UserStore {
    pub users: Vec<User>,
}

impl UserStore {
    /// No two actors share a name.
    pub open spec fn names_unique(self) -> bool {
        forall|i: int, j: int|
            0 <= i < j < self.users@.len() ==> (#[trigger] self.users@[i]).name@ != (
            #[trigger] self.users@[j]).name@
    }

    pub open spec fn wf(self) -> bool {
        &&& self.names_unique()
        &&& forall|i: int| 0 <= i < self.users@.len() ==> (#[trigger] self.users@[i]).wf()
    }

    pub open spec fn has_user(self, name: Seq<char>) -> bool {
        exists|i: int| 0 <= i < self.users@.len() && (#[trigger] self.users@[i]).name@ == name
    }

    /// The position of the actor with the given name; meaningful when
    /// `has_user` holds and names are unique.
    pub open spec fn user_idx(self, name: Seq<char>) -> int {
        choose|i: int| 0 <= i < self.users@.len() && (#[trigger] self.users@[i]).name@ == name
    }

    /// The actor with the given name.
    pub open spec fn spec_user(self, name: Seq<char>) -> User {
        self.users@[self.user_idx(name)]
    }

    /// Under unique names, the actor found at a position is the one
    /// `user_idx` designates.
    pub proof fn lemma_user_idx(self, i: int)
        requires
            self.names_unique(),
            0 <= i < self.users@.len(),
        ensures
            self.has_user(self.users@[i].name@),
            self.user_idx(self.users@[i].name@) == i,
    {
        let name = self.users@[i].name@;
        assert(self.has_user(name));
        let j = self.user_idx(name);
        if i < j {
            assert(self.users@[i].name@ != self.users@[j].name@);
        } else if j < i {
            assert(self.users@[j].name@ != self.users@[i].name@);
        }
    }

    pub fn new() -> (r: UserStore)
        ensures
            r.users@ == Seq::<User>::empty(),
            r.wf(),
    {
        let r = UserStore { users: Vec::new() };
        assert(r.users@ =~= Seq::<User>::empty());
        r
    }

    /// The position of the actor with the given name, if it exists.
    pub fn find_user_idx(&self, user_name: &String) -> (r: Option<usize>)
        ensures
            match r {
                Some(i) => 0 <= i < self.users@.len() && self.users@[i as int].name@ == user_name@,
                None => !self.has_user(user_name@),
            },
            r is Some == self.has_user(user_name@),
            self.names_unique() ==> (r matches Some(i) ==> i == self.user_idx(user_name@)),
    {
        let mut i: usize = 0;
        while i < self.users.len()
            invariant
                i <= self.users.len(),
                forall|k: int| 0 <= k < i ==> (#[trigger] self.users@[k]).name@ != user_name@,
            decreases self.users.len() - i,
        {
            if self.users[i].name == *user_name {
                proof {
                    if self.names_unique() {
                        self.lemma_user_idx(i as int);
                    }
                }
                return Some(i);
            }
            i += 1;
        }
        None
    }

    /// Whether an actor with the given name exists.
    pub fn check_user_exists(&self, user_name: &String) -> (r: bool)
        ensures
            r == self.has_user(user_name@),
    {
        self.find_user_idx(user_name).is_some()
    }

    pub fn get_user(&self, user_name: &String) -> (r: &User)
        requires
            self.names_unique(),
            self.has_user(user_name@),
        ensures
            *r == self.spec_user(user_name@),
    {
        let found = self.find_user_idx(user_name);
        match found {
            Some(i) => &self.users[i],
            None => unreached(),
        }
    }

    pub fn get_user_mut(&mut self, user_name: &String) -> (r: &mut User)
        requires
            old(self).names_unique(),
            old(self).has_user(user_name@),
        ensures
            *r == old(self).spec_user(user_name@),
            final(self).users@ == old(self).users@.update(
                old(self).user_idx(user_name@),
                *final(r),
            ),
    {
        let found = self.find_user_idx(user_name);
        match found {
            Some(i) => &mut self.users[i],
            None => unreached(),
        }
    }

    /// The names of all known actors, in the order they were created.
    pub open spec fn spec_user_names(self) -> Seq<Seq<char>> {
        Seq::new(self.users@.len(), |i: int| self.users@[i].name@)
    }
}

/// Whether a message list is the online-users report over the given names:
/// the header first, then one starred line per name, in order.
pub open spec fn is_user_list(msgs: Seq<String>, names: Seq<Seq<char>>) -> bool {
    &&& msgs.len() == names.len() + 1
    &&& msgs[0]@ == "Users online:"@
    &&& forall|i: int| 0 <= i < names.len() ==> msgs[i + 1]@ == "* "@ + #[trigger] names[i]
}

/// Renders the online-users report: the header, then each name on its own
/// starred line.
pub fn format_user_list(users: Vec<&String>) -> (r: Vec<String>)
    ensures
        is_user_list(r@, Seq::new(users@.len(), |i: int| users@[i]@)),
{
    let ghost names = Seq::new(users@.len(), |i: int| users@[i]@);
    let mut r: Vec<String> = Vec::new();
    r.push("Users online:".to_owned());
    let mut i: usize = 0;
    while i < users.len()
        invariant
            i <= users.len(),
            names == Seq::new(users@.len(), |k: int| users@[k]@),
            r@.len() == i + 1,
            r@[0]@ == "Users online:"@,
            forall|k: int| 0 <= k < i ==> r@[k + 1]@ == "* "@ + #[trigger] names[k],
        decreases users.len() - i,
    {
        let mut m = "* ".to_owned();
        m.append(users[i].as_str());
        r.push(m);
        i += 1;
    }
    r
}

/// When room names stay as they were, every lookup resolves as before.
pub proof fn lemma_room_names_preserved(pre: RoomStore, post: RoomStore, n: Seq<char>)
    requires
        pre.names_unique(),
        post.rooms@.len() == pre.rooms@.len(),
        forall|i: int| 0 <= i < pre.rooms@.len() ==> (#[trigger] post.rooms@[i]).name@
            == pre.rooms@[i].name@,
        pre.has_room(n),
    ensures
        post.names_unique(),
        post.has_room(n),
        post.room_idx(n) == pre.room_idx(n),
{
    assert forall|i: int, j: int| 0 <= i < j < post.rooms@.len() implies (
    #[trigger] post.rooms@[i]).name@ != (#[trigger] post.rooms@[j]).name@ by {
        assert(pre.rooms@[i].name@ != pre.rooms@[j].name@);
    }
    let i = pre.room_idx(n);
    assert(pre.rooms@[i].name@ == n);
    assert(post.rooms@[i].name@ == n);
    post.lemma_room_idx(i);
}

/// When the room table only grows and the old entries keep their places,
/// every old lookup resolves as before.
pub proof fn lemma_room_prefix_preserved(pre: RoomStore, post: RoomStore, n: Seq<char>)
    requires
        pre.names_unique(),
        post.names_unique(),
        pre.rooms@.len() <= post.rooms@.len(),
        forall|i: int| 0 <= i < pre.rooms@.len() ==> (#[trigger] post.rooms@[i]) == pre.rooms@[i],
        pre.has_room(n),
    ensures
        post.has_room(n),
        post.room_idx(n) == pre.room_idx(n),
        post.spec_room(n) == pre.spec_room(n),
{
    let i = pre.room_idx(n);
    assert(pre.rooms@[i].name@ == n);
    assert(post.rooms@[i] == pre.rooms@[i]);
    post.lemma_room_idx(i);
}

/// When actor names stay as they were, every lookup resolves as before.
pub proof fn lemma_user_names_preserved(pre: UserStore, post: UserStore, n: Seq<char>)
    requires
        pre.names_unique(),
        post.users@.len() == pre.users@.len(),
        forall|i: int| 0 <= i < pre.users@.len() ==> (#[trigger] post.users@[i]).name@
            == pre.users@[i].name@,
        pre.has_user(n),
    ensures
        post.names_unique(),
        post.has_user(n),
        post.user_idx(n) == pre.user_idx(n),
{
    assert forall|i: int, j: int| 0 <= i < j < post.users@.len() implies (
    #[trigger] post.users@[i]).name@ != (#[trigger] post.users@[j]).name@ by {
        assert(pre.users@[i].name@ != pre.users@[j].name@);
    }
    let i = pre.user_idx(n);
    assert(pre.users@[i].name@ == n);
    assert(post.users@[i].name@ == n);
    post.lemma_user_idx(i);
}

/// When the actor table only grows and the old entries keep their places,
/// every old lookup resolves as before.
pub proof fn lemma_user_prefix_preserved(pre: UserStore, post: UserStore, n: Seq<char>)
    requires
        pre.names_unique(),
        post.names_unique(),
        pre.users@.len() <= post.users@.len(),
        forall|i: int| 0 <= i < pre.users@.len() ==> (#[trigger] post.users@[i]) == pre.users@[i],
        pre.has_user(n),
    ensures
        post.has_user(n),
        post.user_idx(n) == pre.user_idx(n),
        post.spec_user(n) == pre.spec_user(n),
{
    let i = pre.user_idx(n);
    assert(pre.users@[i].name@ == n);
    assert(post.users@[i] == pre.users@[i]);
    post.lemma_user_idx(i);
}

/// The world: the sole owner of all rooms and actors, and the entry point
/// for graph construction and command dispatch.
pub struct GameState {
    pub rooms: RoomStore,
    pub users: UserStore,
}

impl GameState {
    /// Every path leads to a room that exists.
    pub open spec fn targets_exist(self) -> bool {
        forall|i: int, j: int|
            0 <= i < self.rooms.rooms@.len() && 0 <= j < self.rooms.rooms@[i].paths@.len()
                ==> self.rooms.has_room(
                (#[trigger] self.rooms.rooms@[i].paths@[j]).target_room_name@,
            )
    }

    /// Every actor stands in the occupant set of the room its location names.
    pub open spec fn users_located(self) -> bool {
        forall|k: int|
            0 <= k < self.users.users@.len() ==> {
                let u = #[trigger] self.users.users@[k];
                &&& self.rooms.has_room(u.room_name@)
                &&& self.rooms.spec_room(u.room_name@).has_user(u.name@)
            }
    }

    /// Every occupant of a room is a known actor whose location names that
    /// very room.
    pub open spec fn occupants_exist(self) -> bool {
        forall|i: int, k: int|
            0 <= i < self.rooms.rooms@.len() && 0 <= k < self.rooms.rooms@[i].users@.len() ==> {
                let n = (#[trigger] self.rooms.rooms@[i].users@[k])@;
                &&& self.users.has_user(n)
                &&& self.users.spec_user(n).room_name@ == self.rooms.rooms@[i].name@
            }
    }

    /// The world invariant: well-formed tables, no dangling paths, and
    /// agreement between actor locations and room occupant sets.
    pub open spec fn wf(self) -> bool {
        &&& self.rooms.wf()
        &&& self.users.wf()
        &&& self.targets_exist()
        &&& self.users_located()
        &&& self.occupants_exist()
    }

    pub fn new() -> (r: GameState)
        ensures
            r.rooms.rooms@ == Seq::<Room>::empty(),
            r.users.users@ == Seq::<User>::empty(),
            r.wf(),
    {
        GameState { rooms: RoomStore::new(), users: UserStore::new() }
    }

    /// The name of the room the given actor stands in.
    pub fn get_user_location(&self, user_name: &String) -> (r: String)
        requires
            self.wf(),
            self.users.has_user(user_name@),
        ensures
            r == self.users.spec_user(user_name@).room_name,
            self.rooms.has_room(r@),
    {
        let user = self.users.get_user(user_name);
        proof {
            let uk = self.users.user_idx(user_name@);
            assert(self.users.users@[uk] == self.users.spec_user(user_name@));
        }
        user.room_name.clone()
    }

    pub fn create_room(&mut self, name: &String, desc: String) -> (r: Result<(), WorldError>)
        requires
            old(self).wf(),
        ensures
            final(self).wf(),
            create_room_post(*old(self), *final(self), *name, desc, r),
    {
        if name.as_str().is_empty() {
            return Err(WorldError::EmptyRoomName);
        }
        if desc.as_str().is_empty() {
            return Err(WorldError::EmptyRoomDescription);
        }
        if self.rooms.check_room_exists(name) {
            return Err(WorldError::DuplicateRoom(name.clone()));
        }
        let room = Room::new(name.clone(), desc);
        let ghost pre = *self;
        self.rooms.rooms.push(room);
        proof {
            assert forall|i: int, j: int| 0 <= i < j < self.rooms.rooms@.len() implies (
            #[trigger] self.rooms.rooms@[i]).name@ != (#[trigger] self.rooms.rooms@[j]).name@ by {
                if j < pre.rooms.rooms@.len() {
                    assert(pre.rooms.rooms@[i].name@ != pre.rooms.rooms@[j].name@);
                } else {
                    assert(!pre.rooms.has_room(name@));
                    assert(pre.rooms.rooms@[i].name@ != name@);
                }
            }
            assert(self.wf()) by {
                lemma_create_room_wf(pre, *self);
            }
        }
        Ok(())
    }

    /// Creates a room and immediately links it from an existing one:
    /// convenience for building the map outward.
    pub fn create_room_from(
        &mut self,
        this_name: &String,
        this_desc: String,
        other_room_name: &String,
        direction: Direction,
    ) -> (r: Result<(), WorldError>)
        requires
            old(self).wf(),
        ensures
            final(self).wf(),
            create_room_from_post(
                *old(self),
                *final(self),
                *this_name,
                this_desc,
                *other_room_name,
                direction,
                r,
            ),
    {
        let created = self.create_room(this_name, this_desc);
        match created {
            Err(e) => {
                return Err(e);
            },
            Ok(()) => {},
        }
        let ghost mid = *self;
        let r2 = self.add_path(other_room_name, this_name, direction);
        proof {
            assert(create_room_post(*old(self), mid, *this_name, this_desc, Ok::<(), WorldError>(())));
        }
        r2
    }

    /// Resolves the direction and inserts the forward edge; for a two-way
    /// direction the symmetric reverse edge follows, as an independent insert
    /// under the same rules.
    pub fn add_path(
        &mut self,
        source_room_name: &String,
        target_room_name: &String,
        direction: Direction,
    ) -> (r: Result<(), WorldError>)
        requires
            old(self).wf(),
        ensures
            final(self).wf(),
            add_path_post(
                *old(self),
                *final(self),
                *source_room_name,
                *target_room_name,
                direction,
                r,
            ),
    {
        let reverse = Direction::get_reverse(direction.clone());
        let fwd = self.add_path_impl(source_room_name, target_room_name, direction);
        match fwd {
            Err(e) => {
                return Err(e);
            },
            Ok(()) => {},
        }
        let ghost mid = *self;
        match reverse {
            Some(d) => {
                let r2 = self.add_path_impl(target_room_name, source_room_name, d);
                proof {
                    let pre0 = *old(self);
                    let pname = Direction::spec_path_name(direction);
                    let rname = Direction::spec_path_name(d);
                    let src = source_room_name@;
                    let tgt = target_room_name@;
                    let si = pre0.rooms.room_idx(src);
                    let ti = pre0.rooms.room_idx(tgt);
                    assert(edge_added(pre0, mid, src, *target_room_name, pname));
                    assert forall|i: int| 0 <= i < pre0.rooms.rooms@.len() implies (
                    #[trigger] mid.rooms.rooms@[i]).name@ == pre0.rooms.rooms@[i].name@ by {}
                    lemma_room_names_preserved(pre0.rooms, mid.rooms, tgt);
                    assert(mid.rooms.room_idx(tgt) == ti);
                    assert(pre0.rooms.rooms@[ti].name@ == tgt);
                    if src == tgt {
                        assert(si == ti) by {
                            assert(pre0.rooms.rooms@[si].name@ == src);
                            pre0.rooms.lemma_room_idx(si);
                        }
                        room::lemma_push_path_effect(
                            pre0.rooms.rooms@[si],
                            mid.rooms.rooms@[si],
                            mid.rooms.rooms@[si].paths@.last(),
                        );
                        assert(mid.rooms.spec_room(tgt).has_path(rname) == (
                        pre0.rooms.spec_room(tgt).has_path(rname) || pname == rname));
                    } else {
                        assert(si != ti);
                        assert(mid.rooms.rooms@[ti] == pre0.rooms.rooms@[ti]);
                        assert(mid.rooms.spec_room(tgt).has_path(rname) == pre0.rooms.spec_room(
                            tgt,
                        ).has_path(rname));
                    }
                }
                r2
            },
            None => Ok(()),
        }
    }

    /// One directed edge insert: the target must exist, the source must exist,
    /// and the resolved name must be fresh at the source and nonempty.
    pub fn add_path_impl(
        &mut self,
        source_room_name: &String,
        target_room_name: &String,
        direction: Direction,
    ) -> (r: Result<(), WorldError>)
        requires
            old(self).wf(),
        ensures
            final(self).wf(),
            add_path_impl_post(
                *old(self),
                *final(self),
                *source_room_name,
                *target_room_name,
                direction,
                r,
            ),
    {
        if !self.rooms.check_room_exists(target_room_name) {
            return Err(WorldError::NoSuchRoom(target_room_name.clone()));
        }
        let found = self.rooms.find_room_idx(source_room_name);
        let si = match found {
            Some(i) => i,
            None => {
                return Err(WorldError::RoomNotFoundForMutation(source_room_name.clone()));
            },
        };
        let path_name = Direction::get_path_name(direction.clone());
        if self.rooms.rooms[si].check_duplicate_path(&path_name) {
            return Err(WorldError::DuplicatePath(path_name, source_room_name.clone()));
        }
        if path_name.as_str().is_empty() {
            return Err(WorldError::EmptyPathName);
        }
        let ghost pre = *self;
        let sroom = self.rooms.get_room_mut(source_room_name);
        sroom.add_path(target_room_name, &path_name);
        proof {
            assert(edge_added(
                pre,
                *self,
                source_room_name@,
                *target_room_name,
                Direction::spec_path_name(direction),
            ));
            lemma_add_edge_wf(pre, *self, si as int);
        }
        Ok(())
    }

    /// Creates an actor of the given kind and places it in the given room:
    /// the actor's location and the room's occupant set agree from the start.
    pub fn create_user_in_room(
        &mut self,
        user_name: &String,
        room_name: &String,
        user_type: UserType,
    ) -> (r: Result<(), WorldError>)
        requires
            old(self).wf(),
        ensures
            final(self).wf(),
            create_user_in_room_post(
                *old(self),
                *final(self),
                *user_name,
                *room_name,
                user_type,
                r,
            ),
    {
        if user_name.as_str().is_empty() {
            return Err(WorldError::EmptyUserName);
        }
        if self.users.check_user_exists(user_name) {
            return Err(WorldError::DuplicateUser(user_name.clone()));
        }
        if !self.rooms.check_room_exists(room_name) {
            return Err(WorldError::RoomNotFoundForMutation(room_name.clone()));
        }
        let ghost pre = *self;
        let user = User::new(user_name.clone(), room_name.clone(), user_type);
        let ghost u_new = user;
        self.users.users.push(user);
        proof {
            let ri = pre.rooms.room_idx(room_name@);
            assert(pre.rooms.rooms@[ri].name@ == room_name@);
            if pre.rooms.rooms@[ri].has_user(user_name@) {
                let k = pre.rooms.rooms@[ri].user_idx(user_name@);
                assert(pre.rooms.rooms@[ri].users@[k]@ == user_name@);
                assert(pre.users.has_user(user_name@));
            }
        }
        let room = self.rooms.get_room_mut(room_name);
        room.insert_user(user_name);
        proof {
            lemma_create_user_wf(pre, *self, u_new);
        }
        Ok(())
    }

    /// A movement attempt: normalize the word, look it up among the paths of
    /// the actor's room, run the path's guard, and commit the transfer only
    /// on an allowed passage. A failure never touches any occupant set or
    /// location; a guard's own work on the actor stands either way.
    pub fn attempt_move(&mut self, user_name: &String, possible_path_name: &String) -> (r: Result<
        ActionSuccess,
        ActionFailure,
    >)
        requires
            old(self).wf(),
            old(self).users.has_user(user_name@),
        ensures
            final(self).wf(),
            attempt_move_post(*old(self), *final(self), *user_name, *possible_path_name, r),
    {
        let normalized = Path::match_basic_aliases(possible_path_name.clone());
        if normalized.as_str().is_empty() {
            return Err(ActionFailure { messages: Vec::new() });
        }
        let mut messages: Vec<String> = Vec::new();
        let room_name = self.get_user_location(user_name);
        let ghost pre = *old(self);
        let ghost uk = pre.users.user_idx(user_name@);
        let ghost u0 = pre.users.spec_user(user_name@);
        let found_room = self.rooms.find_room_idx(&room_name);
        let si = match found_room {
            Some(i) => i,
            None => unreached(),
        };
        proof {
            assert(si as int == pre.rooms.room_idx(u0.room_name@));
            assert(pre.rooms.rooms@[si as int].wf());
        }
        let found_path = self.rooms.rooms[si].find_path_idx(&normalized);
        let pj = match found_path {
            Some(j) => j,
            None => {
                let mut msg = "What? There's no direction ".to_owned();
                msg.append(normalized.as_str());
                msg.append(" from ");
                msg.append(room_name.as_str());
                msg.append(".");
                proof {
                    assert(msg@ =~= spec_no_direction_message(normalized@, u0.room_name@));
                }
                let mut failure_messages: Vec<String> = Vec::new();
                failure_messages.push(msg);
                return Err(ActionFailure { messages: failure_messages });
            },
        };
        let ghost path0 = pre.rooms.rooms@[si as int].paths@[pj as int];
        proof {
            pre.rooms.rooms@[si as int].lemma_path_idx(pj as int);
            assert(pre.rooms.spec_room(u0.room_name@).spec_path(normalized@) == path0);
            assert(pre.rooms.has_room(path0.target_room_name@));
        }
        let target_room_name = self.rooms.rooms[si].paths[pj].target_room_name.clone();
        let ghost u2 = match path0.exit_cond {
            Some(c) => c.spec_apply(u0),
            None => u0,
        };
        let ghost gmsgs = match path0.exit_cond {
            Some(c) => c.spec_messages(u0),
            None => Seq::<Seq<char>>::empty(),
        };
        match &self.rooms.rooms[si].paths[pj].exit_cond {
            Some(cond) => {
                let user = self.users.get_user_mut(user_name);
                let res = cond.attempt(user);
                match res {
                    Ok(mut s) => {
                        proof {
                            assert(msgs_match(s.messages@, gmsgs));
                        }
                        messages.append(&mut s.messages);
                        proof {
                            assert(msgs_match(messages@, gmsgs)) by {
                                assert forall|i: int| 0 <= i < messages@.len() implies (
                                #[trigger] messages@[i])@ == gmsgs[i] by {}
                            }
                        }
                    },
                    Err(f) => {
                        proof {
                            lemma_user_swap_wf(pre, *self, user_name@, u2);
                        }
                        return Err(f);
                    },
                }
            },
            None => {},
        }
        proof {
            assert(pre.users.users@[uk] == u0);
            assert(self.users.users@ =~= pre.users.users@.update(uk, u2));
            lemma_user_names_preserved(pre.users, self.users, user_name@);
            assert(self.users.user_idx(user_name@) == uk);
            assert(self.users.users@[uk] == u2);
            assert(self.users.spec_user(user_name@) == u2);
        }
        if room_name == target_room_name {
            // a passage that leads back into the same room: the occupant sets
            // already agree, only the entry is rewritten
            let user = self.users.get_user_mut(user_name);
            user.room_name = target_room_name.clone();
            proof {
                let u3 = User {
                    name: u2.name,
                    room_name: path0.target_room_name,
                    basic_attributes: u2.basic_attributes,
                    special_attributes: u2.special_attributes,
                };
                assert(self.users.users@ =~= pre.users.users@.update(uk, u3));
                assert(moved(pre, *self, *user_name, u2, path0.target_room_name));
                lemma_user_swap_wf(pre, *self, user_name@, u3);
            }
        } else {
            let ghost di = pre.rooms.room_idx(path0.target_room_name@);
            let ghost dpre = pre.rooms.rooms@[di];
            proof {
                assert(pre.rooms.rooms@[di].name@ == path0.target_room_name@);
                assert(!dpre.has_user(user_name@)) by {
                    if dpre.has_user(user_name@) {
                        let k = dpre.user_idx(user_name@);
                        assert(dpre.users@[k]@ == user_name@);
                        assert(pre.users.spec_user(user_name@).room_name@ == dpre.name@);
                    }
                }
                assert(dpre.wf());
            }
            let troom = self.rooms.get_room_mut(&target_room_name);
            troom.insert_user(user_name);
            proof {
                assert(self.rooms.rooms@ == pre.rooms.rooms@.update(
                    di,
                    self.rooms.rooms@[di],
                ));
                lemma_room_names_preserved(pre.rooms, self.rooms, u0.room_name@);
                assert(self.rooms.room_idx(u0.room_name@) == si as int);
                assert(si as int != di);
            }
            let user = self.users.get_user_mut(user_name);
            user.room_name = target_room_name.clone();
            let ghost st3 = *self;
            proof {
                let u3 = User {
                    name: u2.name,
                    room_name: path0.target_room_name,
                    basic_attributes: u2.basic_attributes,
                    special_attributes: u2.special_attributes,
                };
                assert(st3.users.users@ =~= pre.users.users@.update(uk, u3));
                assert(st3.rooms.rooms@[si as int] == pre.rooms.rooms@[si as int]);
                assert(pre.rooms.rooms@[si as int].users_unique());
                assert(pre.rooms.rooms@[si as int].has_user(user_name@));
            }
            let sroom = self.rooms.get_room_mut(&room_name);
            sroom.remove_user(user_name);
            proof {
                let u3 = User {
                    name: u2.name,
                    room_name: path0.target_room_name,
                    basic_attributes: u2.basic_attributes,
                    special_attributes: u2.special_attributes,
                };
                assert(self.users.users@ =~= pre.users.users@.update(uk, u3));
                assert(self.rooms.rooms@.len() == pre.rooms.rooms@.len());
                assert forall|i: int|
                    0 <= i < pre.rooms.rooms@.len() && i != si as int && i != di implies (
                #[trigger] self.rooms.rooms@[i]) == pre.rooms.rooms@[i] by {}
                assert(self.rooms.rooms@[di] == st3.rooms.rooms@[di]);
                assert(moved(pre, *self, *user_name, u2, path0.target_room_name));
                lemma_commit_move_wf(pre, *self, *user_name, u2, path0.target_room_name);
            }
        }
        let mut succ = ActionSuccess::new(messages);
        succ.set_was_room_move();
        Ok(succ)
    }

    /// Creates a civilian actor and places it in the given room.
    pub fn create_basic_user_in_room(&mut self, user_name: &String, room_name: &String) -> (r:
        Result<(), WorldError>)
        requires
            old(self).wf(),
        ensures
            final(self).wf(),
            create_user_in_room_post(
                *old(self),
                *final(self),
                *user_name,
                *room_name,
                UserType::Civilian,
                r,
            ),
    {
        let user_type = UserType::Civilian;
        self.create_user_in_room(user_name, room_name, user_type)
    }

    /// The online-users report over the current actor table.
    pub fn get_online_users_message(&self) -> (r: Vec<String>)
        ensures
            is_user_list(r@, self.users.spec_user_names()),
    {
        let mut names: Vec<&String> = Vec::new();
        let mut i: usize = 0;
        while i < self.users.users.len()
            invariant
                i <= self.users.users.len(),
                names@.len() == i,
                forall|k: int| 0 <= k < i ==> (#[trigger] names@[k])@ == self.users.users@[k].name@,
            decreases self.users.users.len() - i,
        {
            names.push(&self.users.users[i].name);
            i += 1;
        }
        let r = format_user_list(names);
        proof {
            assert(Seq::new(names@.len(), |k: int| names@[k]@) =~= self.users.spec_user_names());
        }
        r
    }

    /// Tries the input as a global action. `None` means the input names no
    /// global action and should be treated as a movement attempt; the world
    /// itself is never changed here.
    pub fn attempt_global_action(&mut self, _user_name: &String, possible_action_name: &String) -> (r:
        Option<Result<ActionSuccess, ActionFailure>>)
        ensures
            *final(self) == *old(self),
            match GlobalActions::spec_from_text(possible_action_name@) {
                Some(_) => (r matches Some(res) && res matches Ok(s) && !s.spec_was_room_move()
                    && is_user_list(s.messages@, old(self).users.spec_user_names())),
                None => r is None,
            },
    {
        let action = GlobalActions::from_text(possible_action_name);
        match action {
            Some(act) => match act {
                GlobalActions::ListOnlineUsers => {
                    let messages = self.get_online_users_message();
                    Some(Ok(ActionSuccess::new(messages)))
                },
            },
            None => None,
        }
    }

    /// The dispatch pipeline: a recognized global action runs and ends the
    /// command; everything else is a movement attempt.
    pub fn process_input_impl(&mut self, user_name: &String, user_input: &String) -> (r: Result<
        ActionSuccess,
        ActionFailure,
    >)
        requires
            old(self).wf(),
            old(self).users.has_user(user_name@),
        ensures
            final(self).wf(),
            process_input_post(*old(self), *final(self), *user_name, *user_input, r),
    {
        let global_action_attempt = self.attempt_global_action(user_name, user_input);
        match global_action_attempt {
            Some(glob_succ) => {
                return glob_succ;
            },
            None => {},
        }
        self.attempt_move(user_name, user_input)
    }
}

/// What the dispatch pipeline leaves behind: a global action reports without
/// touching the world; any other input is judged as a movement attempt.
pub open spec fn process_input_post(
    pre: GameState,
    post: GameState,
    user_name: String,
    input: String,
    r: Result<ActionSuccess, ActionFailure>,
) -> bool {
    match GlobalActions::spec_from_text(input@) {
        Some(_) => {
            &&& post == pre
            &&& (r matches Ok(s) && !s.spec_was_room_move() && is_user_list(
                s.messages@,
                pre.users.spec_user_names(),
            ))
        },
        None => attempt_move_post(pre, post, user_name, input, r),
    }
}

/// Graph symmetry: a successful `add_path` between two distinct rooms leaves
/// the forward edge at the source under the direction's canonical name,
/// pointing at the target. For a two-way direction the reverse edge stands at
/// the target under the reverse direction's name, pointing back at the
/// source; for a one-way direction the target room is untouched.
pub proof fn lemma_graph_symmetry(
    pre: GameState,
    post: GameState,
    source_room_name: String,
    target_room_name: String,
    direction: Direction,
)
    requires
        pre.wf(),
        post.wf(),
        source_room_name@ != target_room_name@,
        add_path_post(pre, post, source_room_name, target_room_name, direction, Ok::<
            (),
            WorldError,
        >(())),
    ensures
        post.rooms.has_room(source_room_name@),
        post.rooms.has_room(target_room_name@),
        post.rooms.spec_room(source_room_name@).has_path(Direction::spec_path_name(direction)),
        post.rooms.spec_room(source_room_name@).spec_path(
            Direction::spec_path_name(direction),
        ).target_room_name@ == target_room_name@,
        post.rooms.spec_room(source_room_name@).spec_path(
            Direction::spec_path_name(direction),
        ).exit_cond is None,
        (Direction::spec_reverse(direction) matches Some(rd) ==> {
            &&& post.rooms.spec_room(target_room_name@).has_path(Direction::spec_path_name(rd))
            &&& post.rooms.spec_room(target_room_name@).spec_path(
                Direction::spec_path_name(rd),
            ).target_room_name@ == source_room_name@
            &&& post.rooms.spec_room(target_room_name@).spec_path(
                Direction::spec_path_name(rd),
            ).exit_cond is None
        }),
        (Direction::spec_reverse(direction) is None ==> post.rooms.spec_room(target_room_name@)
            == pre.rooms.spec_room(target_room_name@)),
{
    let src = source_room_name@;
    let tgt = target_room_name@;
    let pname = Direction::spec_path_name(direction);
    let ok = Ok::<(), WorldError>(());
    assert(edge_insert_ok(pre, source_room_name, target_room_name, pname));
    let si = pre.rooms.room_idx(src);
    let ti = pre.rooms.room_idx(tgt);
    assert(pre.rooms.rooms@[si].name@ == src);
    assert(pre.rooms.rooms@[ti].name@ == tgt);
    assert(si != ti);
    match Direction::spec_reverse(direction) {
        None => {
            assert(edge_added(pre, post, src, target_room_name, pname));
            assert forall|i: int| 0 <= i < pre.rooms.rooms@.len() implies (
            #[trigger] post.rooms.rooms@[i]).name@ == pre.rooms.rooms@[i].name@ by {}
            lemma_room_names_preserved(pre.rooms, post.rooms, src);
            lemma_room_names_preserved(pre.rooms, post.rooms, tgt);
            let spost = post.rooms.rooms@[si];
            let m = pre.rooms.rooms@[si].paths@.len() as int;
            assert(spost.paths@[m].path_name@ == pname);
            assert(post.rooms.rooms@[si].wf());
            spost.lemma_path_idx(m);
            assert(post.rooms.rooms@[ti] == pre.rooms.rooms@[ti]);
        },
        Some(rd) => {
            let rname = Direction::spec_path_name(rd);
            let mid = choose|mid: GameState|
                #[trigger] add_path_impl_post(
                    pre,
                    mid,
                    source_room_name,
                    target_room_name,
                    direction,
                    Ok::<(), WorldError>(()),
                ) && add_path_impl_post(mid, post, target_room_name, source_room_name, rd, ok);
            assert(edge_added(pre, mid, src, target_room_name, pname));
            assert forall|i: int| 0 <= i < pre.rooms.rooms@.len() implies (
            #[trigger] mid.rooms.rooms@[i]).name@ == pre.rooms.rooms@[i].name@ by {}
            lemma_room_names_preserved(pre.rooms, mid.rooms, src);
            lemma_room_names_preserved(pre.rooms, mid.rooms, tgt);
            assert(edge_added(mid, post, tgt, source_room_name, rname));
            assert forall|i: int| 0 <= i < mid.rooms.rooms@.len() implies (
            #[trigger] post.rooms.rooms@[i]).name@ == mid.rooms.rooms@[i].name@ by {}
            lemma_room_names_preserved(mid.rooms, post.rooms, src);
            lemma_room_names_preserved(mid.rooms, post.rooms, tgt);
            assert(mid.rooms.room_idx(tgt) == ti);
            assert(post.rooms.rooms@[si] == mid.rooms.rooms@[si]);
            let spost = post.rooms.rooms@[si];
            let m = pre.rooms.rooms@[si].paths@.len() as int;
            assert(spost.paths@[m].path_name@ == pname);
            assert(post.rooms.rooms@[si].wf());
            spost.lemma_path_idx(m);
            let tpost = post.rooms.rooms@[ti];
            let m2 = mid.rooms.rooms@[ti].paths@.len() as int;
            assert(tpost.paths@[m2].path_name@ == rname);
            assert(post.rooms.rooms@[ti].wf());
            tpost.lemma_path_idx(m2);
        },
    }
}

/// Occupancy and location agree: a known actor's entry names a room exactly
/// when the actor stands in that room's occupant set. Since its named
/// location always exists and room names are unique, the actor stands in
/// exactly one room's occupant set.
pub proof fn lemma_occupancy_location_agreement(
    gs: GameState,
    user_name: Seq<char>,
    room_name: Seq<char>,
)
    requires
        gs.wf(),
        gs.users.has_user(user_name),
        gs.rooms.has_room(room_name),
    ensures
        gs.rooms.has_room(gs.users.spec_user(user_name).room_name@),
        gs.users.spec_user(user_name).room_name@ == room_name <==> gs.rooms.spec_room(
            room_name,
        ).has_user(user_name),
{
    let uk = gs.users.user_idx(user_name);
    let u = gs.users.users@[uk];
    assert(u.name@ == user_name);
    assert(gs.rooms.has_room(u.room_name@));
    assert(gs.rooms.spec_room(u.room_name@).has_user(u.name@));
    let ri = gs.rooms.room_idx(room_name);
    assert(gs.rooms.rooms@[ri].name@ == room_name);
    if gs.rooms.spec_room(room_name).has_user(user_name) {
        let k = gs.rooms.rooms@[ri].user_idx(user_name);
        assert(gs.rooms.rooms@[ri].users@[k]@ == user_name);
        assert(gs.users.spec_user(user_name).room_name@ == gs.rooms.rooms@[ri].name@);
    }
}

/// What `create_user_in_room` leaves behind: the error on each misuse, in
/// order of precedence, or the actor appended with its kind's default
/// attributes and the chosen room's occupant set extended with it.
pub open spec fn create_user_in_room_post(
    pre: GameState,
    post: GameState,
    user_name: String,
    room_name: String,
    user_type: UserType,
    r: Result<(), WorldError>,
) -> bool {
    if user_name@.len() == 0 {
        &&& post == pre
        &&& r == Err::<(), WorldError>(WorldError::EmptyUserName)
    } else if pre.users.has_user(user_name@) {
        &&& post == pre
        &&& r == Err::<(), WorldError>(WorldError::DuplicateUser(user_name))
    } else if !pre.rooms.has_room(room_name@) {
        &&& post == pre
        &&& r == Err::<(), WorldError>(WorldError::RoomNotFoundForMutation(room_name))
    } else {
        let ri = pre.rooms.room_idx(room_name@);
        &&& r == Ok::<(), WorldError>(())
        &&& post.users.users@ == pre.users.users@.push(
            (User {
                name: user_name,
                room_name: room_name,
                basic_attributes: BasicAttributes::spec_default(user_type),
                special_attributes: SpecialAttributes::spec_default(user_type),
            }),
        )
        &&& post.rooms.rooms@.len() == pre.rooms.rooms@.len()
        &&& forall|i: int|
            0 <= i < pre.rooms.rooms@.len() && i != ri ==> (#[trigger] post.rooms.rooms@[i])
                == pre.rooms.rooms@[i]
        &&& post.rooms.rooms@[ri].name == pre.rooms.rooms@[ri].name
        &&& post.rooms.rooms@[ri].description == pre.rooms.rooms@[ri].description
        &&& post.rooms.rooms@[ri].paths == pre.rooms.rooms@[ri].paths
        &&& post.rooms.rooms@[ri].users@ == pre.rooms.rooms@[ri].users@.push(user_name)
    }
}

/// Appending a fresh actor and entering it into its starting room's occupant
/// set preserves the world invariant.
proof fn lemma_create_user_wf(pre: GameState, post: GameState, u_new: User)
    requires
        pre.wf(),
        u_new.wf(),
        !pre.users.has_user(u_new.name@),
        pre.rooms.has_room(u_new.room_name@),
        post.users.users@ == pre.users.users@.push(u_new),
        post.rooms.rooms@.len() == pre.rooms.rooms@.len(),
        forall|i: int|
            0 <= i < pre.rooms.rooms@.len() && i != pre.rooms.room_idx(u_new.room_name@) ==> (
            #[trigger] post.rooms.rooms@[i]) == pre.rooms.rooms@[i],
        post.rooms.rooms@[pre.rooms.room_idx(u_new.room_name@)].name == pre.rooms.rooms@[pre.rooms.room_idx(
            u_new.room_name@,
        )].name,
        post.rooms.rooms@[pre.rooms.room_idx(u_new.room_name@)].description
            == pre.rooms.rooms@[pre.rooms.room_idx(u_new.room_name@)].description,
        post.rooms.rooms@[pre.rooms.room_idx(u_new.room_name@)].paths == pre.rooms.rooms@[pre.rooms.room_idx(
            u_new.room_name@,
        )].paths,
        post.rooms.rooms@[pre.rooms.room_idx(u_new.room_name@)].users@ == pre.rooms.rooms@[pre.rooms.room_idx(
            u_new.room_name@,
        )].users@.push(u_new.name),
    ensures
        post.wf(),
{
    let ri = pre.rooms.room_idx(u_new.room_name@);
    let n = pre.rooms.rooms@.len() as int;
    let nu = pre.users.users@.len() as int;
    assert(pre.rooms.rooms@[ri].name@ == u_new.room_name@);
    assert(!pre.rooms.rooms@[ri].has_user(u_new.name@)) by {
        if pre.rooms.rooms@[ri].has_user(u_new.name@) {
            let k = pre.rooms.rooms@[ri].user_idx(u_new.name@);
            assert(pre.rooms.rooms@[ri].users@[k]@ == u_new.name@);
            assert(pre.users.has_user(u_new.name@));
        }
    }
    // the actor table stays well formed
    assert forall|i: int, j: int| 0 <= i < j < post.users.users@.len() implies (
    #[trigger] post.users.users@[i]).name@ != (#[trigger] post.users.users@[j]).name@ by {
        if j < nu {
            assert(pre.users.users@[i].name@ != pre.users.users@[j].name@);
        } else {
            assert(post.users.users@[i] == pre.users.users@[i]);
            assert(pre.users.users@[i].name@ != u_new.name@);
        }
    }
    assert forall|i: int| 0 <= i < post.users.users@.len() implies (
    #[trigger] post.users.users@[i]).wf() by {
        if i < nu {
            assert(post.users.users@[i] == pre.users.users@[i]);
            assert(pre.users.users@[i].wf());
        }
    }
    // the room table stays well formed
    assert forall|i: int| 0 <= i < n implies (#[trigger] post.rooms.rooms@[i]).name@
        == pre.rooms.rooms@[i].name@ by {}
    assert forall|i: int, j: int| 0 <= i < j < n implies (#[trigger] post.rooms.rooms@[i]).name@
        != (#[trigger] post.rooms.rooms@[j]).name@ by {
        assert(pre.rooms.rooms@[i].name@ != pre.rooms.rooms@[j].name@);
    }
    let pr = pre.rooms.rooms@[ri];
    let po = post.rooms.rooms@[ri];
    let m = pr.users@.len() as int;
    assert forall|i: int| 0 <= i < n implies (#[trigger] post.rooms.rooms@[i]).wf() by {
        assert(pre.rooms.rooms@[i].wf());
        if i == ri {
            assert forall|a: int, b: int| 0 <= a < b < po.users@.len() implies (
            #[trigger] po.users@[a])@ != (#[trigger] po.users@[b])@ by {
                if b < m {
                    assert(pr.users@[a]@ != pr.users@[b]@);
                } else {
                    assert(po.users@[a] == pr.users@[a]);
                    assert(!pr.has_user(u_new.name@));
                    assert(pr.users@[a]@ != u_new.name@);
                }
            }
        }
    }
    // no path changed, so every target still exists
    assert forall|i: int, j: int|
        0 <= i < post.rooms.rooms@.len() && 0 <= j
            < post.rooms.rooms@[i].paths@.len() implies post.rooms.has_room(
        (#[trigger] post.rooms.rooms@[i].paths@[j]).target_room_name@,
    ) by {
        assert(post.rooms.rooms@[i].paths == pre.rooms.rooms@[i].paths);
        let t = pre.rooms.rooms@[i].paths@[j].target_room_name@;
        assert(pre.rooms.has_room(t));
        lemma_room_names_preserved(pre.rooms, post.rooms, t);
    }
    // every actor, the new one included, stands where its location says
    assert forall|k: int| 0 <= k < post.users.users@.len() implies {
        let u = #[trigger] post.users.users@[k];
        &&& post.rooms.has_room(u.room_name@)
        &&& post.rooms.spec_room(u.room_name@).has_user(u.name@)
    } by {
        let u = post.users.users@[k];
        if k < nu {
            assert(u == pre.users.users@[k]);
            assert(pre.rooms.has_room(u.room_name@));
            lemma_room_names_preserved(pre.rooms, post.rooms, u.room_name@);
            let xi = pre.rooms.room_idx(u.room_name@);
            assert(pre.rooms.rooms@[xi].has_user(u.name@));
            if xi == ri {
                let a = pr.user_idx(u.name@);
                assert(pr.users@[a]@ == u.name@);
                assert(po.users@[a]@ == u.name@);
                assert(po.has_user(u.name@));
            } else {
                assert(post.rooms.rooms@[xi] == pre.rooms.rooms@[xi]);
            }
        } else {
            assert(u == u_new);
            lemma_room_names_preserved(pre.rooms, post.rooms, u.room_name@);
            assert(po.users@[m]@ == u_new.name@);
            assert(po.has_user(u_new.name@));
        }
    }
    // every occupant, the new one included, is a known actor located there
    assert forall|i: int, k: int|
        0 <= i < post.rooms.rooms@.len() && 0 <= k < post.rooms.rooms@[i].users@.len() implies {
        let nm = (#[trigger] post.rooms.rooms@[i].users@[k])@;
        &&& post.users.has_user(nm)
        &&& post.users.spec_user(nm).room_name@ == post.rooms.rooms@[i].name@
    } by {
        let nm = post.rooms.rooms@[i].users@[k]@;
        if i == ri && k == m {
            assert(nm == u_new.name@);
            assert(post.users.users@[nu] == u_new);
            post.users.lemma_user_idx(nu);
            assert(post.users.spec_user(nm) == u_new);
        } else {
            assert(post.rooms.rooms@[i].users@[k] == pre.rooms.rooms@[i].users@[k]);
            assert(pre.users.has_user(nm));
            assert(pre.users.spec_user(nm).room_name@ == pre.rooms.rooms@[i].name@);
            lemma_user_prefix_preserved(pre.users, post.users, nm);
        }
    }
}

/// Appending a well-formed edge under a fresh name, toward an existing room,
/// preserves the world invariant.
proof fn lemma_add_edge_wf(pre: GameState, post: GameState, si: int)
    requires
        pre.wf(),
        0 <= si < pre.rooms.rooms@.len(),
        post.users == pre.users,
        post.rooms.rooms@.len() == pre.rooms.rooms@.len(),
        forall|i: int|
            0 <= i < pre.rooms.rooms@.len() && i != si ==> (#[trigger] post.rooms.rooms@[i])
                == pre.rooms.rooms@[i],
        post.rooms.rooms@[si].name == pre.rooms.rooms@[si].name,
        post.rooms.rooms@[si].description == pre.rooms.rooms@[si].description,
        post.rooms.rooms@[si].users == pre.rooms.rooms@[si].users,
        post.rooms.rooms@[si].paths@ == pre.rooms.rooms@[si].paths@.push(
            post.rooms.rooms@[si].paths@.last(),
        ),
        post.rooms.rooms@[si].paths@.last().wf(),
        !pre.rooms.rooms@[si].has_path(post.rooms.rooms@[si].paths@.last().path_name@),
        pre.rooms.has_room(post.rooms.rooms@[si].paths@.last().target_room_name@),
    ensures
        post.wf(),
{
    let n = pre.rooms.rooms@.len() as int;
    let newp = post.rooms.rooms@[si].paths@.last();
    let m = pre.rooms.rooms@[si].paths@.len() as int;
    assert forall|i: int| 0 <= i < n implies (#[trigger] post.rooms.rooms@[i]).name@
        == pre.rooms.rooms@[i].name@ by {}
    assert forall|i: int, j: int| 0 <= i < j < n implies (#[trigger] post.rooms.rooms@[i]).name@
        != (#[trigger] post.rooms.rooms@[j]).name@ by {
        assert(pre.rooms.rooms@[i].name@ != pre.rooms.rooms@[j].name@);
    }
    assert(post.rooms.names_unique());
    assert forall|i: int| 0 <= i < n implies (#[trigger] post.rooms.rooms@[i]).wf() by {
        assert(pre.rooms.rooms@[i].wf());
        if i == si {
            let pr = pre.rooms.rooms@[si];
            let po = post.rooms.rooms@[si];
            assert forall|a: int, b: int| 0 <= a < b < po.paths@.len() implies (
            #[trigger] po.paths@[a]).path_name@ != (#[trigger] po.paths@[b]).path_name@ by {
                if b < m {
                    assert(pr.paths@[a].path_name@ != pr.paths@[b].path_name@);
                } else {
                    assert(po.paths@[a] == pr.paths@[a]);
                    assert(!pr.has_path(newp.path_name@));
                    assert(pr.paths@[a].path_name@ != newp.path_name@);
                }
            }
            assert forall|a: int| 0 <= a < po.paths@.len() implies (
            #[trigger] po.paths@[a]).wf() by {
                if a < m {
                    assert(po.paths@[a] == pr.paths@[a]);
                    assert(pr.paths@[a].wf());
                }
            }
        }
    }
    assert forall|i: int, j: int|
        0 <= i < post.rooms.rooms@.len() && 0 <= j
            < post.rooms.rooms@[i].paths@.len() implies post.rooms.has_room(
        (#[trigger] post.rooms.rooms@[i].paths@[j]).target_room_name@,
    ) by {
        let t = post.rooms.rooms@[i].paths@[j].target_room_name@;
        if i == si && j == m {
            assert(pre.rooms.has_room(t));
        } else if i == si {
            assert(post.rooms.rooms@[i].paths@[j] == pre.rooms.rooms@[i].paths@[j]);
            assert(pre.rooms.has_room(t));
        } else {
            assert(post.rooms.rooms@[i].paths@[j] == pre.rooms.rooms@[i].paths@[j]);
            assert(pre.rooms.has_room(t));
        }
        lemma_room_names_preserved(pre.rooms, post.rooms, t);
    }
    assert forall|k: int| 0 <= k < post.users.users@.len() implies {
        let u = #[trigger] post.users.users@[k];
        &&& post.rooms.has_room(u.room_name@)
        &&& post.rooms.spec_room(u.room_name@).has_user(u.name@)
    } by {
        let u = post.users.users@[k];
        assert(pre.users.users@[k] == u);
        assert(pre.rooms.has_room(u.room_name@));
        lemma_room_names_preserved(pre.rooms, post.rooms, u.room_name@);
        let ri = pre.rooms.room_idx(u.room_name@);
        assert(pre.rooms.rooms@[ri].name@ == u.room_name@);
        assert(pre.rooms.rooms@[ri].has_user(u.name@));
        assert(post.rooms.rooms@[ri].users == pre.rooms.rooms@[ri].users);
    }
    assert forall|i: int, k: int|
        0 <= i < post.rooms.rooms@.len() && 0 <= k < post.rooms.rooms@[i].users@.len() implies {
        let nm = (#[trigger] post.rooms.rooms@[i].users@[k])@;
        &&& post.users.has_user(nm)
        &&& post.users.spec_user(nm).room_name@ == post.rooms.rooms@[i].name@
    } by {
        assert(post.rooms.rooms@[i].users == pre.rooms.rooms@[i].users);
        let nm = pre.rooms.rooms@[i].users@[k]@;
        assert(pre.users.has_user(nm));
        assert(pre.users.spec_user(nm).room_name@ == pre.rooms.rooms@[i].name@);
    }
}

/// The complaint shown when a movement word matches no path of the actor's
/// room.
pub open spec fn spec_no_direction_message(pname: Seq<char>, room: Seq<char>) -> Seq<char> {
    "What? There's no direction "@ + pname + " from "@ + room + "."@
}

/// The world after an actor moved: its table entry carries the guard's work
/// and the new location, the target room gained it, its old room lost it,
/// and nothing else changed. A passage that leads back into the same room
/// leaves the occupant sets as they were.
pub open spec fn moved(
    pre: GameState,
    post: GameState,
    user_name: String,
    u2: User,
    target_room_name: String,
) -> bool {
    let uk = pre.users.user_idx(user_name@);
    let u = pre.users.users@[uk];
    let src = u.room_name@;
    let dst = target_room_name@;
    let si = pre.rooms.room_idx(src);
    let di = pre.rooms.room_idx(dst);
    &&& post.users.users@ == pre.users.users@.update(
        uk,
        (User {
            name: u2.name,
            room_name: target_room_name,
            basic_attributes: u2.basic_attributes,
            special_attributes: u2.special_attributes,
        }),
    )
    &&& post.rooms.rooms@.len() == pre.rooms.rooms@.len()
    &&& if src == dst {
        post.rooms == pre.rooms
    } else {
        &&& forall|i: int|
            0 <= i < pre.rooms.rooms@.len() && i != si && i != di ==> (
            #[trigger] post.rooms.rooms@[i]) == pre.rooms.rooms@[i]
        &&& post.rooms.rooms@[si].name == pre.rooms.rooms@[si].name
        &&& post.rooms.rooms@[si].description == pre.rooms.rooms@[si].description
        &&& post.rooms.rooms@[si].paths == pre.rooms.rooms@[si].paths
        &&& post.rooms.rooms@[si].users@ == pre.rooms.rooms@[si].users@.remove(
            pre.rooms.rooms@[si].user_idx(user_name@),
        )
        &&& post.rooms.rooms@[di].name == pre.rooms.rooms@[di].name
        &&& post.rooms.rooms@[di].description == pre.rooms.rooms@[di].description
        &&& post.rooms.rooms@[di].paths == pre.rooms.rooms@[di].paths
        &&& post.rooms.rooms@[di].users@ == pre.rooms.rooms@[di].users@.push(user_name)
    }
}

/// The world after a guard denied a passage: the rooms stand untouched, and
/// only the actor's own entry carries whatever the guard did to it before
/// denying — such work is never rolled back.
pub open spec fn guard_denied(
    pre: GameState,
    post: GameState,
    user_name: String,
    u2: User,
) -> bool {
    &&& post.rooms == pre.rooms
    &&& post.users.users@ == pre.users.users@.update(pre.users.user_idx(user_name@), u2)
}

/// What `attempt_move` leaves behind, for every input. An empty normalized
/// word fails silently; an unknown path name fails with one complaint; a
/// denying guard fails with its reason and moves nobody; otherwise the guard's
/// messages (if any) come back in order, the outcome is marked a room move,
/// and the actor has crossed over.
pub open spec fn attempt_move_post(
    pre: GameState,
    post: GameState,
    user_name: String,
    input: String,
    r: Result<ActionSuccess, ActionFailure>,
) -> bool {
    let norm = Path::spec_match_alias(input@);
    let u = pre.users.spec_user(user_name@);
    let room = pre.rooms.spec_room(u.room_name@);
    if norm.len() == 0 {
        &&& post == pre
        &&& (r matches Err(f) && f.messages@.len() == 0)
    } else if !room.has_path(norm) {
        &&& post == pre
        &&& (r matches Err(f) && f.messages@.len() == 1 && f.messages@[0]@
            == spec_no_direction_message(norm, u.room_name@))
    } else {
        let path = room.spec_path(norm);
        match path.exit_cond {
            None => {
                &&& (r matches Ok(s) && s.messages@.len() == 0 && s.spec_was_room_move())
                &&& moved(pre, post, user_name, u, path.target_room_name)
            },
            Some(cond) => {
                let u2 = cond.spec_apply(u);
                if cond.spec_allows(u) {
                    &&& (r matches Ok(s) && msgs_match(s.messages@, cond.spec_messages(u))
                        && s.spec_was_room_move())
                    &&& moved(pre, post, user_name, u2, path.target_room_name)
                } else {
                    &&& (r matches Err(f) && msgs_match(f.messages@, cond.spec_messages(u)))
                    &&& guard_denied(pre, post, user_name, u2)
                }
            },
        }
    }
}

/// Changing one actor's entry without touching its name or its location
/// preserves the world invariant.
proof fn lemma_user_swap_wf(pre: GameState, post: GameState, uname: Seq<char>, u2: User)
    requires
        pre.wf(),
        pre.users.has_user(uname),
        u2.name@ == pre.users.spec_user(uname).name@,
        u2.room_name@ == pre.users.spec_user(uname).room_name@,
        post.rooms == pre.rooms,
        post.users.users@ == pre.users.users@.update(pre.users.user_idx(uname), u2),
    ensures
        post.wf(),
{
    let uk = pre.users.user_idx(uname);
    assert(pre.users.users@[uk].name@ == uname);
    assert forall|i: int| 0 <= i < post.users.users@.len() implies (
    #[trigger] post.users.users@[i]).name@ == pre.users.users@[i].name@ && post.users.users@[i].room_name@
        == pre.users.users@[i].room_name@ by {}
    assert forall|i: int, j: int| 0 <= i < j < post.users.users@.len() implies (
    #[trigger] post.users.users@[i]).name@ != (#[trigger] post.users.users@[j]).name@ by {
        assert(pre.users.users@[i].name@ != pre.users.users@[j].name@);
    }
    assert forall|i: int| 0 <= i < post.users.users@.len() implies (
    #[trigger] post.users.users@[i]).wf() by {
        assert(pre.users.users@[i].wf());
    }
    assert forall|k: int| 0 <= k < post.users.users@.len() implies {
        let u = #[trigger] post.users.users@[k];
        &&& post.rooms.has_room(u.room_name@)
        &&& post.rooms.spec_room(u.room_name@).has_user(u.name@)
    } by {
        let u0 = pre.users.users@[k];
        assert(pre.rooms.has_room(u0.room_name@));
        assert(pre.rooms.spec_room(u0.room_name@).has_user(u0.name@));
    }
    assert forall|i: int, k: int|
        0 <= i < post.rooms.rooms@.len() && 0 <= k < post.rooms.rooms@[i].users@.len() implies {
        let nm = (#[trigger] post.rooms.rooms@[i].users@[k])@;
        &&& post.users.has_user(nm)
        &&& post.users.spec_user(nm).room_name@ == post.rooms.rooms@[i].name@
    } by {
        let nm = pre.rooms.rooms@[i].users@[k]@;
        assert(pre.users.has_user(nm));
        assert(pre.users.spec_user(nm).room_name@ == pre.rooms.rooms@[i].name@);
        lemma_user_names_preserved(pre.users, post.users, nm);
        let xi = pre.users.user_idx(nm);
        assert(post.users.users@[xi].room_name@ == pre.users.users@[xi].room_name@);
    }
}

/// The commit of a movement into a different room preserves the world
/// invariant.
proof fn lemma_commit_move_wf(
    pre: GameState,
    post: GameState,
    user_name: String,
    u2: User,
    target_room_name: String,
)
    requires
        pre.wf(),
        pre.users.has_user(user_name@),
        u2.name@ == pre.users.spec_user(user_name@).name@,
        u2.room_name@ == pre.users.spec_user(user_name@).room_name@,
        pre.rooms.has_room(target_room_name@),
        target_room_name@ != pre.users.spec_user(user_name@).room_name@,
        moved(pre, post, user_name, u2, target_room_name),
    ensures
        post.wf(),
{
    let uname = user_name@;
    let uk = pre.users.user_idx(uname);
    let u = pre.users.users@[uk];
    assert(u.name@ == uname);
    let src = u.room_name@;
    let dst = target_room_name@;
    let si = pre.rooms.room_idx(src);
    let di = pre.rooms.room_idx(dst);
    assert(pre.rooms.has_room(src));
    assert(pre.rooms.rooms@[si].name@ == src);
    assert(pre.rooms.rooms@[di].name@ == dst);
    assert(si != di);
    let spre = pre.rooms.rooms@[si];
    let spost = post.rooms.rooms@[si];
    let dpre = pre.rooms.rooms@[di];
    let dpost = post.rooms.rooms@[di];
    let u3 = post.users.users@[uk];
    assert(u3.name@ == uname && u3.room_name@ == dst);
    // the moving actor stood in its old room, and nowhere else
    assert(spre.has_user(uname));
    assert(!dpre.has_user(uname)) by {
        if dpre.has_user(uname) {
            let k = dpre.user_idx(uname);
            assert(dpre.users@[k]@ == uname);
            assert(pre.users.spec_user(uname).room_name@ == dpre.name@);
        }
    }
    lemma_remove_user_effect(spre, spost, uname);
    lemma_insert_user_effect(dpre, dpost, user_name);
    // the actor table keeps its names, so it stays well formed
    assert forall|i: int| 0 <= i < post.users.users@.len() implies (
    #[trigger] post.users.users@[i]).name@ == pre.users.users@[i].name@ by {}
    assert forall|i: int, j: int| 0 <= i < j < post.users.users@.len() implies (
    #[trigger] post.users.users@[i]).name@ != (#[trigger] post.users.users@[j]).name@ by {
        assert(pre.users.users@[i].name@ != pre.users.users@[j].name@);
    }
    assert forall|i: int| 0 <= i < post.users.users@.len() implies (
    #[trigger] post.users.users@[i]).wf() by {
        assert(pre.users.users@[i].wf());
    }
    // the room table keeps its names, so it stays well formed
    assert forall|i: int| 0 <= i < pre.rooms.rooms@.len() implies (
    #[trigger] post.rooms.rooms@[i]).name@ == pre.rooms.rooms@[i].name@ by {}
    assert forall|i: int, j: int| 0 <= i < j < pre.rooms.rooms@.len() implies (
    #[trigger] post.rooms.rooms@[i]).name@ != (#[trigger] post.rooms.rooms@[j]).name@ by {
        assert(pre.rooms.rooms@[i].name@ != pre.rooms.rooms@[j].name@);
    }
    assert forall|i: int| 0 <= i < post.rooms.rooms@.len() implies (
    #[trigger] post.rooms.rooms@[i]).wf() by {
        assert(pre.rooms.rooms@[i].wf());
        if i == si {
            assert(spost.paths_unique()) by {
                assert(spost.paths == spre.paths);
            }
        } else if i == di {
            assert(dpost.paths_unique()) by {
                assert(dpost.paths == dpre.paths);
            }
        }
    }
    // no path changed, so every target still exists
    assert forall|i: int, j: int|
        0 <= i < post.rooms.rooms@.len() && 0 <= j
            < post.rooms.rooms@[i].paths@.len() implies post.rooms.has_room(
        (#[trigger] post.rooms.rooms@[i].paths@[j]).target_room_name@,
    ) by {
        assert(post.rooms.rooms@[i].paths == pre.rooms.rooms@[i].paths);
        let t = pre.rooms.rooms@[i].paths@[j].target_room_name@;
        assert(pre.rooms.has_room(t));
        lemma_room_names_preserved(pre.rooms, post.rooms, t);
    }
    // every actor still stands where its entry says
    assert forall|k: int| 0 <= k < post.users.users@.len() implies {
        let w = #[trigger] post.users.users@[k];
        &&& post.rooms.has_room(w.room_name@)
        &&& post.rooms.spec_room(w.room_name@).has_user(w.name@)
    } by {
        let w = post.users.users@[k];
        if k == uk {
            lemma_room_names_preserved(pre.rooms, post.rooms, dst);
            assert(post.rooms.spec_room(dst) == dpost);
            assert(dpost.has_user(uname));
        } else {
            let w0 = pre.users.users@[k];
            assert(w == w0);
            assert(w0.name@ != uname);
            assert(pre.rooms.has_room(w0.room_name@));
            assert(pre.rooms.spec_room(w0.room_name@).has_user(w0.name@));
            lemma_room_names_preserved(pre.rooms, post.rooms, w0.room_name@);
            let xi = pre.rooms.room_idx(w0.room_name@);
            if xi == si {
                assert(spost.has_user(w0.name@) == spre.has_user(w0.name@));
            } else if xi == di {
                assert(dpost.has_user(w0.name@) == dpre.has_user(w0.name@));
            } else {
                assert(post.rooms.rooms@[xi] == pre.rooms.rooms@[xi]);
            }
        }
    }
    // every occupant is still a known actor located right there
    assert forall|i: int, k: int|
        0 <= i < post.rooms.rooms@.len() && 0 <= k < post.rooms.rooms@[i].users@.len() implies {
        let nm = (#[trigger] post.rooms.rooms@[i].users@[k])@;
        &&& post.users.has_user(nm)
        &&& post.users.spec_user(nm).room_name@ == post.rooms.rooms@[i].name@
    } by {
        let nm = post.rooms.rooms@[i].users@[k]@;
        if i == di && k == dpre.users@.len() {
            assert(nm == uname);
            lemma_user_names_preserved(pre.users, post.users, uname);
            assert(post.users.spec_user(uname) == u3);
        } else {
            // an occupant slot that already existed before the move
            let nm0 = if i == si {
                let kk = spre.user_idx(uname);
                pre.rooms.rooms@[i].users@.remove_ensures(kk);
                if k < kk {
                    pre.rooms.rooms@[i].users@[k]@
                } else {
                    pre.rooms.rooms@[i].users@[k + 1]@
                }
            } else {
                pre.rooms.rooms@[i].users@[k]@
            };
            assert(nm == nm0);
            assert(pre.users.has_user(nm));
            assert(pre.users.spec_user(nm).room_name@ == pre.rooms.rooms@[i].name@);
            assert(nm != uname) by {
                if nm == uname {
                    if i == si {
                        assert(!spost.has_user(uname));
                    } else {
                        assert(pre.users.spec_user(uname).room_name@ == pre.rooms.rooms@[i].name@);
                        assert(pre.rooms.rooms@[i].name@ == src);
                        pre.rooms.lemma_room_idx(i);
                    }
                }
            }
            lemma_user_names_preserved(pre.users, post.users, nm);
            let xk = pre.users.user_idx(nm);
            assert(xk != uk);
            assert(post.users.users@[xk] == pre.users.users@[xk]);
        }
    }
}

/// Whether a one-way edge insert has everything it needs: the rooms on both
/// ends exist, the name is fresh at the source, and it is not empty.
pub open spec fn edge_insert_ok(
    pre: GameState,
    source_room_name: String,
    target_room_name: String,
    pname: Seq<char>,
) -> bool {
    &&& pre.rooms.has_room(target_room_name@)
    &&& pre.rooms.has_room(source_room_name@)
    &&& !pre.rooms.spec_room(source_room_name@).has_path(pname)
    &&& pname.len() > 0
}

/// The world after one directed, unguarded edge was appended at the source
/// room; everything else stands as it was.
pub open spec fn edge_added(
    pre: GameState,
    post: GameState,
    source: Seq<char>,
    target_room_name: String,
    pname: Seq<char>,
) -> bool {
    let si = pre.rooms.room_idx(source);
    let pr = pre.rooms.rooms@[si];
    let po = post.rooms.rooms@[si];
    &&& post.users == pre.users
    &&& post.rooms.rooms@.len() == pre.rooms.rooms@.len()
    &&& forall|i: int|
        0 <= i < pre.rooms.rooms@.len() && i != si ==> (#[trigger] post.rooms.rooms@[i])
            == pre.rooms.rooms@[i]
    &&& po.name == pr.name
    &&& po.description == pr.description
    &&& po.users == pr.users
    &&& po.paths@ == pr.paths@.push(po.paths@.last())
    &&& po.paths@.last().target_room_name == target_room_name
    &&& po.paths@.last().path_name@ == pname
    &&& po.paths@.last().exit_cond is None
}

/// What one directed edge insert leaves behind: the error on each misuse, in
/// order of precedence, or the edge appended at the source room.
pub open spec fn add_path_impl_post(
    pre: GameState,
    post: GameState,
    source_room_name: String,
    target_room_name: String,
    direction: Direction,
    r: Result<(), WorldError>,
) -> bool {
    let pname = Direction::spec_path_name(direction);
    if !pre.rooms.has_room(target_room_name@) {
        &&& post == pre
        &&& r == Err::<(), WorldError>(WorldError::NoSuchRoom(target_room_name))
    } else if !pre.rooms.has_room(source_room_name@) {
        &&& post == pre
        &&& r == Err::<(), WorldError>(WorldError::RoomNotFoundForMutation(source_room_name))
    } else if pre.rooms.spec_room(source_room_name@).has_path(pname) {
        &&& post == pre
        &&& (r matches Err(e) && e matches WorldError::DuplicatePath(p, rn) && p@ == pname && rn
            == source_room_name)
    } else if pname.len() == 0 {
        &&& post == pre
        &&& r == Err::<(), WorldError>(WorldError::EmptyPathName)
    } else {
        &&& r == Ok::<(), WorldError>(())
        &&& edge_added(pre, post, source_room_name@, target_room_name, pname)
    }
}

/// What `add_path` leaves behind. A one-way direction inserts one edge under
/// the rules of `add_path_impl_post`; a two-way direction inserts the forward
/// edge first and then, through an intermediate world, the reverse edge under
/// the same rules — so a failing reverse insert leaves the forward edge in
/// place. The whole call succeeds exactly when the forward insert succeeds
/// and the reverse name, where there is one, is nonempty and fresh at the
/// target.
pub open spec fn add_path_post(
    pre: GameState,
    post: GameState,
    source_room_name: String,
    target_room_name: String,
    direction: Direction,
    r: Result<(), WorldError>,
) -> bool {
    let pname = Direction::spec_path_name(direction);
    if !edge_insert_ok(pre, source_room_name, target_room_name, pname) {
        add_path_impl_post(pre, post, source_room_name, target_room_name, direction, r)
    } else {
        match Direction::spec_reverse(direction) {
            None => add_path_impl_post(pre, post, source_room_name, target_room_name, direction, r),
            Some(rd) => {
                let rname = Direction::spec_path_name(rd);
                let rev_dup = pre.rooms.spec_room(target_room_name@).has_path(rname) || (
                source_room_name@ == target_room_name@ && rname == pname);
                &&& (r is Ok <==> !rev_dup && rname.len() > 0)
                &&& exists|mid: GameState|
                    #[trigger] add_path_impl_post(
                        pre,
                        mid,
                        source_room_name,
                        target_room_name,
                        direction,
                        Ok::<(), WorldError>(()),
                    ) && add_path_impl_post(mid, post, target_room_name, source_room_name, rd, r)
            },
        }
    }
}

/// What `create_room_from` leaves behind: the new room under the rules of
/// `create_room_post`, then — through the intermediate world that holds it —
/// the linking paths under the rules of `add_path_post`.
pub open spec fn create_room_from_post(
    pre: GameState,
    post: GameState,
    this_name: String,
    this_desc: String,
    other_room_name: String,
    direction: Direction,
    r: Result<(), WorldError>,
) -> bool {
    if this_name@.len() == 0 || this_desc@.len() == 0 || pre.rooms.has_room(this_name@) {
        create_room_post(pre, post, this_name, this_desc, r)
    } else {
        exists|mid: GameState|
            #[trigger] create_room_post(pre, mid, this_name, this_desc, Ok::<(), WorldError>(()))
                && add_path_post(mid, post, other_room_name, this_name, direction, r)
    }
}

/// What `create_room` leaves behind: the error on each misuse, in order of
/// precedence, or the world extended with one fresh, empty room.
pub open spec fn create_room_post(
    pre: GameState,
    post: GameState,
    name: String,
    desc: String,
    r: Result<(), WorldError>,
) -> bool {
    if name@.len() == 0 {
        &&& post == pre
        &&& r == Err::<(), WorldError>(WorldError::EmptyRoomName)
    } else if desc@.len() == 0 {
        &&& post == pre
        &&& r == Err::<(), WorldError>(WorldError::EmptyRoomDescription)
    } else if pre.rooms.has_room(name@) {
        &&& post == pre
        &&& r == Err::<(), WorldError>(WorldError::DuplicateRoom(name))
    } else {
        &&& r == Ok::<(), WorldError>(())
        &&& post.users == pre.users
        &&& post.rooms.rooms@.len() == pre.rooms.rooms@.len() + 1
        &&& post.rooms.rooms@ == pre.rooms.rooms@.push(post.rooms.rooms@.last())
        &&& post.rooms.rooms@.last().name == name
        &&& post.rooms.rooms@.last().description == desc
        &&& post.rooms.rooms@.last().paths@ == Seq::<Path>::empty()
        &&& post.rooms.rooms@.last().users@ == Seq::<String>::empty()
    }
}

/// Appending a fresh, empty room under an unused name preserves the world
/// invariant.
proof fn lemma_create_room_wf(pre: GameState, post: GameState)
    requires
        pre.wf(),
        post.users == pre.users,
        post.rooms.names_unique(),
        post.rooms.rooms@.len() == pre.rooms.rooms@.len() + 1,
        forall|i: int| 0 <= i < pre.rooms.rooms@.len() ==> (#[trigger] post.rooms.rooms@[i])
            == pre.rooms.rooms@[i],
        post.rooms.rooms@.last().wf(),
        post.rooms.rooms@.last().paths@.len() == 0,
        post.rooms.rooms@.last().users@.len() == 0,
    ensures
        post.wf(),
{
    let n = pre.rooms.rooms@.len() as int;
    assert forall|i: int| 0 <= i < post.rooms.rooms@.len() implies (
    #[trigger] post.rooms.rooms@[i]).wf() by {
        if i < n {
            assert(pre.rooms.rooms@[i].wf());
        }
    }
    assert forall|i: int, j: int|
        0 <= i < post.rooms.rooms@.len() && 0 <= j
            < post.rooms.rooms@[i].paths@.len() implies post.rooms.has_room(
        (#[trigger] post.rooms.rooms@[i].paths@[j]).target_room_name@,
    ) by {
        assert(i < n);
        assert(post.rooms.rooms@[i] == pre.rooms.rooms@[i]);
        assert(pre.rooms.has_room(pre.rooms.rooms@[i].paths@[j].target_room_name@));
        let t = pre.rooms.rooms@[i].paths@[j].target_room_name@;
        lemma_room_prefix_preserved(pre.rooms, post.rooms, t);
    }
    assert forall|k: int| 0 <= k < post.users.users@.len() implies {
        let u = #[trigger] post.users.users@[k];
        &&& post.rooms.has_room(u.room_name@)
        &&& post.rooms.spec_room(u.room_name@).has_user(u.name@)
    } by {
        let u = post.users.users@[k];
        assert(pre.users.users@[k] == u);
        assert(pre.rooms.has_room(u.room_name@));
        lemma_room_prefix_preserved(pre.rooms, post.rooms, u.room_name@);
    }
    assert forall|i: int, k: int|
        0 <= i < post.rooms.rooms@.len() && 0 <= k < post.rooms.rooms@[i].users@.len() implies {
        let nm = (#[trigger] post.rooms.rooms@[i].users@[k])@;
        &&& post.users.has_user(nm)
        &&& post.users.spec_user(nm).room_name@ == post.rooms.rooms@[i].name@
    } by {
        assert(i < n);
        assert(post.rooms.rooms@[i] == pre.rooms.rooms@[i]);
        let nm = pre.rooms.rooms@[i].users@[k]@;
        assert(pre.users.has_user(nm));
        assert(pre.users.spec_user(nm).room_name@ == pre.rooms.rooms@[i].name@);
    }
}

} // verus!
