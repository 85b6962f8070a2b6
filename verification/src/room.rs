use vstd::prelude::*;
use crate::eq_str;
use crate::lambda::{ActionFunc, ExitCondition};

verus! {

/// A location in the world: a unique name, a description, the outgoing
/// paths it owns, and the identifiers of the actors standing in it.
pub struct Room {
    pub name: String,
    pub description: String,
    pub paths: Vec<Path>,
    pub users: Vec<String>,
}

impl Room {
    /// No two outgoing paths of a room share a name.
    pub open spec fn paths_unique(self) -> bool {
        forall|i: int, j: int|
            0 <= i < j < self.paths@.len() ==> (#[trigger] self.paths@[i]).path_name@ != (
            #[trigger] self.paths@[j]).path_name@
    }

    /// The occupant list is a set: no identifier occurs twice.
    pub open spec fn users_unique(self) -> bool {
        forall|i: int, j: int|
            0 <= i < j < self.users@.len() ==> (#[trigger] self.users@[i])@ != (
            #[trigger] self.users@[j])@
    }

    /// The room's own invariant: nonempty name and description, well-formed
    /// paths under distinct names, and set-like occupants.
    pub open spec fn wf(self) -> bool {
        &&& self.name@.len() > 0
        &&& self.description@.len() > 0
        &&& self.paths_unique()
        &&& forall|i: int| 0 <= i < self.paths@.len() ==> (#[trigger] self.paths@[i]).wf()
        &&& self.users_unique()
    }

    /// Whether the room owns a path with the given name.
    pub open spec fn has_path(self, name: Seq<char>) -> bool {
        exists|i: int|
            0 <= i < self.paths@.len() && (#[trigger] self.paths@[i]).path_name@ == name
    }

    /// The position of the path with the given name; meaningful when
    /// `has_path` holds and the names are distinct.
    pub open spec fn path_idx(self, name: Seq<char>) -> int {
        choose|i: int|
            0 <= i < self.paths@.len() && (#[trigger] self.paths@[i]).path_name@ == name
    }

    /// The path with the given name.
    pub open spec fn spec_path(self, name: Seq<char>) -> Path {
        self.paths@[self.path_idx(name)]
    }

    /// Whether an actor with the given identifier stands in the room.
    pub open spec fn has_user(self, name: Seq<char>) -> bool {
        exists|i: int| 0 <= i < self.users@.len() && (#[trigger] self.users@[i])@ == name
    }

    /// The position of the given occupant; meaningful when `has_user` holds
    /// and the occupants are distinct.
    pub open spec fn user_idx(self, name: Seq<char>) -> int {
        choose|i: int| 0 <= i < self.users@.len() && (#[trigger] self.users@[i])@ == name
    }

    /// Under distinct path names, the path found at a position is the one
    /// `path_idx` designates.
    pub proof fn lemma_path_idx(self, i: int)
        requires
            self.paths_unique(),
            0 <= i < self.paths@.len(),
        ensures
            self.has_path(self.paths@[i].path_name@),
            self.path_idx(self.paths@[i].path_name@) == i,
    {
        let name = self.paths@[i].path_name@;
        assert(self.has_path(name));
        let j = self.path_idx(name);
        if i < j {
            assert(self.paths@[i].path_name@ != self.paths@[j].path_name@);
        } else if j < i {
            assert(self.paths@[j].path_name@ != self.paths@[i].path_name@);
        }
    }

    /// Under distinct occupants, the occupant found at a position is the one
    /// `user_idx` designates.
    pub proof fn lemma_user_idx(self, i: int)
        requires
            self.users_unique(),
            0 <= i < self.users@.len(),
        ensures
            self.has_user(self.users@[i]@),
            self.user_idx(self.users@[i]@) == i,
    {
        let name = self.users@[i]@;
        assert(self.has_user(name));
        let j = self.user_idx(name);
        if i < j {
            assert(self.users@[i]@ != self.users@[j]@);
        } else if j < i {
            assert(self.users@[j]@ != self.users@[i]@);
        }
    }

    pub fn new(name: String, description: String) -> (room: Room)
        requires
            name@.len() > 0,
            description@.len() > 0,
        ensures
            room.name == name,
            room.description == description,
            room.paths@ == Seq::<Path>::empty(),
            room.users@ == Seq::<String>::empty(),
            room.wf(),
    {
        let room = Room { name, description, paths: Vec::new(), users: Vec::new() };
        assert(room.paths@ =~= Seq::<Path>::empty());
        assert(room.users@ =~= Seq::<String>::empty());
        room
    }

    /// The position of the path with the given name, if the room owns one.
    pub fn find_path_idx(&self, path_name: &String) -> (r: Option<usize>)
        ensures
            match r {
                Some(i) => 0 <= i < self.paths@.len() && self.paths@[i as int].path_name@
                    == path_name@,
                None => !self.has_path(path_name@),
            },
    {
        let mut i: usize = 0;
        while i < self.paths.len()
            invariant
                i <= self.paths.len(),
                forall|k: int| 0 <= k < i ==> (#[trigger] self.paths@[k]).path_name@ != path_name@,
            decreases self.paths.len() - i,
        {
            if self.paths[i].path_name == *path_name {
                return Some(i);
            }
            i += 1;
        }
        None
    }

    /// The position of the given occupant, if present.
    pub fn find_user_idx(&self, user_name: &String) -> (r: Option<usize>)
        ensures
            match r {
                Some(i) => 0 <= i < self.users@.len() && self.users@[i as int]@ == user_name@,
                None => !self.has_user(user_name@),
            },
    {
        let mut i: usize = 0;
        while i < self.users.len()
            invariant
                i <= self.users.len(),
                forall|k: int| 0 <= k < i ==> (#[trigger] self.users@[k])@ != user_name@,
            decreases self.users.len() - i,
        {
            if self.users[i] == *user_name {
                return Some(i);
            }
            i += 1;
        }
        None
    }

    /// Whether the room already owns a path with the given name.
    pub fn check_duplicate_path(&self, path_name: &String) -> (dup: bool)
        ensures
            dup == self.has_path(path_name@),
    {
        let found = self.find_path_idx(path_name);
        match found {
            Some(i) => {
                proof {
                    assert(self.has_path(path_name@));
                }
                true
            },
            None => false,
        }
    }

    /// Adds an unguarded path toward the given room.
    pub fn add_path(&mut self, target_room_name: &String, path_name: &String)
        requires
            path_name@.len() > 0,
            !old(self).has_path(path_name@),
        ensures
            final(self).name == old(self).name,
            final(self).description == old(self).description,
            final(self).users == old(self).users,
            final(self).paths@ == old(self).paths@.push(
                (Path {
                    target_room_name: *target_room_name,
                    path_name: *path_name,
                    exit_cond: None,
                }),
            ),
    {
        let path = Path::new(target_room_name.clone(), path_name.clone(), PathType::Normal);
        self.paths.push(path);
    }

    /// Adds a path of the given kind toward the given room.
    pub fn add_path_special(
        &mut self,
        target_room_name: &String,
        path_name: &String,
        path_type: PathType,
    )
        requires
            path_name@.len() > 0,
            !old(self).has_path(path_name@),
        ensures
            final(self).name == old(self).name,
            final(self).description == old(self).description,
            final(self).users == old(self).users,
            final(self).paths@.len() == old(self).paths@.len() + 1,
            final(self).paths@ == old(self).paths@.push(final(self).paths@.last()),
            final(self).paths@.last().target_room_name == *target_room_name,
            final(self).paths@.last().path_name == *path_name,
            final(self).paths@.last().exit_cond == path_type.spec_cond(),
    {
        let path = Path::new(target_room_name.clone(), path_name.clone(), path_type);
        self.paths.push(path);
    }

    /// Puts the given actor into the occupant set; present occupants stay as
    /// they are.
    pub fn insert_user(&mut self, user_name: &String)
        ensures
            final(self).name == old(self).name,
            final(self).description == old(self).description,
            final(self).paths == old(self).paths,
            old(self).has_user(user_name@) ==> *final(self) == *old(self),
            !old(self).has_user(user_name@) ==> final(self).users@ == old(self).users@.push(
                *user_name,
            ),
    {
        let found = self.find_user_idx(user_name);
        match found {
            Some(i) => {
                proof {
                    assert(self.has_user(user_name@));
                }
            },
            None => {
                self.users.push(user_name.clone());
            },
        }
    }

    /// Takes the given actor out of the occupant set, if present.
    pub fn remove_user(&mut self, user_name: &String)
        requires
            old(self).users_unique(),
        ensures
            final(self).name == old(self).name,
            final(self).description == old(self).description,
            final(self).paths == old(self).paths,
            !old(self).has_user(user_name@) ==> *final(self) == *old(self),
            old(self).has_user(user_name@) ==> final(self).users@ == old(self).users@.remove(
                old(self).user_idx(user_name@),
            ),
    {
        let found = self.find_user_idx(user_name);
        match found {
            Some(i) => {
                proof {
                    self.lemma_user_idx(i as int);
                }
                self.users.remove(i);
            },
            None => {},
        }
    }
}

/// What taking one occupant out of a room does to its occupant set: the
/// removed actor is gone, every other actor stays, and the set stays a set.
pub proof fn lemma_remove_user_effect(pre: Room, post: Room, name: Seq<char>)
    requires
        pre.users_unique(),
        pre.has_user(name),
        post.users@ == pre.users@.remove(pre.user_idx(name)),
    ensures
        post.users_unique(),
        !post.has_user(name),
        forall|n: Seq<char>| n != name ==> post.has_user(n) == pre.has_user(n),
{
    let k = pre.user_idx(name);
    assert(pre.users@[k]@ == name);
    pre.users@.remove_ensures(k);
    assert forall|a: int, b: int| 0 <= a < b < post.users@.len() implies (
    #[trigger] post.users@[a])@ != (#[trigger] post.users@[b])@ by {
        let a2: int = if a < k {
            a
        } else {
            a + 1
        };
        let b2: int = if b < k {
            b
        } else {
            b + 1
        };
        assert(post.users@[a] == pre.users@[a2]);
        assert(post.users@[b] == pre.users@[b2]);
        assert(pre.users@[a2]@ != pre.users@[b2]@);
    }
    assert forall|a: int| 0 <= a < post.users@.len() implies (#[trigger] post.users@[a])@
        != name by {
        let a2: int = if a < k {
            a
        } else {
            a + 1
        };
        assert(post.users@[a] == pre.users@[a2]);
        if a2 < k {
            assert(pre.users@[a2]@ != pre.users@[k]@);
        } else {
            assert(pre.users@[k]@ != pre.users@[a2]@);
        }
    }
    assert forall|n: Seq<char>| n != name implies post.has_user(n) == pre.has_user(n) by {
        if post.has_user(n) {
            let a = post.user_idx(n);
            assert(post.users@[a]@ == n);
            let a2: int = if a < k {
                a
            } else {
                a + 1
            };
            assert(pre.users@[a2]@ == n);
            assert(pre.has_user(n));
        }
        if pre.has_user(n) {
            let a = pre.user_idx(n);
            assert(pre.users@[a]@ == n);
            if a < k {
                assert(post.users@[a]@ == n);
            } else {
                assert(a != k);
                assert(post.users@[a - 1]@ == n);
            }
            assert(post.has_user(n));
        }
    }
}

/// What appending one path does to the set of path names a room owns.
pub proof fn lemma_push_path_effect(pre: Room, post: Room, p: Path)
    requires
        post.paths@ == pre.paths@.push(p),
    ensures
        forall|n: Seq<char>| #[trigger] post.has_path(n) == (pre.has_path(n) || p.path_name@ == n),
{
    let m = pre.paths@.len() as int;
    assert forall|n: Seq<char>| #[trigger] post.has_path(n) == (pre.has_path(n) || p.path_name@
        == n) by {
        if post.has_path(n) {
            let a = post.path_idx(n);
            assert(post.paths@[a].path_name@ == n);
            if a < m {
                assert(pre.paths@[a].path_name@ == n);
                assert(pre.has_path(n));
            } else {
                assert(post.paths@[a] == p);
            }
        }
        if pre.has_path(n) {
            let a = pre.path_idx(n);
            assert(pre.paths@[a].path_name@ == n);
            assert(post.paths@[a].path_name@ == n);
            assert(post.has_path(n));
        }
        if p.path_name@ == n {
            assert(post.paths@[m].path_name@ == n);
            assert(post.has_path(n));
        }
    }
}

/// What entering a fresh occupant does to a room's occupant set: the new
/// actor is in, every other actor stays, and the set stays a set.
pub proof fn lemma_insert_user_effect(pre: Room, post: Room, user_name: String)
    requires
        pre.users_unique(),
        !pre.has_user(user_name@),
        post.users@ == pre.users@.push(user_name),
    ensures
        post.users_unique(),
        post.has_user(user_name@),
        forall|n: Seq<char>| n != user_name@ ==> post.has_user(n) == pre.has_user(n),
{
    let m = pre.users@.len() as int;
    assert(post.users@[m] == user_name);
    assert(post.has_user(user_name@));
    assert forall|a: int, b: int| 0 <= a < b < post.users@.len() implies (
    #[trigger] post.users@[a])@ != (#[trigger] post.users@[b])@ by {
        if b < m {
            assert(pre.users@[a]@ != pre.users@[b]@);
        } else {
            assert(post.users@[a] == pre.users@[a]);
            assert(pre.users@[a]@ != user_name@);
        }
    }
    assert forall|n: Seq<char>| n != user_name@ implies post.has_user(n) == pre.has_user(n) by {
        if post.has_user(n) {
            let a = post.user_idx(n);
            assert(post.users@[a]@ == n);
            assert(a != m);
            assert(pre.users@[a]@ == n);
            assert(pre.has_user(n));
        }
        if pre.has_user(n) {
            let a = pre.user_idx(n);
            assert(pre.users@[a]@ == n);
            assert(post.users@[a]@ == n);
            assert(post.has_user(n));
        }
    }
}

/// A one-way transition: the room it leads to, the name an actor types to
/// take it, and an optional exit condition guarding it.
pub struct Path {
    pub target_room_name: String,
    pub path_name: String,
    pub exit_cond: ActionFunc,
}

/// The kinds of path the construction API offers.
pub enum PathType {
    Normal,
    Painful,
    Custom(ActionFunc),
}

impl PathType {
    /// The exit condition each path kind carries.
    pub open spec fn spec_cond(self) -> ActionFunc {
        match self {
            PathType::Normal => None,
            PathType::Painful => Some(ExitCondition::Painful),
            PathType::Custom(cond) => cond,
        }
    }
}

impl Path {
    /// A path's name is never empty.
    pub open spec fn wf(self) -> bool {
        self.path_name@.len() > 0
    }

    pub fn new(target_room_name: String, path_name: String, path_type: PathType) -> (p: Path)
        requires
            path_name@.len() > 0,
        ensures
            p.target_room_name == target_room_name,
            p.path_name == path_name,
            p.exit_cond == path_type.spec_cond(),
            p.wf(),
    {
        match path_type {
            PathType::Normal => Path { target_room_name, path_name, exit_cond: None },
            PathType::Painful => Path::new_painful(target_room_name, path_name),
            PathType::Custom(exit_cond) => Path { target_room_name, path_name, exit_cond },
        }
    }

    /// A path whose passage hurts: it carries the painful exit condition.
    pub fn new_painful(target_room_name: String, path_name: String) -> (p: Path)
        requires
            path_name@.len() > 0,
        ensures
            p.target_room_name == target_room_name,
            p.path_name == path_name,
            p.exit_cond == Some(ExitCondition::Painful),
            p.wf(),
    {
        let exit_cond = crate::lambda::mk_action_callback(ExitCondition::Painful);
        Path { target_room_name, path_name, exit_cond }
    }

    /// The canonical form of a movement word: short compass aliases expand to
    /// their full direction; every other word passes through unchanged.
    pub open spec fn spec_match_alias(s: Seq<char>) -> Seq<char> {
        if s == "n"@ {
            "north"@
        } else if s == "s"@ {
            "south"@
        } else if s == "w"@ {
            "west"@
        } else if s == "e"@ {
            "east"@
        } else if s == "ne"@ {
            "northeast"@
        } else if s == "se"@ {
            "southeast"@
        } else if s == "nw"@ {
            "northwest"@
        } else if s == "sw"@ {
            "southwest"@
        } else {
            s
        }
    }

    pub fn match_basic_aliases(s: String) -> (r: String)
        ensures
            r@ == Path::spec_match_alias(s@),
    {
        if eq_str(&s, "n") {
            "north".to_owned()
        } else if eq_str(&s, "s") {
            "south".to_owned()
        } else if eq_str(&s, "w") {
            "west".to_owned()
        } else if eq_str(&s, "e") {
            "east".to_owned()
        } else if eq_str(&s, "ne") {
            "northeast".to_owned()
        } else if eq_str(&s, "se") {
            "southeast".to_owned()
        } else if eq_str(&s, "nw") {
            "northwest".to_owned()
        } else if eq_str(&s, "sw") {
            "southwest".to_owned()
        } else {
            s
        }
    }
}

/// Normalization is idempotent: what `spec_match_alias` returns, it returns
/// unchanged when normalized again. In particular an already-canonical
/// direction word stays as it is.
pub proof fn lemma_match_alias_idempotent(s: Seq<char>)
    ensures
        Path::spec_match_alias(Path::spec_match_alias(s)) == Path::spec_match_alias(s),
{
    reveal_strlit("n");
    reveal_strlit("s");
    reveal_strlit("w");
    reveal_strlit("e");
    reveal_strlit("ne");
    reveal_strlit("se");
    reveal_strlit("nw");
    reveal_strlit("sw");
    reveal_strlit("north");
    reveal_strlit("south");
    reveal_strlit("west");
    reveal_strlit("east");
    reveal_strlit("northeast");
    reveal_strlit("southeast");
    reveal_strlit("northwest");
    reveal_strlit("southwest");
}

/// The symbolic directions an edge can be built from: the eight compass
/// directions reverse to their opposites, a one-way custom path has no
/// reverse, and a two-way custom path reverses to its swapped form.
#[derive(Debug)]
pub enum Direction {
    North,
    East,
    South,
    West,
    NorthEast,
    SouthEast,
    SouthWest,
    NorthWest,
    CustomOneWay(String),
    Custom(String, String),
}

impl Clone for Direction {
    fn clone(&self) -> (res: Direction)
        ensures
            res == *self,
    {
        match self {
            Direction::North => Direction::North,
            Direction::East => Direction::East,
            Direction::South => Direction::South,
            Direction::West => Direction::West,
            Direction::NorthEast => Direction::NorthEast,
            Direction::SouthEast => Direction::SouthEast,
            Direction::SouthWest => Direction::SouthWest,
            Direction::NorthWest => Direction::NorthWest,
            Direction::CustomOneWay(start) => Direction::CustomOneWay(start.clone()),
            Direction::Custom(start, end) => Direction::Custom(start.clone(), end.clone()),
        }
    }
}

impl Direction {
    /// The canonical path name a direction resolves to.
    pub open spec fn spec_path_name(dir: Direction) -> Seq<char> {
        match dir {
            Direction::North => "north"@,
            Direction::South => "south"@,
            Direction::East => "east"@,
            Direction::West => "west"@,
            Direction::NorthEast => "northeast"@,
            Direction::SouthEast => "southeast"@,
            Direction::SouthWest => "southwest"@,
            Direction::NorthWest => "northwest"@,
            Direction::CustomOneWay(start) => start@,
            Direction::Custom(start, end) => start@,
        }
    }

    /// The direction of the automatic return path, if the direction is
    /// two-way.
    pub open spec fn spec_reverse(dir: Direction) -> Option<Direction> {
        match dir {
            Direction::North => Some(Direction::South),
            Direction::South => Some(Direction::North),
            Direction::East => Some(Direction::West),
            Direction::West => Some(Direction::East),
            Direction::NorthEast => Some(Direction::SouthWest),
            Direction::SouthEast => Some(Direction::NorthWest),
            Direction::SouthWest => Some(Direction::NorthEast),
            Direction::NorthWest => Some(Direction::SouthEast),
            Direction::CustomOneWay(start) => None,
            Direction::Custom(start, end) => Some(Direction::Custom(end, start)),
        }
    }

    pub fn get_path_name(dir: Direction) -> (name: String)
        ensures
            name@ == Direction::spec_path_name(dir),
    {
        match dir {
            Direction::North => "north".to_owned(),
            Direction::South => "south".to_owned(),
            Direction::East => "east".to_owned(),
            Direction::West => "west".to_owned(),
            Direction::NorthEast => "northeast".to_owned(),
            Direction::SouthEast => "southeast".to_owned(),
            Direction::SouthWest => "southwest".to_owned(),
            Direction::NorthWest => "northwest".to_owned(),
            Direction::CustomOneWay(start) => start,
            Direction::Custom(start, _end) => start,
        }
    }

    pub fn get_reverse(dir: Direction) -> (r: Option<Direction>)
        ensures
            r == Direction::spec_reverse(dir),
    {
        match dir {
            Direction::North => Some(Direction::South),
            Direction::South => Some(Direction::North),
            Direction::East => Some(Direction::West),
            Direction::West => Some(Direction::East),
            Direction::NorthEast => Some(Direction::SouthWest),
            Direction::SouthEast => Some(Direction::NorthWest),
            Direction::SouthWest => Some(Direction::NorthEast),
            Direction::NorthWest => Some(Direction::SouthEast),
            Direction::CustomOneWay(_start) => None,
            Direction::Custom(start, end) => Some(Direction::Custom(end, start)),
        }
    }
}

} // verus!
