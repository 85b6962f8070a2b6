use faerie::lambda::ExitCondition;
use faerie::room::{Direction, Path, PathType};
use faerie::user::UserType;
use faerie::{GameState, WorldError};

fn expect_ok(r: Result<(), WorldError>) {
    if let Err(e) = r {
        panic!("{}", e.message());
    }
}

fn two_rooms_with_user() -> (GameState, String, String, String) {
    let mut gs = GameState::new();
    let r1 = "hall".to_string();
    let r2 = "garden".to_string();
    expect_ok(gs.create_room(&r1, "A dusty hall.".to_string()));
    expect_ok(gs.create_room(&r2, "A quiet garden.".to_string()));
    let u1 = "ada".to_string();
    expect_ok(gs.create_user_in_room(&u1, &r1, UserType::Civilian));
    (gs, u1, r1, r2)
}

#[test]
fn alias_normalization_expands_short_forms() {
    let cases = vec![
        ("n", "north"),
        ("s", "south"),
        ("w", "west"),
        ("e", "east"),
        ("ne", "northeast"),
        ("se", "southeast"),
        ("nw", "northwest"),
        ("sw", "southwest"),
    ];
    for (short, full) in cases {
        assert_eq!(Path::match_basic_aliases(short.to_string()), full.to_string());
    }
}

#[test]
fn alias_normalization_keeps_canonical_and_unknown_words() {
    let cases = vec![
        "north",
        "south",
        "west",
        "east",
        "northeast",
        "southeast",
        "northwest",
        "southwest",
        "northhampton",
        "ladder",
        "",
    ];
    for word in cases {
        assert_eq!(Path::match_basic_aliases(word.to_string()), word.to_string());
    }
}

#[test]
fn two_way_direction_builds_both_edges() {
    let mut gs = GameState::new();
    let r1 = "hall".to_string();
    let r2 = "garden".to_string();
    expect_ok(gs.create_room(&r1, "A dusty hall.".to_string()));
    expect_ok(gs.create_room(&r2, "A quiet garden.".to_string()));
    expect_ok(gs.add_path(&r1, &r2, Direction::East));
    let room1 = gs.rooms.get_room(&r1);
    let room2 = gs.rooms.get_room(&r2);
    assert_eq!(room1.paths.len(), 1);
    assert_eq!(room1.paths[0].path_name, "east".to_string());
    assert_eq!(room1.paths[0].target_room_name, r2);
    assert_eq!(room2.paths.len(), 1);
    assert_eq!(room2.paths[0].path_name, "west".to_string());
    assert_eq!(room2.paths[0].target_room_name, r1);
}

#[test]
fn one_way_direction_builds_only_the_forward_edge() {
    let mut gs = GameState::new();
    let r1 = "cliff".to_string();
    let r2 = "beach".to_string();
    expect_ok(gs.create_room(&r1, "A windy cliff.".to_string()));
    expect_ok(gs.create_room(&r2, "A sandy beach.".to_string()));
    expect_ok(gs.add_path(&r1, &r2, Direction::CustomOneWay("jump".to_string())));
    assert_eq!(gs.rooms.get_room(&r1).paths.len(), 1);
    assert_eq!(gs.rooms.get_room(&r1).paths[0].path_name, "jump".to_string());
    assert!(gs.rooms.get_room(&r2).paths.is_empty());
}

#[test]
fn two_way_custom_direction_reverses_to_swapped_names() {
    let mut gs = GameState::new();
    let r1 = "cellar".to_string();
    let r2 = "kitchen".to_string();
    expect_ok(gs.create_room(&r1, "A dark cellar.".to_string()));
    expect_ok(gs.create_room(&r2, "A warm kitchen.".to_string()));
    expect_ok(gs.add_path(&r1, &r2, Direction::Custom("up".to_string(), "down".to_string())));
    let u1 = "ada".to_string();
    expect_ok(gs.create_user_in_room(&u1, &r1, UserType::Civilian));
    gs.attempt_move(&u1, &"up".to_string()).unwrap();
    assert_eq!(gs.users.get_user(&u1).room_name, r2);
    gs.attempt_move(&u1, &"down".to_string()).unwrap();
    assert_eq!(gs.users.get_user(&u1).room_name, r1);
}

#[test]
fn duplicate_path_is_rejected_and_original_edge_kept() {
    let mut gs = GameState::new();
    let r1 = "hall".to_string();
    let r2 = "garden".to_string();
    let r3 = "attic".to_string();
    expect_ok(gs.create_room(&r1, "A dusty hall.".to_string()));
    expect_ok(gs.create_room(&r2, "A quiet garden.".to_string()));
    expect_ok(gs.create_room(&r3, "A cramped attic.".to_string()));
    expect_ok(gs.add_path(&r1, &r2, Direction::North));
    let res = gs.add_path(&r1, &r3, Direction::North);
    assert!(matches!(res, Err(WorldError::DuplicatePath(_, _))));
    if let Err(e) = res {
        assert_eq!(e.message(), "Path 'north' from hall already exists!".to_string());
    }
    let room1 = gs.rooms.get_room(&r1);
    assert_eq!(room1.paths.len(), 1);
    assert_eq!(room1.paths[0].target_room_name, r2);
}

#[test]
fn painful_path_costs_exactly_one_hit_point() {
    let (mut gs, u1, r1, r2) = two_rooms_with_user();
    gs.rooms
        .get_room_mut(&r1)
        .add_path_special(&r2, &"crawl".to_string(), PathType::Painful);
    let hp_before = gs.users.get_user(&u1).basic_attributes.hp;
    let res = gs.attempt_move(&u1, &"crawl".to_string()).unwrap();
    assert!(res.was_room_move());
    assert_eq!(
        res.messages,
        vec!["You passed through, but it hurt you.".to_string()]
    );
    let user = gs.users.get_user(&u1);
    assert_eq!(user.basic_attributes.hp, hp_before - 1);
    assert_eq!(user.room_name, r2);
    assert!(gs.rooms.get_room(&r2).users.contains(&u1));
    assert!(!gs.rooms.get_room(&r1).users.contains(&u1));
}

#[test]
fn denying_guard_changes_no_location_and_no_occupants() {
    let (mut gs, u1, r1, r2) = two_rooms_with_user();
    let guard = ExitCondition::Blocked("The door is barred.".to_string());
    gs.rooms.get_room_mut(&r1).add_path_special(
        &r2,
        &"gate".to_string(),
        PathType::Custom(Some(guard)),
    );
    let hp_before = gs.users.get_user(&u1).basic_attributes.hp;
    let res = gs.attempt_move(&u1, &"gate".to_string());
    match res {
        Err(f) => assert_eq!(f.messages, vec!["The door is barred.".to_string()]),
        Ok(_) => panic!("a blocked gate let the actor through"),
    }
    let user = gs.users.get_user(&u1);
    assert_eq!(user.basic_attributes.hp, hp_before);
    assert_eq!(user.room_name, r1);
    assert!(gs.rooms.get_room(&r1).users.contains(&u1));
    assert!(!gs.rooms.get_room(&r2).users.contains(&u1));
}

#[test]
fn empty_input_fails_silently() {
    let (mut gs, u1, _r1, _r2) = two_rooms_with_user();
    let res = gs.attempt_move(&u1, &"".to_string());
    match res {
        Err(f) => assert!(f.messages.is_empty()),
        Ok(_) => panic!("an empty command moved the actor"),
    }
}

#[test]
fn unknown_direction_reports_the_exact_complaint() {
    let (mut gs, u1, _r1, _r2) = two_rooms_with_user();
    let res = gs.attempt_move(&u1, &"northhampton".to_string());
    match res {
        Err(f) => assert_eq!(
            f.messages,
            vec!["What? There's no direction northhampton from hall.".to_string()]
        ),
        Ok(_) => panic!("a fake direction moved the actor"),
    }
    assert_eq!(gs.users.get_user(&u1).room_name, "hall".to_string());
}

#[test]
fn duplicate_room_and_user_are_rejected() {
    let (mut gs, u1, r1, _r2) = two_rooms_with_user();
    let res = gs.create_room(&r1, "Another hall.".to_string());
    assert!(matches!(res, Err(WorldError::DuplicateRoom(_))));
    if let Err(e) = res {
        assert_eq!(e.message(), "A room named hall already exists!".to_string());
    }
    let res2 = gs.create_user_in_room(&u1, &r1, UserType::Viking);
    assert!(matches!(res2, Err(WorldError::DuplicateUser(_))));
    if let Err(e) = res2 {
        assert_eq!(e.message(), "A user named ada already exists!".to_string());
    }
}

#[test]
fn role_defaults_follow_the_actor_kind() {
    let mut gs = GameState::new();
    let r1 = "hall".to_string();
    expect_ok(gs.create_room(&r1, "A dusty hall.".to_string()));
    expect_ok(gs.create_user_in_room(&"ada".to_string(), &r1, UserType::Civilian));
    expect_ok(gs.create_user_in_room(&"bjorn".to_string(), &r1, UserType::Viking));
    expect_ok(gs.create_user_in_room(&"eol".to_string(), &r1, UserType::ElfLord));
    expect_ok(gs.create_basic_user_in_room(&"carol".to_string(), &r1));
    let ada = gs.users.get_user(&"ada".to_string());
    assert_eq!((ada.basic_attributes.hp, ada.basic_attributes.mp), (20, 7));
    let bjorn = gs.users.get_user(&"bjorn".to_string());
    assert_eq!((bjorn.basic_attributes.hp, bjorn.basic_attributes.mp), (220, 9));
    let eol = gs.users.get_user(&"eol".to_string());
    assert_eq!((eol.basic_attributes.hp, eol.basic_attributes.mp), (80, 28));
    let carol = gs.users.get_user(&"carol".to_string());
    assert_eq!((carol.basic_attributes.hp, carol.basic_attributes.mp), (20, 7));
}

#[test]
fn list_users_reports_header_and_every_actor() {
    let (mut gs, u1, r1, _r2) = two_rooms_with_user();
    let u2 = "grace".to_string();
    expect_ok(gs.create_user_in_room(&u2, &r1, UserType::ElfLord));
    let res = gs.process_input_impl(&u1, &"list_users".to_string()).unwrap();
    assert!(!res.was_room_move());
    assert_eq!(res.messages.len(), 3);
    assert_eq!(res.messages[0], "Users online:".to_string());
    assert!(res.messages.contains(&format!("* {}", u1)));
    assert!(res.messages.contains(&format!("* {}", u2)));
}

#[test]
fn occupancy_and_location_agree_after_every_step() {
    let mut gs = GameState::new();
    let names = vec!["hall".to_string(), "garden".to_string(), "attic".to_string()];
    expect_ok(gs.create_room(&names[0], "A dusty hall.".to_string()));
    expect_ok(gs.create_room(&names[1], "A quiet garden.".to_string()));
    expect_ok(gs.create_room(&names[2], "A cramped attic.".to_string()));
    expect_ok(gs.add_path(&names[0], &names[1], Direction::North));
    expect_ok(gs.add_path(&names[1], &names[2], Direction::Custom("up".to_string(), "down".to_string())));
    let u1 = "ada".to_string();
    expect_ok(gs.create_user_in_room(&u1, &names[0], UserType::Civilian));
    let moves = vec!["n", "up", "down", "s"];
    for word in moves {
        gs.attempt_move(&u1, &word.to_string()).unwrap();
        let location = gs.users.get_user(&u1).room_name.clone();
        let mut homes = 0;
        for name in &names {
            let room = gs.rooms.get_room(name);
            if room.users.contains(&u1) {
                homes += 1;
                assert_eq!(room.name, location);
            }
        }
        assert_eq!(homes, 1);
    }
}

#[test]
fn path_constructors_carry_their_exit_conditions() {
    let p = Path::new("garden".to_string(), "arch".to_string(), PathType::Normal);
    assert!(p.exit_cond.is_none());
    let q = Path::new_painful("garden".to_string(), "crawl".to_string());
    assert!(matches!(q.exit_cond, Some(ExitCondition::Painful)));
    let c = faerie::lambda::mk_action_callback(ExitCondition::Blocked("shut".to_string()));
    assert!(matches!(c, Some(ExitCondition::Blocked(_))));
}

#[test]
fn reverse_directions_are_opposites() {
    let pairs = vec![
        (Direction::North, "south"),
        (Direction::South, "north"),
        (Direction::East, "west"),
        (Direction::West, "east"),
        (Direction::NorthEast, "southwest"),
        (Direction::SouthEast, "northwest"),
        (Direction::SouthWest, "northeast"),
        (Direction::NorthWest, "southeast"),
    ];
    for (dir, reverse_name) in pairs {
        let rev = Direction::get_reverse(dir).expect("a compass direction reverses");
        assert_eq!(Direction::get_path_name(rev), reverse_name.to_string());
    }
    assert!(Direction::get_reverse(Direction::CustomOneWay("jump".to_string())).is_none());
    let rev = Direction::get_reverse(Direction::Custom("up".to_string(), "down".to_string()))
        .expect("a two-way custom direction reverses");
    assert_eq!(Direction::get_path_name(rev), "down".to_string());
}

#[test]
fn path_back_into_the_same_room_keeps_occupancy_consistent() {
    let mut gs = GameState::new();
    let r1 = "maze".to_string();
    expect_ok(gs.create_room(&r1, "Twisty little passages, all alike.".to_string()));
    expect_ok(gs.add_path(&r1, &r1, Direction::CustomOneWay("spin".to_string())));
    let u1 = "ada".to_string();
    expect_ok(gs.create_user_in_room(&u1, &r1, UserType::Civilian));
    let res = gs.attempt_move(&u1, &"spin".to_string()).unwrap();
    assert!(res.was_room_move());
    assert_eq!(gs.users.get_user(&u1).room_name, r1);
    let room = gs.rooms.get_room(&r1);
    let copies = room.users.iter().filter(|n| **n == u1).count();
    assert_eq!(copies, 1);
}

#[test]
fn two_way_path_back_into_the_same_room_builds_both_edges() {
    let mut gs = GameState::new();
    let r1 = "maze".to_string();
    expect_ok(gs.create_room(&r1, "Twisty little passages, all alike.".to_string()));
    expect_ok(gs.add_path(&r1, &r1, Direction::North));
    let room = gs.rooms.get_room(&r1);
    assert_eq!(room.paths.len(), 2);
    assert_eq!(room.paths[0].path_name, "north".to_string());
    assert_eq!(room.paths[1].path_name, "south".to_string());
    assert_eq!(room.paths[0].target_room_name, r1);
    assert_eq!(room.paths[1].target_room_name, r1);
}

#[test]
fn error_messages_read_as_documented() {
    assert_eq!(
        WorldError::EmptyRoomName.message(),
        "Empty room names are not allowed!".to_string()
    );
    assert_eq!(
        WorldError::EmptyRoomDescription.message(),
        "Empty room descriptions are not allowed!".to_string()
    );
    assert_eq!(
        WorldError::EmptyUserName.message(),
        "Empty user names are not allowed!".to_string()
    );
    assert_eq!(
        WorldError::EmptyPathName.message(),
        "Empty path names are not allowed!".to_string()
    );
    assert_eq!(
        WorldError::NoSuchRoom("swamp".to_string()).message(),
        "No room named swamp exists!".to_string()
    );
    assert_eq!(
        WorldError::RoomNotFoundForMutation("swamp".to_string()).message(),
        "Failed to find room named swamp for mutation!".to_string()
    );
}
