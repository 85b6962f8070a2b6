use faerie::room::Direction;
use faerie::user::UserType;
use faerie::{format_user_list, GameState, WorldError};

fn expect_ok(r: Result<(), WorldError>) {
    if let Err(e) = r {
        panic!("{}", e.message());
    }
}

fn make_simple_2_room_north_map() -> (GameState, String, String, String) {
    let mut game_state = GameState::new();
    let room1name = "room1".to_string();
    let room2name = "room2".to_string();

    expect_ok(game_state.create_room(&room1name, "description".to_string()));
    expect_ok(game_state.create_room_from(
        &room2name,
        "description2".to_string(),
        &room1name,
        Direction::North,
    ));

    let user1name = "user1".to_string();
    expect_ok(game_state.create_user_in_room(&user1name, &room1name, UserType::Civilian));
    (game_state, user1name, room1name, room2name)
}

#[test]
fn move_double_norf() {
    let mut game_state = GameState::new();

    let room1name = "room1".to_string();
    let room2name = "room2".to_string();
    let room3name = "room3".to_string();
    expect_ok(game_state.create_room(&room1name, "yeet".to_string()));
    expect_ok(game_state.create_room(&room2name, "dang".to_string()));
    expect_ok(game_state.create_room(&room3name, "where am i".to_string()));

    expect_ok(game_state.add_path(&room1name, &room2name, Direction::North));
    expect_ok(game_state.add_path(&room2name, &room3name, Direction::North));

    let user1name = "user1".to_string();
    expect_ok(game_state.create_user_in_room(&user1name, &room1name, UserType::Civilian));

    game_state
        .attempt_move(&user1name, &"north".to_string())
        .unwrap();
    game_state
        .attempt_move(&user1name, &"n".to_string())
        .unwrap();

    let user = game_state.users.get_user(&user1name);
    assert_eq!(user.room_name, room3name);

    let room1 = game_state.rooms.get_room(&room1name);
    let room2 = game_state.rooms.get_room(&room2name);
    let room3 = game_state.rooms.get_room(&room3name);
    let is_user_in_room3 = room3.users.contains(&user1name);
    assert_eq!(is_user_in_room3, true);

    let user = game_state.users.get_user(&user1name);
    assert_eq!(user.room_name, room3name);

    let is_user_in_room1 = room1.users.contains(&user1name);
    let is_user_in_room2 = room2.users.contains(&user1name);
    assert_eq!(is_user_in_room1, false);
    assert_eq!(is_user_in_room2, false);
}

#[test]
fn move_up_and_back() {
    let (mut game_state, user1name, room1name, room2name) = make_simple_2_room_north_map();

    game_state
        .attempt_move(&user1name, &"n".to_string())
        .unwrap();
    game_state
        .attempt_move(&user1name, &"s".to_string())
        .unwrap();

    let user = game_state.users.get_user(&user1name);
    assert_eq!(user.room_name, room1name);

    let room1 = game_state.rooms.get_room(&room1name);
    let room2 = game_state.rooms.get_room(&room2name);
    let is_user_in_room1 = room1.users.contains(&user1name);
    assert_eq!(is_user_in_room1, true);

    let is_user_in_room2 = room2.users.contains(&user1name);
    assert_eq!(is_user_in_room2, false);
}

#[test]
fn move_invalid_direction() {
    let (mut game_state, user1name, room1name, _) = make_simple_2_room_north_map();

    let user = game_state.users.get_user(&user1name);
    assert_eq!(user.room_name, room1name);

    let room1 = game_state.rooms.get_room(&room1name);
    let is_user_in_room1 = room1.users.contains(&user1name);
    assert_eq!(is_user_in_room1, true);

    let res = game_state.attempt_move(&user1name, &"NORF".to_string());
    assert_eq!(
        res.is_ok(),
        false,
        "Move somehow succeeded in moving a fake direction."
    );
}

#[test]
#[should_panic(expected = "Empty room names are not allowed!")]
fn attempt_empty_room_name_creation() {
    let mut game_state = GameState::new();

    expect_ok(game_state.create_room(&"".to_string(), "The Land Of Dook".to_string()));
}

#[test]
#[should_panic(expected = "Empty room descriptions are not allowed!")]
fn attempt_empty_room_description_creation() {
    let mut game_state = GameState::new();

    expect_ok(game_state.create_room(&"Mang0".to_string(), "".to_string()));
}

#[test]
#[should_panic(expected = "Empty user names are not allowed!")]
fn attempt_empty_user_name_creation() {
    let mut game_state = GameState::new();

    expect_ok(game_state.create_room(
        &"Dooklandia".to_string(),
        "Big ol' dook in front of you".to_string(),
    ));

    expect_ok(game_state.create_user_in_room(
        &"".to_string(),
        &"Dooklandia".to_string(),
        UserType::Civilian,
    ));
}

#[test]
#[should_panic(expected = "Failed to find room named FAKEFRIENDS for mutation!")]
fn attempt_incorrect_room_user_creation() {
    let mut game_state = GameState::new();

    let room1name = "Dooklandia".to_string();

    expect_ok(game_state.create_room(&room1name, "Big ol' dook in front of you".to_string()));

    expect_ok(game_state.create_user_in_room(
        &"Freddie".to_string(),
        &"FAKEFRIENDS".to_string(),
        UserType::Civilian,
    ));
}

#[test]
#[should_panic(expected = "Empty path names are not allowed!")]
fn attempt_empty_oneway_path_name_creation() {
    let mut game_state = GameState::new();

    let room1name = "room1".to_string();
    let room2name = "room2".to_string();

    expect_ok(game_state.create_room(&room1name, "The Land Of Dook".to_string()));
    expect_ok(game_state.create_room(&room2name, "The Land Of Dook, 2".to_string()));

    expect_ok(game_state.add_path(
        &room1name,
        &room2name,
        Direction::CustomOneWay("".to_string()),
    ));
}

#[test]
#[should_panic(expected = "Empty path names are not allowed!")]
fn attempt_empty_twoway_path_name_creation() {
    let mut game_state = GameState::new();

    let room1name = "room1".to_string();
    let room2name = "room2".to_string();

    expect_ok(game_state.create_room(&room1name, "The Land Of Dook".to_string()));
    expect_ok(game_state.create_room(&room2name, "The Land Of Dook, 2".to_string()));

    expect_ok(game_state.add_path(
        &room1name,
        &room2name,
        Direction::Custom("mkay".to_string(), "".to_string()),
    ));
}

#[test]
#[should_panic(expected = "No room named FAKENEWS exists!")]
fn attempt_path_to_invalid_room() {
    let mut game_state = GameState::new();

    let room1name = "room1".to_string();
    let room2name = "room2".to_string();

    expect_ok(game_state.create_room(&room1name, "The Land Of Dook".to_string()));
    expect_ok(game_state.create_room(&room2name, "The Land Of Dook, 2".to_string()));

    expect_ok(game_state.add_path(
        &room1name,
        &"FAKENEWS".to_string(),
        Direction::Custom("mkay".to_string(), "jkll".to_string()),
    ));
}

#[test]
#[should_panic(expected = "Failed to find room named FAKENEWS for mutation!")]
fn attempt_path_from_invalid_room() {
    let mut game_state = GameState::new();

    let room1name = "room1".to_string();
    let room2name = "room2".to_string();

    expect_ok(game_state.create_room(&room1name, "The Land Of Dook".to_string()));
    expect_ok(game_state.create_room(&room2name, "The Land Of Dook, 2".to_string()));

    expect_ok(game_state.add_path(
        &"FAKENEWS".to_string(),
        &room2name,
        Direction::Custom("mkay".to_string(), "jkll".to_string()),
    ));
}

#[test]
fn create_room_from_other_room() {
    let mut game_state = GameState::new();

    let room1name = "room1".to_string();
    let room2name = "room2".to_string();

    expect_ok(game_state.create_room(&room1name, "description".to_string()));
    expect_ok(game_state.create_room_from(
        &room2name,
        "description2".to_string(),
        &room1name,
        Direction::North,
    ));

    let user1name = "user1".to_string();
    expect_ok(game_state.create_user_in_room(&user1name, &room1name, UserType::Civilian));

    game_state
        .attempt_move(&user1name, &"north".to_string())
        .unwrap();
    game_state
        .attempt_move(&user1name, &"south".to_string())
        .unwrap();

    let user = game_state.users.get_user(&user1name);
    assert_eq!(user.room_name, room1name);

    let room1 = game_state.rooms.get_room(&room1name);
    let room2 = game_state.rooms.get_room(&room2name);
    let is_user_in_room1 = room1.users.contains(&user1name);
    let is_user_in_room2 = room2.users.contains(&user1name);
    assert_eq!(is_user_in_room1, true);
    assert_eq!(is_user_in_room2, false);
}

#[test]
#[should_panic(expected = "Path 'north' from room1 already exists!")]
fn test_duplicate_path_creation_panics() {
    let (mut game_state, _, room1name, room2name) = make_simple_2_room_north_map();

    expect_ok(game_state.add_path(&room1name, &room2name, Direction::North));
}

#[test]
fn test_was_movement_input_marked() {
    let (mut game_state, user1name, _, _) = make_simple_2_room_north_map();

    let res = game_state.process_input_impl(&user1name, &"north".to_string());
    if let Ok(succ) = res {
        assert_eq!(succ.was_room_move(), true);
    } else {
        assert!(false, "Room move failed!");
    }
}

#[test]
fn test_was_non_movement_input_not_marked() {
    let (mut game_state, user1name, _, _) = make_simple_2_room_north_map();

    let res = game_state.process_input_impl(&user1name, &"list_users".to_string());
    if let Ok(succ) = res {
        assert_eq!(succ.was_room_move(), false);
    } else {
        assert!(false, "Basic global action failed!");
    }
}

#[test]
fn test_attempt_valid_global_action() {
    let (mut game_state, user1name, _, _) = make_simple_2_room_north_map();

    let valid_action_attempt = game_state.attempt_global_action(
        &user1name,
        &faerie::GlobalActions::from_enum(faerie::GlobalActions::ListOnlineUsers),
    );

    match valid_action_attempt {
        Some(x) => {
            if let Ok(faerie::lambda::ActionSuccess { messages, .. }) = x {
                assert_eq!(messages, format_user_list(vec![&user1name]));
            } else {
                assert!(false, "Listing users attempt failed!");
            }
        }
        None => {
            assert!(false, "Got no result from global action attempt!");
        }
    }
}

#[test]
fn test_attempt_invalid_global_action() {
    let (mut game_state, user1name, _, _) = make_simple_2_room_north_map();

    let invalid_action_attempt =
        game_state.attempt_global_action(&user1name, &"DOODOOBUTT".to_string());

    if let Some(_) = invalid_action_attempt {
        assert!(false, "Got a result for an invalid action!");
    }
}
