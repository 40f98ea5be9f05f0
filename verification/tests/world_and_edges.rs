//! Turns against the seeded world, the engine's edge cases, and the text
//! groundwork.

use adventure_engine::{determine_intent, is_direction, is_legal_command, lowercase, split_words,
    start_game, str_eq, text_to_direction, update, Direction, GameState, Intent, Item,
    ItemState, Room};

fn held(name: &str, description: &str) -> Item {
    Item {
        name: name.to_string(),
        description: description.to_string(),
        location: ItemState::Inventory,
    }
}

fn one_room_state(inventory: Vec<Item>) -> GameState {
    GameState {
        current_room_idx: 0,
        inventory,
        sys_message: "".to_string(),
        rooms: vec![Room {
            description: "A bare room".to_string(),
            exits: vec![],
            interactables: vec![],
            items: vec![],
        }],
    }
}

#[test]
fn start_game_use_pendant_unlocks_lab() {
    let state = start_game();
    assert_eq!(state.current_room_idx, 0);
    assert!(state.rooms[0].exits[0].locked);
    assert_eq!(state.rooms[0].exits[0].interactable_id, "lab_entrance");
    assert_eq!(state.rooms[0].interactables[0].prerequisite_item, "pendant");

    let after = update(state, "use pendant".to_string());

    assert!(!after.rooms[0].exits[0].locked);
    assert_eq!(
        after.sys_message,
        after.rooms[0].interactables[0].interaction_description
    );
    let pendant = after.inventory.iter().find(|i| i.name == "pendant").unwrap();
    assert_eq!(pendant.get_location(), &ItemState::Room);
}

#[test]
fn start_game_walkthrough_to_dungeon_exit() {
    let state = start_game();
    let entry = state.rooms[state.current_room_idx].get_description().to_string();
    assert!(entry.contains("A wind blows over the dunes of sand"));

    let s1 = update(state, "use pendant".to_string());
    let s2 = update(s1, "go south".to_string());
    assert_eq!(s2.current_room_idx, 2);
    assert_eq!(
        s2.sys_message,
        "You find yourself in a room. There is a door to the north"
    );
}

#[test]
fn grab_helmet_exact_messages() {
    let state = start_game();
    let grabbed = update(state, "grab helmet".to_string());
    assert_eq!(grabbed.sys_message, "You have picked up a helmet");
    let helmet = grabbed.inventory.iter().find(|i| i.name == "helmet").unwrap();
    assert_eq!(helmet.get_location(), &ItemState::Inventory);

    let again = update(grabbed.clone(), "grab helmet".to_string());
    assert_eq!(again.sys_message, "You already have the helmet");
    let helmet_again = again.inventory.iter().find(|i| i.name == "helmet").unwrap();
    assert_eq!(helmet_again.get_location(), &ItemState::Inventory);
    assert_eq!(again.current_room_idx, grabbed.current_room_idx);
}

#[test]
fn empty_inventory_message_is_exact() {
    let mut state = one_room_state(Vec::new());
    state.inventory.push(Item {
        name: "rock".to_string(),
        description: "a plain rock".to_string(),
        location: ItemState::Room,
    });
    let listed = update(state, "list inventory".to_string());
    assert_eq!(listed.sys_message, "You have no items in your inventory");
}

#[test]
fn list_inventory_exact_format_and_order() {
    let state = one_room_state(vec![
        held("helmet", "a blue helmet"),
        Item {
            name: "buster".to_string(),
            description: "a large cannon".to_string(),
            location: ItemState::Room,
        },
        held("pendant", "a rusty pendant"),
    ]);
    let listed = update(state, "list inventory".to_string());
    assert_eq!(
        listed.sys_message,
        "Your inventory:\nhelmet: a blue helmet\npendant: a rusty pendant\n"
    );
}

#[test]
fn unmatched_noun_keeps_state_unchanged() {
    let state = start_game();
    let after = update(state.clone(), "examine facewall".to_string());
    assert_eq!(
        after.sys_message,
        "I was unable to understand your command.  Please re-enter and try again."
    );
    assert_eq!(after.current_room_idx, state.current_room_idx);
    assert!(after.rooms[0].exits[0].locked);
    assert!(!after.rooms[0].interactables[0].interacted);
}

#[test]
fn illegal_verb_message_names_the_verb() {
    let state = start_game();
    let after = update(state, "dance door".to_string());
    assert_eq!(after.sys_message, "dance is not a legal command\n");
}

#[test]
fn verbs_are_case_sensitive_but_nouns_are_not() {
    let state = start_game();
    let shouted = update(state.clone(), "GO south".to_string());
    assert_eq!(shouted.sys_message, "GO is not a legal command\n");

    let mixed = update(state, "grab HELMET".to_string());
    assert_eq!(mixed.sys_message, "You have picked up a helmet");
}

#[test]
fn movement_without_direction_has_trailing_space() {
    let state = start_game();
    let after = update(state, "go".to_string());
    assert_eq!(after.sys_message, "There is no path to the ");
}

#[test]
fn movement_with_no_exit_in_direction() {
    let state = start_game();
    let after = update(state, "go north".to_string());
    assert_eq!(after.sys_message, "There is no exit leaving north");
}

#[test]
fn interact_refused_when_use_gated() {
    let state = start_game();
    let after = update(state, "push door".to_string());
    assert_eq!(after.sys_message, "You currently can not interact with door");
    assert!(!after.rooms[0].interactables[0].interacted);
}

#[test]
fn use_without_holding_the_item() {
    let mut state = start_game();
    state.inventory[2].location = ItemState::Room;
    let after = update(state, "use pendant".to_string());
    assert_eq!(
        after.sys_message,
        "You have no item of that name in your inventory"
    );
    assert!(after.rooms[0].exits[0].locked);
}

#[test]
fn use_with_no_matching_interactable_here() {
    let state = one_room_state(vec![held("buster", "a large cannon")]);
    let after = update(state, "use buster".to_string());
    assert_eq!(after.sys_message, "You can not use `buster` here");
}

#[test]
fn use_twice_reports_already_used() {
    let state = start_game();
    let once = update(state, "use pendant".to_string());
    let mut again = once.clone();
    again.inventory[2].location = ItemState::Inventory;
    let after = update(again, "use pendant".to_string());
    assert_eq!(after.sys_message, "pendant has already been used here");
    assert!(after.rooms[0].interactables[0].interacted);
}

#[test]
fn examine_item_shows_its_description() {
    let state = start_game();
    let after = update(state, "examine pendant".to_string());
    assert_eq!(after.sys_message, "A rusty pendant with a small seal on it.");
}

#[test]
fn examine_twice_shows_the_same_message() {
    let state = start_game();
    let first = update(state, "examine door".to_string());
    let second = update(first.clone(), "examine door".to_string());
    assert_eq!(first.sys_message, second.sys_message);
    assert_eq!(first.current_room_idx, second.current_room_idx);
}

#[test]
fn list_inventory_twice_shows_the_same_message() {
    let state = start_game();
    let first = update(state, "list inventory".to_string());
    let second = update(first.clone(), "list inventory".to_string());
    assert_eq!(first.sys_message, second.sys_message);
}

#[test]
fn locked_exit_never_moves_the_player() {
    let state = start_game();
    let after = update(state.clone(), "go south".to_string());
    assert_eq!(after.current_room_idx, state.current_room_idx);
    assert_eq!(
        after.sys_message,
        "The way is locked. You must unlock the path before you proceed."
    );
}

#[test]
fn interactable_stays_interacted() {
    let state = start_game();
    let once = update(state, "use pendant".to_string());
    assert!(once.rooms[0].interactables[0].interacted);
    let later = update(once, "examine door".to_string());
    assert!(later.rooms[0].interactables[0].interacted);
    assert_eq!(
        later.sys_message,
        "The door has slid open and exposed a path to the south."
    );
}

#[test]
fn lowercase_maps_ascii_letters_only() {
    assert_eq!(lowercase("HeLMet"), "helmet");
    assert_eq!(lowercase("SOUTH-3!"), "south-3!");
    assert_eq!(lowercase(""), "");
}

#[test]
fn split_words_on_whitespace() {
    assert_eq!(split_words("go  south "), vec!["go".to_string(), "south".to_string()]);
    assert_eq!(
        split_words("\tuse\npendant now"),
        vec!["use".to_string(), "pendant".to_string(), "now".to_string()]
    );
    assert!(split_words("   ").is_empty());
}

#[test]
fn str_eq_compares_by_characters() {
    assert!(str_eq("door", "door"));
    assert!(!str_eq("door", "doom"));
    assert!(!str_eq("door", "doors"));
}

#[test]
fn vocabulary_tables() {
    assert!(is_legal_command("go"));
    assert!(is_legal_command("examine"));
    assert!(!is_legal_command("dance"));
    assert!(matches!(determine_intent("grab"), Intent::INVENTORY));
    assert!(matches!(determine_intent("push"), Intent::INTERACT));
    assert!(matches!(determine_intent("list"), Intent::LIST_INVENTORY));
    assert!(matches!(determine_intent("use"), Intent::USE));
    assert!(matches!(determine_intent("dance"), Intent::UNKNOWN));
    assert!(is_direction("southwest"));
    assert!(!is_direction("up"));
    assert!(matches!(text_to_direction("north"), Some(Direction::N)));
    assert!(matches!(text_to_direction("nowhere"), None));
}

#[test]
fn first_matching_word_wins() {
    // "helmet" is an item key and comes first, so it becomes the object
    // noun; the later direction word "south" is ignored.
    let state = start_game();
    let after = update(state, "examine helmet south".to_string());
    assert_eq!(after.sys_message, "A blue helmet covered in dirt");
}
