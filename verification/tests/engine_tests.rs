//! The engine's behavioural tests: one turn in, one snapshot out.

use adventure_engine::{update, Direction, Exit, GameState, Interactable, Item, ItemState, Room};

fn create_test_inventory() -> Vec<Item> {
    vec![
        Item {
            name: "helmet".to_string(),
            description: "a blue helmet covered in dirt".to_string(),
            location: ItemState::Room,
        },
        Item {
            name: "buster".to_string(),
            description: "A large cannon with four buttons".to_string(),
            location: ItemState::Room,
        },
        Item {
            name: "pendant".to_string(),
            description: "A rusty pendant with a small seal on it.".to_string(),
            location: ItemState::Inventory,
        },
    ]
}

fn create_base_game_state() -> GameState {
    let rooms = vec![Room {
        description: "Test Room 1".to_string(),
        exits: vec![Exit {
            direction: Direction::S,
            interactable_id: "".to_string(),
            target: 1,
            locked: false,
        }],
        interactables: vec![],
        items: vec!["helmet".to_string()],
    }];

    GameState {
        current_room_idx: 0,
        inventory: create_test_inventory(),
        sys_message: "".to_string(),
        rooms,
    }
}

fn stone_interactable(prerequisite_item: &str) -> Interactable {
    Interactable {
        after_interaction_description: "The stone is sitting on the floor".to_string(),
        before_interaction_description: "You see a stone sitting in between two logs".to_string(),
        id: "lab_stone".to_string(),
        interacted: false,
        interaction_description: "The stone rolls onto the floor".to_string(),
        name: "stone".to_string(),
        prerequisite_item: prerequisite_item.to_string(),
    }
}

#[test]
fn test_locked_exit() {
    let rooms = vec![Room {
        description: "Test Room 1".to_string(),
        exits: vec![Exit {
            direction: Direction::S,
            interactable_id: "".to_string(),
            target: 1,
            locked: true,
        }],
        interactables: vec![stone_interactable("")],
        items: vec![],
    }];

    let game_state = GameState {
        current_room_idx: 0,
        inventory: create_test_inventory(),
        sys_message: "".to_string(),
        rooms,
    };

    let before_state = update(game_state, "go south".to_string());

    assert_eq!(
        "The way is locked. You must unlock the path before you proceed.".to_string(),
        before_state.sys_message
    );
}

#[test]
fn test_use_to_unlock() {
    let rooms = vec![
        Room {
            description: "Test Room 1".to_string(),
            exits: vec![Exit {
                direction: Direction::S,
                interactable_id: "lab_stone".to_string(),
                target: 1,
                locked: true,
            }],
            interactables: vec![stone_interactable("helmet")],
            items: vec!["helmet".to_string()],
        },
        Room {
            description: "Test Room 2".to_string(),
            exits: vec![Exit {
                direction: Direction::N,
                interactable_id: "".to_string(),
                target: 0,
                locked: false,
            }],
            interactables: vec![],
            items: vec![],
        },
    ];

    let mut inventory = create_test_inventory();
    inventory[0].location = ItemState::Inventory;

    let game_state = GameState {
        current_room_idx: 0,
        inventory,
        sys_message: "".to_string(),
        rooms,
    };

    let expected_after_description = "The stone rolls onto the floor";

    let after_interacted_state = update(game_state, "use helmet".to_string());

    assert_eq!(after_interacted_state.sys_message, expected_after_description);

    // ensure that the location is changed after using the helmet
    let helmet = after_interacted_state
        .inventory
        .iter()
        .find(|i| i.name == "helmet")
        .unwrap();
    assert_eq!(helmet.get_location(), &ItemState::Room);
}

#[test]
fn test_interact() {
    let rooms = vec![Room {
        description: "Test Room 1".to_string(),
        exits: vec![Exit {
            direction: Direction::S,
            interactable_id: "".to_string(),
            target: 1,
            locked: false,
        }],
        interactables: vec![stone_interactable("")],
        items: vec![],
    }];

    let game_state = GameState {
        current_room_idx: 0,
        inventory: create_test_inventory(),
        sys_message: "".to_string(),
        rooms,
    };

    let expected_after_interactable_description = "The stone is sitting on the floor";
    let expected_before_interactable_description = "You see a stone sitting in between two logs";
    let expected_interaction_description = "The stone rolls onto the floor";

    let before_state = update(game_state, "examine stone".to_string());
    let interacting_state = update(before_state.clone(), "push stone".to_string());
    let after_state = update(interacting_state.clone(), "examine stone".to_string());

    assert_eq!(
        expected_before_interactable_description,
        before_state.sys_message
    );
    assert_eq!(expected_interaction_description, interacting_state.sys_message);
    assert_eq!(expected_after_interactable_description, after_state.sys_message);
}

#[test]
fn test_no_interactable() {
    let rooms = vec![Room {
        description: "Test Room 1".to_string(),
        exits: vec![Exit {
            direction: Direction::S,
            interactable_id: "".to_string(),
            target: 1,
            locked: false,
        }],
        interactables: vec![stone_interactable("")],
        items: vec![],
    }];

    let game_state = GameState {
        current_room_idx: 0,
        inventory: create_test_inventory(),
        sys_message: "".to_string(),
        rooms,
    };

    let expected_interactable_description =
        "I was unable to understand your command.  Please re-enter and try again.";
    let after_state = update(game_state, "examine face".to_string());

    assert_eq!(expected_interactable_description, after_state.sys_message);
}

#[test]
fn test_move() {
    let rooms = vec![
        Room {
            description: "Test Room 1".to_string(),
            exits: vec![Exit {
                direction: Direction::S,
                interactable_id: "".to_string(),
                target: 1,
                locked: false,
            }],
            interactables: vec![],
            items: vec![],
        },
        Room {
            description: "Test Room 2".to_string(),
            exits: vec![Exit {
                direction: Direction::N,
                interactable_id: "".to_string(),
                target: 0,
                locked: false,
            }],
            interactables: vec![],
            items: vec![],
        },
    ];

    let game_state = GameState {
        current_room_idx: 0,
        inventory: create_test_inventory(),
        sys_message: "".to_string(),
        rooms,
    };

    let next_game_state = update(game_state, "go south".to_string());

    let expected_room_idx = 1;
    let expected_sys_message = "Test Room 2";

    assert_eq!(expected_room_idx, next_game_state.current_room_idx);
    assert_eq!(expected_sys_message, next_game_state.sys_message);
}

#[test]
fn test_update_inventory() {
    let rooms = vec![Room {
        description: "Test Room 1".to_string(),
        exits: vec![Exit {
            direction: Direction::S,
            interactable_id: "".to_string(),
            target: 1,
            locked: false,
        }],
        interactables: vec![],
        items: vec!["helmet".to_string()],
    }];

    let game_state = GameState {
        current_room_idx: 0,
        inventory: create_test_inventory(),
        sys_message: "".to_string(),
        rooms,
    };

    let before_state = update(game_state.clone(), "grab helmet".to_string());
    let after_state = update(before_state.clone(), "grab helmet".to_string());

    let expected_before_sys_message = "You have picked up a helmet";
    let expected_sys_message = "You already have the helmet";

    assert_eq!(expected_before_sys_message, before_state.sys_message);
    assert_eq!(expected_sys_message, after_state.sys_message);
}

#[test]
fn test_list_inventory() {
    let rooms = vec![Room {
        description: "Test Room 1".to_string(),
        exits: vec![Exit {
            direction: Direction::S,
            interactable_id: "".to_string(),
            target: 1,
            locked: false,
        }],
        interactables: vec![],
        items: vec!["helmet".to_string()],
    }];

    let game_state = GameState {
        current_room_idx: 0,
        inventory: create_test_inventory(),
        sys_message: "".to_string(),
        rooms,
    };

    let before_state = update(game_state.clone(), "grab helmet".to_string());
    let new_game_state = update(before_state.clone(), "list inventory".to_string());

    assert!(
        new_game_state.sys_message.contains("helmet: a blue helmet")
            && new_game_state.sys_message.contains("pendant: A rusty pendant")
    );
}

#[test]
fn test_empty_inventory_display_diff_message() {
    let mut game_state = create_base_game_state();
    let has_inventory_state = update(game_state.clone(), "list inventory".to_string());

    assert!(!has_inventory_state
        .sys_message
        .contains("You have no items in your inventory"));
    assert!(has_inventory_state
        .sys_message
        .contains("rusty pendant with a small seal"));

    game_state.inventory = Vec::new();

    let no_inventory_state = update(game_state.clone(), "list inventory".to_string());

    assert!(no_inventory_state
        .sys_message
        .contains("You have no items in your inventory"));
}
