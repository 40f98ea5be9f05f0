//! The world-model value types and their methods.

use adventure_engine::{Direction, Exit, Interactable, Item, ItemState};

#[test]
fn item_location_transitions() {
    let mut item = Item {
        name: "helmet".to_string(),
        description: "A blue helmet covered in dirt".to_string(),
        location: ItemState::Room,
    };
    assert_eq!(item.get_name(), "helmet");
    assert_eq!(item.get_description(), "A blue helmet covered in dirt");
    assert!(!item.is_in_inventory());

    item.to_inventory();
    assert_eq!(item.get_location(), &ItemState::Inventory);
    assert!(item.is_in_inventory());

    item.to_room();
    assert_eq!(item.get_location(), &ItemState::Room);
    assert!(!item.is_in_inventory());
}

#[test]
fn exit_unlock_is_one_way() {
    let mut exit = Exit {
        direction: Direction::S,
        locked: true,
        interactable_id: "lab_entrance".to_string(),
        target: 2,
    };
    assert!(exit.is_locked());
    exit.unlock();
    assert!(!exit.is_locked());
    assert_eq!(exit.target, 2);
    assert_eq!(exit.interactable_id, "lab_entrance");
}

#[test]
fn interactable_examine_follows_the_flag() {
    let mut stone = Interactable {
        after_interaction_description: "The stone is sitting on the floor".to_string(),
        before_interaction_description: "You see a stone sitting in between two logs".to_string(),
        id: "lab_stone".to_string(),
        interaction_description: "The stone rolls onto the floor".to_string(),
        interacted: false,
        name: "stone".to_string(),
        prerequisite_item: "".to_string(),
    };
    assert!(!stone.is_interacted());
    assert_eq!(stone.examine(), "You see a stone sitting in between two logs");
    stone.interact();
    assert!(stone.is_interacted());
    assert_eq!(stone.examine(), "The stone is sitting on the floor");
}
