//! The world seed: the static room, exit, interactable and item content
//! the game starts from, and [`start_game`], which builds the initial
//! snapshot from it.

use vstd::prelude::*;
use crate::model::{Exit, ExitV, GameState, GameStateV, Interactable, InteractableV, Item, ItemState,
    ItemV, Room, RoomV};
use crate::vocab::Direction;

verus! {

/// The starting inventory: all items of the game keyed by name, each with
/// its location tag.  The pendant begins in the player's pocket; the rest
/// lie in rooms until picked up.
pub open spec fn initial_inventory() -> Seq<ItemV> {
    seq![
        ItemV {
            name: "helmet"@,
            description: "A blue helmet covered in dirt"@,
            location: ItemState::Room,
        },
        ItemV {
            name: "buster"@,
            description: "A large cannon with four buttons"@,
            location: ItemState::Room,
        },
        ItemV {
            name: "pendant"@,
            description: "A rusty pendant with a small seal on it."@,
            location: ItemState::Inventory,
        },
    ]
}

/// The initial snapshot: the player stands before the laboratory door
/// (room 0), whose locked south exit is controlled by the "lab_entrance"
/// interactable and opened by using the pendant.
pub open spec fn initial_state() -> GameStateV {
    GameStateV {
        current_room_idx: 0,
        inventory: initial_inventory(),
        sys_message: Seq::empty(),
        rooms: seq![
            RoomV {
                description: "A wind blows over the dunes of sand that cover the known world as you step up to a large dilapidated building.\n\nUnlike other ruins you have seen in the past, this structure does not speak of a lavish past.\n\nYou are greeted with a metal door weathered from the years and bearing a strange insignia."@,
                interactables: seq![
                    InteractableV {
                        after_interaction_description: "The door has slid open and exposed a path to the south."@,
                        before_interaction_description: "You notice a small panel to the side of the door with what seems to be a slot to fit something in."@,
                        id: "lab_entrance"@,
                        interaction_description: "The pendant fits into the panel in the door.\nYou hear a brief beeping sound and see a few lights on the panel turn from red to green.\nThe door swings open to the south."@,
                        interacted: false,
                        name: "door"@,
                        prerequisite_item: "pendant"@,
                    },
                ],
                items: Seq::empty(),
                exits: seq![
                    ExitV {
                        direction: Direction::S,
                        locked: true,
                        interactable_id: "lab_entrance"@,
                        target: 2,
                    },
                ],
            },
            RoomV {
                description: "You find yourself in a room. There is a door to the west and a door to the south. You notice a small crevice in the corner.  The room with the helmet"@,
                interactables: Seq::empty(),
                items: seq!["helmet"@],
                exits: seq![
                    ExitV {
                        direction: Direction::W,
                        locked: false,
                        interactable_id: Seq::empty(),
                        target: 0,
                    },
                    ExitV {
                        direction: Direction::S,
                        locked: false,
                        interactable_id: Seq::empty(),
                        target: 3,
                    },
                ],
            },
            RoomV {
                description: "You find yourself in a room. There is a door to the north"@,
                interactables: Seq::empty(),
                items: Seq::empty(),
                exits: seq![
                    ExitV {
                        direction: Direction::N,
                        locked: false,
                        interactable_id: Seq::empty(),
                        target: 0,
                    },
                ],
            },
            RoomV {
                description: "You find yourself in a room. There is a door to the north. The door to the south is locked."@,
                interactables: Seq::empty(),
                items: Seq::empty(),
                exits: seq![
                    ExitV {
                        direction: Direction::N,
                        locked: false,
                        interactable_id: Seq::empty(),
                        target: 1,
                    },
                    ExitV {
                        direction: Direction::S,
                        locked: false,
                        interactable_id: Seq::empty(),
                        target: 4,
                    },
                ],
            },
            RoomV {
                description: "Dungeon exit"@,
                interactables: Seq::empty(),
                items: Seq::empty(),
                exits: Seq::empty(),
            },
        ],
    }
}

/// Builds the starting inventory.
fn create_inventory() -> (r: Vec<Item>)
    ensures
        r.deep_view() == initial_inventory(),
{
    let mut inv: Vec<Item> = Vec::new();
    inv.push(
        Item {
            name: String::from_str("helmet"),
            description: String::from_str("A blue helmet covered in dirt"),
            location: ItemState::Room,
        },
    );
    inv.push(
        Item {
            name: String::from_str("buster"),
            description: String::from_str("A large cannon with four buttons"),
            location: ItemState::Room,
        },
    );
    inv.push(
        Item {
            name: String::from_str("pendant"),
            description: String::from_str("A rusty pendant with a small seal on it."),
            location: ItemState::Inventory,
        },
    );
    proof {
        assert(inv.deep_view() =~~= initial_inventory());
    }
    inv
}

/// Builds and returns the initial snapshot from the static world content.
pub fn start_game() -> (r: GameState)
    ensures
        r@ == initial_state(),
        r@.wf(),
{
    let mut rooms: Vec<Room> = Vec::new();
    rooms.push(
        Room {
            description: String::from_str("A wind blows over the dunes of sand that cover the known world as you step up to a large dilapidated building.\n\nUnlike other ruins you have seen in the past, this structure does not speak of a lavish past.\n\nYou are greeted with a metal door weathered from the years and bearing a strange insignia."),
            interactables: {
                let mut xs: Vec<Interactable> = Vec::new();
                xs.push(
                    Interactable {
                        after_interaction_description: String::from_str("The door has slid open and exposed a path to the south."),
                        before_interaction_description: String::from_str("You notice a small panel to the side of the door with what seems to be a slot to fit something in."),
                        id: String::from_str("lab_entrance"),
                        interaction_description: String::from_str("The pendant fits into the panel in the door.\nYou hear a brief beeping sound and see a few lights on the panel turn from red to green.\nThe door swings open to the south."),
                        interacted: false,
                        name: String::from_str("door"),
                        prerequisite_item: String::from_str("pendant"),
                    },
                );
                xs
            },
            items: Vec::new(),
            exits: {
                let mut es: Vec<Exit> = Vec::new();
                es.push(
                    Exit {
                        direction: Direction::S,
                        locked: true,
                        interactable_id: String::from_str("lab_entrance"),
                        target: 2,
                    },
                );
                es
            },
        },
    );
    rooms.push(
        Room {
            description: String::from_str("You find yourself in a room. There is a door to the west and a door to the south. You notice a small crevice in the corner.  The room with the helmet"),
            interactables: Vec::new(),
            items: {
                let mut it: Vec<String> = Vec::new();
                it.push(String::from_str("helmet"));
                it
            },
            exits: {
                let mut es: Vec<Exit> = Vec::new();
                es.push(
                    Exit {
                        direction: Direction::W,
                        locked: false,
                        interactable_id: String::new(),
                        target: 0,
                    },
                );
                es.push(
                    Exit {
                        direction: Direction::S,
                        locked: false,
                        interactable_id: String::new(),
                        target: 3,
                    },
                );
                es
            },
        },
    );
    rooms.push(
        Room {
            description: String::from_str("You find yourself in a room. There is a door to the north"),
            interactables: Vec::new(),
            items: Vec::new(),
            exits: {
                let mut es: Vec<Exit> = Vec::new();
                es.push(
                    Exit {
                        direction: Direction::N,
                        locked: false,
                        interactable_id: String::new(),
                        target: 0,
                    },
                );
                es
            },
        },
    );
    rooms.push(
        Room {
            description: String::from_str("You find yourself in a room. There is a door to the north. The door to the south is locked."),
            interactables: Vec::new(),
            items: Vec::new(),
            exits: {
                let mut es: Vec<Exit> = Vec::new();
                es.push(
                    Exit {
                        direction: Direction::N,
                        locked: false,
                        interactable_id: String::new(),
                        target: 1,
                    },
                );
                es.push(
                    Exit {
                        direction: Direction::S,
                        locked: false,
                        interactable_id: String::new(),
                        target: 4,
                    },
                );
                es
            },
        },
    );
    rooms.push(
        Room {
            description: String::from_str("Dungeon exit"),
            interactables: Vec::new(),
            items: Vec::new(),
            exits: Vec::new(),
        },
    );
    let r = GameState {
        current_room_idx: 0,
        inventory: create_inventory(),
        sys_message: String::new(),
        rooms,
    };
    proof {
        assert(r@ =~~= initial_state());
        let st = initial_state();
        reveal_strlit("helmet");
        reveal_strlit("buster");
        reveal_strlit("pendant");
        reveal_strlit("lab_entrance");
        assert(st.rooms.len() == 5);
        assert(0 <= st.current_room_idx < st.rooms.len()); // c1
        assert(forall|a: int, e: int|
            0 <= a < st.rooms.len() && 0 <= e < st.rooms[a].exits.len() ==> 0 <= (
            #[trigger] st.rooms[a].exits[e]).target < st.rooms.len()); // c2
        assert forall|a: int| 0 <= a < st.rooms.len() implies crate::model::room_refs_ok(
            #[trigger] st.rooms[a]) by {
            if a == 0 {
                assert(st.rooms[0].interactables[0].id == st.rooms[0].exits[0].interactable_id);
            } else if a == 1 {
                assert(forall|e: int|
                    0 <= e < st.rooms[1].exits.len() ==> (#[trigger] st.rooms[1].exits[
                    e]).interactable_id.len() == 0);
            } else if a == 2 {
                assert(st.rooms[2].exits[0].interactable_id.len() == 0);
            } else if a == 3 {
                assert(forall|e: int|
                    0 <= e < st.rooms[3].exits.len() ==> (#[trigger] st.rooms[3].exits[
                    e]).interactable_id.len() == 0);
            } else {
                assert(st.rooms[4].exits.len() == 0);
            }
        }
        assert(st.inventory[0].name != st.inventory[1].name) by {
            assert("helmet"@[0] != "buster"@[0]);
        }
        assert(st.inventory[0].name != st.inventory[2].name) by {
            assert("helmet"@.len() != "pendant"@.len());
        }
        assert(st.inventory[1].name != st.inventory[2].name) by {
            assert("buster"@.len() != "pendant"@.len());
        }
        assert(forall|i: int, j: int|
            0 <= i < j < st.inventory.len() ==> (#[trigger] st.inventory[i]).name != (
            #[trigger] st.inventory[j]).name); // c4
        assert(r@.wf());
    }
    r
}

} // verus!
