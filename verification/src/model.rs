//! The world model: items, exits, interactables, rooms and the `GameState`
//! aggregate, together with their mathematical views and the well-formedness
//! invariant every snapshot keeps.

use vstd::prelude::*;
use crate::vocab::Direction;

verus! {

/// Where an item currently is: lying in a room, carried in the player's
/// inventory, or equipped.
#[derive(Clone, Copy, Debug, PartialEq, Eq, Structural)]
pub enum ItemState {
    Room,
    Inventory,
    Equipped,
}

/// A portable item.  All items live in the single global inventory
/// mapping; "in this room" versus "in pocket" is expressed only by the
/// `location` tag.
#[derive(Clone, Debug)]
pub struct Item {
    pub name: String,
    pub description: String,
    pub location: ItemState,
}

/// Mathematical view of an [`Item`].
#[verifier::ext_equal]
pub ghost struct ItemV {
    pub name: Seq<char>,
    pub description: Seq<char>,
    pub location: ItemState,
}

impl View for Item {
    type V = ItemV;

    open spec fn view(&self) -> ItemV {
        ItemV { name: self.name@, description: self.description@, location: self.location }
    }
}

impl DeepView for Item {
    type V = ItemV;

    open spec fn deep_view(&self) -> ItemV {
        self.view()
    }
}

impl Item {
    /// The item's name, the key players type to refer to it.
    pub fn get_name(&self) -> (r: &str)
        ensures
            r@ == self@.name,
    {
        self.name.as_str()
    }

    /// The item's descriptive text.
    pub fn get_description(&self) -> (r: &str)
        ensures
            r@ == self@.description,
    {
        self.description.as_str()
    }

    /// The item's current location tag.
    pub fn get_location(&self) -> (r: &ItemState)
        ensures
            *r == self@.location,
    {
        &self.location
    }

    /// Moves the item into the player's inventory.
    pub fn to_inventory(&mut self)
        ensures
            final(self)@ == (ItemV { location: ItemState::Inventory, ..old(self)@ }),
    {
        self.location = ItemState::Inventory;
    }

    /// Drops the item back into the room.
    pub fn to_room(&mut self)
        ensures
            final(self)@ == (ItemV { location: ItemState::Room, ..old(self)@ }),
    {
        self.location = ItemState::Room;
    }

    /// Whether the player currently carries the item.
    pub fn is_in_inventory(&self) -> (r: bool)
        ensures
            r == (self@.location is Inventory),
    {
        self.location == ItemState::Inventory
    }
}

/// A way out of a room.  An empty `interactable_id` means no interactable
/// controls the exit; a non-empty one names the interactable whose
/// use-action unlocks it.
#[derive(Clone, Debug)]
pub struct Exit {
    pub direction: Direction,
    pub locked: bool,
    pub interactable_id: String,
    pub target: usize,
}

/// Mathematical view of an [`Exit`].
#[verifier::ext_equal]
pub ghost struct ExitV {
    pub direction: Direction,
    pub locked: bool,
    pub interactable_id: Seq<char>,
    pub target: int,
}

impl View for Exit {
    type V = ExitV;

    open spec fn view(&self) -> ExitV {
        ExitV {
            direction: self.direction,
            locked: self.locked,
            interactable_id: self.interactable_id@,
            target: self.target as int,
        }
    }
}

impl DeepView for Exit {
    type V = ExitV;

    open spec fn deep_view(&self) -> ExitV {
        self.view()
    }
}

impl Exit {
    /// Whether the exit is currently locked.
    pub fn is_locked(&self) -> (r: bool)
        ensures
            r == self@.locked,
    {
        self.locked
    }

    /// Opens the exit; everything else about it stays as it was.
    pub fn unlock(&mut self)
        ensures
            final(self)@ == (ExitV { locked: false, ..old(self)@ }),
    {
        self.locked = false
    }
}

/// A room-local, statefully toggleable scenery element, distinct from a
/// portable item.  An empty `prerequisite_item` means the interactable
/// responds to a plain INTERACT; a non-empty one names the item that must
/// be held and applied with USE.
#[derive(Clone, Debug)]
pub struct Interactable {
    pub after_interaction_description: String,
    pub before_interaction_description: String,
    pub id: String,
    pub interaction_description: String,
    pub interacted: bool,
    pub name: String,
    pub prerequisite_item: String,
}

/// Mathematical view of an [`Interactable`].
#[verifier::ext_equal]
pub ghost struct InteractableV {
    pub after_interaction_description: Seq<char>,
    pub before_interaction_description: Seq<char>,
    pub id: Seq<char>,
    pub interaction_description: Seq<char>,
    pub interacted: bool,
    pub name: Seq<char>,
    pub prerequisite_item: Seq<char>,
}

impl View for Interactable {
    type V = InteractableV;

    open spec fn view(&self) -> InteractableV {
        InteractableV {
            after_interaction_description: self.after_interaction_description@,
            before_interaction_description: self.before_interaction_description@,
            id: self.id@,
            interaction_description: self.interaction_description@,
            interacted: self.interacted,
            name: self.name@,
            prerequisite_item: self.prerequisite_item@,
        }
    }
}

impl DeepView for Interactable {
    type V = InteractableV;

    open spec fn deep_view(&self) -> InteractableV {
        self.view()
    }
}

/// The description EXAMINE shows for an interactable, selected by whether
/// it has been interacted with yet.
pub open spec fn examine_desc(x: InteractableV) -> Seq<char> {
    if x.interacted {
        x.after_interaction_description
    } else {
        x.before_interaction_description
    }
}

impl Interactable {
    /// Marks the interactable as interacted with; the flag only ever goes
    /// from `false` to `true`.
    pub fn interact(&mut self)
        ensures
            final(self)@ == (InteractableV { interacted: true, ..old(self)@ }),
    {
        self.interacted = true
    }

    /// Whether the interactable has already been interacted with.
    pub fn is_interacted(&self) -> (r: bool)
        ensures
            r == self@.interacted,
    {
        self.interacted
    }

    /// The description shown by EXAMINE: the after-interaction text once
    /// `interacted` is set, the before-interaction text until then.
    pub fn examine(&self) -> (r: &str)
        ensures
            r@ == examine_desc(self@),
    {
        if self.interacted {
            self.after_interaction_description.as_str()
        } else {
            self.before_interaction_description.as_str()
        }
    }
}

/// One location of the world.  The `items` list is descriptive metadata
/// only: pickup is decided by each item's `location` tag, never by
/// membership in this list.
#[derive(Clone, Debug)]
pub struct Room {
    pub description: String,
    pub interactables: Vec<Interactable>,
    pub items: Vec<String>,
    pub exits: Vec<Exit>,
}

/// Mathematical view of a [`Room`].
#[verifier::ext_equal]
pub ghost struct RoomV {
    pub description: Seq<char>,
    pub interactables: Seq<InteractableV>,
    pub items: Seq<Seq<char>>,
    pub exits: Seq<ExitV>,
}

impl View for Room {
    type V = RoomV;

    open spec fn view(&self) -> RoomV {
        RoomV {
            description: self.description@,
            interactables: self.interactables.deep_view(),
            items: self.items.deep_view(),
            exits: self.exits.deep_view(),
        }
    }
}

impl DeepView for Room {
    type V = RoomV;

    open spec fn deep_view(&self) -> RoomV {
        self.view()
    }
}

impl Room {
    /// The text shown on entry and used by callers to render a room.
    pub fn get_description(&self) -> (r: &str)
        ensures
            r@ == self@.description,
    {
        &self.description.as_str()
    }
}

/// One immutable snapshot of the world between turns.
#[derive(Clone, Debug)]
pub struct GameState {
    pub current_room_idx: usize,
    pub inventory: Vec<Item>,
    pub sys_message: String,
    pub rooms: Vec<Room>,
}

/// Mathematical view of a [`GameState`].
#[verifier::ext_equal]
pub ghost struct GameStateV {
    pub current_room_idx: int,
    pub inventory: Seq<ItemV>,
    pub sys_message: Seq<char>,
    pub rooms: Seq<RoomV>,
}

impl View for GameState {
    type V = GameStateV;

    open spec fn view(&self) -> GameStateV {
        GameStateV {
            current_room_idx: self.current_room_idx as int,
            inventory: self.inventory.deep_view(),
            sys_message: self.sys_message@,
            rooms: self.rooms.deep_view(),
        }
    }
}

impl DeepView for GameState {
    type V = GameStateV;

    open spec fn deep_view(&self) -> GameStateV {
        self.view()
    }
}

/// Every exit of the room that names a controlling interactable names one
/// that exists among the room's own interactables.
pub open spec fn room_refs_ok(room: RoomV) -> bool {
    forall|e: int|
        0 <= e < room.exits.len() && room.exits[e].interactable_id.len() > 0 ==> exists|k: int|
            0 <= k < room.interactables.len() && (#[trigger] room.interactables[k]).id
                == room.exits[e].interactable_id
}

impl GameStateV {
    /// The well-formedness invariant of a snapshot: the current room index
    /// is valid, every exit leads to a valid room and every controlling
    /// interactable an exit names exists in its room, and inventory keys
    /// (item names) are unique.
    pub open spec fn wf(self) -> bool {
        &&& 0 <= self.current_room_idx < self.rooms.len()
        &&& forall|r: int, e: int|
            0 <= r < self.rooms.len() && 0 <= e < self.rooms[r].exits.len() ==> 0 <= (
            #[trigger] self.rooms[r].exits[e]).target < self.rooms.len()
        &&& forall|r: int| 0 <= r < self.rooms.len() ==> room_refs_ok(#[trigger] self.rooms[r])
        &&& forall|i: int, j: int|
            0 <= i < j < self.inventory.len() ==> (#[trigger] self.inventory[i]).name != (
            #[trigger] self.inventory[j]).name
    }
}

} // verus!
