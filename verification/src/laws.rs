//! The engine's general laws, stated over [`update_spec`] and proved for
//! every well-formed snapshot: read-only turns are idempotent, the
//! interacted flag is monotone, locked exits gate movement, pickup is a
//! one-way transition, and a successful USE unlocks the exit it controls.

use vstd::prelude::*;
use crate::engine::{exit_dir_idx, exit_id_idx, inter_name_idx, inter_prereq_idx, item_idx,
    item_idx_from, lemma_exit_dir_idx_bounds, lemma_exit_id_idx_bounds,
    lemma_inter_name_idx_bounds, lemma_inter_prereq_idx_bounds, lemma_item_idx_bounds, pickup_spec,
    resolve_from, resolve_input, update_spec, with_message, InputV};
use crate::model::{ExitV, GameStateV, InteractableV, ItemState, ItemV, RoomV};
use crate::text::words;
use crate::vocab::{dir_of, intent_of};

verus! {

/// The classifier's result for a turn: the object noun resolved against
/// the inventory and the current room's interactables.
pub open spec fn turn_input(s: GameStateV, input: Seq<char>) -> InputV {
    resolve_input(words(input), s.inventory, s.rooms[s.current_room_idx].interactables)
}

/// Resolution only raises a namespace flag when the namespace really
/// contains the resolved noun.
pub proof fn lemma_resolve_props(
    toks: Seq<Seq<char>>,
    i: int,
    inv: Seq<ItemV>,
    xs: Seq<InteractableV>,
)
    ensures
        resolve_from(toks, i, inv, xs).is_direction ==> dir_of(
            resolve_from(toks, i, inv, xs).object_noun,
        ) is Some,
        resolve_from(toks, i, inv, xs).is_item ==> item_idx(
            inv,
            resolve_from(toks, i, inv, xs).object_noun,
        ) < inv.len(),
        resolve_from(toks, i, inv, xs).is_interactable ==> inter_name_idx(
            xs,
            resolve_from(toks, i, inv, xs).object_noun,
        ) < xs.len(),
    decreases toks.len() - i,
{
    if i < 1 || i >= toks.len() {
    } else {
        lemma_resolve_props(toks, i + 1, inv, xs);
    }
}

/// Idempotence of read-only turns: an EXAMINE or LIST_INVENTORY turn
/// changes at most the system message, and running the same turn again
/// changes nothing at all, so both runs show the identical message.
pub proof fn lemma_read_only_idempotent(s: GameStateV, input: Seq<char>)
    requires
        s.wf(),
        words(input).len() > 0,
        intent_of(words(input)[0]) is EXAMINE || intent_of(words(input)[0]) is LIST_INVENTORY,
    ensures
        update_spec(s, input).rooms == s.rooms,
        update_spec(s, input).inventory == s.inventory,
        update_spec(s, input).current_room_idx == s.current_room_idx,
        update_spec(update_spec(s, input), input) == update_spec(s, input),
{
    let s1 = update_spec(s, input);
    let s2 = update_spec(s1, input);
    assert(s2 =~~= s1);
}

/// Two inventories with the same item names agree on every key lookup.
proof fn lemma_item_idx_same_names(a: Seq<ItemV>, b: Seq<ItemV>, w: Seq<char>, i: int)
    requires
        a.len() == b.len(),
        forall|t: int| 0 <= t < a.len() ==> (#[trigger] a[t]).name == b[t].name,
    ensures
        item_idx_from(a, w, i) == item_idx_from(b, w, i),
    decreases a.len() - i,
{
    if i < 0 || i >= a.len() {
    } else {
        lemma_item_idx_same_names(a, b, w, i + 1);
    }
}

/// Resolution does not depend on where items are, only on their names:
/// two inventories with the same names resolve every turn alike.
proof fn lemma_resolve_same_names(
    toks: Seq<Seq<char>>,
    i: int,
    a: Seq<ItemV>,
    b: Seq<ItemV>,
    xs: Seq<InteractableV>,
)
    requires
        a.len() == b.len(),
        forall|t: int| 0 <= t < a.len() ==> (#[trigger] a[t]).name == b[t].name,
    ensures
        resolve_from(toks, i, a, xs) == resolve_from(toks, i, b, xs),
    decreases toks.len() - i,
{
    if i < 1 || i >= toks.len() {
    } else {
        lemma_item_idx_same_names(a, b, crate::text::lower(toks[i]), 0);
        lemma_resolve_same_names(toks, i + 1, a, b, xs);
    }
}

/// Monotonic interaction: once `interacted` is true for an interactable,
/// no turn ever clears it.
pub proof fn lemma_interacted_monotone(s: GameStateV, input: Seq<char>, a: int, k: int)
    requires
        s.wf(),
        words(input).len() > 0,
        0 <= a < s.rooms.len(),
        0 <= k < s.rooms[a].interactables.len(),
        s.rooms[a].interactables[k].interacted,
    ensures
        update_spec(s, input).rooms[a].interactables[k].interacted,
{
    let s1 = update_spec(s, input);
    let cri = s.current_room_idx;
    let room = s.rooms[cri];
    let inp = turn_input(s, input);
    lemma_resolve_props(words(input), 1, s.inventory, room.interactables);
    lemma_inter_name_idx_bounds(room.interactables, inp.object_noun);
    lemma_inter_prereq_idx_bounds(room.interactables, inp.object_noun);
    lemma_item_idx_bounds(s.inventory, inp.object_noun);
    let p = inter_prereq_idx(room.interactables, inp.object_noun);
    if p < room.interactables.len() {
        lemma_exit_id_idx_bounds(room.exits, room.interactables[p].id);
    }
}

/// Re-invoking USE on an already-used interactable yields the "already"
/// message and repeats no effect: the snapshot is unchanged but for the
/// message.
pub proof fn lemma_use_already(s: GameStateV, input: Seq<char>)
    requires
        s.wf(),
        words(input).len() > 0,
        intent_of(words(input)[0]) is USE,
        turn_input(s, input).is_item,
        ({
            let k = item_idx(s.inventory, turn_input(s, input).object_noun);
            k < s.inventory.len() && s.inventory[k].location is Inventory
        }),
        ({
            let room = s.rooms[s.current_room_idx];
            let p = inter_prereq_idx(room.interactables, turn_input(s, input).object_noun);
            p < room.interactables.len() && room.interactables[p].interacted
        }),
    ensures
        update_spec(s, input) == with_message(
            s,
            s.rooms[s.current_room_idx].interactables[inter_prereq_idx(
                s.rooms[s.current_room_idx].interactables,
                turn_input(s, input).object_noun,
            )].prerequisite_item + " has already been used here"@,
        ),
{
    assert(update_spec(s, input) =~~= with_message(
        s,
        s.rooms[s.current_room_idx].interactables[inter_prereq_idx(
            s.rooms[s.current_room_idx].interactables,
            turn_input(s, input).object_noun,
        )].prerequisite_item + " has already been used here"@,
    ));
}

/// Locked-exit gate: MOVEMENT towards a locked exit never changes the
/// current room; it only reports that the way is locked.
pub proof fn lemma_locked_exit_gate(s: GameStateV, input: Seq<char>)
    requires
        s.wf(),
        words(input).len() > 0,
        intent_of(words(input)[0]) is MOVEMENT,
        turn_input(s, input).is_direction,
        ({
            let room = s.rooms[s.current_room_idx];
            let e = exit_dir_idx(room.exits, dir_of(turn_input(s, input).object_noun)->0);
            e < room.exits.len() && room.exits[e].locked
        }),
    ensures
        update_spec(s, input).current_room_idx == s.current_room_idx,
        update_spec(s, input) == with_message(
            s,
            "The way is locked. You must unlock the path before you proceed."@,
        ),
{
    assert(update_spec(s, input) =~~= with_message(
        s,
        "The way is locked. You must unlock the path before you proceed."@,
    ));
}

/// Pickup is a one-way, idempotent-safe transition: a grabbed item goes
/// Room to Inventory exactly once, and grabbing it again changes nothing
/// but the message, which then says the item is already held.
pub proof fn lemma_pickup_once(s: GameStateV, input: Seq<char>)
    requires
        s.wf(),
        words(input).len() > 0,
        intent_of(words(input)[0]) is INVENTORY,
        turn_input(s, input).is_item,
        s.inventory[item_idx(s.inventory, turn_input(s, input).object_noun)].location is Room,
    ensures
        ({
            let k = item_idx(s.inventory, turn_input(s, input).object_noun);
            let s1 = update_spec(s, input);
            &&& s1.inventory == s.inventory.update(
                k,
                ItemV { location: ItemState::Inventory, ..s.inventory[k] },
            )
            &&& s1.inventory[k].location is Inventory
            &&& s1.rooms == s.rooms
            &&& s1.current_room_idx == s.current_room_idx
            &&& s1.sys_message == "You have picked up a "@ + s.inventory[k].name
            &&& update_spec(s1, input) == with_message(
                s1,
                "You already have the "@ + s.inventory[k].name,
            )
        }),
{
    let toks = words(input);
    let inp = turn_input(s, input);
    let k = item_idx(s.inventory, inp.object_noun);
    let s1 = update_spec(s, input);
    lemma_resolve_props(toks, 1, s.inventory, s.rooms[s.current_room_idx].interactables);
    lemma_item_idx_bounds(s.inventory, inp.object_noun);
    assert(inp.is_item);
    assert(0 <= k < s.inventory.len());
    let base = if inp.object_noun.len() == 0 {
        "I was unable to understand your command.  Please re-enter and try again."@
    } else {
        s.sys_message
    };
    assert(s1 == pickup_spec(s, inp, base)); // b2
    assert(s1.inventory =~~= s.inventory.update(
        k,
        ItemV { location: ItemState::Inventory, ..s.inventory[k] },
    ));
    assert(s1.inventory.len() == s.inventory.len());
    assert forall|t: int| 0 <= t < s1.inventory.len() implies (#[trigger] s1.inventory[t]).name
        == s.inventory[t].name by {
        if t == k {
            assert(s1.inventory[t].name == s.inventory[k].name);
        }
    }
    lemma_resolve_same_names(
        toks,
        1,
        s1.inventory,
        s.inventory,
        s.rooms[s.current_room_idx].interactables,
    );
    lemma_item_idx_same_names(s1.inventory, s.inventory, turn_input(s, input).object_noun, 0);
    assert(update_spec(s1, input) =~~= with_message(
        s1,
        "You already have the "@ + s.inventory[k].name,
    ));
}

/// USE side-effect coupling: a successful USE on an interactable that
/// controls an exit leaves exactly that exit unlocked, marks the
/// interactable interacted, announces its interaction description, and
/// drops the consumed item back into the room.
pub proof fn lemma_use_unlocks(s: GameStateV, input: Seq<char>)
    requires
        s.wf(),
        words(input).len() > 0,
        intent_of(words(input)[0]) is USE,
        turn_input(s, input).is_item,
        ({
            let k = item_idx(s.inventory, turn_input(s, input).object_noun);
            k < s.inventory.len() && s.inventory[k].location is Inventory
        }),
        ({
            let room = s.rooms[s.current_room_idx];
            let p = inter_prereq_idx(room.interactables, turn_input(s, input).object_noun);
            p < room.interactables.len() && !room.interactables[p].interacted
        }),
        ({
            let room = s.rooms[s.current_room_idx];
            let p = inter_prereq_idx(room.interactables, turn_input(s, input).object_noun);
            exit_id_idx(room.exits, room.interactables[p].id) < room.exits.len()
        }),
    ensures
        ({
            let room = s.rooms[s.current_room_idx];
            let p = inter_prereq_idx(room.interactables, turn_input(s, input).object_noun);
            let e = exit_id_idx(room.exits, room.interactables[p].id);
            let k = item_idx(s.inventory, turn_input(s, input).object_noun);
            let s1 = update_spec(s, input);
            &&& s1.rooms[s.current_room_idx].exits[e].locked == false
            &&& s1.rooms[s.current_room_idx].interactables[p].interacted
            &&& s1.inventory[k].location is Room
            &&& s1.sys_message == room.interactables[p].interaction_description
            &&& s1.current_room_idx == s.current_room_idx
        }),
{
    let room = s.rooms[s.current_room_idx];
    let p = inter_prereq_idx(room.interactables, turn_input(s, input).object_noun);
    let x = room.interactables[p];
    let e = exit_id_idx(room.exits, x.id);
    let k = item_idx(s.inventory, turn_input(s, input).object_noun);
    let s1 = update_spec(s, input);
    lemma_item_idx_bounds(s.inventory, turn_input(s, input).object_noun);
    lemma_inter_prereq_idx_bounds(room.interactables, turn_input(s, input).object_noun);
    lemma_exit_id_idx_bounds(room.exits, x.id);
    assert(s1 =~~= GameStateV {
        sys_message: x.interaction_description,
        rooms: s.rooms.update(
            s.current_room_idx,
            RoomV {
                exits: room.exits.update(e, ExitV { locked: false, ..room.exits[e] }),
                interactables: room.interactables.update(p, InteractableV { interacted: true, ..x }),
                ..room
            },
        ),
        inventory: s.inventory.update(k, ItemV { location: ItemState::Room, ..s.inventory[k] }),
        ..s
    });
}

/// A room whose exits and interactables keep their identities (same
/// lengths, same controlling ids) keeps its references resolved.
proof fn lemma_refs_ok_same_ids(a: RoomV, b: RoomV)
    requires
        crate::model::room_refs_ok(a),
        b.exits.len() == a.exits.len(),
        forall|e: int|
            0 <= e < a.exits.len() ==> (#[trigger] b.exits[e]).interactable_id
                == a.exits[e].interactable_id,
        b.interactables.len() == a.interactables.len(),
        forall|t: int|
            0 <= t < a.interactables.len() ==> (#[trigger] b.interactables[t]).id
                == a.interactables[t].id,
    ensures
        crate::model::room_refs_ok(b),
{
    assert forall|e: int|
        0 <= e < b.exits.len() && b.exits[e].interactable_id.len() > 0 implies exists|t: int|
        0 <= t < b.interactables.len() && (#[trigger] b.interactables[t]).id == b.exits[
        e].interactable_id by {
        let t0 = choose|t: int|
            0 <= t < a.interactables.len() && (#[trigger] a.interactables[t]).id == a.exits[
            e].interactable_id;
        assert(b.interactables[t0].id == b.exits[e].interactable_id);
    }
}

/// Every turn preserves the snapshot invariant: the current room index
/// stays valid, exits keep leading to valid rooms, exits keep naming
/// existing interactables, and inventory keys stay unique.
pub proof fn lemma_update_preserves_wf(s: GameStateV, input: Seq<char>)
    requires
        s.wf(),
        words(input).len() > 0,
    ensures
        update_spec(s, input).wf(),
{
    let s1 = update_spec(s, input);
    let cri = s.current_room_idx;
    let room = s.rooms[cri];
    let inp = turn_input(s, input);
    lemma_resolve_props(words(input), 1, s.inventory, room.interactables);
    lemma_inter_name_idx_bounds(room.interactables, inp.object_noun);
    lemma_inter_prereq_idx_bounds(room.interactables, inp.object_noun);
    lemma_item_idx_bounds(s.inventory, inp.object_noun);
    if inp.is_direction {
        lemma_exit_dir_idx_bounds(room.exits, dir_of(inp.object_noun)->0);
    }
    let p = inter_prereq_idx(room.interactables, inp.object_noun);
    if p < room.interactables.len() {
        lemma_exit_id_idx_bounds(room.exits, room.interactables[p].id);
    }
    assert(s1.inventory.len() == s.inventory.len());
    assert forall|i: int, j: int|
        0 <= i < j < s1.inventory.len() implies (#[trigger] s1.inventory[i]).name != (
    #[trigger] s1.inventory[j]).name by {
        assert(s1.inventory[i].name == s.inventory[i].name);
        assert(s1.inventory[j].name == s.inventory[j].name);
    }
    assert(s1.rooms.len() == s.rooms.len());
    assert(0 <= s1.current_room_idx < s1.rooms.len());
    assert forall|a: int, e: int|
        0 <= a < s1.rooms.len() && 0 <= e < s1.rooms[a].exits.len() implies 0 <= (
    #[trigger] s1.rooms[a].exits[e]).target < s1.rooms.len() by {
        if a != cri {
            assert(s1.rooms[a] == s.rooms[a]);
        } else {
            assert(s1.rooms[a].exits.len() == s.rooms[a].exits.len());
            assert(s1.rooms[a].exits[e].target == s.rooms[a].exits[e].target);
        }
    }
    assert forall|a: int| 0 <= a < s1.rooms.len() implies crate::model::room_refs_ok(
        #[trigger] s1.rooms[a],
    ) by {
        if a != cri {
            assert(s1.rooms[a] == s.rooms[a]);
        } else {
            assert(s1.rooms[a].exits.len() == room.exits.len());
            assert(s1.rooms[a].interactables.len() == room.interactables.len());
            assert forall|e: int|
                0 <= e < room.exits.len() implies (#[trigger] s1.rooms[a].exits[
            e]).interactable_id == room.exits[e].interactable_id by {}
            assert forall|t: int|
                0 <= t < room.interactables.len() implies (#[trigger] s1.rooms[a].interactables[
            t]).id == room.interactables[t].id by {}
            lemma_refs_ok_same_ids(room, s1.rooms[a]);
        }
    }
}

/// An item's location changes only through an explicit pickup (Room to
/// Inventory) or a successful USE that consumes it (Inventory to Room),
/// never on its own; its name and description never change at all.
pub proof fn lemma_location_changes_only_by_pickup_or_use(
    s: GameStateV,
    input: Seq<char>,
    t: int,
)
    requires
        s.wf(),
        words(input).len() > 0,
        0 <= t < s.inventory.len(),
    ensures
        ({
            let s1 = update_spec(s, input);
            &&& s1.inventory[t].name == s.inventory[t].name
            &&& s1.inventory[t].description == s.inventory[t].description
            &&& s1.inventory[t].location != s.inventory[t].location ==> (intent_of(
                words(input)[0],
            ) is INVENTORY && s.inventory[t].location is Room && s1.inventory[
                t].location is Inventory) || (intent_of(words(input)[0]) is USE && s.inventory[
                t].location is Inventory && s1.inventory[t].location is Room)
        }),
{
    let inp = turn_input(s, input);
    lemma_resolve_props(words(input), 1, s.inventory, s.rooms[s.current_room_idx].interactables);
    lemma_item_idx_bounds(s.inventory, inp.object_noun);
    lemma_inter_prereq_idx_bounds(s.rooms[s.current_room_idx].interactables, inp.object_noun);
}

/// Unlocking is one-way: an exit that is open never locks again.
pub proof fn lemma_locks_only_open(s: GameStateV, input: Seq<char>, a: int, e: int)
    requires
        s.wf(),
        words(input).len() > 0,
        0 <= a < s.rooms.len(),
        0 <= e < s.rooms[a].exits.len(),
        !s.rooms[a].exits[e].locked,
    ensures
        !update_spec(s, input).rooms[a].exits[e].locked,
{
    let inp = turn_input(s, input);
    let room = s.rooms[s.current_room_idx];
    lemma_resolve_props(words(input), 1, s.inventory, room.interactables);
    lemma_inter_name_idx_bounds(room.interactables, inp.object_noun);
    lemma_inter_prereq_idx_bounds(room.interactables, inp.object_noun);
    lemma_item_idx_bounds(s.inventory, inp.object_noun);
    let p = inter_prereq_idx(room.interactables, inp.object_noun);
    if p < room.interactables.len() {
        lemma_exit_id_idx_bounds(room.exits, room.interactables[p].id);
    }
}

} // verus!
