//! The state-machine core: the input classifier, the full mathematical
//! specification [`update_spec`] of one turn, and the executable
//! transition function [`update`] proved against it.

use vstd::prelude::*;
use crate::model::{Exit, ExitV, GameState, GameStateV, Interactable, InteractableV, Item, ItemState,
    ItemV, Room, RoomV};
use crate::model::examine_desc;
use crate::text::{lemma_words_nonempty, lower, lowercase, split_words, str_eq, words};
use crate::vocab::{dir_of, intent_of, is_direction, is_legal_command, is_legal_verb,
    text_to_direction, determine_intent, Direction, Intent};

verus! {

/// The classifier's result: the single disambiguated object noun of the
/// turn (empty when no word matched any namespace) and the namespace that
/// won.  The literal word "inventory" matches without setting any flag.
#[verifier::ext_equal]
pub ghost struct InputV {
    pub is_direction: bool,
    pub is_interactable: bool,
    pub is_item: bool,
    pub object_noun: Seq<char>,
}

/// The index of the first item named `w` in the inventory, scanning from
/// position `i`; the inventory's length when there is none.
pub open spec fn item_idx_from(inv: Seq<ItemV>, w: Seq<char>, i: int) -> int
    decreases inv.len() - i,
{
    if i < 0 || i >= inv.len() {
        inv.len() as int
    } else if inv[i].name == w {
        i
    } else {
        item_idx_from(inv, w, i + 1)
    }
}

/// The index of the first item named `w`, or the inventory's length.
pub open spec fn item_idx(inv: Seq<ItemV>, w: Seq<char>) -> int {
    item_idx_from(inv, w, 0)
}

/// The index of the first interactable named `w`, scanning from `i`.
pub open spec fn inter_name_idx_from(xs: Seq<InteractableV>, w: Seq<char>, i: int) -> int
    decreases xs.len() - i,
{
    if i < 0 || i >= xs.len() {
        xs.len() as int
    } else if xs[i].name == w {
        i
    } else {
        inter_name_idx_from(xs, w, i + 1)
    }
}

/// The index of the first interactable named `w`, or the length.
pub open spec fn inter_name_idx(xs: Seq<InteractableV>, w: Seq<char>) -> int {
    inter_name_idx_from(xs, w, 0)
}

/// The index of the first interactable whose prerequisite item is `w`,
/// scanning from `i`.
pub open spec fn inter_prereq_idx_from(xs: Seq<InteractableV>, w: Seq<char>, i: int) -> int
    decreases xs.len() - i,
{
    if i < 0 || i >= xs.len() {
        xs.len() as int
    } else if xs[i].prerequisite_item == w {
        i
    } else {
        inter_prereq_idx_from(xs, w, i + 1)
    }
}

/// The index of the first interactable whose prerequisite item is `w`.
pub open spec fn inter_prereq_idx(xs: Seq<InteractableV>, w: Seq<char>) -> int {
    inter_prereq_idx_from(xs, w, 0)
}

/// The index of the first exit leaving in direction `d`, scanning from `i`.
pub open spec fn exit_dir_idx_from(es: Seq<ExitV>, d: Direction, i: int) -> int
    decreases es.len() - i,
{
    if i < 0 || i >= es.len() {
        es.len() as int
    } else if es[i].direction == d {
        i
    } else {
        exit_dir_idx_from(es, d, i + 1)
    }
}

/// The index of the first exit leaving in direction `d`, or the length.
pub open spec fn exit_dir_idx(es: Seq<ExitV>, d: Direction) -> int {
    exit_dir_idx_from(es, d, 0)
}

/// The index of the first exit controlled by the interactable `id`,
/// scanning from `i`.
pub open spec fn exit_id_idx_from(es: Seq<ExitV>, id: Seq<char>, i: int) -> int
    decreases es.len() - i,
{
    if i < 0 || i >= es.len() {
        es.len() as int
    } else if es[i].interactable_id == id {
        i
    } else {
        exit_id_idx_from(es, id, i + 1)
    }
}

/// The index of the first exit controlled by the interactable `id`.
pub open spec fn exit_id_idx(es: Seq<ExitV>, id: Seq<char>) -> int {
    exit_id_idx_from(es, id, 0)
}

/// Object-noun resolution over the words after the verb, scanning from
/// word `i`: the first word (lowercased) that matches a namespace becomes
/// the object noun, in the fixed priority order literal "inventory",
/// direction word, inventory item key, interactable name of the current
/// room.  Later words are ignored.
pub open spec fn resolve_from(
    toks: Seq<Seq<char>>,
    i: int,
    inv: Seq<ItemV>,
    xs: Seq<InteractableV>,
) -> InputV
    decreases toks.len() - i,
{
    if i < 1 || i >= toks.len() {
        InputV { is_direction: false, is_interactable: false, is_item: false, object_noun: Seq::empty() }
    } else {
        let w = lower(toks[i]);
        if w == "inventory"@ {
            InputV { is_direction: false, is_interactable: false, is_item: false, object_noun: w }
        } else if dir_of(w) is Some {
            InputV { is_direction: true, is_interactable: false, is_item: false, object_noun: w }
        } else if item_idx(inv, w) < inv.len() {
            InputV { is_direction: false, is_interactable: false, is_item: true, object_noun: w }
        } else if inter_name_idx(xs, w) < xs.len() {
            InputV { is_direction: false, is_interactable: true, is_item: false, object_noun: w }
        } else {
            resolve_from(toks, i + 1, inv, xs)
        }
    }
}

/// The resolved input of a turn: word 0 is the verb, the object noun is
/// sought among the following words.
pub open spec fn resolve_input(toks: Seq<Seq<char>>, inv: Seq<ItemV>, xs: Seq<InteractableV>) -> InputV {
    resolve_from(toks, 1, inv, xs)
}

/// The same snapshot with only the system message replaced.
pub open spec fn with_message(s: GameStateV, m: Seq<char>) -> GameStateV {
    GameStateV { sys_message: m, ..s }
}

/// One "name: description" line per item, for the items among the first
/// `k` that are not lying in a room.
pub open spec fn inv_lines_upto(inv: Seq<ItemV>, k: int) -> Seq<char>
    decreases k,
{
    if k <= 0 || k > inv.len() {
        Seq::empty()
    } else if inv[k - 1].location is Room {
        inv_lines_upto(inv, k - 1)
    } else {
        inv_lines_upto(inv, k - 1) + inv[k - 1].name + ": "@ + inv[k - 1].description + "\n"@
    }
}

/// Whether any item is carried (not lying in a room).
pub open spec fn any_carried(inv: Seq<ItemV>) -> bool {
    exists|k: int| 0 <= k < inv.len() && !((#[trigger] inv[k]).location is Room)
}

/// The message LIST_INVENTORY produces: the carried items, one line each
/// in insertion order, or a fixed notice when none is carried.
pub open spec fn list_message(inv: Seq<ItemV>) -> Seq<char> {
    if any_carried(inv) {
        "Your inventory:\n"@ + inv_lines_upto(inv, inv.len() as int)
    } else {
        "You have no items in your inventory"@
    }
}

/// The new snapshot an EXAMINE turn produces.
pub open spec fn examine_spec(prev: GameStateV, inp: InputV, base: Seq<char>) -> GameStateV {
    let room = prev.rooms[prev.current_room_idx];
    if inp.is_interactable {
        with_message(
            prev,
            examine_desc(room.interactables[inter_name_idx(room.interactables, inp.object_noun)]),
        )
    } else if inp.is_item {
        with_message(prev, prev.inventory[item_idx(prev.inventory, inp.object_noun)].description)
    } else {
        with_message(prev, base)
    }
}

/// The new snapshot an INTERACT turn produces: a directly interactable
/// element (no prerequisite item) is marked interacted and announces its
/// interaction description; a use-gated one refuses.
pub open spec fn interact_spec(prev: GameStateV, inp: InputV, base: Seq<char>) -> GameStateV {
    let room = prev.rooms[prev.current_room_idx];
    if inp.is_interactable {
        let k = inter_name_idx(room.interactables, inp.object_noun);
        let x = room.interactables[k];
        if x.prerequisite_item.len() == 0 {
            GameStateV {
                sys_message: x.interaction_description,
                rooms: prev.rooms.update(
                    prev.current_room_idx,
                    RoomV {
                        interactables: room.interactables.update(
                            k,
                            InteractableV { interacted: true, ..x },
                        ),
                        ..room
                    },
                ),
                ..prev
            }
        } else {
            with_message(prev, "You currently can not interact with "@ + x.name)
        }
    } else {
        with_message(prev, base)
    }
}

/// The new snapshot a pickup (INVENTORY) turn produces: an item lying in
/// the room moves to the inventory exactly once; picking it up again only
/// reports that it is already held.
pub open spec fn pickup_spec(prev: GameStateV, inp: InputV, base: Seq<char>) -> GameStateV {
    if inp.is_item {
        let k = item_idx(prev.inventory, inp.object_noun);
        let it = prev.inventory[k];
        if it.location is Room {
            GameStateV {
                sys_message: "You have picked up a "@ + it.name,
                inventory: prev.inventory.update(k, ItemV { location: ItemState::Inventory, ..it }),
                ..prev
            }
        } else {
            with_message(prev, "You already have the "@ + it.name)
        }
    } else {
        with_message(prev, base)
    }
}

/// The new snapshot a MOVEMENT turn produces: through the first exit in
/// the named direction if it exists and is unlocked; otherwise the room
/// is unchanged and the failure is reported.
pub open spec fn movement_spec(prev: GameStateV, inp: InputV) -> GameStateV {
    let room = prev.rooms[prev.current_room_idx];
    if inp.is_direction {
        let d = dir_of(inp.object_noun)->0;
        let e = exit_dir_idx(room.exits, d);
        if e == room.exits.len() {
            with_message(prev, "There is no exit leaving "@ + inp.object_noun)
        } else if room.exits[e].locked {
            with_message(prev, "The way is locked. You must unlock the path before you proceed."@)
        } else {
            GameStateV {
                current_room_idx: room.exits[e].target,
                sys_message: prev.rooms[room.exits[e].target].description,
                ..prev
            }
        }
    } else {
        with_message(prev, "There is no path to the "@ + inp.object_noun)
    }
}

/// The new snapshot a USE turn produces.  A successful USE requires the
/// object noun to be an inventory item that is currently held and the
/// prerequisite of an interactable in the current room; it marks the
/// interactable interacted, unlocks the exit it controls (if any), and
/// consumes the item by dropping it back into the room.  The held-item
/// check comes before the room-membership check so that a player without
/// the item learns nothing about the room.
pub open spec fn use_spec(prev: GameStateV, inp: InputV) -> GameStateV {
    let room = prev.rooms[prev.current_room_idx];
    let k = item_idx(prev.inventory, inp.object_noun);
    let in_inv = k < prev.inventory.len() && prev.inventory[k].location is Inventory;
    let p = inter_prereq_idx(room.interactables, inp.object_noun);
    if inp.is_item && in_inv && p < room.interactables.len() {
        let x = room.interactables[p];
        if x.interacted {
            with_message(prev, x.prerequisite_item + " has already been used here"@)
        } else {
            let e = exit_id_idx(room.exits, x.id);
            let new_exits = if e < room.exits.len() {
                room.exits.update(e, ExitV { locked: false, ..room.exits[e] })
            } else {
                room.exits
            };
            GameStateV {
                sys_message: x.interaction_description,
                rooms: prev.rooms.update(
                    prev.current_room_idx,
                    RoomV {
                        exits: new_exits,
                        interactables: room.interactables.update(
                            p,
                            InteractableV { interacted: true, ..x },
                        ),
                        ..room
                    },
                ),
                inventory: prev.inventory.update(k, ItemV { location: ItemState::Room, ..prev.inventory[k] }),
                ..prev
            }
        }
    } else if !in_inv {
        with_message(prev, "You have no item of that name in your inventory"@)
    } else {
        with_message(prev, "You can not use `"@ + inp.object_noun + "` here"@)
    }
}

/// The full specification of one turn: what [`update`] returns for a
/// previous snapshot and an input line.  An illegal verb ends the turn at
/// once; otherwise the object noun is resolved and the intent dispatched.
/// When no word resolves, the message defaults to a generic notice, but
/// intent dispatch still proceeds and may overwrite it.
pub open spec fn update_spec(prev: GameStateV, input: Seq<char>) -> GameStateV {
    let toks = words(input);
    if toks.len() == 0 {
        prev
    } else {
        let verb = toks[0];
        if !is_legal_verb(verb) {
            with_message(prev, verb + " is not a legal command\n"@)
        } else {
            let room = prev.rooms[prev.current_room_idx];
            let inp = resolve_input(toks, prev.inventory, room.interactables);
            let base = if inp.object_noun.len() == 0 {
                "I was unable to understand your command.  Please re-enter and try again."@
            } else {
                prev.sys_message
            };
            match intent_of(verb) {
                Intent::EXAMINE => examine_spec(prev, inp, base),
                Intent::INTERACT => interact_spec(prev, inp, base),
                Intent::INVENTORY => pickup_spec(prev, inp, base),
                Intent::LIST_INVENTORY => with_message(prev, list_message(prev.inventory)),
                Intent::MOVEMENT => movement_spec(prev, inp),
                Intent::USE => use_spec(prev, inp),
                Intent::UNKNOWN => with_message(prev, "You didn't choose an appropriate command"@),
            }
        }
    }
}

// ---- bounds of the lookup functions ----------------------------------------

/// The item lookup scans forward: its result lies between the start
/// position and the inventory's length.
proof fn lemma_item_idx_from_bounds(inv: Seq<ItemV>, w: Seq<char>, i: int)
    requires
        0 <= i <= inv.len(),
    ensures
        i <= item_idx_from(inv, w, i) <= inv.len(),
    decreases inv.len() - i,
{
    if i < inv.len() {
        lemma_item_idx_from_bounds(inv, w, i + 1);
    }
}

/// The index of the first item with a given name is never negative and
/// never beyond the inventory's length.
pub proof fn lemma_item_idx_bounds(inv: Seq<ItemV>, w: Seq<char>)
    ensures
        0 <= item_idx(inv, w) <= inv.len(),
{
    lemma_item_idx_from_bounds(inv, w, 0);
}

/// The interactable-name lookup scans forward.
proof fn lemma_inter_name_idx_from_bounds(xs: Seq<InteractableV>, w: Seq<char>, i: int)
    requires
        0 <= i <= xs.len(),
    ensures
        i <= inter_name_idx_from(xs, w, i) <= xs.len(),
    decreases xs.len() - i,
{
    if i < xs.len() {
        lemma_inter_name_idx_from_bounds(xs, w, i + 1);
    }
}

/// The index of the first interactable with a given name is never
/// negative and never beyond the list's length.
pub proof fn lemma_inter_name_idx_bounds(xs: Seq<InteractableV>, w: Seq<char>)
    ensures
        0 <= inter_name_idx(xs, w) <= xs.len(),
{
    lemma_inter_name_idx_from_bounds(xs, w, 0);
}

/// The prerequisite lookup scans forward.
proof fn lemma_inter_prereq_idx_from_bounds(xs: Seq<InteractableV>, w: Seq<char>, i: int)
    requires
        0 <= i <= xs.len(),
    ensures
        i <= inter_prereq_idx_from(xs, w, i) <= xs.len(),
    decreases xs.len() - i,
{
    if i < xs.len() {
        lemma_inter_prereq_idx_from_bounds(xs, w, i + 1);
    }
}

/// The index of the first interactable with a given prerequisite item is
/// never negative and never beyond the list's length.
pub proof fn lemma_inter_prereq_idx_bounds(xs: Seq<InteractableV>, w: Seq<char>)
    ensures
        0 <= inter_prereq_idx(xs, w) <= xs.len(),
{
    lemma_inter_prereq_idx_from_bounds(xs, w, 0);
}

/// The exit-direction lookup scans forward.
proof fn lemma_exit_dir_idx_from_bounds(es: Seq<ExitV>, d: Direction, i: int)
    requires
        0 <= i <= es.len(),
    ensures
        i <= exit_dir_idx_from(es, d, i) <= es.len(),
    decreases es.len() - i,
{
    if i < es.len() {
        lemma_exit_dir_idx_from_bounds(es, d, i + 1);
    }
}

/// The index of the first exit in a given direction is never negative and
/// never beyond the list's length.
pub proof fn lemma_exit_dir_idx_bounds(es: Seq<ExitV>, d: Direction)
    ensures
        0 <= exit_dir_idx(es, d) <= es.len(),
{
    lemma_exit_dir_idx_from_bounds(es, d, 0);
}

/// The exit-id lookup scans forward.
proof fn lemma_exit_id_idx_from_bounds(es: Seq<ExitV>, id: Seq<char>, i: int)
    requires
        0 <= i <= es.len(),
    ensures
        i <= exit_id_idx_from(es, id, i) <= es.len(),
    decreases es.len() - i,
{
    if i < es.len() {
        lemma_exit_id_idx_from_bounds(es, id, i + 1);
    }
}

/// The index of the first exit controlled by a given interactable id is
/// never negative and never beyond the list's length.
pub proof fn lemma_exit_id_idx_bounds(es: Seq<ExitV>, id: Seq<char>)
    ensures
        0 <= exit_id_idx(es, id) <= es.len(),
{
    lemma_exit_id_idx_from_bounds(es, id, 0);
}

// ---- executable lookups --------------------------------------------------

/// Finds the first inventory item with the given name; returns the
/// inventory's length when there is none.
fn find_item_index(inv: &Vec<Item>, w: &str) -> (r: usize)
    ensures
        r as int == item_idx(inv.deep_view(), w@),
        r <= inv.len(),
        r < inv.len() ==> inv.deep_view()[r as int].name == w@,
{
    let ghost iv = inv.deep_view();
    let n: usize = inv.len();
    let mut j: usize = 0;
    while j < n
        invariant
            j <= n,
            n == inv.len(),
            iv == inv.deep_view(),
            iv.len() == n,
            item_idx(iv, w@) == item_idx_from(iv, w@, j as int),
        decreases n - j,
    {
        if str_eq(inv[j].name.as_str(), w) {
            return j;
        }
        j = j + 1;
    }
    n
}

/// Finds the first interactable with the given name; returns the list's
/// length when there is none.
fn find_inter_by_name(xs: &Vec<Interactable>, w: &str) -> (r: usize)
    ensures
        r as int == inter_name_idx(xs.deep_view(), w@),
        r <= xs.len(),
        r < xs.len() ==> xs.deep_view()[r as int].name == w@,
{
    let ghost xv = xs.deep_view();
    let n: usize = xs.len();
    let mut j: usize = 0;
    while j < n
        invariant
            j <= n,
            n == xs.len(),
            xv == xs.deep_view(),
            xv.len() == n,
            inter_name_idx(xv, w@) == inter_name_idx_from(xv, w@, j as int),
        decreases n - j,
    {
        if str_eq(xs[j].name.as_str(), w) {
            return j;
        }
        j = j + 1;
    }
    n
}

/// Finds the first interactable whose prerequisite item is the given
/// word; returns the list's length when there is none.
fn find_inter_by_prereq(xs: &Vec<Interactable>, w: &str) -> (r: usize)
    ensures
        r as int == inter_prereq_idx(xs.deep_view(), w@),
        r <= xs.len(),
        r < xs.len() ==> xs.deep_view()[r as int].prerequisite_item == w@,
{
    let ghost xv = xs.deep_view();
    let n: usize = xs.len();
    let mut j: usize = 0;
    while j < n
        invariant
            j <= n,
            n == xs.len(),
            xv == xs.deep_view(),
            xv.len() == n,
            inter_prereq_idx(xv, w@) == inter_prereq_idx_from(xv, w@, j as int),
        decreases n - j,
    {
        if str_eq(xs[j].prerequisite_item.as_str(), w) {
            return j;
        }
        j = j + 1;
    }
    n
}

/// Finds the first exit leaving in the given direction; returns the
/// list's length when there is none.
fn find_exit_by_dir(es: &Vec<Exit>, d: Direction) -> (r: usize)
    ensures
        r as int == exit_dir_idx(es.deep_view(), d),
        r <= es.len(),
        r < es.len() ==> es.deep_view()[r as int].direction == d,
{
    let ghost ev = es.deep_view();
    let n: usize = es.len();
    let mut j: usize = 0;
    while j < n
        invariant
            j <= n,
            n == es.len(),
            ev == es.deep_view(),
            ev.len() == n,
            exit_dir_idx(ev, d) == exit_dir_idx_from(ev, d, j as int),
        decreases n - j,
    {
        if es[j].direction == d {
            return j;
        }
        j = j + 1;
    }
    n
}

/// Finds the first exit controlled by the given interactable id; returns
/// the list's length when there is none.
fn find_exit_by_id(es: &Vec<Exit>, id: &str) -> (r: usize)
    ensures
        r as int == exit_id_idx(es.deep_view(), id@),
        r <= es.len(),
        r < es.len() ==> es.deep_view()[r as int].interactable_id == id@,
{
    let ghost ev = es.deep_view();
    let n: usize = es.len();
    let mut j: usize = 0;
    while j < n
        invariant
            j <= n,
            n == es.len(),
            ev == es.deep_view(),
            ev.len() == n,
            exit_id_idx(ev, id@) == exit_id_idx_from(ev, id@, j as int),
        decreases n - j,
    {
        if str_eq(es[j].interactable_id.as_str(), id) {
            return j;
        }
        j = j + 1;
    }
    n
}

// ---- the transition function ----------------------------------------------

/// A new string made of a fixed prefix followed by a word.
fn prefix_word(prefix: &str, word: &str) -> (r: String)
    ensures
        r@ == prefix@ + word@,
{
    let mut m = String::from_str(prefix);
    m.append(word);
    m
}

/// A new string made of a word followed by a fixed suffix.
fn word_suffix(word: &str, suffix: &str) -> (r: String)
    ensures
        r@ == word@ + suffix@,
{
    let mut m = String::from_str(word);
    m.append(suffix);
    m
}

/// One turn of the engine: consumes the previous snapshot and the raw
/// input line and produces the new snapshot, exactly as specified by
/// [`update_spec`].  The input line must contain at least one word (a
/// caller can establish that with [`crate::text::lemma_words_exist`]); all
/// failures are reported through the new snapshot's system message, never
/// by panicking.
pub fn update(prev_state: GameState, input: String) -> (r: GameState)
    requires
        prev_state@.wf(),
        words(input@).len() > 0,
    ensures
        r@ == update_spec(prev_state@, input@),
        r@.wf(),
{
    let ghost prev = prev_state@;
    let ghost toksv = words(input@);
    let mut state = prev_state;
    let toks = split_words(input.as_str());
    proof {
        assert(toks@[0]@ == toksv[0]);
    }
    if !is_legal_command(toks[0].as_str()) {
        let m = word_suffix(toks[0].as_str(), " is not a legal command\n");
        state.sys_message = m;
        proof {
            assert(state@ =~~= update_spec(prev, input@));
            crate::laws::lemma_update_preserves_wf(prev, input@);
        }
        return state;
    }
    let intent = determine_intent(toks[0].as_str());
    let ri = state.current_room_idx;
    let ghost iv = prev.inventory;
    let ghost xs = prev.rooms[prev.current_room_idx].interactables;
    proof {
        assert(state.rooms@[ri as int]@ == prev.rooms[prev.current_room_idx]);
    }

    let mut noun = String::new();
    let mut is_dir = false;
    let mut is_item = false;
    let mut is_inter = false;
    let mut j: usize = 1;
    proof {
        lemma_words_nonempty(input@);
    }
    while j < toks.len()
        invariant
            1 <= j,
            j <= toks@.len(),
            forall|k: int| 0 <= k < toksv.len() ==> (#[trigger] toksv[k]).len() > 0,
            state@ == prev,
            prev.wf(),
            ri == state.current_room_idx,
            toks.deep_view() == toksv,
            toksv == words(input@),
            iv == prev.inventory,
            xs == prev.rooms[prev.current_room_idx].interactables,
            noun@.len() == 0 ==> !is_dir && !is_item && !is_inter && resolve_input(toksv, iv, xs)
                == resolve_from(toksv, j as int, iv, xs),
            noun@.len() > 0 ==> resolve_input(toksv, iv, xs) == (InputV {
                is_direction: is_dir,
                is_interactable: is_inter,
                is_item: is_item,
                object_noun: noun@,
            }),
            is_dir ==> dir_of(noun@) is Some,
            is_item ==> item_idx(iv, noun@) < iv.len(),
            is_inter ==> inter_name_idx(xs, noun@) < xs.len(),
        decreases toks@.len() - j,
    {
        if noun.as_str().is_empty() {
            let w = lowercase(toks[j].as_str());
            proof {
                assert(toks@[j as int]@ == toksv[j as int]);
                assert(w@ == lower(toksv[j as int]));
                assert(state.rooms@[ri as int].interactables.deep_view() == xs);
                assert(state.inventory.deep_view() == iv);
            }
            if str_eq(w.as_str(), "inventory") {
                noun = w;
            } else if is_direction(w.as_str()) {
                noun = w;
                is_dir = true;
            } else {
                let ii = find_item_index(&state.inventory, w.as_str());
                if ii < state.inventory.len() {
                    noun = w;
                    is_item = true;
                } else {
                    let ni = find_inter_by_name(&state.rooms[ri].interactables, w.as_str());
                    if ni < state.rooms[ri].interactables.len() {
                        noun = w;
                        is_inter = true;
                    } else {
                        proof {
                            assert(resolve_from(toksv, j as int, iv, xs) == resolve_from(
                                toksv,
                                j as int + 1,
                                iv,
                                xs,
                            ));
                        }
                    }
                }
            }
        }
        j = j + 1;
    }

    let ghost inp = resolve_input(toksv, iv, xs);
    if noun.as_str().is_empty() {
        state.sys_message = String::from_str(
            "I was unable to understand your command.  Please re-enter and try again.",
        );
    }
    let ghost base = if inp.object_noun.len() == 0 {
        "I was unable to understand your command.  Please re-enter and try again."@
    } else {
        prev.sys_message
    };
    proof {
        assert(noun@ == inp.object_noun);
        assert(is_dir == inp.is_direction);
        assert(is_item == inp.is_item);
        assert(is_inter == inp.is_interactable);
        assert(state@ =~~= with_message(prev, base));
        assert(state.rooms.deep_view() == prev.rooms);
        assert(state.inventory.deep_view() == iv);
        assert(state.rooms@[ri as int].interactables.deep_view() == xs);
    }

    match intent {
        Intent::EXAMINE => {
            if is_inter {
                let k = find_inter_by_name(&state.rooms[ri].interactables, noun.as_str());
                state.sys_message = String::from_str(state.rooms[ri].interactables[k].examine());
            } else if is_item {
                let k = find_item_index(&state.inventory, noun.as_str());
                state.sys_message = String::from_str(state.inventory[k].get_description());
            }
            proof {
                assert(state@ =~~= examine_spec(prev, inp, base));
            }
        }
        Intent::INTERACT => {
            if is_inter {
                let k = find_inter_by_name(&state.rooms[ri].interactables, noun.as_str());
                if state.rooms[ri].interactables[k].prerequisite_item.as_str().is_empty() {
                    let m = String::from_str(
                        state.rooms[ri].interactables[k].interaction_description.as_str(),
                    );
                    state.rooms[ri].interactables[k].interacted = true;
                    state.sys_message = m;
                } else {
                    let m = prefix_word(
                        "You currently can not interact with ",
                        state.rooms[ri].interactables[k].name.as_str(),
                    );
                    state.sys_message = m;
                }
            }
            proof {
                assert(state@ =~~= interact_spec(prev, inp, base));
            }
        }
        Intent::INVENTORY => {
            if is_item {
                let k = find_item_index(&state.inventory, noun.as_str());
                if state.inventory[k].location == ItemState::Room {
                    state.inventory[k].location = ItemState::Inventory;
                    let m = prefix_word("You have picked up a ", state.inventory[k].name.as_str());
                    state.sys_message = m;
                } else {
                    let m = prefix_word("You already have the ", state.inventory[k].name.as_str());
                    state.sys_message = m;
                }
            }
            proof {
                assert(state@ =~~= pickup_spec(prev, inp, base));
            }
        }
        Intent::LIST_INVENTORY => {
            let mut m = String::from_str("Your inventory:\n");
            let mut any = false;
            let mut k: usize = 0;
            let n: usize = state.inventory.len();
            while k < n
                invariant
                    k <= n,
                    n == state.inventory.len(),
                    state.inventory.deep_view() == iv,
                    iv.len() == n,
                    m@ == "Your inventory:\n"@ + inv_lines_upto(iv, k as int),
                    any == exists|t: int| 0 <= t < k && !((#[trigger] iv[t]).location is Room),
                decreases n - k,
            {
                if !(state.inventory[k].location == ItemState::Room) {
                    m.append(state.inventory[k].name.as_str());
                    m.append(": ");
                    m.append(state.inventory[k].description.as_str());
                    m.append("\n");
                    any = true;
                    proof {
                        assert(m@ =~= "Your inventory:\n"@ + inv_lines_upto(iv, k as int + 1));
                    }
                } else {
                    proof {
                        assert(inv_lines_upto(iv, k as int + 1) == inv_lines_upto(iv, k as int));
                    }
                }
                k = k + 1;
            }
            if any {
                state.sys_message = m;
            } else {
                state.sys_message = String::from_str("You have no items in your inventory");
            }
            proof {
                assert(state@ =~~= with_message(prev, list_message(prev.inventory)));
            }
        }
        Intent::MOVEMENT => {
            if is_dir {
                let d = match text_to_direction(noun.as_str()) {
                    Some(d) => d,
                    None => {
                        proof {
                            assert(false);
                        }
                        Direction::N
                    },
                };
                let e = find_exit_by_dir(&state.rooms[ri].exits, d);
                proof {
                    assert(state.rooms@[ri as int].exits.deep_view() == prev.rooms[
                        prev.current_room_idx].exits);
                }
                if e == state.rooms[ri].exits.len() {
                    let m = prefix_word("There is no exit leaving ", noun.as_str());
                    state.sys_message = m;
                } else if state.rooms[ri].exits[e].is_locked() {
                    state.sys_message = String::from_str(
                        "The way is locked. You must unlock the path before you proceed.",
                    );
                } else {
                    let t = state.rooms[ri].exits[e].target;
                    state.current_room_idx = t;
                    state.sys_message = String::from_str(state.rooms[t].get_description());
                }
            } else {
                let m = prefix_word("There is no path to the ", noun.as_str());
                state.sys_message = m;
            }
            proof {
                assert(state@ =~~= movement_spec(prev, inp));
            }
        }
        Intent::USE => {
            let ki = find_item_index(&state.inventory, noun.as_str());
            let in_inv = ki < state.inventory.len() && state.inventory[ki].is_in_inventory();
            let p = find_inter_by_prereq(&state.rooms[ri].interactables, noun.as_str());
            if is_item && in_inv && p < state.rooms[ri].interactables.len() {
                if state.rooms[ri].interactables[p].is_interacted() {
                    let m = word_suffix(
                        state.rooms[ri].interactables[p].prerequisite_item.as_str(),
                        " has already been used here",
                    );
                    state.sys_message = m;
                } else {
                    let e = find_exit_by_id(
                        &state.rooms[ri].exits,
                        state.rooms[ri].interactables[p].id.as_str(),
                    );
                    if e < state.rooms[ri].exits.len() {
                        state.rooms[ri].exits[e].locked = false;
                    }
                    let m = String::from_str(
                        state.rooms[ri].interactables[p].interaction_description.as_str(),
                    );
                    state.rooms[ri].interactables[p].interacted = true;
                    state.inventory[ki].location = ItemState::Room;
                    state.sys_message = m;
                }
            } else if !in_inv {
                state.sys_message = String::from_str("You have no item of that name in your inventory");
            } else {
                let mut m = String::from_str("You can not use `");
                m.append(noun.as_str());
                m.append("` here");
                state.sys_message = m;
            }
            proof {
                assert(state@ =~~= use_spec(prev, inp));
            }
        }
        Intent::UNKNOWN => {
            state.sys_message = String::from_str("You didn't choose an appropriate command");
            proof {
                assert(state@ =~~= with_message(
                    prev,
                    "You didn't choose an appropriate command"@,
                ));
            }
        }
    }
    proof {
        assert(state@ =~~= update_spec(prev, input@));
        crate::laws::lemma_update_preserves_wf(prev, input@);
    }
    state
}

} // verus!
