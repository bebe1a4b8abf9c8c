//! The items a location or an inventory holds, kept as one flag per item of
//! the item collection (flag `j` stands for item `ITEM_INDEX_START + j`).
use vstd::prelude::*;

use crate::constants;
use crate::data_collection::ItemId;
use crate::item::{Item, chain_contains, chain_gives, chain_size, has_bits, item_gives, item_index, valid_item_id, within_of};
use crate::item_collection::ItemCollection;

verus! {

/// The id of the item at position `j`.
pub open spec fn id_at(j: int) -> ItemId {
    (j + constants::ITEM_INDEX_START) as u32
}

/// Whether the flags `s` hold item `x`.
pub open spec fn in_set(s: Seq<bool>, x: ItemId) -> bool {
    constants::ITEM_INDEX_START <= x && item_index(x) < s.len() && s[item_index(x)]
}

/// The flags `s` with item `x` set to `b`.
pub open spec fn set_flag(s: Seq<bool>, x: ItemId, b: bool) -> Seq<bool> {
    if constants::ITEM_INDEX_START <= x && item_index(x) < s.len() { s.update(item_index(x), b) } else { s }
}

/// The item `x` of `items`, retired.
pub open spec fn retire_in(items: Seq<Item>, x: ItemId) -> Seq<Item> {
    if valid_item_id(items, x) {
        items.update(item_index(x), Item { location: constants::LOCATION_ID_GRAVEYARD, ..items[item_index(x)] })
    } else {
        items
    }
}

/// The item `x` of `items`, moved to place `loc`.
pub open spec fn relocate(items: Seq<Item>, x: ItemId, loc: u32) -> Seq<Item> {
    if valid_item_id(items, x) {
        items.update(item_index(x), Item { location: loc, ..items[item_index(x)] })
    } else {
        items
    }
}

pub open spec fn is_liquid(items: Seq<Item>, x: ItemId) -> bool {
    valid_item_id(items, x) && has_bits(items[item_index(x)].properties, constants::CTRL_ITEM_LIQUID)
}

/// Takes `id` out of the chain of items held by `c`: the item holding it
/// lets go of it, and unless it is a liquid it is retired.
pub open spec fn chain_remove(items: Seq<Item>, c: ItemId, id: ItemId, fuel: nat) -> Seq<Item>
    decreases fuel,
{
    if fuel == 0 || !valid_item_id(items, c) {
        items
    } else {
        match items[item_index(c)].within {
            None => items,
            Some(w) => if w == id {
                let items2 = if !is_liquid(items, w) { retire_in(items, w) } else { items };
                items2.update(item_index(c), Item { within: None, ..items2[item_index(c)] })
            } else {
                chain_remove(items, w, id, (fuel - 1) as nat)
            },
        }
    }
}

/// Whether the item `x` is `id` or holds it.
pub open spec fn is_or_holds(items: Seq<Item>, x: ItemId, id: ItemId) -> bool {
    valid_item_id(items, x) && (items[item_index(x)].id == id
        || chain_contains(items, items[item_index(x)].within, id, items.len()))
}

/// Whether the item `x` holds `id`.
pub open spec fn holds(items: Seq<Item>, x: ItemId, id: ItemId) -> bool {
    valid_item_id(items, x) && chain_contains(items, items[item_index(x)].within, id, items.len())
}

/// Whether some item of the flags `s` is or holds `id`.
pub open spec fn set_has(items: Seq<Item>, s: Seq<bool>, id: ItemId) -> bool {
    exists|j: int| 0 <= j < s.len() && s[j] && #[trigger] is_or_holds(items, id_at(j), id)
}

/// The first position at or after `from` whose flag is set and whose item holds `id`.
pub open spec fn first_holder(items: Seq<Item>, s: Seq<bool>, id: ItemId, from: int) -> Option<int>
    decreases s.len() - from,
{
    if from < 0 || from >= s.len() {
        None
    } else if s[from] && holds(items, id_at(from), id) {
        Some(from)
    } else {
        first_holder(items, s, id, from + 1)
    }
}

/// The first item of the flags `s`, at or after position `from`, that is an obstruction.
pub open spec fn first_obstruction(items: Seq<Item>, s: Seq<bool>, from: int) -> Option<ItemId>
    decreases s.len() - from,
{
    if from < 0 || from >= s.len() {
        None
    } else if s[from] && valid_item_id(items, id_at(from))
        && has_bits(items[from].properties, constants::CTRL_ITEM_OBSTRUCTION) {
        Some(id_at(from))
    } else {
        first_obstruction(items, s, from + 1)
    }
}

pub proof fn lemma_first_obstruction_valid(items: Seq<Item>, s: Seq<bool>, from: int)
    ensures
        first_obstruction(items, s, from) matches Some(x) ==> valid_item_id(items, x),
    decreases s.len() - from,
{
    if 0 <= from < s.len() {
        lemma_first_obstruction_valid(items, s, from + 1);
    }
}

/// Whether the item `x` (or one it holds) gives `code`.
pub open spec fn gives(items: Seq<Item>, x: ItemId, code: u32, on_optional: bool) -> bool {
    valid_item_id(items, x) && (item_gives(items[item_index(x)], code, on_optional)
        || chain_gives(items, items[item_index(x)].within, code, on_optional, items.len()))
}

/// Whether some item of the flags `s` gives `code`; when `skip_worn`, worn items do not count.
pub open spec fn set_gives(items: Seq<Item>, s: Seq<bool>, code: u32, on_optional: bool, skip_worn: bool) -> bool {
    exists|j: int| 0 <= j < s.len() && s[j] && #[trigger] gives(items, id_at(j), code, on_optional)
        && !(skip_worn && has_bits(items[j].properties, constants::CTRL_ITEM_WEARABLE))
}

/// The size of item `x` together with everything it holds.
pub open spec fn full_size(items: Seq<Item>, x: ItemId) -> nat {
    if valid_item_id(items, x) {
        items[item_index(x)].size as nat + chain_size(items, items[item_index(x)].within, items.len())
    } else {
        0
    }
}

/// The combined size of the first `n` flagged items.
pub open spec fn set_size(items: Seq<Item>, s: Seq<bool>, n: int) -> nat
    decreases n,
{
    if n <= 0 {
        0
    } else {
        set_size(items, s, n - 1) + (if s[n - 1] { full_size(items, id_at(n - 1)) } else { 0 })
    }
}

pub proof fn lemma_chain_size_bound(items: Seq<Item>, cur: Option<ItemId>, fuel: nat)
    ensures
        chain_size(items, cur, fuel) <= fuel * (u32::MAX as nat),
    decreases fuel,
{
    if fuel > 0 {
        if let Some(c) = cur {
            lemma_chain_size_bound(items, within_of(items, c), (fuel - 1) as nat);
            assert(fuel * (u32::MAX as nat) == (fuel - 1) * (u32::MAX as nat) + u32::MAX) by (nonlinear_arith)
                requires fuel >= 1;
        }
    }
}

pub proof fn lemma_set_size_bound(items: Seq<Item>, s: Seq<bool>, n: int)
    requires
        0 <= n,
    ensures
        set_size(items, s, n) <= n * (items.len() + 1) * (u32::MAX as nat),
    decreases n,
{
    if n > 0 {
        lemma_set_size_bound(items, s, n - 1);
        let x = id_at(n - 1);
        if valid_item_id(items, x) {
            lemma_chain_size_bound(items, items[item_index(x)].within, items.len());
        }
        let k = (items.len() + 1) * (u32::MAX as nat);
        assert(u32::MAX + items.len() * (u32::MAX as nat) == k) by (nonlinear_arith)
            requires k == (items.len() + 1) * (u32::MAX as nat);
        assert(n * (items.len() + 1) * (u32::MAX as nat) == (n - 1) * (items.len() + 1) * (u32::MAX as nat) + k) by (nonlinear_arith)
            requires n >= 1, k == (items.len() + 1) * (u32::MAX as nat);
    }
}

/// Taking `id` out of a chain that does not hold it changes nothing.
pub proof fn lemma_chain_remove_absent(items: Seq<Item>, c: ItemId, id: ItemId, fuel: nat)
    requires
        !chain_contains(items, within_of(items, c), id, fuel),
    ensures
        chain_remove(items, c, id, fuel) == items,
    decreases fuel,
{
    if fuel > 0 && valid_item_id(items, c) {
        if let Some(w) = items[item_index(c)].within {
            if w != id {
                if fuel > 1 {
                    lemma_chain_remove_absent(items, w, id, (fuel - 1) as nat);
                } else {
                    assert(chain_remove(items, w, id, 0) == items);
                }
            }
        }
    }
}

/// The first holder of `id` found, if any, is or holds it.
pub proof fn lemma_first_holder_holds(items: Seq<Item>, s: Seq<bool>, id: ItemId, from: int)
    requires
        0 <= from,
    ensures
        first_holder(items, s, id, from) matches Some(j) ==> from <= j < s.len() && s[j] && holds(items, id_at(j), id),
    decreases s.len() - from,
{
    if from < s.len() && !(s[from] && holds(items, id_at(from), id)) {
        lemma_first_holder_holds(items, s, id, from + 1);
    }
}

/// Whether some item of the flags `s` is or holds `id`.
pub fn set_has_exec(items: &ItemCollection, s: &Vec<bool>, id: ItemId) -> (res: bool)
    requires
        s@.len() <= items@.len(),
        items@.len() + constants::ITEM_INDEX_START <= u32::MAX,
    ensures
        res == set_has(items@, s@, id),
{
    let mut i: usize = 0;
    while i < s.len()
        invariant
            i <= s@.len() <= items@.len(),
            items@.len() + constants::ITEM_INDEX_START <= u32::MAX,
            forall|j: int| 0 <= j < i ==> !(s@[j] && #[trigger] is_or_holds(items@, id_at(j), id)),
        decreases s.len() - i,
    {
        if s[i] {
            let it = &items.items[i];
            assert(item_index(id_at(i as int)) == i);
            if it.is_or_contains_item(items, id) {
                assert(is_or_holds(items@, id_at(i as int), id));
                return true;
            }
        }
        i = i + 1;
    }
    false
}

/// The first position of the flags `s` whose item holds `id`.
pub fn first_holder_exec(items: &ItemCollection, s: &Vec<bool>, id: ItemId) -> (res: Option<usize>)
    requires
        s@.len() <= items@.len(),
        items@.len() + constants::ITEM_INDEX_START <= u32::MAX,
    ensures
        res matches Some(r) ==> Some(r as int) == first_holder(items@, s@, id, 0) && r < s@.len(),
        res is None ==> first_holder(items@, s@, id, 0) is None,
{
    let mut i: usize = 0;
    while i < s.len()
        invariant
            i <= s@.len() <= items@.len(),
            items@.len() + constants::ITEM_INDEX_START <= u32::MAX,
            first_holder(items@, s@, id, i as int) == first_holder(items@, s@, id, 0),
        decreases s.len() - i,
    {
        if s[i] {
            assert(item_index(id_at(i as int)) == i);
            if items.items[i].contains_item(items, id) {
                return Some(i);
            }
        }
        i = i + 1;
    }
    None
}

/// The first item of the flags `s` that is an obstruction.
pub fn first_obstruction_exec(items: &ItemCollection, s: &Vec<bool>) -> (res: Option<ItemId>)
    requires
        s@.len() <= items@.len(),
        items@.len() + constants::ITEM_INDEX_START <= u32::MAX,
    ensures
        res == first_obstruction(items@, s@, 0),
{
    let mut i: usize = 0;
    while i < s.len()
        invariant
            i <= s@.len() <= items@.len(),
            items@.len() + constants::ITEM_INDEX_START <= u32::MAX,
            first_obstruction(items@, s@, i as int) == first_obstruction(items@, s@, 0),
        decreases s.len() - i,
    {
        assert(item_index(id_at(i as int)) == i);
        if s[i] && items.items[i].has_property(constants::CTRL_ITEM_OBSTRUCTION) {
            return Some((i as u32) + constants::ITEM_INDEX_START);
        }
        i = i + 1;
    }
    None
}

/// Whether some item of the flags `s` gives `code`; when `skip_worn`, worn items do not count.
pub fn set_gives_exec(items: &ItemCollection, s: &Vec<bool>, code: u32, on_optional: bool, skip_worn: bool) -> (res: bool)
    requires
        s@.len() <= items@.len(),
        items@.len() + constants::ITEM_INDEX_START <= u32::MAX,
    ensures
        res == set_gives(items@, s@, code, on_optional, skip_worn),
{
    let mut i: usize = 0;
    while i < s.len()
        invariant
            i <= s@.len() <= items@.len(),
            items@.len() + constants::ITEM_INDEX_START <= u32::MAX,
            forall|j: int| 0 <= j < i ==> !(s@[j] && #[trigger] gives(items@, id_at(j), code, on_optional)
                && !(skip_worn && has_bits(items@[j].properties, constants::CTRL_ITEM_WEARABLE))),
        decreases s.len() - i,
    {
        assert(item_index(id_at(i as int)) == i);
        if s[i] {
            let it = &items.items[i];
            if it.has_or_contains_with_property(items, code, on_optional)
                && !(skip_worn && it.has_property(constants::CTRL_ITEM_WEARABLE)) {
                assert(gives(items@, id_at(i as int), code, on_optional));
                return true;
            }
        }
        i = i + 1;
    }
    false
}

/// The combined size of the flagged items.
pub fn set_size_exec(items: &ItemCollection, s: &Vec<bool>) -> (res: u64)
    requires
        s@.len() <= items@.len() < 0x1000,
    ensures
        res == set_size(items@, s@, s@.len() as int),
{
    let mut total: u64 = 0;
    let mut i: usize = 0;
    while i < s.len()
        invariant
            i <= s@.len() <= items@.len() < 0x1000,
            total == set_size(items@, s@, i as int),
        decreases s.len() - i,
    {
        proof {
            lemma_set_size_bound(items@, s@, i + 1);
            assert((i + 1) * (items@.len() + 1) * (u32::MAX as nat) <= 0x1000 * 0x1001 * (u32::MAX as nat)) by (nonlinear_arith)
                requires i + 1 <= 0x1000, items@.len() + 1 <= 0x1001;
        }
        assert(item_index(id_at(i as int)) == i);
        if s[i] {
            let add = items.items[i].get_size(items);
            total = total + add;
        }
        i = i + 1;
    }
    total
}

} // verus!
