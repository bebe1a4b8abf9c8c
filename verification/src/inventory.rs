//! Inventories: what the player carries (there is one per world the player visits).
use vstd::prelude::*;

use crate::constants;
use crate::data_collection::{InventoryId, ItemId, ItemProperties, LocationId};
use crate::item::{Item, has_bits, item_index, valid_item_id};
use crate::item_collection::ItemCollection;
use crate::item_list::{chain_remove, first_holder, first_holder_exec, full_size, id_at, in_set, is_liquid, relocate,
    retire_in, set_flag, set_gives, set_gives_exec, set_has, set_has_exec, set_size, set_size_exec};
use crate::location::LocationV;
use crate::location_collection::LocationCollection;

verus! {

pub struct InventoryV {
    pub id: InventoryId,
    pub capacity: u32,
    pub items: Seq<bool>,
}

/// The effect of taking item `id` out of an inventory holding the flags `s`:
/// an item carried directly is dropped from the inventory and, unless it is a
/// liquid, retired; an item held in something carried is let go of by its holder.
pub open spec fn inventory_remove(items: Seq<Item>, s: Seq<bool>, id: ItemId) -> (Seq<Item>, Seq<bool>) {
    if in_set(s, id) {
        (if !is_liquid(items, id) { retire_in(items, id) } else { items }, set_flag(s, id, false))
    } else {
        match first_holder(items, s, id, 0) {
            Some(j) => (chain_remove(items, id_at(j), id, items.len()), s),
            None => (items, s),
        }
    }
}

pub open spec fn is_essential(items: Seq<Item>, j: int) -> bool {
    has_bits(items[j].properties, constants::CTRL_ITEM_ESSENTIAL)
}

/// The items after the first `n` flagged ones of `s` are dropped on death:
/// essential ones go to `safe`, the others to `current`.
pub open spec fn dropped_items(items: Seq<Item>, s: Seq<bool>, current: LocationId, safe: LocationId, n: int) -> Seq<Item>
    decreases n,
{
    if n <= 0 {
        items
    } else {
        let prev = dropped_items(items, s, current, safe, n - 1);
        if s[n - 1] && n - 1 < items.len() {
            relocate(prev, id_at(n - 1), if is_essential(items, n - 1) { safe } else { current })
        } else {
            prev
        }
    }
}

/// The flags `f` of a location, with those of the first `n` flagged items of
/// `s` added whose essentialness is `essential` (all of them, if `None`).
pub open spec fn dropped_flags(items: Seq<Item>, s: Seq<bool>, f: Seq<bool>, essential: Option<bool>, n: int) -> Seq<bool>
    decreases n,
{
    if n <= 0 {
        f
    } else {
        let prev = dropped_flags(items, s, f, essential, n - 1);
        if s[n - 1] && n - 1 < items.len() && n - 1 < f.len()
            && (essential matches Some(e) ==> is_essential(items, n - 1) == e) {
            prev.update(n - 1, true)
        } else {
            prev
        }
    }
}

/// The locations after dropping the flagged items `s` on death.
pub open spec fn dropped_locations(items: Seq<Item>, s: Seq<bool>, locs: Seq<LocationV>, current: LocationId, safe: LocationId) -> Seq<LocationV> {
    let n = s.len() as int;
    if current == safe {
        locs.update(current as int, locs[current as int].with_items(
            dropped_flags(items, s, locs[current as int].items, None, n)))
    } else {
        let l1 = locs.update(safe as int, locs[safe as int].with_items(dropped_flags(items, s, locs[safe as int].items, Some(true), n)));
        l1.update(current as int, l1[current as int].with_items(dropped_flags(items, s, l1[current as int].items, Some(false), n)))
    }
}

pub struct Inventory {
    pub id: InventoryId,
    pub capacity: u32,
    pub items: Vec<bool>,
}

impl View for Inventory {
    type V = InventoryV;

    open spec fn view(&self) -> InventoryV {
        InventoryV { id: self.id, capacity: self.capacity, items: self.items@ }
    }
}

impl InventoryV {
    pub open spec fn with_items(self, items: Seq<bool>) -> InventoryV {
        InventoryV { items, ..self }
    }

    pub open spec fn is_empty(self) -> bool {
        forall|j: int| 0 <= j < self.items.len() ==> !self.items[j]
    }

    pub open spec fn spec_listing(self, items: Seq<Item>, n: int) -> Seq<char>
        decreases n,
    {
        if n <= 0 {
            Seq::empty()
        } else {
            self.spec_listing(items, n - 1) + (if self.items[n - 1] && n - 1 < items.len() {
                "\n\t"@ + items[n - 1].spec_inventoryname(items)
            } else {
                Seq::empty()
            })
        }
    }
}

impl Inventory {
    /// An empty inventory for `item_count` possible items.
    pub fn new(id: InventoryId, capacity: u32, item_count: usize) -> (res: Inventory)
        ensures
            res@ == (InventoryV { id, capacity, items: Seq::new(item_count as nat, |i: int| false) }),
    {
        let mut items: Vec<bool> = Vec::new();
        let mut k: usize = 0;
        while k < item_count
            invariant
                k <= item_count,
                items@ == Seq::new(k as nat, |j: int| false),
            decreases item_count - k,
        {
            items.push(false);
            assert(items@ =~= Seq::new((k + 1) as nat, |j: int| false));
            k = k + 1;
        }
        Inventory { id, capacity, items }
    }

    /// Whether something carried gives `property_code` (switched on, when `on_optional` is set).
    pub fn contains_with_property(&self, items: &ItemCollection, property_code: ItemProperties, on_optional: bool) -> (res: bool)
        requires
            self.items@.len() <= items@.len(),
            items@.len() + constants::ITEM_INDEX_START <= u32::MAX,
        ensures
            res == set_gives(items@, self.items@, property_code, on_optional, false),
    {
        set_gives_exec(items, &self.items, property_code, on_optional, false)
    }

    /// Whether something carried, and switched on, gives `property_code`.
    pub fn contains_with_switchable_property(&self, items: &ItemCollection, property_code: ItemProperties) -> (res: bool)
        requires
            self.items@.len() <= items@.len(),
            items@.len() + constants::ITEM_INDEX_START <= u32::MAX,
        ensures
            res == set_gives(items@, self.items@, property_code, true, false),
    {
        self.contains_with_property(items, property_code, true)
    }

    /// Whether item `id` is carried, directly or within something carried.
    pub fn contains_item(&self, items: &ItemCollection, id: ItemId) -> (res: bool)
        requires
            self.items@.len() <= items@.len(),
            items@.len() + constants::ITEM_INDEX_START <= u32::MAX,
        ensures
            res == set_has(items@, self.items@, id),
    {
        set_has_exec(items, &self.items, id)
    }

    pub fn insert_item(&mut self, items: &mut ItemCollection, id: ItemId)
        requires
            old(self).items@.len() == old(items)@.len(),
            valid_item_id(old(items)@, id),
        ensures
            final(self)@ == old(self)@.with_items(set_flag(old(self).items@, id, true)),
            final(items)@ == relocate(old(items)@, id, old(self).id),
            final(items).names == old(items).names,
    {
        let k = (id - constants::ITEM_INDEX_START) as usize;
        items.items[k].set_location(self.id);
        self.items.set(k, true);
    }

    /// Takes item `id`, which the inventory holds, out of it (see `inventory_remove`).
    pub fn remove_item_certain(&mut self, items: &mut ItemCollection, id: ItemId)
        requires
            old(self).items@.len() == old(items)@.len(),
            old(items)@.len() + constants::ITEM_INDEX_START <= u32::MAX,
            set_has(old(items)@, old(self).items@, id),
        ensures
            ({
                let (ni, ns) = inventory_remove(old(items)@, old(self).items@, id);
                &&& final(items)@ == ni
                &&& final(self)@ == old(self)@.with_items(ns)
            }),
            final(items).names == old(items).names,
    {
        let n = self.items.len();
        if id >= constants::ITEM_INDEX_START && ((id - constants::ITEM_INDEX_START) as usize) < n
            && self.items[(id - constants::ITEM_INDEX_START) as usize] {
            let k = (id - constants::ITEM_INDEX_START) as usize;
            self.items.set(k, false);
            if !items.items[k].has_property(constants::CTRL_ITEM_LIQUID) {
                items.items[k].retire();
                assert(items@ =~= retire_in(old(items)@, id));
            }
            return;
        }
        match first_holder_exec(items, &self.items, id) {
            Some(j) => {
                proof {
                    crate::item_list::lemma_first_holder_holds(items@, self.items@, id, 0);
                }
                crate::item::Item::remove_item_certain(items, (j as u32) + constants::ITEM_INDEX_START, id);
            },
            None => {},
        }
    }

    /// The combined size of everything carried.
    fn get_size(&self, items: &ItemCollection) -> (res: u64)
        requires
            self.items@.len() <= items@.len() < 0x1000,
        ensures
            res == set_size(items@, self.items@, self.items@.len() as int),
    {
        set_size_exec(items, &self.items)
    }

    /// Whether item `item` would fit in the inventory.
    pub fn can_fit(&self, items: &ItemCollection, item: ItemId) -> (res: bool)
        requires
            self.items@.len() <= items@.len() < 0x1000,
        ensures
            res == (full_size(items@, item) + set_size(items@, self.items@, self.items@.len() as int) <= self.capacity),
    {
        let own: u64 = match items.get_by_id(item) {
            None => 0,
            Some(it) => it.get_size(items),
        };
        let carried = self.get_size(items);
        proof {
            crate::item_list::lemma_set_size_bound(items@, self.items@, self.items@.len() as int);
            assert(self.items@.len() * (items@.len() + 1) * (u32::MAX as nat) <= 0x1000 * 0x1001 * (u32::MAX as nat)) by (nonlinear_arith)
                requires self.items@.len() <= 0x1000, items@.len() + 1 <= 0x1001;
            if valid_item_id(items@, item) {
                crate::item_list::lemma_chain_size_bound(items@, items@[item_index(item)].within, items@.len());
                assert(items@.len() * (u32::MAX as nat) <= 0x1000 * (u32::MAX as nat)) by (nonlinear_arith)
                    requires items@.len() <= 0x1000;
            }
        }
        own + carried <= self.capacity as u64
    }

    /// Empties the inventory on the player's death: essential items go to
    /// location `safe`, the others to location `current`.
    pub fn drop_on_death(&mut self, items: &mut ItemCollection, locations: &mut LocationCollection,
        current: LocationId, safe: LocationId)
        requires
            old(self).items@.len() == old(items)@.len(),
            old(items)@.len() + constants::ITEM_INDEX_START <= u32::MAX,
            current < old(locations)@.len(),
            safe < old(locations)@.len(),
            old(locations)@[current as int].items.len() == old(items)@.len(),
            old(locations)@[safe as int].items.len() == old(items)@.len(),
            old(locations)@[current as int].id == current,
            old(locations)@[safe as int].id == safe,
        ensures
            final(items)@ == dropped_items(old(items)@, old(self).items@, current, safe, old(self).items@.len() as int),
            final(locations)@ == dropped_locations(old(items)@, old(self).items@, old(locations)@, current, safe),
            final(self)@ == old(self)@.with_items(Seq::new(old(self).items@.len(), |j: int| false)),
            final(items).names == old(items).names,
    {
        let n = self.items.len();
        let ghost s = old(self).items@;
        let ghost items0 = old(items)@;
        let ghost locs0 = old(locations)@;
        let mut i: usize = 0;
        while i < n
            invariant
                n == s.len() == items0.len() == items@.len(),
                items@.len() + constants::ITEM_INDEX_START <= u32::MAX,
                self.items@.len() == n,
                self@.id == old(self)@.id,
                self@.capacity == old(self)@.capacity,
                i <= n,
                forall|j: int| 0 <= j < i ==> !self.items@[j],
                forall|j: int| i <= j < n ==> self.items@[j] == s[j],
                forall|j: int| 0 <= j < n ==> items@[j].properties == items0[j].properties,
                items.names == old(items).names,
                current < locs0.len(),
                safe < locs0.len(),
                locs0[current as int].items.len() == n,
                locs0[safe as int].items.len() == n,
                locs0[current as int].id == current,
                locs0[safe as int].id == safe,
                items@ == dropped_items(items0, s, current, safe, i as int),
                locations@.len() == locs0.len(),
                locations@[current as int].items.len() == n,
                locations@[safe as int].items.len() == n,
                locations@[current as int].id == current,
                locations@[safe as int].id == safe,
                current == safe ==> locations@ == locs0.update(current as int, locs0[current as int].with_items(
                    dropped_flags(items0, s, locs0[current as int].items, None, i as int))),
                current != safe ==> locations@ == locs0.update(safe as int, locs0[safe as int].with_items(
                    dropped_flags(items0, s, locs0[safe as int].items, Some(true), i as int))).update(current as int,
                    locs0[current as int].with_items(dropped_flags(items0, s, locs0[current as int].items, Some(false), i as int))),
            decreases n - i,
        {
            if self.items[i] {
                let id = (i as u32) + constants::ITEM_INDEX_START;
                assert(id == id_at(i as int));
                let essential = items.items[i].has_property(constants::CTRL_ITEM_ESSENTIAL);
                if essential {
                    locations.insert_item_at(safe, items, id);
                } else {
                    locations.insert_item_at(current, items, id);
                }
                self.items.set(i, false);
            }
            proof {
                let k = i + 1;
                lemma_dropped_flags_len(items0, s, locs0[current as int].items, Some(false), k);
                lemma_dropped_flags_len(items0, s, locs0[safe as int].items, Some(true), k);
                lemma_dropped_flags_len(items0, s, locs0[current as int].items, None, k);
            }
            i = i + 1;
        }
        assert(self.items@ =~= Seq::new(n as nat, |j: int| false));
    }

    /// A listing of the inventory: `inventory_empty` if nothing is carried,
    /// else `inventory_intro` followed by one line per item.
    pub fn mk_string(&self, items: &ItemCollection, inventory_empty: &str, inventory_intro: &str) -> (res: String)
        requires
            self.items@.len() <= items@.len(),
            items@.len() + constants::ITEM_INDEX_START <= u32::MAX,
        ensures
            res@ == (if self@.is_empty() { inventory_empty@ } else { inventory_intro@ + self@.spec_listing(items@, self.items@.len() as int) }),
    {
        let mut any = false;
        let mut result = inventory_intro.to_owned();
        let mut i: usize = 0;
        while i < self.items.len()
            invariant
                i <= self.items@.len() <= items@.len(),
                items@.len() + constants::ITEM_INDEX_START <= u32::MAX,
                result@ == inventory_intro@ + self@.spec_listing(items@, i as int),
                any == exists|j: int| 0 <= j < i && self.items@[j],
            decreases self.items.len() - i,
        {
            if self.items[i] {
                result.append("\n\t");
                let name = items.items[i].get_inventoryname(items);
                result.append(name.as_str());
                any = true;
            }
            i = i + 1;
        }
        if !any {
            return inventory_empty.to_owned();
        }
        result
    }
}

pub proof fn lemma_dropped_flags_len(items: Seq<Item>, s: Seq<bool>, f: Seq<bool>, essential: Option<bool>, n: int)
    ensures
        dropped_flags(items, s, f, essential, n).len() == f.len(),
    decreases n,
{
    if n > 0 {
        lemma_dropped_flags_len(items, s, f, essential, n - 1);
    }
}

} // verus!
