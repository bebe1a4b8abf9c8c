//! Items: things that can be carried, worn, filled, fed, thrown or fought.
//!
//! An item may hold one other item (`within`); that one may hold another,
//! and so on.  Chains are followed through the item collection, by id, and
//! never for more steps than there are items.
use vstd::prelude::*;

use crate::constants;
use crate::data_collection::{Id, ItemId, ItemProperties, StringId};
use crate::item_collection::ItemCollection;
use crate::item_list::{chain_remove, relocate, retire_in};
use crate::text::{replace_param, subst};

verus! {

pub struct Item {
    pub id: ItemId,
    pub properties: ItemProperties,
    pub size: u32,
    pub shortname: String,
    pub longname: String,
    pub description: String,
    pub writing: Option<String>,
    /// A location id, an inventory id, or the id of the item holding this one.
    pub location: Id,
    pub on: bool,
    pub within: Option<ItemId>,
}

/// Whether `properties` holds any bit of `code`.
pub open spec fn has_bits(properties: u32, code: u32) -> bool {
    properties & code != 0
}

/// The position of item `id` in an item collection.
pub open spec fn item_index(id: ItemId) -> int {
    id - constants::ITEM_INDEX_START
}

/// Whether `id` names an item of `items`.
pub open spec fn valid_item_id(items: Seq<Item>, id: ItemId) -> bool {
    constants::ITEM_INDEX_START <= id && item_index(id) < items.len()
}

/// The item that item `id` holds, if any.
pub open spec fn within_of(items: Seq<Item>, id: ItemId) -> Option<ItemId> {
    if valid_item_id(items, id) {
        items[item_index(id)].within
    } else {
        None
    }
}

/// Whether `target` occurs on the chain of held items that starts at `cur`.
pub open spec fn chain_contains(items: Seq<Item>, cur: Option<ItemId>, target: ItemId, fuel: nat) -> bool
    decreases fuel,
{
    if fuel == 0 {
        false
    } else {
        match cur {
            None => false,
            Some(c) => c == target || chain_contains(items, within_of(items, c), target, (fuel - 1) as nat),
        }
    }
}

/// The total size of the items on the chain that starts at `cur`.
pub open spec fn chain_size(items: Seq<Item>, cur: Option<ItemId>, fuel: nat) -> nat
    decreases fuel,
{
    if fuel == 0 {
        0
    } else {
        match cur {
            None => 0,
            Some(c) => if valid_item_id(items, c) {
                items[item_index(c)].size as nat + chain_size(items, within_of(items, c), (fuel - 1) as nat)
            } else {
                0
            },
        }
    }
}

/// The number of treasures on the chain that starts at `cur`.
pub open spec fn chain_treasure(items: Seq<Item>, cur: Option<ItemId>, fuel: nat) -> nat
    decreases fuel,
{
    if fuel == 0 {
        0
    } else {
        match cur {
            None => 0,
            Some(c) => if valid_item_id(items, c) {
                (if has_bits(items[item_index(c)].properties, constants::CTRL_ITEM_TREASURE) { 1nat } else { 0nat })
                    + chain_treasure(items, within_of(items, c), (fuel - 1) as nat)
            } else {
                0
            },
        }
    }
}

/// Whether an item has `code` active: holding the property, and switched on when `on_optional` is set.
pub open spec fn item_gives(it: Item, code: u32, on_optional: bool) -> bool {
    (on_optional ==> it.on) && has_bits(it.properties, code)
}

/// Whether some item on the chain that starts at `cur` gives `code`.
pub open spec fn chain_gives(items: Seq<Item>, cur: Option<ItemId>, code: u32, on_optional: bool, fuel: nat) -> bool
    decreases fuel,
{
    if fuel == 0 {
        false
    } else {
        match cur {
            None => false,
            Some(c) => if valid_item_id(items, c) {
                item_gives(items[item_index(c)], code, on_optional)
                    || chain_gives(items, within_of(items, c), code, on_optional, (fuel - 1) as nat)
            } else {
                false
            },
        }
    }
}

pub open spec fn str_contains_short() -> Seq<char> { "containing "@ }
pub open spec fn tabs(n: nat) -> Seq<char> { Seq::new(n, |i: int| '\t') }

/// The short description of what item `it` holds, as in listings.
pub open spec fn within_short(items: Seq<Item>, it: Item, nest: bool, depth: nat, fuel: nat) -> Seq<char>
    decreases fuel,
{
    if !has_bits(it.properties, constants::CTRL_ITEM_CONTAINER) {
        Seq::empty()
    } else {
        match it.within {
            None => " (empty)"@,
            Some(c) => if fuel == 0 || !valid_item_id(items, c) {
                " (empty)"@
            } else {
                let contained = items[item_index(c)];
                let pre = if nest { "\n\t"@ + tabs(depth) + " "@ } else { " ("@ };
                let post = if nest { Seq::empty() } else { ")"@ };
                pre + str_contains_short() + contained.longname@
                    + within_short(items, contained, nest, depth + 1, (fuel - 1) as nat) + post
            },
        }
    }
}

impl Item {
    pub open spec fn has(self, code: u32) -> bool {
        has_bits(self.properties, code)
    }

    pub open spec fn switch_status(self) -> Seq<char> {
        if self.on { "on"@ } else { "off"@ }
    }

    pub open spec fn spec_inventoryname(self, items: Seq<Item>) -> Seq<char> {
        (if self.has(constants::CTRL_ITEM_WEARABLE) { "(wearing) "@ } else { Seq::empty() }) + self.longname@
            + (if self.has(constants::CTRL_ITEM_SWITCHABLE) { subst(" (currently $0)"@, self.switch_status()) } else { Seq::empty() })
            + within_short(items, self, true, 1, items.len())
    }

    pub open spec fn spec_locationname(self, items: Seq<Item>) -> Seq<char> {
        if self.has(constants::CTRL_ITEM_SILENT) {
            Seq::empty()
        } else {
            subst("\nThere is $0 here"@,
                self.longname@
                    + (if self.has(constants::CTRL_ITEM_SWITCHABLE) { subst(" (currently $0)"@, self.switch_status()) } else { Seq::empty() })
                    + within_short(items, self, false, 1, items.len()))
                + (if self.has(constants::CTRL_ITEM_OBSTRUCTION) || self.has(constants::CTRL_ITEM_TREASURE) { "!"@ } else { "."@ })
        }
    }

    pub open spec fn within_long(self, items: Seq<Item>) -> Seq<char> {
        match self.within {
            None => ". It is empty"@,
            Some(c) => if valid_item_id(items, c) {
                ". It contains "@ + items[item_index(c)].longname@
                    + within_short(items, items[item_index(c)], false, 1, items.len())
            } else {
                ". It is empty"@
            },
        }
    }

    pub open spec fn spec_full_string(self, items: Seq<Item>, wrapper: Seq<char>) -> Seq<char> {
        subst(wrapper, self.description@
            + (if self.has(constants::CTRL_ITEM_SWITCHABLE) { subst(". It is currently $0"@, self.switch_status()) } else { Seq::empty() })
            + (if self.has(constants::CTRL_ITEM_CONTAINER) { self.within_long(items) } else { Seq::empty() }))
    }

    /// The reason (a response id) why this item cannot accept `item` inside it, if any.
    pub open spec fn spec_problem_accepting(self, item: Item) -> Option<StringId> {
        if !self.has(constants::CTRL_ITEM_CONTAINER) {
            Some(constants::STR_ID_NOT_CONTAINER)
        } else if self.id == item.id {
            Some(constants::STR_ID_CONTAINER_INTO_SELF)
        } else if self.has(constants::CTRL_ITEM_CONTAINER_LIQUID) && !item.has(constants::CTRL_ITEM_LIQUID) {
            Some(constants::STR_ID_NOT_SOLID_CONTAINER)
        } else if !self.has(constants::CTRL_ITEM_CONTAINER_LIQUID) && item.has(constants::CTRL_ITEM_LIQUID) {
            Some(constants::STR_ID_NOT_LIQUID_CONTAINER)
        } else {
            match self.within {
                Some(w) => if w == item.id { Some(constants::STR_ID_ALREADY_CONTAINED) } else { Some(constants::STR_ID_CONTAINER_FULL) },
                None => if !(item.size < self.size) { Some(constants::STR_ID_NO_FIT) } else { None },
            }
        }
    }

    pub open spec fn spec_problem_emptying(self) -> Option<StringId> {
        if !self.has(constants::CTRL_ITEM_CONTAINER) { Some(constants::STR_ID_NOT_CONTAINER) } else { None }
    }

    pub open spec fn spec_problem_inserting(self) -> Option<StringId> {
        if self.has(constants::CTRL_ITEM_WEARABLE) {
            Some(constants::STR_ID_CANNOT_INSERT_WEARABLE)
        } else if !self.has(constants::CTRL_ITEM_MOBILE) {
            Some(constants::STR_ID_CANNOT_TAKE)
        } else {
            None
        }
    }

    pub fn new(id: ItemId, properties: ItemProperties, size: u32, shortname: String, longname: String,
        description: String, writing: Option<String>, location: Id) -> (res: Item)
        ensures
            res == (Item { id, properties, size, shortname, longname, description, writing, location, on: false, within: None }),
    {
        Item { id, properties, size, shortname, longname, description, writing, location, on: false, within: None }
    }

    pub fn is(&self, id: ItemId) -> (res: bool)
        ensures
            res == (id == self.id),
    {
        id == self.id
    }

    pub fn is_new(&self) -> (res: bool)
        ensures
            res == (self.location == constants::LOCATION_ID_NURSERY),
    {
        self.location == constants::LOCATION_ID_NURSERY
    }

    pub fn retire(&mut self)
        ensures
            *final(self) == (Item { location: constants::LOCATION_ID_GRAVEYARD, ..*old(self) }),
    {
        self.location = constants::LOCATION_ID_GRAVEYARD;
    }

    pub fn is_retired(&self) -> (res: bool)
        ensures
            res == (self.location == constants::LOCATION_ID_GRAVEYARD),
    {
        self.location == constants::LOCATION_ID_GRAVEYARD
    }

    /// Whether `id` is held inside this item, directly or further down.
    pub fn contains_item(&self, items: &ItemCollection, id: ItemId) -> (res: bool)
        ensures
            res == chain_contains(items@, self.within, id, items@.len()),
    {
        let mut cur = self.within;
        let mut fuel = items.items.len();
        while fuel > 0
            invariant
                fuel <= items@.len(),
                chain_contains(items@, cur, id, fuel as nat) == chain_contains(items@, self.within, id, items@.len()),
            decreases fuel,
        {
            match cur {
                None => {
                    return false;
                },
                Some(c) => {
                    if c == id {
                        return true;
                    }
                    cur = items.within_of(c);
                    fuel = fuel - 1;
                },
            }
        }
        false
    }

    pub fn is_or_contains_item(&self, items: &ItemCollection, id: ItemId) -> (res: bool)
        ensures
            res == (self.id == id || chain_contains(items@, self.within, id, items@.len())),
    {
        if self.id == id {
            return true;
        }
        self.contains_item(items, id)
    }

    pub fn get_location(&self) -> (res: Id)
        ensures
            res == self.location,
    {
        self.location
    }

    pub fn set_location(&mut self, loc: Id)
        ensures
            *final(self) == (Item { location: loc, ..*old(self) }),
    {
        self.location = loc;
    }

    pub fn has_property(&self, property_code: ItemProperties) -> (res: bool)
        ensures
            res == self.has(property_code),
    {
        self.properties & property_code != 0
    }

    /// Whether this item, or one held within it, gives `property_code`; when
    /// `on_optional` is set, the item giving it must be switched on.
    pub fn has_or_contains_with_property(&self, items: &ItemCollection, property_code: ItemProperties,
        on_optional: bool) -> (res: bool)
        ensures
            res == (item_gives(*self, property_code, on_optional)
                || chain_gives(items@, self.within, property_code, on_optional, items@.len())),
    {
        if (!on_optional || self.on) && self.has_property(property_code) {
            return true;
        }
        let mut cur = self.within;
        let mut fuel = items.items.len();
        while fuel > 0
            invariant
                fuel <= items@.len(),
                !item_gives(*self, property_code, on_optional),
                chain_gives(items@, cur, property_code, on_optional, fuel as nat)
                    == chain_gives(items@, self.within, property_code, on_optional, items@.len()),
            decreases fuel,
        {
            match cur {
                None => {
                    return false;
                },
                Some(c) => {
                    match items.get_by_id(c) {
                        None => {
                            return false;
                        },
                        Some(it) => {
                            if (!on_optional || it.on) && it.has_property(property_code) {
                                return true;
                            }
                            cur = it.within;
                        },
                    }
                    fuel = fuel - 1;
                },
            }
        }
        false
    }

    pub fn set_property(&mut self, property_code: ItemProperties, next: bool)
        ensures
            *final(self) == (Item {
                properties: if next { old(self).properties | property_code } else { old(self).properties & !property_code },
                ..*old(self)
            }),
    {
        if next {
            self.properties = self.properties | property_code;
        } else {
            self.properties = self.properties & !property_code;
        }
    }

    pub fn get_id(&self) -> (res: ItemId)
        ensures
            res == self.id,
    {
        self.id
    }

    pub fn get_shortname(&self) -> (res: &str)
        ensures
            res@ == self.shortname@,
    {
        self.shortname.as_str()
    }

    pub fn get_longname(&self) -> (res: &str)
        ensures
            res@ == self.longname@,
    {
        self.longname.as_str()
    }

    pub fn is_portable(&self) -> (res: bool)
        ensures
            res == (self.has(constants::CTRL_ITEM_MOBILE) && !self.has(constants::CTRL_ITEM_OBSTRUCTION)),
    {
        self.has_property(constants::CTRL_ITEM_MOBILE) && !self.has_property(constants::CTRL_ITEM_OBSTRUCTION)
    }

    /// The number of treasures this item is or holds.
    pub fn get_treasure_value(&self, items: &ItemCollection) -> (res: u32)
        requires
            items@.len() < u32::MAX,
        ensures
            res == (if self.has(constants::CTRL_ITEM_TREASURE) { 1nat } else { 0nat })
                + chain_treasure(items@, self.within, items@.len()),
    {
        let mut result: u32 = if self.has_property(constants::CTRL_ITEM_TREASURE) { 1 } else { 0 };
        let mut cur = self.within;
        let mut fuel = items.items.len();
        let ghost total = (if self.has(constants::CTRL_ITEM_TREASURE) { 1nat } else { 0nat })
            + chain_treasure(items@, self.within, items@.len());
        while fuel > 0
            invariant
                fuel <= items@.len() < u32::MAX,
                result + fuel <= items@.len() + 1,
                total == (if self.has(constants::CTRL_ITEM_TREASURE) { 1nat } else { 0nat })
                    + chain_treasure(items@, self.within, items@.len()),
                result + chain_treasure(items@, cur, fuel as nat) == total,
            decreases fuel,
        {
            proof {
                lemma_chain_treasure_bound(items@, cur, fuel as nat);
            }
            match cur {
                None => {
                    return result;
                },
                Some(c) => {
                    match items.get_by_id(c) {
                        None => {
                            return result;
                        },
                        Some(it) => {
                            if it.has_property(constants::CTRL_ITEM_TREASURE) {
                                result = result + 1;
                            }
                            cur = it.within;
                        },
                    }
                    fuel = fuel - 1;
                },
            }
        }
        result
    }

    pub fn can_fit(&self, item: &Item) -> (res: bool)
        ensures
            res == (item.size < self.size),
    {
        item.get_capacity() < self.size
    }

    /// Checks that this item is a container of the right kind, that it is not
    /// `item` itself, that it is empty and that `item` fits; returns the
    /// response id of the first problem found.
    pub fn has_problem_accepting(&self, item: &Item) -> (res: Option<StringId>)
        ensures
            res == self.spec_problem_accepting(*item),
    {
        if !self.has_property(constants::CTRL_ITEM_CONTAINER) {
            return Some(constants::STR_ID_NOT_CONTAINER);
        }
        if self.is(item.get_id()) {
            return Some(constants::STR_ID_CONTAINER_INTO_SELF);
        }
        if self.has_property(constants::CTRL_ITEM_CONTAINER_LIQUID) && !item.has_property(constants::CTRL_ITEM_LIQUID) {
            return Some(constants::STR_ID_NOT_SOLID_CONTAINER);
        }
        if !self.has_property(constants::CTRL_ITEM_CONTAINER_LIQUID) && item.has_property(constants::CTRL_ITEM_LIQUID) {
            return Some(constants::STR_ID_NOT_LIQUID_CONTAINER);
        }
        match self.within {
            Some(within) => {
                if within == item.get_id() {
                    return Some(constants::STR_ID_ALREADY_CONTAINED);
                } else {
                    return Some(constants::STR_ID_CONTAINER_FULL);
                }
            },
            None => {
                if !self.can_fit(item) {
                    return Some(constants::STR_ID_NO_FIT);
                }
            },
        }
        None
    }

    pub fn has_problem_emptying(&self, other: &Item) -> (res: Option<StringId>)
        ensures
            res == self.spec_problem_emptying(),
    {
        if !self.has_property(constants::CTRL_ITEM_CONTAINER) {
            return Some(constants::STR_ID_NOT_CONTAINER);
        }
        None
    }

    pub fn has_problem_inserting(&self, other: &Item) -> (res: Option<StringId>)
        ensures
            res == self.spec_problem_inserting(),
    {
        if self.has_property(constants::CTRL_ITEM_WEARABLE) {
            return Some(constants::STR_ID_CANNOT_INSERT_WEARABLE);
        }
        if !self.has_property(constants::CTRL_ITEM_MOBILE) {
            return Some(constants::STR_ID_CANNOT_TAKE);
        }
        None
    }

    fn get_description_ender(&self) -> (res: &'static str)
        ensures
            res@ == (if self.has(constants::CTRL_ITEM_OBSTRUCTION) || self.has(constants::CTRL_ITEM_TREASURE) { "!"@ } else { "."@ }),
    {
        if self.has_property(constants::CTRL_ITEM_OBSTRUCTION) || self.has_property(constants::CTRL_ITEM_TREASURE) {
            "!"
        } else {
            "."
        }
    }

    fn get_switch_status(&self) -> (res: &'static str)
        ensures
            res@ == self.switch_status(),
    {
        if self.on { "on" } else { "off" }
    }

    fn get_switch_status_short(&self) -> (res: String)
        ensures
            res@ == subst(" (currently $0)"@, self.switch_status()),
    {
        replace_param(" (currently $0)", self.get_switch_status())
    }

    fn get_switch_status_long(&self) -> (res: String)
        ensures
            res@ == subst(". It is currently $0"@, self.switch_status()),
    {
        replace_param(". It is currently $0", self.get_switch_status())
    }

    fn get_within_status_short(&self, items: &ItemCollection, nest: bool, depth: u32, fuel: usize) -> (res: String)
        requires
            depth + fuel <= u32::MAX,
        ensures
            res@ == within_short(items@, *self, nest, depth as nat, fuel as nat),
        decreases fuel,
    {
        if !self.has_property(constants::CTRL_ITEM_CONTAINER) {
            return String::new();
        }
        match self.within {
            None => " (empty)".to_owned(),
            Some(c) => {
                if fuel == 0 {
                    return " (empty)".to_owned();
                }
                match items.get_by_id(c) {
                    None => " (empty)".to_owned(),
                    Some(contained) => {
                        let mut result = String::new();
                        if nest {
                            result.append("\n\t");
                            let mut i: u32 = 0;
                            while i < depth
                                invariant
                                    i <= depth,
                                    result@ == "\n\t"@ + tabs(i as nat),
                                decreases depth - i,
                            {
                                result.append("\t");
                                proof {
                                    reveal_strlit("\t");
                                }
                                assert(tabs((i + 1) as nat) =~= tabs(i as nat) + "\t"@);
                                i = i + 1;
                            }
                            result.append(" ");
                        } else {
                            result.append(" (");
                        }
                        result.append("containing ");
                        result.append(contained.get_longname());
                        let inner = contained.get_within_status_short(items, nest, depth + 1, fuel - 1);
                        result.append(inner.as_str());
                        if !nest {
                            result.append(")");
                        }
                        result
                    },
                }
            },
        }
    }

    fn get_within_status_long(&self, items: &ItemCollection) -> (res: String)
        requires
            items@.len() < u32::MAX,
        ensures
            res@ == self.within_long(items@),
    {
        match self.within {
            None => ". It is empty".to_owned(),
            Some(c) => match items.get_by_id(c) {
                None => ". It is empty".to_owned(),
                Some(contained) => {
                    let mut result = ". It contains ".to_owned();
                    result.append(contained.get_longname());
                    let inner = contained.get_within_status_short(items, false, 1, items.items.len());
                    result.append(inner.as_str());
                    result
                },
            },
        }
    }

    /// The name of this item as it appears in an inventory listing.
    pub fn get_inventoryname(&self, items: &ItemCollection) -> (res: String)
        requires
            items@.len() < u32::MAX,
        ensures
            res@ == self.spec_inventoryname(items@),
    {
        let mut result = String::new();
        if self.has_property(constants::CTRL_ITEM_WEARABLE) {
            result.append("(wearing) ");
        }
        result.append(self.longname.as_str());
        if self.has_property(constants::CTRL_ITEM_SWITCHABLE) {
            let s = self.get_switch_status_short();
            result.append(s.as_str());
        }
        let w = self.get_within_status_short(items, true, 1, items.items.len());
        result.append(w.as_str());
        result
    }

    /// The name of this item as it appears in a location description.
    pub fn get_locationname(&self, items: &ItemCollection) -> (res: String)
        requires
            items@.len() < u32::MAX,
        ensures
            res@ == self.spec_locationname(items@),
    {
        if self.has_property(constants::CTRL_ITEM_SILENT) {
            return String::new();
        }
        let mut result = String::new();
        result.append(self.longname.as_str());
        if self.has_property(constants::CTRL_ITEM_SWITCHABLE) {
            let s = self.get_switch_status_short();
            result.append(s.as_str());
        }
        let w = self.get_within_status_short(items, false, 1, items.items.len());
        result.append(w.as_str());
        let mut framed = replace_param("\nThere is $0 here", result.as_str());
        framed.append(self.get_description_ender());
        framed
    }

    pub fn get_capacity(&self) -> (res: u32)
        ensures
            res == self.size,
    {
        self.size
    }

    /// The size of this item together with everything held within it.
    pub fn get_size(&self, items: &ItemCollection) -> (res: u64)
        requires
            items@.len() < u32::MAX,
        ensures
            res == self.size + chain_size(items@, self.within, items@.len()),
    {
        let mut result: u64 = self.size as u64;
        let mut cur = self.within;
        let mut fuel = items.items.len();
        let ghost total = self.size + chain_size(items@, self.within, items@.len());
        while fuel > 0
            invariant
                fuel <= items@.len() < u32::MAX,
                result <= (items@.len() + 1 - fuel) * (u32::MAX as int),
                total == self.size + chain_size(items@, self.within, items@.len()),
                result + chain_size(items@, cur, fuel as nat) == total,
            decreases fuel,
        {
            match cur {
                None => {
                    return result;
                },
                Some(c) => {
                    match items.get_by_id(c) {
                        None => {
                            return result;
                        },
                        Some(it) => {
                            proof {
                                assert((items@.len() + 1 - fuel) * (u32::MAX as int) + u32::MAX
                                    == (items@.len() + 1 - (fuel - 1)) * (u32::MAX as int)) by (nonlinear_arith);
                                assert((items@.len() + 1 - (fuel - 1)) * (u32::MAX as int)
                                    <= (u32::MAX as int) * (u32::MAX as int)) by (nonlinear_arith)
                                    requires fuel >= 1, items@.len() < u32::MAX;
                            }
                            result = result + it.size as u64;
                            cur = it.within;
                        },
                    }
                    fuel = fuel - 1;
                },
            }
        }
        result
    }

    pub fn is_on(&self) -> (res: bool)
        ensures
            res == self.on,
    {
        self.on
    }

    pub fn set_on(&mut self, next: bool)
        ensures
            *final(self) == (Item { on: next, ..*old(self) }),
    {
        self.on = next;
    }

    pub fn is_empty(&self) -> (res: bool)
        ensures
            res == (self.within is None),
    {
        match self.within {
            None => true,
            _ => false,
        }
    }

    /// Empties this item, returning the id of what it held.
    pub fn remove_within(&mut self) -> (res: Option<ItemId>)
        ensures
            res == old(self).within,
            *final(self) == (Item { within: None, ..*old(self) }),
    {
        let within = self.within;
        self.within = None;
        within
    }

    /// The full description of this item, framed by `description_wrapper`.
    pub fn mk_full_string(&self, items: &ItemCollection, description_wrapper: &str) -> (res: String)
        requires
            items@.len() < u32::MAX,
        ensures
            res@ == self.spec_full_string(items@, description_wrapper@),
    {
        let mut full = self.description.clone();
        if self.has_property(constants::CTRL_ITEM_SWITCHABLE) {
            let s = self.get_switch_status_long();
            full.append(s.as_str());
        }
        if self.has_property(constants::CTRL_ITEM_CONTAINER) {
            let w = self.get_within_status_long(items);
            full.append(w.as_str());
        }
        replace_param(description_wrapper, full.as_str())
    }

    /// What is written on this item, framed by `writing_wrapper`, or `no_writing`.
    pub fn mk_writing_string(&self, no_writing: &str, writing_wrapper: &str) -> (res: String)
        ensures
            res@ == (match self.writing {
                None => no_writing@,
                Some(w) => subst(writing_wrapper@, w@),
            }),
    {
        match &self.writing {
            None => no_writing.to_owned(),
            Some(writ) => replace_param(writing_wrapper, writ.as_str()),
        }
    }
}

/// Item `c` of `items` made to hold `within` (which, if any, moves into it).
pub open spec fn with_within(items: Seq<Item>, c: ItemId, within: Option<ItemId>) -> Seq<Item> {
    let items1 = match within {
        Some(x) => relocate(items, x, c),
        None => items,
    };
    if valid_item_id(items1, c) {
        items1.update(item_index(c), Item { within, ..items1[item_index(c)] })
    } else {
        items1
    }
}

impl Item {
    /// Takes `id` out of the chain of items held by `container`: the item
    /// holding it lets go of it and, unless it is a liquid, it is retired.
    pub fn remove_item_certain(items: &mut ItemCollection, container: ItemId, id: ItemId)
        requires
            chain_contains(old(items)@, within_of(old(items)@, container), id, old(items)@.len()),
        ensures
            final(items)@ == chain_remove(old(items)@, container, id, old(items)@.len()),
            final(items).names == old(items).names,
    {
        let mut c = container;
        let mut fuel = items.items.len();
        while fuel > 0
            invariant
                items.names == old(items).names,
                items@ == old(items)@,
                fuel <= items@.len(),
                chain_remove(old(items)@, c, id, fuel as nat) == chain_remove(old(items)@, container, id, old(items)@.len()),
            decreases fuel,
        {
            if !(c >= constants::ITEM_INDEX_START && ((c - constants::ITEM_INDEX_START) as usize) < items.items.len()) {
                return;
            }
            let k = (c - constants::ITEM_INDEX_START) as usize;
            match items.items[k].within {
                None => {
                    return;
                },
                Some(w) => {
                    if w == id {
                        let w_valid = w >= constants::ITEM_INDEX_START && ((w - constants::ITEM_INDEX_START) as usize) < items.items.len();
                        if w_valid {
                            let kw = (w - constants::ITEM_INDEX_START) as usize;
                            if !items.items[kw].has_property(constants::CTRL_ITEM_LIQUID) {
                                items.items[kw].retire();
                                assert(items@ =~= retire_in(old(items)@, w));
                            }
                        }
                        items.items[k].within = None;
                        return;
                    }
                    c = w;
                    fuel = fuel - 1;
                },
            }
        }
    }

    /// Makes item `container` hold `within`, which moves into it.
    pub fn set_within(items: &mut ItemCollection, container: ItemId, within: Option<ItemId>)
        ensures
            final(items)@ == with_within(old(items)@, container, within),
            final(items).names == old(items).names,
    {
        if let Some(x) = within {
            if x >= constants::ITEM_INDEX_START && ((x - constants::ITEM_INDEX_START) as usize) < items.items.len() {
                items.items[(x - constants::ITEM_INDEX_START) as usize].set_location(container);
            }
        }
        if container >= constants::ITEM_INDEX_START && ((container - constants::ITEM_INDEX_START) as usize) < items.items.len() {
            items.items[(container - constants::ITEM_INDEX_START) as usize].within = within;
        }
    }
}

pub proof fn lemma_chain_treasure_bound(items: Seq<Item>, cur: Option<ItemId>, fuel: nat)
    ensures
        chain_treasure(items, cur, fuel) <= fuel,
    decreases fuel,
{
    if fuel > 0 {
        if let Some(c) = cur {
            lemma_chain_treasure_bound(items, within_of(items, c), (fuel - 1) as nat);
        }
    }
}

} // verus!
