//! The game's data: commands, items, locations, inventories and texts, and
//! the operations that change the world.
use vstd::prelude::*;

use crate::command::Command;
use crate::command_collection::CommandCollection;
use crate::constants;
use crate::help_string_collection::HelpStringCollection;
use crate::info_string_collection::InfoStringCollection;
use crate::inventory::{Inventory, InventoryV, dropped_items, dropped_locations, inventory_remove};
use crate::item::{Item, has_bits, item_index, valid_item_id, with_within};
use crate::item_collection::{ItemCollection, name_lookup};
use crate::item_list::{chain_remove, id_at, relocate, retire_in, set_flag, set_has};
use crate::location::{DIRECTION_COUNT, Direction, Location, LocationV, dir_index, place_remove, with_direction};
use crate::location_collection::LocationCollection;
use crate::text::{ParseError, parse_u32, parse_u32_exec, replace_param, subst};

verus! {

pub type Id = u32;
pub type CommandId = Id;
pub type InventoryId = Id;
pub type ItemId = Id;
pub type LocationId = Id;
pub type StringId = Id;
pub type Properties = u32;
pub type CommandProperties = Properties;
pub type ItemProperties = Properties;
pub type LocationProperties = Properties;
/// For each location with a teleport, where it leads and which inventory the player then carries.
pub type TpMap = Vec<(LocationId, (LocationId, InventoryId))>;

/// Something the game tells the player.
#[derive(Clone, Debug)]
pub enum Msg {
    /// A response text.
    Response(StringId),
    /// A response text with its `$0` marker replaced.
    ResponseParam(StringId, String),
    /// The text announcing a solved puzzle.
    Puzzle(StringId),
    /// A text made up in full.
    Text(String),
}

/// What a message says, as text.
pub enum MsgV {
    Response(StringId),
    ResponseParam(StringId, Seq<char>),
    Puzzle(StringId),
    Text(Seq<char>),
}

impl View for Msg {
    type V = MsgV;

    open spec fn view(&self) -> MsgV {
        match self {
            Msg::Response(k) => MsgV::Response(*k),
            Msg::ResponseParam(k, p) => MsgV::ResponseParam(*k, p@),
            Msg::Puzzle(k) => MsgV::Puzzle(*k),
            Msg::Text(t) => MsgV::Text(t@),
        }
    }
}

/// The views of a list of messages.
pub open spec fn msgs_view(s: Seq<Msg>) -> Seq<MsgV> {
    s.map_values(|m: Msg| m@)
}

pub broadcast proof fn lemma_msgs_view_push(s: Seq<Msg>, m: Msg)
    ensures
        #[trigger] msgs_view(s.push(m)) == msgs_view(s).push(m@),
{
    assert(msgs_view(s.push(m)) =~= msgs_view(s).push(m@));
}

/// The changing part of the game: items, locations and inventories.
pub struct World {
    pub items: Seq<Item>,
    pub locations: Seq<LocationV>,
    pub inventories: Seq<InventoryV>,
}

pub open spec fn inv_index(k: InventoryId) -> int {
    k - constants::INVENTORY_ID_MAIN
}

pub open spec fn valid_inventory_id(k: InventoryId) -> bool {
    constants::INVENTORY_ID_MAIN <= k <= constants::INVENTORY_ID_DREAM
}

pub open spec fn valid_location_id(l: LocationId) -> bool {
    l < constants::EXPECTED_LOCATIONS
}

pub open spec fn valid_item(x: ItemId) -> bool {
    constants::ITEM_INDEX_START <= x < constants::ITEM_INDEX_START + constants::EXPECTED_ITEMS
}

impl World {
    pub open spec fn item(self, x: ItemId) -> Item {
        self.items[item_index(x)]
    }

    pub open spec fn loc(self, l: LocationId) -> LocationV {
        self.locations[l as int]
    }

    pub open spec fn inv(self, k: InventoryId) -> InventoryV {
        self.inventories[inv_index(k)]
    }

    pub open spec fn wf(self) -> bool {
        &&& self.items.len() == constants::EXPECTED_ITEMS
        &&& forall|i: int| #![trigger self.items[i]] 0 <= i < self.items.len() ==> self.items[i].id == id_at(i)
        &&& withins_valid(self.items)
        &&& self.locations.len() == constants::EXPECTED_LOCATIONS
        &&& forall|i: int| #![trigger self.locations[i]] 0 <= i < self.locations.len() ==> {
            &&& self.locations[i].id == i
            &&& self.locations[i].items.len() == constants::EXPECTED_ITEMS
            &&& self.locations[i].directions.len() == DIRECTION_COUNT
            &&& self.locations[i].description_suffix_index < self.locations[i].description_suffixes.len()
            &&& forall|d: int| 0 <= d < DIRECTION_COUNT ==> (#[trigger] self.locations[i].directions[d] matches Some(t)
                ==> valid_location_id(t))
        }
        &&& self.inventories.len() == 3
        &&& forall|k: int| #![trigger self.inventories[k]] 0 <= k < 3 ==> {
            &&& self.inventories[k].id == constants::INVENTORY_ID_MAIN + k
            &&& self.inventories[k].items.len() == constants::EXPECTED_ITEMS
        }
    }

    pub open spec fn with_items(self, items: Seq<Item>) -> World {
        World { items, ..self }
    }

    pub open spec fn with_loc(self, l: LocationId, v: LocationV) -> World {
        World { locations: self.locations.update(l as int, v), ..self }
    }

    /// Item `x` put at location `l`.
    pub open spec fn loc_insert(self, l: LocationId, x: ItemId) -> World {
        World {
            items: relocate(self.items, x, l),
            locations: self.locations.update(l as int, self.loc(l).with_items(set_flag(self.loc(l).items, x, true))),
            ..self
        }
    }

    /// Item `x` taken away from location `l`.
    pub open spec fn loc_remove(self, l: LocationId, x: ItemId) -> World {
        let (ni, ns) = place_remove(self.items, self.loc(l).items, x);
        World { items: ni, locations: self.locations.update(l as int, self.loc(l).with_items(ns)), ..self }
    }

    /// Item `x` put in inventory `k`.
    pub open spec fn inv_insert(self, k: InventoryId, x: ItemId) -> World {
        World {
            items: relocate(self.items, x, k),
            inventories: self.inventories.update(inv_index(k), self.inv(k).with_items(set_flag(self.inv(k).items, x, true))),
            ..self
        }
    }

    /// Item `x` taken out of inventory `k`.
    pub open spec fn inv_remove(self, k: InventoryId, x: ItemId) -> World {
        let (ni, ns) = inventory_remove(self.items, self.inv(k).items, x);
        World { items: ni, inventories: self.inventories.update(inv_index(k), self.inv(k).with_items(ns)), ..self }
    }

    /// Item `x` taken out of the chain of items held by `c`.
    pub open spec fn item_remove(self, c: ItemId, x: ItemId) -> World {
        self.with_items(chain_remove(self.items, c, x, self.items.len()))
    }

    pub open spec fn set_item(self, x: ItemId, it: Item) -> World {
        self.with_items(self.items.update(item_index(x), it))
    }

    pub open spec fn set_within(self, c: ItemId, w: Option<ItemId>) -> World {
        self.with_items(with_within(self.items, c, w))
    }

    pub open spec fn retire(self, x: ItemId) -> World {
        self.with_items(retire_in(self.items, x))
    }

    pub open spec fn set_location_of(self, x: ItemId, l: u32) -> World {
        self.with_items(relocate(self.items, x, l))
    }

    pub open spec fn set_on(self, x: ItemId, b: bool) -> World {
        self.set_item(x, Item { on: b, ..self.item(x) })
    }

    pub open spec fn set_item_property(self, x: ItemId, code: u32, b: bool) -> World {
        self.set_item(x, Item {
            properties: if b { self.item(x).properties | code } else { self.item(x).properties & !code },
            ..self.item(x)
        })
    }

    pub open spec fn set_loc_property(self, l: LocationId, code: u32, b: bool) -> World {
        self.with_loc(l, self.loc(l).with_properties(if b { self.loc(l).properties | code } else { self.loc(l).properties & !code }))
    }

    pub open spec fn set_direction(self, l: LocationId, d: Direction, next: Option<LocationId>) -> World {
        self.with_loc(l, self.loc(l).with_directions(with_direction(self.loc(l).directions, d, next)))
    }

    pub open spec fn set_visited(self, l: LocationId, b: bool) -> World {
        self.with_loc(l, self.loc(l).with_visited(b))
    }

    /// Inventory `k` emptied on death: essential items to `safe`, the rest to `current`.
    pub open spec fn drop_on_death(self, k: InventoryId, current: LocationId, safe: LocationId) -> World {
        let s = self.inv(k).items;
        World {
            items: dropped_items(self.items, s, current, safe, s.len() as int),
            locations: dropped_locations(self.items, s, self.locations, current, safe),
            inventories: self.inventories.update(inv_index(k), self.inv(k).with_items(Seq::new(s.len(), |j: int| false))),
        }
    }

    /// Whether location `l` holds item `x`, directly or within another item.
    pub open spec fn loc_has(self, l: LocationId, x: ItemId) -> bool {
        set_has(self.items, self.loc(l).items, x)
    }

    /// Whether inventory `k` holds item `x`, directly or within another item.
    pub open spec fn inv_has(self, k: InventoryId, x: ItemId) -> bool {
        set_has(self.items, self.inv(k).items, x)
    }

    pub open spec fn item_has(self, x: ItemId, code: u32) -> bool {
        has_bits(self.item(x).properties, code)
    }
}

pub struct DataCollection {
    pub commands: CommandCollection,
    pub items: ItemCollection,
    pub locations: LocationCollection,
    pub hints: HelpStringCollection,
    pub explanations: HelpStringCollection,
    pub responses: InfoStringCollection,
    pub puzzles: InfoStringCollection,
    pub events: InfoStringCollection,
    /// The inventories with ids `INVENTORY_ID_MAIN`, `INVENTORY_ID_CHASM`, `INVENTORY_ID_DREAM`, in that order.
    pub inventories: Vec<Inventory>,
    /// The turns on which events are told, and the events.
    pub event_turns: Vec<(u32, StringId)>,
    pub tp_map_sleep: TpMap,
    pub tp_map_witch: TpMap,
    pub max_score: u32,
}

impl DataCollection {
    pub open spec fn world(&self) -> World {
        World {
            items: self.items@,
            locations: self.locations@,
            inventories: self.inventories@.map_values(|i: Inventory| i@),
        }
    }

    /// Whether everything but the world is as in `other`.
    pub open spec fn same_static(&self, other: DataCollection) -> bool {
        &&& self.commands == other.commands
        &&& self.items.names == other.items.names
        &&& self.hints == other.hints
        &&& self.explanations == other.explanations
        &&& self.responses == other.responses
        &&& self.puzzles == other.puzzles
        &&& self.events == other.events
        &&& self.event_turns == other.event_turns
        &&& self.tp_map_sleep == other.tp_map_sleep
        &&& self.tp_map_witch == other.tp_map_witch
        &&& self.max_score == other.max_score
    }

    pub open spec fn wf(&self) -> bool {
        &&& self.world().wf()
        &&& self.commands.wf()
        &&& forall|j: int| 0 <= j < self.items.names@.len() ==> valid_item(#[trigger] self.items.names@[j].1)
        &&& forall|k: StringId| k < constants::EXPECTED_STRINGS_RESPONSES ==> (#[trigger] self.responses.spec_get(k)) is Some
        &&& forall|k: StringId| k < constants::EXPECTED_STRINGS_PUZZLES ==> (#[trigger] self.puzzles.spec_get(k)) is Some
        &&& self.hints.spec_get(constants::STR_DEFAULT@) is Some
        &&& self.explanations.spec_get(constants::STR_DEFAULT@) is Some
        &&& tp_map_wf(self.tp_map_sleep@)
        &&& tp_map_wf(self.tp_map_witch@)
        &&& forall|j: int| 0 <= j < self.event_turns@.len() ==> (#[trigger] self.events.spec_get(self.event_turns@[j].1)) is Some
        &&& turns_distinct(self.event_turns@)
        &&& self.responses.wf()
        &&& self.puzzles.wf()
        &&& self.events.wf()
    }

    /// The text of response `key`.
    pub open spec fn response(&self, key: StringId) -> Seq<char> {
        self.responses.spec_get(key).unwrap()@
    }

    /// The text of puzzle `key`.
    pub open spec fn puzzle(&self, key: StringId) -> Seq<char> {
        self.puzzles.spec_get(key).unwrap()@
    }

    /// The text a message stands for.
    pub open spec fn spec_render(&self, m: Msg) -> Seq<char> {
        match m {
            Msg::Response(k) => self.response(k),
            Msg::ResponseParam(k, p) => subst(self.response(k), p@),
            Msg::Puzzle(k) => self.puzzle(k),
            Msg::Text(t) => t@,
        }
    }

    /// Whether a message can be told (the texts it names exist).
    pub open spec fn renderable(&self, m: Msg) -> bool {
        match m {
            Msg::Response(k) => k < constants::EXPECTED_STRINGS_RESPONSES,
            Msg::ResponseParam(k, p) => k < constants::EXPECTED_STRINGS_RESPONSES,
            Msg::Puzzle(k) => k < constants::EXPECTED_STRINGS_PUZZLES,
            Msg::Text(t) => true,
        }
    }

    pub open spec fn spec_item_by_name(&self, key: Seq<char>) -> Option<ItemId> {
        name_lookup(self.items.names@, key)
    }

    pub proof fn lemma_wf_sizes(&self)
        requires
            self.wf(),
        ensures
            self.items@.len() == constants::EXPECTED_ITEMS,
            self.locations@.len() == constants::EXPECTED_LOCATIONS,
            self.inventories@.len() == 3,
            forall|l: int| 0 <= l < constants::EXPECTED_LOCATIONS ==> #[trigger] self.locations.locations@[l]@ == self.locations@[l],
            forall|k: int| 0 <= k < 3 ==> #[trigger] self.inventories@[k]@ == self.world().inventories[k],
    {
    }

    pub fn get_command(&self, key: &str) -> (res: Option<&Command>)
        requires
            self.wf(),
        ensures
            res == (match self.commands.spec_get(key@) {
                None => None,
                Some(c) => Some(&c),
            }),
            res matches Some(c) ==> self.commands.knows(*c),
    {
        self.commands.get(key)
    }

    /// The commands that are not secret, as the player is told them.
    pub fn get_commands_non_secret(&self) -> (res: String)
        requires
            self.wf(),
        ensures
            res@ == self.response(constants::STR_ID_COMMANDS_INTRO) + "\n"@ + self.commands.non_secret_listing(),
    {
        self.commands.mk_non_secret_string(self.get_response(constants::STR_ID_COMMANDS_INTRO))
    }

    /// The direction of the movement command named `dir_str`.
    pub fn get_direction_enum(&self, dir_str: &str) -> (res: Direction)
        requires
            self.commands.spec_direction(dir_str@) is Some,
        ensures
            res == self.commands.spec_direction(dir_str@).unwrap(),
    {
        self.commands.get_direction_enum(dir_str)
    }

    pub fn get_item_by_name(&self, key: &str) -> (res: Option<ItemId>)
        requires
            self.wf(),
        ensures
            res == self.spec_item_by_name(key@),
            res matches Some(x) ==> valid_item(x),
    {
        proof {
            lemma_name_lookup_valid(self.items.names@, key@);
        }
        self.items.get_by_name(key)
    }

    pub fn get_item_by_id_certain(&self, key: ItemId) -> (res: &Item)
        requires
            self.wf(),
            valid_item(key),
        ensures
            *res == self.world().item(key),
    {
        &self.items.items[(key - constants::ITEM_INDEX_START) as usize]
    }

    pub fn get_location(&self, key: LocationId) -> (res: Option<&Location>)
        ensures
            res matches Some(l) ==> key < self.locations@.len() && l@ == self.locations@[key as int],
            res is None ==> key >= self.locations@.len(),
    {
        self.locations.get(key)
    }

    pub fn get_location_certain(&self, key: LocationId) -> (res: &Location)
        requires
            self.wf(),
            valid_location_id(key),
        ensures
            res@ == self.world().loc(key),
            res.items@.len() == self.items@.len(),
    {
        assert(self.world().locations[key as int].id == key);
        &self.locations.locations[key as usize]
    }

    pub fn get_inventory(&self, key: InventoryId) -> (res: &Inventory)
        requires
            self.wf(),
            valid_inventory_id(key),
        ensures
            res@ == self.world().inv(key),
            res.items@.len() == self.items@.len(),
    {
        assert(self.world().inventories[inv_index(key)].id == key);
        &self.inventories[(key - constants::INVENTORY_ID_MAIN) as usize]
    }

    pub fn get_response(&self, key: StringId) -> (res: &str)
        requires
            self.wf(),
            key < constants::EXPECTED_STRINGS_RESPONSES,
        ensures
            res@ == self.response(key),
    {
        self.responses.get_certain(key)
    }

    /// Response `key` with its `$0` marker replaced by `param`.
    pub fn get_response_param(&self, key: StringId, param: &str) -> (res: String)
        requires
            self.wf(),
            key < constants::EXPECTED_STRINGS_RESPONSES,
        ensures
            res@ == subst(self.response(key), param@),
    {
        let response = self.responses.get_certain(key);
        replace_param(response, param)
    }

    pub fn get_puzzle(&self, key: StringId) -> (res: &str)
        requires
            self.wf(),
            key < constants::EXPECTED_STRINGS_PUZZLES,
        ensures
            res@ == self.puzzle(key),
    {
        self.puzzles.get_certain(key)
    }

    pub fn get_hint(&self, key: &str) -> (res: Option<&String>)
        ensures
            res == (match self.hints.spec_get(key@) {
                None => None,
                Some(s) => Some(&s),
            }),
    {
        self.hints.get_uncertain(key)
    }

    pub fn get_hint_certain(&self, key: &str) -> (res: &str)
        requires
            self.hints.spec_get(key@) is Some,
        ensures
            res@ == self.hints.spec_get(key@).unwrap()@,
    {
        self.hints.get_certain(key)
    }

    /// The explanation of `key`, or the default explanation.
    pub fn get_explanation(&self, key: &str) -> (res: &str)
        requires
            self.wf(),
        ensures
            res@ == (match self.explanations.spec_get(key@) {
                None => self.explanations.spec_get(constants::STR_DEFAULT@).unwrap()@,
                Some(s) => s@,
            }),
    {
        DataCollection::get_value_or_default(&self.explanations, key)
    }

    fn get_value_or_default<'a>(collection: &'a HelpStringCollection, key: &str) -> (res: &'a str)
        requires
            collection.spec_get(constants::STR_DEFAULT@) is Some,
        ensures
            res@ == (match collection.spec_get(key@) {
                None => collection.spec_get(constants::STR_DEFAULT@).unwrap()@,
                Some(s) => s@,
            }),
    {
        match collection.get_uncertain(key) {
            None => collection.get_certain(constants::STR_DEFAULT),
            Some(value) => value.as_str(),
        }
    }

    /// The event told on turn `turn`, if any; it is told only once.
    pub fn get_and_clear_event(&mut self, turn: u32) -> (res: Option<String>)
        requires
            old(self).wf(),
        ensures
            final(self).wf(),
            final(self).world() == old(self).world(),
            *final(self) == (DataCollection { event_turns: final(self).event_turns, ..*old(self) }),
            ({
                match event_at(old(self).event_turns@, turn, 0) {
                    None => res is None && final(self).event_turns@ == old(self).event_turns@,
                    Some(j) => res matches Some(t) && t@ == old(self).events.spec_get(old(self).event_turns@[j].1).unwrap()@
                        && final(self).event_turns@ == old(self).event_turns@.remove(j),
                }
            }),
    {
        let mut i: usize = 0;
        while i < self.event_turns.len()
            invariant
                *self == *old(self),
                old(self).wf(),
                i <= self.event_turns@.len(),
                event_at(self.event_turns@, turn, i as int) == event_at(self.event_turns@, turn, 0),
            decreases self.event_turns.len() - i,
        {
            if self.event_turns[i].0 == turn {
                let key = self.event_turns[i].1;
                assert(self.events.spec_get(self.event_turns@[i as int].1) is Some);
                let text = self.events.get_certain(key).to_owned();
                let ghost before = self.event_turns@;
                self.event_turns.remove(i);
                assert forall|j: int| 0 <= j < self.event_turns@.len() implies (#[trigger] self.events.spec_get(self.event_turns@[j].1)) is Some by {
                    if j < i { assert(self.event_turns@[j] == before[j]); } else { assert(self.event_turns@[j] == before[j + 1]); }
                }
                return Some(text);
            }
            i = i + 1;
        }
        None
    }

    pub fn get_tp_map_sleep(&self) -> (res: &TpMap)
        ensures
            res == &self.tp_map_sleep,
    {
        &self.tp_map_sleep
    }

    pub fn get_tp_map_witch(&self) -> (res: &TpMap)
        ensures
            res == &self.tp_map_witch,
    {
        &self.tp_map_witch
    }

    /// The number of treasures in the treasure store, counting those held in other items.
    pub open spec fn stowed_treasures(&self) -> nat {
        self.world().loc(constants::LOCATION_ID_TREASURESTORE).spec_treasure(self.items@,
            self.world().loc(constants::LOCATION_ID_TREASURESTORE).items.len() as int)
    }

    /// The number of treasures stowed in the treasure store.
    pub fn get_stowed_treasure_count(&self) -> (res: u32)
        requires
            self.wf(),
        ensures
            res == self.stowed_treasures(),
    {
        let stowed_location = self.get_location_certain(constants::LOCATION_ID_TREASURESTORE);
        stowed_location.get_treasure_count(&self.items)
    }

    /// The text a message stands for.
    /// Whether message `m` names a text that the collections have.
    pub fn can_render(&self, m: &Msg) -> (res: bool)
        ensures
            res == self.renderable(*m),
    {
        match m {
            Msg::Response(k) => *k < constants::EXPECTED_STRINGS_RESPONSES,
            Msg::ResponseParam(k, _) => *k < constants::EXPECTED_STRINGS_RESPONSES,
            Msg::Puzzle(k) => *k < constants::EXPECTED_STRINGS_PUZZLES,
            Msg::Text(_) => true,
        }
    }

    pub fn render(&self, m: &Msg) -> (res: String)
        requires
            self.wf(),
            self.renderable(*m),
        ensures
            res@ == self.spec_render(*m),
    {
        match m {
            Msg::Response(k) => self.get_response(*k).to_owned(),
            Msg::ResponseParam(k, p) => self.get_response_param(*k, p.as_str()),
            Msg::Puzzle(k) => self.get_puzzle(*k).to_owned(),
            Msg::Text(t) => t.clone(),
        }
    }

    pub fn get_max_score(&self) -> (res: u32)
        ensures
            res == self.max_score,
    {
        self.max_score
    }

    /// Puts item `x` at location `l`.
    pub fn loc_insert(&mut self, l: LocationId, x: ItemId)
        requires
            old(self).wf(),
            valid_location_id(l),
            valid_item(x),
        ensures
            final(self).wf(),
            final(self).same_static(*old(self)),
            final(self).world() == old(self).world().loc_insert(l, x),
    {
        self.locations.insert_item_at(l, &mut self.items, x);
        assert(self.world().items =~= old(self).world().loc_insert(l, x).items);
        assert(self.world().locations =~= old(self).world().loc_insert(l, x).locations);
        assert(self.world().inventories =~= old(self).world().inventories);
    }

    /// Takes item `x` away from location `l`.
    pub fn loc_remove(&mut self, l: LocationId, x: ItemId)
        requires
            old(self).wf(),
            valid_location_id(l),
        ensures
            final(self).wf(),
            final(self).same_static(*old(self)),
            final(self).world() == old(self).world().loc_remove(l, x),
    {
        proof {
            self.lemma_wf_sizes();
            assert(self.world().loc(l).id == l);
        }
        let ghost w0 = self.world();
        let ghost locs0 = self.locations.locations@;
        self.locations.locations[l as usize].remove_item_certain(&mut self.items, x);
        proof {
            let (ni, ns) = place_remove(w0.items, w0.loc(l).items, x);
            lemma_place_remove_shape(w0.items, w0.loc(l).items, x);
            assert(self.world().items =~= w0.loc_remove(l, x).items);
            assert(self.world().locations =~= w0.loc_remove(l, x).locations);
            assert(self.world().inventories =~= w0.inventories);
        }
    }

    /// Puts item `x` in inventory `k`.
    pub fn inv_insert(&mut self, k: InventoryId, x: ItemId)
        requires
            old(self).wf(),
            valid_inventory_id(k),
            valid_item(x),
        ensures
            final(self).wf(),
            final(self).same_static(*old(self)),
            final(self).world() == old(self).world().inv_insert(k, x),
    {
        proof {
            self.lemma_wf_sizes();
            assert(self.world().inventories[inv_index(k)].id == k);
        }
        let ghost w0 = self.world();
        self.inventories[(k - constants::INVENTORY_ID_MAIN) as usize].insert_item(&mut self.items, x);
        proof {
            assert(self.world().items =~= w0.inv_insert(k, x).items);
            assert(self.world().inventories =~= w0.inv_insert(k, x).inventories);
        }
    }

    /// Takes item `x` out of inventory `k`.
    pub fn inv_remove(&mut self, k: InventoryId, x: ItemId)
        requires
            old(self).wf(),
            valid_inventory_id(k),
        ensures
            final(self).wf(),
            final(self).same_static(*old(self)),
            final(self).world() == old(self).world().inv_remove(k, x),
    {
        proof {
            self.lemma_wf_sizes();
            assert(self.world().inventories[inv_index(k)].id == k);
        }
        let ghost w0 = self.world();
        if !self.inv_has(k, x) {
            proof {
                crate::item_list::lemma_first_holder_holds(w0.items, w0.inv(k).items, x, 0);
                if crate::item_list::in_set(w0.inv(k).items, x) {
                    let j = item_index(x);
                    assert(crate::item_list::is_or_holds(w0.items, crate::item_list::id_at(j), x));
                }
                if let Some(j) = crate::item_list::first_holder(w0.items, w0.inv(k).items, x, 0) {
                    assert(crate::item_list::is_or_holds(w0.items, crate::item_list::id_at(j), x));
                }
                assert(self.world().inventories =~= w0.inv_remove(k, x).inventories);
            }
            return;
        }
        self.inventories[(k - constants::INVENTORY_ID_MAIN) as usize].remove_item_certain(&mut self.items, x);
        proof {
            lemma_inventory_remove_shape(w0.items, w0.inv(k).items, x);
            assert(self.world().items =~= w0.inv_remove(k, x).items);
            assert(self.world().inventories =~= w0.inv_remove(k, x).inventories);
        }
    }

    /// Takes item `x` out of the chain of items held by `c`.
    pub fn item_remove(&mut self, c: ItemId, x: ItemId)
        requires
            old(self).wf(),
        ensures
            final(self).wf(),
            final(self).same_static(*old(self)),
            final(self).world() == old(self).world().item_remove(c, x),
    {
        let ghost w0 = self.world();
        let held = match self.items.get_by_id(c) {
            Some(it) => it.contains_item(&self.items, x),
            None => false,
        };
        if !held {
            proof {
                crate::item_list::lemma_chain_remove_absent(w0.items, c, x, w0.items.len());
            }
            return;
        }
        Item::remove_item_certain(&mut self.items, c, x);
        proof {
            lemma_chain_remove_shape(w0.items, c, x, w0.items.len());
        }
    }

    /// Makes item `c` hold `w` (which moves into it).
    pub fn set_within(&mut self, c: ItemId, w: Option<ItemId>)
        requires
            old(self).wf(),
            w matches Some(y) ==> valid_item(y),
        ensures
            final(self).wf(),
            final(self).same_static(*old(self)),
            final(self).world() == old(self).world().set_within(c, w),
    {
        Item::set_within(&mut self.items, c, w);
    }

    /// Empties item `c`, returning what it held (which stays where it is recorded).
    pub fn remove_within(&mut self, c: ItemId) -> (res: Option<ItemId>)
        requires
            old(self).wf(),
            valid_item(c),
        ensures
            final(self).wf(),
            final(self).same_static(*old(self)),
            res == old(self).world().item(c).within,
            final(self).world() == old(self).world().set_item(c, Item { within: None, ..old(self).world().item(c) }),
    {
        let ghost w0 = self.world();
        let r = self.items.items[(c - constants::ITEM_INDEX_START) as usize].remove_within();
        assert(self.world().items =~= w0.set_item(c, Item { within: None, ..w0.item(c) }).items);
        r
    }

    pub fn retire(&mut self, x: ItemId)
        requires
            old(self).wf(),
            valid_item(x),
        ensures
            final(self).wf(),
            final(self).same_static(*old(self)),
            final(self).world() == old(self).world().retire(x),
    {
        let ghost w0 = self.world();
        self.items.items[(x - constants::ITEM_INDEX_START) as usize].retire();
        assert(self.world().items =~= w0.retire(x).items);
    }

    pub fn set_location_of(&mut self, x: ItemId, l: u32)
        requires
            old(self).wf(),
            valid_item(x),
        ensures
            final(self).wf(),
            final(self).same_static(*old(self)),
            final(self).world() == old(self).world().set_location_of(x, l),
    {
        let ghost w0 = self.world();
        self.items.items[(x - constants::ITEM_INDEX_START) as usize].set_location(l);
        assert(self.world().items =~= w0.set_location_of(x, l).items);
    }

    pub fn set_on(&mut self, x: ItemId, b: bool)
        requires
            old(self).wf(),
            valid_item(x),
        ensures
            final(self).wf(),
            final(self).same_static(*old(self)),
            final(self).world() == old(self).world().set_on(x, b),
    {
        let ghost w0 = self.world();
        self.items.items[(x - constants::ITEM_INDEX_START) as usize].set_on(b);
        assert(self.world().items =~= w0.set_on(x, b).items);
    }

    pub fn set_item_property(&mut self, x: ItemId, code: u32, b: bool)
        requires
            old(self).wf(),
            valid_item(x),
        ensures
            final(self).wf(),
            final(self).same_static(*old(self)),
            final(self).world() == old(self).world().set_item_property(x, code, b),
    {
        let ghost w0 = self.world();
        self.items.items[(x - constants::ITEM_INDEX_START) as usize].set_property(code, b);
        assert(self.world().items =~= w0.set_item_property(x, code, b).items);
    }

    pub fn set_loc_property(&mut self, l: LocationId, code: u32, b: bool)
        requires
            old(self).wf(),
            valid_location_id(l),
        ensures
            final(self).wf(),
            final(self).same_static(*old(self)),
            final(self).world() == old(self).world().set_loc_property(l, code, b),
    {
        proof {
            self.lemma_wf_sizes();
        }
        let ghost w0 = self.world();
        self.locations.locations[l as usize].set_property(code, b);
        assert(self.world().locations =~= w0.set_loc_property(l, code, b).locations);
    }

    pub fn set_direction(&mut self, l: LocationId, d: Direction, next: Option<LocationId>)
        requires
            old(self).wf(),
            valid_location_id(l),
            next matches Some(t) ==> valid_location_id(t),
        ensures
            final(self).wf(),
            final(self).same_static(*old(self)),
            final(self).world() == old(self).world().set_direction(l, d, next),
    {
        proof {
            self.lemma_wf_sizes();
        }
        let ghost w0 = self.world();
        assert(w0.locations[l as int].directions.len() == DIRECTION_COUNT);
        self.locations.locations[l as usize].set_direction(d, next);
        proof {
            assert(self.world().locations =~= w0.set_direction(l, d, next).locations);
            lemma_with_direction_valid(w0.loc(l).directions, d, next);
        }
    }

    pub fn set_visited(&mut self, l: LocationId, b: bool)
        requires
            old(self).wf(),
            valid_location_id(l),
        ensures
            final(self).wf(),
            final(self).same_static(*old(self)),
            final(self).world() == old(self).world().set_visited(l, b),
    {
        proof {
            self.lemma_wf_sizes();
        }
        let ghost w0 = self.world();
        self.locations.locations[l as usize].set_visited(b);
        assert(self.world().locations =~= w0.set_visited(l, b).locations);
    }

    /// Empties inventory `k` on the player's death: essential items go to
    /// location `safe`, the others to location `current`.
    pub fn drop_on_death(&mut self, k: InventoryId, current: LocationId, safe: LocationId)
        requires
            old(self).wf(),
            valid_inventory_id(k),
            valid_location_id(current),
            valid_location_id(safe),
        ensures
            final(self).wf(),
            final(self).same_static(*old(self)),
            final(self).world() == old(self).world().drop_on_death(k, current, safe),
    {
        proof {
            self.lemma_wf_sizes();
            assert(self.world().inventories[inv_index(k)].id == k);
            assert(self.world().locations[current as int].id == current);
            assert(self.world().locations[safe as int].id == safe);
        }
        let ghost w0 = self.world();
        self.inventories[(k - constants::INVENTORY_ID_MAIN) as usize].drop_on_death(&mut self.items, &mut self.locations, current, safe);
        proof {
            lemma_dropped_items_shape(w0.items, w0.inv(k).items, current, safe, w0.inv(k).items.len() as int);
            lemma_dropped_locations_shape(w0, k, current, safe);
            assert(self.world().inventories =~= w0.drop_on_death(k, current, safe).inventories);
        }
    }

    /// Whether location `l` holds item `x`, directly or within another item.
    pub fn loc_has(&self, l: LocationId, x: ItemId) -> (res: bool)
        requires
            self.wf(),
            valid_location_id(l),
        ensures
            res == self.world().loc_has(l, x),
    {
        let loc = self.get_location_certain(l);
        loc.contains_item(&self.items, x)
    }

    /// Whether inventory `k` holds item `x`, directly or within another item.
    pub fn inv_has(&self, k: InventoryId, x: ItemId) -> (res: bool)
        requires
            self.wf(),
            valid_inventory_id(k),
        ensures
            res == self.world().inv_has(k, x),
    {
        let inv = self.get_inventory(k);
        inv.contains_item(&self.items, x)
    }
}

/// Whether no two entries of `turns` fall on the same turn.
pub open spec fn turns_distinct(turns: Seq<(u32, StringId)>) -> bool {
    forall|i: int, j: int| 0 <= i < j < turns.len() ==> (#[trigger] turns[i]).0 != (#[trigger] turns[j]).0
}

/// The first position at or after `from` of an event told on turn `turn`.
pub open spec fn event_at(s: Seq<(u32, StringId)>, turn: u32, from: int) -> Option<int>
    decreases s.len() - from,
{
    if from < 0 || from >= s.len() {
        None
    } else if s[from].0 == turn {
        Some(from)
    } else {
        event_at(s, turn, from + 1)
    }
}

/// Whether every teleport leads to a location and an inventory.
pub open spec fn tp_map_wf(m: Seq<(LocationId, (LocationId, InventoryId))>) -> bool {
    forall|j: int| 0 <= j < m.len() ==> valid_location_id((#[trigger] m[j]).1.0) && valid_inventory_id(m[j].1.1)
}

/// Where the first teleport at location `key` leads.
pub open spec fn tp_lookup(m: Seq<(LocationId, (LocationId, InventoryId))>, key: LocationId, from: int) -> Option<(LocationId, InventoryId)>
    decreases m.len() - from,
{
    if from < 0 || from >= m.len() {
        None
    } else if m[from].0 == key {
        Some(m[from].1)
    } else {
        tp_lookup(m, key, from + 1)
    }
}

/// Where the teleport at location `key` leads, if there is one.
pub fn tp_get(m: &TpMap, key: LocationId) -> (res: Option<(LocationId, InventoryId)>)
    ensures
        res == tp_lookup(m@, key, 0),
        tp_map_wf(m@) ==> (res matches Some(r) ==> valid_location_id(r.0) && valid_inventory_id(r.1)),
{
    let mut i: usize = 0;
    while i < m.len()
        invariant
            i <= m@.len(),
            tp_lookup(m@, key, i as int) == tp_lookup(m@, key, 0),
        decreases m.len() - i,
    {
        if m[i].0 == key {
            return Some(m[i].1);
        }
        i = i + 1;
    }
    None
}

/// Items keep their number and their ids, and each holds what it held or nothing.
pub open spec fn same_ids(a: Seq<Item>, b: Seq<Item>) -> bool {
    &&& a.len() == b.len()
    &&& forall|i: int| #![trigger b[i]] 0 <= i < b.len() ==> b[i].id == a[i].id && (b[i].within is None || b[i].within == a[i].within)
}

/// Every item holds, if anything, an item of the game.
pub open spec fn withins_valid(items: Seq<Item>) -> bool {
    forall|i: int| #![trigger items[i]] 0 <= i < items.len() ==> (items[i].within matches Some(y) ==> valid_item(y))
}

pub proof fn lemma_chain_remove_shape(items: Seq<Item>, c: ItemId, x: ItemId, fuel: nat)
    ensures
        same_ids(items, chain_remove(items, c, x, fuel)),
    decreases fuel,
{
    if fuel > 0 && valid_item_id(items, c) {
        if let Some(w) = items[item_index(c)].within {
            if w != x {
                lemma_chain_remove_shape(items, w, x, (fuel - 1) as nat);
            }
        }
    }
}

pub proof fn lemma_place_remove_shape(items: Seq<Item>, s: Seq<bool>, x: ItemId)
    ensures
        same_ids(items, place_remove(items, s, x).0),
        place_remove(items, s, x).1.len() == s.len(),
{
    let items1 = if crate::item_list::in_set(s, x) { retire_in(items, x) } else { items };
    if let Some(j) = crate::item_list::first_holder(items1, s, x, 0) {
        lemma_chain_remove_shape(items1, id_at(j), x, items1.len());
    }
}

pub proof fn lemma_inventory_remove_shape(items: Seq<Item>, s: Seq<bool>, x: ItemId)
    ensures
        same_ids(items, inventory_remove(items, s, x).0),
        inventory_remove(items, s, x).1.len() == s.len(),
{
    if !crate::item_list::in_set(s, x) {
        if let Some(j) = crate::item_list::first_holder(items, s, x, 0) {
            lemma_chain_remove_shape(items, id_at(j), x, items.len());
        }
    }
}

pub proof fn lemma_dropped_items_shape(items: Seq<Item>, s: Seq<bool>, current: LocationId, safe: LocationId, n: int)
    ensures
        same_ids(items, dropped_items(items, s, current, safe, n)),
    decreases n,
{
    if n > 0 {
        lemma_dropped_items_shape(items, s, current, safe, n - 1);
    }
}

pub proof fn lemma_dropped_locations_shape(w: World, k: InventoryId, current: LocationId, safe: LocationId)
    requires
        w.wf(),
        valid_inventory_id(k),
        valid_location_id(current),
        valid_location_id(safe),
    ensures
        w.drop_on_death(k, current, safe).wf(),
{
    let s = w.inv(k).items;
    let n = s.len() as int;
    assert(w.inventories[inv_index(k)].id == k);
    crate::inventory::lemma_dropped_flags_len(w.items, s, w.loc(current).items, None, n);
    crate::inventory::lemma_dropped_flags_len(w.items, s, w.loc(current).items, Some(false), n);
    crate::inventory::lemma_dropped_flags_len(w.items, s, w.loc(safe).items, Some(true), n);
    let l1 = w.locations.update(safe as int, w.loc(safe).with_items(crate::inventory::dropped_flags(w.items, s, w.loc(safe).items, Some(true), n)));
    crate::inventory::lemma_dropped_flags_len(w.items, s, l1[current as int].items, Some(false), n);
    lemma_dropped_items_shape(w.items, s, current, safe, n);
    assert(w.locations[current as int].id == current);
    assert(w.locations[safe as int].id == safe);
}

pub proof fn lemma_with_direction_valid(dirs: Seq<Option<LocationId>>, d: Direction, next: Option<LocationId>)
    requires
        dirs.len() == DIRECTION_COUNT,
        forall|i: int| 0 <= i < DIRECTION_COUNT ==> (#[trigger] dirs[i] matches Some(t) ==> valid_location_id(t)),
        next matches Some(t) ==> valid_location_id(t),
    ensures
        with_direction(dirs, d, next).len() == DIRECTION_COUNT,
        forall|i: int| 0 <= i < DIRECTION_COUNT ==> (#[trigger] with_direction(dirs, d, next)[i] matches Some(t) ==> valid_location_id(t)),
{
    let s = dirs.update(dir_index(d), next);
    lemma_last_exit_valid(s, DIRECTION_COUNT as int);
}

pub proof fn lemma_last_exit_valid(s: Seq<Option<LocationId>>, n: int)
    requires
        0 <= n <= s.len(),
        forall|i: int| 0 <= i < s.len() ==> (#[trigger] s[i] matches Some(t) ==> valid_location_id(t)),
    ensures
        crate::location::last_exit(s, n) matches Some(t) ==> valid_location_id(t),
    decreases n,
{
    if n > 0 {
        lemma_last_exit_valid(s, n - 1);
    }
}

pub proof fn lemma_name_lookup_valid(names: Seq<(String, ItemId)>, key: Seq<char>)
    requires
        forall|j: int| 0 <= j < names.len() ==> valid_item(#[trigger] names[j].1),
    ensures
        name_lookup(names, key) matches Some(x) ==> valid_item(x),
    decreases names.len(),
{
    if names.len() > 0 {
        assert(valid_item(names[names.len() - 1].1));
        lemma_name_lookup_valid(names.drop_last(), key);
    }
}

/// The number `st` stands for in `radix` (see `parse_u32`).
pub fn str_to_u32(st: &str, radix: u32) -> (res: Result<u32, ParseError>)
    requires
        2 <= radix <= 36,
    ensures
        res == parse_u32(st@, radix as nat),
{
    parse_u32_exec(st, radix)
}

/// The number `st` stands for in `radix`, which must be one.
pub fn str_to_u32_certain(st: &str, radix: u32) -> (res: u32)
    requires
        2 <= radix <= 36,
        parse_u32(st@, radix as nat) is Ok,
    ensures
        parse_u32(st@, radix as nat) == Ok::<u32, ParseError>(res),
{
    match str_to_u32(st, radix) {
        Ok(result) => result,
        Err(_) => 0,
    }
}

} // verus!
