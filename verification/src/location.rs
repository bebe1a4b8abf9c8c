//! Locations: places the player can be, joined to each other by directions.
use vstd::prelude::*;

use crate::constants;
use crate::data_collection::{ItemId, ItemProperties, LocationId, LocationProperties};
use crate::item::{Item, chain_treasure, has_bits, item_index, valid_item_id};
use crate::item_collection::ItemCollection;
use crate::item_list::{first_holder, first_holder_exec, first_obstruction, first_obstruction_exec, id_at, in_set, is_liquid, retire_in, relocate, set_flag, set_gives, set_gives_exec, set_has, set_has_exec, chain_remove};

verus! {

pub const DIRECTION_COUNT: usize = 12;

#[derive(PartialEq, Eq, Structural, Clone, Copy, Debug, Hash)]
pub enum Direction {
    North,
    Northeast,
    East,
    Southeast,
    South,
    Southwest,
    West,
    Northwest,
    Up,
    Down,
    Back,
    Out,
}

/// The slot of direction `d` in a location's table of exits.
pub open spec fn dir_index(d: Direction) -> int {
    match d {
        Direction::North => 0,
        Direction::Northeast => 1,
        Direction::East => 2,
        Direction::Southeast => 3,
        Direction::South => 4,
        Direction::Southwest => 5,
        Direction::West => 6,
        Direction::Northwest => 7,
        Direction::Up => 8,
        Direction::Down => 9,
        Direction::Back => 10,
        Direction::Out => 11,
    }
}

impl Direction {
    pub fn index(&self) -> (res: usize)
        ensures
            res == dir_index(*self),
    {
        match self {
            Direction::North => 0,
            Direction::Northeast => 1,
            Direction::East => 2,
            Direction::Southeast => 3,
            Direction::South => 4,
            Direction::Southwest => 5,
            Direction::West => 6,
            Direction::Northwest => 7,
            Direction::Up => 8,
            Direction::Down => 9,
            Direction::Back => 10,
            Direction::Out => 11,
        }
    }
}

/// The number of exits among the first `n` slots.
pub open spec fn count_exits(dirs: Seq<Option<LocationId>>, n: int) -> nat
    decreases n,
{
    if n <= 0 { 0 } else { count_exits(dirs, n - 1) + (if dirs[n - 1] is Some { 1nat } else { 0nat }) }
}

/// The last exit among the first `n` slots.
pub open spec fn last_exit(dirs: Seq<Option<LocationId>>, n: int) -> Option<LocationId>
    decreases n,
{
    if n <= 0 { None } else if dirs[n - 1] is Some { dirs[n - 1] } else { last_exit(dirs, n - 1) }
}

/// The last exit among the first `n` slots leads below `bound` when every exit does.
pub proof fn lemma_last_exit_below(dirs: Seq<Option<LocationId>>, n: int, bound: u32)
    requires
        0 <= n <= dirs.len(),
        forall|i: int| 0 <= i < dirs.len() ==> (#[trigger] dirs[i] matches Some(t) ==> t < bound),
    ensures
        last_exit(dirs, n) matches Some(t) ==> t < bound,
    decreases n,
{
    if n > 0 {
        lemma_last_exit_below(dirs, n - 1, bound);
    }
}

/// The only exit of a table, if it has exactly one.
pub open spec fn only_exit(dirs: Seq<Option<LocationId>>) -> Option<LocationId> {
    if count_exits(dirs, dirs.len() as int) == 1 { last_exit(dirs, dirs.len() as int) } else { None }
}

/// The table of exits after setting direction `d` to `next`; `Out` then
/// leads to the only exit, if there is exactly one.
pub open spec fn with_direction(dirs: Seq<Option<LocationId>>, d: Direction, next: Option<LocationId>) -> Seq<Option<LocationId>> {
    let s = dirs.update(dir_index(d), next);
    s.update(dir_index(Direction::Out), only_exit(s))
}

pub struct LocationV {
    pub id: LocationId,
    pub properties: LocationProperties,
    pub shortname: Seq<char>,
    pub longname: Seq<char>,
    pub description_common: Seq<char>,
    pub description_suffixes: Seq<Seq<char>>,
    pub description_suffix_index: usize,
    pub visited: bool,
    pub directions: Seq<Option<LocationId>>,
    pub items: Seq<bool>,
}

impl LocationV {
    pub open spec fn has(self, code: u32) -> bool {
        has_bits(self.properties, code)
    }

    pub open spec fn with_items(self, items: Seq<bool>) -> LocationV {
        LocationV { items, ..self }
    }

    pub open spec fn with_directions(self, directions: Seq<Option<LocationId>>) -> LocationV {
        LocationV { directions, ..self }
    }

    pub open spec fn with_properties(self, properties: u32) -> LocationV {
        LocationV { properties, ..self }
    }

    pub open spec fn with_visited(self, visited: bool) -> LocationV {
        LocationV { visited, ..self }
    }

    /// Whether the location holds an item (not worn) that gives `code`.
    pub open spec fn contains_gives(self, items: Seq<Item>, code: u32, on_optional: bool) -> bool {
        set_gives(items, self.items, code, on_optional, true)
    }

    pub open spec fn has_or_contains_gives(self, items: Seq<Item>, loc_code: u32, item_code: u32, on_optional: bool) -> bool {
        self.has(loc_code) || self.contains_gives(items, item_code, on_optional)
    }

    pub open spec fn spec_contents(self, items: Seq<Item>, n: int) -> Seq<char>
        decreases n,
    {
        if n <= 0 {
            Seq::empty()
        } else {
            self.spec_contents(items, n - 1)
                + (if self.items[n - 1] && valid_item_id(items, id_at(n - 1)) {
                    items[n - 1].spec_locationname(items)
                } else {
                    Seq::empty()
                })
        }
    }

    pub open spec fn spec_hot(self, desc_hot: Seq<char>) -> Seq<char> {
        if self.has(constants::CTRL_LOC_HOT) { "\n"@ + desc_hot } else { Seq::empty() }
    }

    pub open spec fn spec_full_string(self, items: Seq<Item>, desc_start: Seq<char>, desc_hot: Seq<char>) -> Seq<char> {
        desc_start + self.longname + self.description_common
            + self.description_suffixes[self.description_suffix_index as int]
            + self.spec_contents(items, self.items.len() as int) + self.spec_hot(desc_hot)
    }

    pub open spec fn spec_arrival_string(self, items: Seq<Item>, desc_start: Seq<char>, desc_hot: Seq<char>) -> Seq<char> {
        if self.visited {
            desc_start + self.longname + "."@ + self.spec_contents(items, self.items.len() as int) + self.spec_hot(desc_hot)
        } else {
            self.spec_full_string(items, desc_start, desc_hot)
        }
    }

    pub open spec fn spec_treasure(self, items: Seq<Item>, n: int) -> nat
        decreases n,
    {
        if n <= 0 {
            0
        } else {
            self.spec_treasure(items, n - 1) + (if self.items[n - 1] && valid_item_id(items, id_at(n - 1)) {
                (if has_bits(items[n - 1].properties, constants::CTRL_ITEM_TREASURE) { 1nat } else { 0nat })
                    + chain_treasure(items, items[n - 1].within, items.len())
            } else {
                0
            })
        }
    }
}

/// The effect of taking item `id` away from a place holding the flags `s`:
/// a liquid lying there stays; an item lying there is retired; an item held
/// in something there is let go of by its holder; finally the place forgets it.
pub open spec fn place_remove(items: Seq<Item>, s: Seq<bool>, id: ItemId) -> (Seq<Item>, Seq<bool>) {
    if in_set(s, id) && is_liquid(items, id) {
        (items, s)
    } else {
        let items1 = if in_set(s, id) { retire_in(items, id) } else { items };
        match first_holder(items1, s, id, 0) {
            Some(j) => (chain_remove(items1, id_at(j), id, items1.len()), s),
            None => (items1, set_flag(s, id, false)),
        }
    }
}

pub struct Location {
    pub id: LocationId,
    pub properties: LocationProperties,
    pub shortname: String,
    pub longname: String,
    pub description_common: String,
    pub description_suffixes: Vec<String>,
    pub description_suffix_index: usize,
    pub visited: bool,
    pub directions: Vec<Option<LocationId>>,
    pub items: Vec<bool>,
}

impl View for Location {
    type V = LocationV;

    open spec fn view(&self) -> LocationV {
        LocationV {
            id: self.id,
            properties: self.properties,
            shortname: self.shortname@,
            longname: self.longname@,
            description_common: self.description_common@,
            description_suffixes: self.description_suffixes@.map_values(|s: String| s@),
            description_suffix_index: self.description_suffix_index,
            visited: self.visited,
            directions: self.directions@,
            items: self.items@,
        }
    }
}

impl Location {
    /// A location of `item_count` possible items, none of them here, with no exits.
    pub fn new(id: LocationId, properties: LocationProperties, shortname: String, longname: String,
        description_common: String, description_suffixes: Vec<String>, item_count: usize) -> (res: Location)
        ensures
            res.id == id,
            res.properties == properties,
            res.shortname == shortname,
            res.longname == longname,
            res.description_common == description_common,
            res.description_suffixes == description_suffixes,
            res.description_suffix_index == constants::LOCATION_DESCRIPTION_SUFFIX_INDEX_DEFAULT,
            !res.visited,
            res.directions@ == Seq::new(DIRECTION_COUNT as nat, |i: int| None::<LocationId>),
            res.items@ == Seq::new(item_count as nat, |i: int| false),
    {
        let mut directions: Vec<Option<LocationId>> = Vec::new();
        let mut i: usize = 0;
        while i < DIRECTION_COUNT
            invariant
                i <= DIRECTION_COUNT,
                directions@ == Seq::new(i as nat, |j: int| None::<LocationId>),
            decreases DIRECTION_COUNT - i,
        {
            directions.push(None);
            assert(directions@ =~= Seq::new((i + 1) as nat, |j: int| None::<LocationId>));
            i = i + 1;
        }
        let mut items: Vec<bool> = Vec::new();
        let mut k: usize = 0;
        while k < item_count
            invariant
                k <= item_count,
                items@ == Seq::new(k as nat, |j: int| false),
            decreases item_count - k,
        {
            items.push(false);
            assert(items@ =~= Seq::new((k + 1) as nat, |j: int| false));
            k = k + 1;
        }
        Location {
            id,
            properties,
            shortname,
            longname,
            description_common,
            description_suffixes,
            description_suffix_index: constants::LOCATION_DESCRIPTION_SUFFIX_INDEX_DEFAULT,
            visited: false,
            directions,
            items,
        }
    }

    /// Clears the entire table of exits.
    pub fn remove_all_directions(&mut self)
        ensures
            final(self)@ == old(self)@.with_directions(Seq::new(old(self).directions@.len(), |i: int| None::<LocationId>)),
    {
        let n = self.directions.len();
        let mut i: usize = 0;
        while i < n
            invariant
                n == self.directions@.len() == old(self).directions@.len(),
                i <= n,
                self@ == old(self)@.with_directions(self.directions@),
                forall|j: int| 0 <= j < i ==> self.directions@[j] is None,
            decreases n - i,
        {
            self.directions.set(i, None);
            i = i + 1;
        }
        assert(self.directions@ =~= Seq::new(n as nat, |i: int| None::<LocationId>));
    }

    pub fn get_id(&self) -> (res: LocationId)
        ensures
            res == self.id,
    {
        self.id
    }

    pub fn is(&self, id: LocationId) -> (res: bool)
        ensures
            res == (id == self.id),
    {
        id == self.id
    }

    pub fn set_visited(&mut self, vis: bool)
        ensures
            final(self)@ == old(self)@.with_visited(vis),
    {
        self.visited = vis;
    }

    pub fn has_property(&self, property_code: LocationProperties) -> (res: bool)
        ensures
            res == self@.has(property_code),
    {
        self.properties & property_code != 0
    }

    /// Whether the location has `property_code_loc`, or holds an item (not
    /// worn) giving `property_code_item`.
    pub fn has_or_contains_with_property(&self, items: &ItemCollection, property_code_loc: LocationProperties,
        property_code_item: ItemProperties, on_optional: bool) -> (res: bool)
        requires
            self.items@.len() <= items@.len(),
            items@.len() + constants::ITEM_INDEX_START <= u32::MAX,
        ensures
            res == self@.has_or_contains_gives(items@, property_code_loc, property_code_item, on_optional),
    {
        if self.has_property(property_code_loc) {
            return true;
        }
        self.contains_with_property(items, property_code_item, on_optional)
    }

    /// As `has_or_contains_with_property`, where the item must be switched on.
    pub fn has_or_contains_with_switchable_property(&self, items: &ItemCollection, property_code_loc: LocationProperties,
        property_code_item: ItemProperties) -> (res: bool)
        requires
            self.items@.len() <= items@.len(),
            items@.len() + constants::ITEM_INDEX_START <= u32::MAX,
        ensures
            res == self@.has_or_contains_gives(items@, property_code_loc, property_code_item, true),
    {
        self.has_or_contains_with_property(items, property_code_loc, property_code_item, true)
    }

    pub fn contains_with_property(&self, items: &ItemCollection, property_code: ItemProperties, on_optional: bool) -> (res: bool)
        requires
            self.items@.len() <= items@.len(),
            items@.len() + constants::ITEM_INDEX_START <= u32::MAX,
        ensures
            res == self@.contains_gives(items@, property_code, on_optional),
    {
        set_gives_exec(items, &self.items, property_code, on_optional, true)
    }

    pub fn set_property(&mut self, property_code: LocationProperties, next: bool)
        ensures
            final(self)@ == old(self)@.with_properties(
                if next { old(self).properties | property_code } else { old(self).properties & !property_code }),
    {
        if next {
            self.properties = self.properties | property_code;
        } else {
            self.properties = self.properties & !property_code;
        }
    }

    /// The first obstruction here, if any.
    pub fn get_obstruction(&self, items: &ItemCollection) -> (res: Option<ItemId>)
        requires
            self.items@.len() <= items@.len(),
            items@.len() + constants::ITEM_INDEX_START <= u32::MAX,
        ensures
            res == first_obstruction(items@, self.items@, 0),
    {
        first_obstruction_exec(items, &self.items)
    }

    pub fn get_direction(&self, dir: Direction) -> (res: Option<LocationId>)
        requires
            self.directions@.len() == DIRECTION_COUNT,
        ensures
            res == self.directions@[dir_index(dir)],
    {
        self.directions[dir.index()]
    }

    /// The only exit from here, if there is exactly one.
    pub(crate) fn determine_out(&self) -> (res: Option<LocationId>)
        requires
            self.directions@.len() == DIRECTION_COUNT,
        ensures
            res == only_exit(self.directions@),
    {
        let mut count: usize = 0;
        let mut last: Option<LocationId> = None;
        let mut i: usize = 0;
        while i < DIRECTION_COUNT
            invariant
                self.directions@.len() == DIRECTION_COUNT,
                i <= DIRECTION_COUNT,
                count == count_exits(self.directions@, i as int),
                count <= i,
                last == last_exit(self.directions@, i as int),
            decreases DIRECTION_COUNT - i,
        {
            if self.directions[i].is_some() {
                count = count + 1;
                last = self.directions[i];
            }
            i = i + 1;
        }
        if count == 1 { last } else { None }
    }

    /// Sets the exit in direction `dir`; `Out` then leads to the only exit, if
    /// there is exactly one, and nowhere otherwise.
    pub fn set_direction(&mut self, dir: Direction, next: Option<LocationId>)
        requires
            old(self).directions@.len() == DIRECTION_COUNT,
        ensures
            final(self)@ == old(self)@.with_directions(with_direction(old(self).directions@, dir, next)),
    {
        self.directions.set(dir.index(), next);
        let next_out = self.determine_out();
        self.directions.set(Direction::Out.index(), next_out);
    }

    pub fn set_description_suffix_index(&mut self, index: usize)
        ensures
            final(self)@ == (LocationV { description_suffix_index: index, ..old(self)@ }),
    {
        self.description_suffix_index = index;
    }

    /// Whether item `id` is here, directly or held in something here.
    pub fn contains_item(&self, items: &ItemCollection, id: ItemId) -> (res: bool)
        requires
            self.items@.len() <= items@.len(),
            items@.len() + constants::ITEM_INDEX_START <= u32::MAX,
        ensures
            res == set_has(items@, self.items@, id),
    {
        set_has_exec(items, &self.items, id)
    }

    /// Puts item `id` here.
    pub fn insert_item(&mut self, items: &mut ItemCollection, id: ItemId)
        requires
            old(self).items@.len() == old(items)@.len(),
            valid_item_id(old(items)@, id),
        ensures
            final(self)@ == old(self)@.with_items(set_flag(old(self).items@, id, true)),
            final(items)@ == relocate(old(items)@, id, old(self).id),
            final(items).names == old(items).names,
    {
        let k = (id - constants::ITEM_INDEX_START) as usize;
        items.items[k].set_location(self.id);
        self.items.set(k, true);
    }

    /// Takes item `id` away from here (see `place_remove`).
    pub fn remove_item_certain(&mut self, items: &mut ItemCollection, id: ItemId)
        requires
            old(self).items@.len() == old(items)@.len(),
            old(items)@.len() + constants::ITEM_INDEX_START <= u32::MAX,
        ensures
            ({
                let (ni, ns) = place_remove(old(items)@, old(self).items@, id);
                &&& final(items)@ == ni
                &&& final(self)@ == old(self)@.with_items(ns)
            }),
            final(items).names == old(items).names,
    {
        let n = self.items.len();
        let here = id >= constants::ITEM_INDEX_START && ((id - constants::ITEM_INDEX_START) as usize) < n
            && self.items[(id - constants::ITEM_INDEX_START) as usize];
        if here {
            let k = (id - constants::ITEM_INDEX_START) as usize;
            if items.items[k].has_property(constants::CTRL_ITEM_LIQUID) {
                return;
            }
            items.items[k].retire();
            assert(items@ =~= retire_in(old(items)@, id));
        }
        match first_holder_exec(items, &self.items, id) {
            Some(j) => {
                proof {
                    crate::item_list::lemma_first_holder_holds(items@, self.items@, id, 0);
                }
                Item::remove_item_certain(items, (j as u32) + constants::ITEM_INDEX_START, id);
            },
            None => {
                if id >= constants::ITEM_INDEX_START && ((id - constants::ITEM_INDEX_START) as usize) < n {
                    self.items.set((id - constants::ITEM_INDEX_START) as usize, false);
                }
            },
        }
    }

    pub fn get_shortname(&self) -> (res: String)
        ensures
            res@ == self.shortname@,
    {
        self.shortname.clone()
    }

    /// Whether location `other_id` can be reached in one step from here.
    pub fn can_reach(&self, other_id: LocationId) -> (res: bool)
        ensures
            res == self.directions@.contains(Some(other_id)),
    {
        let mut i: usize = 0;
        while i < self.directions.len()
            invariant
                i <= self.directions@.len(),
                forall|j: int| 0 <= j < i ==> self.directions@[j] != Some(other_id),
            decreases self.directions.len() - i,
        {
            if let Some(d) = self.directions[i] {
                if d == other_id {
                    assert(self.directions@[i as int] == Some(other_id));
                    return true;
                }
            }
            i = i + 1;
        }
        false
    }

    /// The number of treasures here, counting those held in other items.
    pub fn get_treasure_count(&self, items: &ItemCollection) -> (res: u32)
        requires
            self.items@.len() <= items@.len() < 0x1000,
        ensures
            res == self@.spec_treasure(items@, self.items@.len() as int),
    {
        let mut total: u32 = 0;
        let mut i: usize = 0;
        while i < self.items.len()
            invariant
                i <= self.items@.len() <= items@.len() < 0x1000,
                total == self@.spec_treasure(items@, i as int),
                total <= i * 0x1001,
            decreases self.items.len() - i,
        {
            if self.items[i] {
                let v = items.items[i].get_treasure_value(items);
                assert(item_index(id_at(i as int)) == i);
                proof {
                    crate::item::lemma_chain_treasure_bound(items@, items@[i as int].within, items@.len());
                }
                total = total + v;
            }
            i = i + 1;
        }
        total
    }

    fn mk_contents_string(&self, items: &ItemCollection) -> (res: String)
        requires
            self.items@.len() <= items@.len(),
            items@.len() + constants::ITEM_INDEX_START <= u32::MAX,
        ensures
            res@ == self@.spec_contents(items@, self.items@.len() as int),
    {
        let mut result = String::new();
        let mut i: usize = 0;
        while i < self.items.len()
            invariant
                i <= self.items@.len() <= items@.len(),
                items@.len() + constants::ITEM_INDEX_START <= u32::MAX,
                result@ == self@.spec_contents(items@, i as int),
            decreases self.items.len() - i,
        {
            if self.items[i] {
                let name = items.items[i].get_locationname(items);
                result.append(name.as_str());
            }
            i = i + 1;
        }
        result
    }

    fn mk_hot_string(&self, desc_hot: &str) -> (res: String)
        ensures
            res@ == self@.spec_hot(desc_hot@),
    {
        if self.has_property(constants::CTRL_LOC_HOT) {
            let mut s = "\n".to_owned();
            s.append(desc_hot);
            return s;
        }
        String::new()
    }

    /// What the player is told on arriving here.
    pub fn mk_arrival_string(&self, items: &ItemCollection, desc_start: &str, desc_hot: &str) -> (res: String)
        requires
            self.items@.len() <= items@.len(),
            items@.len() + constants::ITEM_INDEX_START <= u32::MAX,
            self.description_suffix_index < self.description_suffixes@.len(),
        ensures
            res@ == self@.spec_arrival_string(items@, desc_start@, desc_hot@),
    {
        if self.visited {
            let mut s = desc_start.to_owned();
            s.append(self.longname.as_str());
            s.append(".");
            let c = self.mk_contents_string(items);
            s.append(c.as_str());
            let h = self.mk_hot_string(desc_hot);
            s.append(h.as_str());
            s
        } else {
            self.mk_full_string(items, desc_start, desc_hot)
        }
    }

    /// The full description of this location.
    pub fn mk_full_string(&self, items: &ItemCollection, desc_start: &str, desc_hot: &str) -> (res: String)
        requires
            self.items@.len() <= items@.len(),
            items@.len() + constants::ITEM_INDEX_START <= u32::MAX,
            self.description_suffix_index < self.description_suffixes@.len(),
        ensures
            res@ == self@.spec_full_string(items@, desc_start@, desc_hot@),
    {
        let mut s = desc_start.to_owned();
        s.append(self.longname.as_str());
        s.append(self.description_common.as_str());
        s.append(self.description_suffixes[self.description_suffix_index].as_str());
        let c = self.mk_contents_string(items);
        s.append(c.as_str());
        let h = self.mk_hot_string(desc_hot);
        s.append(h.as_str());
        s
    }
}

} // verus!
