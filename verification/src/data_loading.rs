//! Building the game's data from the data file: the sections in order, then
//! the inventories, the turns of the random events and the teleporters.
use vstd::prelude::*;

use crate::chance::random_in_range;
use crate::command_collection::CommandCollection;
use crate::constants;
use crate::data_collection::{DataCollection, InventoryId, LocationId, StringId, tp_map_wf};
use crate::command_collection::{cmd_views, command_line_error, dir_views, section_directions, section_entries, section_has_tag};
use crate::file_buffer::{FileBuffer, LoadError, first_error, section_end, section_lines, tab_fields};
use crate::help_string_collection::{HelpStringCollection, help_filed, help_has_tag, help_lines_ok};
use crate::info_string_collection::{InfoStringCollection, info_has_tag, info_line_error, last_info, lemma_keyed_count,
    lemma_unique_count, opt_view};
use crate::inventory::{Inventory, InventoryV};
use crate::item_collection::{ItemCollection, first_start_error, has_item_line, held_at_start, item_line, item_line_error,
    item_matches, lemma_held_at_start_valid, lemma_section_names_described, name_views, section_item_names, section_treasures, start_of};
use crate::location_collection::{LocationCollection, has_loc_line, last_with_id, lemma_loaded_location, loc_of_fields, loc_refs_ok,
    location_line_error};

verus! {

/// The inventory with id `id` and capacity `capacity`, holding nothing.
pub open spec fn empty_inventory(id: InventoryId, capacity: u32) -> InventoryV {
    InventoryV { id, capacity, items: Seq::new(constants::EXPECTED_ITEMS as nat, |i: int| false) }
}

/// The teleporters of the sleeping quarters: the cot leads into the dream, the
/// end of the dream back to the cot.
pub open spec fn sleep_teleports() -> Seq<(LocationId, (LocationId, InventoryId))> {
    seq![
        (constants::LOCATION_ID_SLEEP_0, (constants::LOCATION_ID_SLEEP_1, constants::INVENTORY_ID_DREAM)),
        (constants::LOCATION_ID_SLEEP_2, (constants::LOCATION_ID_SLEEP_0, constants::INVENTORY_ID_MAIN)),
    ]
}

/// The teleporters of the witch: from the experiment area to the chasm and back.
pub open spec fn witch_teleports() -> Seq<(LocationId, (LocationId, InventoryId))> {
    seq![
        (constants::LOCATION_ID_WITCH_0, (constants::LOCATION_ID_WITCH_1, constants::INVENTORY_ID_CHASM)),
        (constants::LOCATION_ID_WITCH_1, (constants::LOCATION_ID_WITCH_0, constants::INVENTORY_ID_MAIN)),
    ]
}

/// Whether the turns of `turns` all lie in `[lo, hi)` and differ from each other.
pub open spec fn distinct_turns_in(turns: Seq<(u32, StringId)>, lo: u32, hi: u32) -> bool {
    &&& forall|j: int| 0 <= j < turns.len() ==> lo <= (#[trigger] turns[j]).0 < hi
    &&& forall|i: int, j: int| 0 <= i < j < turns.len() ==> (#[trigger] turns[i]).0 != (#[trigger] turns[j]).0
}

/// Where section `k` of the data file starts, counting from the section at `index`.
pub open spec fn section_start(data: Seq<char>, index: int, k: nat) -> int
    decreases k,
{
    if k == 0 { index } else { section_end(data, section_start(data, index, (k - 1) as nat)) }
}

/// The lines of section `k` of the data file, counting from the section at `index`.
pub open spec fn section_at(data: Seq<char>, index: int, k: nat) -> Seq<Seq<char>> {
    section_lines(data, section_start(data, index, k))
}

/// How loading the command section ends: every line must be well formed,
/// and the tags must run from 0 to `EXPECTED_COMMANDS - 1`.
pub open spec fn command_section_result(lines: Seq<Seq<char>>) -> Result<(), LoadError> {
    match first_error(lines, |l: Seq<char>| command_line_error(l)) {
        Some(e) => Err(e),
        None => if forall|k: u32| section_has_tag(lines, k) <==> k < constants::EXPECTED_COMMANDS {
            Ok(())
        } else {
            Err(LoadError::BadSection)
        },
    }
}

/// How loading the location section ends: every line must be well formed,
/// every exit must lead to a location described, and the ids must run from 0
/// to `EXPECTED_LOCATIONS - 1`.
pub open spec fn location_section_result(lines: Seq<Seq<char>>) -> Result<(), LoadError> {
    match first_error(lines, |l: Seq<char>| location_line_error(l)) {
        Some(e) => Err(e),
        None => if !loc_refs_ok(lines) {
            Err(LoadError::BadReference)
        } else if !(forall|k: u32| has_loc_line(lines, k) <==> k < constants::EXPECTED_LOCATIONS) {
            Err(LoadError::BadSection)
        } else {
            Ok(())
        },
    }
}

/// How loading the item section ends: every line must be well formed, the
/// treasures must be countable, the ids must be those of all items, and every
/// item must start at a location or in a container that suits it.
pub open spec fn item_section_result(lines: Seq<Seq<char>>) -> Result<(), LoadError> {
    match first_error(lines, |l: Seq<char>| item_line_error(l)) {
        Some(e) => Err(e),
        None => if section_treasures(lines) > u32::MAX {
            Err(LoadError::BadSection)
        } else if !(forall|k: u32| has_item_line(lines, k)
            <==> constants::ITEM_INDEX_START <= k < constants::ITEM_INDEX_START + constants::EXPECTED_ITEMS) {
            Err(LoadError::BadSection)
        } else {
            match first_start_error(lines, constants::EXPECTED_ITEMS as int, constants::EXPECTED_ITEMS as nat,
                constants::EXPECTED_LOCATIONS as nat) {
                Some(e) => Err(e),
                None => Ok(()),
            }
        },
    }
}

/// How loading a section of help texts ends: every line needs a tag and a
/// text, and a default text must be among them.
pub open spec fn help_section_result(lines: Seq<Seq<char>>) -> Result<(), LoadError> {
    if !help_lines_ok(lines) {
        Err(LoadError::MissingField)
    } else if !help_has_tag(lines, constants::STR_DEFAULT@) {
        Err(LoadError::BadSection)
    } else {
        Ok(())
    }
}

/// How loading a section of numbered texts ends: every line must be well
/// formed, and if `validate`, the numbers must run from 0 to `expected - 1`.
pub open spec fn info_section_result(lines: Seq<Seq<char>>, expected: u32, validate: bool) -> Result<(), LoadError> {
    match first_error(lines, |l: Seq<char>| info_line_error(l)) {
        Some(e) => Err(e),
        None => if validate && !(forall|k: StringId| info_has_tag(lines, k) <==> k < expected) {
            Err(LoadError::BadSection)
        } else {
            Ok(())
        },
    }
}

/// The number of distinct events a section of numbered texts gives.
pub open spec fn event_count(lines: Seq<Seq<char>>) -> nat {
    Set::new(|k: StringId| info_has_tag(lines, k)).len()
}

/// The highest score: points for each treasure line of the item section and
/// for each puzzle.
pub open spec fn max_score_of(item_lines: Seq<Seq<char>>) -> int {
    section_treasures(item_lines) * constants::SCORE_TREASURE + constants::EXPECTED_STRINGS_PUZZLES * constants::SCORE_PUZZLE
}

/// How loading the sections of commands, locations and items from `start` on ends.
pub open spec fn world_sections_result(data: Seq<char>, start: int) -> Result<(), LoadError> {
    if command_section_result(section_at(data, start, 0)) is Err {
        command_section_result(section_at(data, start, 0))
    } else if location_section_result(section_at(data, start, 1)) is Err {
        location_section_result(section_at(data, start, 1))
    } else {
        item_section_result(section_at(data, start, 2))
    }
}

/// How loading the sections of texts from `start` on ends: hints,
/// explanations, responses, puzzles and events.
pub open spec fn text_sections_result(data: Seq<char>, start: int) -> Result<(), LoadError> {
    if help_section_result(section_at(data, start, 0)) is Err {
        help_section_result(section_at(data, start, 0))
    } else if help_section_result(section_at(data, start, 1)) is Err {
        help_section_result(section_at(data, start, 1))
    } else if info_section_result(section_at(data, start, 2), constants::EXPECTED_STRINGS_RESPONSES, true) is Err {
        info_section_result(section_at(data, start, 2), constants::EXPECTED_STRINGS_RESPONSES, true)
    } else if info_section_result(section_at(data, start, 3), constants::EXPECTED_STRINGS_PUZZLES, true) is Err {
        info_section_result(section_at(data, start, 3), constants::EXPECTED_STRINGS_PUZZLES, true)
    } else {
        info_section_result(section_at(data, start, 4), 0, false)
    }
}

/// How loading the data file from `index` on ends: the sections are read in
/// order (commands, locations, items, hints, explanations, responses, puzzles,
/// events) and the first that fails decides; then the highest score must be
/// countable, and there must be a free turn for every event.
pub open spec fn load_result(data: Seq<char>, index: int) -> Result<(), LoadError> {
    if world_sections_result(data, index) is Err {
        world_sections_result(data, index)
    } else if text_sections_result(data, section_start(data, index, 3)) is Err {
        text_sections_result(data, section_start(data, index, 3))
    } else if max_score_of(section_at(data, index, 2)) > u32::MAX {
        Err(LoadError::BadSection)
    } else if event_count(section_at(data, index, 7)) > constants::MAX_MOVES_EVENT - constants::MIN_MOVES_EVENT {
        Err(LoadError::BadSection)
    } else {
        Ok(())
    }
}

/// Counting `b` sections on from the start of section `a` reaches section `a + b`.
pub proof fn lemma_section_start_add(data: Seq<char>, index: int, a: nat, b: nat)
    ensures
        section_start(data, section_start(data, index, a), b) == section_start(data, index, a + b),
    decreases b,
{
    if b > 0 {
        lemma_section_start_add(data, index, a, (b - 1) as nat);
        assert(section_start(data, index, a + b) == section_end(data, section_start(data, index, (a + b - 1) as nat)));
    }
}

/// Whether no entry of `turns` is told on turn `t`.
pub open spec fn turn_free(turns: Seq<(u32, StringId)>, t: u32) -> bool {
    forall|j: int| 0 <= j < turns.len() ==> (#[trigger] turns[j]).0 != t
}

/// Whether some entry of `turns` is told on turn `t`.
fn turn_taken(turns: &Vec<(u32, StringId)>, t: u32) -> (res: bool)
    ensures
        res == exists|j: int| 0 <= j < turns@.len() && (#[trigger] turns@[j]).0 == t,
{
    let mut i: usize = 0;
    while i < turns.len()
        invariant
            i <= turns@.len(),
            forall|j: int| 0 <= j < i ==> (#[trigger] turns@[j]).0 != t,
        decreases turns.len() - i,
    {
        if turns[i].0 == t {
            return true;
        }
        i = i + 1;
    }
    false
}

/// Fewer distinct turns in `[lo, hi)` than the range holds leave one of its turns free.
pub proof fn lemma_free_turn(turns: Seq<(u32, StringId)>, lo: u32, hi: u32)
    requires
        distinct_turns_in(turns, lo, hi),
        turns.len() < hi - lo,
    ensures
        exists|t: u32| lo <= t < hi && #[trigger] turn_free(turns, t),
{
    let ts = turns.map_values(|p: (u32, StringId)| p.0 as int);
    assert(ts.no_duplicates()) by {
        assert forall|i: int, j: int| 0 <= i < ts.len() && 0 <= j < ts.len() && i != j implies ts[i] != ts[j] by {
            if i < j {
                assert(turns[i].0 != turns[j].0);
            } else {
                assert(turns[j].0 != turns[i].0);
            }
        }
    }
    ts.unique_seq_to_set();
    vstd::set_lib::lemma_int_range(lo as int, hi as int);
    if !(exists|t: u32| lo <= t < hi && #[trigger] turn_free(turns, t)) {
        assert forall|x: int| vstd::set_lib::set_int_range(lo as int, hi as int).contains(x) implies ts.to_set().contains(x) by {
            let t = x as u32;
            assert(!turn_free(turns, t));
            let j = choose|j: int| 0 <= j < turns.len() && (#[trigger] turns[j]).0 == t;
            assert(ts[j] == x);
        }
        vstd::seq_lib::seq_to_set_is_finite(ts);
        vstd::set_lib::lemma_len_subset(vstd::set_lib::set_int_range(lo as int, hi as int), ts.to_set());
    }
}

impl DataCollection {
    /// Whether nothing has been loaded yet.
    pub open spec fn is_blank(&self) -> bool {
        &&& self.commands.commands@.len() == 0
        &&& self.commands.direction_map@.len() == 0
        &&& self.commands.wf()
        &&& self.items@.len() == 0
        &&& self.items.names@.len() == 0
        &&& self.locations@.len() == 0
        &&& self.hints.strings@.len() == 0
        &&& self.explanations.strings@.len() == 0
        &&& self.responses.strings@.len() == 0
        &&& self.puzzles.strings@.len() == 0
        &&& self.events.strings@.len() == 0
        &&& self.inventories@.len() == 0
        &&& self.event_turns@.len() == 0
        &&& self.tp_map_sleep@.len() == 0
        &&& self.tp_map_witch@.len() == 0
        &&& self.max_score == 0
    }

    /// Whether the commands, locations and items are those of the sections
    /// from `start` on; each location holds, at the start, the items the
    /// item section places there.
    pub open spec fn world_loaded(&self, data: Seq<char>, start: int) -> bool {
        let commands = section_at(data, start, 0);
        let locations = section_at(data, start, 1);
        let items = section_at(data, start, 2);
        &&& cmd_views(self.commands.commands@) == section_entries(commands)
        &&& dir_views(self.commands.direction_map@) == section_directions(commands)
        &&& self.locations@.len() == constants::EXPECTED_LOCATIONS
        &&& forall|l: int| 0 <= l < constants::EXPECTED_LOCATIONS ==> #[trigger] self.locations@[l]
            == loc_of_fields(tab_fields(locations[last_with_id(locations, l as u32).unwrap()])).with_items(
                Seq::new(constants::EXPECTED_ITEMS as nat, |m: int| start_of(items, m) == l && l < constants::ITEM_INDEX_START))
        &&& self.items@.len() == constants::EXPECTED_ITEMS
        &&& forall|k: int| 0 <= k < constants::EXPECTED_ITEMS ==> {
            &&& item_matches(#[trigger] self.items@[k], item_line(items, k))
            &&& self.items@[k].id == k + constants::ITEM_INDEX_START
            &&& self.items@[k].location == start_of(items, k)
            &&& self.items@[k].within == held_at_start(items, (k + constants::ITEM_INDEX_START) as u32, constants::EXPECTED_ITEMS as int)
        }
        &&& name_views(self.items.names@) == section_item_names(items)
    }

    /// Whether the texts are those of the sections from `start` on.
    pub open spec fn texts_loaded(&self, data: Seq<char>, start: int) -> bool {
        &&& help_filed(Seq::empty(), section_at(data, start, 0), self.hints.strings@)
        &&& help_filed(Seq::empty(), section_at(data, start, 1), self.explanations.strings@)
        &&& forall|k: StringId| #[trigger] opt_view(self.responses.spec_get(k)) == last_info(section_at(data, start, 2), k)
        &&& forall|k: StringId| #[trigger] opt_view(self.puzzles.spec_get(k)) == last_info(section_at(data, start, 3), k)
        &&& forall|k: StringId| #[trigger] opt_view(self.events.spec_get(k)) == last_info(section_at(data, start, 4), k)
    }

    /// Whether the collection holds what the data file gives from `index` on:
    /// the commands, locations, items and texts of its sections, empty
    /// inventories, a turn for each event, the teleporters and the highest score.
    pub open spec fn loaded_from(&self, data: Seq<char>, index: int) -> bool {
        &&& self.world_loaded(data, index)
        &&& self.texts_loaded(data, section_start(data, index, 3))
        &&& self.inventories@.map_values(|i: Inventory| i@) == seq![
            empty_inventory(constants::INVENTORY_ID_MAIN, constants::INVENTORY_CAPACITY_NORMAL),
            empty_inventory(constants::INVENTORY_ID_CHASM, constants::INVENTORY_CAPACITY_NORMAL),
            empty_inventory(constants::INVENTORY_ID_DREAM, constants::INVENTORY_CAPACITY_DREAM),
        ]
        &&& self.event_turns@.len() == self.events.strings@.len()
        &&& forall|j: int| 0 <= j < self.event_turns@.len() ==> (#[trigger] self.event_turns@[j]).1 == self.events.keys()[j]
        &&& distinct_turns_in(self.event_turns@, constants::MIN_MOVES_EVENT, constants::MAX_MOVES_EVENT)
        &&& self.tp_map_sleep@ == sleep_teleports()
        &&& self.tp_map_witch@ == witch_teleports()
        &&& self.max_score == max_score_of(section_at(data, index, 2))
    }

    /// A collection with nothing loaded.
    pub fn new() -> (res: DataCollection)
        ensures
            res.is_blank(),
    {
        DataCollection {
            commands: CommandCollection::new(),
            items: ItemCollection::new(),
            locations: LocationCollection::new(),
            hints: HelpStringCollection::new(),
            explanations: HelpStringCollection::new(),
            responses: InfoStringCollection::new(),
            puzzles: InfoStringCollection::new(),
            events: InfoStringCollection::new(),
            inventories: Vec::new(),
            event_turns: Vec::new(),
            tp_map_sleep: Vec::new(),
            tp_map_witch: Vec::new(),
            max_score: 0,
        }
    }

    fn init_inventory(&mut self, inventory_id: InventoryId, inventory_capacity: u32)
        ensures
            final(self).inventories@.len() == old(self).inventories@.len() + 1,
            forall|k: int| 0 <= k < old(self).inventories@.len() ==> #[trigger] final(self).inventories@[k] == old(self).inventories@[k],
            final(self).inventories@.last()@ == empty_inventory(inventory_id, inventory_capacity),
            final(self).commands == old(self).commands,
            final(self).items == old(self).items,
            final(self).locations == old(self).locations,
            final(self).hints == old(self).hints,
            final(self).explanations == old(self).explanations,
            final(self).responses == old(self).responses,
            final(self).puzzles == old(self).puzzles,
            final(self).events == old(self).events,
            final(self).event_turns == old(self).event_turns,
            final(self).tp_map_sleep == old(self).tp_map_sleep,
            final(self).tp_map_witch == old(self).tp_map_witch,
            final(self).max_score == old(self).max_score,
    {
        let inventory = Inventory::new(inventory_id, inventory_capacity, constants::EXPECTED_ITEMS as usize);
        self.inventories.push(inventory);
    }

    /// Adds the main inventory, the one of the chasm and the one of the dream.
    fn init_inventories(&mut self)
        requires
            old(self).inventories@.len() == 0,
        ensures
            final(self).inventories@.map_values(|i: Inventory| i@) == seq![
                empty_inventory(constants::INVENTORY_ID_MAIN, constants::INVENTORY_CAPACITY_NORMAL),
                empty_inventory(constants::INVENTORY_ID_CHASM, constants::INVENTORY_CAPACITY_NORMAL),
                empty_inventory(constants::INVENTORY_ID_DREAM, constants::INVENTORY_CAPACITY_DREAM),
            ],
            final(self).commands == old(self).commands,
            final(self).items == old(self).items,
            final(self).locations == old(self).locations,
            final(self).hints == old(self).hints,
            final(self).explanations == old(self).explanations,
            final(self).responses == old(self).responses,
            final(self).puzzles == old(self).puzzles,
            final(self).events == old(self).events,
            final(self).event_turns == old(self).event_turns,
            final(self).tp_map_sleep == old(self).tp_map_sleep,
            final(self).tp_map_witch == old(self).tp_map_witch,
            final(self).max_score == old(self).max_score,
    {
        self.init_inventory(constants::INVENTORY_ID_MAIN, constants::INVENTORY_CAPACITY_NORMAL);
        self.init_inventory(constants::INVENTORY_ID_CHASM, constants::INVENTORY_CAPACITY_NORMAL);
        self.init_inventory(constants::INVENTORY_ID_DREAM, constants::INVENTORY_CAPACITY_DREAM);
        assert(self.inventories@.map_values(|i: Inventory| i@) =~= seq![
            empty_inventory(constants::INVENTORY_ID_MAIN, constants::INVENTORY_CAPACITY_NORMAL),
            empty_inventory(constants::INVENTORY_ID_CHASM, constants::INVENTORY_CAPACITY_NORMAL),
            empty_inventory(constants::INVENTORY_ID_DREAM, constants::INVENTORY_CAPACITY_DREAM),
        ]);
    }

    /// Sets up the teleporters of the sleeping quarters and of the witch.
    fn init_tp_maps(&mut self)
        requires
            old(self).tp_map_sleep@.len() == 0,
            old(self).tp_map_witch@.len() == 0,
        ensures
            final(self).tp_map_sleep@ == sleep_teleports(),
            final(self).tp_map_witch@ == witch_teleports(),
            tp_map_wf(final(self).tp_map_sleep@),
            tp_map_wf(final(self).tp_map_witch@),
            final(self).commands == old(self).commands,
            final(self).items == old(self).items,
            final(self).locations == old(self).locations,
            final(self).hints == old(self).hints,
            final(self).explanations == old(self).explanations,
            final(self).responses == old(self).responses,
            final(self).puzzles == old(self).puzzles,
            final(self).events == old(self).events,
            final(self).inventories == old(self).inventories,
            final(self).event_turns == old(self).event_turns,
            final(self).max_score == old(self).max_score,
    {
        self.tp_map_sleep.push((constants::LOCATION_ID_SLEEP_0, (constants::LOCATION_ID_SLEEP_1, constants::INVENTORY_ID_DREAM)));
        self.tp_map_sleep.push((constants::LOCATION_ID_SLEEP_2, (constants::LOCATION_ID_SLEEP_0, constants::INVENTORY_ID_MAIN)));
        self.tp_map_witch.push((constants::LOCATION_ID_WITCH_0, (constants::LOCATION_ID_WITCH_1, constants::INVENTORY_ID_CHASM)));
        self.tp_map_witch.push((constants::LOCATION_ID_WITCH_1, (constants::LOCATION_ID_WITCH_0, constants::INVENTORY_ID_MAIN)));
        assert(self.tp_map_sleep@ =~= sleep_teleports());
        assert(self.tp_map_witch@ =~= witch_teleports());
    }

    /// Gives each random event a turn of its own in `[MIN_MOVES_EVENT,
    /// MAX_MOVES_EVENT)`, drawn at random among the turns still free; there
    /// must be enough turns for all events.
    fn init_event_turns(&mut self) -> (res: Result<(), LoadError>)
        requires
            old(self).event_turns@.len() == 0,
        ensures
            res is Err <==> old(self).events.strings@.len() > constants::MAX_MOVES_EVENT - constants::MIN_MOVES_EVENT,
            res is Err ==> res == Err::<(), LoadError>(LoadError::BadSection),
            res is Ok ==> {
                &&& final(self).event_turns@.len() == old(self).events.strings@.len()
                &&& forall|j: int| 0 <= j < final(self).event_turns@.len() ==> (#[trigger] final(self).event_turns@[j]).1
                    == old(self).events.keys()[j]
                &&& distinct_turns_in(final(self).event_turns@, constants::MIN_MOVES_EVENT, constants::MAX_MOVES_EVENT)
            },
            final(self).commands == old(self).commands,
            final(self).items == old(self).items,
            final(self).locations == old(self).locations,
            final(self).hints == old(self).hints,
            final(self).explanations == old(self).explanations,
            final(self).responses == old(self).responses,
            final(self).puzzles == old(self).puzzles,
            final(self).events == old(self).events,
            final(self).inventories == old(self).inventories,
            final(self).tp_map_sleep == old(self).tp_map_sleep,
            final(self).tp_map_witch == old(self).tp_map_witch,
            final(self).max_score == old(self).max_score,
    {
        let keys = self.events.get_keys();
        if keys.len() > (constants::MAX_MOVES_EVENT - constants::MIN_MOVES_EVENT) as usize {
            return Err(LoadError::BadSection);
        }
        let mut i: usize = 0;
        while i < keys.len()
            invariant
                keys@ == old(self).events.keys(),
                keys@.len() == old(self).events.strings@.len(),
                keys@.len() <= constants::MAX_MOVES_EVENT - constants::MIN_MOVES_EVENT,
                i <= keys@.len(),
                self.event_turns@.len() == i,
                forall|j: int| 0 <= j < i ==> (#[trigger] self.event_turns@[j]).1 == keys@[j],
                distinct_turns_in(self.event_turns@, constants::MIN_MOVES_EVENT, constants::MAX_MOVES_EVENT),
                self.commands == old(self).commands,
                self.items == old(self).items,
                self.locations == old(self).locations,
                self.hints == old(self).hints,
                self.explanations == old(self).explanations,
                self.responses == old(self).responses,
                self.puzzles == old(self).puzzles,
                self.events == old(self).events,
                self.inventories == old(self).inventories,
                self.tp_map_sleep == old(self).tp_map_sleep,
                self.tp_map_witch == old(self).tp_map_witch,
                self.max_score == old(self).max_score,
            decreases keys.len() - i,
        {
            proof {
                lemma_free_turn(self.event_turns@, constants::MIN_MOVES_EVENT, constants::MAX_MOVES_EVENT);
            }
            let ghost taken = self.event_turns@;
            let mut free: Vec<u32> = Vec::new();
            let mut t: u32 = constants::MIN_MOVES_EVENT;
            while t < constants::MAX_MOVES_EVENT
                invariant
                    self.event_turns@ == taken,
                    constants::MIN_MOVES_EVENT <= t <= constants::MAX_MOVES_EVENT,
                    free@.len() <= t - constants::MIN_MOVES_EVENT,
                    forall|j: int| 0 <= j < free@.len() ==> constants::MIN_MOVES_EVENT <= #[trigger] free@[j] < constants::MAX_MOVES_EVENT
                        && turn_free(taken, free@[j]),
                    forall|u: u32| constants::MIN_MOVES_EVENT <= u < t && #[trigger] turn_free(taken, u) ==> free@.contains(u),
                decreases constants::MAX_MOVES_EVENT - t,
            {
                let ghost before = free@;
                let is_taken = turn_taken(&self.event_turns, t);
                if !is_taken {
                    free.push(t);
                    assert(free@[free@.len() - 1] == t);
                }
                assert forall|v: u32| constants::MIN_MOVES_EVENT <= v < t + 1 && #[trigger] turn_free(taken, v) implies free@.contains(v) by {
                    if v < t {
                        assert(before.contains(v));
                        let k = choose|k: int| 0 <= k < before.len() && before[k] == v;
                        assert(free@[k] == v);
                    } else {
                        assert(!is_taken);
                        assert(free@[free@.len() - 1] == v);
                    }
                }
                t = t + 1;
            }
            let ghost u = choose|u: u32| constants::MIN_MOVES_EVENT <= u < constants::MAX_MOVES_EVENT
                && #[trigger] turn_free(taken, u);
            assert(free@.contains(u));
            let r = random_in_range(0, free.len() as u32);
            let turn = free[r as usize];
            assert(turn_free(taken, turn));
            self.event_turns.push((turn, keys[i]));
            assert forall|a: int, b: int| 0 <= a < b < self.event_turns@.len() implies
                (#[trigger] self.event_turns@[a]).0 != (#[trigger] self.event_turns@[b]).0 by {
                if b == i {
                    assert(self.event_turns@[a] == taken[a]);
                } else {
                    assert(self.event_turns@[a] == taken[a]);
                    assert(self.event_turns@[b] == taken[b]);
                }
            }
            assert forall|j: int| 0 <= j < self.event_turns@.len() implies
                constants::MIN_MOVES_EVENT <= (#[trigger] self.event_turns@[j]).0 < constants::MAX_MOVES_EVENT by {
                if j < i {
                    assert(self.event_turns@[j] == taken[j]);
                }
            }
            assert forall|j: int| 0 <= j < i + 1 implies (#[trigger] self.event_turns@[j]).1 == keys@[j] by {
                if j < i {
                    assert(self.event_turns@[j] == taken[j]);
                }
            }
            i = i + 1;
        }
        Ok(())
    }

    /// A collection loaded without a problem is well formed.
    pub proof fn lemma_loaded_wf(&self, data: Seq<char>, index: int)
        requires
            world_sections_result(data, index) is Ok,
            self.world_loaded(data, index),
            self.commands.wf(),
            self.hints.spec_get(constants::STR_DEFAULT@) is Some,
            self.explanations.spec_get(constants::STR_DEFAULT@) is Some,
            forall|k: StringId| (#[trigger] self.responses.spec_get(k)) is Some <==> k < constants::EXPECTED_STRINGS_RESPONSES,
            forall|k: StringId| (#[trigger] self.puzzles.spec_get(k)) is Some <==> k < constants::EXPECTED_STRINGS_PUZZLES,
            crate::info_string_collection::unique_keys(self.events.strings@),
            self.responses.wf(),
            self.puzzles.wf(),
            distinct_turns_in(self.event_turns@, constants::MIN_MOVES_EVENT, constants::MAX_MOVES_EVENT),
            self.event_turns@.len() == self.events.strings@.len(),
            forall|j: int| 0 <= j < self.event_turns@.len() ==> (#[trigger] self.event_turns@[j]).1 == self.events.keys()[j],
            self.inventories@.map_values(|i: Inventory| i@) == seq![
                empty_inventory(constants::INVENTORY_ID_MAIN, constants::INVENTORY_CAPACITY_NORMAL),
                empty_inventory(constants::INVENTORY_ID_CHASM, constants::INVENTORY_CAPACITY_NORMAL),
                empty_inventory(constants::INVENTORY_ID_DREAM, constants::INVENTORY_CAPACITY_DREAM),
            ],
            self.tp_map_sleep@ == sleep_teleports(),
            self.tp_map_witch@ == witch_teleports(),
        ensures
            self.wf(),
    {
        let locations = section_at(data, index, 1);
        let items = section_at(data, index, 2);
        let w = self.world();
        assert forall|i: int| 0 <= i < w.items.len() implies (#[trigger] w.items[i]).id == crate::item_list::id_at(i) by {}
        assert(crate::data_collection::withins_valid(w.items)) by {
            assert forall|i: int| 0 <= i < w.items.len() implies (#[trigger] w.items[i]).within matches Some(y)
                ==> crate::data_collection::valid_item(y) by {
                lemma_held_at_start_valid(items, (i + constants::ITEM_INDEX_START) as u32, constants::EXPECTED_ITEMS as int);
            }
        }
        assert forall|i: int| 0 <= i < w.locations.len() implies {
            &&& (#[trigger] w.locations[i]).id == i
            &&& w.locations[i].items.len() == constants::EXPECTED_ITEMS
            &&& w.locations[i].directions.len() == crate::location::DIRECTION_COUNT
            &&& w.locations[i].description_suffix_index < w.locations[i].description_suffixes.len()
            &&& forall|d: int| 0 <= d < crate::location::DIRECTION_COUNT ==> (#[trigger] w.locations[i].directions[d] matches Some(t)
                ==> crate::data_collection::valid_location_id(t))
        } by {
            lemma_loaded_location(locations, constants::EXPECTED_LOCATIONS, i as u32);
        }
        assert forall|k: int| 0 <= k < 3 implies {
            &&& (#[trigger] w.inventories[k]).id == constants::INVENTORY_ID_MAIN + k
            &&& w.inventories[k].items.len() == constants::EXPECTED_ITEMS
        } by {
            assert(w.inventories[k] == self.inventories@.map_values(|i: Inventory| i@)[k]);
        }
        assert forall|j: int| 0 <= j < self.items.names@.len() implies crate::data_collection::valid_item(#[trigger] self.items.names@[j].1) by {
            lemma_section_names_described(items);
            assert(name_views(self.items.names@)[j] == section_item_names(items)[j]);
        }
        assert forall|j: int| 0 <= j < self.event_turns@.len() implies (#[trigger] self.events.spec_get(self.event_turns@[j].1)) is Some by {
            crate::info_string_collection::lemma_info_lookup_at(self.events.strings@, j);
        }
    }

    /// Loads the sections of commands, locations and items; gives the number
    /// of treasure lines.
    fn load_world(&mut self, buffer: &mut FileBuffer) -> (res: Result<u32, LoadError>)
        requires
            old(self).is_blank(),
            old(buffer).wf(),
        ensures
            final(buffer).wf(),
            final(buffer).data == old(buffer).data,
            match res {
                Err(e) => world_sections_result(old(buffer).data@, old(buffer).index as int) == Err::<(), LoadError>(e),
                Ok(t) => {
                    &&& world_sections_result(old(buffer).data@, old(buffer).index as int) is Ok
                    &&& t == section_treasures(section_at(old(buffer).data@, old(buffer).index as int, 2))
                    &&& final(buffer).index == section_start(old(buffer).data@, old(buffer).index as int, 3)
                    &&& final(self).world_loaded(old(buffer).data@, old(buffer).index as int)
                    &&& final(self).commands.wf()
                },
            },
            final(self).hints == old(self).hints,
            final(self).explanations == old(self).explanations,
            final(self).responses == old(self).responses,
            final(self).puzzles == old(self).puzzles,
            final(self).events == old(self).events,
            final(self).inventories == old(self).inventories,
            final(self).event_turns == old(self).event_turns,
            final(self).tp_map_sleep == old(self).tp_map_sleep,
            final(self).tp_map_witch == old(self).tp_map_witch,
            final(self).max_score == old(self).max_score,
    {
        let ghost data = buffer.data@;
        let ghost index = buffer.index as int;
        let mut treasure_count: u32 = 0;
        match self.commands.try_init(buffer, constants::EXPECTED_COMMANDS) {
            Err(e) => { return Err(e); },
            Ok(()) => {},
        }
        assert(buffer.index == section_start(data, index, 1));
        match self.locations.try_init(buffer, constants::EXPECTED_LOCATIONS) {
            Err(e) => { return Err(e); },
            Ok(()) => {},
        }
        assert(buffer.index == section_start(data, index, 2));
        let ghost loaded = self.locations@;
        proof {
            let lines = section_at(data, index, 1);
            assert forall|l: int| 0 <= l < self.locations@.len() implies (#[trigger] self.locations@[l]).items.len() == constants::EXPECTED_ITEMS
                && self.locations@[l].id == l by {
                lemma_loaded_location(lines, constants::EXPECTED_LOCATIONS, l as u32);
            }
        }
        match self.items.try_init(buffer, constants::EXPECTED_ITEMS, &mut self.locations, &mut treasure_count) {
            Err(e) => { return Err(e); },
            Ok(()) => {},
        }
        assert(buffer.index == section_start(data, index, 3));
        proof {
            let items = section_at(data, index, 2);
            assert forall|l: int| 0 <= l < constants::EXPECTED_LOCATIONS implies #[trigger] self.locations@[l]
                == loaded[l].with_items(Seq::new(constants::EXPECTED_ITEMS as nat, |m: int| start_of(items, m) == l && l < constants::ITEM_INDEX_START)) by {
                assert(Seq::new(constants::EXPECTED_ITEMS as nat, |m: int| loaded[l].items[m] || (start_of(items, m) == l && l < constants::ITEM_INDEX_START))
                    =~= Seq::new(constants::EXPECTED_ITEMS as nat, |m: int| start_of(items, m) == l && l < constants::ITEM_INDEX_START));
            }
        }
        Ok(treasure_count)
    }

    /// Loads the sections of hints, explanations, responses, puzzles and events.
    fn load_texts(&mut self, buffer: &mut FileBuffer) -> (res: Result<(), LoadError>)
        requires
            old(self).hints.strings@.len() == 0,
            old(self).explanations.strings@.len() == 0,
            old(self).responses.strings@.len() == 0,
            old(self).puzzles.strings@.len() == 0,
            old(self).events.strings@.len() == 0,
            old(buffer).wf(),
        ensures
            final(buffer).wf(),
            final(buffer).data == old(buffer).data,
            res == text_sections_result(old(buffer).data@, old(buffer).index as int),
            res is Ok ==> {
                &&& final(buffer).index == section_start(old(buffer).data@, old(buffer).index as int, 5)
                &&& final(self).texts_loaded(old(buffer).data@, old(buffer).index as int)
                &&& final(self).hints.spec_get(constants::STR_DEFAULT@) is Some
                &&& final(self).explanations.spec_get(constants::STR_DEFAULT@) is Some
                &&& forall|k: StringId| (#[trigger] final(self).responses.spec_get(k)) is Some <==> k < constants::EXPECTED_STRINGS_RESPONSES
                &&& final(self).puzzles.strings@.len() == constants::EXPECTED_STRINGS_PUZZLES
                &&& forall|k: StringId| (#[trigger] final(self).puzzles.spec_get(k)) is Some <==> k < constants::EXPECTED_STRINGS_PUZZLES
                &&& crate::info_string_collection::unique_keys(final(self).events.strings@)
                &&& final(self).responses.wf()
                &&& final(self).puzzles.wf()
                &&& final(self).events.strings@.len() == event_count(section_at(old(buffer).data@, old(buffer).index as int, 4))
            },
            final(self).commands == old(self).commands,
            final(self).items == old(self).items,
            final(self).locations == old(self).locations,
            final(self).inventories == old(self).inventories,
            final(self).event_turns == old(self).event_turns,
            final(self).tp_map_sleep == old(self).tp_map_sleep,
            final(self).tp_map_witch == old(self).tp_map_witch,
            final(self).max_score == old(self).max_score,
    {
        let ghost data = buffer.data@;
        let ghost index = buffer.index as int;
        proof {
            assert(forall|k: StringId| (#[trigger] self.responses.spec_get(k)) is None);
            assert(forall|k: StringId| (#[trigger] self.puzzles.spec_get(k)) is None);
            assert(forall|k: StringId| (#[trigger] self.events.spec_get(k)) is None);
            assert(self.hints.strings@ =~= Seq::<(String, String)>::empty());
            assert(self.explanations.strings@ =~= Seq::<(String, String)>::empty());
        }
        match self.hints.try_init(buffer) {
            Err(e) => { return Err(e); },
            Ok(()) => {},
        }
        assert(buffer.index == section_start(data, index, 1));
        match self.explanations.try_init(buffer) {
            Err(e) => { return Err(e); },
            Ok(()) => {},
        }
        assert(buffer.index == section_start(data, index, 2));
        let ghost before = self.responses;
        let loaded = self.responses.try_init(buffer, constants::EXPECTED_STRINGS_RESPONSES, true);
        proof {
            let lines = section_at(data, index, 2);
            if first_error(lines, |l: Seq<char>| info_line_error(l)) is None {
                assert forall|k: StringId| #[trigger] info_has_tag(lines, k) <==> self.responses.spec_get(k) is Some by {
                    assert(before.spec_get(k) is None);
                }
            }
        }
        match loaded {
            Err(e) => { return Err(e); },
            Ok(()) => {},
        }
        assert(buffer.index == section_start(data, index, 3));
        let ghost before = self.puzzles;
        let loaded = self.puzzles.try_init(buffer, constants::EXPECTED_STRINGS_PUZZLES, true);
        proof {
            let lines = section_at(data, index, 3);
            if first_error(lines, |l: Seq<char>| info_line_error(l)) is None {
                assert forall|k: StringId| #[trigger] info_has_tag(lines, k) <==> self.puzzles.spec_get(k) is Some by {
                    assert(before.spec_get(k) is None);
                }
            }
        }
        match loaded {
            Err(e) => { return Err(e); },
            Ok(()) => {},
        }
        assert(buffer.index == section_start(data, index, 4));
        proof {
            assert forall|k: StringId| #[trigger] crate::info_string_collection::info_lookup(self.puzzles.strings@, k) is Some
                <==> k < constants::EXPECTED_STRINGS_PUZZLES by {
                assert(self.puzzles.spec_get(k) is Some <==> k < constants::EXPECTED_STRINGS_PUZZLES);
            }
            lemma_keyed_count(self.puzzles.strings@, constants::EXPECTED_STRINGS_PUZZLES);
        }
        let ghost before = self.events;
        let loaded = self.events.try_init(buffer, 0, false);
        proof {
            let lines = section_at(data, index, 4);
            if first_error(lines, |l: Seq<char>| info_line_error(l)) is None {
                assert forall|k: StringId| #[trigger] info_has_tag(lines, k) <==> self.events.spec_get(k) is Some by {
                    assert(before.spec_get(k) is None);
                }
            }
        }
        match loaded {
            Err(e) => { return Err(e); },
            Ok(()) => {},
        }
        assert(buffer.index == section_start(data, index, 5));
        proof {
            lemma_unique_count(self.events.strings@);
            assert(Set::new(|k: StringId| crate::info_string_collection::info_lookup(self.events.strings@, k) is Some)
                =~= Set::new(|k: StringId| info_has_tag(section_at(data, index, 4), k)));
        }
        Ok(())
    }

    /// Loads a data file that loads whole (see `try_init`, which reports the
    /// first fault of any other): the world it describes, ready to play.
    pub fn init(&mut self, buffer: &mut FileBuffer)
        requires
            old(self).is_blank(),
            old(buffer).wf(),
            load_result(old(buffer).data@, old(buffer).index as int) is Ok,
        ensures
            final(buffer).wf(),
            final(buffer).data == old(buffer).data,
            final(buffer).index == section_start(old(buffer).data@, old(buffer).index as int, 8),
            final(self).wf(),
            final(self).loaded_from(old(buffer).data@, old(buffer).index as int),
    {
        let _ = self.try_init(buffer);
    }

    /// Loads the data file from the buffer's position: the eight sections in
    /// order, then the inventories, the turns of the events, the teleporters
    /// and the highest score. The first problem found ends the loading.
    pub fn try_init(&mut self, buffer: &mut FileBuffer) -> (res: Result<(), LoadError>)
        requires
            old(self).is_blank(),
            old(buffer).wf(),
        ensures
            final(buffer).wf(),
            final(buffer).data == old(buffer).data,
            res == load_result(old(buffer).data@, old(buffer).index as int),
            res is Ok ==> final(buffer).index == section_start(old(buffer).data@, old(buffer).index as int, 8),
            res is Ok ==> final(self).wf(),
            res is Ok ==> final(self).loaded_from(old(buffer).data@, old(buffer).index as int),
    {
        let ghost data = buffer.data@;
        let ghost index = buffer.index as int;
        let treasure_count = match self.load_world(buffer) {
            Err(e) => { return Err(e); },
            Ok(t) => t,
        };
        let ghost start = buffer.index as int;
        proof {
            lemma_section_start_add(data, index, 3, 4);
            lemma_section_start_add(data, index, 3, 5);
        }
        match self.load_texts(buffer) {
            Err(e) => { return Err(e); },
            Ok(()) => {},
        }
        let achievement_count: u32 = self.puzzles.count_strings();
        let score: u64 = treasure_count as u64 * constants::SCORE_TREASURE as u64
            + achievement_count as u64 * constants::SCORE_PUZZLE as u64;
        if score > u32::MAX as u64 {
            return Err(LoadError::BadSection);
        }
        self.init_inventories();
        match self.init_event_turns() {
            Err(e) => { return Err(e); },
            Ok(()) => {},
        }
        self.init_tp_maps();
        self.max_score = score as u32;
        proof {
            self.lemma_loaded_wf(data, index);
        }
        Ok(())
    }
}

} // verus!
