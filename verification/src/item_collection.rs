//! All items of the game, by id and by name.
use vstd::prelude::*;

use crate::constants;
use crate::data_collection::ItemId;
use crate::item::{Item, has_bits, item_index, valid_item_id, within_of};
use crate::command_collection::vec_contains;
use crate::data_collection::str_to_u32;
use crate::file_buffer::{FileBuffer, LoadError, first_error, lemma_first_error_none, lemma_first_error_step, lemma_tab_fields_nonempty,
    section_end, section_lines, split_tabs, tab_fields};
use crate::info_string_collection::opt_view;
use crate::location_collection::{LocationCollection, last_index};
use crate::text::parse_u32;

verus! {

/// What is wrong with a line of the item section, if anything: it needs an
/// id, properties, a starting place and a size, all numbers, then a short
/// name, a long name, a description and a writing.
pub open spec fn item_fields_error(f: Seq<Seq<char>>) -> Option<LoadError> {
    if parse_u32(f[0], 10) is Err {
        Some(LoadError::BadNumber)
    } else if f.len() < 2 {
        Some(LoadError::MissingField)
    } else if parse_u32(f[1], 16) is Err {
        Some(LoadError::BadNumber)
    } else if f.len() < 3 {
        Some(LoadError::MissingField)
    } else if parse_u32(f[2], 10) is Err {
        Some(LoadError::BadNumber)
    } else if f.len() < 4 {
        Some(LoadError::MissingField)
    } else if parse_u32(f[3], 10) is Err {
        Some(LoadError::BadNumber)
    } else if f.len() < 8 {
        Some(LoadError::MissingField)
    } else {
        None
    }
}

pub open spec fn item_line_error(line: Seq<char>) -> Option<LoadError> {
    item_fields_error(tab_fields(line))
}

pub open spec fn item_line_id(f: Seq<Seq<char>>) -> u32 {
    parse_u32(f[0], 10).unwrap()
}

/// Where the item of a line starts: a location, or the container holding it.
pub open spec fn item_line_initial(f: Seq<Seq<char>>) -> u32 {
    parse_u32(f[2], 10).unwrap()
}

/// The writing of an item line: none where the field is "0".
pub open spec fn item_line_writing(f: Seq<Seq<char>>) -> Option<Seq<char>> {
    if f[7] == "0"@ { None } else { Some(f[7]) }
}

/// Whether `it` is as the item line with fields `f` describes it (apart from where it is and what it holds).
pub open spec fn item_matches(it: Item, f: Seq<Seq<char>>) -> bool {
    &&& it.id == item_line_id(f)
    &&& it.properties == parse_u32(f[1], 16).unwrap()
    &&& it.size == parse_u32(f[3], 10).unwrap()
    &&& it.shortname@ == f[4]
    &&& it.longname@ == f[5]
    &&& it.description@ == f[6]
    &&& opt_view(it.writing) == item_line_writing(f)
    &&& !it.on
}

/// The names of the item of fields `f` from position `k` on: its aliases that are not empty.
pub open spec fn item_alias_names(f: Seq<Seq<char>>, k: int, id: ItemId) -> Seq<(Seq<char>, ItemId)>
    decreases f.len() - k,
{
    if k < 0 || k >= f.len() {
        Seq::empty()
    } else {
        (if f[k].len() != 0 { seq![(f[k], id)] } else { Seq::empty() }) + item_alias_names(f, k + 1, id)
    }
}

/// The names an item line gives: the short name and the aliases.
pub open spec fn item_line_names(line: Seq<char>) -> Seq<(Seq<char>, ItemId)> {
    let f = tab_fields(line);
    seq![(f[4], item_line_id(f))] + item_alias_names(f, 8, item_line_id(f))
}

pub open spec fn section_item_names(lines: Seq<Seq<char>>) -> Seq<(Seq<char>, ItemId)>
    decreases lines.len(),
{
    if lines.len() == 0 { Seq::empty() } else { section_item_names(lines.drop_last()) + item_line_names(lines.last()) }
}

pub open spec fn name_views(s: Seq<(String, ItemId)>) -> Seq<(Seq<char>, ItemId)> {
    s.map_values(|e: (String, ItemId)| (e.0@, e.1))
}

/// The number of lines describing a treasure.
pub open spec fn section_treasures(lines: Seq<Seq<char>>) -> nat
    decreases lines.len(),
{
    if lines.len() == 0 {
        0
    } else {
        section_treasures(lines.drop_last())
            + (if has_bits(parse_u32(tab_fields(lines.last())[1], 16).unwrap(), constants::CTRL_ITEM_TREASURE) { 1nat } else { 0nat })
    }
}

/// The ids of the items `lines` describe, in order.
pub open spec fn item_ids_of(lines: Seq<Seq<char>>) -> Seq<u32> {
    Seq::new(lines.len(), |j: int| item_line_id(tab_fields(lines[j])))
}

/// The line in force for item `k` (at position `k` of the collection): the last describing it.
pub open spec fn item_line(lines: Seq<Seq<char>>, k: int) -> Seq<Seq<char>> {
    tab_fields(lines[last_index(item_ids_of(lines), (k + constants::ITEM_INDEX_START) as u32).unwrap()])
}

/// Where item `k` starts.
pub open spec fn start_of(lines: Seq<Seq<char>>, k: int) -> u32 {
    item_line_initial(item_line(lines, k))
}

/// What container `c` holds at the start, among the first `n` items: the
/// last of them starting in it.
pub open spec fn held_at_start(lines: Seq<Seq<char>>, c: u32, n: int) -> Option<ItemId>
    decreases n,
{
    if n <= 0 {
        None
    } else if start_of(lines, n - 1) == c && c >= constants::ITEM_INDEX_START {
        Some((n - 1 + constants::ITEM_INDEX_START) as u32)
    } else {
        held_at_start(lines, c, n - 1)
    }
}

/// What is wrong with where item `k` starts, if anything: a location must
/// exist, and a container must be one of the `count` items, and a container
/// of the right kind.
pub open spec fn start_error(lines: Seq<Seq<char>>, k: int, count: nat, location_count: nat) -> Option<LoadError> {
    let v = start_of(lines, k);
    if v < constants::ITEM_INDEX_START {
        if v >= location_count { Some(LoadError::BadReference) } else { None }
    } else if v >= constants::ITEM_INDEX_START + count {
        Some(LoadError::BadReference)
    } else {
        let c = parse_u32(item_line(lines, v - constants::ITEM_INDEX_START)[1], 16).unwrap();
        let p = parse_u32(item_line(lines, k)[1], 16).unwrap();
        if !has_bits(c, constants::CTRL_ITEM_CONTAINER) {
            Some(LoadError::BadSection)
        } else if has_bits(c, constants::CTRL_ITEM_CONTAINER_LIQUID) != has_bits(p, constants::CTRL_ITEM_LIQUID) {
            Some(LoadError::BadSection)
        } else {
            None
        }
    }
}

/// The first error in where the first `n` items start, in order of id.
pub open spec fn first_start_error(lines: Seq<Seq<char>>, n: int, count: nat, location_count: nat) -> Option<LoadError>
    decreases n,
{
    if n <= 0 {
        None
    } else if first_start_error(lines, n - 1, count, location_count) is Some {
        first_start_error(lines, n - 1, count, location_count)
    } else {
        start_error(lines, n - 1, count, location_count)
    }
}

pub proof fn lemma_first_start_error_mono(lines: Seq<Seq<char>>, a: int, b: int, count: nat, location_count: nat)
    requires
        0 <= a <= b,
        first_start_error(lines, a, count, location_count) is Some,
    ensures
        first_start_error(lines, b, count, location_count) == first_start_error(lines, a, count, location_count),
    decreases b - a,
{
    if a < b {
        lemma_first_start_error_mono(lines, a, b - 1, count, location_count);
    }
}

pub proof fn lemma_held_at_start_valid(lines: Seq<Seq<char>>, c: u32, n: int)
    requires
        0 <= n,
        n + constants::ITEM_INDEX_START <= u32::MAX,
    ensures
        held_at_start(lines, c, n) matches Some(x) ==> constants::ITEM_INDEX_START <= x < constants::ITEM_INDEX_START + n,
    decreases n,
{
    if n > 0 {
        lemma_held_at_start_valid(lines, c, n - 1);
        if start_of(lines, n - 1) == c && c >= constants::ITEM_INDEX_START {
            assert(held_at_start(lines, c, n) == Some((n - 1 + constants::ITEM_INDEX_START) as u32));
        }
    }
}

pub proof fn lemma_alias_names_id(f: Seq<Seq<char>>, k: int, id: ItemId)
    ensures
        forall|j: int| 0 <= j < item_alias_names(f, k, id).len() ==> (#[trigger] item_alias_names(f, k, id)[j]).1 == id,
    decreases f.len() - k,
{
    if 0 <= k < f.len() {
        lemma_alias_names_id(f, k + 1, id);
        let head: Seq<(Seq<char>, ItemId)> = if f[k].len() != 0 { seq![(f[k], id)] } else { Seq::empty() };
        assert forall|j: int| 0 <= j < item_alias_names(f, k, id).len() implies (#[trigger] item_alias_names(f, k, id)[j]).1 == id by {
            if j >= head.len() {
                assert(item_alias_names(f, k, id)[j] == item_alias_names(f, k + 1, id)[j - head.len()]);
            }
        }
    }
}

/// Every name an item section gives designates an item that the section describes.
pub proof fn lemma_section_names_described(lines: Seq<Seq<char>>)
    ensures
        forall|j: int| 0 <= j < section_item_names(lines).len() ==> has_item_line(lines, (#[trigger] section_item_names(lines)[j]).1),
    decreases lines.len(),
{
    if lines.len() > 0 {
        let prev = lines.drop_last();
        lemma_section_names_described(prev);
        let f = tab_fields(lines.last());
        let id = item_line_id(f);
        lemma_alias_names_id(f, 8, id);
        let names = section_item_names(lines);
        assert forall|j: int| 0 <= j < names.len() implies has_item_line(lines, (#[trigger] names[j]).1) by {
            let n0 = section_item_names(prev).len();
            if j < n0 {
                assert(names[j] == section_item_names(prev)[j]);
                let m = choose|m: int| 0 <= m < prev.len() && item_line_id(tab_fields(#[trigger] prev[m])) == names[j].1;
                assert(lines[m] == prev[m]);
            } else {
                let own = item_line_names(lines.last());
                assert(names[j] == own[j - n0]);
                if j - n0 >= 1 {
                    assert(own[j - n0] == item_alias_names(f, 8, id)[j - n0 - 1]);
                }
                assert(item_line_id(tab_fields(lines[lines.len() - 1])) == names[j].1);
            }
        }
    }
}

/// Whether `ids` holds the id of the item numbered `m`.
pub open spec fn holds_number(ids: Seq<u32>, m: u32) -> bool {
    ids.contains((m + constants::ITEM_INDEX_START) as u32)
}

/// Whether some of `lines` describes item `id`.
pub open spec fn has_item_line(lines: Seq<Seq<char>>, id: u32) -> bool {
    exists|j: int| 0 <= j < lines.len() && item_line_id(tab_fields(#[trigger] lines[j])) == id
}

/// The item named `key` by the last of `names` that names it.
pub open spec fn name_lookup(names: Seq<(String, ItemId)>, key: Seq<char>) -> Option<ItemId>
    decreases names.len(),
{
    if names.len() == 0 {
        None
    } else if names.last().0@ == key {
        Some(names.last().1)
    } else {
        name_lookup(names.drop_last(), key)
    }
}

pub struct ItemCollection {
    /// Item `constants::ITEM_INDEX_START + i` stands at position `i`.
    pub items: Vec<Item>,
    /// Names (short names and aliases) and the items they designate; a later entry overrides an earlier one.
    pub names: Vec<(String, ItemId)>,
}

/// What reading a section of item lines gives: the first line that does not
/// read, else whether the treasures still fit in a count that starts at
/// `treasure_count`, whether the ids are exactly `ITEM_INDEX_START` on,
/// `expected_count` of them, and whether every item's starting place exists
/// among `location_count` locations and the items.
pub open spec fn item_section_result(lines: Seq<Seq<char>>, expected_count: u32, treasure_count: u32, location_count: nat) -> Result<(), LoadError> {
    match first_error(lines, |l: Seq<char>| item_line_error(l)) {
        Some(e) => Err(e),
        None => if treasure_count + section_treasures(lines) > u32::MAX {
            Err(LoadError::BadSection)
        } else if !(forall|k: u32| has_item_line(lines, k)
            <==> constants::ITEM_INDEX_START <= k < constants::ITEM_INDEX_START + expected_count) {
            Err(LoadError::BadSection)
        } else {
            match first_start_error(lines, expected_count as int,
                expected_count as nat, location_count) {
                Some(e) => Err(e),
                None => Ok(()),
            }
        },
    }
}

impl View for ItemCollection {
    type V = Seq<Item>;

    open spec fn view(&self) -> Seq<Item> {
        self.items@
    }
}

impl ItemCollection {
    pub open spec fn spec_by_name(&self, key: Seq<char>) -> Option<ItemId> {
        name_lookup(self.names@, key)
    }

    pub fn new() -> (res: ItemCollection)
        ensures
            res@.len() == 0,
            res.names@.len() == 0,
    {
        ItemCollection { items: Vec::new(), names: Vec::new() }
    }

    /// The item a line of the item section (whose fields are `words`)
    /// describes, and where it starts.
    fn parse_item(words: &Vec<String>) -> (res: Result<(Item, u32), LoadError>)
        requires
            words@.len() >= 1,
        ensures
            ({
                let f = words@.map_values(|w: String| w@);
                &&& res is Err <==> item_fields_error(f) is Some
                &&& res matches Err(e) ==> item_fields_error(f) == Some(e)
                &&& res matches Ok((it, v)) ==> item_matches(it, f) && v == item_line_initial(f) && it.location == v
                    && it.within is None
            }),
    {
        let ghost f = words@.map_values(|w: String| w@);
        proof {
            assert(f[0] == words@[0]@);
        }
        let id = match str_to_u32(words[0].as_str(), 10) {
            Err(_) => return Err(LoadError::BadNumber),
            Ok(v) => v,
        };
        if words.len() < 2 {
            return Err(LoadError::MissingField);
        }
        assert(f[1] == words@[1]@);
        let properties = match str_to_u32(words[1].as_str(), 16) {
            Err(_) => return Err(LoadError::BadNumber),
            Ok(v) => v,
        };
        if words.len() < 3 {
            return Err(LoadError::MissingField);
        }
        assert(f[2] == words@[2]@);
        let initial = match str_to_u32(words[2].as_str(), 10) {
            Err(_) => return Err(LoadError::BadNumber),
            Ok(v) => v,
        };
        if words.len() < 4 {
            return Err(LoadError::MissingField);
        }
        assert(f[3] == words@[3]@);
        let size = match str_to_u32(words[3].as_str(), 10) {
            Err(_) => return Err(LoadError::BadNumber),
            Ok(v) => v,
        };
        if words.len() < 8 {
            return Err(LoadError::MissingField);
        }
        proof {
            assert(f[4] == words@[4]@ && f[5] == words@[5]@ && f[6] == words@[6]@ && f[7] == words@[7]@);
        }
        let none = "0".to_owned();
        let writing: Option<String> = if words[7] == none { None } else { Some(words[7].clone()) };
        proof {
            reveal_strlit("0");
            assert(none@ == "0"@);
        }
        let it = Item::new(id, properties, size, words[4].clone(), words[5].clone(), words[6].clone(), writing, initial);
        Ok((it, initial))
    }

    /// Files the names of an item line (whose fields are `words`): its short name and its aliases that are not empty.
    fn insert_names(&mut self, words: &Vec<String>, id: ItemId)
        requires
            words@.len() >= 8,
        ensures
            final(self).items == old(self).items,
            name_views(final(self).names@) == name_views(old(self).names@) + seq![(words@[4]@, id)]
                + item_alias_names(words@.map_values(|w: String| w@), 8, id),
    {
        let ghost f = words@.map_values(|w: String| w@);
        let ghost n0 = name_views(self.names@);
        self.names.push((words[4].clone(), id));
        proof {
            assert(name_views(self.names@) =~= n0.push((words@[4]@, id)));
            assert(n0 + seq![(words@[4]@, id)] =~= n0.push((words@[4]@, id)));
        }
        let ghost n1 = name_views(self.names@);
        let mut i: usize = 8;
        while i < words.len()
            invariant
                8 <= i <= words@.len(),
                f == words@.map_values(|w: String| w@),
                self.items == old(self).items,
                name_views(self.names@) + item_alias_names(f, i as int, id) == n1 + item_alias_names(f, 8, id),
            decreases words.len() - i,
        {
            assert(f[i as int] == words@[i as int]@);
            let ghost before = name_views(self.names@);
            if !words[i].as_str().is_empty() {
                self.names.push((words[i].clone(), id));
                proof {
                    assert(name_views(self.names@) =~= before.push((f[i as int], id)));
                    assert(before.push((f[i as int], id)) + item_alias_names(f, i + 1, id) =~= before + item_alias_names(f, i as int, id));
                }
            } else {
                assert(before + item_alias_names(f, i + 1, id) =~= before + item_alias_names(f, i as int, id));
            }
            i = i + 1;
        }
        proof {
            assert(item_alias_names(f, words@.len() as int, id) =~= Seq::empty());
            assert(name_views(self.names@) =~= name_views(self.names@) + item_alias_names(f, words@.len() as int, id));
        }
    }

    /// Reads an item section that reads whole (see `try_init`, which reports
    /// the first fault of any other): every item, placed where it starts.
    pub fn init(&mut self, buffer: &mut FileBuffer, expected_count: u32, locations: &mut LocationCollection,
        treasure_count: &mut u32)
        requires
            old(buffer).wf(),
            old(self)@.len() == 0,
            expected_count + constants::ITEM_INDEX_START <= u32::MAX,
            forall|l: int| 0 <= l < old(locations)@.len() ==> (#[trigger] old(locations)@[l]).items.len() == expected_count
                && old(locations)@[l].id == l,
            item_section_result(section_lines(old(buffer).data@, old(buffer).index as int), expected_count, *old(treasure_count), old(locations)@.len()) is Ok,
        ensures
            final(buffer).wf(),
            final(buffer).data == old(buffer).data,
            final(buffer).index == section_end(old(buffer).data@, old(buffer).index as int),
            ({
                let lines = section_lines(old(buffer).data@, old(buffer).index as int);
                &&& *final(treasure_count) == *old(treasure_count) + section_treasures(lines)
                &&& name_views(final(self).names@) == name_views(old(self).names@) + section_item_names(lines)
                &&& final(self)@.len() == expected_count
                &&& forall|k: int| 0 <= k < expected_count ==> {
                    &&& item_matches(#[trigger] final(self)@[k], item_line(lines, k))
                    &&& final(self)@[k].location == start_of(lines, k)
                    &&& final(self)@[k].within == held_at_start(lines, (k + constants::ITEM_INDEX_START) as u32, expected_count as int)
                    &&& final(self)@[k].id == k + constants::ITEM_INDEX_START
                }
                &&& final(locations)@.len() == old(locations)@.len()
                &&& forall|l: int| 0 <= l < old(locations)@.len() ==> #[trigger] final(locations)@[l] == old(locations)@[l].with_items(
                    Seq::new(expected_count as nat, |m: int| old(locations)@[l].items[m] || (start_of(lines, m) == l && l < constants::ITEM_INDEX_START)))
            }),
    {
        let _ = self.try_init(buffer, expected_count, locations, treasure_count);
    }

    /// Reads the item section: one item on each line, by id, properties,
    /// starting place, size, names, description and writing, with its
    /// aliases; counts the treasures into `treasure_count`. The ids must run
    /// from `ITEM_INDEX_START` on, `expected_count` of them; each item then
    /// goes to where it starts, in order of id: a location of `locations`,
    /// or a container of the right kind.
    pub fn try_init(&mut self, buffer: &mut FileBuffer, expected_count: u32, locations: &mut LocationCollection,
        treasure_count: &mut u32) -> (res: Result<(), LoadError>)
        requires
            old(buffer).wf(),
            old(self)@.len() == 0,
            expected_count + constants::ITEM_INDEX_START <= u32::MAX,
            forall|l: int| 0 <= l < old(locations)@.len() ==> (#[trigger] old(locations)@[l]).items.len() == expected_count
                && old(locations)@[l].id == l,
        ensures
            final(buffer).wf(),
            final(buffer).data == old(buffer).data,
            final(buffer).index == section_end(old(buffer).data@, old(buffer).index as int),
            res == item_section_result(section_lines(old(buffer).data@, old(buffer).index as int), expected_count, *old(treasure_count), old(locations)@.len()),
            res is Ok ==> ({
                let lines = section_lines(old(buffer).data@, old(buffer).index as int);
                &&& *final(treasure_count) == *old(treasure_count) + section_treasures(lines)
                &&& name_views(final(self).names@) == name_views(old(self).names@) + section_item_names(lines)
                &&& final(self)@.len() == expected_count
                &&& forall|k: int| 0 <= k < expected_count ==> {
                    &&& item_matches(#[trigger] final(self)@[k], item_line(lines, k))
                    &&& final(self)@[k].location == start_of(lines, k)
                    &&& final(self)@[k].within == held_at_start(lines, (k + constants::ITEM_INDEX_START) as u32, expected_count as int)
                    &&& final(self)@[k].id == k + constants::ITEM_INDEX_START
                }
                &&& final(locations)@.len() == old(locations)@.len()
                &&& forall|l: int| 0 <= l < old(locations)@.len() ==> #[trigger] final(locations)@[l] == old(locations)@[l].with_items(
                    Seq::new(expected_count as nat, |m: int| old(locations)@[l].items[m] || (start_of(lines, m) == l && l < constants::ITEM_INDEX_START)))
            }),
    {
        let lines = buffer.read_section();
        let ghost lv = section_lines(old(buffer).data@, old(buffer).index as int);
        let ghost err = |l: Seq<char>| item_line_error(l);
        let mut all_words: Vec<Vec<String>> = Vec::new();
        let mut ids: Vec<u32> = Vec::new();
        let mut treasures: u64 = 0;
        let mut i: usize = 0;
        proof {
            assert(lv.take(0) =~= Seq::<Seq<char>>::empty());
            assert(ids@ =~= item_ids_of(lv.take(0)));
            assert(name_views(self.names@) =~= name_views(old(self).names@) + section_item_names(lv.take(0)));
        }
        while i < lines.len()
            invariant
                buffer.wf(),
                buffer.data == old(buffer).data,
                buffer.index == section_end(old(buffer).data@, old(buffer).index as int),
                lines@.map_values(|l: String| l@) == lv,
                lv == section_lines(old(buffer).data@, old(buffer).index as int),
                err == (|l: Seq<char>| item_line_error(l)),
                i <= lines@.len(),
                self.items == old(self).items,
                first_error(lv.take(i as int), err) is None,
                ids@ == item_ids_of(lv.take(i as int)),
                treasures == section_treasures(lv.take(i as int)),
                treasures <= i,
                name_views(self.names@) == name_views(old(self).names@) + section_item_names(lv.take(i as int)),
                all_words@.len() == i,
                forall|j: int| 0 <= j < i ==> (#[trigger] all_words@[j])@.map_values(|w: String| w@) == tab_fields(lv[j]),
            decreases lines.len() - i,
        {
            let words = split_tabs(lines[i].as_str());
            proof {
                assert(lv[i as int] == lines@[i as int]@);
                lemma_first_error_step(lv, err, i as int);
                lemma_tab_fields_nonempty(lv[i as int]);
            }
            let (it, _) = match Self::parse_item(&words) {
                Err(e) => return Err(e),
                Ok(p) => p,
            };
            let id = it.id;
            let ghost names0 = name_views(self.names@);
            self.insert_names(&words, id);
            if it.has_property(constants::CTRL_ITEM_TREASURE) {
                treasures = treasures + 1;
            }
            ids.push(id);
            all_words.push(words);
            proof {
                let t = lv.take(i + 1);
                assert(t.drop_last() =~= lv.take(i as int));
                assert(t.last() == lv[i as int]);
                assert(ids@ =~= item_ids_of(t));
                assert(name_views(self.names@) =~= name_views(old(self).names@) + section_item_names(t));
            }
            i = i + 1;
        }
        assert(lv.take(lines@.len() as int) =~= lv);
        if treasures > 0xffff_ffff - (*treasure_count as u64) {
            return Err(LoadError::BadSection);
        }
        let n = ids.len();
        let mut in_range = true;
        let mut k: usize = 0;
        while k < n
            invariant
                n == ids@.len(),
                k <= n,
                expected_count + constants::ITEM_INDEX_START <= u32::MAX,
                in_range == forall|m: int| 0 <= m < k ==> constants::ITEM_INDEX_START <= #[trigger] ids@[m] < constants::ITEM_INDEX_START + expected_count,
            decreases n - k,
        {
            if ids[k] < constants::ITEM_INDEX_START || ids[k] >= constants::ITEM_INDEX_START + expected_count {
                in_range = false;
            }
            k = k + 1;
        }
        let mut complete = true;
        let mut q: u32 = 0;
        while q < expected_count
            invariant
                q <= expected_count,
                expected_count + constants::ITEM_INDEX_START <= u32::MAX,
                complete == forall|m: u32| m < q ==> #[trigger] holds_number(ids@, m),
            decreases expected_count - q,
        {
            assert((q + constants::ITEM_INDEX_START) as u32 == q + constants::ITEM_INDEX_START);
            let found = vec_contains(&ids, q + constants::ITEM_INDEX_START);
            assert(holds_number(ids@, q) == found);
            if !found {
                complete = false;
            }
            q = q + 1;
        }
        proof {
            assert forall|m: u32| ids@.contains(m) <==> has_item_line(lv, m) by {
                if ids@.contains(m) {
                    let r = choose|r: int| 0 <= r < ids@.len() && ids@[r] == m;
                    assert(item_line_id(tab_fields(lv[r])) == m);
                }
                if has_item_line(lv, m) {
                    let r = choose|r: int| 0 <= r < lv.len() && item_line_id(tab_fields(#[trigger] lv[r])) == m;
                    assert(ids@[r] == m);
                }
            }
            if in_range && complete {
                assert forall|m: u32| ids@.contains(m) <==> constants::ITEM_INDEX_START <= m < constants::ITEM_INDEX_START + expected_count by {
                    if ids@.contains(m) {
                        let r = choose|r: int| 0 <= r < ids@.len() && ids@[r] == m;
                    }
                    if constants::ITEM_INDEX_START <= m < constants::ITEM_INDEX_START + expected_count {
                        let mm = (m - constants::ITEM_INDEX_START) as u32;
                        assert(mm < expected_count);
                        assert(holds_number(ids@, mm));
                    }
                }
            } else if !in_range {
                let r = choose|r: int| 0 <= r < ids@.len() && !(constants::ITEM_INDEX_START <= #[trigger] ids@[r] < constants::ITEM_INDEX_START + expected_count);
                assert(ids@.contains(ids@[r]));
                assert(!(has_item_line(lv, ids@[r]) <==> constants::ITEM_INDEX_START <= ids@[r] < constants::ITEM_INDEX_START + expected_count));
            } else {
                let m = choose|m: u32| m < expected_count && !holds_number(ids@, m);
                let mm = (m + constants::ITEM_INDEX_START) as u32;
                assert(!(has_item_line(lv, mm) <==> constants::ITEM_INDEX_START <= mm < constants::ITEM_INDEX_START + expected_count));
            }
        }
        if !(in_range && complete) {
            return Err(LoadError::BadSection);
        }
        proof {
            assert forall|m: u32| ids@.contains(m) <==> constants::ITEM_INDEX_START <= m < constants::ITEM_INDEX_START + expected_count by {
                if ids@.contains(m) {
                    let r = choose|r: int| 0 <= r < ids@.len() && ids@[r] == m;
                }
                if constants::ITEM_INDEX_START <= m < constants::ITEM_INDEX_START + expected_count {
                    let mm = (m - constants::ITEM_INDEX_START) as u32;
                    assert(mm < expected_count);
                }
            }
        }
        self.build_items(&all_words, &ids, expected_count, Ghost(lv));
        match self.place_items(expected_count, locations, Ghost(lv)) {
            Err(e) => return Err(e),
            Ok(()) => {},
        }
        *treasure_count = (*treasure_count as u64 + treasures) as u32;
        Ok(())
    }

    /// Sets up the items, in order of id, each as the last line describing it says.
    fn build_items(&mut self, all_words: &Vec<Vec<String>>, ids: &Vec<u32>, expected_count: u32, Ghost(lv): Ghost<Seq<Seq<char>>>)
        requires
            old(self)@.len() == 0,
            expected_count + constants::ITEM_INDEX_START <= u32::MAX,
            ids@ == item_ids_of(lv),
            all_words@.len() == lv.len(),
            forall|j: int| 0 <= j < lv.len() ==> (#[trigger] all_words@[j])@.map_values(|w: String| w@) == tab_fields(lv[j]),
            first_error(lv, |l: Seq<char>| item_line_error(l)) is None,
            forall|m: u32| ids@.contains(m) <==> constants::ITEM_INDEX_START <= m < constants::ITEM_INDEX_START + expected_count,
        ensures
            final(self).names == old(self).names,
            final(self)@.len() == expected_count,
            forall|k: int| 0 <= k < expected_count ==> {
                &&& item_matches(#[trigger] final(self)@[k], item_line(lv, k))
                &&& final(self)@[k].location == start_of(lv, k)
                &&& final(self)@[k].within is None
                &&& final(self)@[k].id == k + constants::ITEM_INDEX_START
            },
    {
        let mut k: u32 = 0;
        while k < expected_count
            invariant
                k <= expected_count,
                expected_count + constants::ITEM_INDEX_START <= u32::MAX,
                self.names == old(self).names,
                self@.len() == k,
                ids@ == item_ids_of(lv),
                all_words@.len() == lv.len(),
                forall|j: int| 0 <= j < lv.len() ==> (#[trigger] all_words@[j])@.map_values(|w: String| w@) == tab_fields(lv[j]),
                first_error(lv, |l: Seq<char>| item_line_error(l)) is None,
                forall|m: u32| ids@.contains(m) <==> constants::ITEM_INDEX_START <= m < constants::ITEM_INDEX_START + expected_count,
                forall|q: int| 0 <= q < k ==> {
                    &&& item_matches(#[trigger] self@[q], item_line(lv, q))
                    &&& self@[q].location == start_of(lv, q)
                    &&& self@[q].within is None
                    &&& self@[q].id == q + constants::ITEM_INDEX_START
                },
            decreases expected_count - k,
        {
            let id = k + constants::ITEM_INDEX_START;
            assert(ids@.contains(id));
            let j = match crate::location_collection::find_last(ids, id) {
                Some(j) => j,
                None => {
                    proof {
                        crate::location_collection::lemma_last_index_some(ids@, id);
                    }
                    assert(false);
                    0
                },
            };
            proof {
                crate::location_collection::lemma_last_index_some(ids@, id);
                lemma_first_error_none(lv, |l: Seq<char>| item_line_error(l), j as int);
                lemma_tab_fields_nonempty(lv[j as int]);
                assert(item_line(lv, k as int) == tab_fields(lv[j as int]));
            }
            let (it, _) = match Self::parse_item(&all_words[j]) {
                Ok(p) => p,
                Err(_) => {
                    assert(false);
                    return;
                },
            };
            proof {
                assert(ids@[j as int] == id);
            }
            let ghost before = self@;
            self.items.push(it);
            proof {
                assert forall|q: int| 0 <= q < k + 1 implies {
                    &&& item_matches(#[trigger] self@[q], item_line(lv, q))
                    &&& self@[q].location == start_of(lv, q)
                    &&& self@[q].within is None
                    &&& self@[q].id == q + constants::ITEM_INDEX_START
                } by {
                    if q < k {
                        assert(self@[q] == before[q]);
                    }
                }
            }
            k = k + 1;
        }
    }

    /// Puts each item where it starts, in order of id: at a location, or
    /// into a container of the right kind.
    fn place_items(&mut self, expected_count: u32, locations: &mut LocationCollection, Ghost(lv): Ghost<Seq<Seq<char>>>)
        -> (res: Result<(), LoadError>)
        requires
            expected_count + constants::ITEM_INDEX_START <= u32::MAX,
            old(self)@.len() == expected_count,
            forall|k: int| 0 <= k < expected_count ==> {
                &&& item_matches(#[trigger] old(self)@[k], item_line(lv, k))
                &&& old(self)@[k].location == start_of(lv, k)
                &&& old(self)@[k].within is None
                &&& old(self)@[k].id == k + constants::ITEM_INDEX_START
            },
            forall|l: int| 0 <= l < old(locations)@.len() ==> (#[trigger] old(locations)@[l]).items.len() == expected_count
                && old(locations)@[l].id == l,
        ensures
            final(self).names == old(self).names,
            res == match first_start_error(lv, expected_count as int, expected_count as nat, old(locations)@.len()) {
                Some(e) => Err(e),
                None => Ok(()),
            },
            res is Ok ==> {
                &&& final(self)@.len() == expected_count
                &&& forall|k: int| 0 <= k < expected_count ==> {
                    &&& item_matches(#[trigger] final(self)@[k], item_line(lv, k))
                    &&& final(self)@[k].location == start_of(lv, k)
                    &&& final(self)@[k].within == held_at_start(lv, (k + constants::ITEM_INDEX_START) as u32, expected_count as int)
                    &&& final(self)@[k].id == k + constants::ITEM_INDEX_START
                }
                &&& final(locations)@.len() == old(locations)@.len()
                &&& forall|l: int| 0 <= l < old(locations)@.len() ==> #[trigger] final(locations)@[l] == old(locations)@[l].with_items(
                    Seq::new(expected_count as nat, |m: int| old(locations)@[l].items[m] || (start_of(lv, m) == l && l < constants::ITEM_INDEX_START)))
            },
    {
        let nloc = locations.locations.len();
        let mut k: u32 = 0;
        proof {
            assert forall|l: int| 0 <= l < old(locations)@.len() implies #[trigger] locations@[l] == old(locations)@[l].with_items(
                Seq::new(expected_count as nat, |m: int| old(locations)@[l].items[m] || (m < 0 && start_of(lv, m) == l && l < constants::ITEM_INDEX_START))) by {
                assert(old(locations)@[l].items =~= Seq::new(expected_count as nat, |m: int| old(locations)@[l].items[m] || (m < 0 && start_of(lv, m) == l && l < constants::ITEM_INDEX_START)));
            }
        }
        while k < expected_count
            invariant
                k <= expected_count,
                expected_count + constants::ITEM_INDEX_START <= u32::MAX,
                nloc == old(locations)@.len(),
                self.names == old(self).names,
                self@.len() == expected_count,
                first_start_error(lv, k as int, expected_count as nat, nloc as nat) is None,
                forall|q: int| 0 <= q < expected_count ==> {
                    &&& item_matches(#[trigger] self@[q], item_line(lv, q))
                    &&& self@[q].location == start_of(lv, q)
                    &&& self@[q].within == held_at_start(lv, (q + constants::ITEM_INDEX_START) as u32, k as int)
                    &&& self@[q].id == q + constants::ITEM_INDEX_START
                },
                locations@.len() == nloc,
                forall|l: int| 0 <= l < nloc ==> #[trigger] locations@[l] == old(locations)@[l].with_items(
                    Seq::new(expected_count as nat, |m: int| old(locations)@[l].items[m] || (m < k && start_of(lv, m) == l && l < constants::ITEM_INDEX_START))),
                forall|l: int| 0 <= l < nloc ==> (#[trigger] old(locations)@[l]).items.len() == expected_count
                    && old(locations)@[l].id == l,
            decreases expected_count - k,
        {
            let id = k + constants::ITEM_INDEX_START;
            let v = self.items[k as usize].location;
            let ghost s0 = self@;
            let ghost l0 = locations@;
            if v < constants::ITEM_INDEX_START {
                if v as usize >= nloc {
                    proof {
                        assert(start_error(lv, k as int, expected_count as nat, nloc as nat) == Some(LoadError::BadReference));
                        lemma_first_start_error_mono(lv, k + 1, expected_count as int, expected_count as nat, nloc as nat);
                    }
                    return Err(LoadError::BadReference);
                }
                locations.insert_item_at(v, self, id);
                proof {
                    assert forall|l: int| 0 <= l < nloc implies #[trigger] locations@[l] == old(locations)@[l].with_items(
                        Seq::new(expected_count as nat, |m: int| old(locations)@[l].items[m] || (m < k + 1 && start_of(lv, m) == l && l < constants::ITEM_INDEX_START))) by {
                        assert(locations@[l].items =~= Seq::new(expected_count as nat, |m: int| old(locations)@[l].items[m] || (m < k + 1 && start_of(lv, m) == l && l < constants::ITEM_INDEX_START)));
                    }
                    assert forall|q: int| 0 <= q < expected_count implies {
                        &&& item_matches(#[trigger] self@[q], item_line(lv, q))
                        &&& self@[q].location == start_of(lv, q)
                        &&& self@[q].within == held_at_start(lv, (q + constants::ITEM_INDEX_START) as u32, k + 1)
                        &&& self@[q].id == q + constants::ITEM_INDEX_START
                    } by {
                        assert(s0[q].within == held_at_start(lv, (q + constants::ITEM_INDEX_START) as u32, k as int));
                    }
                }
            } else {
                if v >= constants::ITEM_INDEX_START + expected_count {
                    proof {
                        assert(start_error(lv, k as int, expected_count as nat, nloc as nat) == Some(LoadError::BadReference));
                        lemma_first_start_error_mono(lv, k + 1, expected_count as int, expected_count as nat, nloc as nat);
                    }
                    return Err(LoadError::BadReference);
                }
                let ci = (v - constants::ITEM_INDEX_START) as usize;
                let c = &self.items[ci];
                let liquid = self.items[k as usize].has_property(constants::CTRL_ITEM_LIQUID);
                proof {
                    assert(item_matches(self@[ci as int], item_line(lv, ci as int)));
                    assert(item_matches(self@[k as int], item_line(lv, k as int)));
                }
                if !c.has_property(constants::CTRL_ITEM_CONTAINER) {
                    proof {
                        assert(start_error(lv, k as int, expected_count as nat, nloc as nat) == Some(LoadError::BadSection));
                        lemma_first_start_error_mono(lv, k + 1, expected_count as int, expected_count as nat, nloc as nat);
                    }
                    return Err(LoadError::BadSection);
                }
                if c.has_property(constants::CTRL_ITEM_CONTAINER_LIQUID) != liquid {
                    proof {
                        assert(start_error(lv, k as int, expected_count as nat, nloc as nat) == Some(LoadError::BadSection));
                        lemma_first_start_error_mono(lv, k + 1, expected_count as int, expected_count as nat, nloc as nat);
                    }
                    return Err(LoadError::BadSection);
                }
                Item::set_within(self, v, Some(id));
                proof {
                    assert forall|l: int| 0 <= l < nloc implies #[trigger] locations@[l] == old(locations)@[l].with_items(
                        Seq::new(expected_count as nat, |m: int| old(locations)@[l].items[m] || (m < k + 1 && start_of(lv, m) == l && l < constants::ITEM_INDEX_START))) by {
                        assert(locations@[l].items =~= Seq::new(expected_count as nat, |m: int| old(locations)@[l].items[m] || (m < k + 1 && start_of(lv, m) == l && l < constants::ITEM_INDEX_START)));
                    }
                    assert forall|q: int| 0 <= q < expected_count implies {
                        &&& item_matches(#[trigger] self@[q], item_line(lv, q))
                        &&& self@[q].location == start_of(lv, q)
                        &&& self@[q].within == held_at_start(lv, (q + constants::ITEM_INDEX_START) as u32, k + 1)
                        &&& self@[q].id == q + constants::ITEM_INDEX_START
                    } by {
                        assert(s0[q].within == held_at_start(lv, (q + constants::ITEM_INDEX_START) as u32, k as int));
                    }
                }
            }
            proof {
                assert(start_error(lv, k as int, expected_count as nat, nloc as nat) is None);
            }
            k = k + 1;
        }
        proof {
            assert forall|l: int| 0 <= l < old(locations)@.len() implies #[trigger] locations@[l] == old(locations)@[l].with_items(
                Seq::new(expected_count as nat, |m: int| old(locations)@[l].items[m] || (start_of(lv, m) == l && l < constants::ITEM_INDEX_START))) by {
                assert(Seq::new(expected_count as nat, |m: int| old(locations)@[l].items[m] || (m < k && start_of(lv, m) == l && l < constants::ITEM_INDEX_START))
                    =~= Seq::new(expected_count as nat, |m: int| old(locations)@[l].items[m] || (start_of(lv, m) == l && l < constants::ITEM_INDEX_START)));
            }
        }
        Ok(())
    }

    pub fn get_by_id(&self, key: ItemId) -> (res: Option<&Item>)
        ensures
            res == (if valid_item_id(self@, key) { Some(&self@[item_index(key)]) } else { None }),
    {
        if key >= constants::ITEM_INDEX_START && ((key - constants::ITEM_INDEX_START) as usize) < self.items.len() {
            Some(&self.items[(key - constants::ITEM_INDEX_START) as usize])
        } else {
            None
        }
    }

    /// The item that item `id` holds, if any.
    pub fn within_of(&self, id: ItemId) -> (res: Option<ItemId>)
        ensures
            res == within_of(self@, id),
    {
        match self.get_by_id(id) {
            None => None,
            Some(it) => it.within,
        }
    }

    pub fn get_by_name(&self, key: &str) -> (res: Option<ItemId>)
        ensures
            res == self.spec_by_name(key@),
    {
        let k = key.to_owned();
        let mut i = self.names.len();
        assert(self.names@.take(i as int) =~= self.names@);
        while i > 0
            invariant
                i <= self.names@.len(),
                k@ == key@,
                name_lookup(self.names@.take(i as int), key@) == self.spec_by_name(key@),
            decreases i,
        {
            assert(self.names@.take(i as int).drop_last() =~= self.names@.take(i - 1));
            if self.names[i - 1].0 == k {
                return Some(self.names[i - 1].1);
            }
            i = i - 1;
        }
        None
    }
}

} // verus!
