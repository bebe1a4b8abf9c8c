//! All locations of the game, by id.
use vstd::prelude::*;

use crate::constants;
use crate::data_collection::{ItemId, LocationId};
use crate::item::valid_item_id;
use crate::item_collection::ItemCollection;
use crate::item_list::{relocate, set_flag};
use crate::location::{DIRECTION_COUNT, Location, LocationV, only_exit};
use crate::data_collection::str_to_u32;
use crate::file_buffer::{FileBuffer, LoadError, first_error, lemma_first_error_step, section_end, section_lines, split_tabs, tab_fields};
use crate::text::parse_u32;
use crate::command_collection::vec_contains;

verus! {

/// The field of a location line that holds the exit of direction slot `d`
/// (north, northeast, east, southeast, south, southwest, west, northwest, up, down).
pub open spec fn link_field(d: int) -> int {
    if d == 0 { 1 } else if d == 1 { 5 } else if d == 2 { 3 } else if d == 3 { 7 } else if d == 4 { 2 }
    else if d == 5 { 6 } else if d == 6 { 4 } else if d == 7 { 8 } else if d == 8 { 9 } else { 10 }
}

pub open spec fn loc_line_id(f: Seq<Seq<char>>) -> u32 {
    parse_u32(f[0], 10).unwrap()
}

/// The location the exit in direction slot `d` leads to; 0 for none.
pub open spec fn loc_link(f: Seq<Seq<char>>, d: int) -> u32 {
    parse_u32(f[link_field(d)], 10).unwrap()
}

/// What is wrong with a line of the location section, if anything: it
/// needs an id, properties, three names and two description suffixes that
/// are not empty, and ten exits, all numbers.
pub open spec fn location_fields_error(f: Seq<Seq<char>>) -> Option<LoadError> {
    match location_head_error(f) {
        Some(e) => Some(e),
        None => if exists|d: int| 0 <= d < 10 && parse_u32(f[link_field(d)], 10) is Err {
            Some(LoadError::BadNumber)
        } else {
            None
        },
    }
}

/// What is wrong with the id, properties, names and descriptions of a location line, if anything.
pub open spec fn location_head_error(f: Seq<Seq<char>>) -> Option<LoadError> {
    if parse_u32(f[0], 10) is Err {
        Some(LoadError::BadNumber)
    } else if f.len() < 12 {
        Some(LoadError::MissingField)
    } else if parse_u32(f[11], 16) is Err {
        Some(LoadError::BadNumber)
    } else if f.len() < 15 {
        Some(LoadError::MissingField)
    } else if exists|j: int| 15 <= j < f.len() && f[j].len() == 0 {
        Some(LoadError::BadSection)
    } else if f.len() != 17 {
        Some(LoadError::BadSection)
    } else {
        None
    }
}

pub open spec fn location_line_error(line: Seq<char>) -> Option<LoadError> {
    location_fields_error(tab_fields(line))
}

/// The exits of a location line: those it names, and out to the only one.
pub open spec fn loc_directions(f: Seq<Seq<char>>) -> Seq<Option<LocationId>> {
    let base = Seq::new(DIRECTION_COUNT as nat, |d: int| if d < 10 && loc_link(f, d) != 0 { Some(loc_link(f, d)) } else { None });
    base.update(11, only_exit(base))
}

/// The location a line of the location section describes.
pub open spec fn loc_of_fields(f: Seq<Seq<char>>) -> LocationV {
    LocationV {
        id: loc_line_id(f),
        properties: parse_u32(f[11], 16).unwrap(),
        shortname: f[12],
        longname: f[13],
        description_common: f[14],
        description_suffixes: seq![f[15], f[16]],
        description_suffix_index: constants::LOCATION_DESCRIPTION_SUFFIX_INDEX_DEFAULT,
        visited: false,
        directions: loc_directions(f),
        items: Seq::new(constants::EXPECTED_ITEMS as nat, |i: int| false),
    }
}

/// The last of `lines` that describes location `id`, if any.
pub open spec fn last_with_id(lines: Seq<Seq<char>>, id: u32) -> Option<int>
    decreases lines.len(),
{
    if lines.len() == 0 {
        None
    } else if loc_line_id(tab_fields(lines.last())) == id {
        Some(lines.len() - 1)
    } else {
        last_with_id(lines.drop_last(), id)
    }
}

/// Whether some of `lines` describes location `id`.
pub open spec fn has_loc_line(lines: Seq<Seq<char>>, id: u32) -> bool {
    exists|j: int| 0 <= j < lines.len() && loc_line_id(tab_fields(#[trigger] lines[j])) == id
}

/// Whether every exit of the locations in force leads to a location described.
pub open spec fn loc_refs_ok(lines: Seq<Seq<char>>) -> bool {
    forall|j: int, d: int| 0 <= j < lines.len() && 0 <= d < 10 && last_with_id(lines, loc_line_id(tab_fields(lines[j]))) == Some(j)
        && #[trigger] loc_link(tab_fields(#[trigger] lines[j]), d) != 0 ==> has_loc_line(lines, loc_link(tab_fields(lines[j]), d))
}

/// The ids of the locations `lines` describe, in order.
pub open spec fn ids_of(lines: Seq<Seq<char>>) -> Seq<u32> {
    Seq::new(lines.len(), |j: int| loc_line_id(tab_fields(lines[j])))
}

/// The last position of `id` in `ids`, if any.
pub open spec fn last_index(ids: Seq<u32>, id: u32) -> Option<int>
    decreases ids.len(),
{
    if ids.len() == 0 {
        None
    } else if ids.last() == id {
        Some(ids.len() - 1)
    } else {
        last_index(ids.drop_last(), id)
    }
}

pub proof fn lemma_last_with_id(lines: Seq<Seq<char>>, id: u32)
    ensures
        last_with_id(lines, id) == last_index(ids_of(lines), id),
        last_with_id(lines, id) matches Some(j) ==> 0 <= j < lines.len() && loc_line_id(tab_fields(lines[j])) == id,
        last_with_id(lines, id) is None <==> !has_loc_line(lines, id),
    decreases lines.len(),
{
    if lines.len() > 0 {
        assert(ids_of(lines).drop_last() =~= ids_of(lines.drop_last()));
        lemma_last_with_id(lines.drop_last(), id);
        if loc_line_id(tab_fields(lines.last())) != id {
            if has_loc_line(lines, id) {
                let j = choose|j: int| 0 <= j < lines.len() && loc_line_id(tab_fields(#[trigger] lines[j])) == id;
                assert(lines.drop_last()[j] == lines[j]);
            }
            if has_loc_line(lines.drop_last(), id) {
                let j = choose|j: int| 0 <= j < lines.drop_last().len() && loc_line_id(tab_fields(#[trigger] lines.drop_last()[j])) == id;
                assert(lines.drop_last()[j] == lines[j]);
            }
        } else {
            assert(loc_line_id(tab_fields(lines[lines.len() - 1])) == id);
        }
    }
}

pub proof fn lemma_last_index_some(ids: Seq<u32>, id: u32)
    ensures
        last_index(ids, id) matches Some(j) ==> 0 <= j < ids.len() && ids[j] == id,
        last_index(ids, id) is None <==> !ids.contains(id),
    decreases ids.len(),
{
    if ids.len() > 0 {
        lemma_last_index_some(ids.drop_last(), id);
        if ids.last() != id {
            if ids.contains(id) {
                let j = choose|j: int| 0 <= j < ids.len() && ids[j] == id;
                assert(ids.drop_last()[j] == id);
            }
            if ids.drop_last().contains(id) {
                let j = choose|j: int| 0 <= j < ids.drop_last().len() && ids.drop_last()[j] == id;
                assert(ids[j] == id);
            }
        } else {
            assert(ids[ids.len() - 1] == id);
        }
    }
}

/// The last position of `id` in `ids`, if any.
pub(crate) fn find_last(ids: &Vec<u32>, id: u32) -> (res: Option<usize>)
    ensures
        res matches Some(j) ==> last_index(ids@, id) == Some(j as int),
        res is None ==> last_index(ids@, id) is None,
{
    let mut i = ids.len();
    assert(ids@.take(i as int) =~= ids@);
    while i > 0
        invariant
            i <= ids@.len(),
            last_index(ids@.take(i as int), id) == last_index(ids@, id),
        decreases i,
    {
        assert(ids@.take(i as int).drop_last() =~= ids@.take(i - 1));
        if ids[i - 1] == id {
            return Some(i - 1);
        }
        i = i - 1;
    }
    assert(ids@.take(0) =~= Seq::<u32>::empty());
    None
}

pub struct LocationCollection {
    /// Location `i` stands at position `i`.
    pub locations: Vec<Location>,
}

/// What reading a section of location lines gives: the first line that does
/// not read, else whether every exit leads to a location described and the
/// ids are exactly `0..expected_count`.
pub open spec fn location_section_result(lines: Seq<Seq<char>>, expected_count: u32) -> Result<(), LoadError> {
    match first_error(lines, |l: Seq<char>| location_line_error(l)) {
        Some(e) => Err(e),
        None => if !loc_refs_ok(lines) {
            Err(LoadError::BadReference)
        } else if !(forall|k: u32| has_loc_line(lines, k) <==> k < expected_count) {
            Err(LoadError::BadSection)
        } else {
            Ok(())
        },
    }
}

impl View for LocationCollection {
    type V = Seq<LocationV>;

    open spec fn view(&self) -> Seq<LocationV> {
        self.locations@.map_values(|l: Location| l@)
    }
}

impl LocationCollection {
    pub fn new() -> (res: LocationCollection)
        ensures
            res@.len() == 0,
    {
        LocationCollection { locations: Vec::new() }
    }

    pub fn get(&self, key: LocationId) -> (res: Option<&Location>)
        ensures
            res matches Some(l) ==> (key < self@.len() && l@ == self@[key as int] && *l == self.locations@[key as int]),
            res is None ==> key >= self@.len(),
    {
        if (key as usize) < self.locations.len() {
            Some(&self.locations[key as usize])
        } else {
            None
        }
    }

    /// The id and properties of a line of the location section (whose
    /// fields are `words`), with its names and descriptions.
    fn parse_location(words: &Vec<String>) -> (res: Result<(Location, LocationId), LoadError>)
        requires
            words@.len() >= 1,
        ensures
            ({
                let f = words@.map_values(|w: String| w@);
                &&& res is Err <==> location_head_error(f) is Some
                &&& res matches Err(e) ==> location_head_error(f) == Some(e)
                &&& res matches Ok((l, id)) ==> f.len() == 17 && id == loc_line_id(f)
                    && l@ == (LocationV { directions: Seq::new(DIRECTION_COUNT as nat, |i: int| None::<LocationId>), ..loc_of_fields(f) })
            }),
    {
        let ghost f = words@.map_values(|w: String| w@);
        proof {
            assert(f[0] == words@[0]@);
        }
        let id = match str_to_u32(words[0].as_str(), 10) {
            Err(_) => return Err(LoadError::BadNumber),
            Ok(v) => v,
        };
        if words.len() < 12 {
            return Err(LoadError::MissingField);
        }
        proof {
            assert(f[11] == words@[11]@);
        }
        let properties = match str_to_u32(words[11].as_str(), 16) {
            Err(_) => return Err(LoadError::BadNumber),
            Ok(v) => v,
        };
        if words.len() < 15 {
            return Err(LoadError::MissingField);
        }
        let mut description_suffixes: Vec<String> = Vec::new();
        let mut i: usize = 15;
        while i < words.len()
            invariant
                15 <= i <= words@.len(),
                f == words@.map_values(|w: String| w@),
                parse_u32(f[0], 10) is Ok,
                parse_u32(f[11], 16) is Ok,
                description_suffixes@.map_values(|s: String| s@) == f.subrange(15, i as int),
                forall|j: int| 15 <= j < i ==> f[j].len() != 0,
            decreases words.len() - i,
        {
            proof {
                assert(f[i as int] == words@[i as int]@);
            }
            if words[i].as_str().is_empty() {
                return Err(LoadError::BadSection);
            }
            let ghost before = description_suffixes@;
            let w = words[i].clone();
            description_suffixes.push(w);
            proof {
                assert(description_suffixes@ == before.push(w));
                assert(description_suffixes@.map_values(|s: String| s@) =~= before.map_values(|s: String| s@).push(w@));
                assert(f.subrange(15, i + 1) =~= f.subrange(15, i as int).push(f[i as int]));
            }
            i = i + 1;
        }
        if description_suffixes.len() != 2 {
            return Err(LoadError::BadSection);
        }
        proof {
            assert(f[12] == words@[12]@ && f[13] == words@[13]@ && f[14] == words@[14]@);
            assert(f.subrange(15, 17) =~= seq![f[15], f[16]]);
        }
        let loc = Location::new(id, properties, words[12].clone(), words[13].clone(), words[14].clone(), description_suffixes,
            constants::EXPECTED_ITEMS as usize);
        proof {
            let v = LocationV { directions: Seq::new(DIRECTION_COUNT as nat, |i: int| None::<LocationId>), ..loc_of_fields(f) };
            assert(loc@.description_suffixes =~= v.description_suffixes);
            assert(loc@.items =~= v.items);
            assert(loc@.directions =~= v.directions);
        }
        Ok((loc, id))
    }

    /// The ten exits of a line of the location section (whose fields are `words`).
    fn parse_links(words: &Vec<String>) -> (res: Result<Vec<u32>, LoadError>)
        requires
            words@.len() >= 11,
        ensures
            ({
                let f = words@.map_values(|w: String| w@);
                &&& res is Err <==> exists|d: int| 0 <= d < 10 && parse_u32(f[link_field(d)], 10) is Err
                &&& res is Err ==> res == Err::<Vec<u32>, LoadError>(LoadError::BadNumber)
                &&& res matches Ok(v) ==> v@ == Seq::new(10, |d: int| loc_link(f, d))
            }),
    {
        let ghost f = words@.map_values(|w: String| w@);
        let fields: [usize; 10] = [1, 5, 3, 7, 2, 6, 4, 8, 9, 10];
        let mut links: Vec<u32> = Vec::new();
        let mut d: usize = 0;
        while d < 10
            invariant
                d <= 10,
                words@.len() >= 11,
                f == words@.map_values(|w: String| w@),
                fields@ == seq![1usize, 5, 3, 7, 2, 6, 4, 8, 9, 10],
                links@ == Seq::new(d as nat, |k: int| loc_link(f, k)),
                forall|k: int| 0 <= k < d ==> parse_u32(f[link_field(k)], 10) is Ok,
            decreases 10 - d,
        {
            let field = fields[d];
            assert(field == link_field(d as int));
            assert(f[field as int] == words@[field as int]@);
            match str_to_u32(words[field].as_str(), 10) {
                Err(_) => return Err(LoadError::BadNumber),
                Ok(v) => {
                    links.push(v);
                    assert(links@ =~= Seq::new((d + 1) as nat, |k: int| loc_link(f, k)));
                },
            }
            d = d + 1;
        }
        Ok(links)
    }

    /// The location a line of the location section describes, with its exits.
    fn make_location(words: &Vec<String>, links: &Vec<u32>) -> (res: Location)
        requires
            words@.len() >= 1,
            location_fields_error(words@.map_values(|w: String| w@)) is None,
            links@ == Seq::new(10, |d: int| loc_link(words@.map_values(|w: String| w@), d)),
        ensures
            res@ == loc_of_fields(words@.map_values(|w: String| w@)),
    {
        let ghost f = words@.map_values(|w: String| w@);
        let mut loc = match Self::parse_location(words) {
            Ok((l, _)) => l,
            Err(_) => {
                assert(false);
                return Location::new(0, 0, String::new(), String::new(), String::new(), Vec::new(), 0);
            },
        };
        let ghost head = loc@;
        let mut d: usize = 0;
        while d < 10
            invariant
                d <= 10,
                links@ == Seq::new(10, |k: int| loc_link(f, k)),
                loc@ == (LocationV { directions: loc@.directions, ..head }),
                loc@.directions == Seq::new(DIRECTION_COUNT as nat, |k: int| if k < d && loc_link(f, k) != 0 { Some(loc_link(f, k)) } else { None }),
            decreases 10 - d,
        {
            if links[d] != 0 {
                loc.directions.set(d, Some(links[d]));
            }
            assert(loc@.directions =~= Seq::new(DIRECTION_COUNT as nat, |k: int| if k < d + 1 && loc_link(f, k) != 0 { Some(loc_link(f, k)) } else { None }));
            d = d + 1;
        }
        let out = loc.determine_out();
        loc.directions.set(11, out);
        proof {
            let base = Seq::new(DIRECTION_COUNT as nat, |k: int| if k < 10 && loc_link(f, k) != 0 { Some(loc_link(f, k)) } else { None });
            assert(base =~= Seq::new(DIRECTION_COUNT as nat, |k: int| if k < 10 && loc_link(f, k) != 0 { Some(loc_link(f, k)) } else { None }));
            assert(loc@.directions =~= loc_directions(f));
        }
        loc
    }

    /// Reads a location section that reads whole (see `try_init`, which
    /// reports the first fault of any other): the locations, by id.
    pub fn init(&mut self, buffer: &mut FileBuffer, expected_count: u32)
        requires
            old(buffer).wf(),
            location_section_result(section_lines(old(buffer).data@, old(buffer).index as int), expected_count) is Ok,
        ensures
            final(buffer).wf(),
            final(buffer).data == old(buffer).data,
            final(buffer).index == section_end(old(buffer).data@, old(buffer).index as int),
            final(self)@ == Seq::new(expected_count as nat, |i: int| loc_of_fields(tab_fields(
                section_lines(old(buffer).data@, old(buffer).index as int)[
                last_with_id(section_lines(old(buffer).data@, old(buffer).index as int), i as u32).unwrap()]))),
    {
        let _ = self.try_init(buffer, expected_count);
    }

    /// Reads the location section: one location on each line, by id,
    /// exits, properties, names and descriptions. Every exit must lead to a
    /// location described, and the ids must run from 0 to `expected_count - 1`.
    pub fn try_init(&mut self, buffer: &mut FileBuffer, expected_count: u32) -> (res: Result<(), LoadError>)
        requires
            old(buffer).wf(),
        ensures
            final(buffer).wf(),
            final(buffer).data == old(buffer).data,
            final(buffer).index == section_end(old(buffer).data@, old(buffer).index as int),
            res == location_section_result(section_lines(old(buffer).data@, old(buffer).index as int), expected_count),
            res is Ok ==> final(self)@ == Seq::new(expected_count as nat, |i: int| loc_of_fields(tab_fields(
                section_lines(old(buffer).data@, old(buffer).index as int)[
                last_with_id(section_lines(old(buffer).data@, old(buffer).index as int), i as u32).unwrap()]))),
    {
        let lines = buffer.read_section();
        let ghost lv = section_lines(old(buffer).data@, old(buffer).index as int);
        let ghost err = |l: Seq<char>| location_line_error(l);
        let mut all_words: Vec<Vec<String>> = Vec::new();
        let mut ids: Vec<u32> = Vec::new();
        let mut all_links: Vec<Vec<u32>> = Vec::new();
        let mut i: usize = 0;
        proof {
            assert(lv.take(0) =~= Seq::<Seq<char>>::empty());
            assert(ids@ =~= ids_of(lv.take(0)));
        }
        while i < lines.len()
            invariant
                buffer.wf(),
                buffer.data == old(buffer).data,
                buffer.index == section_end(old(buffer).data@, old(buffer).index as int),
                lines@.map_values(|l: String| l@) == lv,
                lv == section_lines(old(buffer).data@, old(buffer).index as int),
                err == (|l: Seq<char>| location_line_error(l)),
                i <= lines@.len(),
                first_error(lv.take(i as int), err) is None,
                ids@ == ids_of(lv.take(i as int)),
                all_words@.len() == i,
                all_links@.len() == i,
                forall|j: int| 0 <= j < i ==> (#[trigger] all_words@[j])@.map_values(|w: String| w@) == tab_fields(lv[j]),
                forall|j: int| 0 <= j < i ==> (#[trigger] all_links@[j])@ == Seq::new(10, |d: int| loc_link(tab_fields(lv[j]), d)),
            decreases lines.len() - i,
        {
            let words = split_tabs(lines[i].as_str());
            proof {
                assert(lv[i as int] == lines@[i as int]@);
                lemma_first_error_step(lv, err, i as int);
                assert(words@.map_values(|w: String| w@).len() == words@.len());
                crate::file_buffer::lemma_tab_fields_nonempty(lv[i as int]);
            }
            let (_, id) = match Self::parse_location(&words) {
                Err(e) => return Err(e),
                Ok(p) => p,
            };
            let links = match Self::parse_links(&words) {
                Err(e) => return Err(e),
                Ok(l) => l,
            };
            ids.push(id);
            all_links.push(links);
            all_words.push(words);
            proof {
                let t = lv.take(i + 1);
                assert(t.drop_last() =~= lv.take(i as int));
                assert(t.last() == lv[i as int]);
                assert(ids@ =~= ids_of(t));
            }
            i = i + 1;
        }
        assert(lv.take(lines@.len() as int) =~= lv);
        let n = ids.len();
        let mut j: usize = 0;
        while j < n
            invariant
                buffer.wf(),
                buffer.data == old(buffer).data,
                buffer.index == section_end(old(buffer).data@, old(buffer).index as int),
                lv == section_lines(old(buffer).data@, old(buffer).index as int),
                err == (|l: Seq<char>| location_line_error(l)),
                first_error(lv, err) is None,
                n == ids@.len(),
                n == all_links@.len(),
                ids@ == ids_of(lv),
                j <= n,
                forall|j: int| 0 <= j < n ==> (#[trigger] all_links@[j])@ == Seq::new(10, |d: int| loc_link(tab_fields(lv[j]), d)),
                forall|a: int, d: int| 0 <= a < j && 0 <= d < 10 && last_with_id(lv, loc_line_id(tab_fields(lv[a]))) == Some(a)
                    && #[trigger] loc_link(tab_fields(#[trigger] lv[a]), d) != 0 ==> has_loc_line(lv, loc_link(tab_fields(lv[a]), d)),
            decreases n - j,
        {
            proof {
                lemma_last_with_id(lv, ids@[j as int]);
            }
            if let Some(last) = find_last(&ids, ids[j]) {
                if last == j {
                    let mut d: usize = 0;
                    proof {
                        assert(ids@[j as int] == loc_line_id(tab_fields(lv[j as int])));
                    }
                    while d < 10
                        invariant
                            buffer.wf(),
                            buffer.data == old(buffer).data,
                            buffer.index == section_end(old(buffer).data@, old(buffer).index as int),
                            lv == section_lines(old(buffer).data@, old(buffer).index as int),
                            err == (|l: Seq<char>| location_line_error(l)),
                            first_error(lv, err) is None,
                            last_with_id(lv, loc_line_id(tab_fields(lv[j as int]))) == Some(j as int),
                            n == ids@.len(),
                            n == all_links@.len(),
                            ids@ == ids_of(lv),
                            j < n,
                            d <= 10,
                            all_links@[j as int]@ == Seq::new(10, |d: int| loc_link(tab_fields(lv[j as int]), d)),
                            forall|e: int| 0 <= e < d && #[trigger] loc_link(tab_fields(lv[j as int]), e) != 0
                                ==> has_loc_line(lv, loc_link(tab_fields(lv[j as int]), e)),
                        decreases 10 - d,
                    {
                        let v = all_links[j][d];
                        if v != 0 {
                            if !vec_contains(&ids, v) {
                                proof {
                                    assert(!has_loc_line(lv, v)) by {
                                        if has_loc_line(lv, v) {
                                            let k = choose|k: int| 0 <= k < lv.len() && loc_line_id(tab_fields(#[trigger] lv[k])) == v;
                                            assert(ids@[k] == v);
                                        }
                                    }
                                    assert(loc_link(tab_fields(lv[j as int]), d as int) == v);
                                    assert(!loc_refs_ok(lv));
                                }
                                return Err(LoadError::BadReference);
                            }
                            proof {
                                let k = choose|k: int| 0 <= k < ids@.len() && ids@[k] == v;
                                assert(loc_line_id(tab_fields(lv[k])) == v);
                            }
                        }
                        d = d + 1;
                    }
                }
            }
            proof {
                lemma_last_with_id(lv, ids@[j as int]);
            }
            j = j + 1;
        }
        assert(loc_refs_ok(lv));
        let mut in_range = true;
        let mut k: usize = 0;
        while k < n
            invariant
                n == ids@.len(),
                k <= n,
                in_range == forall|m: int| 0 <= m < k ==> ids@[m] < expected_count,
            decreases n - k,
        {
            if ids[k] >= expected_count {
                in_range = false;
            }
            k = k + 1;
        }
        let mut complete = true;
        let mut id: u32 = 0;
        while id < expected_count
            invariant
                id <= expected_count,
                complete == forall|m: u32| m < id ==> ids@.contains(m),
            decreases expected_count - id,
        {
            if !vec_contains(&ids, id) {
                complete = false;
            }
            id = id + 1;
        }
        proof {
            assert forall|m: u32| ids@.contains(m) <==> has_loc_line(lv, m) by {
                if ids@.contains(m) {
                    let q = choose|q: int| 0 <= q < ids@.len() && ids@[q] == m;
                    assert(loc_line_id(tab_fields(lv[q])) == m);
                }
                if has_loc_line(lv, m) {
                    let q = choose|q: int| 0 <= q < lv.len() && loc_line_id(tab_fields(#[trigger] lv[q])) == m;
                    assert(ids@[q] == m);
                }
            }
            if in_range && complete {
                assert forall|m: u32| ids@.contains(m) <==> m < expected_count by {
                    if ids@.contains(m) {
                        let q = choose|q: int| 0 <= q < ids@.len() && ids@[q] == m;
                    }
                }
            } else if !in_range {
                let q = choose|q: int| 0 <= q < ids@.len() && !(ids@[q] < expected_count);
                assert(ids@.contains(ids@[q]));
                assert(!(has_loc_line(lv, ids@[q]) <==> ids@[q] < expected_count));
            } else {
                let m = choose|m: u32| m < expected_count && !ids@.contains(m);
                assert(!(has_loc_line(lv, m) <==> m < expected_count));
            }
        }
        if !(in_range && complete) {
            return Err(LoadError::BadSection);
        }
        let mut result: Vec<Location> = Vec::new();
        let mut id: u32 = 0;
        while id < expected_count
            invariant
                id <= expected_count,
                n == ids@.len(),
                n == all_words@.len(),
                n == all_links@.len(),
                ids@ == ids_of(lv),
                forall|m: u32| has_loc_line(lv, m) <==> m < expected_count,
                forall|j: int| 0 <= j < n ==> (#[trigger] all_words@[j])@.map_values(|w: String| w@) == tab_fields(lv[j]),
                forall|j: int| 0 <= j < n ==> (#[trigger] all_links@[j])@ == Seq::new(10, |d: int| loc_link(tab_fields(lv[j]), d)),
                first_error(lv, err) is None,
                err == (|l: Seq<char>| location_line_error(l)),
                result@.map_values(|l: Location| l@) == Seq::new(id as nat, |q: int| loc_of_fields(tab_fields(lv[last_with_id(lv, q as u32).unwrap()]))),
            decreases expected_count - id,
        {
            proof {
                lemma_last_with_id(lv, id);
            }
            let last = match find_last(&ids, id) {
                Some(j) => j,
                None => {
                    assert(false);
                    return Err(LoadError::BadSection);
                },
            };
            proof {
                crate::file_buffer::lemma_first_error_none(lv, err, last as int);
                crate::file_buffer::lemma_tab_fields_nonempty(lv[last as int]);
            }
            let loc = Self::make_location(&all_words[last], &all_links[last]);
            let ghost before = result@;
            result.push(loc);
            proof {
                assert(result@.map_values(|l: Location| l@) =~= before.map_values(|l: Location| l@).push(loc@));
                assert(result@.map_values(|l: Location| l@) =~= Seq::new((id + 1) as nat, |q: int| loc_of_fields(tab_fields(lv[last_with_id(lv, q as u32).unwrap()]))));
            }
            id = id + 1;
        }
        self.locations = result;
        Ok(())
    }

    /// Puts item `id` at location `loc`.
    pub fn insert_item_at(&mut self, loc: LocationId, items: &mut ItemCollection, id: ItemId)
        requires
            loc < old(self)@.len(),
            old(self)@[loc as int].items.len() == old(items)@.len(),
            valid_item_id(old(items)@, id),
        ensures
            final(self)@ == old(self)@.update(loc as int, old(self)@[loc as int].with_items(
                set_flag(old(self)@[loc as int].items, id, true))),
            final(items)@ == relocate(old(items)@, id, old(self)@[loc as int].id),
            final(items).names == old(items).names,
    {
        self.locations[loc as usize].insert_item(items, id);
        assert(self@ =~= old(self)@.update(loc as int, old(self)@[loc as int].with_items(
            set_flag(old(self)@[loc as int].items, id, true))));
    }
}

/// The location loaded for id `i` from a section whose ids run from 0 to
/// `count - 1`: it has id `i`, a full table of exits and the default
/// description, and each of its exits leads to one of the `count` locations.
pub proof fn lemma_loaded_location(lines: Seq<Seq<char>>, count: u32, i: u32)
    requires
        loc_refs_ok(lines),
        forall|k: u32| has_loc_line(lines, k) <==> k < count,
        i < count,
    ensures
        last_with_id(lines, i) is Some,
        ({
            let v = loc_of_fields(tab_fields(lines[last_with_id(lines, i).unwrap()]));
            &&& v.id == i
            &&& v.directions.len() == DIRECTION_COUNT
            &&& v.description_suffix_index < v.description_suffixes.len()
            &&& forall|d: int| 0 <= d < DIRECTION_COUNT ==> (#[trigger] v.directions[d] matches Some(t) ==> t < count)
        }),
{
    lemma_last_with_id(lines, i);
    let j = last_with_id(lines, i).unwrap();
    let f = tab_fields(lines[j]);
    let base = Seq::new(DIRECTION_COUNT as nat, |d: int| if d < 10 && loc_link(f, d) != 0 { Some(loc_link(f, d)) } else { None });
    assert forall|d: int| 0 <= d < DIRECTION_COUNT implies (#[trigger] base[d] matches Some(t) ==> t < count) by {
        if d < 10 && loc_link(f, d) != 0 {
            assert(has_loc_line(lines, loc_link(f, d)));
        }
    }
    crate::location::lemma_last_exit_below(base, base.len() as int, count);
    assert(loc_directions(f) == base.update(11, only_exit(base)));
}

} // verus!
