//! Texts known by number: responses, puzzle completions and random events.
use vstd::prelude::*;

use crate::data_collection::{StringId, str_to_u32};
use crate::file_buffer::{FileBuffer, LoadError, first_error, lemma_first_error_step, section_end, section_lines, split_tabs, tab_fields};
use crate::text::parse_u32;

verus! {

/// What is wrong with a line of numbered texts, if anything: its tag must
/// be a number, and a text must follow.
pub open spec fn info_line_error(line: Seq<char>) -> Option<LoadError> {
    if parse_u32(tab_fields(line)[0], 10) is Err {
        Some(LoadError::BadNumber)
    } else if tab_fields(line).len() < 2 {
        Some(LoadError::MissingField)
    } else {
        None
    }
}

/// The text the last of `lines` with tag `key` gives, if any.
pub open spec fn last_info(lines: Seq<Seq<char>>, key: StringId) -> Option<Seq<char>>
    decreases lines.len(),
{
    if lines.len() == 0 {
        None
    } else if parse_u32(tab_fields(lines.last())[0], 10) == Ok::<u32, crate::text::ParseError>(key) {
        Some(tab_fields(lines.last())[1])
    } else {
        last_info(lines.drop_last(), key)
    }
}

/// Whether some of `lines` gives a text for tag `key`.
pub open spec fn info_has_tag(lines: Seq<Seq<char>>, key: StringId) -> bool {
    exists|j: int| 0 <= j < lines.len() && parse_u32(tab_fields(#[trigger] lines[j])[0], 10) == Ok::<u32, crate::text::ParseError>(key)
}

pub proof fn lemma_last_info_some(lines: Seq<Seq<char>>, key: StringId)
    ensures
        last_info(lines, key) is Some <==> info_has_tag(lines, key),
    decreases lines.len(),
{
    if lines.len() > 0 {
        lemma_last_info_some(lines.drop_last(), key);
        if info_has_tag(lines, key) {
            let j = choose|j: int| 0 <= j < lines.len() && parse_u32(tab_fields(#[trigger] lines[j])[0], 10) == Ok::<u32, crate::text::ParseError>(key);
            if j < lines.len() - 1 {
                assert(lines.drop_last()[j] == lines[j]);
            }
        }
        if info_has_tag(lines.drop_last(), key) {
            let j = choose|j: int| 0 <= j < lines.drop_last().len() && parse_u32(tab_fields(#[trigger] lines.drop_last()[j])[0], 10) == Ok::<u32, crate::text::ParseError>(key);
            assert(lines[j] == lines.drop_last()[j]);
        }
        if parse_u32(tab_fields(lines.last())[0], 10) == Ok::<u32, crate::text::ParseError>(key) {
            assert(lines[lines.len() - 1] == lines.last());
        }
    }
}

pub open spec fn opt_view(o: Option<String>) -> Option<Seq<char>> {
    match o {
        None => None,
        Some(s) => Some(s@),
    }
}

/// The text of the last of `strings` filed under `key`.
pub open spec fn info_lookup(strings: Seq<(StringId, String)>, key: StringId) -> Option<String>
    decreases strings.len(),
{
    if strings.len() == 0 {
        None
    } else if strings.last().0 == key {
        Some(strings.last().1)
    } else {
        info_lookup(strings.drop_last(), key)
    }
}

/// Whether no key occurs twice in `strings`.
pub open spec fn unique_keys(strings: Seq<(StringId, String)>) -> bool {
    forall|i: int, j: int| 0 <= i < j < strings.len() ==> strings[i].0 != strings[j].0
}

/// Whether a text numbered `key` is known once `lines` are read over `before`.
pub open spec fn info_known(before: Seq<(StringId, String)>, lines: Seq<Seq<char>>, key: StringId) -> bool {
    info_lookup(before, key) is Some || info_has_tag(lines, key)
}

/// What reading a section of numbered texts over the texts `before` gives:
/// the first line that does not read, else, if `validate`, whether the texts
/// known then are numbered exactly `0..expected_count`.
pub open spec fn info_section_result(before: Seq<(StringId, String)>, lines: Seq<Seq<char>>, expected_count: u32,
    validate: bool) -> Result<(), LoadError> {
    match first_error(lines, |l: Seq<char>| info_line_error(l)) {
        Some(e) => Err(e),
        None => if validate && !(forall|k: StringId| #[trigger] info_known(before, lines, k) <==> k < expected_count) {
            Err(LoadError::BadSection)
        } else {
            Ok(())
        },
    }
}

pub struct InfoStringCollection {
    pub strings: Vec<(StringId, String)>,
}

impl InfoStringCollection {
    pub open spec fn spec_get(&self, key: StringId) -> Option<String> {
        info_lookup(self.strings@, key)
    }

    /// No key occurs twice.
    pub open spec fn wf(&self) -> bool {
        unique_keys(self.strings@)
    }

    pub open spec fn keys(&self) -> Seq<StringId> {
        self.strings@.map_values(|p: (StringId, String)| p.0)
    }

    pub fn new() -> (res: InfoStringCollection)
        ensures
            res.strings@.len() == 0,
    {
        InfoStringCollection { strings: Vec::new() }
    }

    /// Files `content` under `key`, replacing any text filed under it before.
    pub fn insert(&mut self, key: StringId, content: String)
        requires
            unique_keys(old(self).strings@),
        ensures
            unique_keys(final(self).strings@),
            final(self).spec_get(key) == Some(content),
            forall|k: StringId| k != key ==> final(self).spec_get(k) == old(self).spec_get(k),
    {
        let mut i: usize = 0;
        while i < self.strings.len()
            invariant
                self.strings@ == old(self).strings@,
                unique_keys(self.strings@),
                i <= self.strings@.len(),
                forall|j: int| 0 <= j < i ==> self.strings@[j].0 != key,
            decreases self.strings.len() - i,
        {
            if self.strings[i].0 == key {
                let ghost before = self.strings@;
                self.strings.set(i, (key, content));
                proof {
                    let t = self.strings@;
                    assert(unique_keys(t));
                    lemma_info_lookup_at(t, i as int);
                    assert forall|k: StringId| k != key implies #[trigger] info_lookup(t, k) == info_lookup(before, k) by {
                        if exists|j: int| 0 <= j < before.len() && before[j].0 == k {
                            let j = choose|j: int| 0 <= j < before.len() && before[j].0 == k;
                            lemma_info_lookup_at(t, j);
                            lemma_info_lookup_at(before, j);
                        } else {
                            lemma_info_lookup_absent(t, k);
                            lemma_info_lookup_absent(before, k);
                        }
                    }
                }
                return;
            }
            i = i + 1;
        }
        let ghost before = self.strings@;
        self.strings.push((key, content));
        proof {
            assert(self.strings@.drop_last() =~= before);
        }
    }

    /// Reads a section of numbered texts that reads whole (see `try_init`,
    /// which reports the first fault of any other): each line files its text
    /// under its number, a later line overriding an earlier one.
    pub fn init(&mut self, buffer: &mut FileBuffer, expected_count: u32, validate: bool)
        requires
            old(buffer).wf(),
            unique_keys(old(self).strings@),
            info_section_result(old(self).strings@, section_lines(old(buffer).data@, old(buffer).index as int),
                expected_count, validate) is Ok,
        ensures
            final(buffer).wf(),
            final(buffer).data == old(buffer).data,
            final(buffer).index == section_end(old(buffer).data@, old(buffer).index as int),
            unique_keys(final(self).strings@),
            forall|k: StringId| #[trigger] opt_view(final(self).spec_get(k))
                == match last_info(section_lines(old(buffer).data@, old(buffer).index as int), k) {
                    Some(c) => Some(c),
                    None => opt_view(old(self).spec_get(k)),
                },
            validate ==> forall|k: StringId| #[trigger] final(self).spec_get(k) is Some <==> k < expected_count,
    {
        let _ = self.try_init(buffer, expected_count, validate);
    }

    /// Reads a section of numbered texts, a tag and a text on each line; if
    /// `validate`, the texts must be numbered from 0 to `expected_count - 1`.
    pub fn try_init(&mut self, buffer: &mut FileBuffer, expected_count: u32, validate: bool) -> (res: Result<(), LoadError>)
        requires
            old(buffer).wf(),
            unique_keys(old(self).strings@),
        ensures
            final(buffer).wf(),
            final(buffer).data == old(buffer).data,
            final(buffer).index == section_end(old(buffer).data@, old(buffer).index as int),
            unique_keys(final(self).strings@),
            first_error(section_lines(old(buffer).data@, old(buffer).index as int), |l: Seq<char>| info_line_error(l)) is None ==>
                forall|k: StringId| #[trigger] opt_view(final(self).spec_get(k))
                    == match last_info(section_lines(old(buffer).data@, old(buffer).index as int), k) {
                        Some(c) => Some(c),
                        None => opt_view(old(self).spec_get(k)),
                    },
            first_error(section_lines(old(buffer).data@, old(buffer).index as int), |l: Seq<char>| info_line_error(l)) is None ==>
                forall|k: StringId| #[trigger] final(self).spec_get(k) is Some
                    <==> info_known(old(self).strings@, section_lines(old(buffer).data@, old(buffer).index as int), k),
            res == info_section_result(old(self).strings@, section_lines(old(buffer).data@, old(buffer).index as int),
                expected_count, validate),
    {
        let lines = buffer.read_section();
        let ghost lv = section_lines(old(buffer).data@, old(buffer).index as int);
        let ghost err = |l: Seq<char>| info_line_error(l);
        let mut i: usize = 0;
        proof {
            assert(lv.take(0) =~= Seq::<Seq<char>>::empty());
        }
        while i < lines.len()
            invariant
                buffer.wf(),
                buffer.data == old(buffer).data,
                buffer.index == section_end(old(buffer).data@, old(buffer).index as int),
                lines@.map_values(|l: String| l@) == lv,
                lv == section_lines(old(buffer).data@, old(buffer).index as int),
                err == (|l: Seq<char>| info_line_error(l)),
                i <= lines@.len(),
                unique_keys(self.strings@),
                first_error(lv.take(i as int), err) is None,
                forall|k: StringId| #[trigger] opt_view(self.spec_get(k)) == match last_info(lv.take(i as int), k) {
                    Some(c) => Some(c),
                    None => opt_view(old(self).spec_get(k)),
                },
            decreases lines.len() - i,
        {
            let words = split_tabs(lines[i].as_str());
            proof {
                assert(lv[i as int] == lines@[i as int]@);
                lemma_first_error_step(lv, err, i as int);
                assert(words@.map_values(|f: String| f@)[0] == words@[0]@);
            }
            let tag = match str_to_u32(words[0].as_str(), 10) {
                Err(_) => return Err(LoadError::BadNumber),
                Ok(t) => t,
            };
            if words.len() < 2 {
                return Err(LoadError::MissingField);
            }
            let content = words[1].clone();
            proof {
                assert(words@.map_values(|f: String| f@)[1] == words@[1]@);
            }
            let ghost s0 = *self;
            self.insert(tag, content);
            proof {
                assert(lv.take(i + 1).drop_last() =~= lv.take(i as int));
                assert(lv.take(i + 1).last() == lv[i as int]);
                assert forall|k: StringId| #[trigger] opt_view(self.spec_get(k)) == match last_info(lv.take(i + 1), k) {
                    Some(c) => Some(c),
                    None => opt_view(old(self).spec_get(k)),
                } by {
                    if k != tag {
                        assert(opt_view(s0.spec_get(k)) == opt_view(self.spec_get(k)));
                    }
                }
            }
            i = i + 1;
        }
        assert(lv.take(lines@.len() as int) =~= lv);
        proof {
            assert forall|k: StringId| #![trigger self.spec_get(k)] #![trigger info_known(old(self).strings@, lv, k)]
                self.spec_get(k) is Some <==> info_known(old(self).strings@, lv, k) by {
                lemma_last_info_some(lv, k);
                assert(opt_view(self.spec_get(k)) == match last_info(lv, k) {
                    Some(c) => Some(c),
                    None => opt_view(old(self).spec_get(k)),
                });
            }
        }
        if validate && !self.validate(expected_count) {
            return Err(LoadError::BadSection);
        }
        Ok(())
    }

    /// Whether the texts are numbered exactly from 0 to `expected_count - 1`.
    fn validate(&self, expected_count: u32) -> (res: bool)
        requires
            unique_keys(self.strings@),
        ensures
            res == forall|k: StringId| (#[trigger] self.spec_get(k)) is Some <==> k < expected_count,
    {
        let mut i: usize = 0;
        while i < self.strings.len()
            invariant
                i <= self.strings@.len(),
                unique_keys(self.strings@),
                forall|j: int| 0 <= j < i ==> (#[trigger] self.strings@[j]).0 < expected_count,
            decreases self.strings.len() - i,
        {
            if self.strings[i].0 >= expected_count {
                proof {
                    lemma_info_lookup_at(self.strings@, i as int);
                    assert(self.spec_get(self.strings@[i as int].0) is Some);
                }
                return false;
            }
            i = i + 1;
        }
        let mut id: u32 = 0;
        while id < expected_count
            invariant
                id <= expected_count,
                forall|k: StringId| k < id ==> (#[trigger] self.spec_get(k)) is Some,
            decreases expected_count - id,
        {
            if !self.contains_key(id) {
                return false;
            }
            id = id + 1;
        }
        proof {
            assert forall|k: StringId| (#[trigger] self.spec_get(k)) is Some <==> k < expected_count by {
                if self.spec_get(k) is Some && !(k < expected_count) {
                    lemma_info_lookup_absent(self.strings@, k);
                }
            }
        }
        true
    }

    /// Whether a text is filed under `key`.
    fn contains_key(&self, key: StringId) -> (res: bool)
        ensures
            res == self.spec_get(key) is Some,
    {
        let mut i = self.strings.len();
        assert(self.strings@.take(i as int) =~= self.strings@);
        while i > 0
            invariant
                i <= self.strings@.len(),
                info_lookup(self.strings@.take(i as int), key) == self.spec_get(key),
            decreases i,
        {
            assert(self.strings@.take(i as int).drop_last() =~= self.strings@.take(i - 1));
            if self.strings[i - 1].0 == key {
                return true;
            }
            i = i - 1;
        }
        assert(self.strings@.take(0) =~= Seq::<(StringId, String)>::empty());
        false
    }

    /// The number of texts.
    pub fn count_strings(&self) -> (res: u32)
        requires
            self.strings@.len() <= u32::MAX,
        ensures
            res == self.strings@.len(),
    {
        self.strings.len() as u32
    }

    /// The keys of all texts.
    pub fn get_keys(&self) -> (res: Vec<StringId>)
        ensures
            res@ == self.keys(),
    {
        let mut result: Vec<StringId> = Vec::new();
        let mut i: usize = 0;
        while i < self.strings.len()
            invariant
                i <= self.strings@.len(),
                result@ == self.keys().take(i as int),
            decreases self.strings.len() - i,
        {
            result.push(self.strings[i].0);
            assert(self.keys().take(i + 1) =~= self.keys().take(i as int).push(self.strings@[i as int].0));
            i = i + 1;
        }
        assert(self.keys().take(self.strings@.len() as int) =~= self.keys());
        result
    }

    /// The text filed under `key`, which must be there.
    pub fn get_certain(&self, key: StringId) -> (res: &str)
        requires
            self.spec_get(key) is Some,
        ensures
            res@ == self.spec_get(key).unwrap()@,
    {
        let mut i = self.strings.len();
        assert(self.strings@.take(i as int) =~= self.strings@);
        while i > 0
            invariant
                i <= self.strings@.len(),
                info_lookup(self.strings@.take(i as int), key) == self.spec_get(key),
            decreases i,
        {
            assert(self.strings@.take(i as int).drop_last() =~= self.strings@.take(i - 1));
            if self.strings[i - 1].0 == key {
                return self.strings[i - 1].1.as_str();
            }
            i = i - 1;
        }
        assert(self.strings@.take(0) =~= Seq::<(StringId, String)>::empty());
        ""
    }
}

pub proof fn lemma_info_lookup_absent(s: Seq<(StringId, String)>, key: StringId)
    requires
        forall|j: int| 0 <= j < s.len() ==> s[j].0 != key,
    ensures
        info_lookup(s, key) is None,
    decreases s.len(),
{
    if s.len() > 0 {
        lemma_info_lookup_absent(s.drop_last(), key);
    }
}

pub proof fn lemma_info_lookup_at(s: Seq<(StringId, String)>, i: int)
    requires
        0 <= i < s.len(),
        unique_keys(s),
    ensures
        info_lookup(s, s[i].0) == Some(s[i].1),
    decreases s.len(),
{
    if i < s.len() - 1 {
        assert(s.drop_last()[i] == s[i]);
        lemma_info_lookup_at(s.drop_last(), i);
    }
}

/// Texts with distinct keys, filed under exactly the keys below `n`, number `n`.
pub proof fn lemma_keyed_count(strings: Seq<(StringId, String)>, n: u32)
    requires
        unique_keys(strings),
        forall|k: StringId| (#[trigger] info_lookup(strings, k)) is Some <==> k < n,
    ensures
        strings.len() == n,
{
    let keys = strings.map_values(|p: (StringId, String)| p.0 as int);
    assert(keys.no_duplicates()) by {
        assert forall|i: int, j: int| 0 <= i < keys.len() && 0 <= j < keys.len() && i != j implies keys[i] != keys[j] by {
            if i < j {
                assert(strings[i].0 != strings[j].0);
            } else {
                assert(strings[j].0 != strings[i].0);
            }
        }
    }
    keys.unique_seq_to_set();
    vstd::set_lib::lemma_int_range(0, n as int);
    assert forall|x: int| keys.to_set().contains(x) <==> vstd::set_lib::set_int_range(0, n as int).contains(x) by {
        if keys.to_set().contains(x) {
            let j = choose|j: int| 0 <= j < keys.len() && keys[j] == x;
            lemma_info_lookup_at(strings, j);
            assert(info_lookup(strings, strings[j].0) is Some);
        }
        if 0 <= x < n {
            let k = x as u32;
            assert(info_lookup(strings, k) is Some);
            if !(exists|j: int| 0 <= j < strings.len() && strings[j].0 == k) {
                lemma_info_lookup_absent(strings, k);
            }
            let j = choose|j: int| 0 <= j < strings.len() && strings[j].0 == k;
            assert(keys[j] == x);
        }
    }
    assert(keys.to_set() =~= vstd::set_lib::set_int_range(0, n as int));
}

/// Texts with distinct keys number as many as the keys they are filed under.
pub proof fn lemma_unique_count(strings: Seq<(StringId, String)>)
    requires
        unique_keys(strings),
    ensures
        strings.len() == Set::new(|k: StringId| info_lookup(strings, k) is Some).len(),
{
    let keys = strings.map_values(|p: (StringId, String)| p.0);
    assert(keys.no_duplicates()) by {
        assert forall|i: int, j: int| 0 <= i < keys.len() && 0 <= j < keys.len() && i != j implies keys[i] != keys[j] by {
            if i < j {
                assert(strings[i].0 != strings[j].0);
            } else {
                assert(strings[j].0 != strings[i].0);
            }
        }
    }
    keys.unique_seq_to_set();
    assert forall|k: StringId| keys.to_set().contains(k) <==> info_lookup(strings, k) is Some by {
        if keys.to_set().contains(k) {
            let j = choose|j: int| 0 <= j < keys.len() && keys[j] == k;
            lemma_info_lookup_at(strings, j);
        }
        if info_lookup(strings, k) is Some {
            if !(exists|j: int| 0 <= j < strings.len() && strings[j].0 == k) {
                lemma_info_lookup_absent(strings, k);
            }
            let j = choose|j: int| 0 <= j < strings.len() && strings[j].0 == k;
            assert(keys[j] == k);
        }
    }
    assert(keys.to_set() =~= Set::new(|k: StringId| info_lookup(strings, k) is Some));
}

} // verus!
