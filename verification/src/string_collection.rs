//! Texts known by name that also count the puzzles they stand for: each line
//! gives a tag, a text and a number of puzzles.
use vstd::prelude::*;

use crate::data_collection::str_to_u32;
use crate::file_buffer::{FileBuffer, LoadError, first_error, lemma_first_error_step, section_end, section_lines, split_tabs, tab_fields};
use crate::help_string_collection::{help_filed, help_lookup};
use crate::text::parse_u32;

verus! {

/// What is wrong with a line of the section, if anything: it needs a tag, a
/// text and a decimal number of puzzles.
pub open spec fn string_line_error(line: Seq<char>) -> Option<LoadError> {
    let f = tab_fields(line);
    if f.len() < 3 {
        Some(LoadError::MissingField)
    } else if parse_u32(f[2], 10) is Err {
        Some(LoadError::BadNumber)
    } else {
        None
    }
}

/// The number of puzzles the lines count in all.
pub open spec fn puzzle_total(lines: Seq<Seq<char>>) -> nat
    decreases lines.len(),
{
    if lines.len() == 0 {
        0
    } else {
        puzzle_total(lines.drop_last()) + parse_u32(tab_fields(lines.last())[2], 10).unwrap() as nat
    }
}

pub struct StringCollection {
    pub strings: Vec<(String, String)>,
}

/// What reading a section of puzzle texts gives: the first line that does not
/// read, else whether the points they are worth, added to `achievement_count`,
/// still fit in a `u32`.
pub open spec fn string_section_result(lines: Seq<Seq<char>>, achievement_count: u32) -> Result<(), LoadError> {
    match first_error(lines, |l: Seq<char>| string_line_error(l)) {
        Some(e) => Err(e),
        None => if achievement_count + puzzle_total(lines) > u32::MAX {
            Err(LoadError::BadSection)
        } else {
            Ok(())
        },
    }
}

impl StringCollection {
    pub open spec fn spec_get(&self, key: Seq<char>) -> Option<String> {
        help_lookup(self.strings@, key)
    }

    pub fn new() -> (res: StringCollection)
        ensures
            res.strings@.len() == 0,
    {
        StringCollection { strings: Vec::new() }
    }

    /// Reads a section of texts that reads whole (see `try_init`, which
    /// reports the first fault of any other), counting its puzzles.
    pub fn init(&mut self, buffer: &mut FileBuffer, achievement_count: &mut u32)
        requires
            old(buffer).wf(),
            string_section_result(section_lines(old(buffer).data@, old(buffer).index as int), *old(achievement_count)) is Ok,
        ensures
            final(buffer).wf(),
            final(buffer).data == old(buffer).data,
            final(buffer).index == section_end(old(buffer).data@, old(buffer).index as int),
            *final(achievement_count) == *old(achievement_count)
                + puzzle_total(section_lines(old(buffer).data@, old(buffer).index as int)),
            help_filed(old(self).strings@, section_lines(old(buffer).data@, old(buffer).index as int), final(self).strings@),
    {
        let _ = self.try_init(buffer, achievement_count);
    }

    /// Reads a section of texts; the puzzles they count are added to
    /// `achievement_count`, which must not overflow.
    pub fn try_init(&mut self, buffer: &mut FileBuffer, achievement_count: &mut u32) -> (res: Result<(), LoadError>)
        requires
            old(buffer).wf(),
        ensures
            final(buffer).wf(),
            final(buffer).data == old(buffer).data,
            final(buffer).index == section_end(old(buffer).data@, old(buffer).index as int),
            res == string_section_result(section_lines(old(buffer).data@, old(buffer).index as int), *old(achievement_count)),
            res is Ok ==> {
                &&& *final(achievement_count) == *old(achievement_count)
                    + puzzle_total(section_lines(old(buffer).data@, old(buffer).index as int))
                &&& help_filed(old(self).strings@, section_lines(old(buffer).data@, old(buffer).index as int), final(self).strings@)
            },
    {
        let lines = buffer.read_section();
        let ghost lv = section_lines(old(buffer).data@, old(buffer).index as int);
        let ghost err = |l: Seq<char>| string_line_error(l);
        let ghost before = self.strings@;
        let cap: u64 = u32::MAX as u64 + 1;
        let mut total: u64 = *achievement_count as u64;
        let mut i: usize = 0;
        proof {
            assert(lv.take(0) =~= Seq::<Seq<char>>::empty());
            assert(self.strings@.take(before.len() as int) =~= before);
        }
        while i < lines.len()
            invariant
                buffer.wf(),
                buffer.data == old(buffer).data,
                buffer.index == section_end(old(buffer).data@, old(buffer).index as int),
                lines@.map_values(|l: String| l@) == lv,
                lv == section_lines(old(buffer).data@, old(buffer).index as int),
                err == (|l: Seq<char>| string_line_error(l)),
                before == old(self).strings@,
                cap == u32::MAX + 1,
                i <= lines@.len(),
                first_error(lv.take(i as int), err) is None,
                total == if *old(achievement_count) + puzzle_total(lv.take(i as int)) < cap {
                    *old(achievement_count) + puzzle_total(lv.take(i as int))
                } else {
                    cap as int
                },
                help_filed(before, lv.take(i as int), self.strings@),
            decreases lines.len() - i,
        {
            let words = split_tabs(lines[i].as_str());
            proof {
                assert(lv[i as int] == lines@[i as int]@);
                lemma_first_error_step(lv, err, i as int);
            }
            if words.len() < 3 {
                return Err(LoadError::MissingField);
            }
            proof {
                assert(words@.map_values(|f: String| f@)[2] == words@[2]@);
                assert(words@.map_values(|f: String| f@)[0] == words@[0]@);
                assert(words@.map_values(|f: String| f@)[1] == words@[1]@);
            }
            let count = match str_to_u32(words[2].as_str(), 10) {
                Err(_) => return Err(LoadError::BadNumber),
                Ok(n) => n,
            };
            total = if total + count as u64 > cap { cap } else { total + count as u64 };
            let ghost s0 = self.strings@;
            self.strings.push((words[0].clone(), words[1].clone()));
            proof {
                assert(lv.take(i + 1).drop_last() =~= lv.take(i as int));
                assert(lv.take(i + 1).last() == lv[i as int]);
                assert(self.strings@.take(s0.len() as int) =~= s0);
                assert(self.strings@.take(before.len() as int) =~= before) by {
                    assert(s0.take(before.len() as int) =~= before);
                }
                assert forall|j: int| 0 <= j < (i + 1) as int implies {
                    &&& (#[trigger] self.strings@[before.len() + j]).0@ == tab_fields(lv.take(i + 1)[j])[0]
                    &&& self.strings@[before.len() + j].1@ == tab_fields(lv.take(i + 1)[j])[1]
                } by {
                    if j < i {
                        assert(lv.take(i + 1)[j] == lv.take(i as int)[j]);
                        assert(self.strings@[before.len() + j] == s0[before.len() + j]);
                    }
                }
            }
            i = i + 1;
        }
        assert(lv.take(lines@.len() as int) =~= lv);
        if total >= cap {
            return Err(LoadError::BadSection);
        }
        *achievement_count = total as u32;
        Ok(())
    }

    /// The text filed under `key`, if any.
    pub fn get_uncertain(&self, key: &str) -> (res: Option<&String>)
        ensures
            res == (match self.spec_get(key@) {
                None => None,
                Some(s) => Some(&s),
            }),
    {
        let k = key.to_owned();
        let mut i = self.strings.len();
        assert(self.strings@.take(i as int) =~= self.strings@);
        while i > 0
            invariant
                i <= self.strings@.len(),
                k@ == key@,
                help_lookup(self.strings@.take(i as int), key@) == self.spec_get(key@),
            decreases i,
        {
            assert(self.strings@.take(i as int).drop_last() =~= self.strings@.take(i - 1));
            if self.strings[i - 1].0 == k {
                return Some(&self.strings[i - 1].1);
            }
            i = i - 1;
        }
        assert(self.strings@.take(0) =~= Seq::<(String, String)>::empty());
        None
    }

    /// The text filed under `key`, which must be there.
    pub fn get_certain(&self, key: &str) -> (res: &str)
        requires
            self.spec_get(key@) is Some,
        ensures
            res@ == self.spec_get(key@).unwrap()@,
    {
        match self.get_uncertain(key) {
            None => "",
            Some(s) => s.as_str(),
        }
    }
}

} // verus!
