//! Texts known by name: hints and explanations.
use vstd::prelude::*;

use crate::constants;
use crate::file_buffer::{FileBuffer, LoadError, section_end, section_lines, split_tabs, tab_fields};

verus! {

/// Whether every line of a section of help texts has a tag and a text.
pub open spec fn help_lines_ok(lines: Seq<Seq<char>>) -> bool {
    forall|j: int| 0 <= j < lines.len() ==> tab_fields(#[trigger] lines[j]).len() >= 2
}

/// Whether `strings` extends `before` by the tag and text of each line of `lines`, in order.
pub open spec fn help_filed(before: Seq<(String, String)>, lines: Seq<Seq<char>>, strings: Seq<(String, String)>) -> bool {
    &&& strings.len() == before.len() + lines.len()
    &&& strings.take(before.len() as int) == before
    &&& forall|j: int| 0 <= j < lines.len() ==> {
        &&& (#[trigger] strings[before.len() + j]).0@ == tab_fields(lines[j])[0]
        &&& strings[before.len() + j].1@ == tab_fields(lines[j])[1]
    }
}

/// The text of the last of `strings` filed under `key`.
pub open spec fn help_lookup(strings: Seq<(String, String)>, key: Seq<char>) -> Option<String>
    decreases strings.len(),
{
    if strings.len() == 0 {
        None
    } else if strings.last().0@ == key {
        Some(strings.last().1)
    } else {
        help_lookup(strings.drop_last(), key)
    }
}

/// Whether some of `lines` gives a text for tag `key`.
pub open spec fn help_has_tag(lines: Seq<Seq<char>>, key: Seq<char>) -> bool {
    exists|j: int| 0 <= j < lines.len() && tab_fields(#[trigger] lines[j])[0] == key
}

pub proof fn lemma_help_lookup_some(s: Seq<(String, String)>, key: Seq<char>)
    ensures
        help_lookup(s, key) is Some <==> exists|j: int| 0 <= j < s.len() && (#[trigger] s[j]).0@ == key,
    decreases s.len(),
{
    if s.len() > 0 {
        lemma_help_lookup_some(s.drop_last(), key);
        if exists|j: int| 0 <= j < s.len() && (#[trigger] s[j]).0@ == key {
            let j = choose|j: int| 0 <= j < s.len() && (#[trigger] s[j]).0@ == key;
            if j < s.len() - 1 {
                assert(s.drop_last()[j] == s[j]);
            }
        }
        if exists|j: int| 0 <= j < s.drop_last().len() && (#[trigger] s.drop_last()[j]).0@ == key {
            let j = choose|j: int| 0 <= j < s.drop_last().len() && (#[trigger] s.drop_last()[j]).0@ == key;
            assert(s[j] == s.drop_last()[j]);
        }
    }
}

/// What reading a section of help texts over the texts `before` gives: every
/// line must have a tag and a text, and there must then be a default text.
pub open spec fn help_section_result(before: Seq<(String, String)>, lines: Seq<Seq<char>>) -> Result<(), LoadError> {
    if !help_lines_ok(lines) {
        Err(LoadError::MissingField)
    } else if !(help_lookup(before, constants::STR_DEFAULT@) is Some || help_has_tag(lines, constants::STR_DEFAULT@)) {
        Err(LoadError::BadSection)
    } else {
        Ok(())
    }
}

pub struct HelpStringCollection {
    pub strings: Vec<(String, String)>,
}

impl HelpStringCollection {
    pub open spec fn spec_get(&self, key: Seq<char>) -> Option<String> {
        help_lookup(self.strings@, key)
    }

    pub fn new() -> (res: HelpStringCollection)
        ensures
            res.strings@.len() == 0,
    {
        HelpStringCollection { strings: Vec::new() }
    }

    /// Files `content` under `tag`; a later text filed under the same tag overrides it.
    pub fn insert(&mut self, tag: String, content: String)
        ensures
            final(self).spec_get(tag@) == Some(content),
            forall|k: Seq<char>| k != tag@ ==> final(self).spec_get(k) == old(self).spec_get(k),
    {
        let ghost before = self.strings@;
        let ghost t = tag@;
        self.strings.push((tag, content));
        proof {
            assert(self.strings@.drop_last() =~= before);
        }
    }

    /// Reads a section of help texts that reads whole (see `try_init`, which
    /// reports the fault of any other): each line files its text under its tag.
    pub fn init(&mut self, buffer: &mut FileBuffer)
        requires
            old(buffer).wf(),
            help_section_result(old(self).strings@, section_lines(old(buffer).data@, old(buffer).index as int)) is Ok,
        ensures
            final(buffer).wf(),
            final(buffer).data == old(buffer).data,
            final(buffer).index == section_end(old(buffer).data@, old(buffer).index as int),
            help_filed(old(self).strings@, section_lines(old(buffer).data@, old(buffer).index as int), final(self).strings@),
            forall|k: Seq<char>| #[trigger] final(self).spec_get(k) is Some
                <==> (old(self).spec_get(k) is Some || help_has_tag(section_lines(old(buffer).data@, old(buffer).index as int), k)),
            final(self).spec_get(constants::STR_DEFAULT@) is Some,
    {
        let _ = self.try_init(buffer);
    }

    /// Reads a section of help texts, a tag and a text on each line; the
    /// section must give a default text.
    pub fn try_init(&mut self, buffer: &mut FileBuffer) -> (res: Result<(), LoadError>)
        requires
            old(buffer).wf(),
        ensures
            final(buffer).wf(),
            final(buffer).data == old(buffer).data,
            final(buffer).index == section_end(old(buffer).data@, old(buffer).index as int),
            help_lines_ok(section_lines(old(buffer).data@, old(buffer).index as int)) ==> help_filed(old(self).strings@,
                section_lines(old(buffer).data@, old(buffer).index as int), final(self).strings@),
            help_lines_ok(section_lines(old(buffer).data@, old(buffer).index as int)) ==>
                forall|k: Seq<char>| #[trigger] final(self).spec_get(k) is Some
                    <==> (old(self).spec_get(k) is Some || help_has_tag(section_lines(old(buffer).data@, old(buffer).index as int), k)),
            res == help_section_result(old(self).strings@, section_lines(old(buffer).data@, old(buffer).index as int)),
    {
        let lines = buffer.read_section();
        let ghost lv = section_lines(old(buffer).data@, old(buffer).index as int);
        let ghost before = self.strings@;
        let mut i: usize = 0;
        proof {
            assert(lv.take(0) =~= Seq::<Seq<char>>::empty());
            assert(self.strings@.take(before.len() as int) =~= before);
        }
        while i < lines.len()
            invariant
                buffer.wf(),
                buffer.data == old(buffer).data,
                buffer.index == section_end(old(buffer).data@, old(buffer).index as int),
                lines@.map_values(|l: String| l@) == lv,
                lv == section_lines(old(buffer).data@, old(buffer).index as int),
                before == old(self).strings@,
                i <= lines@.len(),
                help_lines_ok(lv.take(i as int)),
                help_filed(before, lv.take(i as int), self.strings@),
            decreases lines.len() - i,
        {
            let words = split_tabs(lines[i].as_str());
            assert(lv[i as int] == lines@[i as int]@);
            if words.len() < 2 {
                assert(!help_lines_ok(lv)) by {
                    assert(tab_fields(lv[i as int]).len() < 2);
                }
                return Err(LoadError::MissingField);
            }
            let (tag, content) = Self::parse_string(&words);
            let ghost s0 = self.strings@;
            self.strings.push((tag, content));
            proof {
                assert(lv.take(i + 1).drop_last() =~= lv.take(i as int));
                assert(self.strings@.take(s0.len() as int) =~= s0);
                assert forall|j: int| 0 <= j < (i + 1) as int implies tab_fields(#[trigger] lv.take(i + 1)[j]).len() >= 2 by {
                    if j < i {
                        assert(lv.take(i + 1)[j] == lv.take(i as int)[j]);
                    }
                }
                assert forall|j: int| 0 <= j < (i + 1) as int implies {
                    &&& (#[trigger] self.strings@[before.len() + j]).0@ == tab_fields(lv.take(i + 1)[j])[0]
                    &&& self.strings@[before.len() + j].1@ == tab_fields(lv.take(i + 1)[j])[1]
                } by {
                    if j < i {
                        assert(lv.take(i + 1)[j] == lv.take(i as int)[j]);
                        assert(self.strings@[before.len() + j] == s0[before.len() + j]);
                    }
                }
                assert(self.strings@.take(before.len() as int) =~= s0.take(before.len() as int));
            }
            i = i + 1;
        }
        assert(lv.take(lines@.len() as int) =~= lv);
        proof {
            assert forall|k: Seq<char>| #[trigger] self.spec_get(k) is Some
                <==> (help_lookup(before, k) is Some || help_has_tag(lv, k)) by {
                lemma_help_lookup_some(self.strings@, k);
                lemma_help_lookup_some(before, k);
                if help_has_tag(lv, k) {
                    let j = choose|j: int| 0 <= j < lv.len() && tab_fields(#[trigger] lv[j])[0] == k;
                    assert(self.strings@[before.len() + j].0@ == k);
                }
                if help_lookup(before, k) is Some {
                    let j = choose|j: int| 0 <= j < before.len() && (#[trigger] before[j]).0@ == k;
                    assert(self.strings@.take(before.len() as int)[j] == before[j]);
                    assert(self.strings@[j].0@ == k);
                }
                if self.spec_get(k) is Some {
                    let j = choose|j: int| 0 <= j < self.strings@.len() && (#[trigger] self.strings@[j]).0@ == k;
                    if j < before.len() {
                        assert(self.strings@.take(before.len() as int)[j] == self.strings@[j]);
                        assert(before[j].0@ == k);
                    } else {
                        let m = j - before.len();
                        assert(self.strings@[before.len() + m].0@ == tab_fields(lv[m])[0]);
                        assert(tab_fields(lv[m])[0] == k);
                    }
                }
            }
        }
        if !self.validate() {
            return Err(LoadError::BadSection);
        }
        Ok(())
    }

    fn parse_string(words: &Vec<String>) -> (res: (String, String))
        requires
            words@.len() >= 2,
        ensures
            res.0@ == words@[0]@,
            res.1@ == words@[1]@,
    {
        (words[0].clone(), words[1].clone())
    }

    /// Whether there is a default text.
    fn validate(&self) -> (res: bool)
        ensures
            res == self.spec_get(constants::STR_DEFAULT@) is Some,
    {
        self.get_uncertain(constants::STR_DEFAULT).is_some()
    }

    /// The text filed under `key`, if any.
    pub fn get_uncertain(&self, key: &str) -> (res: Option<&String>)
        ensures
            res == (match self.spec_get(key@) {
                None => None,
                Some(s) => Some(&s),
            }),
    {
        let k = key.to_owned();
        let mut i = self.strings.len();
        assert(self.strings@.take(i as int) =~= self.strings@);
        while i > 0
            invariant
                i <= self.strings@.len(),
                k@ == key@,
                help_lookup(self.strings@.take(i as int), key@) == self.spec_get(key@),
            decreases i,
        {
            assert(self.strings@.take(i as int).drop_last() =~= self.strings@.take(i - 1));
            if self.strings[i - 1].0 == k {
                return Some(&self.strings[i - 1].1);
            }
            i = i - 1;
        }
        None
    }

    /// The text filed under `key`, which must be there.
    pub fn get_certain(&self, key: &str) -> (res: &str)
        requires
            self.spec_get(key@) is Some,
        ensures
            res@ == self.spec_get(key@).unwrap()@,
    {
        match self.get_uncertain(key) {
            None => "",
            Some(s) => s.as_str(),
        }
    }
}

} // verus!
