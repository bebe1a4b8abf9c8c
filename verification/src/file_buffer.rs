//! The characters of the data file, read line by line, and the sections
//! and tab-separated fields they are made of.
use vstd::prelude::*;

use crate::constants;
use crate::file_util::{decompress, decompressed, decompressible};
use crate::text::{push_char, string_of_range};

verus! {

/// Where the line starting at `i` ends: the first newline at or after `i`, or the end.
pub open spec fn line_end(data: Seq<char>, i: int) -> int
    decreases data.len() - i,
{
    if i >= data.len() || i < 0 {
        if i < 0 { 0 } else { i }
    } else if data[i] == '\n' {
        i
    } else {
        line_end(data, i + 1)
    }
}

/// The first position at or after `i` that is not a newline, or the end.
pub open spec fn after_newlines(data: Seq<char>, i: int) -> int
    decreases data.len() - i,
{
    if i >= data.len() || i < 0 {
        if i < 0 { 0 } else { i }
    } else if data[i] != '\n' {
        i
    } else {
        after_newlines(data, i + 1)
    }
}

/// Where reading a line from `i` leaves off: past the line and the newlines after it.
pub open spec fn next_line(data: Seq<char>, i: int) -> int {
    after_newlines(data, line_end(data, i))
}

/// The line starting at `i`.
pub open spec fn line_at(data: Seq<char>, i: int) -> Seq<char> {
    data.subrange(i, line_end(data, i))
}

pub proof fn lemma_line_end_bounds(data: Seq<char>, i: int)
    requires
        0 <= i <= data.len(),
    ensures
        i <= line_end(data, i) <= data.len(),
        line_end(data, i) < data.len() ==> data[line_end(data, i)] == '\n',
        forall|k: int| i <= k < line_end(data, i) ==> data[k] != '\n',
    decreases data.len() - i,
{
    if i < data.len() && data[i] != '\n' {
        lemma_line_end_bounds(data, i + 1);
    }
}

pub proof fn lemma_after_newlines_bounds(data: Seq<char>, i: int)
    requires
        0 <= i <= data.len(),
    ensures
        i <= after_newlines(data, i) <= data.len(),
        after_newlines(data, i) < data.len() ==> data[after_newlines(data, i)] != '\n',
        forall|k: int| i <= k < after_newlines(data, i) ==> data[k] == '\n',
    decreases data.len() - i,
{
    if i < data.len() && data[i] == '\n' {
        lemma_after_newlines_bounds(data, i + 1);
    }
}

pub proof fn lemma_next_line_bounds(data: Seq<char>, i: int)
    requires
        0 <= i <= data.len(),
    ensures
        i <= next_line(data, i) <= data.len(),
        i < data.len() && next_line(data, i) < data.len() ==> i < next_line(data, i),
{
    lemma_line_end_bounds(data, i);
    lemma_after_newlines_bounds(data, line_end(data, i));
}

/// The lines of the section that reading from `i` goes through: a line is
/// read, and taken if the data has not run out and it is not the section
/// separator; so the section ends at the separator, and a last line that
/// runs to the end of the data is not taken.
pub open spec fn section_lines(data: Seq<char>, i: int) -> Seq<Seq<char>>
    decreases data.len() - i,
{
    if i < 0 || i >= data.len() {
        Seq::empty()
    } else {
        let n = next_line(data, i);
        if n >= data.len() || line_at(data, i) == constants::FILE_SECTION_SEPARATOR@ {
            Seq::empty()
        } else {
            proof {
                lemma_next_line_bounds(data, i);
            }
            seq![line_at(data, i)] + section_lines(data, n)
        }
    }
}

/// Where reading the section from `i` leaves off.
pub open spec fn section_end(data: Seq<char>, i: int) -> int
    decreases data.len() - i,
{
    if i < 0 || i >= data.len() {
        if i < 0 { 0 } else { i }
    } else {
        let n = next_line(data, i);
        if n >= data.len() || line_at(data, i) == constants::FILE_SECTION_SEPARATOR@ {
            n
        } else {
            proof {
                lemma_next_line_bounds(data, i);
            }
            section_end(data, n)
        }
    }
}

/// The position of the first tab at or after `k` in `s`, or its length.
pub open spec fn first_tab(s: Seq<char>, k: int) -> int
    decreases s.len() - k,
{
    if k < 0 || k >= s.len() {
        s.len() as int
    } else if s[k] == '\t' {
        k
    } else {
        first_tab(s, k + 1)
    }
}

pub proof fn lemma_first_tab_bounds(s: Seq<char>, k: int)
    requires
        0 <= k <= s.len(),
    ensures
        k <= first_tab(s, k) <= s.len(),
    decreases s.len() - k,
{
    if k < s.len() && s[k] != '\t' {
        lemma_first_tab_bounds(s, k + 1);
    }
}

pub proof fn lemma_first_tab_at(s: Seq<char>, k: int, t: int)
    requires
        0 <= k <= t <= s.len(),
        forall|j: int| k <= j < t ==> s[j] != '\t',
        t < s.len() ==> s[t] == '\t',
    ensures
        first_tab(s, k) == t,
    decreases t - k,
{
    if k < t {
        lemma_first_tab_at(s, k + 1, t);
    }
}

/// The fields of `s` separated by tabs, as `str::split('\t')` gives them.
pub open spec fn tab_fields(s: Seq<char>) -> Seq<Seq<char>>
    decreases s.len(),
{
    let t = first_tab(s, 0);
    if t >= s.len() {
        seq![s]
    } else {
        proof {
            lemma_first_tab_bounds(s, 0);
        }
        seq![s.subrange(0, t)] + tab_fields(s.subrange(t + 1, s.len() as int))
    }
}

pub proof fn lemma_section_step(data: Seq<char>, i: int)
    requires
        0 <= i <= data.len(),
    ensures
        next_line(data, i) < data.len() && line_at(data, i) != constants::FILE_SECTION_SEPARATOR@ ==> {
            &&& section_lines(data, i) == seq![line_at(data, i)] + section_lines(data, next_line(data, i))
            &&& section_end(data, i) == section_end(data, next_line(data, i))
        },
        !(next_line(data, i) < data.len() && line_at(data, i) != constants::FILE_SECTION_SEPARATOR@) ==> {
            &&& section_lines(data, i) == Seq::<Seq<char>>::empty()
            &&& section_end(data, i) == next_line(data, i)
        },
{
    lemma_next_line_bounds(data, i);
    if i >= data.len() {
        lemma_line_end_bounds(data, i);
    }
}

/// Why the data file cannot be loaded.
#[derive(PartialEq, Eq, Structural, Clone, Copy, Debug)]
pub enum LoadError {
    /// A line lacks a field.
    MissingField,
    /// A field that should hold a number does not.
    BadNumber,
    /// A section lacks an entry it must have, or holds one it must not.
    BadSection,
    /// An entry refers to something that does not exist, or cannot hold it.
    BadReference,
}

/// The error of the first of `lines` that has one, by `err`.
pub open spec fn first_error(lines: Seq<Seq<char>>, err: spec_fn(Seq<char>) -> Option<LoadError>) -> Option<LoadError>
    decreases lines.len(),
{
    if lines.len() == 0 {
        None
    } else if err(lines[0]) is Some {
        err(lines[0])
    } else {
        first_error(lines.drop_first(), err)
    }
}

pub proof fn lemma_first_error_step(lines: Seq<Seq<char>>, err: spec_fn(Seq<char>) -> Option<LoadError>, i: int)
    requires
        0 <= i < lines.len(),
        first_error(lines.take(i), err) is None,
    ensures
        err(lines[i]) is Some ==> first_error(lines, err) == err(lines[i]),
        err(lines[i]) is None ==> first_error(lines.take(i + 1), err) is None,
    decreases i,
{
    if i > 0 {
        assert(lines.take(i).drop_first() =~= lines.drop_first().take(i - 1));
        assert(lines.take(i + 1).drop_first() =~= lines.drop_first().take(i));
        assert(lines.take(i)[0] == lines[0]);
        assert(lines.take(i + 1)[0] == lines[0]);
        assert(lines.drop_first()[i - 1] == lines[i]);
        assert(err(lines[0]) is None);
        lemma_first_error_step(lines.drop_first(), err, i - 1);
        assert(first_error(lines, err) == first_error(lines.drop_first(), err));
    } else {
        assert(lines.take(1).drop_first() =~= Seq::<Seq<char>>::empty());
        assert(lines.take(1)[0] == lines[0]);
        assert(first_error(Seq::<Seq<char>>::empty(), err) is None);
    }
}

pub proof fn lemma_first_error_none(lines: Seq<Seq<char>>, err: spec_fn(Seq<char>) -> Option<LoadError>, i: int)
    requires
        0 <= i < lines.len(),
        first_error(lines, err) is None,
    ensures
        err(lines[i]) is None,
    decreases i,
{
    if i > 0 {
        lemma_first_error_none(lines.drop_first(), err, i - 1);
        assert(lines.drop_first()[i - 1] == lines[i]);
    }
}

pub proof fn lemma_tab_fields_nonempty(s: Seq<char>)
    ensures
        tab_fields(s).len() >= 1,
{
}

pub struct FileBuffer {
    pub data: Vec<char>,
    pub index: usize,
}

impl FileBuffer {
    pub open spec fn wf(&self) -> bool {
        self.index <= self.data@.len()
    }

    /// A buffer over the characters of the compressed data file `raw`.
    pub fn new(raw: &Vec<u8>) -> (res: FileBuffer)
        requires
            decompressible(raw@),
        ensures
            res.data@ == decompressed(raw@),
            res.index == 0,
            res.wf(),
    {
        FileBuffer { data: decompress(raw), index: 0 }
    }

    pub fn eof(&self) -> (res: bool)
        ensures
            res == (self.index >= self.data@.len()),
    {
        self.index >= self.data.len()
    }

    /// The line from the current position, which moves past it and the newlines after it.
    pub fn get_line(&mut self) -> (res: String)
        requires
            old(self).wf(),
        ensures
            final(self).wf(),
            final(self).data == old(self).data,
            res@ == line_at(old(self).data@, old(self).index as int),
            final(self).index == next_line(old(self).data@, old(self).index as int),
    {
        let start = self.index;
        proof {
            lemma_line_end_bounds(self.data@, start as int);
        }
        while self.index < self.data.len() && self.data[self.index] != '\n'
            invariant
                start <= self.index <= self.data@.len(),
                self.data == old(self).data,
                line_end(self.data@, start as int) == line_end(self.data@, self.index as int),
            decreases self.data.len() - self.index,
        {
            self.index = self.index + 1;
        }
        let result = string_of_range(&self.data, start, self.index);
        let ghost e = self.index as int;
        while self.index < self.data.len() && self.data[self.index] == '\n'
            invariant
                e <= self.index <= self.data@.len(),
                self.data == old(self).data,
                after_newlines(self.data@, e) == after_newlines(self.data@, self.index as int),
            decreases self.data.len() - self.index,
        {
            self.index = self.index + 1;
        }
        result
    }
}

impl FileBuffer {
    /// Reads the lines of the section from the current position (see `section_lines`).
    pub fn read_section(&mut self) -> (res: Vec<String>)
        requires
            old(self).wf(),
        ensures
            final(self).wf(),
            final(self).data == old(self).data,
            res@.map_values(|l: String| l@) == section_lines(old(self).data@, old(self).index as int),
            final(self).index == section_end(old(self).data@, old(self).index as int),
    {
        let separator = constants::FILE_SECTION_SEPARATOR.to_owned();
        let mut lines: Vec<String> = Vec::new();
        let ghost data = self.data@;
        let ghost i0 = self.index as int;
        let ghost mut prev: int = self.index as int;
        let mut line = self.get_line();
        proof {
            assert(lines@.map_values(|l: String| l@) =~= Seq::<Seq<char>>::empty());
            assert(Seq::<Seq<char>>::empty() + section_lines(data, prev) =~= section_lines(data, prev));
        }
        while !self.eof()
            invariant
                self.wf(),
                self.data@ == data,
                0 <= prev <= data.len(),
                separator@ == constants::FILE_SECTION_SEPARATOR@,
                line@ == line_at(data, prev),
                self.index == next_line(data, prev),
                self.data == old(self).data,
                section_lines(data, i0) == lines@.map_values(|l: String| l@) + section_lines(data, prev),
                section_end(data, i0) == section_end(data, prev),
            ensures
                self.wf(),
                self.data == old(self).data,
                section_lines(data, i0) == lines@.map_values(|l: String| l@),
                self.index == section_end(data, i0),
            decreases data.len() - prev,
        {
            proof {
                lemma_section_step(data, prev);
                lemma_next_line_bounds(data, prev);
            }
            if line == separator {
                assert(lines@.map_values(|l: String| l@) + Seq::<Seq<char>>::empty() =~= lines@.map_values(|l: String| l@));
                break;
            }
            let ghost before = lines@.map_values(|l: String| l@);
            let ghost lv = line@;
            lines.push(line);
            proof {
                assert(lines@.map_values(|l: String| l@) =~= before.push(lv));
                assert(before.push(lv) + section_lines(data, self.index as int) =~= before + (seq![lv] + section_lines(data, self.index as int)));
                prev = self.index as int;
            }
            line = self.get_line();
        }
        lines
    }
}

/// The fields of `line` separated by tabs.
pub fn split_tabs(line: &str) -> (res: Vec<String>)
    ensures
        res@.map_values(|f: String| f@) == tab_fields(line@),
{
    let chars = crate::text::chars_of(line);
    let mut fields: Vec<String> = Vec::new();
    let mut current = String::new();
    let mut start: usize = 0;
    let mut i: usize = 0;
    proof {
        assert(line@.subrange(0, line@.len() as int) =~= line@);
    }
    while i < chars.len()
        invariant
            chars@ == line@,
            start <= i <= chars@.len(),
            current@ == line@.subrange(start as int, i as int),
            forall|j: int| start <= j < i ==> line@[j] != '\t',
            fields@.map_values(|f: String| f@) + tab_fields(line@.subrange(start as int, line@.len() as int)) == tab_fields(line@),
        decreases chars.len() - i,
    {
        if chars[i] == '\t' {
            proof {
                let rest = line@.subrange(start as int, line@.len() as int);
                let t = (i - start) as int;
                assert forall|j: int| 0 <= j < t implies rest[j] != '\t' by {
                    assert(rest[j] == line@[start + j]);
                }
                lemma_first_tab_at(rest, 0, t);
                assert(rest.subrange(0, t) =~= current@);
                assert(rest.subrange(t + 1, rest.len() as int) =~= line@.subrange(i + 1, line@.len() as int));
                assert(tab_fields(rest) == seq![current@] + tab_fields(line@.subrange(i + 1, line@.len() as int)));
                assert(fields@.push(current).map_values(|f: String| f@) =~= fields@.map_values(|f: String| f@).push(current@));
            }
            fields.push(current);
            current = String::new();
            start = i + 1;
            proof {
                assert(current@ =~= line@.subrange(start as int, start as int));
            }
        } else {
            push_char(&mut current, chars[i]);
            assert(current@ =~= line@.subrange(start as int, i + 1));
        }
        i = i + 1;
    }
    proof {
        let rest = line@.subrange(start as int, line@.len() as int);
        assert forall|j: int| 0 <= j < rest.len() implies rest[j] != '\t' by {
            assert(rest[j] == line@[start + j]);
        }
        lemma_first_tab_at(rest, 0, rest.len() as int);
        assert(rest =~= current@);
        assert(fields@.push(current).map_values(|f: String| f@) =~= fields@.map_values(|f: String| f@).push(current@));
    }
    fields.push(current);
    fields
}

} // verus!
