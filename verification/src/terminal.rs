//! What the game puts on the terminal and how it reads what the player
//! types: texts are broken into prompted lines that fit the console, and a
//! typed line is cut into its first words, in lower case.
use vstd::prelude::*;
use vstd::string::*;

use crate::text::{chars_of, push_char, string_of_range};

verus! {

/// The width of the console.
pub const CONSOLE_WIDTH: usize = 80;
/// The width taken by a prompt.
pub const PROMPT_WIDTH: usize = 11;
/// The room a stub name has in front of the prompt's arrow.
pub const PROMPT_EFFECTIVE_WIDTH: usize = 8;
/// The room a line of text has beside its prompt.
pub const CONSOLE_EFFECTIVE_WIDTH: usize = 69;
/// How many words of a typed line count.
pub const MAX_TOKENS: usize = 2;

/// The prompt in front of the first line of a text.
pub open spec fn prompt_full() -> Seq<char> {
    "---------> "@
}

/// The prompt in front of the following lines of a text.
pub open spec fn prompt_tab() -> Seq<char> {
    "         > "@
}

/// The arrow that ends the prompt of a stub name.
pub open spec fn prompt_end() -> Seq<char> {
    " > "@
}

/// The position of the first newline in `chars[from..to]`.
pub open spec fn first_newline(chars: Seq<char>, from: int, to: int) -> Option<int>
    decreases to - from,
{
    if from >= to {
        None
    } else if chars[from] == '\n' {
        Some(from)
    } else {
        first_newline(chars, from + 1, to)
    }
}

/// The position of the last space in `chars[from..to]`.
pub open spec fn last_space(chars: Seq<char>, from: int, to: int) -> Option<int>
    decreases to - from,
{
    if from >= to {
        None
    } else if chars[to - 1] == ' ' {
        Some(to - 1)
    } else {
        last_space(chars, from, to - 1)
    }
}

pub proof fn lemma_first_newline_range(chars: Seq<char>, from: int, to: int)
    ensures
        first_newline(chars, from, to) matches Some(n) ==> from <= n < to && chars[n] == '\n',
        first_newline(chars, from, to) is None ==> forall|i: int| from <= i < to ==> chars[i] != '\n',
    decreases to - from,
{
    if from < to {
        lemma_first_newline_range(chars, from + 1, to);
    }
}

pub proof fn lemma_last_space_range(chars: Seq<char>, from: int, to: int)
    ensures
        last_space(chars, from, to) matches Some(n) ==> from <= n < to && chars[n] == ' ',
        last_space(chars, from, to) is None ==> forall|i: int| from <= i < to ==> chars[i] != ' ',
    decreases to - from,
{
    if from < to {
        lemma_last_space_range(chars, from, to - 1);
    }
}

/// The lines that show `chars` from `start` on, the first behind `prompt`,
/// the others behind `prompt_tab()`. A line runs to the next newline if one
/// comes within the console's room, else to the end if that fits, else to the
/// last space within the room; what is left with neither is shown whole.
pub open spec fn layout(chars: Seq<char>, start: int, prompt: Seq<char>) -> Seq<Seq<char>>
    decreases chars.len() - start,
{
    if start < 0 || start > chars.len() {
        Seq::empty()
    } else {
        let remaining = chars.len() - start;
        let max = if remaining < CONSOLE_EFFECTIVE_WIDTH { chars.len() as int } else { start + CONSOLE_EFFECTIVE_WIDTH };
        proof {
            lemma_first_newline_range(chars, start, max);
            lemma_last_space_range(chars, start, max);
        }
        match first_newline(chars, start, max) {
            Some(nl) => seq![prompt + chars.subrange(start, nl)] + layout(chars, nl + 1, prompt_tab()),
            None => if remaining <= CONSOLE_EFFECTIVE_WIDTH {
                seq![prompt + chars.subrange(start, chars.len() as int)]
            } else {
                match last_space(chars, start, max) {
                    Some(sp) => seq![prompt + chars.subrange(start, sp)] + layout(chars, sp + 1, prompt_tab()),
                    None => seq![prompt + chars.subrange(start, chars.len() as int)],
                }
            },
        }
    }
}

/// The views of a list of strings.
pub open spec fn string_views(s: Seq<String>) -> Seq<Seq<char>> {
    s.map_values(|x: String| x@)
}

/// The lines that show `st` in full on the console, each behind its prompt.
pub fn write_full(st: &str) -> (lines: Vec<String>)
    ensures
        string_views(lines@) == layout(st@, 0, prompt_full()),
{
    let raw = chars_of(st);
    let mut lines: Vec<String> = Vec::new();
    write_sections(&raw, 0, "---------> ", &mut lines);
    assert(string_views(lines@) =~= layout(st@, 0, prompt_full()));
    lines
}

/// Adds the lines that show `chars` from `start_index` on, the first behind `prompt`.
fn write_sections(chars: &Vec<char>, start_index: usize, prompt: &str, out: &mut Vec<String>)
    requires
        start_index <= chars@.len(),
    ensures
        string_views(final(out)@) == string_views(old(out)@) + layout(chars@, start_index as int, prompt@),
    decreases chars@.len() - start_index, 1nat,
{
    proof {
        reveal_strlit("         > ");
    }
    let remaining = chars.len() - start_index;
    let max_index = start_index + if remaining < CONSOLE_EFFECTIVE_WIDTH { remaining } else { CONSOLE_EFFECTIVE_WIDTH };
    proof {
        lemma_first_newline_range(chars@, start_index as int, max_index as int);
        lemma_last_space_range(chars@, start_index as int, max_index as int);
    }
    let newline_index = get_newline_index_within_width(chars, start_index, max_index);
    if newline_index != -1 {
        write_remainder(chars, start_index, start_index + newline_index as usize, prompt, out);
    } else if remaining <= CONSOLE_EFFECTIVE_WIDTH {
        write_content(chars, start_index, chars.len(), prompt, out);
    } else {
        let space_index = get_last_space_index_within_width(chars, start_index, max_index);
        if space_index != -1 {
            write_remainder(chars, start_index, start_index + space_index as usize, prompt, out);
        } else {
            write_content(chars, start_index, chars.len(), prompt, out);
        }
    }
}

/// Adds the line of `chars[start_index..stop_index]` behind `prompt`, then
/// the lines of what follows the character at `stop_index`.
fn write_remainder(chars: &Vec<char>, start_index: usize, stop_index: usize, prompt: &str, out: &mut Vec<String>)
    requires
        start_index <= stop_index < chars.len(),
    ensures
        string_views(final(out)@) == string_views(old(out)@) + seq![prompt@ + chars@.subrange(start_index as int, stop_index as int)]
            + layout(chars@, stop_index + 1, prompt_tab()),
    decreases chars@.len() - start_index, 0nat,
{
    write_content(chars, start_index, stop_index, prompt, out);
    let ghost mid = string_views(out@);
    write_sections(chars, stop_index + 1, "         > ", out);
    proof {
        reveal_strlit("         > ");
    }
}

/// Adds the line of `chars[start_index..stop_index]` behind `prompt`.
fn write_content(chars: &Vec<char>, start_index: usize, stop_index: usize, prompt: &str, out: &mut Vec<String>)
    requires
        start_index <= stop_index <= chars@.len(),
    ensures
        string_views(final(out)@) == string_views(old(out)@).push(prompt@ + chars@.subrange(start_index as int, stop_index as int)),
{
    let content = string_of_range(chars, start_index, stop_index);
    write_prompted(content.as_str(), prompt, out);
}

/// Adds the line `prompt` followed by `st`.
fn write_prompted(st: &str, prompt: &str, out: &mut Vec<String>)
    ensures
        string_views(final(out)@) == string_views(old(out)@).push(prompt@ + st@),
{
    let mut prompted = String::from_str(prompt);
    prompted.append(st);
    let ghost before = out@;
    out.push(prompted);
    assert(string_views(out@) =~= string_views(before).push(prompt@ + st@));
}

/// The offset from `from` of the first newline in `chars[from..to]`, or -1.
fn get_newline_index_within_width(chars: &Vec<char>, from: usize, to: usize) -> (res: i32)
    requires
        from <= to <= chars@.len(),
        to - from <= i32::MAX,
    ensures
        res == match first_newline(chars@, from as int, to as int) {
            Some(n) => n - from,
            None => -1,
        },
{
    let mut i: usize = from;
    while i < to
        invariant
            from <= i <= to <= chars@.len(),
            to - from <= i32::MAX,
            first_newline(chars@, from as int, to as int) == first_newline(chars@, i as int, to as int),
        decreases to - i,
    {
        if chars[i] == '\n' {
            return (i - from) as i32;
        }
        i = i + 1;
    }
    -1
}

/// The offset from `from` of the last space in `chars[from..to]`, or -1.
fn get_last_space_index_within_width(chars: &Vec<char>, from: usize, to: usize) -> (res: i32)
    requires
        from <= to <= chars@.len(),
        to - from <= i32::MAX,
    ensures
        res == match last_space(chars@, from as int, to as int) {
            Some(n) => n - from,
            None => -1,
        },
{
    let mut i: usize = to;
    while i > from
        invariant
            from <= i <= to <= chars@.len(),
            to - from <= i32::MAX,
            last_space(chars@, from as int, to as int) == last_space(chars@, from as int, i as int),
        decreases i - from,
    {
        if chars[i - 1] == ' ' {
            return (i - 1 - from) as i32;
        }
        i = i - 1;
    }
    -1
}

/// A string holding `chars`.
pub fn to_str(chars: &Vec<char>) -> (res: String)
    ensures
        res@ == chars@,
{
    let res = string_of_range(chars, 0, chars.len());
    assert(chars@.subrange(0, chars@.len() as int) =~= chars@);
    res
}

/// Whether `c` is white space: it has the Unicode property White_Space, the
/// 25 code points that `char::is_whitespace` accepts.
pub open spec fn white_space(c: char) -> bool {
    let n = c as u32;
    ||| 0x9 <= n <= 0xd
    ||| n == 0x20 || n == 0x85 || n == 0xa0 || n == 0x1680
    ||| 0x2000 <= n <= 0x200a
    ||| n == 0x2028 || n == 0x2029 || n == 0x202f || n == 0x205f || n == 0x3000
}

/// The lower-case form of a text in the sense of Unicode (`str::to_lowercase`).
pub uninterp spec fn lowercase(s: Seq<char>) -> Seq<char>;

/// Whether `c` is white space (see `white_space`).
fn is_white(c: char) -> (res: bool)
    ensures
        res == white_space(c),
{
    let n = c as u32;
    (0x9 <= n && n <= 0xd) || n == 0x20 || n == 0x85 || n == 0xa0 || n == 0x1680 || (0x2000 <= n && n <= 0x200a)
        || n == 0x2028 || n == 0x2029 || n == 0x202f || n == 0x205f || n == 0x3000
}

/// The lower-case form of `s`: `str::to_lowercase`, which follows the
/// Unicode lower-case mappings; the result is named, not spelled out.
#[verifier::external_body]
fn to_lower(s: &str) -> (res: String)
    ensures
        res@ == lowercase(s@),
{
    s.to_lowercase()
}

/// Where the word that starts at `i` ends: at the first white space at or
/// after `i`, or at the end of `s`.
pub open spec fn word_end(s: Seq<char>, i: int) -> int
    decreases s.len() - i,
{
    if i >= s.len() || white_space(s[i]) { i } else { word_end(s, i + 1) }
}

pub proof fn lemma_word_end(s: Seq<char>, i: int)
    requires
        0 <= i <= s.len(),
    ensures
        i <= word_end(s, i) <= s.len(),
        i < s.len() && !white_space(s[i]) ==> i < word_end(s, i),
        forall|k: int| i <= k < word_end(s, i) ==> !white_space(#[trigger] s[k]),
        word_end(s, i) < s.len() ==> white_space(s[word_end(s, i)]),
    decreases s.len() - i,
{
    if i < s.len() && !white_space(s[i]) {
        lemma_word_end(s, i + 1);
    }
}

/// The words of `s` from position `i` on: the stretches without white space.
pub open spec fn words_from(s: Seq<char>, i: int) -> Seq<Seq<char>>
    decreases s.len() - i,
{
    if i < 0 || i >= s.len() {
        Seq::empty()
    } else if white_space(s[i]) {
        words_from(s, i + 1)
    } else {
        proof {
            lemma_word_end(s, i);
        }
        seq![s.subrange(i, word_end(s, i))] + words_from(s, word_end(s, i))
    }
}

/// What counts of a typed line: its first `MAX_TOKENS` words, in lower case.
pub open spec fn tokens(line: Seq<char>) -> Seq<Seq<char>> {
    let w = words_from(line, 0);
    let n = if w.len() < MAX_TOKENS { w.len() as int } else { MAX_TOKENS as int };
    w.take(n).map_values(|x: Seq<char>| lowercase(x))
}

/// The first `MAX_TOKENS` words of a typed line, in lower case.
pub fn read_tokens(line: &str) -> (res: Vec<String>)
    ensures
        string_views(res@) == tokens(line@),
{
    let chars = chars_of(line);
    let ghost s = line@;
    let ghost all = words_from(s, 0);
    let mut res: Vec<String> = Vec::new();
    let ghost mut raw: Seq<Seq<char>> = Seq::empty();
    let mut i: usize = 0;
    while i < chars.len() && res.len() < MAX_TOKENS
        invariant
            chars@ == s,
            all == words_from(s, 0),
            i <= s.len(),
            res@.len() == raw.len(),
            raw.len() <= MAX_TOKENS,
            all == raw + words_from(s, i as int),
            string_views(res@) == raw.map_values(|x: Seq<char>| lowercase(x)),
        decreases s.len() - i, MAX_TOKENS - res@.len(),
    {
        if is_white(chars[i]) {
            i = i + 1;
        } else {
            proof {
                lemma_word_end(s, i as int);
            }
            let mut j: usize = i;
            while j < chars.len() && !is_white(chars[j])
                invariant
                    chars@ == s,
                    i <= j <= s.len(),
                    word_end(s, i as int) == word_end(s, j as int),
                decreases s.len() - j,
            {
                j = j + 1;
            }
            let word = string_of_range(&chars, i, j);
            let lower = to_lower(word.as_str());
            let ghost before = res@;
            res.push(lower);
            proof {
                let raw0 = raw;
                raw = raw.push(s.subrange(i as int, j as int));
                assert(all == raw + words_from(s, j as int));
                assert(string_views(before) == raw0.map_values(|x: Seq<char>| lowercase(x)));
                assert(lower@ == lowercase(s.subrange(i as int, j as int)));
                assert forall|k: int| 0 <= k < raw.len() implies #[trigger] string_views(res@)[k]
                    == raw.map_values(|x: Seq<char>| lowercase(x))[k] by {
                    if k < raw0.len() {
                        assert(res@[k] == before[k]);
                        assert(string_views(before)[k] == raw0.map_values(|x: Seq<char>| lowercase(x))[k]);
                    }
                }
                assert(string_views(res@) =~= raw.map_values(|x: Seq<char>| lowercase(x)));
            }
            i = j;
        }
    }
    proof {
        if raw.len() < MAX_TOKENS {
            assert(words_from(s, i as int) =~= Seq::<Seq<char>>::empty());
            assert(all =~= raw);
        } else {
            assert(all.take(MAX_TOKENS as int) =~= raw);
        }
        assert(string_views(res@) =~= tokens(line@));
    }
    res
}

/// The number of bytes character `c` takes in UTF-8.
pub open spec fn utf8_width(c: char) -> nat {
    let n = c as u32;
    if n < 0x80 { 1 } else if n < 0x800 { 2 } else if n < 0x10000 { 3 } else { 4 }
}

/// The number of bytes `s` takes in UTF-8 (what `str::len` gives).
pub open spec fn utf8_len(s: Seq<char>) -> nat
    decreases s.len(),
{
    if s.len() == 0 { 0 } else { utf8_len(s.drop_last()) + utf8_width(s.last()) }
}

/// The prompt for a stub name: the name, padded with spaces until its
/// length in bytes reaches `PROMPT_EFFECTIVE_WIDTH`, then the arrow.
pub open spec fn stub_prompt_of(stub: Seq<char>) -> Seq<char> {
    let pad = if utf8_len(stub) < PROMPT_EFFECTIVE_WIDTH { PROMPT_EFFECTIVE_WIDTH - utf8_len(stub) } else { 0 };
    stub + Seq::new(pad as nat, |i: int| ' ') + prompt_end()
}

/// The length in bytes of `s`, or `PROMPT_EFFECTIVE_WIDTH` if it is at least that.
fn byte_len_capped(s: &str) -> (res: usize)
    ensures
        res == if utf8_len(s@) < PROMPT_EFFECTIVE_WIDTH { utf8_len(s@) } else { PROMPT_EFFECTIVE_WIDTH as nat },
{
    let chars = chars_of(s);
    let mut total: usize = 0;
    let mut i: usize = 0;
    assert(s@.take(0) =~= Seq::<char>::empty());
    while i < chars.len()
        invariant
            chars@ == s@,
            i <= chars@.len(),
            total == if utf8_len(s@.take(i as int)) < PROMPT_EFFECTIVE_WIDTH { utf8_len(s@.take(i as int)) }
                else { PROMPT_EFFECTIVE_WIDTH as nat },
        decreases chars.len() - i,
    {
        let c = chars[i];
        let n = c as u32;
        let w: usize = if n < 0x80 { 1 } else if n < 0x800 { 2 } else if n < 0x10000 { 3 } else { 4 };
        assert(s@.take(i + 1).drop_last() =~= s@.take(i as int));
        assert(s@.take(i + 1).last() == c);
        assert(w == utf8_width(c));
        assert(utf8_len(s@.take(i + 1)) == utf8_len(s@.take(i as int)) + w);
        total = if total + w < PROMPT_EFFECTIVE_WIDTH { total + w } else { PROMPT_EFFECTIVE_WIDTH };
        i = i + 1;
    }
    assert(s@.take(chars@.len() as int) =~= s@);
    total
}

/// The prompt shown when the player is at a place with stub name `stubname`.
pub fn stub_prompt(stubname: &str) -> (res: String)
    ensures
        res@ == stub_prompt_of(stubname@),
{
    let mut prompt = String::from_str(stubname);
    let start = byte_len_capped(stubname);
    let mut k: usize = start;
    while k < PROMPT_EFFECTIVE_WIDTH
        invariant
            start <= k <= PROMPT_EFFECTIVE_WIDTH,
            prompt@ == stubname@ + Seq::new((k - start) as nat, |i: int| ' '),
        decreases PROMPT_EFFECTIVE_WIDTH - k,
    {
        push_char(&mut prompt, ' ');
        assert(prompt@ =~= stubname@ + Seq::new((k + 1 - start) as nat, |i: int| ' '));
        k = k + 1;
    }
    prompt.append(" > ");
    proof {
        let pad = if utf8_len(stubname@) < PROMPT_EFFECTIVE_WIDTH { PROMPT_EFFECTIVE_WIDTH - utf8_len(stubname@) } else { 0 };
        assert(Seq::new((k - start) as nat, |i: int| ' ') =~= Seq::new(pad as nat, |i: int| ' '));
    }
    prompt
}

/// The prompt for a question.
pub open spec fn question_prompt_of(question: Seq<char>) -> Seq<char> {
    prompt_full() + question + " "@
}

/// The prompt shown with question `question`.
pub fn question_prompt(question: &str) -> (res: String)
    ensures
        res@ == question_prompt_of(question@),
{
    let mut prompt = String::from_str("---------> ");
    prompt.append(question);
    prompt.append(" ");
    prompt
}

/// Whether two texts are the same.
pub fn same_text(a: &str, b: &str) -> (res: bool)
    ensures
        res == (a@ == b@),
{
    let ca = chars_of(a);
    let cb = chars_of(b);
    if ca.len() != cb.len() {
        return false;
    }
    let mut i: usize = 0;
    while i < ca.len()
        invariant
            ca@ == a@,
            cb@ == b@,
            ca@.len() == cb@.len(),
            i <= ca@.len(),
            forall|k: int| 0 <= k < i ==> ca@[k] == cb@[k],
        decreases ca.len() - i,
    {
        if ca[i] != cb[i] {
            return false;
        }
        i = i + 1;
    }
    assert(a@ =~= b@);
    true
}

/// The answer a word gives to a yes-no question: yes for "yes", "y" and
/// "true", no for "no", "n" and "false", none for anything else.
pub open spec fn yes_no_of(word: Seq<char>) -> Option<bool> {
    if word == "yes"@ || word == "y"@ || word == "true"@ {
        Some(true)
    } else if word == "no"@ || word == "n"@ || word == "false"@ {
        Some(false)
    } else {
        None
    }
}

/// The answer `word` gives to a yes-no question, if any.
pub fn get_yes_no(word: &str) -> (res: Option<bool>)
    ensures
        res == yes_no_of(word@),
{
    if same_text(word, "yes") || same_text(word, "y") || same_text(word, "true") {
        Some(true)
    } else if same_text(word, "no") || same_text(word, "n") || same_text(word, "false") {
        Some(false)
    } else {
        None
    }
}

} // verus!
