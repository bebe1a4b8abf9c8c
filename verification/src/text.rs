//! Character-level text helpers shared by the game: building strings,
//! substituting the `$0` parameter marker, and decimal formatting.
use vstd::prelude::*;
use vstd::string::*;

verus! {

/// The character sequence of `s` with every `$0` marker replaced by `param`,
/// scanning left to right.
pub open spec fn subst(s: Seq<char>, param: Seq<char>) -> Seq<char>
    decreases s.len(),
{
    if s.len() == 0 {
        Seq::empty()
    } else if s.len() >= 2 && s[0] == '$' && s[1] == '0' {
        param + subst(s.skip(2), param)
    } else {
        seq![s[0]] + subst(s.skip(1), param)
    }
}

/// Appends one character to a string (`String::push`).
#[verifier::external_body]
pub(crate) fn push_char(s: &mut String, c: char)
    ensures
        final(s)@ == old(s)@.push(c),
{
    s.push(c)
}

/// The characters of `s`, in order.
pub fn chars_of(s: &str) -> (res: Vec<char>)
    ensures
        res@ == s@,
{
    let n = s.unicode_len();
    let mut res: Vec<char> = Vec::new();
    let mut i: usize = 0;
    while i < n
        invariant
            n == s@.len(),
            i <= n,
            res@ == s@.take(i as int),
        decreases n - i,
    {
        let c = s.get_char(i);
        res.push(c);
        assert(s@.take(i + 1) =~= s@.take(i as int).push(c));
        i = i + 1;
    }
    assert(s@.take(n as int) =~= s@);
    res
}

/// A string holding the characters `chars[from..to]`.
pub fn string_of_range(chars: &Vec<char>, from: usize, to: usize) -> (res: String)
    requires
        from <= to <= chars@.len(),
    ensures
        res@ == chars@.subrange(from as int, to as int),
{
    let mut res = String::new();
    let mut i: usize = from;
    while i < to
        invariant
            from <= i <= to <= chars@.len(),
            res@ == chars@.subrange(from as int, i as int),
        decreases to - i,
    {
        push_char(&mut res, chars[i]);
        assert(chars@.subrange(from as int, i + 1) =~= chars@.subrange(from as int, i as int).push(
            chars@[i as int],
        ));
        i = i + 1;
    }
    res
}

/// `a` followed by `b`, as a new string.
pub fn join(a: &str, b: &str) -> (res: String)
    ensures
        res@ == a@ + b@,
{
    let mut res = a.to_owned();
    res.append(b);
    res
}

/// Replaces every `$0` marker in `template` by `param`.
pub fn replace_param(template: &str, param: &str) -> (res: String)
    ensures
        res@ == subst(template@, param@),
{
    let t = chars_of(template);
    let n = t.len();
    let mut res = String::new();
    let mut i: usize = 0;
    assert(t@.skip(0) =~= t@);
    assert(res@ + subst(t@, param@) =~= subst(t@, param@));
    while i < n
        invariant
            n == t@.len(),
            t@ == template@,
            i <= n,
            res@ + subst(t@.skip(i as int), param@) == subst(t@, param@),
        decreases n - i,
    {
        let ghost rest = t@.skip(i as int);
        if i + 1 < n && t[i] == '$' && t[i + 1] == '0' {
            res.append(param);
            assert(rest.skip(2) =~= t@.skip(i + 2));
            assert(res@ + subst(t@.skip(i + 2), param@) =~= subst(t@, param@));
            i = i + 2;
        } else {
            push_char(&mut res, t[i]);
            assert(rest.skip(1) =~= t@.skip(i + 1));
            assert(res@ + subst(t@.skip(i + 1), param@) =~= subst(t@, param@));
            i = i + 1;
        }
    }
    assert(t@.skip(n as int) =~= Seq::<char>::empty());
    res
}

/// The decimal digit character for `d`.
pub open spec fn digit_char(d: nat) -> char {
    if d == 0 { '0' }
    else if d == 1 { '1' }
    else if d == 2 { '2' }
    else if d == 3 { '3' }
    else if d == 4 { '4' }
    else if d == 5 { '5' }
    else if d == 6 { '6' }
    else if d == 7 { '7' }
    else if d == 8 { '8' }
    else { '9' }
}

/// The decimal representation of `n`, without leading zeros.
pub open spec fn decimal(n: nat) -> Seq<char>
    decreases n,
{
    if n < 10 {
        seq![digit_char(n)]
    } else {
        decimal(n / 10).push(digit_char(n % 10))
    }
}

fn digit_to_char(d: u32) -> (c: char)
    requires
        d < 10,
    ensures
        c == digit_char(d as nat),
{
    if d == 0 { '0' }
    else if d == 1 { '1' }
    else if d == 2 { '2' }
    else if d == 3 { '3' }
    else if d == 4 { '4' }
    else if d == 5 { '5' }
    else if d == 6 { '6' }
    else if d == 7 { '7' }
    else if d == 8 { '8' }
    else { '9' }
}

/// The decimal representation of `n`, as `u32::to_string` gives it.
pub fn u32_to_string(n: u32) -> (res: String)
    ensures
        res@ == decimal(n as nat),
    decreases n,
{
    if n < 10 {
        let mut res = String::new();
        push_char(&mut res, digit_to_char(n));
        assert(res@ =~= decimal(n as nat));
        res
    } else {
        let mut res = u32_to_string(n / 10);
        push_char(&mut res, digit_to_char(n % 10));
        res
    }
}

/// Why a string is not a number.
#[derive(PartialEq, Eq, Structural, Clone, Copy, Debug)]
pub enum ParseError {
    /// The string is empty.
    Empty,
    /// A character is not a digit of the radix.
    InvalidDigit,
    /// The number is too large.
    PosOverflow,
}

/// The value of `c` as a digit (of radix up to 36), if it is one.
pub open spec fn digit_value(c: char) -> Option<nat> {
    let n = c as nat;
    if 0x30 <= n <= 0x39 {
        Some((n - 0x30) as nat)
    } else if 0x61 <= n <= 0x7a {
        Some((n - 0x61 + 10) as nat)
    } else if 0x41 <= n <= 0x5a {
        Some((n - 0x41 + 10) as nat)
    } else {
        None
    }
}

/// Reading the digits `s` in `radix` onto the value `acc` read so far, left
/// to right: the first character that is no digit of the radix, or the
/// first digit that takes the value past `u32::MAX`, ends the reading with
/// an error.
pub open spec fn parse_digits(s: Seq<char>, radix: nat, acc: nat) -> Result<nat, ParseError>
    decreases s.len(),
{
    if s.len() == 0 {
        Ok(acc)
    } else {
        match digit_value(s[0]) {
            Some(d) => if d < radix {
                let v = acc * radix + d;
                if v > u32::MAX { Err(ParseError::PosOverflow) } else { parse_digits(s.drop_first(), radix, v) }
            } else {
                Err(ParseError::InvalidDigit)
            },
            None => Err(ParseError::InvalidDigit),
        }
    }
}

/// The number `s` stands for in `radix`, as `u32::from_str_radix` reads it:
/// an optional `+`, then at least one digit.
pub open spec fn parse_u32(s: Seq<char>, radix: nat) -> Result<u32, ParseError> {
    if s.len() == 0 {
        Err(ParseError::Empty)
    } else {
        let body = if s[0] == '+' { s.drop_first() } else { s };
        if body.len() == 0 {
            Err(ParseError::InvalidDigit)
        } else {
            match parse_digits(body, radix, 0) {
                Ok(v) => Ok(v as u32),
                Err(e) => Err(e),
            }
        }
    }
}

pub proof fn lemma_parse_digits_bound(s: Seq<char>, radix: nat, acc: nat)
    requires
        acc <= u32::MAX,
    ensures
        parse_digits(s, radix, acc) matches Ok(v) ==> v <= u32::MAX,
    decreases s.len(),
{
    if s.len() > 0 {
        if let Some(d) = digit_value(s[0]) {
            if d < radix && acc * radix + d <= u32::MAX {
                lemma_parse_digits_bound(s.drop_first(), radix, acc * radix + d);
            }
        }
    }
}

/// The value of digit `c`, if it is a digit of `radix`.
fn to_digit(c: char, radix: u32) -> (res: Option<u32>)
    requires
        2 <= radix <= 36,
    ensures
        res == (match digit_value(c) {
            Some(d) => if d < radix { Some(d as u32) } else { None },
            None => None,
        }),
{
    let n = c as u32;
    let d: u32 = if 0x30 <= n && n <= 0x39 {
        n - 0x30
    } else if 0x61 <= n && n <= 0x7a {
        n - 0x61 + 10
    } else if 0x41 <= n && n <= 0x5a {
        n - 0x41 + 10
    } else {
        return None;
    };
    if d < radix { Some(d) } else { None }
}

/// Reads `s` as a number in `radix` (see `parse_u32`).
pub fn parse_u32_exec(s: &str, radix: u32) -> (res: Result<u32, ParseError>)
    requires
        2 <= radix <= 36,
    ensures
        res == parse_u32(s@, radix as nat),
{
    let chars = chars_of(s);
    let n = chars.len();
    if n == 0 {
        return Err(ParseError::Empty);
    }
    let start: usize = if chars[0] == '+' { 1 } else { 0 };
    let ghost body = if s@[0] == '+' { s@.drop_first() } else { s@ };
    assert(body =~= chars@.skip(start as int));
    if start == n {
        return Err(ParseError::InvalidDigit);
    }
    let mut acc: u32 = 0;
    let mut i: usize = start;
    while i < n
        invariant
            chars@ == s@,
            n == chars@.len(),
            start <= i <= n,
            2 <= radix <= 36,
            parse_u32(s@, radix as nat) == (match parse_digits(chars@.skip(start as int), radix as nat, 0) {
                Ok(v) => Ok(v as u32),
                Err(e) => Err(e),
            }),
            parse_digits(chars@.skip(start as int), radix as nat, 0) == parse_digits(chars@.skip(i as int), radix as nat, acc as nat),
        decreases n - i,
    {
        assert(chars@.skip(i as int).drop_first() =~= chars@.skip(i + 1));
        match to_digit(chars[i], radix) {
            None => return Err(ParseError::InvalidDigit),
            Some(d) => {
                assert(acc as u64 * radix as u64 <= 0xffff_ffff * 36) by (nonlinear_arith)
                    requires acc <= 0xffff_ffff, radix <= 36;
                let v: u64 = acc as u64 * radix as u64 + d as u64;
                if v > 0xffff_ffff {
                    return Err(ParseError::PosOverflow);
                }
                acc = v as u32;
            },
        }
        i = i + 1;
    }
    assert(chars@.skip(n as int) =~= Seq::<char>::empty());
    Ok(acc)
}

/// Whether `a` comes before `b` or equals it, as strings are ordered:
/// character by character, and a prefix first.
pub open spec fn text_le(a: Seq<char>, b: Seq<char>) -> bool
    decreases a.len(),
{
    if a.len() == 0 {
        true
    } else if b.len() == 0 {
        false
    } else if a[0] != b[0] {
        (a[0] as u32) < (b[0] as u32)
    } else {
        text_le(a.drop_first(), b.drop_first())
    }
}

pub open spec fn text_leq() -> spec_fn(Seq<char>, Seq<char>) -> bool {
    |a: Seq<char>, b: Seq<char>| text_le(a, b)
}

proof fn lemma_char_code_injective(x: char, y: char)
    ensures
        x != y ==> (x as u32) != (y as u32),
{
}

pub proof fn lemma_text_le_total(a: Seq<char>, b: Seq<char>)
    ensures
        text_le(a, b) || text_le(b, a),
        text_le(a, a),
        text_le(a, b) && text_le(b, a) ==> a == b,
    decreases a.len(),
{
    if a.len() > 0 && b.len() > 0 {
        lemma_text_le_total(a.drop_first(), b.drop_first());
        if a[0] == b[0] && text_le(a, b) && text_le(b, a) {
            assert(a =~= seq![a[0]] + a.drop_first());
            assert(b =~= seq![b[0]] + b.drop_first());
        }
        lemma_char_code_injective(a[0], b[0]);
    } else if a.len() > 0 {
        lemma_text_le_total(a.drop_first(), a.drop_first());
    } else if b.len() == 0 {
        assert(a =~= b);
    }
}

pub proof fn lemma_text_le_trans(a: Seq<char>, b: Seq<char>, c: Seq<char>)
    requires
        text_le(a, b),
        text_le(b, c),
    ensures
        text_le(a, c),
    decreases a.len(),
{
    if a.len() > 0 && b.len() > 0 && c.len() > 0 {
        if a[0] == b[0] && b[0] == c[0] {
            lemma_text_le_trans(a.drop_first(), b.drop_first(), c.drop_first());
        }
    }
}

pub proof fn lemma_text_leq_total_ordering()
    ensures
        vstd::relations::total_ordering(text_leq()),
{
    assert forall|a: Seq<char>| #[trigger] text_leq()(a, a) by {
        lemma_text_le_total(a, a);
    }
    assert forall|a: Seq<char>, b: Seq<char>| #[trigger] text_leq()(a, b) && #[trigger] text_leq()(b, a) implies a == b by {
        lemma_text_le_total(a, b);
    }
    assert forall|a: Seq<char>, b: Seq<char>, c: Seq<char>|
        #[trigger] text_leq()(a, b) && #[trigger] text_leq()(b, c) implies #[trigger] text_leq()(a, c) by {
        lemma_text_le_trans(a, b, c);
    }
    assert forall|a: Seq<char>, b: Seq<char>| #[trigger] text_leq()(a, b) || #[trigger] text_leq()(b, a) by {
        lemma_text_le_total(a, b);
    }
}

/// Whether `a` comes before `b` or equals it (see `text_le`).
pub fn text_le_exec(a: &str, b: &str) -> (res: bool)
    ensures
        res == text_le(a@, b@),
{
    let ca = chars_of(a);
    let cb = chars_of(b);
    let mut i: usize = 0;
    assert(a@.skip(0) =~= a@);
    assert(b@.skip(0) =~= b@);
    while i < ca.len() && i < cb.len()
        invariant
            ca@ == a@,
            cb@ == b@,
            i <= ca@.len(),
            i <= cb@.len(),
            text_le(a@, b@) == text_le(a@.skip(i as int), b@.skip(i as int)),
        decreases ca.len() - i,
    {
        assert(a@.skip(i as int).drop_first() =~= a@.skip(i + 1));
        assert(b@.skip(i as int).drop_first() =~= b@.skip(i + 1));
        if ca[i] != cb[i] {
            return (ca[i] as u32) < (cb[i] as u32);
        }
        i = i + 1;
    }
    i == ca.len()
}

} // verus!
