//! Properties that hold across the library's functions.
use vstd::prelude::*;

use crate::constants;
use crate::data_collection::{DataCollection, ItemId, LocationId, StringId, World, event_at, turns_distinct, valid_inventory_id, valid_item, valid_location_id};
use crate::game::{hazards, reincarnation_question, spec_decide};
use crate::item_list::{id_at, is_or_holds};
use crate::item::{Item, chain_contains, has_bits, item_index, valid_item_id, within_of};
use crate::item_list::{first_holder, first_obstruction, holds, retire_in, set_flag};
use crate::location::{Direction, dir_index};
use crate::player::Player;
use crate::player_items::Pending;
use crate::player_move::score;
use crate::terminal::{CONSOLE_EFFECTIVE_WIDTH, MAX_TOKENS, layout, prompt_tab, tokens, white_space, words_from,
    lemma_first_newline_range, lemma_last_space_range};
use crate::text::{decimal, digit_char, digit_value, parse_digits, parse_u32, subst};

verus! {

/// Reading one more digit `c` after the digits `s`.
pub open spec fn read_digit(r: Result<nat, crate::text::ParseError>, c: char, radix: nat) -> Result<nat, crate::text::ParseError> {
    match r {
        Err(e) => Err(e),
        Ok(v) => match digit_value(c) {
            Some(d) => if d < radix {
                if v * radix + d > u32::MAX { Err(crate::text::ParseError::PosOverflow) } else { Ok(v * radix + d) }
            } else {
                Err(crate::text::ParseError::InvalidDigit)
            },
            None => Err(crate::text::ParseError::InvalidDigit),
        },
    }
}

pub proof fn lemma_parse_digits_push(s: Seq<char>, c: char, radix: nat, acc: nat)
    ensures
        parse_digits(s.push(c), radix, acc) == read_digit(parse_digits(s, radix, acc), c, radix),
    decreases s.len(),
{
    let t = s.push(c);
    if s.len() == 0 {
        assert(t.drop_first() =~= Seq::<char>::empty());
        assert(t[0] == c);
        match digit_value(c) {
            Some(d) => if d < radix {
                let v = acc * radix + d;
                assert(parse_digits(Seq::<char>::empty(), radix, v) == Ok::<nat, crate::text::ParseError>(v));
            },
            None => {},
        }
    } else {
        assert(t.drop_first() =~= s.drop_first().push(c));
        assert(t[0] == s[0]);
        match digit_value(s[0]) {
            Some(d) => if d < radix {
                let v = acc * radix + d;
                if v <= u32::MAX {
                    lemma_parse_digits_push(s.drop_first(), c, radix, v);
                    assert(parse_digits(t, radix, acc) == parse_digits(t.drop_first(), radix, v));
                    assert(parse_digits(s, radix, acc) == parse_digits(s.drop_first(), radix, v));
                }
            },
            None => {},
        }
    }
}

pub proof fn lemma_digit_char_value(d: nat)
    requires
        d < 10,
    ensures
        digit_value(digit_char(d)) == Some(d),
{
}

pub proof fn lemma_decimal_digits(n: nat)
    requires
        n <= u32::MAX,
    ensures
        parse_digits(decimal(n), 10, 0) == Ok::<nat, crate::text::ParseError>(n),
        decimal(n).len() > 0,
        decimal(n)[0] != '+',
    decreases n,
{
    if n < 10 {
        lemma_digit_char_value(n);
        lemma_parse_digits_push(Seq::<char>::empty(), digit_char(n), 10, 0);
        assert(Seq::<char>::empty().push(digit_char(n)) =~= decimal(n));
        assert(parse_digits(Seq::<char>::empty(), 10, 0) == Ok::<nat, crate::text::ParseError>(0));
    } else {
        lemma_decimal_digits(n / 10);
        lemma_digit_char_value(n % 10);
        lemma_parse_digits_push(decimal(n / 10), digit_char(n % 10), 10, 0);
        assert((n / 10) * 10 + n % 10 == n);
        assert(decimal(n)[0] == decimal(n / 10)[0]);
    }
}

/// A number written in decimal (`u32_to_string`) reads back as itself
/// (`str_to_u32` in radix 10).
pub proof fn law_decimal_round_trip(n: u32)
    ensures
        parse_u32(decimal(n as nat), 10) == Ok::<u32, crate::text::ParseError>(n),
{
    lemma_decimal_digits(n as nat);
}

/// Whether the parameter marker `$0` starts at position `i` of `s`.
pub open spec fn marker_at(s: Seq<char>, i: int) -> bool {
    s[i] == '$' && s[i + 1] == '0'
}

/// Whether `s` holds the parameter marker `$0`.
pub open spec fn has_marker(s: Seq<char>) -> bool {
    exists|i: int| 0 <= i < s.len() - 1 && #[trigger] marker_at(s, i)
}

/// A text without the marker `$0` is left as it is by substitution, whatever
/// the parameter (so `get_response_param` gives such a response unchanged).
pub proof fn law_subst_without_marker(s: Seq<char>, param: Seq<char>)
    requires
        !has_marker(s),
    ensures
        subst(s, param) == s,
    decreases s.len(),
{
    if s.len() > 0 {
        assert(!has_marker(s.skip(1))) by {
            if has_marker(s.skip(1)) {
                let i = choose|i: int| 0 <= i < s.skip(1).len() - 1 && #[trigger] marker_at(s.skip(1), i);
                assert(marker_at(s, i + 1));
            }
        }
        if s.len() >= 2 {
            assert(!marker_at(s, 0));
        }
        law_subst_without_marker(s.skip(1), param);
        assert(seq![s[0]] + s.skip(1) =~= s);
    }
}

/// Every line of a text laid out on the console starts with a prompt: the
/// first with `prompt`, the others with the tab prompt; and there is at
/// least one line.
pub proof fn law_layout_prompts(chars: Seq<char>, start: int, prompt: Seq<char>)
    requires
        0 <= start <= chars.len(),
    ensures
        layout(chars, start, prompt).len() > 0,
        layout(chars, start, prompt)[0].take(prompt.len() as int) == prompt,
        forall|j: int| 1 <= j < layout(chars, start, prompt).len() ==>
            (#[trigger] layout(chars, start, prompt)[j]).take(prompt_tab().len() as int) == prompt_tab(),
    decreases chars.len() - start,
{
    let remaining = chars.len() - start;
    let max = if remaining < CONSOLE_EFFECTIVE_WIDTH { chars.len() as int } else { start + CONSOLE_EFFECTIVE_WIDTH };
    lemma_first_newline_range(chars, start, max);
    lemma_last_space_range(chars, start, max);
    let l = layout(chars, start, prompt);
    match crate::terminal::first_newline(chars, start, max) {
        Some(nl) => {
            law_layout_prompts(chars, nl + 1, prompt_tab());
            let rest = layout(chars, nl + 1, prompt_tab());
            assert((prompt + chars.subrange(start, nl)).take(prompt.len() as int) =~= prompt);
            assert forall|j: int| 1 <= j < l.len() implies (#[trigger] l[j]).take(prompt_tab().len() as int) == prompt_tab() by {
                assert(l[j] == rest[j - 1]);
                if j - 1 == 0 {
                } else {
                    assert(rest[j - 1].take(prompt_tab().len() as int) == prompt_tab());
                }
            }
        },
        None => if remaining <= CONSOLE_EFFECTIVE_WIDTH {
            assert((prompt + chars.subrange(start, chars.len() as int)).take(prompt.len() as int) =~= prompt);
        } else {
            match crate::terminal::last_space(chars, start, max) {
                Some(sp) => {
                    law_layout_prompts(chars, sp + 1, prompt_tab());
                    let rest = layout(chars, sp + 1, prompt_tab());
                    assert((prompt + chars.subrange(start, sp)).take(prompt.len() as int) =~= prompt);
                    assert forall|j: int| 1 <= j < l.len() implies (#[trigger] l[j]).take(prompt_tab().len() as int) == prompt_tab() by {
                        assert(l[j] == rest[j - 1]);
                    }
                },
                None => {
                    assert((prompt + chars.subrange(start, chars.len() as int)).take(prompt.len() as int) =~= prompt);
                },
            }
        },
    }
}

/// The last line of a text laid out on the console shows the end of the
/// text, behind a prompt.
pub proof fn law_layout_last_line(chars: Seq<char>, start: int, prompt: Seq<char>)
    requires
        0 <= start <= chars.len(),
    ensures
        exists|k: int, q: Seq<char>| #![trigger chars.subrange(k, chars.len() as int), q.len()]
            start <= k <= chars.len()
            && (q == prompt || q == prompt_tab())
            && layout(chars, start, prompt).last() == q + chars.subrange(k, chars.len() as int),
    decreases chars.len() - start,
{
    let remaining = chars.len() - start;
    let max = if remaining < CONSOLE_EFFECTIVE_WIDTH { chars.len() as int } else { start + CONSOLE_EFFECTIVE_WIDTH };
    lemma_first_newline_range(chars, start, max);
    lemma_last_space_range(chars, start, max);
    let l = layout(chars, start, prompt);
    let e = chars.len() as int;
    match crate::terminal::first_newline(chars, start, max) {
        Some(nl) => {
            law_layout_last_line(chars, nl + 1, prompt_tab());
            let rest = layout(chars, nl + 1, prompt_tab());
            law_layout_prompts(chars, nl + 1, prompt_tab());
            assert(l.last() == rest.last());
            let (k, q) = choose|k: int, q: Seq<char>| #![trigger chars.subrange(k, chars.len() as int), q.len()]
                nl + 1 <= k <= chars.len()
                && (q == prompt_tab() || q == prompt_tab()) && rest.last() == q + chars.subrange(k, chars.len() as int);
            assert(q.len() == prompt_tab().len());
        },
        None => if remaining <= CONSOLE_EFFECTIVE_WIDTH {
            assert(l.last() == prompt + chars.subrange(start, e));
            assert(prompt.len() == prompt.len());
        } else {
            match crate::terminal::last_space(chars, start, max) {
                Some(sp) => {
                    law_layout_last_line(chars, sp + 1, prompt_tab());
                    let rest = layout(chars, sp + 1, prompt_tab());
                    law_layout_prompts(chars, sp + 1, prompt_tab());
                    assert(l.last() == rest.last());
                    let (k, q) = choose|k: int, q: Seq<char>| #![trigger chars.subrange(k, chars.len() as int), q.len()]
                        sp + 1 <= k <= chars.len()
                        && (q == prompt_tab() || q == prompt_tab()) && rest.last() == q + chars.subrange(k, chars.len() as int);
                    assert(q.len() == prompt_tab().len());
                },
                None => {
                    assert(l.last() == prompt + chars.subrange(start, e));
                    assert(prompt.len() == prompt.len());
                },
            }
        },
    }
}

/// The total length of a list of lines.
pub open spec fn total_len(lines: Seq<Seq<char>>) -> int
    decreases lines.len(),
{
    if lines.len() == 0 { 0 } else { lines[0].len() + total_len(lines.drop_first()) }
}

/// No character of a text is lost when it is laid out on the console: the
/// lines hold, besides their prompts, every character of the text but the one
/// newline or space at each break between two lines.
pub proof fn law_layout_keeps_characters(chars: Seq<char>, start: int, prompt: Seq<char>)
    requires
        0 <= start <= chars.len(),
        prompt.len() == prompt_tab().len(),
    ensures
        total_len(layout(chars, start, prompt)) == layout(chars, start, prompt).len() * prompt_tab().len()
            + (chars.len() - start) - (layout(chars, start, prompt).len() - 1),
    decreases chars.len() - start,
{
    reveal_strlit("         > ");
    assert(prompt_tab().len() == 11);
    let remaining = chars.len() - start;
    let max = if remaining < CONSOLE_EFFECTIVE_WIDTH { chars.len() as int } else { start + CONSOLE_EFFECTIVE_WIDTH };
    lemma_first_newline_range(chars, start, max);
    lemma_last_space_range(chars, start, max);
    let l = layout(chars, start, prompt);
    let e = chars.len() as int;
    match crate::terminal::first_newline(chars, start, max) {
        Some(nl) => {
            law_layout_keeps_characters(chars, nl + 1, prompt_tab());
            let rest = layout(chars, nl + 1, prompt_tab());
            assert(l.drop_first() =~= rest);
            assert(l[0].len() == prompt.len() + (nl - start));
            assert(l.len() == rest.len() + 1);
            assert(total_len(l) == l[0].len() + total_len(rest));
        },
        None => if remaining <= CONSOLE_EFFECTIVE_WIDTH {
            assert(l.drop_first() =~= Seq::<Seq<char>>::empty());
            assert(total_len(Seq::<Seq<char>>::empty()) == 0);
            assert(total_len(l) == l[0].len());
        } else {
            match crate::terminal::last_space(chars, start, max) {
                Some(sp) => {
                    law_layout_keeps_characters(chars, sp + 1, prompt_tab());
                    let rest = layout(chars, sp + 1, prompt_tab());
                    assert(l.drop_first() =~= rest);
                    assert(l[0].len() == prompt.len() + (sp - start));
                    assert(l.len() == rest.len() + 1);
                    assert(total_len(l) == l[0].len() + total_len(rest));
                },
                None => {
                    assert(l.drop_first() =~= Seq::<Seq<char>>::empty());
                    assert(total_len(Seq::<Seq<char>>::empty()) == 0);
            assert(total_len(l) == l[0].len());
                },
            }
        },
    }
}

/// A typed line gives at most `MAX_TOKENS` words, and a line of nothing but
/// white space gives none (so the game takes it as no instruction).
pub proof fn law_tokens(line: Seq<char>)
    ensures
        tokens(line).len() <= MAX_TOKENS,
        (forall|i: int| 0 <= i < line.len() ==> white_space(#[trigger] line[i])) ==> tokens(line).len() == 0,
{
    if forall|i: int| 0 <= i < line.len() ==> white_space(#[trigger] line[i]) {
        lemma_blank_words(line, 0);
    }
}

pub proof fn lemma_blank_words(s: Seq<char>, i: int)
    requires
        0 <= i,
        forall|k: int| 0 <= k < s.len() ==> white_space(#[trigger] s[k]),
    ensures
        words_from(s, i).len() == 0,
    decreases s.len() - i,
{
    if i < s.len() {
        lemma_blank_words(s, i + 1);
    }
}

/// Input is taken only from a living player. The hazards at the end of a
/// turn (`end_turn`) leave the player alive, or dead and asked whether to live
/// again (`reincarnation_question`); either answer to that question
/// (`answer_yes_no`) leaves a living player or a game that has ended.
pub proof fn law_input_only_while_alive(p: Player, d: DataCollection, d2: DataCollection, arg: Seq<char>, yes: bool)
    ensures
        ({
            let o = hazards(p, d.world());
            let r = spec_decide(o.player, d2, reincarnation_question().pending, arg, yes);
            !o.player.alive ==> (r.player.alive || !r.player.playing)
        }),
{
}

/// A player who dies and accepts reincarnation is alive again, at the place
/// where the dead wake, with one death more.
pub proof fn law_die_then_reincarnate(p: Player, w: World, d: DataCollection, arg: Seq<char>)
    requires
        p.deaths < u32::MAX,
    ensures
        ({
            let dead = p.spec_die(w);
            let back = spec_decide(dead.player, d, Pending::Reincarnate, arg, true);
            &&& !dead.player.alive
            &&& back.player.alive
            &&& back.player.location == p.location_id_wake
            &&& back.player.deaths == p.deaths + 1
            &&& back.player.playing == p.playing
        }),
{
}

/// Each hint taken costs `PENALTY_HINT` points, as long as the score stays
/// above zero.
pub proof fn law_hint_cost(treasures: nat, achievements: nat, deaths: nat, hints: nat)
    requires
        score(treasures, achievements, deaths, hints + 1) > 0,
    ensures
        score(treasures, achievements, deaths, hints + 1) == score(treasures, achievements, deaths, hints) - constants::PENALTY_HINT,
{
}

/// Each death costs `PENALTY_DEATH` points, as long as the score stays above zero.
pub proof fn law_death_cost(treasures: nat, achievements: nat, deaths: nat, hints: nat)
    requires
        score(treasures, achievements, deaths + 1, hints) > 0,
    ensures
        score(treasures, achievements, deaths + 1, hints) == score(treasures, achievements, deaths, hints) - constants::PENALTY_DEATH,
{
}

pub proof fn lemma_put_found(w: World, l: u32, x: u32)
    requires
        w.items.len() == constants::EXPECTED_ITEMS,
        forall|i: int| #![trigger w.items[i]] 0 <= i < w.items.len() ==> w.items[i].id == id_at(i),
        valid_location_id(l),
        w.locations.len() == constants::EXPECTED_LOCATIONS,
        w.loc(l).items.len() == constants::EXPECTED_ITEMS,
        valid_item(x),
    ensures
        w.loc_insert(l, x).loc_has(l, x),
{
    let w2 = w.loc_insert(l, x);
    let j = item_index(x);
    assert(w2.loc(l).items[j]);
    assert(id_at(j) == x);
    assert(w2.items[j].id == w.items[j].id);
    assert(is_or_holds(w2.items, id_at(j), x));
}

/// An item put at a location is then found there.
pub proof fn law_put_then_found(w: World, l: u32, x: u32)
    requires
        w.wf(),
        valid_location_id(l),
        valid_item(x),
    ensures
        w.loc_insert(l, x).loc_has(l, x),
{
    lemma_put_found(w, l, x);
}

/// An item dropped where there is a floor and land is then found there,
/// unless it is a liquid (which drains away), or the lion or the puppy
/// (which set off reactions of their own).
pub proof fn law_drop_then_found(p: Player, w: World, x: u32)
    requires
        w.wf(),
        p.wf(),
        valid_item(x),
        !w.item_has(x, constants::CTRL_ITEM_LIQUID),
        p.loc(w).has(constants::CTRL_LOC_HAS_FLOOR),
        p.loc(w).has(constants::CTRL_LOC_HAS_LAND),
        x != constants::ITEM_ID_LION,
        x != constants::ITEM_ID_PUPPY,
    ensures
        p.spec_release(w, x, false).world.loc_has(p.location, x),
{
    let w1 = w.inv_remove(p.inventory, x);
    crate::data_collection::lemma_inventory_remove_shape(w.items, w.inv(p.inventory).items, x);
    assert forall|i: int| #![trigger w1.items[i]] 0 <= i < w1.items.len() implies w1.items[i].id == id_at(i) by {
        assert(w.items[i].id == id_at(i));
    }
    lemma_put_found(w1, p.location, x);
}

/// An item put in an inventory is then carried there.
pub proof fn law_stow_then_carried(w: World, k: u32, x: u32)
    requires
        w.wf(),
        valid_inventory_id(k),
        valid_item(x),
    ensures
        w.inv_insert(k, x).inv_has(k, x),
{
    let w2 = w.inv_insert(k, x);
    let j = item_index(x);
    assert(w2.inv(k).items[j]);
    assert(id_at(j) == x);
    assert(w2.items[j].id == w.items[j].id);
    assert(is_or_holds(w2.items, id_at(j), x));
}

pub proof fn lemma_event_at_found(s: Seq<(u32, StringId)>, turn: u32, from: int)
    requires
        0 <= from,
    ensures
        event_at(s, turn, from) matches Some(j) ==> from <= j < s.len() && s[j].0 == turn,
        event_at(s, turn, from) is None ==> forall|k: int| from <= k < s.len() ==> s[k].0 != turn,
    decreases s.len() - from,
{
    if from < s.len() && s[from].0 != turn {
        lemma_event_at_found(s, turn, from + 1);
    }
}

/// With the events on distinct turns (as loading gives them), the event of
/// a turn, once told and cleared (`get_and_clear_event`), is not told again,
/// and the turns left stay distinct.
pub proof fn law_event_told_once(turns: Seq<(u32, StringId)>, turn: u32)
    requires
        turns_distinct(turns),
    ensures
        event_at(turns, turn, 0) matches Some(j) ==> {
            &&& event_at(turns.remove(j), turn, 0) is None
            &&& turns_distinct(turns.remove(j))
        },
{
    lemma_event_at_found(turns, turn, 0);
    if let Some(j) = event_at(turns, turn, 0) {
        let r = turns.remove(j);
        lemma_event_at_found(r, turn, 0);
        assert forall|k: int| 0 <= k < r.len() implies r[k].0 != turn by {
            if k < j {
                assert(r[k] == turns[k]);
            } else {
                assert(r[k] == turns[k + 1]);
            }
        }
        assert forall|a: int, b: int| 0 <= a < b < r.len() implies (#[trigger] r[a]).0 != (#[trigger] r[b]).0 by {
            let a0 = if a < j { a } else { a + 1 };
            let b0 = if b < j { b } else { b + 1 };
            assert(r[a] == turns[a0]);
            assert(r[b] == turns[b0]);
        }
    }
}

/// In well-formed data the event of a turn, once told and cleared
/// (`get_and_clear_event`), is not told again on that turn.
pub proof fn law_event_not_told_twice(d: DataCollection, turn: u32)
    requires
        d.wf(),
    ensures
        event_at(d.event_turns@, turn, 0) matches Some(j) ==> event_at(d.event_turns@.remove(j), turn, 0) is None,
{
    law_event_told_once(d.event_turns@, turn);
}

/// Lighting a switchable item that is off, then quenching it, leaves it off
/// again (the record player is left out: it plays, and switches itself off).
pub proof fn law_light_then_quench(p: Player, w: World, x: u32)
    requires
        w.wf(),
        valid_item(x),
        w.item_has(x, constants::CTRL_ITEM_SWITCHABLE),
        !w.item(x).on,
        x != constants::ITEM_ID_PLAYER,
    ensures
        ({
            let lit = p.spec_switch_item(w, x, true);
            let quenched = lit.player.spec_switch_item(lit.world, x, false);
            &&& lit.world.item(x).on
            &&& !quenched.world.item(x).on
            &&& quenched.player == p
        }),
{
    let lit = p.spec_switch_item(w, x, true);
    assert(lit.world.item(x).on);
    assert(lit.world.item(x).properties == w.item(x).properties);
}


/// The first newline of `chars[from..to]` has no other newline before it there.
proof fn lemma_newline_is_first(chars: Seq<char>, from: int, to: int)
    ensures
        crate::terminal::first_newline(chars, from, to) matches Some(n) ==>
            forall|i: int| from <= i < n ==> chars[i] != '\n',
    decreases to - from,
{
    if from < to && chars[from] != '\n' {
        lemma_newline_is_first(chars, from + 1, to);
    }
}

/// The length of the prompt in front of line `j` of a text laid out behind `prompt`.
pub open spec fn prompt_len_of(prompt: Seq<char>, j: int) -> int {
    if j == 0 { prompt.len() as int } else { prompt_tab().len() as int }
}

/// Every newline of a text laid out on the console ends its line: no line
/// holds a newline after its prompt, but that the last line, when what is
/// left of the text has no newline or space within the console's room and is
/// shown whole, may hold one beyond that room.
pub proof fn law_layout_breaks_at_newlines(chars: Seq<char>, start: int, prompt: Seq<char>)
    requires
        0 <= start <= chars.len(),
    ensures
        forall|j: int, i: int| 0 <= j < layout(chars, start, prompt).len()
            && prompt_len_of(prompt, j) <= i < layout(chars, start, prompt)[j].len()
            && #[trigger] layout(chars, start, prompt)[j][i] == '\n'
            ==> j == layout(chars, start, prompt).len() - 1 && i - prompt_len_of(prompt, j) >= CONSOLE_EFFECTIVE_WIDTH,
    decreases chars.len() - start,
{
    let remaining = chars.len() - start;
    let max = if remaining < CONSOLE_EFFECTIVE_WIDTH { chars.len() as int } else { start + CONSOLE_EFFECTIVE_WIDTH };
    lemma_first_newline_range(chars, start, max);
    lemma_last_space_range(chars, start, max);
    lemma_newline_is_first(chars, start, max);
    let l = layout(chars, start, prompt);
    match crate::terminal::first_newline(chars, start, max) {
        Some(nl) => {
            law_layout_breaks_at_newlines(chars, nl + 1, prompt_tab());
            let rest = layout(chars, nl + 1, prompt_tab());
            let first = prompt + chars.subrange(start, nl);
            assert(l == seq![first] + rest);
            assert forall|j: int, i: int| 0 <= j < l.len() && prompt_len_of(prompt, j) <= i < l[j].len()
                && #[trigger] l[j][i] == '\n' implies j == l.len() - 1 && i - prompt_len_of(prompt, j) >= CONSOLE_EFFECTIVE_WIDTH by {
                if j == 0 {
                    assert(l[0] == first);
                    assert(first[i] == chars[start + i - prompt.len()]);
                } else {
                    assert(l[j] == rest[j - 1]);
                    assert(prompt_len_of(prompt_tab(), j - 1) == prompt_tab().len());
                    assert(rest[j - 1][i] == '\n');
                }
            }
        },
        None => if remaining <= CONSOLE_EFFECTIVE_WIDTH {
            let first = prompt + chars.subrange(start, chars.len() as int);
            assert(l == seq![first]);
            assert forall|j: int, i: int| 0 <= j < l.len() && prompt_len_of(prompt, j) <= i < l[j].len()
                && #[trigger] l[j][i] == '\n' implies j == l.len() - 1 && i - prompt_len_of(prompt, j) >= CONSOLE_EFFECTIVE_WIDTH by {
                assert(first[i] == chars[start + i - prompt.len()]);
            }
        } else {
            match crate::terminal::last_space(chars, start, max) {
                Some(sp) => {
                    law_layout_breaks_at_newlines(chars, sp + 1, prompt_tab());
                    let rest = layout(chars, sp + 1, prompt_tab());
                    let first = prompt + chars.subrange(start, sp);
                    assert(l == seq![first] + rest);
                    assert forall|j: int, i: int| 0 <= j < l.len() && prompt_len_of(prompt, j) <= i < l[j].len()
                        && #[trigger] l[j][i] == '\n' implies j == l.len() - 1 && i - prompt_len_of(prompt, j) >= CONSOLE_EFFECTIVE_WIDTH by {
                        if j == 0 {
                            assert(l[0] == first);
                            assert(first[i] == chars[start + i - prompt.len()]);
                        } else {
                            assert(l[j] == rest[j - 1]);
                            assert(prompt_len_of(prompt_tab(), j - 1) == prompt_tab().len());
                            assert(rest[j - 1][i] == '\n');
                        }
                    }
                },
                None => {
                    let first = prompt + chars.subrange(start, chars.len() as int);
                    assert(l == seq![first]);
                    assert forall|j: int, i: int| 0 <= j < l.len() && prompt_len_of(prompt, j) <= i < l[j].len()
                        && #[trigger] l[j][i] == '\n' implies j == l.len() - 1 && i - prompt_len_of(prompt, j) >= CONSOLE_EFFECTIVE_WIDTH by {
                        assert(first[i] == chars[start + i - prompt.len()]);
                    }
                },
            }
        },
    }
}

/// Each puzzle solved is worth `SCORE_PUZZLE` points, and each treasure
/// stowed `SCORE_TREASURE`, on a score above zero; with nothing lost, the
/// score is exactly what was won.
pub proof fn law_score_gains(treasures: nat, achievements: nat, deaths: nat, hints: nat)
    ensures
        score(treasures, achievements, deaths, hints) > 0 ==>
            score(treasures, achievements + 1, deaths, hints) == score(treasures, achievements, deaths, hints) + constants::SCORE_PUZZLE,
        score(treasures, achievements, deaths, hints) > 0 ==>
            score(treasures + 1, achievements, deaths, hints) == score(treasures, achievements, deaths, hints) + constants::SCORE_TREASURE,
        score(treasures, achievements, 0, 0) == treasures * constants::SCORE_TREASURE + achievements * constants::SCORE_PUZZLE,
        score(0, 1, 0, 0) == 20,
{
}


/// Where the flags `s` hold an obstruction, one is found, and what is found
/// is an obstruction that the flags hold.
proof fn lemma_obstruction_found(items: Seq<Item>, s: Seq<bool>, from: int, j: int)
    requires
        0 <= from <= j < s.len(),
        j < items.len(),
        items.len() + constants::ITEM_INDEX_START <= u32::MAX,
        s[j],
        has_bits(items[j].properties, constants::CTRL_ITEM_OBSTRUCTION),
    ensures
        first_obstruction(items, s, from) matches Some(x) && valid_item_id(items, x) && item_index(x) < s.len() && s[item_index(x)]
            && has_bits(items[item_index(x)].properties, constants::CTRL_ITEM_OBSTRUCTION),
    decreases j - from,
{
    if !(s[from] && valid_item_id(items, id_at(from)) && has_bits(items[from].properties, constants::CTRL_ITEM_OBSTRUCTION)) {
        if from == j {
            assert(valid_item_id(items, id_at(from)));
        } else {
            lemma_obstruction_found(items, s, from + 1, j);
        }
    } else {
        assert(item_index(id_at(from)) == from);
    }
}

/// Whether the location of player `p` holds, at the top, the obstruction `x`.
pub open spec fn obstructs_here(p: Player, w: World, x: ItemId) -> bool {
    &&& valid_item_id(w.items, x)
    &&& item_index(x) < p.loc(w).items.len()
    &&& p.loc(w).items[item_index(x)]
    &&& has_bits(w.items[item_index(x)].properties, constants::CTRL_ITEM_OBSTRUCTION)
}

/// An obstruction bars every way on but the one the player came by: going
/// anywhere else from a place that holds an obstruction, the player stays
/// (or dies where they stand), told which obstruction is in the way, unless
/// it is the buccaneer and the player is invisible.
pub proof fn law_obstruction_bars_the_way(p: Player, d: DataCollection, dir: Direction, death_rand: u32, j: int)
    requires
        dir != Direction::Back,
        p.loc(d.world()).directions[dir_index(dir)] is Some,
        p.previous != p.loc(d.world()).directions[dir_index(dir)],
        0 <= j < p.loc(d.world()).items.len(),
        j < d.world().items.len(),
        d.world().items.len() + constants::ITEM_INDEX_START <= u32::MAX,
        p.loc(d.world()).items[j],
        has_bits(d.world().items[j].properties, constants::CTRL_ITEM_OBSTRUCTION),
        p.deaths < u32::MAX,
    ensures
        ({
            let w = d.world();
            let mv = p.spec_try_move(w, dir, death_rand);
            &&& mv.next is Some ==> p.spec_has_invisibility(w) && obstructs_here(p, w, constants::ITEM_ID_BUCCANEER)
            &&& mv.next is None ==> (mv.obstruction matches Some(x) && obstructs_here(p, w, x))
            &&& p.spec_go(d, dir, death_rand).player.location == p.location
                || p.spec_go(d, dir, death_rand).player.deaths == p.deaths + 1
                || (p.spec_has_invisibility(w) && obstructs_here(p, w, constants::ITEM_ID_BUCCANEER))
        }),
{
    let w = d.world();
    lemma_obstruction_found(w.items, p.loc(w).items, 0, j);
    let ob = first_obstruction(w.items, p.loc(w).items, 0).unwrap();
    let next = p.loc(w).directions[dir_index(dir)].unwrap();
    let mv = p.spec_try_move(w, dir, death_rand);
    assert(mv == p.spec_move_obstruction(w, ob, next));
    assert(mv.next is Some ==> ob == constants::ITEM_ID_BUCCANEER);
    assert(mv.next is Some ==> p.spec_has_invisibility(w) && obstructs_here(p, w, constants::ITEM_ID_BUCCANEER));
    assert(mv.next is None ==> (mv.obstruction matches Some(x) && obstructs_here(p, w, x)));
}


/// Two lists of items that agree on what each item holds agree on every
/// chain of held items.
proof fn lemma_chain_same(items: Seq<Item>, items2: Seq<Item>, cur: Option<ItemId>, target: ItemId, fuel: nat)
    requires
        items2.len() == items.len(),
        forall|k: int| 0 <= k < items.len() ==> (#[trigger] items2[k]).within == items[k].within,
    ensures
        chain_contains(items2, cur, target, fuel) == chain_contains(items, cur, target, fuel),
    decreases fuel,
{
    if fuel > 0 {
        if let Some(c) = cur {
            if valid_item_id(items, c) {
                assert(items2[item_index(c)].within == items[item_index(c)].within);
            }
            lemma_chain_same(items, items2, within_of(items, c), target, (fuel - 1) as nat);
        }
    }
}

/// Taking an item that lies at the player's place, and is no liquid, takes
/// it away from there: once it is carried, the place no longer has it.
pub proof fn law_take_leaves_the_place(p: Player, w: World, x: ItemId)
    requires
        valid_item_id(w.items, x),
        w.items.len() + constants::ITEM_INDEX_START <= u32::MAX,
        0 <= p.location < w.locations.len(),
        0 <= crate::data_collection::inv_index(p.inventory) < w.inventories.len(),
        p.loc(w).items.len() == w.items.len(),
        w.inv(p.inventory).items.len() == w.items.len(),
        p.loc(w).items[item_index(x)],
        w.items[item_index(x)].id == x,
        !has_bits(w.items[item_index(x)].properties, constants::CTRL_ITEM_LIQUID),
        forall|k: int| 0 <= k < w.items.len() && k != item_index(x) ==> (#[trigger] w.items[k]).id != x,
        forall|k: int| 0 <= k < w.items.len() && #[trigger] p.loc(w).items[k] ==> !holds(w.items, id_at(k), x),
    ensures
        ({
            let o = p.spec_take(w, x).0;
            o.world.inv_has(p.inventory, x) && !w.inv_has(p.inventory, x) ==> !o.world.loc_has(p.location, x)
        }),
        !w.inv_has(p.inventory, x) && w.item_has(x, constants::CTRL_ITEM_MOBILE)
            && !w.item_has(x, constants::CTRL_ITEM_OBSTRUCTION) && p.inv_can_fit(w, x) ==> {
            let o = p.spec_take(w, x).0;
            &&& o.world.inv_has(p.inventory, x)
            &&& !o.world.loc_has(p.location, x)
        },
{
    let o = p.spec_take(w, x).0;
    let s = p.loc(w).items;
    let items1 = retire_in(w.items, x);
    assert forall|k: int| 0 <= k < w.items.len() implies (#[trigger] items1[k]).within == w.items[k].within by {}
    crate::item_list::lemma_first_holder_holds(items1, s, x, 0);
    if first_holder(items1, s, x, 0) is Some {
        let j = first_holder(items1, s, x, 0).unwrap();
        lemma_chain_same(w.items, items1, items1[item_index(id_at(j))].within, x, items1.len());
        assert(item_index(id_at(j)) == j);
        assert(false);
    }
    if !w.inv_has(p.inventory, x) && w.item_has(x, constants::CTRL_ITEM_MOBILE)
        && !w.item_has(x, constants::CTRL_ITEM_OBSTRUCTION) && p.inv_can_fit(w, x) {
        let w1 = w.loc_remove(p.location, x).inv_insert(p.inventory, x);
        assert(o.world == w1);
        assert(w1.inv(p.inventory).items[item_index(x)]);
        assert(item_index(id_at(item_index(x))) == item_index(x));
        assert(is_or_holds(w1.items, id_at(item_index(x)), x));
    }
    if o.world.inv_has(p.inventory, x) && !w.inv_has(p.inventory, x) {
        let w1 = w.loc_remove(p.location, x).inv_insert(p.inventory, x);
        assert(o.world == w1);
        let items2 = w1.items;
        let s2 = w1.loc(p.location).items;
        assert(s2 == set_flag(s, x, false));
        assert forall|k: int| 0 <= k < w.items.len() implies (#[trigger] items2[k]).within == w.items[k].within by {}
        assert forall|j: int| 0 <= j < s2.len() && s2[j] implies !#[trigger] is_or_holds(items2, id_at(j), x) by {
            assert(j != item_index(x));
            assert(item_index(id_at(j)) == j);
            assert(items2[j].id == w.items[j].id);
            lemma_chain_same(w.items, items2, w.items[j].within, x, w.items.len());
            assert(!holds(w.items, id_at(j), x));
        }
    }
}


/// Dropping the first `n` flagged items of `s` sets the flag of each of them
/// whose essentialness is asked for, and keeps every flag already set.
proof fn lemma_dropped_flags_set(items: Seq<Item>, s: Seq<bool>, f: Seq<bool>, essential: Option<bool>, n: int, k: int)
    requires
        0 <= k < n <= s.len(),
        k < items.len(),
        k < f.len(),
        s[k],
        essential matches Some(e) ==> has_bits(items[k].properties, constants::CTRL_ITEM_ESSENTIAL) == e,
    ensures
        crate::inventory::dropped_flags(items, s, f, essential, n)[k],
    decreases n,
{
    crate::inventory::lemma_dropped_flags_len(items, s, f, essential, n - 1);
    if k < n - 1 {
        lemma_dropped_flags_set(items, s, f, essential, n - 1, k);
    }
}

/// Dropping the first `n` flagged items of `s` keeps the items' number and
/// ids, and puts each of them at `safe` if it is essential, else at `current`.
proof fn lemma_dropped_items_placed(items: Seq<Item>, s: Seq<bool>, current: LocationId, safe: LocationId, n: int)
    requires
        0 <= n <= s.len(),
        items.len() + constants::ITEM_INDEX_START <= u32::MAX,
    ensures
        crate::inventory::dropped_items(items, s, current, safe, n).len() == items.len(),
        forall|k: int| 0 <= k < items.len() ==> (#[trigger] crate::inventory::dropped_items(items, s, current, safe, n)[k]).id == items[k].id,
        forall|k: int| 0 <= k < n && k < items.len() && s[k] ==>
            (#[trigger] crate::inventory::dropped_items(items, s, current, safe, n)[k]).location
                == if has_bits(items[k].properties, constants::CTRL_ITEM_ESSENTIAL) { safe } else { current },
    decreases n,
{
    if n > 0 {
        lemma_dropped_items_placed(items, s, current, safe, n - 1);
        if n - 1 < items.len() {
            assert(item_index(id_at(n - 1)) == n - 1);
        }
    }
}

/// On death, whatever the player carried is left behind: each essential
/// item at the safe place, every other item where the player died; and the
/// inventory is emptied of it.
pub proof fn law_death_leaves_items_behind(p: Player, w: World, j: int)
    requires
        0 <= p.location < w.locations.len(),
        0 <= p.location_id_safe < w.locations.len(),
        0 <= crate::data_collection::inv_index(p.inventory) < w.inventories.len(),
        0 <= j < w.items.len(),
        w.items.len() + constants::ITEM_INDEX_START <= u32::MAX,
        w.inv(p.inventory).items.len() == w.items.len(),
        w.loc(p.location).items.len() == w.items.len(),
        w.loc(p.location_id_safe).items.len() == w.items.len(),
        w.inv(p.inventory).items[j],
    ensures
        ({
            let o = p.spec_die(w);
            let dest = if has_bits(w.items[j].properties, constants::CTRL_ITEM_ESSENTIAL) { p.location_id_safe } else { p.location };
            &&& o.world.loc(dest).items[j]
            &&& o.world.items[j].location == dest
            &&& !o.world.inv(p.inventory).items[j]
            &&& w.items[j].id == id_at(j) ==> o.world.loc_has(dest, id_at(j))
        }),
{
    let o = p.spec_die(w);
    let s = w.inv(p.inventory).items;
    let n = s.len() as int;
    let essential = has_bits(w.items[j].properties, constants::CTRL_ITEM_ESSENTIAL);
    let dest = if essential { p.location_id_safe } else { p.location };
    lemma_dropped_items_placed(w.items, s, p.location, p.location_id_safe, n);
    if p.location == p.location_id_safe {
        lemma_dropped_flags_set(w.items, s, w.loc(p.location).items, None, n, j);
    } else {
        crate::inventory::lemma_dropped_flags_len(w.items, s, w.loc(p.location_id_safe).items, Some(true), n);
        crate::inventory::lemma_dropped_flags_len(w.items, s, w.loc(p.location).items, Some(false), n);
        if essential {
            lemma_dropped_flags_set(w.items, s, w.loc(p.location_id_safe).items, Some(true), n, j);
        } else {
            lemma_dropped_flags_set(w.items, s, w.loc(p.location).items, Some(false), n, j);
        }
    }
    assert(o.world.loc(dest).items[j]);
    assert(o.world.items[j].location == dest);
    assert(!o.world.inv(p.inventory).items[j]);
    if p.location == p.location_id_safe {
        crate::inventory::lemma_dropped_flags_len(w.items, s, w.loc(p.location).items, None, n);
    }
    assert(o.world.loc(dest).items.len() == w.items.len());
    if w.items[j].id == id_at(j) {
        assert(item_index(id_at(j)) == j);
        assert(is_or_holds(o.world.items, id_at(j), id_at(j)));
    }
}

} // verus!
