//! All commands, by name and alias, and the directions of the movement commands.
use vstd::prelude::*;

use crate::command::Command;
use crate::constants;
use crate::data_collection::{CommandId, str_to_u32};
use crate::file_buffer::{FileBuffer, LoadError, first_error, lemma_first_error_step, section_end, section_lines, split_tabs, tab_fields};
use crate::text::parse_u32;
use crate::location::Direction;
use crate::text::{lemma_text_le_total, lemma_text_le_trans, lemma_text_leq_total_ordering, text_le, text_le_exec, text_leq};
use vstd::relations::sorted_by;

verus! {

/// The command designated by `key` in the last of `commands` that names it.
pub open spec fn command_lookup(commands: Seq<(String, Command)>, key: Seq<char>) -> Option<Command>
    decreases commands.len(),
{
    if commands.len() == 0 {
        None
    } else if commands.last().0@ == key {
        Some(commands.last().1)
    } else {
        command_lookup(commands.drop_last(), key)
    }
}

/// The direction of `key` in the last entry of `map` that names it.
pub open spec fn direction_lookup(map: Seq<(String, Direction)>, key: Seq<char>) -> Option<Direction>
    decreases map.len(),
{
    if map.len() == 0 {
        None
    } else if map.last().0@ == key {
        Some(map.last().1)
    } else {
        direction_lookup(map.drop_last(), key)
    }
}

/// The direction a movement command's tag stands for.
pub open spec fn tag_direction(tag: CommandId) -> Option<Direction> {
    if tag == constants::COMMAND_ID_NORTH {
        Some(Direction::North)
    } else if tag == constants::COMMAND_ID_SOUTH {
        Some(Direction::South)
    } else if tag == constants::COMMAND_ID_EAST {
        Some(Direction::East)
    } else if tag == constants::COMMAND_ID_WEST {
        Some(Direction::West)
    } else if tag == constants::COMMAND_ID_NORTHEAST {
        Some(Direction::Northeast)
    } else if tag == constants::COMMAND_ID_SOUTHWEST {
        Some(Direction::Southwest)
    } else if tag == constants::COMMAND_ID_SOUTHEAST {
        Some(Direction::Southeast)
    } else if tag == constants::COMMAND_ID_NORTHWEST {
        Some(Direction::Northwest)
    } else if tag == constants::COMMAND_ID_UP {
        Some(Direction::Up)
    } else if tag == constants::COMMAND_ID_DOWN {
        Some(Direction::Down)
    } else if tag == constants::COMMAND_ID_OUT {
        Some(Direction::Out)
    } else if tag == constants::COMMAND_ID_BACK {
        Some(Direction::Back)
    } else {
        None
    }
}

/// Whether the game has an action for commands tagged `tag`: every tag
/// below `EXPECTED_COMMANDS` but those of jumping and waving.
pub open spec fn has_action(tag: CommandId) -> bool {
    tag < constants::EXPECTED_COMMANDS && tag != constants::COMMAND_ID_JUMP && tag != constants::COMMAND_ID_WAVE
}

/// How a command name is shown in the list of commands.
pub open spec fn entry_text(key: Seq<char>) -> Seq<char> {
    "["@ + key + "] "@
}

/// Whether entry `i` of `commands` is in force: no later entry names the same.
pub open spec fn is_effective(commands: Seq<(String, Command)>, i: int) -> bool {
    forall|j: int| i < j < commands.len() ==> #[trigger] commands[j].0@ != commands[i].0@
}

/// The shown names of the commands in force, and not secret, among the first `n` entries.
pub open spec fn listed_texts(commands: Seq<(String, Command)>, n: int) -> Seq<Seq<char>>
    decreases n,
{
    if n <= 0 {
        Seq::empty()
    } else {
        listed_texts(commands, n - 1) + (if is_effective(commands, n - 1) && !commands[n - 1].1.has(constants::CTRL_COMMAND_SECRET) {
            seq![entry_text(commands[n - 1].0@)]
        } else {
            Seq::empty()
        })
    }
}

/// The texts of a list of strings.
pub open spec fn views(v: Seq<String>) -> Seq<Seq<char>> {
    v.map_values(|s: String| s@)
}

/// A command as plain values: its name, properties and tag.
pub open spec fn command_view(c: Command) -> (Seq<char>, u32, u32) {
    (c.name@, c.properties, c.tag)
}

pub open spec fn cmd_views(s: Seq<(String, Command)>) -> Seq<(Seq<char>, (Seq<char>, u32, u32))> {
    s.map_values(|e: (String, Command)| (e.0@, command_view(e.1)))
}

pub open spec fn dir_views(s: Seq<(String, Direction)>) -> Seq<(Seq<char>, Direction)> {
    s.map_values(|e: (String, Direction)| (e.0@, e.1))
}

/// The tag of a command line.
pub open spec fn line_tag(f: Seq<Seq<char>>) -> u32 {
    parse_u32(f[0], 10).unwrap()
}

/// The properties of a command line.
pub open spec fn line_properties(f: Seq<Seq<char>>) -> u32 {
    parse_u32(f[1], 16).unwrap()
}

pub open spec fn movement_flag(properties: u32) -> bool {
    properties & constants::CTRL_COMMAND_MOVEMENT != 0
}

pub open spec fn command_line_error_fields(f: Seq<Seq<char>>) -> Option<LoadError> {
    if f.len() < 3 {
        Some(LoadError::MissingField)
    } else if parse_u32(f[1], 16) is Err || parse_u32(f[0], 10) is Err {
        Some(LoadError::BadNumber)
    } else if has_action(line_tag(f)) && movement_flag(line_properties(f)) && tag_direction(line_tag(f)) is None {
        Some(LoadError::BadSection)
    } else {
        None
    }
}

pub open spec fn line_entries_fields(f: Seq<Seq<char>>) -> Seq<(Seq<char>, (Seq<char>, u32, u32))> {
    let c = (f[2], line_properties(f), line_tag(f));
    if has_action(line_tag(f)) {
        seq![(f[2], c)] + alias_entries(f, 3, c)
    } else {
        Seq::empty()
    }
}

pub open spec fn line_directions_fields(f: Seq<Seq<char>>) -> Seq<(Seq<char>, Direction)> {
    if has_action(line_tag(f)) && movement_flag(line_properties(f)) {
        seq![(f[2], tag_direction(line_tag(f)).unwrap())]
    } else {
        Seq::empty()
    }
}

/// What is wrong with a line of the command section, if anything: it
/// needs a tag, properties and a name, the first two numbers; and a command
/// with an action is a movement exactly if its tag is a direction.
pub open spec fn command_line_error(line: Seq<char>) -> Option<LoadError> {
    command_line_error_fields(tab_fields(line))
}

/// The entries the aliases of fields `f` from position `k` on add for command `c`: one for each alias that is not empty.
pub open spec fn alias_entries(f: Seq<Seq<char>>, k: int, c: (Seq<char>, u32, u32)) -> Seq<(Seq<char>, (Seq<char>, u32, u32))>
    decreases f.len() - k,
{
    if k < 0 || k >= f.len() {
        Seq::empty()
    } else {
        (if f[k].len() != 0 { seq![(f[k], c)] } else { Seq::empty() }) + alias_entries(f, k + 1, c)
    }
}

/// The entries a command line adds: its name and its aliases, if the command has an action.
pub open spec fn line_entries(line: Seq<char>) -> Seq<(Seq<char>, (Seq<char>, u32, u32))> {
    line_entries_fields(tab_fields(line))
}

/// The direction a command line adds, if it is a movement with an action.
pub open spec fn line_directions(line: Seq<char>) -> Seq<(Seq<char>, Direction)> {
    line_directions_fields(tab_fields(line))
}

pub open spec fn section_entries(lines: Seq<Seq<char>>) -> Seq<(Seq<char>, (Seq<char>, u32, u32))>
    decreases lines.len(),
{
    if lines.len() == 0 { Seq::empty() } else { section_entries(lines.drop_last()) + line_entries(lines.last()) }
}

pub open spec fn section_directions(lines: Seq<Seq<char>>) -> Seq<(Seq<char>, Direction)>
    decreases lines.len(),
{
    if lines.len() == 0 { Seq::empty() } else { section_directions(lines.drop_last()) + line_directions(lines.last()) }
}

/// Whether tag `k` is that of one of `lines`.
pub open spec fn section_has_tag(lines: Seq<Seq<char>>, k: u32) -> bool {
    exists|j: int| 0 <= j < lines.len() && line_tag(tab_fields(#[trigger] lines[j])) == k
}

pub proof fn lemma_direction_lookup_extend(map: Seq<(String, Direction)>, more: Seq<(String, Direction)>, key: Seq<char>)
    requires
        direction_lookup(map, key) is Some,
    ensures
        direction_lookup(map + more, key) is Some,
    decreases more.len(),
{
    if more.len() > 0 {
        assert((map + more).drop_last() =~= map + more.drop_last());
        lemma_direction_lookup_extend(map, more.drop_last(), key);
    } else {
        assert(map + more =~= map);
    }
}

/// Whether `x` is in `v`.
pub fn vec_contains(v: &Vec<u32>, x: u32) -> (res: bool)
    ensures
        res == v@.contains(x),
{
    let mut i: usize = 0;
    while i < v.len()
        invariant
            i <= v@.len(),
            forall|k: int| 0 <= k < i ==> v@[k] != x,
        decreases v.len() - i,
    {
        if v[i] == x {
            return true;
        }
        i = i + 1;
    }
    false
}

/// Puts `e` into the sorted list `v`, keeping it sorted.
fn insert_sorted(v: &mut Vec<String>, e: String)
    requires
        sorted_by(views(old(v)@), text_leq()),
    ensures
        sorted_by(views(final(v)@), text_leq()),
        views(final(v)@).to_multiset() == views(old(v)@).to_multiset().insert(e@),
{
    broadcast use vstd::seq_lib::to_multiset_insert;
    let mut i: usize = 0;
    while i < v.len() && text_le_exec(v[i].as_str(), e.as_str())
        invariant
            v@ == old(v)@,
            i <= v@.len(),
            forall|a: int| 0 <= a < i ==> text_le(#[trigger] v@[a]@, e@),
        decreases v.len() - i,
    {
        i = i + 1;
    }
    let ghost old_views = views(v@);
    let ghost ev = e@;
    v.insert(i, e);
    proof {
        assert(views(v@) =~= old_views.insert(i as int, ev));
        let nv = views(v@);
        if i < old_views.len() {
            lemma_text_le_total(old_views[i as int], ev);
        }
        assert forall|a: int, b: int| 0 <= a < b < nv.len() implies #[trigger] text_leq()(nv[a], nv[b]) by {
            if b < i {
                assert(text_leq()(old_views[a], old_views[b]));
            } else if b == i {
                assert(text_le(old(v)@[a]@, ev));
            } else if a == i {
                if b - 1 > i {
                    assert(text_leq()(old_views[i as int], old_views[b - 1]));
                    lemma_text_le_trans(ev, old_views[i as int], old_views[b - 1]);
                }
            } else if a < i {
                assert(text_leq()(old_views[a], old_views[b - 1]));
            } else {
                assert(text_leq()(old_views[a - 1], old_views[b - 1]));
            }
        }
    }
}

/// What reading a section of command lines gives: the first line that does
/// not read, else whether the tags are exactly `0..expected_count`.
pub open spec fn command_section_result(lines: Seq<Seq<char>>, expected_count: u32) -> Result<(), LoadError> {
    match first_error(lines, |l: Seq<char>| command_line_error(l)) {
        Some(e) => Err(e),
        None => if forall|k: u32| section_has_tag(lines, k) <==> k < expected_count {
            Ok(())
        } else {
            Err(LoadError::BadSection)
        },
    }
}

pub struct CommandCollection {
    /// Names and aliases, and the commands they designate; a later entry overrides an earlier one.
    pub commands: Vec<(String, Command)>,
    /// Primary names of movement commands, and their directions; a later entry overrides an earlier one.
    pub direction_map: Vec<(String, Direction)>,
}

impl CommandCollection {
    pub open spec fn spec_get(&self, key: Seq<char>) -> Option<Command> {
        command_lookup(self.commands@, key)
    }

    pub open spec fn spec_direction(&self, key: Seq<char>) -> Option<Direction> {
        direction_lookup(self.direction_map@, key)
    }

    /// Whether the collection can carry out command `c`: its action exists;
    /// a movement has the tag of a direction, and the direction of its name
    /// is known.
    pub open spec fn knows(&self, c: Command) -> bool {
        &&& has_action(c.tag)
        &&& (c.has(constants::CTRL_COMMAND_MOVEMENT) ==> tag_direction(c.tag) is Some)
        &&& (c.has(constants::CTRL_COMMAND_MOVEMENT) ==> self.spec_direction(c.name@) is Some)
    }

    /// Every command filed can be carried out.
    pub open spec fn wf(&self) -> bool {
        forall|i: int| 0 <= i < self.commands@.len() ==> self.knows(#[trigger] self.commands@[i].1)
    }

    pub fn new() -> (res: CommandCollection)
        ensures
            res.commands@.len() == 0,
            res.direction_map@.len() == 0,
            res.wf(),
    {
        CommandCollection { commands: Vec::new(), direction_map: Vec::new() }
    }

    /// The direction for a movement command's tag.
    pub(crate) fn get_tag_dir(tag: CommandId) -> (res: Option<Direction>)
        ensures
            res == tag_direction(tag),
    {
        if tag == constants::COMMAND_ID_NORTH {
            Some(Direction::North)
        } else if tag == constants::COMMAND_ID_SOUTH {
            Some(Direction::South)
        } else if tag == constants::COMMAND_ID_EAST {
            Some(Direction::East)
        } else if tag == constants::COMMAND_ID_WEST {
            Some(Direction::West)
        } else if tag == constants::COMMAND_ID_NORTHEAST {
            Some(Direction::Northeast)
        } else if tag == constants::COMMAND_ID_SOUTHWEST {
            Some(Direction::Southwest)
        } else if tag == constants::COMMAND_ID_SOUTHEAST {
            Some(Direction::Southeast)
        } else if tag == constants::COMMAND_ID_NORTHWEST {
            Some(Direction::Northwest)
        } else if tag == constants::COMMAND_ID_UP {
            Some(Direction::Up)
        } else if tag == constants::COMMAND_ID_DOWN {
            Some(Direction::Down)
        } else if tag == constants::COMMAND_ID_OUT {
            Some(Direction::Out)
        } else if tag == constants::COMMAND_ID_BACK {
            Some(Direction::Back)
        } else {
            None
        }
    }

    /// Whether there is an action for tag `tag`.
    fn has_action_for(tag: CommandId) -> (res: bool)
        ensures
            res == has_action(tag),
    {
        tag < constants::EXPECTED_COMMANDS && tag != constants::COMMAND_ID_JUMP && tag != constants::COMMAND_ID_WAVE
    }

    /// The list of the commands that are not secret, by name, sorted.
    pub open spec fn non_secret_listing(&self) -> Seq<char> {
        listed_texts(self.commands@, self.commands@.len() as int).sort_by(text_leq()).flatten_alt()
    }

    /// Whether entry `i` is in force.
    fn is_effective_at(&self, i: usize) -> (res: bool)
        requires
            i < self.commands@.len(),
        ensures
            res == is_effective(self.commands@, i as int),
    {
        let n = self.commands.len();
        let mut j = i + 1;
        while j < n
            invariant
                i < j <= self.commands@.len(),
                n == self.commands@.len(),
                forall|k: int| i < k < j ==> #[trigger] self.commands@[k].0@ != self.commands@[i as int].0@,
            decreases self.commands.len() - j,
        {
            if self.commands[j].0 == self.commands[i].0 {
                return false;
            }
            j = j + 1;
        }
        true
    }

    /// `intro`, then on a new line the commands that are not secret, by name, sorted.
    pub fn mk_non_secret_string(&self, intro: &str) -> (res: String)
        ensures
            res@ == intro@ + "\n"@ + self.non_secret_listing(),
    {
        let mut comms: Vec<String> = Vec::new();
        let n = self.commands.len();
        let mut i: usize = 0;
        proof {
            assert(views(comms@) =~= Seq::<Seq<char>>::empty());
            assert(listed_texts(self.commands@, 0) =~= Seq::<Seq<char>>::empty());
        }
        while i < n
            invariant
                n == self.commands@.len(),
                i <= n,
                sorted_by(views(comms@), text_leq()),
                views(comms@).to_multiset() == listed_texts(self.commands@, i as int).to_multiset(),
            decreases n - i,
        {
            let ghost before = listed_texts(self.commands@, i as int);
            if !self.commands[i].1.has_property(constants::CTRL_COMMAND_SECRET) && self.is_effective_at(i) {
                let mut entry = "[".to_owned();
                entry.append(self.commands[i].0.as_str());
                entry.append("] ");
                proof {
                    assert(entry@ =~= entry_text(self.commands@[i as int].0@));
                    assert(listed_texts(self.commands@, i + 1) =~= before.push(entry@));
                }
                let ghost ev = entry@;
                insert_sorted(&mut comms, entry);
                proof {
                    vstd::seq_lib::to_multiset_build(before, ev);
                }
            } else {
                assert(listed_texts(self.commands@, i + 1) =~= before);
            }
            i = i + 1;
        }
        proof {
            let listed = listed_texts(self.commands@, n as int);
            lemma_text_leq_total_ordering();
            listed.lemma_sort_by_ensures(text_leq());
            vstd::seq_lib::lemma_sorted_unique(views(comms@), listed.sort_by(text_leq()), text_leq());
        }
        let mut result = intro.to_owned();
        result.append("\n");
        let mut k: usize = 0;
        while k < comms.len()
            invariant
                k <= comms@.len(),
                result@ == intro@ + "\n"@ + views(comms@).take(k as int).flatten_alt(),
            decreases comms.len() - k,
        {
            assert(views(comms@).take(k + 1).drop_last() =~= views(comms@).take(k as int));
            result.append(comms[k].as_str());
            k = k + 1;
        }
        assert(views(comms@).take(comms@.len() as int) =~= views(comms@));
        result
    }

    /// Files the command of one line of the command section (whose fields
    /// are `words`): under its name and each alias that is not empty, with
    /// the direction of its name if it is a movement. Returns its tag.
    fn parse_and_insert_command(&mut self, words: &Vec<String>) -> (res: Result<CommandId, LoadError>)
        requires
            old(self).wf(),
            words@.len() >= 1,
        ensures
            final(self).wf(),
            ({
                let f = words@.map_values(|w: String| w@);
                &&& res == match command_line_error_fields(f) {
                    Some(e) => Err(e),
                    None => Ok(line_tag(f)),
                }
                &&& res is Ok ==> cmd_views(final(self).commands@) == cmd_views(old(self).commands@) + line_entries_fields(f)
                &&& res is Ok ==> dir_views(final(self).direction_map@) == dir_views(old(self).direction_map@) + line_directions_fields(f)
            }),
    {
        let ghost f = words@.map_values(|w: String| w@);
        proof {
            assert(f.len() == words@.len());
        }
        if words.len() < 3 {
            return Err(LoadError::MissingField);
        }
        proof {
            assert(f[0] == words@[0]@ && f[1] == words@[1]@ && f[2] == words@[2]@);
        }
        let properties = match str_to_u32(words[1].as_str(), 16) {
            Err(_) => return Err(LoadError::BadNumber),
            Ok(p) => p,
        };
        let id = match str_to_u32(words[0].as_str(), 10) {
            Err(_) => return Err(LoadError::BadNumber),
            Ok(t) => t,
        };
        if !Self::has_action_for(id) {
            proof {
                assert(cmd_views(self.commands@) =~= cmd_views(old(self).commands@) + Seq::empty());
                assert(dir_views(self.direction_map@) =~= dir_views(old(self).direction_map@) + Seq::empty());
            }
            return Ok(id);
        }
        let movement = properties & constants::CTRL_COMMAND_MOVEMENT != 0;
        let tag_dir = Self::get_tag_dir(id);
        if movement && tag_dir.is_none() {
            return Err(LoadError::BadSection);
        }
        let dir = if movement { tag_dir } else { None };
        let ghost c = (f[2], properties, id);
        let ghost cmds0 = cmd_views(self.commands@);
        let ghost dirs0 = self.direction_map@;
        if let Some(d) = dir {
            self.direction_map.push((words[2].clone(), d));
            proof {
                assert(dir_views(self.direction_map@) =~= dir_views(dirs0) + line_directions_fields(f));
                assert(self.direction_map@.last().0@ == f[2]);
                assert(direction_lookup(self.direction_map@, f[2]) is Some);
            }
        } else {
            assert(dir_views(self.direction_map@) =~= dir_views(dirs0) + line_directions_fields(f));
        }
        proof {
            assert forall|j: int| 0 <= j < self.commands@.len() implies self.knows(#[trigger] self.commands@[j].1) by {
                assert(old(self).knows(old(self).commands@[j].1));
                if self.commands@[j].1.has(constants::CTRL_COMMAND_MOVEMENT) {
                    lemma_direction_lookup_extend(dirs0, self.direction_map@.subrange(dirs0.len() as int, self.direction_map@.len() as int),
                        self.commands@[j].1.name@);
                    assert(dirs0 + self.direction_map@.subrange(dirs0.len() as int, self.direction_map@.len() as int) =~= self.direction_map@);
                }
            }
        }
        let cmd = Command::new(words[2].clone(), properties, id);
        self.commands.push((words[2].clone(), cmd));
        let ghost mut k: int = 3;
        proof {
            assert(cmd_views(self.commands@) =~= cmds0 + seq![(f[2], c)]);
        }
        let ghost dm_after = self.direction_map@;
        let mut i: usize = 3;
        while i < words.len()
            invariant
                3 <= i <= words@.len(),
                f == words@.map_values(|w: String| w@),
                c == (f[2], properties, id),
                has_action(id),
                movement == movement_flag(properties),
                movement ==> (tag_direction(id) is Some),
                movement ==> self.spec_direction(f[2]) is Some,
                self.direction_map@ == dm_after,
                dir_views(dm_after) == dir_views(old(self).direction_map@) + line_directions_fields(f),
                self.wf(),
                cmd_views(self.commands@) + alias_entries(f, i as int, c) == cmds0 + (seq![(f[2], c)] + alias_entries(f, 3, c)),
            decreases words.len() - i,
        {
            proof {
                assert(f[i as int] == words@[i as int]@);
            }
            let ghost before = cmd_views(self.commands@);
            if !words[i].as_str().is_empty() {
                let cmd = Command::new(words[2].clone(), properties, id);
                let ghost s_before = self.commands@;
                self.commands.push((words[i].clone(), cmd));
                proof {
                    assert(cmd_views(self.commands@) =~= before.push((f[i as int], c)));
                    assert(before.push((f[i as int], c)) + alias_entries(f, i + 1, c) =~= before + alias_entries(f, i as int, c));
                    assert forall|j: int| 0 <= j < self.commands@.len() implies self.knows(#[trigger] self.commands@[j].1) by {
                        if j < self.commands@.len() - 1 {
                            assert(self.commands@[j] == s_before[j]);
                        }
                    }
                }
            } else {
                proof {
                    assert(before + alias_entries(f, i + 1, c) =~= before + alias_entries(f, i as int, c));
                }
            }
            i = i + 1;
        }
        proof {
            assert(alias_entries(f, words@.len() as int, c) =~= Seq::empty());
            assert(cmd_views(self.commands@) =~= cmd_views(self.commands@) + alias_entries(f, words@.len() as int, c));
        }
        Ok(id)
    }

    /// Reads a section of command lines that reads whole: each line files its
    /// command under its name and aliases, and the tags are exactly
    /// `0..expected_count` (`try_init` reports the first fault of any other).
    pub fn init(&mut self, buffer: &mut FileBuffer, expected_count: u32)
        requires
            old(buffer).wf(),
            old(self).wf(),
            command_section_result(section_lines(old(buffer).data@, old(buffer).index as int), expected_count) is Ok,
        ensures
            final(buffer).wf(),
            final(buffer).data == old(buffer).data,
            final(buffer).index == section_end(old(buffer).data@, old(buffer).index as int),
            final(self).wf(),
            cmd_views(final(self).commands@) == cmd_views(old(self).commands@)
                + section_entries(section_lines(old(buffer).data@, old(buffer).index as int)),
            dir_views(final(self).direction_map@) == dir_views(old(self).direction_map@)
                + section_directions(section_lines(old(buffer).data@, old(buffer).index as int)),
    {
        let _ = self.try_init(buffer, expected_count);
    }

    /// Reads the command section: one command on each line, by tag,
    /// properties, name and aliases; the tags must run from 0 to
    /// `expected_count - 1`.
    pub fn try_init(&mut self, buffer: &mut FileBuffer, expected_count: u32) -> (res: Result<(), LoadError>)
        requires
            old(buffer).wf(),
            old(self).wf(),
        ensures
            final(buffer).wf(),
            final(buffer).data == old(buffer).data,
            final(buffer).index == section_end(old(buffer).data@, old(buffer).index as int),
            final(self).wf(),
            first_error(section_lines(old(buffer).data@, old(buffer).index as int), |l: Seq<char>| command_line_error(l)) is None ==> {
                &&& cmd_views(final(self).commands@) == cmd_views(old(self).commands@)
                    + section_entries(section_lines(old(buffer).data@, old(buffer).index as int))
                &&& dir_views(final(self).direction_map@) == dir_views(old(self).direction_map@)
                    + section_directions(section_lines(old(buffer).data@, old(buffer).index as int))
            },
            res == command_section_result(section_lines(old(buffer).data@, old(buffer).index as int), expected_count),
    {
        let lines = buffer.read_section();
        let ghost lv = section_lines(old(buffer).data@, old(buffer).index as int);
        let ghost err = |l: Seq<char>| command_line_error(l);
        let mut ids: Vec<u32> = Vec::new();
        let mut i: usize = 0;
        proof {
            assert(lv.take(0) =~= Seq::<Seq<char>>::empty());
            assert(cmd_views(self.commands@) =~= cmd_views(old(self).commands@) + section_entries(lv.take(0)));
            assert(dir_views(self.direction_map@) =~= dir_views(old(self).direction_map@) + section_directions(lv.take(0)));
        }
        while i < lines.len()
            invariant
                buffer.wf(),
                buffer.data == old(buffer).data,
                buffer.index == section_end(old(buffer).data@, old(buffer).index as int),
                lines@.map_values(|l: String| l@) == lv,
                lv == section_lines(old(buffer).data@, old(buffer).index as int),
                err == (|l: Seq<char>| command_line_error(l)),
                i <= lines@.len(),
                self.wf(),
                first_error(lv.take(i as int), err) is None,
                cmd_views(self.commands@) == cmd_views(old(self).commands@) + section_entries(lv.take(i as int)),
                dir_views(self.direction_map@) == dir_views(old(self).direction_map@) + section_directions(lv.take(i as int)),
                forall|k: u32| ids@.contains(k) <==> section_has_tag(lv.take(i as int), k),
            decreases lines.len() - i,
        {
            let words = split_tabs(lines[i].as_str());
            proof {
                assert(lv[i as int] == lines@[i as int]@);
                lemma_first_error_step(lv, err, i as int);
                assert(words@.map_values(|w: String| w@).len() == tab_fields(lv[i as int]).len());
            }
            let ghost cmds0 = cmd_views(self.commands@);
            let ghost dirs0 = dir_views(self.direction_map@);
            let id = match self.parse_and_insert_command(&words) {
                Err(e) => return Err(e),
                Ok(id) => id,
            };
            let ghost ids0 = ids@;
            if !vec_contains(&ids, id) {
                ids.push(id);
            }
            proof {
                assert(id == line_tag(tab_fields(lv[i as int])));
                assert forall|k: u32| ids@.contains(k) <==> (ids0.contains(k) || k == id) by {
                    if ids@.len() > ids0.len() {
                        assert(ids@ == ids0.push(id));
                        if ids0.contains(k) {
                            let m = choose|m: int| 0 <= m < ids0.len() && ids0[m] == k;
                            assert(ids@[m] == k);
                        }
                        if k == id {
                            assert(ids@[ids0.len() as int] == k);
                        }
                    }
                }
            }
            proof {
                let t = lv.take(i + 1);
                assert(t.drop_last() =~= lv.take(i as int));
                assert(t.last() == lv[i as int]);
                assert(cmd_views(self.commands@) =~= cmd_views(old(self).commands@) + section_entries(t));
                assert(dir_views(self.direction_map@) =~= dir_views(old(self).direction_map@) + section_directions(t));
                assert forall|k: u32| ids@.contains(k) <==> section_has_tag(t, k) by {
                    if section_has_tag(t, k) {
                        let j = choose|j: int| 0 <= j < t.len() && line_tag(tab_fields(#[trigger] t[j])) == k;
                        if j < i {
                            assert(lv.take(i as int)[j] == t[j]);
                            assert(section_has_tag(lv.take(i as int), k));
                        } else {
                            assert(t[j] == lv[i as int]);
                        }
                    }
                    if ids0.contains(k) {
                        assert(section_has_tag(lv.take(i as int), k));
                        let j = choose|j: int| 0 <= j < i && line_tag(tab_fields(#[trigger] lv.take(i as int)[j])) == k;
                        assert(lv.take(i as int)[j] == t[j]);
                        assert(line_tag(tab_fields(t[j])) == k);
                    }
                    if k == id {
                        assert(t[i as int] == lv[i as int]);
                        assert(line_tag(tab_fields(t[i as int])) == k);
                    }
                }
            }
            i = i + 1;
        }
        assert(lv.take(lines@.len() as int) =~= lv);
        let mut in_range = true;
        let mut j: usize = 0;
        while j < ids.len()
            invariant
                j <= ids@.len(),
                in_range == forall|k: int| 0 <= k < j ==> ids@[k] < expected_count,
            decreases ids.len() - j,
        {
            if ids[j] >= expected_count {
                in_range = false;
            }
            j = j + 1;
        }
        let mut complete = true;
        let mut id: u32 = 0;
        while id < expected_count
            invariant
                id <= expected_count,
                complete == forall|k: u32| k < id ==> ids@.contains(k),
            decreases expected_count - id,
        {
            if !vec_contains(&ids, id) {
                complete = false;
            }
            id = id + 1;
        }
        let all_known = in_range && complete;
        proof {
            assert forall|k: u32| ids@.contains(k) <==> section_has_tag(lv, k) by {}
            if all_known {
                assert forall|k: u32| ids@.contains(k) <==> k < expected_count by {
                    if ids@.contains(k) {
                        let m = choose|m: int| 0 <= m < ids@.len() && ids@[m] == k;
                    }
                }
            } else if !in_range {
                let m = choose|m: int| 0 <= m < ids@.len() && !(ids@[m] < expected_count);
                assert(ids@.contains(ids@[m]));
            } else {
                let k = choose|k: u32| k < expected_count && !ids@.contains(k);
                assert(!(ids@.contains(k) <==> k < expected_count));
            }
        }
        if !all_known {
            return Err(LoadError::BadSection);
        }
        Ok(())
    }

    pub fn get(&self, key: &str) -> (res: Option<&Command>)
        requires
            self.wf(),
        ensures
            res == (match self.spec_get(key@) {
                None => None,
                Some(c) => Some(&c),
            }),
            res matches Some(c) ==> self.knows(*c),
    {
        let k = key.to_owned();
        let mut i = self.commands.len();
        assert(self.commands@.take(i as int) =~= self.commands@);
        while i > 0
            invariant
                i <= self.commands@.len(),
                k@ == key@,
                self.wf(),
                command_lookup(self.commands@.take(i as int), key@) == self.spec_get(key@),
            decreases i,
        {
            assert(self.commands@.take(i as int).drop_last() =~= self.commands@.take(i - 1));
            if self.commands[i - 1].0 == k {
                assert(self.knows(self.commands@[i - 1].1));
                return Some(&self.commands[i - 1].1);
            }
            i = i - 1;
        }
        None
    }

    /// The direction of the movement command named `dir_str`.
    /// The direction named `dir_str`, if one is.
    pub fn find_direction(&self, dir_str: &str) -> (res: Option<Direction>)
        ensures
            res == self.spec_direction(dir_str@),
    {
        let k = dir_str.to_owned();
        let mut i = self.direction_map.len();
        assert(self.direction_map@.take(i as int) =~= self.direction_map@);
        while i > 0
            invariant
                i <= self.direction_map@.len(),
                k@ == dir_str@,
                direction_lookup(self.direction_map@.take(i as int), dir_str@) == self.spec_direction(dir_str@),
            decreases i,
        {
            assert(self.direction_map@.take(i as int).drop_last() =~= self.direction_map@.take(i - 1));
            if self.direction_map[i - 1].0 == k {
                return Some(self.direction_map[i - 1].1);
            }
            i = i - 1;
        }
        assert(self.direction_map@.take(0) =~= Seq::<(String, Direction)>::empty());
        None
    }

    pub fn get_direction_enum(&self, dir_str: &str) -> (res: Direction)
        requires
            self.spec_direction(dir_str@) is Some,
        ensures
            res == self.spec_direction(dir_str@).unwrap(),
    {
        let k = dir_str.to_owned();
        let mut i = self.direction_map.len();
        assert(self.direction_map@.take(i as int) =~= self.direction_map@);
        while i > 0
            invariant
                i <= self.direction_map@.len(),
                k@ == dir_str@,
                direction_lookup(self.direction_map@.take(i as int), dir_str@) == self.spec_direction(dir_str@),
            decreases i,
        {
            assert(self.direction_map@.take(i as int).drop_last() =~= self.direction_map@.take(i - 1));
            if self.direction_map[i - 1].0 == k {
                return self.direction_map[i - 1].1;
            }
            i = i - 1;
        }
        proof {
            assert(self.direction_map@.take(0) =~= Seq::<(String, Direction)>::empty());
        }
        Direction::North
    }
}

} // verus!
