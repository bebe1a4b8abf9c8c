//! The course of a game, one step at a time: a typed line is carried out as
//! a command, a question the game asked is answered, and the end of each turn
//! brings its hazards, a death or a random event. Reading and writing is left
//! to the caller, which hands in what the player typed and shows the messages.
use vstd::prelude::*;

use crate::actions::{flash_answer, hint_answer, quit_answer, spec_flash_to};
use crate::command::Command;
use crate::constants;
use crate::data_collection::{DataCollection, Msg, MsgV, event_at, lemma_msgs_view_push, msgs_view, valid_item};
use crate::data_collection::World;
use crate::player::{Outcome, Player, outcome_holds};
use crate::player_items::{Pending, Question, QuestionV, ask_view};
use crate::player_move::score_in_range;
use crate::terminal::{get_yes_no, string_views, yes_no_of};

verus! {

broadcast use lemma_msgs_view_push;

/// A question the game waits to have answered, with the command that asked
/// it (if a command did) and the argument that command was given.
pub struct Asked {
    pub question: Question,
    pub command: Option<Command>,
    pub arg: String,
}

pub struct Game {
    pub data: DataCollection,
    pub player: Player,
    pub asked: Option<Asked>,
}

/// Whether a question is answered by yes or no.
pub open spec fn is_yes_no(p: Pending) -> bool {
    p is Hint || p is Quit || p is Reincarnate
}

/// The command a typed line names, and its argument: first as verb and
/// noun; else, for a command that allows it, as noun and verb.
pub open spec fn command_choice(d: DataCollection, inputs: Seq<Seq<char>>) -> Option<(Command, Seq<char>)> {
    match d.commands.spec_get(inputs[0]) {
        Some(c) => Some((c, if inputs.len() > 1 { inputs[1] } else { Seq::empty() })),
        None => if inputs.len() >= 2 {
            match d.commands.spec_get(inputs[1]) {
                Some(c) => if c.has(constants::CTRL_COMMAND_INVERTIBLE) { Some((c, inputs[0])) } else { None },
                None => None,
            }
        } else {
            None
        },
    }
}

/// Whether a typed line can be carried out: a command that goes the way its
/// argument names gets the name of a known direction.
pub open spec fn input_ok(d: DataCollection, inputs: Seq<Seq<char>>) -> bool {
    inputs.len() > 0 ==> match command_choice(d, inputs) {
        Some((c, arg)) => c.entry_ok(d, arg),
        None => true,
    }
}

/// Whether the answer `words` can be given to the question the game waits
/// on: a command's missing argument must suit the command.
pub open spec fn answer_ok(g: Game, words: Seq<Seq<char>>) -> bool {
    match g.asked {
        Some(a) => a.question.pending is Argument && a.command is Some && words.len() > 0
            ==> a.command.unwrap().argument_ok(g.data, words[0]),
        None => true,
    }
}

/// Whether player `p`, data `d`, messages `out` (after `out0`) and the
/// question the game waits on are what carrying out command `c` given `arg`
/// makes of player `p0` and data `d0`, for some draw of chance.
pub open spec fn carried_out(p: Player, d: DataCollection, out: Seq<Msg>, waiting: Option<QuestionV>, p0: Player,
    d0: DataCollection, out0: Seq<Msg>, c: Command, arg: Seq<char>) -> bool {
    exists|death_rand: u32| {
        &&& outcome_holds(p, d, out, d0, out0, c.spec_execute(p0, d0, arg, death_rand).0)
        &&& waiting == c.spec_execute(p0, d0, arg, death_rand).1
    }
}

/// Like `carried_out`, for a command whose argument has been given.
pub open spec fn carried_out_argument(p: Player, d: DataCollection, out: Seq<Msg>, waiting: Option<QuestionV>, p0: Player,
    d0: DataCollection, out0: Seq<Msg>, c: Command, arg: Seq<char>) -> bool {
    exists|death_rand: u32| {
        &&& outcome_holds(p, d, out, d0, out0, c.spec_execute_argument(p0, d0, arg, death_rand).0)
        &&& waiting == c.spec_execute_argument(p0, d0, arg, death_rand).1
    }
}

/// The outcome `o` followed by what `f` makes of its player and world.
pub open spec fn followed(o: Outcome, f: spec_fn(Player, World) -> Outcome) -> Outcome {
    let o2 = f(o.player, o.world);
    Outcome { player: o2.player, world: o2.world, msgs: o.msgs + o2.msgs }
}

/// Without air the player suffocates.
pub open spec fn suffocation(p: Player, w: World) -> Outcome {
    if !p.spec_has_air(w) { p.spec_die(w).after(MsgV::Response(constants::STR_ID_SUFFOCATE)) } else { p.quiet(w) }
}

/// Without land the player drowns.
pub open spec fn drowning(p: Player, w: World) -> Outcome {
    if !p.spec_has_land(w) { p.spec_die(w).after(MsgV::Response(constants::STR_ID_DROWN)) } else { p.quiet(w) }
}

/// Without gravity the player floats.
pub open spec fn weightlessness(p: Player, w: World) -> Outcome {
    if !p.spec_has_gravity(w) { p.spec_float(w) } else { p.quiet(w) }
}

/// The hazards at the end of a turn, in order: air, land, gravity.
pub open spec fn hazards(p: Player, w: World) -> Outcome {
    followed(followed(suffocation(p, w), |p: Player, w: World| drowning(p, w)), |p: Player, w: World| weightlessness(p, w))
}

/// What answer `answer` does to a question about pending work `pending`
/// other than a command's missing argument or a yes-no question.
pub open spec fn spec_answer(p: Player, d: DataCollection, pending: Pending, answer: Seq<char>) -> Outcome {
    match pending {
        Pending::Insert(x) => if valid_item(x) { p.spec_insert_answer(d, x, answer) } else { p.quiet(d.world()) },
        Pending::Give(x) => if valid_item(x) { p.spec_hand_answer(d, x, answer) } else { p.quiet(d.world()) },
        Pending::Pour(x) => if valid_item(x) { p.spec_hand_answer(d, x, answer) } else { p.quiet(d.world()) },
        Pending::FeedTo(x) => if valid_item(x) { p.spec_feed_to_answer(d, x, answer) } else { p.quiet(d.world()) },
        Pending::FeedWith(x) => if valid_item(x) { p.spec_feed_with_answer(d, x, answer) } else { p.quiet(d.world()) },
        Pending::Tether(x) => p.spec_tether_answer(d, x, answer),
        Pending::Machine(x) => if valid_item(x) { p.spec_exchange_answer(d, x, answer) } else { p.quiet(d.world()) },
        Pending::Tune => p.spec_play_answer(d, answer),
        Pending::Flash => spec_flash_to(p, d, answer),
        _ => p.quiet(d.world()),
    }
}

/// What a yes or no does to a yes-no question, with the argument of the
/// command that asked: a hint is taken and counted; quitting ends the game; a
/// reincarnated player lives again, and one who declines ends the game.
pub open spec fn spec_decide(p: Player, d: DataCollection, pending: Pending, arg: Seq<char>, yes: bool) -> Outcome {
    let w = d.world();
    match pending {
        Pending::Hint => if yes {
            if d.hints.spec_get(arg) is Some {
                Player { hints: (p.hints + 1) as u32, ..p }.said(w, MsgV::Text(d.hints.spec_get(arg).unwrap()@))
            } else {
                p.quiet(w)
            }
        } else {
            p.respond(w, constants::STR_ID_OK)
        },
        Pending::Quit => if yes { Player { playing: false, ..p }.quiet(w) } else { p.respond(w, constants::STR_ID_OK) },
        Pending::Reincarnate => if yes {
            Player { alive: true, ..p }.respond(w, constants::STR_ID_REINCARNATE_DO)
        } else {
            Player { playing: false, ..p }.respond(w, constants::STR_ID_OK)
        },
        _ => p.quiet(w),
    }
}

/// The question that offers reincarnation.
pub open spec fn reincarnation_question() -> QuestionV {
    QuestionV { prompt: MsgV::Response(constants::STR_ID_REINCARNATE_ASK), pending: Pending::Reincarnate }
}

/// Whether `x` is the id of an item of the game.
fn is_item_id(x: u32) -> (res: bool)
    ensures
        res == valid_item(x),
{
    constants::ITEM_INDEX_START <= x && x < constants::ITEM_INDEX_START + constants::EXPECTED_ITEMS
}

impl Game {
    pub open spec fn wf(&self) -> bool {
        &&& self.data.wf()
        &&& self.player.wf()
        &&& (self.asked matches Some(a) ==> (a.question.pending is Argument ==> a.command is Some)
            && (a.command matches Some(c) ==> self.data.commands.knows(c)))
    }

    /// Whether the counters have room for another turn: the instructions,
    /// the puzzles solved and the hints can each grow by one, the deaths by
    /// three, and the score can be counted.
    pub open spec fn room(&self) -> bool {
        &&& self.player.instructions < u32::MAX
        &&& self.player.achievement_count < u32::MAX
        &&& self.player.hints < u32::MAX
        &&& self.player.deaths < u32::MAX - 3
        &&& score_in_range(self.data.stowed_treasures(), self.player.achievement_count as nat, self.player.deaths as nat,
            self.player.hints as nat)
    }

    /// The question the game waits to have answered, as seen.
    pub open spec fn waiting(&self) -> Option<QuestionV> {
        match self.asked {
            Some(a) => Some(a.question@),
            None => None,
        }
    }

    /// A game of `player` in the world of `data`.
    pub fn new(data: DataCollection, player: Player) -> (res: Game)
        requires
            data.wf(),
            player.wf(),
        ensures
            res.wf(),
            res.data == data,
            res.player == player,
            res.asked is None,
    {
        Game { data, player, asked: None }
    }

    /// The opening words of the game.
    pub fn begin(&self, out: &mut Vec<Msg>)
        ensures
            msgs_view(final(out)@) == msgs_view(old(out)@).push(MsgV::Response(constants::STR_ID_AWAKEN_INITIAL)),
    {
        out.push(Msg::Response(constants::STR_ID_AWAKEN_INITIAL));
    }

    pub fn is_playing(&self) -> (res: bool)
        ensures
            res == self.player.playing,
    {
        self.player.is_playing()
    }

    /// The question the game waits to have answered, if any.
    pub fn question(&self) -> (res: Option<&Question>)
        ensures
            ask_view(match res { Some(q) => Some(*q), None => None }) == self.waiting(),
    {
        match &self.asked {
            Some(a) => Some(&a.question),
            None => None,
        }
    }

    /// Whether the game waits for a yes or a no.
    pub fn expects_yes_no(&self) -> (res: bool)
        ensures
            res == (self.asked matches Some(a) && is_yes_no(a.question.pending)),
    {
        match &self.asked {
            Some(a) => match a.question.pending {
                Pending::Hint | Pending::Quit | Pending::Reincarnate => true,
                _ => false,
            },
            None => false,
        }
    }

    /// Whether a typed line can be carried out (see `input_ok`).
    pub fn accepts(&self, inputs: &Vec<String>) -> (res: bool)
        requires
            self.wf(),
        ensures
            res == input_ok(self.data, string_views(inputs@)),
    {
        if inputs.len() == 0 {
            return true;
        }
        let ghost views = string_views(inputs@);
        assert(views[0] == inputs@[0]@);
        if let Some(cmd) = self.data.get_command(inputs[0].as_str()) {
            if inputs.len() > 1 {
                assert(views[1] == inputs@[1]@);
                return cmd.accepts(&self.data, inputs[1].as_str());
            }
            proof {
                reveal_strlit("");
            }
            assert(""@ =~= Seq::<char>::empty());
            return cmd.accepts(&self.data, "");
        }
        if inputs.len() >= 2 {
            assert(views[1] == inputs@[1]@);
            if let Some(cmd) = self.data.get_command(inputs[1].as_str()) {
                if cmd.has_property(constants::CTRL_COMMAND_INVERTIBLE) {
                    return cmd.accepts(&self.data, inputs[0].as_str());
                }
            }
        }
        true
    }

    /// Whether the answer `words` can be given to the question the game
    /// waits on (see `answer_ok`).
    pub fn accepts_answer(&self, words: &Vec<String>) -> (res: bool)
        ensures
            res == answer_ok(*self, string_views(words@)),
    {
        match &self.asked {
            Some(a) => {
                if words.len() == 0 {
                    return true;
                }
                assert(string_views(words@)[0] == words@[0]@);
                match (&a.question.pending, &a.command) {
                    (Pending::Argument, Some(c)) => c.accepts_argument(&self.data, words[0].as_str()),
                    _ => true,
                }
            },
            None => true,
        }
    }

    /// Whether the counters have room for another turn.
    pub fn has_room(&self) -> (res: bool)
        requires
            self.wf(),
        ensures
            res == self.room(),
    {
        let treasures = self.data.get_stowed_treasure_count() as u64;
        let gains = treasures * constants::SCORE_TREASURE as u64 + self.player.achievement_count as u64 * constants::SCORE_PUZZLE as u64;
        let deaths = self.player.deaths as u64;
        let hints = self.player.hints as u64;
        assert(deaths * 25 <= 0xffff_ffffu64 * 25) by (nonlinear_arith) requires deaths <= 0xffff_ffffu64;
        assert(hints * 10 <= 0xffff_ffffu64 * 10) by (nonlinear_arith) requires hints <= 0xffff_ffffu64;
        let losses = deaths * constants::PENALTY_DEATH as u64 + hints * constants::PENALTY_HINT as u64;
        self.player.instructions < u32::MAX && self.player.achievement_count < u32::MAX && self.player.hints < u32::MAX
            && self.player.deaths < u32::MAX - 3 && gains <= i32::MAX as u64 && losses <= i32::MAX as u64
    }

    /// Records the question `q`, asked by `command` given `arg`, if any.
    fn ask(&mut self, q: Option<Question>, command: Option<Command>, arg: String)
        requires
            old(self).wf(),
            q matches Some(q) ==> (q.pending is Argument ==> command is Some),
            command matches Some(c) ==> old(self).data.commands.knows(c),
        ensures
            final(self).wf(),
            final(self).data == old(self).data,
            final(self).player == old(self).player,
            final(self).waiting() == ask_view(q),
            final(self).asked matches Some(a) ==> a.command == command && a.arg@ == arg@,
    {
        self.asked = match q {
            Some(question) => Some(Asked { question, command, arg }),
            None => None,
        };
    }

    /// Carries out a typed line (its first words, see `terminal::tokens`): a
    /// blank line does nothing; otherwise the instruction is counted and the
    /// command it names is carried out, or the player is told it was not
    /// understood. The command may ask a question, which the game then waits
    /// to have answered.
    pub fn process_input(&mut self, inputs: &Vec<String>, out: &mut Vec<Msg>)
        requires
            old(self).wf(),
            old(self).asked is None,
            old(self).room(),
            input_ok(old(self).data, string_views(inputs@)),
        ensures
            final(self).wf(),
            inputs@.len() == 0 ==> *final(self) == *old(self) && final(out)@ == old(out)@,
            inputs@.len() > 0 ==> {
                let p1 = Player { instructions: (old(self).player.instructions + 1) as u32, ..old(self).player };
                match command_choice(old(self).data, string_views(inputs@)) {
                    Some((c, arg)) => carried_out(final(self).player, final(self).data, final(out)@, final(self).waiting(), p1,
                        old(self).data, old(out)@, c, arg),
                    None => outcome_holds(final(self).player, final(self).data, final(out)@, old(self).data, old(out)@,
                        p1.respond(old(self).data.world(), constants::STR_ID_NO_UNDERSTAND_INSTRUCTION))
                        && final(self).asked is None,
                }
            },
    {
        if inputs.len() == 0 {
            return;
        }
        self.player.increment_instructions();
        let ghost p1 = self.player;
        let ghost views = string_views(inputs@);
        assert(views[0] == inputs@[0]@);
        let first = self.data.get_command(inputs[0].as_str());
        if let Some(cmd) = first {
            let arg = if inputs.len() > 1 {
                assert(views[1] == inputs@[1]@);
                inputs[1].clone()
            } else {
                String::new()
            };
            let c = cmd.duplicate();
            let ghost a = arg@;
            let ghost cc = c;
            self.run(c, arg, out);
            proof {
                assert(command_choice(old(self).data, views) == Some((cc, a)));
            }
            return;
        }
        if inputs.len() >= 2 {
            assert(views[1] == inputs@[1]@);
            let second = self.data.get_command(inputs[1].as_str());
            if let Some(cmd) = second {
                if cmd.has_property(constants::CTRL_COMMAND_INVERTIBLE) {
                    let arg = inputs[0].clone();
                    let c = cmd.duplicate();
                    let ghost a = arg@;
                    let ghost cc = c;
                    self.run(c, arg, out);
                    proof {
                        assert(command_choice(old(self).data, views) == Some((cc, a)));
                    }
                    return;
                }
            }
        }
        out.push(Msg::Response(constants::STR_ID_NO_UNDERSTAND_INSTRUCTION));
    }

    /// Carries out command `c` given `arg`, and waits for the answer to the
    /// question it asks, if any.
    fn run(&mut self, c: Command, arg: String, out: &mut Vec<Msg>)
        requires
            old(self).wf(),
            c.can_execute(old(self).player, old(self).data),
            c.acts_on(arg@) ==> c.action_ok(old(self).player, old(self).data),
            c.entry_ok(old(self).data, arg@),
        ensures
            final(self).wf(),
            carried_out(final(self).player, final(self).data, final(out)@, final(self).waiting(), old(self).player,
                old(self).data, old(out)@, c, arg@),
    {
        let q = c.execute(&mut self.data, arg.as_str(), &mut self.player, out);
        self.ask(q, Some(c), arg);
    }

    /// Answers the question the game waits on, other than a yes-no question,
    /// with the first word the player typed: a command's missing argument is
    /// filled in and the command carried out (which may ask again); any other
    /// question goes to the action that asked it.
    pub fn answer(&mut self, words: &Vec<String>, out: &mut Vec<Msg>)
        requires
            old(self).wf(),
            old(self).room(),
            old(self).asked matches Some(a) && !is_yes_no(a.question.pending),
            old(self).player.instructions > 0,
            words@.len() > 0,
            answer_ok(*old(self), string_views(words@)),
        ensures
            final(self).wf(),
            ({
                let a = old(self).asked.unwrap();
                let ans = words@[0]@;
                if a.question.pending is Argument {
                    carried_out_argument(final(self).player, final(self).data, final(out)@, final(self).waiting(), old(self).player,
                        old(self).data, old(out)@, a.command.unwrap(), ans)
                } else {
                    &&& outcome_holds(final(self).player, final(self).data, final(out)@, old(self).data, old(out)@,
                        spec_answer(old(self).player, old(self).data, a.question.pending, ans))
                    &&& final(self).asked is None
                }
            }),
    {
        let asked = self.asked.take();
        let a = match asked {
            Some(a) => a,
            None => { return; },
        };
        let ans = words[0].as_str();
        match a.question.pending {
            Pending::Argument => {
                let c = match a.command {
                    Some(c) => c,
                    None => { return; },
                };
                let q = c.execute_argument(&mut self.data, ans, &mut self.player, out);
                self.ask(q, Some(c), words[0].clone());
            },
            Pending::Insert(x) => {
                if is_item_id(x) {
                    self.player.insert_answer(&mut self.data, x, ans, out);
                }
            },
            Pending::Give(x) => {
                if is_item_id(x) {
                    self.player.give_answer(&mut self.data, x, ans, out);
                }
            },
            Pending::Pour(x) => {
                if is_item_id(x) {
                    self.player.pour_answer(&mut self.data, x, ans, out);
                }
            },
            Pending::FeedTo(x) => {
                if is_item_id(x) {
                    self.player.feed_to_answer(&mut self.data, x, ans, out);
                }
            },
            Pending::FeedWith(x) => {
                if is_item_id(x) {
                    self.player.feed_with_answer(&mut self.data, x, ans, out);
                }
            },
            Pending::Tether(x) => {
                self.player.tether_answer(&mut self.data, x, ans, out);
            },
            Pending::Machine(x) => {
                if is_item_id(x) {
                    self.player.exchange_answer(&mut self.data, x, ans, out);
                }
            },
            Pending::Tune => {
                self.player.play_answer(&mut self.data, ans, out);
            },
            Pending::Flash => {
                flash_answer(&mut self.data, ans, &mut self.player, out);
            },
            _ => {},
        }
    }

    /// Answers the yes-no question the game waits on with word `word`: a
    /// word that is neither yes nor no is not understood, and the question
    /// stays; otherwise the answer is carried out.
    pub fn answer_yes_no(&mut self, word: &str, out: &mut Vec<Msg>)
        requires
            old(self).wf(),
            old(self).room(),
            old(self).asked matches Some(a) && is_yes_no(a.question.pending),
        ensures
            final(self).wf(),
            ({
                let a = old(self).asked.unwrap();
                match yes_no_of(word@) {
                    None => {
                        &&& final(self).player == old(self).player
                        &&& final(self).data == old(self).data
                        &&& final(self).waiting() == old(self).waiting()
                        &&& msgs_view(final(out)@) == msgs_view(old(out)@).push(MsgV::Response(constants::STR_ID_NO_UNDERSTAND_SELECTION))
                    },
                    Some(yes) => {
                        &&& outcome_holds(final(self).player, final(self).data, final(out)@, old(self).data, old(out)@,
                            spec_decide(old(self).player, old(self).data, a.question.pending, a.arg@, yes))
                        &&& final(self).asked is None
                    },
                }
            }),
            old(self).asked.unwrap().question.pending is Reincarnate && yes_no_of(word@) is Some
                ==> final(self).player.alive || !final(self).player.playing,
    {
        let yes = match get_yes_no(word) {
            None => {
                out.push(Msg::Response(constants::STR_ID_NO_UNDERSTAND_SELECTION));
                return;
            },
            Some(yes) => yes,
        };
        let asked = self.asked.take();
        let a = match asked {
            Some(a) => a,
            None => { return; },
        };
        match a.question.pending {
            Pending::Hint => {
                if yes {
                    if self.data.get_hint(a.arg.as_str()).is_some() {
                        hint_answer(&mut self.data, a.arg.as_str(), &mut self.player, true, out);
                    }
                } else {
                    out.push(Msg::Response(constants::STR_ID_OK));
                }
            },
            Pending::Quit => {
                quit_answer(&mut self.data, &mut self.player, yes, out);
            },
            Pending::Reincarnate => {
                if yes {
                    out.push(Msg::Response(constants::STR_ID_REINCARNATE_DO));
                    self.player.set_alive(true);
                } else {
                    out.push(Msg::Response(constants::STR_ID_OK));
                    self.player.set_playing(false);
                }
            },
            _ => {},
        }
    }

    /// The end of a turn: the hazards strike (no air, no land, no gravity);
    /// a dead player is offered reincarnation; otherwise, while the game goes
    /// on, the random event due on this turn is told, once.
    pub fn end_turn(&mut self, out: &mut Vec<Msg>)
        requires
            old(self).wf(),
            old(self).room(),
            old(self).asked is None,
        ensures
            final(self).wf(),
            ({
                let o = hazards(old(self).player, old(self).data.world());
                if !o.player.alive {
                    &&& outcome_holds(final(self).player, final(self).data, final(out)@, old(self).data, old(out)@,
                        o.and_say(MsgV::Response(constants::STR_ID_DEAD)))
                    &&& final(self).waiting() == Some(reincarnation_question())
                } else if o.player.playing {
                    &&& final(self).player == o.player
                    &&& final(self).data.world() == o.world
                    &&& (DataCollection { event_turns: old(self).data.event_turns, ..final(self).data }).same_static(old(self).data)
                    &&& final(self).asked is None
                    &&& match event_at(old(self).data.event_turns@, o.player.instructions, 0) {
                        None => msgs_view(final(out)@) == msgs_view(old(out)@) + o.msgs
                            && final(self).data.event_turns@ == old(self).data.event_turns@,
                        Some(j) => msgs_view(final(out)@) == (msgs_view(old(out)@) + o.msgs).push(MsgV::Text(
                            old(self).data.events.spec_get(old(self).data.event_turns@[j].1).unwrap()@))
                            && final(self).data.event_turns@ == old(self).data.event_turns@.remove(j),
                    }
                } else {
                    &&& outcome_holds(final(self).player, final(self).data, final(out)@, old(self).data, old(out)@, o)
                    &&& final(self).asked is None
                }
            }),
            final(self).asked is None && final(self).player.playing ==> final(self).player.alive,
    {
        let ghost p0 = self.player;
        let ghost d0 = self.data;
        let ghost out0 = out@;
        if !self.player.has_air(&self.data) {
            out.push(Msg::Response(constants::STR_ID_SUFFOCATE));
            self.player.die(&mut self.data);
        }
        let ghost o1 = suffocation(p0, d0.world());
        assert(outcome_holds(self.player, self.data, out@, d0, out0, o1));
        let ghost d1 = self.data;
        let ghost out1 = out@;
        if !self.player.has_land(&self.data) {
            out.push(Msg::Response(constants::STR_ID_DROWN));
            self.player.die(&mut self.data);
        }
        let ghost o2 = followed(o1, |p: Player, w: World| drowning(p, w));
        assert(outcome_holds(self.player, self.data, out@, d0, out0, o2));
        if !self.player.has_gravity(&self.data) {
            self.player.float(&mut self.data, out);
        }
        let ghost o = hazards(p0, d0.world());
        assert(outcome_holds(self.player, self.data, out@, d0, out0, o));
        if !self.player.is_alive() {
            out.push(Msg::Response(constants::STR_ID_DEAD));
            self.asked = Some(Asked {
                question: Question { prompt: Msg::Response(constants::STR_ID_REINCARNATE_ASK), pending: Pending::Reincarnate },
                command: None,
                arg: String::new(),
            });
        } else if self.player.is_playing() {
            let turn = self.player.get_instructions();
            match self.data.get_and_clear_event(turn) {
                None => {},
                Some(e) => out.push(Msg::Text(e)),
            }
        }
    }

    /// The words that close the game: the final score.
    pub fn final_score(&self) -> (res: String)
        requires
            self.wf(),
            self.room(),
        ensures
            res@ == self.player.spec_score_str(self.data, constants::STR_ID_SCORE_FINAL),
    {
        self.player.get_score_str(&self.data, constants::STR_ID_SCORE_FINAL)
    }
}

} // verus!
