//! Commands the player can type.
use vstd::prelude::*;

use crate::actions::{perform, spec_perform};
use crate::command_collection::CommandCollection;
use crate::constants;
use crate::data_collection::{CommandId, CommandProperties, DataCollection, Msg, MsgV, msgs_view};
use crate::player::{Outcome, Player, outcome_holds};
use crate::player_items::{Pending, Question, QuestionV, ask_view};
use crate::player_move::score_in_range;

verus! {

/// What the argument of a command must be: anything, an item at hand, or an item carried.
#[derive(PartialEq, Eq, Structural, Clone, Copy, Debug)]
pub enum ArgumentType {
    Any,
    Present,
    Inventory,
}

pub struct Command {
    pub name: String,
    pub properties: CommandProperties,
    /// The tag of the command, which selects the action it performs.
    pub tag: CommandId,
}

impl Command {
    pub open spec fn has(self, code: u32) -> bool {
        self.properties & code != 0
    }

    pub fn new(name: String, properties: CommandProperties, tag: CommandId) -> (res: Command)
        ensures
            res.name@ == name@,
            res.properties == properties,
            res.tag == tag,
    {
        Command { name, properties, tag }
    }

    /// A copy of this command.
    pub fn duplicate(&self) -> (res: Command)
        ensures
            res == *self,
    {
        Command { name: self.name.clone(), properties: self.properties, tag: self.tag }
    }

    pub fn has_property(&self, property: CommandProperties) -> (res: bool)
        ensures
            res == self.has(property),
    {
        self.properties & property != 0
    }

    /// What the argument of this command must be.
    pub open spec fn arg_type(self) -> ArgumentType {
        if self.has(constants::CTRL_COMMAND_INVENTORY) {
            ArgumentType::Inventory
        } else if self.has(constants::CTRL_COMMAND_PRESENT) {
            ArgumentType::Present
        } else {
            ArgumentType::Any
        }
    }

    /// What a player may enter this command on: the counters can still be
    /// raised and the collection can carry the command out.
    pub open spec fn can_execute(self, p: Player, d: DataCollection) -> bool {
        &&& p.wf()
        &&& d.wf()
        &&& p.can_count()
        &&& d.commands.knows(self)
    }

    /// What carrying out this command's action needs: the commands that do
    /// not count as instructions come after one that did, and the score can
    /// be counted for the one that tells it.
    pub open spec fn action_ok(self, p: Player, d: DataCollection) -> bool {
        &&& (self.tag == constants::COMMAND_ID_HELP || self.tag == constants::COMMAND_ID_SCORE
            || self.tag == constants::COMMAND_ID_QUIT ==> p.instructions > 0)
        &&& (self.tag == constants::COMMAND_ID_SCORE ==> score_in_range(d.stowed_treasures(), p.achievement_count as nat,
            p.deaths as nat, p.hints as nat))
    }

    /// Whether this command, entered with argument `arg`, goes on to its
    /// action: it is not refused for an argument it does not take, and does
    /// not ask for one it needs.
    pub open spec fn acts_on(self, arg: Seq<char>) -> bool {
        &&& !(!self.has(constants::CTRL_COMMAND_ARG_MANDATORY) && !self.has(constants::CTRL_COMMAND_ARG_OPTIONAL) && arg.len() != 0)
        &&& !(self.has(constants::CTRL_COMMAND_ARG_MANDATORY) && arg.len() == 0 && !self.has(constants::CTRL_COMMAND_MOVEMENT))
    }

    /// Whether this command goes the way its argument names: its tag is a
    /// direction, but it is no movement.
    pub open spec fn goes_by_argument(self) -> bool {
        crate::command_collection::tag_direction(self.tag) is Some && !self.has(constants::CTRL_COMMAND_MOVEMENT)
    }

    /// Whether argument `arg` can be carried out by this command: one that
    /// goes the way its argument names needs the name of a known direction.
    pub open spec fn argument_ok(self, d: DataCollection, arg: Seq<char>) -> bool {
        self.goes_by_argument() ==> d.commands.spec_direction(arg) is Some
    }

    /// Whether this command can be entered with argument `arg`: it is refused,
    /// or asks for its argument, or the argument can be carried out.
    pub open spec fn entry_ok(self, d: DataCollection, arg: Seq<char>) -> bool {
        ||| !self.has(constants::CTRL_COMMAND_ARG_MANDATORY) && !self.has(constants::CTRL_COMMAND_ARG_OPTIONAL) && arg.len() != 0
        ||| self.has(constants::CTRL_COMMAND_ARG_MANDATORY) && arg.len() == 0 && !self.has(constants::CTRL_COMMAND_MOVEMENT)
        ||| self.argument_ok(d, arg)
    }

    /// Whether argument `arg` can be carried out by this command (see `argument_ok`).
    pub fn accepts_argument(&self, data: &DataCollection, arg: &str) -> (res: bool)
        ensures
            res == self.argument_ok(*data, arg@),
    {
        let by_argument = CommandCollection::get_tag_dir(self.tag).is_some()
            && !self.has_property(constants::CTRL_COMMAND_MOVEMENT);
        !by_argument || data.commands.find_direction(arg).is_some()
    }

    /// Whether this command can be entered with argument `arg` (see `entry_ok`).
    pub fn accepts(&self, data: &DataCollection, arg: &str) -> (res: bool)
        ensures
            res == self.entry_ok(*data, arg@),
    {
        let mandatory = self.has_property(constants::CTRL_COMMAND_ARG_MANDATORY);
        let optional = self.has_property(constants::CTRL_COMMAND_ARG_OPTIONAL);
        let movement = self.has_property(constants::CTRL_COMMAND_MOVEMENT);
        (!mandatory && !optional && !arg.is_empty()) || (mandatory && arg.is_empty() && !movement)
            || self.accepts_argument(data, arg)
    }

    /// This command, entered with argument `arg` (which it is known to
    /// take, if it takes one): a movement goes the way it names; the action
    /// is performed with the argument type the command requires.
    pub open spec fn spec_execute_argument(self, p: Player, d: DataCollection, arg: Seq<char>, death_rand: u32)
        -> (Outcome, Option<QuestionV>) {
        spec_perform(self.tag, p, d, if self.has(constants::CTRL_COMMAND_MOVEMENT) { self.name@ } else { arg },
            self.arg_type(), death_rand)
    }

    /// This command, entered with argument `arg`: an argument given to a
    /// command that takes none is refused; a command that needs one and got
    /// none asks for it; otherwise the command is carried out.
    pub open spec fn spec_execute(self, p: Player, d: DataCollection, arg: Seq<char>, death_rand: u32)
        -> (Outcome, Option<QuestionV>) {
        if !self.has(constants::CTRL_COMMAND_ARG_MANDATORY) && !self.has(constants::CTRL_COMMAND_ARG_OPTIONAL) && arg.len() != 0 {
            (p.respond(d.world(), constants::STR_ID_ARG_EXTRA), None)
        } else if self.has(constants::CTRL_COMMAND_ARG_MANDATORY) && arg.len() == 0 && !self.has(constants::CTRL_COMMAND_MOVEMENT) {
            (p.quiet(d.world()), Some(QuestionV {
                prompt: MsgV::ResponseParam(constants::STR_ID_ARG_GET, self.name@),
                pending: Pending::Argument,
            }))
        } else {
            self.spec_execute_argument(p, d, arg, death_rand)
        }
    }

    /// Carries out this command with argument `arg` (the answer, when the
    /// command asked for its argument).
    pub fn execute_argument(&self, data: &mut DataCollection, arg: &str, player: &mut Player, out: &mut Vec<Msg>)
        -> (res: Option<Question>)
        requires
            self.can_execute(*old(player), *old(data)),
            self.action_ok(*old(player), *old(data)),
            self.argument_ok(*old(data), arg@),
        ensures
            final(player).wf(),
            exists|death_rand: u32| {
                &&& outcome_holds(*final(player), *final(data), final(out)@, *old(data), old(out)@,
                    self.spec_execute_argument(*old(player), *old(data), arg@, death_rand).0)
                &&& ask_view(res) == self.spec_execute_argument(*old(player), *old(data), arg@, death_rand).1
            },
    {
        let movement = self.has_property(constants::CTRL_COMMAND_MOVEMENT);
        let arg_type = if self.has_property(constants::CTRL_COMMAND_INVENTORY) {
            ArgumentType::Inventory
        } else if self.has_property(constants::CTRL_COMMAND_PRESENT) {
            ArgumentType::Present
        } else {
            ArgumentType::Any
        };
        let ghost p0 = *player;
        let ghost d0 = *data;
        let ghost out0 = out@;
        let ghost used: Seq<char> = if movement { self.name@ } else { arg@ };
        let res = if movement {
            perform(self.tag, data, self.name.as_str(), player, arg_type, out)
        } else {
            perform(self.tag, data, arg, player, arg_type, out)
        };
        proof {
            let r = choose|r: u32| {
                &&& outcome_holds(*player, *data, out@, d0, out0, spec_perform(self.tag, p0, d0, used, arg_type, r).0)
                &&& ask_view(res) == spec_perform(self.tag, p0, d0, used, arg_type, r).1
            };
            assert(self.spec_execute_argument(p0, d0, arg@, r) == spec_perform(self.tag, p0, d0, used, arg_type, r));
        }
        res
    }

    /// Carries out this command as entered with argument `arg`.
    pub fn execute(&self, data: &mut DataCollection, arg: &str, player: &mut Player, out: &mut Vec<Msg>)
        -> (res: Option<Question>)
        requires
            self.can_execute(*old(player), *old(data)),
            self.acts_on(arg@) ==> self.action_ok(*old(player), *old(data)),
            self.entry_ok(*old(data), arg@),
        ensures
            final(player).wf(),
            exists|death_rand: u32| {
                &&& outcome_holds(*final(player), *final(data), final(out)@, *old(data), old(out)@,
                    self.spec_execute(*old(player), *old(data), arg@, death_rand).0)
                &&& ask_view(res) == self.spec_execute(*old(player), *old(data), arg@, death_rand).1
            },
    {
        if !self.has_property(constants::CTRL_COMMAND_ARG_MANDATORY) && !self.has_property(constants::CTRL_COMMAND_ARG_OPTIONAL)
            && !arg.is_empty() {
            out.push(Msg::Response(constants::STR_ID_ARG_EXTRA));
            proof {
                assert(self.spec_execute(*old(player), *old(data), arg@, 0).1 == ask_view(None));
            }
            return None;
        }
        if self.has_property(constants::CTRL_COMMAND_ARG_MANDATORY) && arg.is_empty()
            && !self.has_property(constants::CTRL_COMMAND_MOVEMENT) {
            assert(msgs_view(out@) =~= msgs_view(old(out)@) + Seq::<MsgV>::empty());
            let q = Question { prompt: Msg::ResponseParam(constants::STR_ID_ARG_GET, self.name.clone()), pending: Pending::Argument };
            proof {
                assert(self.spec_execute(*old(player), *old(data), arg@, 0).1 == ask_view(Some(q)));
            }
            return Some(q);
        }
        let ghost p0 = *player;
        let ghost d0 = *data;
        let ghost out0 = out@;
        let res = self.execute_argument(data, arg, player, out);
        proof {
            let r = choose|r: u32| {
                &&& outcome_holds(*player, *data, out@, d0, out0, self.spec_execute_argument(p0, d0, arg@, r).0)
                &&& ask_view(res) == self.spec_execute_argument(p0, d0, arg@, r).1
            };
            assert(self.spec_execute(p0, d0, arg@, r) == self.spec_execute_argument(p0, d0, arg@, r));
        }
        res
    }
}

} // verus!
