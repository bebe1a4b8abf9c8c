//! The actions behind the commands.
//!
//! Most commands act on an item named by their argument: the name is looked
//! up, the item checked to be where the command needs it, and the player's
//! action for the command performed on it (`manipulate_item`). Actions that
//! must ask the player something return the `Question` to put.
use vstd::prelude::*;

use crate::command::ArgumentType;
use crate::command_collection::has_action;
use crate::constants;
use crate::data_collection::{CommandId, DataCollection, ItemId, Msg, MsgV, StringId, World, msgs_view, str_to_u32, valid_item, valid_location_id};
use crate::player_move::score_in_range;
use crate::text::{decimal, parse_u32, u32_to_string};
use crate::item_list::first_obstruction;
use crate::player::{Outcome, Player, outcome_holds};
use crate::player_items::{Pending, Question, QuestionV, ask_view};

verus! {

broadcast use crate::data_collection::lemma_msgs_view_push;

/// The actions that are performed on an item.
#[derive(PartialEq, Eq, Structural, Clone, Copy, Debug)]
pub enum ItemAction {
    Attack,
    Burn,
    Call,
    Cook,
    Describe,
    Drink,
    Drop,
    Eat,
    Empty,
    Exchange,
    Feed,
    Fly,
    Give,
    Grab,
    Ignore,
    Insert,
    Light,
    Play,
    Pour,
    Push,
    Quench,
    Read,
    Repair,
    Rob,
    Roll,
    Rub,
    Take,
    Tether,
    Throw,
}

/// Action `act` performed by player `p` on item `x`.
pub open spec fn spec_item_action(p: Player, d: DataCollection, act: ItemAction, x: ItemId) -> (Outcome, Option<QuestionV>) {
    let w = d.world();
    match act {
        ItemAction::Attack => (p.spec_attack(w, x), None),
        ItemAction::Burn => (p.spec_burn(w, x), None),
        ItemAction::Call => (p.spec_call(w, x), None),
        ItemAction::Cook => (p.spec_cook(w, x), None),
        ItemAction::Describe => (p.spec_describe(w, d, x), None),
        ItemAction::Drink => (p.spec_drink(w, x), None),
        ItemAction::Drop => (p.spec_release(w, x, false), None),
        ItemAction::Eat => (p.spec_eat(w, x), None),
        ItemAction::Empty => (p.spec_empty(w, x), None),
        ItemAction::Exchange => p.spec_exchange(w, x),
        ItemAction::Feed => p.spec_feed(w, x),
        ItemAction::Fly => (p.spec_fly(w, x), None),
        ItemAction::Give => p.spec_give(w, x),
        ItemAction::Grab => (p.spec_grab(w, x), None),
        ItemAction::Ignore => (p.spec_ignore(w, x), None),
        ItemAction::Insert => p.spec_insert(w, x),
        ItemAction::Light => (p.spec_switch_item(w, x, true), None),
        ItemAction::Play => p.spec_play(w, x),
        ItemAction::Pour => p.spec_pour(w, x),
        ItemAction::Push => (p.spec_push(w, x), None),
        ItemAction::Quench => (p.spec_switch_item(w, x, false), None),
        ItemAction::Read => (p.spec_read(w, d, x), None),
        ItemAction::Repair => (p.spec_repair(w, x), None),
        ItemAction::Rob => (p.spec_rob(w, x), None),
        ItemAction::Roll => (p.spec_roll(w, x), None),
        ItemAction::Rub => (p.spec_rub(w, x), None),
        ItemAction::Take => p.spec_take(w, x),
        ItemAction::Tether => p.spec_tether(w, x),
        ItemAction::Throw => (p.spec_release(w, x, true).after(MsgV::Response(constants::STR_ID_THROW)), None),
    }
}

fn item_action(data: &mut DataCollection, player: &mut Player, act: ItemAction, item: ItemId, out: &mut Vec<Msg>) -> (res: Option<Question>)
    requires
        old(player).wf(),
        old(data).wf(),
        old(player).can_count(),
        valid_item(item),
    ensures
        final(player).wf(),
        outcome_holds(*final(player), *final(data), final(out)@, *old(data), old(out)@,
            spec_item_action(*old(player), *old(data), act, item).0),
        ask_view(res) == spec_item_action(*old(player), *old(data), act, item).1,
{
    match act {
        ItemAction::Attack => { player.attack(data, item, out); None },
        ItemAction::Burn => { player.burn(data, item, out); None },
        ItemAction::Call => { player.call(data, item, out); None },
        ItemAction::Cook => { player.cook(data, item, out); None },
        ItemAction::Describe => { player.describe(data, item, out); None },
        ItemAction::Drink => { player.drink(data, item, out); None },
        ItemAction::Drop => { player.drop(data, item, out); None },
        ItemAction::Eat => { player.eat(data, item, out); None },
        ItemAction::Empty => { player.empty(data, item, out); None },
        ItemAction::Exchange => player.exchange(data, item, out),
        ItemAction::Feed => player.feed(data, item, out),
        ItemAction::Fly => { player.fly(data, item, out); None },
        ItemAction::Give => player.give(data, item, out),
        ItemAction::Grab => { player.grab(data, item, out); None },
        ItemAction::Ignore => { player.ignore(data, item, out); None },
        ItemAction::Insert => player.insert(data, item, out),
        ItemAction::Light => { player.light(data, item, out); None },
        ItemAction::Play => player.play(data, item, out),
        ItemAction::Pour => player.pour(data, item, out),
        ItemAction::Push => { player.push(data, item, out); None },
        ItemAction::Quench => { player.quench(data, item, out); None },
        ItemAction::Read => { player.read(data, item, out); None },
        ItemAction::Repair => { player.repair(data, item, out); None },
        ItemAction::Rob => { player.rob(data, item, out); None },
        ItemAction::Roll => { player.roll(data, item, out); None },
        ItemAction::Rub => { player.rub(data, item, out); None },
        ItemAction::Take => player.take(data, item, out),
        ItemAction::Tether => player.tether(data, item, out),
        ItemAction::Throw => { player.throw(data, item, out); None },
    }
}

/// Why item `x` cannot be acted on, if it cannot: it must be carried, or at
/// hand, as the command requires; and a fixture cannot be reached past an
/// obstruction.
pub open spec fn spec_problem_manipulation(p: Player, w: World, x: ItemId, arg_type: ArgumentType, is_mobile: bool) -> Option<StringId> {
    if arg_type == ArgumentType::Inventory && !p.has_inv(w, x) {
        Some(constants::STR_ID_NO_HAVE_INVENTORY)
    } else if arg_type == ArgumentType::Present && !(p.has_inv(w, x) || p.has_loc(w, x)) {
        Some(constants::STR_ID_NO_SEE_HERE)
    } else if !is_mobile && first_obstruction(w.items, p.loc(w).items, 0) is Some {
        Some(constants::STR_ID_FIXTURE_OBSTRUCTED)
    } else {
        None
    }
}

fn problem_with_item_manipulation(data: &DataCollection, player: &Player, item_id: ItemId, arg_type: ArgumentType,
    is_mobile: bool) -> (res: Option<StringId>)
    requires
        player.wf(),
        data.wf(),
    ensures
        res == spec_problem_manipulation(*player, data.world(), item_id, arg_type, is_mobile),
{
    if arg_type == ArgumentType::Inventory && !player.has_item_inventory(data, item_id) {
        return Some(constants::STR_ID_NO_HAVE_INVENTORY);
    } else if arg_type == ArgumentType::Present && !player.has_item_present(data, item_id) {
        return Some(constants::STR_ID_NO_SEE_HERE);
    }
    if !is_mobile {
        if let Some(_) = player.get_current_obstruction(data) {
            return Some(constants::STR_ID_FIXTURE_OBSTRUCTED);
        }
    }
    None
}

/// Action `act` on the item named `arg`, if there is one and it can be acted on.
pub open spec fn spec_manipulate(p: Player, d: DataCollection, arg: Seq<char>, arg_type: ArgumentType, act: ItemAction)
    -> (Outcome, Option<QuestionV>) {
    let w = d.world();
    match d.spec_item_by_name(arg) {
        None => (p.respond(w, constants::STR_ID_NO_KNOW_WHO_WHAT), None),
        Some(x) => match spec_problem_manipulation(p, w, x, arg_type, w.item_has(x, constants::CTRL_ITEM_MOBILE)) {
            Some(problem) => (p.respond_about(w, problem, x), None),
            None => spec_item_action(p, d, act, x),
        },
    }
}

pub fn manipulate_item(data: &mut DataCollection, arg: &str, arg_type: ArgumentType, player: &mut Player, act: ItemAction,
    out: &mut Vec<Msg>) -> (res: Option<Question>)
    requires
        old(player).wf(),
        old(data).wf(),
        old(player).can_count(),
    ensures
        final(player).wf(),
        outcome_holds(*final(player), *final(data), final(out)@, *old(data), old(out)@,
            spec_manipulate(*old(player), *old(data), arg@, arg_type, act).0),
        ask_view(res) == spec_manipulate(*old(player), *old(data), arg@, arg_type, act).1,
{
    match data.get_item_by_name(arg) {
        None => {
            out.push(Msg::Response(constants::STR_ID_NO_KNOW_WHO_WHAT));
            None
        },
        Some(item_id) => {
            let it = data.get_item_by_id_certain(item_id);
            let is_mobile = it.has_property(constants::CTRL_ITEM_MOBILE);
            match problem_with_item_manipulation(data, player, item_id, arg_type, is_mobile) {
                Some(problem) => {
                    out.push(Msg::ResponseParam(problem, it.get_shortname().to_owned()));
                    None
                },
                None => item_action(data, player, act, item_id, out),
            }
        },
    }
}

pub fn do_attack(data: &mut DataCollection, arg: &str, player: &mut Player, arg_type: ArgumentType, out: &mut Vec<Msg>)
    -> (res: Option<Question>)
    requires
        old(player).wf(),
        old(data).wf(),
        old(player).can_count(),
    ensures
        final(player).wf(),
        outcome_holds(*final(player), *final(data), final(out)@, *old(data), old(out)@,
            spec_manipulate(*old(player), *old(data), arg@, arg_type, ItemAction::Attack).0),
        ask_view(res) == spec_manipulate(*old(player), *old(data), arg@, arg_type, ItemAction::Attack).1,
{
    manipulate_item(data, arg, arg_type, player, ItemAction::Attack, out)
}

pub fn do_burn(data: &mut DataCollection, arg: &str, player: &mut Player, arg_type: ArgumentType, out: &mut Vec<Msg>)
    -> (res: Option<Question>)
    requires
        old(player).wf(),
        old(data).wf(),
        old(player).can_count(),
    ensures
        final(player).wf(),
        outcome_holds(*final(player), *final(data), final(out)@, *old(data), old(out)@,
            spec_manipulate(*old(player), *old(data), arg@, arg_type, ItemAction::Burn).0),
        ask_view(res) == spec_manipulate(*old(player), *old(data), arg@, arg_type, ItemAction::Burn).1,
{
    manipulate_item(data, arg, arg_type, player, ItemAction::Burn, out)
}

pub fn do_call(data: &mut DataCollection, arg: &str, player: &mut Player, arg_type: ArgumentType, out: &mut Vec<Msg>)
    -> (res: Option<Question>)
    requires
        old(player).wf(),
        old(data).wf(),
        old(player).can_count(),
    ensures
        final(player).wf(),
        outcome_holds(*final(player), *final(data), final(out)@, *old(data), old(out)@,
            spec_manipulate(*old(player), *old(data), arg@, arg_type, ItemAction::Call).0),
        ask_view(res) == spec_manipulate(*old(player), *old(data), arg@, arg_type, ItemAction::Call).1,
{
    manipulate_item(data, arg, arg_type, player, ItemAction::Call, out)
}

pub fn do_cook(data: &mut DataCollection, arg: &str, player: &mut Player, arg_type: ArgumentType, out: &mut Vec<Msg>)
    -> (res: Option<Question>)
    requires
        old(player).wf(),
        old(data).wf(),
        old(player).can_count(),
    ensures
        final(player).wf(),
        outcome_holds(*final(player), *final(data), final(out)@, *old(data), old(out)@,
            spec_manipulate(*old(player), *old(data), arg@, arg_type, ItemAction::Cook).0),
        ask_view(res) == spec_manipulate(*old(player), *old(data), arg@, arg_type, ItemAction::Cook).1,
{
    manipulate_item(data, arg, arg_type, player, ItemAction::Cook, out)
}

pub fn do_describe(data: &mut DataCollection, arg: &str, player: &mut Player, arg_type: ArgumentType, out: &mut Vec<Msg>)
    -> (res: Option<Question>)
    requires
        old(player).wf(),
        old(data).wf(),
        old(player).can_count(),
    ensures
        final(player).wf(),
        outcome_holds(*final(player), *final(data), final(out)@, *old(data), old(out)@,
            spec_manipulate(*old(player), *old(data), arg@, arg_type, ItemAction::Describe).0),
        ask_view(res) == spec_manipulate(*old(player), *old(data), arg@, arg_type, ItemAction::Describe).1,
{
    manipulate_item(data, arg, arg_type, player, ItemAction::Describe, out)
}

pub fn do_drink(data: &mut DataCollection, arg: &str, player: &mut Player, arg_type: ArgumentType, out: &mut Vec<Msg>)
    -> (res: Option<Question>)
    requires
        old(player).wf(),
        old(data).wf(),
        old(player).can_count(),
    ensures
        final(player).wf(),
        outcome_holds(*final(player), *final(data), final(out)@, *old(data), old(out)@,
            spec_manipulate(*old(player), *old(data), arg@, arg_type, ItemAction::Drink).0),
        ask_view(res) == spec_manipulate(*old(player), *old(data), arg@, arg_type, ItemAction::Drink).1,
{
    manipulate_item(data, arg, arg_type, player, ItemAction::Drink, out)
}

pub fn do_drop(data: &mut DataCollection, arg: &str, player: &mut Player, arg_type: ArgumentType, out: &mut Vec<Msg>)
    -> (res: Option<Question>)
    requires
        old(player).wf(),
        old(data).wf(),
        old(player).can_count(),
    ensures
        final(player).wf(),
        outcome_holds(*final(player), *final(data), final(out)@, *old(data), old(out)@,
            spec_manipulate(*old(player), *old(data), arg@, arg_type, ItemAction::Drop).0),
        ask_view(res) == spec_manipulate(*old(player), *old(data), arg@, arg_type, ItemAction::Drop).1,
{
    manipulate_item(data, arg, arg_type, player, ItemAction::Drop, out)
}

pub fn do_eat(data: &mut DataCollection, arg: &str, player: &mut Player, arg_type: ArgumentType, out: &mut Vec<Msg>)
    -> (res: Option<Question>)
    requires
        old(player).wf(),
        old(data).wf(),
        old(player).can_count(),
    ensures
        final(player).wf(),
        outcome_holds(*final(player), *final(data), final(out)@, *old(data), old(out)@,
            spec_manipulate(*old(player), *old(data), arg@, arg_type, ItemAction::Eat).0),
        ask_view(res) == spec_manipulate(*old(player), *old(data), arg@, arg_type, ItemAction::Eat).1,
{
    manipulate_item(data, arg, arg_type, player, ItemAction::Eat, out)
}

pub fn do_empty(data: &mut DataCollection, arg: &str, player: &mut Player, arg_type: ArgumentType, out: &mut Vec<Msg>)
    -> (res: Option<Question>)
    requires
        old(player).wf(),
        old(data).wf(),
        old(player).can_count(),
    ensures
        final(player).wf(),
        outcome_holds(*final(player), *final(data), final(out)@, *old(data), old(out)@,
            spec_manipulate(*old(player), *old(data), arg@, arg_type, ItemAction::Empty).0),
        ask_view(res) == spec_manipulate(*old(player), *old(data), arg@, arg_type, ItemAction::Empty).1,
{
    manipulate_item(data, arg, arg_type, player, ItemAction::Empty, out)
}

pub fn do_exchange(data: &mut DataCollection, arg: &str, player: &mut Player, arg_type: ArgumentType, out: &mut Vec<Msg>)
    -> (res: Option<Question>)
    requires
        old(player).wf(),
        old(data).wf(),
        old(player).can_count(),
    ensures
        final(player).wf(),
        outcome_holds(*final(player), *final(data), final(out)@, *old(data), old(out)@,
            spec_manipulate(*old(player), *old(data), arg@, arg_type, ItemAction::Exchange).0),
        ask_view(res) == spec_manipulate(*old(player), *old(data), arg@, arg_type, ItemAction::Exchange).1,
{
    manipulate_item(data, arg, arg_type, player, ItemAction::Exchange, out)
}

pub fn do_feed(data: &mut DataCollection, arg: &str, player: &mut Player, arg_type: ArgumentType, out: &mut Vec<Msg>)
    -> (res: Option<Question>)
    requires
        old(player).wf(),
        old(data).wf(),
        old(player).can_count(),
    ensures
        final(player).wf(),
        outcome_holds(*final(player), *final(data), final(out)@, *old(data), old(out)@,
            spec_manipulate(*old(player), *old(data), arg@, arg_type, ItemAction::Feed).0),
        ask_view(res) == spec_manipulate(*old(player), *old(data), arg@, arg_type, ItemAction::Feed).1,
{
    manipulate_item(data, arg, arg_type, player, ItemAction::Feed, out)
}

pub fn do_fly(data: &mut DataCollection, arg: &str, player: &mut Player, arg_type: ArgumentType, out: &mut Vec<Msg>)
    -> (res: Option<Question>)
    requires
        old(player).wf(),
        old(data).wf(),
        old(player).can_count(),
    ensures
        final(player).wf(),
        outcome_holds(*final(player), *final(data), final(out)@, *old(data), old(out)@,
            spec_manipulate(*old(player), *old(data), arg@, arg_type, ItemAction::Fly).0),
        ask_view(res) == spec_manipulate(*old(player), *old(data), arg@, arg_type, ItemAction::Fly).1,
{
    manipulate_item(data, arg, arg_type, player, ItemAction::Fly, out)
}

pub fn do_give(data: &mut DataCollection, arg: &str, player: &mut Player, arg_type: ArgumentType, out: &mut Vec<Msg>)
    -> (res: Option<Question>)
    requires
        old(player).wf(),
        old(data).wf(),
        old(player).can_count(),
    ensures
        final(player).wf(),
        outcome_holds(*final(player), *final(data), final(out)@, *old(data), old(out)@,
            spec_manipulate(*old(player), *old(data), arg@, arg_type, ItemAction::Give).0),
        ask_view(res) == spec_manipulate(*old(player), *old(data), arg@, arg_type, ItemAction::Give).1,
{
    manipulate_item(data, arg, arg_type, player, ItemAction::Give, out)
}

pub fn do_grab(data: &mut DataCollection, arg: &str, player: &mut Player, arg_type: ArgumentType, out: &mut Vec<Msg>)
    -> (res: Option<Question>)
    requires
        old(player).wf(),
        old(data).wf(),
        old(player).can_count(),
    ensures
        final(player).wf(),
        outcome_holds(*final(player), *final(data), final(out)@, *old(data), old(out)@,
            spec_manipulate(*old(player), *old(data), arg@, arg_type, ItemAction::Grab).0),
        ask_view(res) == spec_manipulate(*old(player), *old(data), arg@, arg_type, ItemAction::Grab).1,
{
    manipulate_item(data, arg, arg_type, player, ItemAction::Grab, out)
}

pub fn do_ignore(data: &mut DataCollection, arg: &str, player: &mut Player, arg_type: ArgumentType, out: &mut Vec<Msg>)
    -> (res: Option<Question>)
    requires
        old(player).wf(),
        old(data).wf(),
        old(player).can_count(),
    ensures
        final(player).wf(),
        outcome_holds(*final(player), *final(data), final(out)@, *old(data), old(out)@,
            spec_manipulate(*old(player), *old(data), arg@, arg_type, ItemAction::Ignore).0),
        ask_view(res) == spec_manipulate(*old(player), *old(data), arg@, arg_type, ItemAction::Ignore).1,
{
    manipulate_item(data, arg, arg_type, player, ItemAction::Ignore, out)
}

pub fn do_insert(data: &mut DataCollection, arg: &str, player: &mut Player, arg_type: ArgumentType, out: &mut Vec<Msg>)
    -> (res: Option<Question>)
    requires
        old(player).wf(),
        old(data).wf(),
        old(player).can_count(),
    ensures
        final(player).wf(),
        outcome_holds(*final(player), *final(data), final(out)@, *old(data), old(out)@,
            spec_manipulate(*old(player), *old(data), arg@, arg_type, ItemAction::Insert).0),
        ask_view(res) == spec_manipulate(*old(player), *old(data), arg@, arg_type, ItemAction::Insert).1,
{
    manipulate_item(data, arg, arg_type, player, ItemAction::Insert, out)
}

pub fn do_light(data: &mut DataCollection, arg: &str, player: &mut Player, arg_type: ArgumentType, out: &mut Vec<Msg>)
    -> (res: Option<Question>)
    requires
        old(player).wf(),
        old(data).wf(),
        old(player).can_count(),
    ensures
        final(player).wf(),
        outcome_holds(*final(player), *final(data), final(out)@, *old(data), old(out)@,
            spec_manipulate(*old(player), *old(data), arg@, arg_type, ItemAction::Light).0),
        ask_view(res) == spec_manipulate(*old(player), *old(data), arg@, arg_type, ItemAction::Light).1,
{
    manipulate_item(data, arg, arg_type, player, ItemAction::Light, out)
}

pub fn do_play(data: &mut DataCollection, arg: &str, player: &mut Player, arg_type: ArgumentType, out: &mut Vec<Msg>)
    -> (res: Option<Question>)
    requires
        old(player).wf(),
        old(data).wf(),
        old(player).can_count(),
    ensures
        final(player).wf(),
        outcome_holds(*final(player), *final(data), final(out)@, *old(data), old(out)@,
            spec_manipulate(*old(player), *old(data), arg@, arg_type, ItemAction::Play).0),
        ask_view(res) == spec_manipulate(*old(player), *old(data), arg@, arg_type, ItemAction::Play).1,
{
    manipulate_item(data, arg, arg_type, player, ItemAction::Play, out)
}

pub fn do_pour(data: &mut DataCollection, arg: &str, player: &mut Player, arg_type: ArgumentType, out: &mut Vec<Msg>)
    -> (res: Option<Question>)
    requires
        old(player).wf(),
        old(data).wf(),
        old(player).can_count(),
    ensures
        final(player).wf(),
        outcome_holds(*final(player), *final(data), final(out)@, *old(data), old(out)@,
            spec_manipulate(*old(player), *old(data), arg@, arg_type, ItemAction::Pour).0),
        ask_view(res) == spec_manipulate(*old(player), *old(data), arg@, arg_type, ItemAction::Pour).1,
{
    manipulate_item(data, arg, arg_type, player, ItemAction::Pour, out)
}

pub fn do_push(data: &mut DataCollection, arg: &str, player: &mut Player, arg_type: ArgumentType, out: &mut Vec<Msg>)
    -> (res: Option<Question>)
    requires
        old(player).wf(),
        old(data).wf(),
        old(player).can_count(),
    ensures
        final(player).wf(),
        outcome_holds(*final(player), *final(data), final(out)@, *old(data), old(out)@,
            spec_manipulate(*old(player), *old(data), arg@, arg_type, ItemAction::Push).0),
        ask_view(res) == spec_manipulate(*old(player), *old(data), arg@, arg_type, ItemAction::Push).1,
{
    manipulate_item(data, arg, arg_type, player, ItemAction::Push, out)
}

pub fn do_quench(data: &mut DataCollection, arg: &str, player: &mut Player, arg_type: ArgumentType, out: &mut Vec<Msg>)
    -> (res: Option<Question>)
    requires
        old(player).wf(),
        old(data).wf(),
        old(player).can_count(),
    ensures
        final(player).wf(),
        outcome_holds(*final(player), *final(data), final(out)@, *old(data), old(out)@,
            spec_manipulate(*old(player), *old(data), arg@, arg_type, ItemAction::Quench).0),
        ask_view(res) == spec_manipulate(*old(player), *old(data), arg@, arg_type, ItemAction::Quench).1,
{
    manipulate_item(data, arg, arg_type, player, ItemAction::Quench, out)
}

pub fn do_read(data: &mut DataCollection, arg: &str, player: &mut Player, arg_type: ArgumentType, out: &mut Vec<Msg>)
    -> (res: Option<Question>)
    requires
        old(player).wf(),
        old(data).wf(),
        old(player).can_count(),
    ensures
        final(player).wf(),
        outcome_holds(*final(player), *final(data), final(out)@, *old(data), old(out)@,
            spec_manipulate(*old(player), *old(data), arg@, arg_type, ItemAction::Read).0),
        ask_view(res) == spec_manipulate(*old(player), *old(data), arg@, arg_type, ItemAction::Read).1,
{
    manipulate_item(data, arg, arg_type, player, ItemAction::Read, out)
}

pub fn do_repair(data: &mut DataCollection, arg: &str, player: &mut Player, arg_type: ArgumentType, out: &mut Vec<Msg>)
    -> (res: Option<Question>)
    requires
        old(player).wf(),
        old(data).wf(),
        old(player).can_count(),
    ensures
        final(player).wf(),
        outcome_holds(*final(player), *final(data), final(out)@, *old(data), old(out)@,
            spec_manipulate(*old(player), *old(data), arg@, arg_type, ItemAction::Repair).0),
        ask_view(res) == spec_manipulate(*old(player), *old(data), arg@, arg_type, ItemAction::Repair).1,
{
    manipulate_item(data, arg, arg_type, player, ItemAction::Repair, out)
}

pub fn do_rob(data: &mut DataCollection, arg: &str, player: &mut Player, arg_type: ArgumentType, out: &mut Vec<Msg>)
    -> (res: Option<Question>)
    requires
        old(player).wf(),
        old(data).wf(),
        old(player).can_count(),
    ensures
        final(player).wf(),
        outcome_holds(*final(player), *final(data), final(out)@, *old(data), old(out)@,
            spec_manipulate(*old(player), *old(data), arg@, arg_type, ItemAction::Rob).0),
        ask_view(res) == spec_manipulate(*old(player), *old(data), arg@, arg_type, ItemAction::Rob).1,
{
    manipulate_item(data, arg, arg_type, player, ItemAction::Rob, out)
}

pub fn do_roll(data: &mut DataCollection, arg: &str, player: &mut Player, arg_type: ArgumentType, out: &mut Vec<Msg>)
    -> (res: Option<Question>)
    requires
        old(player).wf(),
        old(data).wf(),
        old(player).can_count(),
    ensures
        final(player).wf(),
        outcome_holds(*final(player), *final(data), final(out)@, *old(data), old(out)@,
            spec_manipulate(*old(player), *old(data), arg@, arg_type, ItemAction::Roll).0),
        ask_view(res) == spec_manipulate(*old(player), *old(data), arg@, arg_type, ItemAction::Roll).1,
{
    manipulate_item(data, arg, arg_type, player, ItemAction::Roll, out)
}

pub fn do_rub(data: &mut DataCollection, arg: &str, player: &mut Player, arg_type: ArgumentType, out: &mut Vec<Msg>)
    -> (res: Option<Question>)
    requires
        old(player).wf(),
        old(data).wf(),
        old(player).can_count(),
    ensures
        final(player).wf(),
        outcome_holds(*final(player), *final(data), final(out)@, *old(data), old(out)@,
            spec_manipulate(*old(player), *old(data), arg@, arg_type, ItemAction::Rub).0),
        ask_view(res) == spec_manipulate(*old(player), *old(data), arg@, arg_type, ItemAction::Rub).1,
{
    manipulate_item(data, arg, arg_type, player, ItemAction::Rub, out)
}

pub fn do_take(data: &mut DataCollection, arg: &str, player: &mut Player, arg_type: ArgumentType, out: &mut Vec<Msg>)
    -> (res: Option<Question>)
    requires
        old(player).wf(),
        old(data).wf(),
        old(player).can_count(),
    ensures
        final(player).wf(),
        outcome_holds(*final(player), *final(data), final(out)@, *old(data), old(out)@,
            spec_manipulate(*old(player), *old(data), arg@, arg_type, ItemAction::Take).0),
        ask_view(res) == spec_manipulate(*old(player), *old(data), arg@, arg_type, ItemAction::Take).1,
{
    manipulate_item(data, arg, arg_type, player, ItemAction::Take, out)
}

pub fn do_tether(data: &mut DataCollection, arg: &str, player: &mut Player, arg_type: ArgumentType, out: &mut Vec<Msg>)
    -> (res: Option<Question>)
    requires
        old(player).wf(),
        old(data).wf(),
        old(player).can_count(),
    ensures
        final(player).wf(),
        outcome_holds(*final(player), *final(data), final(out)@, *old(data), old(out)@,
            spec_manipulate(*old(player), *old(data), arg@, arg_type, ItemAction::Tether).0),
        ask_view(res) == spec_manipulate(*old(player), *old(data), arg@, arg_type, ItemAction::Tether).1,
{
    manipulate_item(data, arg, arg_type, player, ItemAction::Tether, out)
}

pub fn do_throw(data: &mut DataCollection, arg: &str, player: &mut Player, arg_type: ArgumentType, out: &mut Vec<Msg>)
    -> (res: Option<Question>)
    requires
        old(player).wf(),
        old(data).wf(),
        old(player).can_count(),
    ensures
        final(player).wf(),
        outcome_holds(*final(player), *final(data), final(out)@, *old(data), old(out)@,
            spec_manipulate(*old(player), *old(data), arg@, arg_type, ItemAction::Throw).0),
        ask_view(res) == spec_manipulate(*old(player), *old(data), arg@, arg_type, ItemAction::Throw).1,
{
    manipulate_item(data, arg, arg_type, player, ItemAction::Throw, out)
}

/// Climbing needs a direction: up or down.
pub fn do_climb(data: &mut DataCollection, _arg: &str, player: &mut Player, _arg_type: ArgumentType, out: &mut Vec<Msg>)
    requires
        old(player).wf(),
        old(data).wf(),
    ensures
        final(player).wf(),
        outcome_holds(*final(player), *final(data), final(out)@, *old(data), old(out)@,
            old(player).respond(old(data).world(), constants::STR_ID_DISAMBIGUATE_CLIMB)),
{
    out.push(Msg::Response(constants::STR_ID_DISAMBIGUATE_CLIMB));
}

/// Going needs a direction.
pub fn do_go_disambiguate(data: &mut DataCollection, _arg: &str, player: &mut Player, _arg_type: ArgumentType, out: &mut Vec<Msg>)
    requires
        old(player).wf(),
        old(data).wf(),
    ensures
        final(player).wf(),
        outcome_holds(*final(player), *final(data), final(out)@, *old(data), old(out)@,
            old(player).respond(old(data).world(), constants::STR_ID_DISAMBIGUATE_GO)),
{
    out.push(Msg::Response(constants::STR_ID_DISAMBIGUATE_GO));
}

/// An old magic word, which echoes hollowly.
pub fn do_plugh(data: &mut DataCollection, _arg: &str, player: &mut Player, _arg_type: ArgumentType, out: &mut Vec<Msg>)
    requires
        old(player).wf(),
        old(data).wf(),
    ensures
        final(player).wf(),
        outcome_holds(*final(player), *final(data), final(out)@, *old(data), old(out)@,
            old(player).respond(old(data).world(), constants::STR_ID_HOLLOW)),
{
    out.push(Msg::Response(constants::STR_ID_HOLLOW));
}

/// The player cannot swim.
pub fn do_swim(data: &mut DataCollection, _arg: &str, player: &mut Player, _arg_type: ArgumentType, out: &mut Vec<Msg>)
    requires
        old(player).wf(),
        old(data).wf(),
    ensures
        final(player).wf(),
        outcome_holds(*final(player), *final(data), final(out)@, *old(data), old(out)@,
            old(player).respond(old(data).world(), constants::STR_ID_NO_KNOW_HOW)),
{
    out.push(Msg::Response(constants::STR_ID_NO_KNOW_HOW));
}

/// Watering needs to be said as pouring.
pub fn do_water(data: &mut DataCollection, _arg: &str, player: &mut Player, _arg_type: ArgumentType, out: &mut Vec<Msg>)
    requires
        old(player).wf(),
        old(data).wf(),
    ensures
        final(player).wf(),
        outcome_holds(*final(player), *final(data), final(out)@, *old(data), old(out)@,
            old(player).respond(old(data).world(), constants::STR_ID_DISAMBIGUATE_WATER)),
{
    out.push(Msg::Response(constants::STR_ID_DISAMBIGUATE_WATER));
}

/// Another old magic word, which does nothing.
pub fn do_xyzzy(data: &mut DataCollection, _arg: &str, player: &mut Player, _arg_type: ArgumentType, out: &mut Vec<Msg>)
    requires
        old(player).wf(),
        old(data).wf(),
    ensures
        final(player).wf(),
        outcome_holds(*final(player), *final(data), final(out)@, *old(data), old(out)@,
            old(player).respond(old(data).world(), constants::STR_ID_OK)),
{
    out.push(Msg::Response(constants::STR_ID_OK));
}

/// Calling for the acorn.
pub fn do_acorn(data: &mut DataCollection, _arg: &str, player: &mut Player, _arg_type: ArgumentType, out: &mut Vec<Msg>)
    requires
        old(player).wf(),
        old(data).wf(),
        old(player).can_count(),
    ensures
        final(player).wf(),
        outcome_holds(*final(player), *final(data), final(out)@, *old(data), old(out)@,
            old(player).spec_acorn(old(data).world())),
{
    player.acorn(data, out);
}

/// Calling the tooth fairy.
pub fn do_fairy(data: &mut DataCollection, _arg: &str, player: &mut Player, _arg_type: ArgumentType, out: &mut Vec<Msg>)
    requires
        old(player).wf(),
        old(data).wf(),
        old(player).can_count(),
    ensures
        final(player).wf(),
        outcome_holds(*final(player), *final(data), final(out)@, *old(data), old(out)@,
            old(player).spec_fairy(old(data).world())),
{
    player.fairy(data, out);
}

/// Fishing.
pub fn do_fish(data: &mut DataCollection, _arg: &str, player: &mut Player, _arg_type: ArgumentType, out: &mut Vec<Msg>)
    requires
        old(player).wf(),
        old(data).wf(),
        old(player).can_count(),
    ensures
        final(player).wf(),
        outcome_holds(*final(player), *final(data), final(out)@, *old(data), old(out)@,
            old(player).spec_fish(old(data).world())),
{
    player.fish(data, out);
}

/// Knitting.
pub fn do_knit(data: &mut DataCollection, _arg: &str, player: &mut Player, _arg_type: ArgumentType, out: &mut Vec<Msg>)
    requires
        old(player).wf(),
        old(data).wf(),
        old(player).can_count(),
    ensures
        final(player).wf(),
        outcome_holds(*final(player), *final(data), final(out)@, *old(data), old(out)@,
            old(player).spec_knit(old(data).world())),
{
    player.knit(data, out);
}

/// Calling the robot.
pub fn do_robot(data: &mut DataCollection, _arg: &str, player: &mut Player, _arg_type: ArgumentType, out: &mut Vec<Msg>)
    requires
        old(player).wf(),
        old(data).wf(),
        old(player).can_count(),
    ensures
        final(player).wf(),
        outcome_holds(*final(player), *final(data), final(out)@, *old(data), old(out)@,
            old(player).spec_robot(old(data).world())),
{
    player.robot(data, out);
}

/// Staring.
pub fn do_stare(data: &mut DataCollection, _arg: &str, player: &mut Player, _arg_type: ArgumentType, out: &mut Vec<Msg>)
    requires
        old(player).wf(),
        old(data).wf(),
    ensures
        final(player).wf(),
        outcome_holds(*final(player), *final(data), final(out)@, *old(data), old(out)@,
            old(player).spec_stare(old(data).world())),
{
    player.stare(data, out);
}

/// Calling the wizard.
pub fn do_wizard(data: &mut DataCollection, _arg: &str, player: &mut Player, _arg_type: ArgumentType, out: &mut Vec<Msg>)
    requires
        old(player).wf(),
        old(data).wf(),
        old(player).can_count(),
    ensures
        final(player).wf(),
        outcome_holds(*final(player), *final(data), final(out)@, *old(data), old(out)@,
            old(player).spec_wizard(old(data).world())),
{
    player.wizard(data, out);
}

/// The list of commands.
pub fn do_commands(data: &mut DataCollection, _arg: &str, player: &mut Player, _arg_type: ArgumentType, out: &mut Vec<Msg>)
    requires
        old(player).wf(),
        old(data).wf(),
    ensures
        final(player).wf(),
        outcome_holds(*final(player), *final(data), final(out)@, *old(data), old(out)@,
            old(player).said(old(data).world(), MsgV::Text(old(data).response(constants::STR_ID_COMMANDS_INTRO) + "\n"@
                + old(data).commands.non_secret_listing()))),
{
    let text = data.get_commands_non_secret();
    out.push(Msg::Text(text));
}

/// Sleeping, which in the right place leads to a dream.
pub fn do_sleep(data: &mut DataCollection, _arg: &str, player: &mut Player, _arg_type: ArgumentType, out: &mut Vec<Msg>)
    requires
        old(player).wf(),
        old(data).wf(),
    ensures
        final(player).wf(),
        outcome_holds(*final(player), *final(data), final(out)@, *old(data), old(out)@,
            old(player).spec_teleport(old(data).world(), old(data).tp_map_sleep@, constants::STR_ID_NO_SLEEP, constants::STR_ID_SLEEP)),
{
    player.sleep(data, out);
}

/// Saying the witch's word, which in the right place carries the player off.
pub fn do_tezazzle(data: &mut DataCollection, _arg: &str, player: &mut Player, _arg_type: ArgumentType, out: &mut Vec<Msg>)
    requires
        old(player).wf(),
        old(data).wf(),
    ensures
        final(player).wf(),
        outcome_holds(*final(player), *final(data), final(out)@, *old(data), old(out)@,
            old(player).spec_teleport(old(data).world(), old(data).tp_map_witch@, constants::STR_ID_NOTHING_HAPPENS,
                constants::STR_ID_WITCHED)),
{
    player.tezazzle(data, out);
}

/// Saying `arg`.
pub fn do_say(data: &mut DataCollection, arg: &str, player: &mut Player, _arg_type: ArgumentType, out: &mut Vec<Msg>)
    requires
        old(player).wf(),
        old(data).wf(),
        old(player).can_count(),
    ensures
        final(player).wf(),
        outcome_holds(*final(player), *final(data), final(out)@, *old(data), old(out)@,
            old(player).spec_say(old(data).world(), *old(data), arg@)),
{
    player.say(data, arg, out);
}

/// The explanation of `arg`, or the default one.
pub fn do_explain(data: &mut DataCollection, arg: &str, player: &mut Player, _arg_type: ArgumentType, out: &mut Vec<Msg>)
    requires
        old(player).wf(),
        old(data).wf(),
    ensures
        final(player).wf(),
        outcome_holds(*final(player), *final(data), final(out)@, *old(data), old(out)@,
            old(player).said(old(data).world(), MsgV::Text(match old(data).explanations.spec_get(arg@) {
                None => old(data).explanations.spec_get(constants::STR_DEFAULT@).unwrap()@,
                Some(e) => e@,
            }))),
{
    let text = data.get_explanation(arg).to_owned();
    out.push(Msg::Text(text));
}

/// What the player carries.
pub fn do_inventory(data: &mut DataCollection, _arg: &str, player: &mut Player, _arg_type: ArgumentType, out: &mut Vec<Msg>)
    requires
        old(player).wf(),
        old(data).wf(),
    ensures
        final(player).wf(),
        outcome_holds(*final(player), *final(data), final(out)@, *old(data), old(out)@,
            old(player).said(old(data).world(), MsgV::Text(old(player).spec_inventory_string(*old(data))))),
{
    let text = player.mk_inventory_string(data);
    out.push(Msg::Text(text));
}

/// The id of the player's location (a debugging aid).
pub fn do_node(data: &mut DataCollection, _arg: &str, player: &mut Player, _arg_type: ArgumentType, out: &mut Vec<Msg>)
    requires
        old(player).wf(),
        old(data).wf(),
    ensures
        final(player).wf(),
        outcome_holds(*final(player), *final(data), final(out)@, *old(data), old(out)@,
            old(player).said(old(data).world(), MsgV::Text(crate::text::subst(old(data).response(constants::STR_ID_NODE),
                decimal(old(player).location as nat))))),
{
    let text = player.get_node(data);
    out.push(Msg::Text(text));
}

/// Looking around; looking at something needs to be said as describing it.
pub open spec fn spec_look(p: Player, d: DataCollection, arg: Seq<char>) -> Outcome {
    let w = d.world();
    if arg.len() != 0 {
        p.respond(w, constants::STR_ID_DISAMBIGUATE_LOOK)
    } else {
        let w1 = w.set_visited(p.location, true);
        Outcome { player: p, world: w1, msgs: seq![MsgV::Text(p.spec_appearance(d, w1, p.spec_location_string(d, w1)))] }
    }
}

pub fn do_look(data: &mut DataCollection, arg: &str, player: &mut Player, _arg_type: ArgumentType, out: &mut Vec<Msg>)
    requires
        old(player).wf(),
        old(data).wf(),
    ensures
        final(player).wf(),
        outcome_holds(*final(player), *final(data), final(out)@, *old(data), old(out)@, spec_look(*old(player), *old(data), arg@)),
{
    if !arg.is_empty() {
        out.push(Msg::Response(constants::STR_ID_DISAMBIGUATE_LOOK));
    } else {
        let text = player.get_look(data);
        out.push(Msg::Text(text));
    }
}

/// Going in the direction named `arg`, with a risky move fatal on a random roll.
pub fn do_go(data: &mut DataCollection, arg: &str, player: &mut Player, _arg_type: ArgumentType, out: &mut Vec<Msg>)
    requires
        old(player).wf(),
        old(data).wf(),
        old(player).can_count(),
        old(data).commands.spec_direction(arg@) is Some,
    ensures
        final(player).wf(),
        exists|death_rand: u32| outcome_holds(*final(player), *final(data), final(out)@, *old(data), old(out)@,
            old(player).spec_go(*old(data), old(data).commands.spec_direction(arg@).unwrap(), death_rand)),
{
    let dir = data.get_direction_enum(arg);
    player.go(data, dir, out);
}

/// Asking for help, which does not count as an instruction.
pub fn do_help(data: &mut DataCollection, _arg: &str, player: &mut Player, _arg_type: ArgumentType, out: &mut Vec<Msg>)
    requires
        old(player).wf(),
        old(data).wf(),
        old(player).instructions > 0,
    ensures
        final(player).wf(),
        outcome_holds(*final(player), *final(data), final(out)@, *old(data), old(out)@,
            Player { instructions: (old(player).instructions - 1) as u32, ..*old(player) }.respond(old(data).world(),
                constants::STR_ID_WELCOME)),
{
    player.decrement_instructions();
    out.push(Msg::Response(constants::STR_ID_WELCOME));
}

/// Asking for the score, which does not count as an instruction.
pub fn do_score(data: &mut DataCollection, _arg: &str, player: &mut Player, _arg_type: ArgumentType, out: &mut Vec<Msg>)
    requires
        old(player).wf(),
        old(data).wf(),
        old(player).instructions > 0,
        score_in_range(old(data).stowed_treasures(), old(player).achievement_count as nat, old(player).deaths as nat,
            old(player).hints as nat),
    ensures
        final(player).wf(),
        ({
            let p1 = Player { instructions: (old(player).instructions - 1) as u32, ..*old(player) };
            outcome_holds(*final(player), *final(data), final(out)@, *old(data), old(out)@,
                p1.said(old(data).world(), MsgV::Text(p1.spec_score_str(*old(data), constants::STR_ID_SCORE_CURRENT))))
        }),
{
    player.decrement_instructions();
    let text = player.get_score_str(data, constants::STR_ID_SCORE_CURRENT);
    out.push(Msg::Text(text));
}

/// Asking for a hint on `arg`: with none, the default hint is given; with
/// one, the player is told there is one and asked whether they are sure.
pub open spec fn spec_hint(p: Player, d: DataCollection, arg: Seq<char>) -> (Outcome, Option<QuestionV>) {
    match d.hints.spec_get(arg) {
        None => (p.said(d.world(), MsgV::Text(d.hints.spec_get(constants::STR_DEFAULT@).unwrap()@)), None),
        Some(h) => (p.respond(d.world(), constants::STR_ID_HINT_FOUND),
            Some(QuestionV { prompt: MsgV::Response(constants::STR_ID_SURE_ASK), pending: Pending::Hint })),
    }
}

pub fn do_hint(data: &mut DataCollection, arg: &str, player: &mut Player, _arg_type: ArgumentType, out: &mut Vec<Msg>)
    -> (res: Option<Question>)
    requires
        old(player).wf(),
        old(data).wf(),
    ensures
        final(player).wf(),
        outcome_holds(*final(player), *final(data), final(out)@, *old(data), old(out)@, spec_hint(*old(player), *old(data), arg@).0),
        ask_view(res) == spec_hint(*old(player), *old(data), arg@).1,
{
    match data.get_hint(arg) {
        None => {
            let text = data.get_hint_certain(constants::STR_DEFAULT).to_owned();
            out.push(Msg::Text(text));
            None
        },
        Some(_) => {
            out.push(Msg::Response(constants::STR_ID_HINT_FOUND));
            Some(Question { prompt: Msg::Response(constants::STR_ID_SURE_ASK), pending: Pending::Hint })
        },
    }
}

/// The answer to whether the player is sure to take the hint on `arg`:
/// if so, the hint is given and counted.
pub fn hint_answer(data: &mut DataCollection, arg: &str, player: &mut Player, confirm: bool, out: &mut Vec<Msg>)
    requires
        old(player).wf(),
        old(data).wf(),
        old(data).hints.spec_get(arg@) is Some,
        old(player).hints < u32::MAX,
    ensures
        final(player).wf(),
        outcome_holds(*final(player), *final(data), final(out)@, *old(data), old(out)@,
            if confirm {
                Player { hints: (old(player).hints + 1) as u32, ..*old(player) }.said(old(data).world(),
                    MsgV::Text(old(data).hints.spec_get(arg@).unwrap()@))
            } else {
                old(player).respond(old(data).world(), constants::STR_ID_OK)
            }),
{
    if confirm {
        let text = data.get_hint_certain(arg).to_owned();
        out.push(Msg::Text(text));
        player.increment_hints();
    } else {
        out.push(Msg::Response(constants::STR_ID_OK));
    }
}

/// Quitting, which does not count as an instruction: the player is asked whether they are sure.
pub fn do_quit(data: &mut DataCollection, _arg: &str, player: &mut Player, _arg_type: ArgumentType, out: &mut Vec<Msg>)
    -> (res: Option<Question>)
    requires
        old(player).wf(),
        old(data).wf(),
        old(player).instructions > 0,
    ensures
        final(player).wf(),
        outcome_holds(*final(player), *final(data), final(out)@, *old(data), old(out)@,
            Player { instructions: (old(player).instructions - 1) as u32, ..*old(player) }.quiet(old(data).world())),
        ask_view(res) == Some(QuestionV { prompt: MsgV::Response(constants::STR_ID_SURE_ASK), pending: Pending::Quit }),
{
    player.decrement_instructions();
    assert(msgs_view(out@) =~= msgs_view(old(out)@) + Seq::<MsgV>::empty());
    Some(Question { prompt: Msg::Response(constants::STR_ID_SURE_ASK), pending: Pending::Quit })
}

/// The answer to whether the player is sure to quit: if so, the game ends.
pub fn quit_answer(data: &mut DataCollection, player: &mut Player, confirm: bool, out: &mut Vec<Msg>)
    requires
        old(player).wf(),
        old(data).wf(),
    ensures
        final(player).wf(),
        outcome_holds(*final(player), *final(data), final(out)@, *old(data), old(out)@,
            if confirm {
                Player { playing: false, ..*old(player) }.quiet(old(data).world())
            } else {
                old(player).respond(old(data).world(), constants::STR_ID_OK)
            }),
{
    if confirm {
        player.set_playing(false);
        assert(msgs_view(out@) =~= msgs_view(old(out)@) + Seq::<MsgV>::empty());
    } else {
        out.push(Msg::Response(constants::STR_ID_OK));
    }
}

/// Flashing to the location numbered `arg` (a debugging aid).
pub open spec fn spec_flash_to(p: Player, d: DataCollection, arg: Seq<char>) -> Outcome {
    let w = d.world();
    match parse_u32(arg, 10) {
        Err(_) => p.respond(w, constants::STR_ID_INVALID_NUMBER),
        Ok(id) => if valid_location_id(id) {
            Player { location: id, previous: None, ..p }.said(w, MsgV::Text(w.loc(id).spec_arrival_string(w.items,
                d.response(constants::STR_ID_YOU_ARE), d.response(constants::STR_ID_HOT))))
        } else {
            p.said(w, MsgV::ResponseParam(constants::STR_ID_INVALID_LOCATION, decimal(id as nat)))
        },
    }
}

pub fn flash_answer(data: &mut DataCollection, arg: &str, player: &mut Player, out: &mut Vec<Msg>)
    requires
        old(player).wf(),
        old(data).wf(),
    ensures
        final(player).wf(),
        outcome_holds(*final(player), *final(data), final(out)@, *old(data), old(out)@, spec_flash_to(*old(player), *old(data), arg@)),
{
    match str_to_u32(arg, 10) {
        Err(_) => out.push(Msg::Response(constants::STR_ID_INVALID_NUMBER)),
        Ok(next_id) => {
            proof {
                data.lemma_wf_sizes();
            }
            match data.get_location(next_id) {
                None => {
                    let id = u32_to_string(next_id);
                    out.push(Msg::ResponseParam(constants::STR_ID_INVALID_LOCATION, id));
                },
                Some(_) => player.flash(data, next_id, out),
            }
        },
    }
}

/// Flashing to a location (a debugging aid): without a number, the player is asked where.
pub fn do_flash(data: &mut DataCollection, arg: &str, player: &mut Player, _arg_type: ArgumentType, out: &mut Vec<Msg>)
    -> (res: Option<Question>)
    requires
        old(player).wf(),
        old(data).wf(),
    ensures
        final(player).wf(),
        arg@.len() == 0 ==> outcome_holds(*final(player), *final(data), final(out)@, *old(data), old(out)@,
            old(player).quiet(old(data).world())) && ask_view(res) == Some(QuestionV {
                prompt: MsgV::Response(constants::STR_ID_WHERE_FLASH),
                pending: Pending::Flash,
            }),
        arg@.len() != 0 ==> outcome_holds(*final(player), *final(data), final(out)@, *old(data), old(out)@,
            spec_flash_to(*old(player), *old(data), arg@)) && res is None,
{
    if arg.is_empty() {
        assert(msgs_view(out@) =~= msgs_view(old(out)@) + Seq::<MsgV>::empty());
        return Some(Question { prompt: Msg::Response(constants::STR_ID_WHERE_FLASH), pending: Pending::Flash });
    }
    flash_answer(data, arg, player, out);
    None
}

/// The action on an item that the command tagged `tag` performs, if it acts on an item.
pub open spec fn item_action_of(tag: CommandId) -> Option<ItemAction> {
    if tag == constants::COMMAND_ID_ATTACK {
        Some(ItemAction::Attack)
    } else if tag == constants::COMMAND_ID_BURN {
        Some(ItemAction::Burn)
    } else if tag == constants::COMMAND_ID_CALL {
        Some(ItemAction::Call)
    } else if tag == constants::COMMAND_ID_COOK {
        Some(ItemAction::Cook)
    } else if tag == constants::COMMAND_ID_DESCRIBE {
        Some(ItemAction::Describe)
    } else if tag == constants::COMMAND_ID_DRINK {
        Some(ItemAction::Drink)
    } else if tag == constants::COMMAND_ID_DROP {
        Some(ItemAction::Drop)
    } else if tag == constants::COMMAND_ID_EAT {
        Some(ItemAction::Eat)
    } else if tag == constants::COMMAND_ID_EMPTY {
        Some(ItemAction::Empty)
    } else if tag == constants::COMMAND_ID_EXCHANGE {
        Some(ItemAction::Exchange)
    } else if tag == constants::COMMAND_ID_FEED {
        Some(ItemAction::Feed)
    } else if tag == constants::COMMAND_ID_FLY {
        Some(ItemAction::Fly)
    } else if tag == constants::COMMAND_ID_GIVE {
        Some(ItemAction::Give)
    } else if tag == constants::COMMAND_ID_GRAB {
        Some(ItemAction::Grab)
    } else if tag == constants::COMMAND_ID_IGNORE {
        Some(ItemAction::Ignore)
    } else if tag == constants::COMMAND_ID_INSERT {
        Some(ItemAction::Insert)
    } else if tag == constants::COMMAND_ID_LIGHT {
        Some(ItemAction::Light)
    } else if tag == constants::COMMAND_ID_PLAY {
        Some(ItemAction::Play)
    } else if tag == constants::COMMAND_ID_POUR {
        Some(ItemAction::Pour)
    } else if tag == constants::COMMAND_ID_PUSH {
        Some(ItemAction::Push)
    } else if tag == constants::COMMAND_ID_QUENCH {
        Some(ItemAction::Quench)
    } else if tag == constants::COMMAND_ID_READ {
        Some(ItemAction::Read)
    } else if tag == constants::COMMAND_ID_REPAIR {
        Some(ItemAction::Repair)
    } else if tag == constants::COMMAND_ID_ROB {
        Some(ItemAction::Rob)
    } else if tag == constants::COMMAND_ID_ROLL {
        Some(ItemAction::Roll)
    } else if tag == constants::COMMAND_ID_RUB {
        Some(ItemAction::Rub)
    } else if tag == constants::COMMAND_ID_TAKE {
        Some(ItemAction::Take)
    } else if tag == constants::COMMAND_ID_TETHER {
        Some(ItemAction::Tether)
    } else if tag == constants::COMMAND_ID_THROW {
        Some(ItemAction::Throw)
    } else {
        None
    }
}

fn action_for_tag(tag: CommandId) -> (res: Option<ItemAction>)
    ensures
        res == item_action_of(tag),
{
    if tag == constants::COMMAND_ID_ATTACK {
        Some(ItemAction::Attack)
    } else if tag == constants::COMMAND_ID_BURN {
        Some(ItemAction::Burn)
    } else if tag == constants::COMMAND_ID_CALL {
        Some(ItemAction::Call)
    } else if tag == constants::COMMAND_ID_COOK {
        Some(ItemAction::Cook)
    } else if tag == constants::COMMAND_ID_DESCRIBE {
        Some(ItemAction::Describe)
    } else if tag == constants::COMMAND_ID_DRINK {
        Some(ItemAction::Drink)
    } else if tag == constants::COMMAND_ID_DROP {
        Some(ItemAction::Drop)
    } else if tag == constants::COMMAND_ID_EAT {
        Some(ItemAction::Eat)
    } else if tag == constants::COMMAND_ID_EMPTY {
        Some(ItemAction::Empty)
    } else if tag == constants::COMMAND_ID_EXCHANGE {
        Some(ItemAction::Exchange)
    } else if tag == constants::COMMAND_ID_FEED {
        Some(ItemAction::Feed)
    } else if tag == constants::COMMAND_ID_FLY {
        Some(ItemAction::Fly)
    } else if tag == constants::COMMAND_ID_GIVE {
        Some(ItemAction::Give)
    } else if tag == constants::COMMAND_ID_GRAB {
        Some(ItemAction::Grab)
    } else if tag == constants::COMMAND_ID_IGNORE {
        Some(ItemAction::Ignore)
    } else if tag == constants::COMMAND_ID_INSERT {
        Some(ItemAction::Insert)
    } else if tag == constants::COMMAND_ID_LIGHT {
        Some(ItemAction::Light)
    } else if tag == constants::COMMAND_ID_PLAY {
        Some(ItemAction::Play)
    } else if tag == constants::COMMAND_ID_POUR {
        Some(ItemAction::Pour)
    } else if tag == constants::COMMAND_ID_PUSH {
        Some(ItemAction::Push)
    } else if tag == constants::COMMAND_ID_QUENCH {
        Some(ItemAction::Quench)
    } else if tag == constants::COMMAND_ID_READ {
        Some(ItemAction::Read)
    } else if tag == constants::COMMAND_ID_REPAIR {
        Some(ItemAction::Repair)
    } else if tag == constants::COMMAND_ID_ROB {
        Some(ItemAction::Rob)
    } else if tag == constants::COMMAND_ID_ROLL {
        Some(ItemAction::Roll)
    } else if tag == constants::COMMAND_ID_RUB {
        Some(ItemAction::Rub)
    } else if tag == constants::COMMAND_ID_TAKE {
        Some(ItemAction::Take)
    } else if tag == constants::COMMAND_ID_TETHER {
        Some(ItemAction::Tether)
    } else if tag == constants::COMMAND_ID_THROW {
        Some(ItemAction::Throw)
    } else {
        None
    }
}

/// What the command tagged `tag` does, among the player's own actions without an item.
pub open spec fn spec_perform_calls(tag: CommandId, p: Player, d: DataCollection, arg: Seq<char>) -> (Outcome, Option<QuestionV>) {
    let w = d.world();
    if tag == constants::COMMAND_ID_ACORN {
        (p.spec_acorn(w), None)
    } else if tag == constants::COMMAND_ID_FAIRY {
        (p.spec_fairy(w), None)
    } else if tag == constants::COMMAND_ID_FISH {
        (p.spec_fish(w), None)
    } else if tag == constants::COMMAND_ID_KNIT {
        (p.spec_knit(w), None)
    } else if tag == constants::COMMAND_ID_ROBOT {
        (p.spec_robot(w), None)
    } else if tag == constants::COMMAND_ID_STARE {
        (p.spec_stare(w), None)
    } else if tag == constants::COMMAND_ID_WIZARD {
        (p.spec_wizard(w), None)
    } else if tag == constants::COMMAND_ID_SLEEP {
        (p.spec_teleport(w, d.tp_map_sleep@, constants::STR_ID_NO_SLEEP, constants::STR_ID_SLEEP), None)
    } else if tag == constants::COMMAND_ID_TEZAZZLE {
        (p.spec_teleport(w, d.tp_map_witch@, constants::STR_ID_NOTHING_HAPPENS, constants::STR_ID_WITCHED), None)
    } else {
        (p.spec_say(w, d, arg), None)
    }
}

fn perform_calls(tag: CommandId, data: &mut DataCollection, arg: &str, player: &mut Player, arg_type: ArgumentType,
    out: &mut Vec<Msg>) -> (res: Option<Question>)
    requires
        old(player).wf(),
        old(data).wf(),
        old(player).can_count(),
        tag == constants::COMMAND_ID_HELP || tag == constants::COMMAND_ID_SCORE || tag == constants::COMMAND_ID_QUIT
            ==> old(player).instructions > 0,
        tag == constants::COMMAND_ID_SCORE ==> score_in_range(old(data).stowed_treasures(), old(player).achievement_count as nat,
            old(player).deaths as nat, old(player).hints as nat),
    ensures
        final(player).wf(),
        outcome_holds(*final(player), *final(data), final(out)@, *old(data), old(out)@, spec_perform_calls(tag, *old(player), *old(data), arg@).0),
        ask_view(res) == spec_perform_calls(tag, *old(player), *old(data), arg@).1,
{
    if tag == constants::COMMAND_ID_ACORN {
        {
            do_acorn(data, arg, player, arg_type, out);
            None
        }
    } else if tag == constants::COMMAND_ID_FAIRY {
        {
            do_fairy(data, arg, player, arg_type, out);
            None
        }
    } else if tag == constants::COMMAND_ID_FISH {
        {
            do_fish(data, arg, player, arg_type, out);
            None
        }
    } else if tag == constants::COMMAND_ID_KNIT {
        {
            do_knit(data, arg, player, arg_type, out);
            None
        }
    } else if tag == constants::COMMAND_ID_ROBOT {
        {
            do_robot(data, arg, player, arg_type, out);
            None
        }
    } else if tag == constants::COMMAND_ID_STARE {
        {
            do_stare(data, arg, player, arg_type, out);
            None
        }
    } else if tag == constants::COMMAND_ID_WIZARD {
        {
            do_wizard(data, arg, player, arg_type, out);
            None
        }
    } else if tag == constants::COMMAND_ID_SLEEP {
        {
            do_sleep(data, arg, player, arg_type, out);
            None
        }
    } else if tag == constants::COMMAND_ID_TEZAZZLE {
        {
            do_tezazzle(data, arg, player, arg_type, out);
            None
        }
    } else {
        {
            do_say(data, arg, player, arg_type, out);
            None
        }
    }
}

/// What the command tagged `tag` does, among the texts the player asks for.
pub open spec fn spec_perform_texts(tag: CommandId, p: Player, d: DataCollection, arg: Seq<char>) -> (Outcome, Option<QuestionV>) {
    let w = d.world();
    if tag == constants::COMMAND_ID_CLIMB {
        (p.respond(w, constants::STR_ID_DISAMBIGUATE_CLIMB), None)
    } else if tag == constants::COMMAND_ID_GO {
        (p.respond(w, constants::STR_ID_DISAMBIGUATE_GO), None)
    } else if tag == constants::COMMAND_ID_PLUGH {
        (p.respond(w, constants::STR_ID_HOLLOW), None)
    } else if tag == constants::COMMAND_ID_SWIM {
        (p.respond(w, constants::STR_ID_NO_KNOW_HOW), None)
    } else if tag == constants::COMMAND_ID_WATER {
        (p.respond(w, constants::STR_ID_DISAMBIGUATE_WATER), None)
    } else if tag == constants::COMMAND_ID_XYZZY {
        (p.respond(w, constants::STR_ID_OK), None)
    } else if tag == constants::COMMAND_ID_EXPLAIN {
        (p.said(w, MsgV::Text(match d.explanations.spec_get(arg) {
            None => d.explanations.spec_get(constants::STR_DEFAULT@).unwrap()@,
            Some(e) => e@,
        })), None)
    } else if tag == constants::COMMAND_ID_INVENTORY {
        (p.said(w, MsgV::Text(p.spec_inventory_string(d))), None)
    } else if tag == constants::COMMAND_ID_NODE {
        (p.said(w, MsgV::Text(crate::text::subst(d.response(constants::STR_ID_NODE), decimal(p.location as nat)))), None)
    } else if tag == constants::COMMAND_ID_LOOK {
        (spec_look(p, d, arg), None)
    } else {
        (p.said(w, MsgV::Text(d.response(constants::STR_ID_COMMANDS_INTRO) + "\n"@ + d.commands.non_secret_listing())), None)
    }
}

fn perform_texts(tag: CommandId, data: &mut DataCollection, arg: &str, player: &mut Player, arg_type: ArgumentType,
    out: &mut Vec<Msg>) -> (res: Option<Question>)
    requires
        old(player).wf(),
        old(data).wf(),
        old(player).can_count(),
        tag == constants::COMMAND_ID_HELP || tag == constants::COMMAND_ID_SCORE || tag == constants::COMMAND_ID_QUIT
            ==> old(player).instructions > 0,
        tag == constants::COMMAND_ID_SCORE ==> score_in_range(old(data).stowed_treasures(), old(player).achievement_count as nat,
            old(player).deaths as nat, old(player).hints as nat),
    ensures
        final(player).wf(),
        outcome_holds(*final(player), *final(data), final(out)@, *old(data), old(out)@, spec_perform_texts(tag, *old(player), *old(data), arg@).0),
        ask_view(res) == spec_perform_texts(tag, *old(player), *old(data), arg@).1,
{
    if tag == constants::COMMAND_ID_CLIMB {
        {
            do_climb(data, arg, player, arg_type, out);
            None
        }
    } else if tag == constants::COMMAND_ID_GO {
        {
            do_go_disambiguate(data, arg, player, arg_type, out);
            None
        }
    } else if tag == constants::COMMAND_ID_PLUGH {
        {
            do_plugh(data, arg, player, arg_type, out);
            None
        }
    } else if tag == constants::COMMAND_ID_SWIM {
        {
            do_swim(data, arg, player, arg_type, out);
            None
        }
    } else if tag == constants::COMMAND_ID_WATER {
        {
            do_water(data, arg, player, arg_type, out);
            None
        }
    } else if tag == constants::COMMAND_ID_XYZZY {
        {
            do_xyzzy(data, arg, player, arg_type, out);
            None
        }
    } else if tag == constants::COMMAND_ID_EXPLAIN {
        {
            do_explain(data, arg, player, arg_type, out);
            None
        }
    } else if tag == constants::COMMAND_ID_INVENTORY {
        {
            do_inventory(data, arg, player, arg_type, out);
            None
        }
    } else if tag == constants::COMMAND_ID_NODE {
        {
            do_node(data, arg, player, arg_type, out);
            None
        }
    } else if tag == constants::COMMAND_ID_LOOK {
        {
            do_look(data, arg, player, arg_type, out);
            None
        }
    } else {
        {
            do_commands(data, arg, player, arg_type, out);
            None
        }
    }
}

/// What the command tagged `tag` does, among the commands about the game itself.
pub open spec fn spec_perform_meta(tag: CommandId, p: Player, d: DataCollection, arg: Seq<char>) -> (Outcome, Option<QuestionV>) {
    let w = d.world();
    if tag == constants::COMMAND_ID_HELP {
        (Player { instructions: (p.instructions - 1) as u32, ..p }.respond(w, constants::STR_ID_WELCOME), None)
    } else if tag == constants::COMMAND_ID_SCORE {
        {
            let p1 = Player { instructions: (p.instructions - 1) as u32, ..p };
            (p1.said(w, MsgV::Text(p1.spec_score_str(d, constants::STR_ID_SCORE_CURRENT))), None)
        }
    } else if tag == constants::COMMAND_ID_HINT {
        spec_hint(p, d, arg)
    } else if tag == constants::COMMAND_ID_QUIT {
        (Player { instructions: (p.instructions - 1) as u32, ..p }.quiet(w),
            Some(QuestionV { prompt: MsgV::Response(constants::STR_ID_SURE_ASK), pending: Pending::Quit }))
    } else {
        if arg.len() == 0 {
            (p.quiet(w), Some(QuestionV { prompt: MsgV::Response(constants::STR_ID_WHERE_FLASH), pending: Pending::Flash }))
        } else {
            (spec_flash_to(p, d, arg), None)
        }
    }
}

fn perform_meta(tag: CommandId, data: &mut DataCollection, arg: &str, player: &mut Player, arg_type: ArgumentType,
    out: &mut Vec<Msg>) -> (res: Option<Question>)
    requires
        old(player).wf(),
        old(data).wf(),
        old(player).can_count(),
        tag == constants::COMMAND_ID_HELP || tag == constants::COMMAND_ID_SCORE || tag == constants::COMMAND_ID_QUIT
            ==> old(player).instructions > 0,
        tag == constants::COMMAND_ID_SCORE ==> score_in_range(old(data).stowed_treasures(), old(player).achievement_count as nat,
            old(player).deaths as nat, old(player).hints as nat),
    ensures
        final(player).wf(),
        outcome_holds(*final(player), *final(data), final(out)@, *old(data), old(out)@, spec_perform_meta(tag, *old(player), *old(data), arg@).0),
        ask_view(res) == spec_perform_meta(tag, *old(player), *old(data), arg@).1,
{
    if tag == constants::COMMAND_ID_HELP {
        {
            do_help(data, arg, player, arg_type, out);
            None
        }
    } else if tag == constants::COMMAND_ID_SCORE {
        {
            do_score(data, arg, player, arg_type, out);
            None
        }
    } else if tag == constants::COMMAND_ID_HINT {
        do_hint(data, arg, player, arg_type, out)
    } else if tag == constants::COMMAND_ID_QUIT {
        do_quit(data, arg, player, arg_type, out)
    } else {
        do_flash(data, arg, player, arg_type, out)
    }
}

/// What the command tagged `tag` does with argument `arg`, when it neither
/// moves the player nor acts on an item.
pub open spec fn spec_perform_plain(tag: CommandId, p: Player, d: DataCollection, arg: Seq<char>) -> (Outcome, Option<QuestionV>) {
    if tag == constants::COMMAND_ID_ACORN || tag == constants::COMMAND_ID_FAIRY || tag == constants::COMMAND_ID_FISH || tag == constants::COMMAND_ID_KNIT || tag == constants::COMMAND_ID_ROBOT || tag == constants::COMMAND_ID_STARE || tag == constants::COMMAND_ID_WIZARD || tag == constants::COMMAND_ID_SLEEP || tag == constants::COMMAND_ID_TEZAZZLE || tag == constants::COMMAND_ID_SAY {
        spec_perform_calls(tag, p, d, arg)
    } else if tag == constants::COMMAND_ID_CLIMB || tag == constants::COMMAND_ID_GO || tag == constants::COMMAND_ID_PLUGH || tag == constants::COMMAND_ID_SWIM || tag == constants::COMMAND_ID_WATER || tag == constants::COMMAND_ID_XYZZY || tag == constants::COMMAND_ID_EXPLAIN || tag == constants::COMMAND_ID_INVENTORY || tag == constants::COMMAND_ID_NODE || tag == constants::COMMAND_ID_LOOK || tag == constants::COMMAND_ID_COMMANDS {
        spec_perform_texts(tag, p, d, arg)
    } else {
        spec_perform_meta(tag, p, d, arg)
    }
}

fn perform_plain(tag: CommandId, data: &mut DataCollection, arg: &str, player: &mut Player, arg_type: ArgumentType,
    out: &mut Vec<Msg>) -> (res: Option<Question>)
    requires
        old(player).wf(),
        old(data).wf(),
        old(player).can_count(),
        tag == constants::COMMAND_ID_HELP || tag == constants::COMMAND_ID_SCORE || tag == constants::COMMAND_ID_QUIT
            ==> old(player).instructions > 0,
        tag == constants::COMMAND_ID_SCORE ==> score_in_range(old(data).stowed_treasures(), old(player).achievement_count as nat,
            old(player).deaths as nat, old(player).hints as nat),
    ensures
        final(player).wf(),
        outcome_holds(*final(player), *final(data), final(out)@, *old(data), old(out)@, spec_perform_plain(tag, *old(player), *old(data), arg@).0),
        ask_view(res) == spec_perform_plain(tag, *old(player), *old(data), arg@).1,
{
    if tag == constants::COMMAND_ID_ACORN || tag == constants::COMMAND_ID_FAIRY || tag == constants::COMMAND_ID_FISH || tag == constants::COMMAND_ID_KNIT || tag == constants::COMMAND_ID_ROBOT || tag == constants::COMMAND_ID_STARE || tag == constants::COMMAND_ID_WIZARD || tag == constants::COMMAND_ID_SLEEP || tag == constants::COMMAND_ID_TEZAZZLE || tag == constants::COMMAND_ID_SAY {
        perform_calls(tag, data, arg, player, arg_type, out)
    } else if tag == constants::COMMAND_ID_CLIMB || tag == constants::COMMAND_ID_GO || tag == constants::COMMAND_ID_PLUGH || tag == constants::COMMAND_ID_SWIM || tag == constants::COMMAND_ID_WATER || tag == constants::COMMAND_ID_XYZZY || tag == constants::COMMAND_ID_EXPLAIN || tag == constants::COMMAND_ID_INVENTORY || tag == constants::COMMAND_ID_NODE || tag == constants::COMMAND_ID_LOOK || tag == constants::COMMAND_ID_COMMANDS {
        perform_texts(tag, data, arg, player, arg_type, out)
    } else {
        perform_meta(tag, data, arg, player, arg_type, out)
    }
}

/// Whether `tag` is the tag of a movement command.
pub open spec fn is_movement_tag(tag: CommandId) -> bool {
    crate::command_collection::tag_direction(tag) is Some
}

/// What the command tagged `tag` does with argument `arg`, for a player
/// `p`, with the roll `death_rand` deciding a risky move.
pub open spec fn spec_perform(tag: CommandId, p: Player, d: DataCollection, arg: Seq<char>, arg_type: ArgumentType,
    death_rand: u32) -> (Outcome, Option<QuestionV>) {
    if is_movement_tag(tag) {
        (p.spec_go(d, d.commands.spec_direction(arg).unwrap(), death_rand), None)
    } else {
        match item_action_of(tag) {
            Some(act) => spec_manipulate(p, d, arg, arg_type, act),
            None => spec_perform_plain(tag, p, d, arg),
        }
    }
}

/// Performs the command tagged `tag` with argument `arg`.
pub fn perform(tag: CommandId, data: &mut DataCollection, arg: &str, player: &mut Player, arg_type: ArgumentType,
    out: &mut Vec<Msg>) -> (res: Option<Question>)
    requires
        old(player).wf(),
        old(data).wf(),
        old(player).can_count(),
        has_action(tag),
        is_movement_tag(tag) ==> old(data).commands.spec_direction(arg@) is Some,
        tag == constants::COMMAND_ID_HELP || tag == constants::COMMAND_ID_SCORE || tag == constants::COMMAND_ID_QUIT
            ==> old(player).instructions > 0,
        tag == constants::COMMAND_ID_SCORE ==> score_in_range(old(data).stowed_treasures(), old(player).achievement_count as nat,
            old(player).deaths as nat, old(player).hints as nat),
    ensures
        final(player).wf(),
        exists|death_rand: u32| {
            &&& outcome_holds(*final(player), *final(data), final(out)@, *old(data), old(out)@,
                spec_perform(tag, *old(player), *old(data), arg@, arg_type, death_rand).0)
            &&& ask_view(res) == spec_perform(tag, *old(player), *old(data), arg@, arg_type, death_rand).1
        },
{
    let ghost p0 = *player;
    let ghost d0 = *data;
    let ghost out0 = out@;
    if crate::command_collection::CommandCollection::get_tag_dir(tag).is_some() {
        do_go(data, arg, player, arg_type, out);
        proof {
            let r = choose|r: u32| outcome_holds(*player, *data, out@, d0, out0, p0.spec_go(d0, d0.commands.spec_direction(arg@).unwrap(), r));
            assert(spec_perform(tag, p0, d0, arg@, arg_type, r).1 == ask_view(None));
        }
        None
    } else {
        let res = match action_for_tag(tag) {
            Some(act) => manipulate_item(data, arg, arg_type, player, act, out),
            None => perform_plain(tag, data, arg, player, arg_type, out),
        };
        proof {
            assert(spec_perform(tag, p0, d0, arg@, arg_type, 0).1 == ask_view(res));
        }
        res
    }
}

} // verus!
