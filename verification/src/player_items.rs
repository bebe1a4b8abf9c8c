//! What the player does with single items: dropping, throwing, emptying,
//! taking, grabbing and inserting them.
//!
//! Some actions need to ask the player something before they can go on
//! (into what an item should be inserted, to whom it should be given, and so
//! on). Such an action returns the `Question` to put; the action finishes
//! when the caller hands the answer to the matching `*_answer` function.
use vstd::prelude::*;

use crate::constants;
use crate::data_collection::{DataCollection, ItemId, Msg, MsgV, StringId, World, msgs_view, valid_item};
use crate::item::Item;
use crate::location::{Direction, dir_index};
use crate::player::{Outcome, Player, outcome_holds};

verus! {

broadcast use crate::data_collection::lemma_msgs_view_push;

/// What a question put to the player is about.
#[derive(PartialEq, Eq, Structural, Clone, Copy, Debug)]
pub enum Pending {
    /// Into what the item is to be inserted.
    Insert(ItemId),
    /// To whom the item is to be given.
    Give(ItemId),
    /// Onto what the liquid is to be poured.
    Pour(ItemId),
    /// To whom the item is to be fed.
    FeedTo(ItemId),
    /// What is to be fed to the item.
    FeedWith(ItemId),
    /// To what the item is to be tethered.
    Tether(ItemId),
    /// What the machine is to make in exchange for the item.
    Machine(ItemId),
    /// What tune is to be whistled.
    Tune,
    /// The argument a command needs.
    Argument,
    /// Where to flash to.
    Flash,
    /// Whether the player is sure to take the hint.
    Hint,
    /// Whether the player is sure to quit.
    Quit,
    /// Whether the player wants to be reincarnated.
    Reincarnate,
}

/// A question to put to the player before an action can go on.
#[derive(Clone, Debug)]
pub struct Question {
    pub prompt: Msg,
    pub pending: Pending,
}

pub struct QuestionV {
    pub prompt: MsgV,
    pub pending: Pending,
}

impl View for Question {
    type V = QuestionV;

    open spec fn view(&self) -> QuestionV {
        QuestionV { prompt: self.prompt@, pending: self.pending }
    }
}

pub open spec fn ask_view(q: Option<Question>) -> Option<QuestionV> {
    match q {
        None => None,
        Some(q) => Some(q@),
    }
}

/// The question `code` about item `x` (its short name fills the `$0` marker).
pub open spec fn question_about(w: World, code: StringId, x: ItemId, pending: Pending) -> QuestionV {
    QuestionV { prompt: MsgV::ResponseParam(code, w.item(x).shortname@), pending }
}

impl Player {
    /// Nothing said and nothing changed.
    pub open spec fn quiet(self, w: World) -> Outcome {
        Outcome { player: self, world: w, msgs: Seq::empty() }
    }

    /// Response `code` about item `x`.
    pub open spec fn respond_about(self, w: World, code: StringId, x: ItemId) -> Outcome {
        self.said(w, MsgV::ResponseParam(code, w.item(x).shortname@))
    }

    /// Where a released item ends up, and what is said first: a liquid
    /// drains away; with no floor, gravity takes the item to the place below
    /// (a fragile one shatters on the way); a thrown fragile item shatters;
    /// on open water the item is lost; otherwise it lies here.
    /// Gives the world, the messages said first, the response and whether
    /// the item shattered.
    pub open spec fn spec_release_place(self, w: World, x: ItemId, thrown: bool) -> (World, Seq<MsgV>, StringId, bool) {
        let w1 = w.inv_remove(self.inventory, x);
        let fragile = w.item_has(x, constants::CTRL_ITEM_FRAGILE);
        if w.item_has(x, constants::CTRL_ITEM_LIQUID) {
            (w1, Seq::empty(), constants::STR_ID_EMPTY_LIQUID, false)
        } else if !self.loc(w).has(constants::CTRL_LOC_HAS_FLOOR) && self.spec_has_gravity(w1) {
            match self.loc(w).directions[dir_index(Direction::Down)] {
                Some(below) => if fragile {
                    (w1, seq![MsgV::Response(constants::STR_ID_DROP_NO_FLOOR)], constants::STR_ID_BREAK_FAR, true)
                } else {
                    (w1.loc_insert(below, x), seq![MsgV::Response(constants::STR_ID_DROP_NO_FLOOR)], constants::STR_ID_DROP_FAR, false)
                },
                None => (w1, Seq::empty(), constants::STR_ID_DROP_GOOD, false),
            }
        } else if fragile && thrown {
            (w1, Seq::empty(), constants::STR_ID_BREAK_NEAR, true)
        } else if !self.loc(w).has(constants::CTRL_LOC_HAS_LAND) {
            (w1.retire(x), Seq::empty(), constants::STR_ID_DROP_WATER, false)
        } else {
            (w1.loc_insert(self.location, x), Seq::empty(), constants::STR_ID_DROP_GOOD, false)
        }
    }

    /// Letting go of item `x` (thrown or dropped). The lion, set down, sits
    /// and scares the wolf away; the puppy, set down near the dogs, is taken
    /// by them and a bell is left behind; a shattered mirror brings bad luck.
    /// How the lion, the puppy and other items react on being let go of at `w1`.
    pub open spec fn spec_release_reaction(self, w1: World, x: ItemId, code: StringId) -> Outcome {
        if x == constants::ITEM_ID_LION {
            if self.has_loc(w1, constants::ITEM_ID_WOLF) {
                self.achieve_obstruction(w1, constants::ITEM_ID_WOLF, constants::PUZZLE_ID_WOLF)
                    .and_say(MsgV::Response(constants::STR_ID_LION_SITS))
            } else {
                self.respond(w1, constants::STR_ID_LION_SITS)
            }
        } else if x == constants::ITEM_ID_PUPPY && self.has_loc(w1, constants::ITEM_ID_DOGS) {
            let o1 = self.achieve_obstruction(w1.loc_remove(self.location, constants::ITEM_ID_PUPPY), constants::ITEM_ID_DOGS,
                constants::PUZZLE_ID_DOGS);
            Outcome { world: o1.world.loc_insert(self.location, constants::ITEM_ID_BELL), ..o1 }
                .and_say(MsgV::Response(constants::STR_ID_BELL_FEET))
        } else {
            self.respond(w1, code)
        }
    }

    /// Letting go of item `x` (thrown or dropped). The lion, set down, sits
    /// and scares the wolf away; the puppy, set down near the dogs, is taken
    /// by them and a bell is left behind; a shattered mirror brings bad luck.
    pub open spec fn spec_release(self, w: World, x: ItemId, thrown: bool) -> Outcome {
        let (w1, before, code, shattered) = self.spec_release_place(w, x, thrown);
        let o = self.spec_release_reaction(w1, x, code);
        let o2 = Outcome { msgs: before + o.msgs, ..o };
        if shattered && x == constants::ITEM_ID_MIRROR {
            Outcome { player: Player { death_divisor: constants::DEATH_DIVISOR_SMASHED, ..o2.player }, ..o2 }
                .and_say(MsgV::Response(constants::STR_ID_BAD_LUCK))
        } else {
            o2
        }
    }

    fn release_reaction(&mut self, data: &mut DataCollection, item: ItemId, code: StringId, out: &mut Vec<Msg>)
        requires
            old(self).wf(),
            old(data).wf(),
            old(self).can_count(),
        ensures
            final(self).wf(),
            final(self).death_divisor == old(self).death_divisor,
            outcome_holds(*final(self), *final(data), final(out)@, *old(data), old(out)@,
                old(self).spec_release_reaction(old(data).world(), item, code)),
    {
        let mut response_code = code;
        let ghost w0 = data.world();
        if item == constants::ITEM_ID_LION {
            response_code = constants::STR_ID_LION_SITS;
            if self.has_item_location(data, constants::ITEM_ID_WOLF) {
                self.complete_obstruction_achievement(data, constants::ITEM_ID_WOLF, constants::PUZZLE_ID_WOLF, out);
            }
        } else if item == constants::ITEM_ID_PUPPY {
            if self.has_item_location(data, constants::ITEM_ID_DOGS) {
                data.loc_remove(self.location, constants::ITEM_ID_PUPPY);
                self.complete_obstruction_achievement(data, constants::ITEM_ID_DOGS, constants::PUZZLE_ID_DOGS, out);
                data.loc_insert(self.location, constants::ITEM_ID_BELL);
                response_code = constants::STR_ID_BELL_FEET;
            }
        }
        let ghost out2 = out@;
        out.push(Msg::Response(response_code));
        proof {
            let r = old(self).spec_release_reaction(w0, item, code);
            assert(msgs_view(out@) =~= msgs_view(out2).push(Msg::Response(response_code)@));
            assert(r.msgs.last() == Msg::Response(response_code)@);
            assert(msgs_view(out2) =~= msgs_view(old(out)@) + r.msgs.drop_last());
        }
    }

    fn release_item(&mut self, data: &mut DataCollection, item: ItemId, thrown: bool, out: &mut Vec<Msg>)
        requires
            old(self).wf(),
            old(data).wf(),
            old(self).can_count(),
            valid_item(item),
        ensures
            final(self).wf(),
            outcome_holds(*final(self), *final(data), final(out)@, *old(data), old(out)@,
                old(self).spec_release(old(data).world(), item, thrown)),
    {
        let ghost w0 = data.world();
        let it = data.get_item_by_id_certain(item);
        let liquid = it.has_property(constants::CTRL_ITEM_LIQUID);
        let is_fragile = it.has_property(constants::CTRL_ITEM_FRAGILE);
        let loc = data.get_location_certain(self.location);
        let has_floor = loc.has_property(constants::CTRL_LOC_HAS_FLOOR);
        let has_land = loc.has_property(constants::CTRL_LOC_HAS_LAND);
        proof {
            assert(w0.locations[self.location as int].directions.len() == crate::location::DIRECTION_COUNT);
        }
        let below_opt = loc.get_direction(Direction::Down);
        proof {
            assert(w0.locations[self.location as int].directions[dir_index(Direction::Down)] == below_opt);
        }
        data.inv_remove(self.inventory, item);
        let mut shattered = false;
        let mut response_code = constants::STR_ID_DROP_GOOD;
        if liquid {
            response_code = constants::STR_ID_EMPTY_LIQUID;
        } else if !has_floor && self.has_gravity(data) {
            if let Some(below) = below_opt {
                out.push(Msg::Response(constants::STR_ID_DROP_NO_FLOOR));
                if is_fragile {
                    shattered = true;
                    response_code = constants::STR_ID_BREAK_FAR;
                } else {
                    data.loc_insert(below, item);
                    response_code = constants::STR_ID_DROP_FAR;
                }
            }
        } else if is_fragile && thrown {
            shattered = true;
            response_code = constants::STR_ID_BREAK_NEAR;
        } else if !has_land {
            data.retire(item);
            response_code = constants::STR_ID_DROP_WATER;
        } else {
            data.loc_insert(self.location, item);
        }
        proof {
            let (pw, pm, pc, ps) = old(self).spec_release_place(w0, item, thrown);
            assert(data.world() == pw);
            assert(msgs_view(out@) =~= msgs_view(old(out)@) + pm);
            assert(response_code == pc);
            assert(shattered == ps);
        }
        let ghost out1 = out@;
        self.release_reaction(data, item, response_code, out);
        proof {
            let (pw, pm, pc, ps) = old(self).spec_release_place(w0, item, thrown);
            let r = old(self).spec_release_reaction(pw, item, pc);
            assert(msgs_view(out@) =~= msgs_view(old(out)@) + pm + r.msgs);
        }
        let ghost out3 = out@;
        if shattered && item == constants::ITEM_ID_MIRROR {
            out.push(Msg::Response(constants::STR_ID_BAD_LUCK));
            self.death_divisor = constants::DEATH_DIVISOR_SMASHED;
            assert(msgs_view(out@) =~= msgs_view(out3).push(Msg::Response(constants::STR_ID_BAD_LUCK)@));
        }
        proof {
            let o = old(self).spec_release(w0, item, thrown);
            assert(*self == o.player);
            assert(data.world() == o.world);
            assert(msgs_view(out@) =~= msgs_view(old(out)@) + o.msgs);
        }
    }

    pub fn drop(&mut self, data: &mut DataCollection, item: ItemId, out: &mut Vec<Msg>)
        requires
            old(self).wf(),
            old(data).wf(),
            old(self).can_count(),
            valid_item(item),
        ensures
            final(self).wf(),
            outcome_holds(*final(self), *final(data), final(out)@, *old(data), old(out)@,
                old(self).spec_release(old(data).world(), item, false)),
    {
        self.release_item(data, item, false, out);
    }

    pub fn throw(&mut self, data: &mut DataCollection, item: ItemId, out: &mut Vec<Msg>)
        requires
            old(self).wf(),
            old(data).wf(),
            old(self).can_count(),
            valid_item(item),
        ensures
            final(self).wf(),
            outcome_holds(*final(self), *final(data), final(out)@, *old(data), old(out)@,
                old(self).spec_release(old(data).world(), item, true).after(MsgV::Response(constants::STR_ID_THROW))),
    {
        out.push(Msg::Response(constants::STR_ID_THROW));
        self.release_item(data, item, true, out);
    }
    /// Emptying item `x`: a container lets go of what it holds, which drains
    /// away if liquid, and otherwise goes to the inventory if `x` is carried,
    /// or is set down here.
    pub open spec fn spec_empty(self, w: World, x: ItemId) -> Outcome {
        match w.item(x).spec_problem_emptying() {
            Some(reason) => self.respond_about(w, reason, x),
            None => {
                let w1 = w.set_item(x, Item { within: None, ..w.item(x) });
                match w.item(x).within {
                    None => self.respond(w1, constants::STR_ID_ALREADY_EMPTY),
                    Some(y) => if w.item_has(y, constants::CTRL_ITEM_LIQUID) {
                        self.respond(w1, constants::STR_ID_EMPTY_LIQUID)
                    } else if self.has_inv(w1, x) {
                        self.respond_about(w1.inv_insert(self.inventory, y), constants::STR_ID_EMPTY_CARRY, y)
                    } else {
                        self.respond_about(w1.loc_insert(self.location, y), constants::STR_ID_EMPTY_SET, y)
                    },
                }
            },
        }
    }

    pub fn empty(&mut self, data: &mut DataCollection, item: ItemId, out: &mut Vec<Msg>)
        requires
            old(self).wf(),
            old(data).wf(),
            valid_item(item),
        ensures
            final(self).wf(),
            outcome_holds(*final(self), *final(data), final(out)@, *old(data), old(out)@, old(self).spec_empty(old(data).world(), item)),
    {
        let it = data.get_item_by_id_certain(item);
        if let Some(reason) = it.has_problem_emptying(it) {
            out.push(Msg::ResponseParam(reason, it.get_shortname().to_owned()));
            return;
        }
        let ghost w0 = data.world();
        let within_opt = data.remove_within(item);
        match within_opt {
            None => out.push(Msg::Response(constants::STR_ID_ALREADY_EMPTY)),
            Some(within) => {
                proof {
                    assert(w0.items[crate::item::item_index(item)].within == Some(within));
                }
                let is_liquid = data.get_item_by_id_certain(within).has_property(constants::CTRL_ITEM_LIQUID);
                if is_liquid {
                    out.push(Msg::Response(constants::STR_ID_EMPTY_LIQUID));
                } else {
                    let in_inventory = self.has_item_inventory(data, item);
                    if in_inventory {
                        data.inv_insert(self.inventory, within);
                        let name = data.get_item_by_id_certain(within).get_shortname().to_owned();
                        out.push(Msg::ResponseParam(constants::STR_ID_EMPTY_CARRY, name));
                    } else {
                        data.loc_insert(self.location, within);
                        let name = data.get_item_by_id_certain(within).get_shortname().to_owned();
                        out.push(Msg::ResponseParam(constants::STR_ID_EMPTY_SET, name));
                    }
                }
            },
        }
    }

    /// Asking to insert item `x`: wearable or fixed items cannot be
    /// inserted; otherwise the player is asked into what.
    pub open spec fn spec_insert(self, w: World, x: ItemId) -> (Outcome, Option<QuestionV>) {
        match w.item(x).spec_problem_inserting() {
            Some(reason) => (self.respond_about(w, reason, x), None),
            None => (self.quiet(w), Some(question_about(w, constants::STR_ID_WHAT_INSERT, x, Pending::Insert(x)))),
        }
    }

    pub fn insert(&mut self, data: &mut DataCollection, item: ItemId, out: &mut Vec<Msg>) -> (res: Option<Question>)
        requires
            old(self).wf(),
            old(data).wf(),
            valid_item(item),
        ensures
            final(self).wf(),
            outcome_holds(*final(self), *final(data), final(out)@, *old(data), old(out)@, old(self).spec_insert(old(data).world(), item).0),
            ask_view(res) == old(self).spec_insert(old(data).world(), item).1,
    {
        let it = data.get_item_by_id_certain(item);
        if let Some(reason) = it.has_problem_inserting(it) {
            out.push(Msg::ResponseParam(reason, it.get_shortname().to_owned()));
            return None;
        }
        assert(msgs_view(out@) =~= msgs_view(old(out)@) + Seq::<MsgV>::empty());
        Some(Question { prompt: Msg::ResponseParam(constants::STR_ID_WHAT_INSERT, it.get_shortname().to_owned()), pending: Pending::Insert(item) })
    }

    /// Inserting item `x` into container `c`, once both are known to be at hand.
    pub open spec fn spec_insert_final(self, w: World, x: ItemId, c: ItemId) -> Outcome {
        match w.item(c).spec_problem_accepting(w.item(x)) {
            Some(reason) => self.respond_about(w, reason, c),
            None => if self.has_loc(w, x) {
                if !self.inv_can_fit(w, x) {
                    self.respond(w, constants::STR_ID_ITEM_HEAVY)
                } else {
                    self.respond(w.loc_remove(self.location, x).set_within(c, Some(x)), constants::STR_ID_INSERTED)
                }
            } else if self.has_inv(w, x) {
                self.respond(w.inv_remove(self.inventory, x).set_within(c, Some(x)), constants::STR_ID_INSERTED)
            } else {
                self.respond(w.set_within(c, Some(x)), constants::STR_ID_INSERTED)
            },
        }
    }

    fn insert_final(&mut self, data: &mut DataCollection, item: ItemId, container: ItemId, out: &mut Vec<Msg>)
        requires
            old(self).wf(),
            old(data).wf(),
            valid_item(item),
            valid_item(container),
        ensures
            final(self).wf(),
            outcome_holds(*final(self), *final(data), final(out)@, *old(data), old(out)@,
                old(self).spec_insert_final(old(data).world(), item, container)),
    {
        let c = data.get_item_by_id_certain(container);
        let it = data.get_item_by_id_certain(item);
        if let Some(reason) = c.has_problem_accepting(it) {
            out.push(Msg::ResponseParam(reason, c.get_shortname().to_owned()));
            return;
        }
        let in_location = self.has_item_location(data, item);
        let in_inventory = self.has_item_inventory(data, item);
        if in_location {
            if !self.inventory_can_fit(data, item) {
                out.push(Msg::Response(constants::STR_ID_ITEM_HEAVY));
                return;
            }
            data.loc_remove(self.location, item);
        } else if in_inventory {
            data.inv_remove(self.inventory, item);
        }
        data.set_within(container, Some(item));
        out.push(Msg::Response(constants::STR_ID_INSERTED));
    }

    /// Inserting item `x` into the item named `answer`, if it is at hand.
    pub open spec fn spec_insert_answer(self, d: DataCollection, x: ItemId, answer: Seq<char>) -> Outcome {
        let w = d.world();
        match d.spec_item_by_name(answer) {
            None => self.respond(w, constants::STR_ID_NO_KNOW_WHO_WHAT),
            Some(c) => if self.has_inv(w, c) || self.has_loc(w, c) {
                self.spec_insert_final(w, x, c)
            } else {
                self.respond_about(w, constants::STR_ID_NO_SEE_HERE, c)
            },
        }
    }

    pub fn insert_answer(&mut self, data: &mut DataCollection, item: ItemId, answer: &str, out: &mut Vec<Msg>)
        requires
            old(self).wf(),
            old(data).wf(),
            valid_item(item),
        ensures
            final(self).wf(),
            outcome_holds(*final(self), *final(data), final(out)@, *old(data), old(out)@,
                old(self).spec_insert_answer(*old(data), item, answer@)),
    {
        match data.get_item_by_name(answer) {
            None => out.push(Msg::Response(constants::STR_ID_NO_KNOW_WHO_WHAT)),
            Some(container) => {
                if self.has_item_present(data, container) {
                    self.insert_final(data, item, container, out);
                } else {
                    let name = data.get_item_by_id_certain(container).get_shortname().to_owned();
                    out.push(Msg::ResponseParam(constants::STR_ID_NO_SEE_HERE, name));
                }
            },
        }
    }

    /// Taking item `x`: not what is already carried (liquids aside), not
    /// what cannot be carried or is too heavy; a liquid needs a container,
    /// so taking it means inserting it; anything else moves from here to
    /// the inventory.
    pub open spec fn spec_take(self, w: World, x: ItemId) -> (Outcome, Option<QuestionV>) {
        let liquid = w.item_has(x, constants::CTRL_ITEM_LIQUID);
        if self.has_inv(w, x) && !liquid {
            (self.respond(w, constants::STR_ID_ALREADY_HAVE), None)
        } else if !(w.item_has(x, constants::CTRL_ITEM_MOBILE) && !w.item_has(x, constants::CTRL_ITEM_OBSTRUCTION)) {
            (self.respond(w, constants::STR_ID_CANNOT_TAKE), None)
        } else if !self.inv_can_fit(w, x) {
            (self.respond(w, constants::STR_ID_ITEM_HEAVY), None)
        } else if liquid {
            self.spec_insert(w, x)
        } else {
            let w1 = w.loc_remove(self.location, x).inv_insert(self.inventory, x);
            let done = MsgV::Response(if w.item_has(x, constants::CTRL_ITEM_WEARABLE) {
                constants::STR_ID_WORN
            } else {
                constants::STR_ID_TAKEN
            });
            let msgs = if !self.spec_has_light(w1) {
                seq![MsgV::ResponseParam(constants::STR_ID_TAKE_NO_LIGHT, w.item(x).shortname@), done]
            } else {
                seq![done]
            };
            (Outcome { player: self, world: w1, msgs }, None)
        }
    }

    pub fn take(&mut self, data: &mut DataCollection, item: ItemId, out: &mut Vec<Msg>) -> (res: Option<Question>)
        requires
            old(self).wf(),
            old(data).wf(),
            valid_item(item),
        ensures
            final(self).wf(),
            outcome_holds(*final(self), *final(data), final(out)@, *old(data), old(out)@, old(self).spec_take(old(data).world(), item).0),
            ask_view(res) == old(self).spec_take(old(data).world(), item).1,
    {
        let it = data.get_item_by_id_certain(item);
        let liquid = it.has_property(constants::CTRL_ITEM_LIQUID);
        let wearable = it.has_property(constants::CTRL_ITEM_WEARABLE);
        let name = it.get_shortname().to_owned();
        if self.has_item_inventory(data, item) && !liquid {
            out.push(Msg::Response(constants::STR_ID_ALREADY_HAVE));
            return None;
        }
        if !it.is_portable() {
            out.push(Msg::Response(constants::STR_ID_CANNOT_TAKE));
            return None;
        }
        if !self.inventory_can_fit(data, item) {
            out.push(Msg::Response(constants::STR_ID_ITEM_HEAVY));
            return None;
        }
        if liquid {
            return self.insert(data, item, out);
        }
        data.loc_remove(self.location, item);
        data.inv_insert(self.inventory, item);
        if !self.has_light(data) {
            out.push(Msg::ResponseParam(constants::STR_ID_TAKE_NO_LIGHT, name));
        }
        if wearable {
            out.push(Msg::Response(constants::STR_ID_WORN));
        } else {
            out.push(Msg::Response(constants::STR_ID_TAKEN));
        }
        None
    }

    /// Grabbing item `x` (a debugging aid): anything portable goes straight
    /// to the inventory from wherever it is.
    pub open spec fn spec_grab(self, w: World, x: ItemId) -> Outcome {
        if !(w.item_has(x, constants::CTRL_ITEM_MOBILE) && !w.item_has(x, constants::CTRL_ITEM_OBSTRUCTION)) {
            self.respond(w, constants::STR_ID_NO_WANT_TAKE)
        } else {
            let w1 = if !w.item_has(x, constants::CTRL_ITEM_LIQUID) { Player::spec_unlink(w, x) } else { w };
            self.respond_about(w1.inv_insert(self.inventory, x), constants::STR_ID_GRABBED, x)
        }
    }

    pub fn grab(&mut self, data: &mut DataCollection, item: ItemId, out: &mut Vec<Msg>)
        requires
            old(self).wf(),
            old(data).wf(),
            valid_item(item),
        ensures
            final(self).wf(),
            outcome_holds(*final(self), *final(data), final(out)@, *old(data), old(out)@, old(self).spec_grab(old(data).world(), item)),
    {
        let it = data.get_item_by_id_certain(item);
        if !it.is_portable() {
            out.push(Msg::Response(constants::STR_ID_NO_WANT_TAKE));
            return;
        }
        let liquid = it.has_property(constants::CTRL_ITEM_LIQUID);
        if !liquid {
            self.unlink_item(data, item);
        }
        data.inv_insert(self.inventory, item);
        let name = data.get_item_by_id_certain(item).get_shortname().to_owned();
        out.push(Msg::ResponseParam(constants::STR_ID_GRABBED, name));
    }
}

} // verus!
