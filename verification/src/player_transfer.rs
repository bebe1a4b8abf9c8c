//! Handing items over: giving, feeding and pouring (which all come down to
//! transferring an item to a recipient), trading at the exchange or the
//! machine, tethering, and playing music.
use vstd::prelude::*;

use crate::constants;
use crate::data_collection::{DataCollection, ItemId, Msg, MsgV, World, msgs_view, valid_item};
use crate::location::Direction;
use crate::player::{Outcome, Player, outcome_holds};
use crate::player_items::{Pending, Question, QuestionV, ask_view, question_about};

verus! {

broadcast use crate::data_collection::lemma_msgs_view_push;

impl Player {
    /// What the alien makes of gift `g`: the chart first, then the
    /// transmitter (switched on), then the lens, for which it leaves a pendant.
    pub open spec fn spec_transfer_alien(self, w: World, g: ItemId) -> Outcome {
        let gone = w.inv_remove(self.inventory, g).set_location_of(g, constants::LOCATION_ID_GRAVEYARD);
        if g == constants::ITEM_ID_CHART {
            self.achieve(gone, constants::PUZZLE_ID_CHART)
        } else if g == constants::ITEM_ID_TRANSMITTER && w.item(constants::ITEM_ID_CHART).location == constants::LOCATION_ID_GRAVEYARD
            && w.item(constants::ITEM_ID_TRANSMITTER).on {
            self.achieve(gone, constants::PUZZLE_ID_TRANSMITTER)
        } else if g == constants::ITEM_ID_LENS && w.item(constants::ITEM_ID_TRANSMITTER).location == constants::LOCATION_ID_GRAVEYARD {
            self.achieve_obstruction(w.loc_insert(self.location, constants::ITEM_ID_PENDANT).inv_remove(self.inventory, g)
                .set_location_of(g, constants::LOCATION_ID_GRAVEYARD), constants::ITEM_ID_ALIEN, constants::PUZZLE_ID_LENS)
        } else {
            self.respond(w, constants::STR_ID_ALIEN_NO_USE)
        }
    }

    /// What the plants make of gift `g`: a potion turns the bean into a
    /// plant and back; water in the hot room makes the bean grow into a
    /// beanstalk, and in the small room makes the mushroom grow into a
    /// toadstool that opens a way north. `None` where nothing of the kind happens.
    pub open spec fn spec_transfer_plant(self, w: World, g: ItemId, r: ItemId) -> Option<Outcome> {
        let l = self.location;
        let w1 = self.remove_from_current(w.inv_remove(self.inventory, g), r);
        if r == constants::ITEM_ID_BEAN && g == constants::ITEM_ID_POTION {
            Some(self.respond(w1.loc_insert(l, constants::ITEM_ID_PLANT), constants::STR_ID_POUR_POTION_BEAN))
        } else if r == constants::ITEM_ID_BEAN && g == constants::ITEM_ID_WATER && l == constants::LOCATION_ID_HOT {
            Some(self.achieve(w1.loc_insert(l, constants::ITEM_ID_BEANSTALK).loc_insert(l, constants::ITEM_ID_BLOSSOM),
                constants::PUZZLE_ID_BEANSTALK))
        } else if r == constants::ITEM_ID_PLANT && g == constants::ITEM_ID_POTION {
            Some(self.respond(w1.loc_insert(l, constants::ITEM_ID_BEAN), constants::STR_ID_POUR_POTION_PLANT))
        } else if r == constants::ITEM_ID_MUSHROOM && g == constants::ITEM_ID_WATER && l == constants::LOCATION_ID_SMALL {
            Some(self.achieve(w1.loc_insert(l, constants::ITEM_ID_TOADSTOOL)
                .set_direction(l, Direction::North, Some(constants::LOCATION_ID_TOADSTOOL)), constants::PUZZLE_ID_MUSHROOM))
        } else {
            None
        }
    }

    /// Transferring gift `g` from the player to recipient `r`.
    pub open spec fn spec_transfer(self, d: DataCollection, g: ItemId, r: ItemId) -> Outcome {
        let w = d.world();
        let edible = w.item_has(g, constants::CTRL_ITEM_EDIBLE);
        let wg = w.inv_remove(self.inventory, g);
        if r == constants::ITEM_ID_ALIEN {
            self.spec_transfer_alien(w, g)
        } else if r == constants::ITEM_ID_GUNSLINGER && g == constants::ITEM_ID_MAGAZINE {
            self.achieve_obstruction(w.loc_insert(self.location, constants::ITEM_ID_CARTRIDGE).inv_remove(self.inventory, g),
                constants::ITEM_ID_GUNSLINGER, constants::PUZZLE_ID_GUNSLINGER)
        } else if r == constants::ITEM_ID_LION && edible {
            if g == constants::ITEM_ID_KOHLRABI {
                self.spec_die(wg).after(MsgV::Response(constants::STR_ID_LION_CABBAGE))
            } else {
                self.respond(wg, constants::STR_ID_LION_WHET)
            }
        } else if r == constants::ITEM_ID_SKELETON && g == constants::ITEM_ID_MILK {
            self.achieve_obstruction(w.loc_insert(self.location, constants::ITEM_ID_BROOCH).inv_remove(self.inventory, g),
                constants::ITEM_ID_SKELETON, constants::PUZZLE_ID_SKELETON)
        } else if r == constants::ITEM_ID_TROLL && edible {
            self.spec_die(wg).after(MsgV::Response(constants::STR_ID_TROLL_FED))
        } else if self.spec_transfer_plant(w, g, r) is Some {
            self.spec_transfer_plant(w, g, r).unwrap()
        } else if w.item_has(g, constants::CTRL_ITEM_LIQUID) {
            self.respond_about(wg, constants::STR_ID_POUR_LIQUID_DEFAULT, r)
        } else {
            self.said(w, MsgV::Text(d.response(constants::STR_ID_THE_START) + w.item(r).shortname@
                + d.response(constants::STR_ID_NOT_INTERESTED) + w.item(g).shortname@ + d.response(constants::STR_ID_DOT)))
        }
    }

    fn transfer_alien(&mut self, data: &mut DataCollection, gift: ItemId, out: &mut Vec<Msg>)
        requires
            old(self).wf(),
            old(data).wf(),
            old(self).can_count(),
            valid_item(gift),
        ensures
            final(self).wf(),
            outcome_holds(*final(self), *final(data), final(out)@, *old(data), old(out)@,
                old(self).spec_transfer_alien(old(data).world(), gift)),
    {
        let chart_used = data.get_item_by_id_certain(constants::ITEM_ID_CHART).is_retired();
        let transmitter_used = data.get_item_by_id_certain(constants::ITEM_ID_TRANSMITTER).is_retired();
        let transmitter_on = data.get_item_by_id_certain(constants::ITEM_ID_TRANSMITTER).is_on();
        if gift == constants::ITEM_ID_CHART {
            data.inv_remove(self.inventory, gift);
            data.set_location_of(gift, constants::LOCATION_ID_GRAVEYARD);
            self.complete_achievement(constants::PUZZLE_ID_CHART, out);
        } else if gift == constants::ITEM_ID_TRANSMITTER && chart_used && transmitter_on {
            data.inv_remove(self.inventory, gift);
            data.set_location_of(gift, constants::LOCATION_ID_GRAVEYARD);
            self.complete_achievement(constants::PUZZLE_ID_TRANSMITTER, out);
        } else if gift == constants::ITEM_ID_LENS && transmitter_used {
            data.loc_insert(self.location, constants::ITEM_ID_PENDANT);
            data.inv_remove(self.inventory, gift);
            data.set_location_of(gift, constants::LOCATION_ID_GRAVEYARD);
            self.complete_obstruction_achievement(data, constants::ITEM_ID_ALIEN, constants::PUZZLE_ID_LENS, out);
        } else {
            out.push(Msg::Response(constants::STR_ID_ALIEN_NO_USE));
        }
    }

    /// Carries out the plant transformations; returns whether one applied.
    fn transfer_plant(&mut self, data: &mut DataCollection, gift: ItemId, recipient: ItemId, out: &mut Vec<Msg>) -> (res: bool)
        requires
            old(self).wf(),
            old(data).wf(),
            old(self).can_count(),
        ensures
            res == old(self).spec_transfer_plant(old(data).world(), gift, recipient) is Some,
            res ==> final(self).wf() && outcome_holds(*final(self), *final(data), final(out)@, *old(data), old(out)@,
                old(self).spec_transfer_plant(old(data).world(), gift, recipient).unwrap()),
            !res ==> *final(self) == *old(self) && *final(data) == *old(data) && final(out)@ == old(out)@,
    {
        let l = self.location;
        let bean_potion = recipient == constants::ITEM_ID_BEAN && gift == constants::ITEM_ID_POTION;
        let bean_water = recipient == constants::ITEM_ID_BEAN && gift == constants::ITEM_ID_WATER && l == constants::LOCATION_ID_HOT;
        let plant_potion = recipient == constants::ITEM_ID_PLANT && gift == constants::ITEM_ID_POTION;
        let mushroom_water = recipient == constants::ITEM_ID_MUSHROOM && gift == constants::ITEM_ID_WATER && l == constants::LOCATION_ID_SMALL;
        if !(bean_potion || bean_water || plant_potion || mushroom_water) {
            return false;
        }
        data.inv_remove(self.inventory, gift);
        self.remove_item_from_current(data, recipient);
        if bean_potion {
            data.loc_insert(l, constants::ITEM_ID_PLANT);
            out.push(Msg::Response(constants::STR_ID_POUR_POTION_BEAN));
        } else if bean_water {
            data.loc_insert(l, constants::ITEM_ID_BEANSTALK);
            data.loc_insert(l, constants::ITEM_ID_BLOSSOM);
            self.complete_achievement(constants::PUZZLE_ID_BEANSTALK, out);
        } else if plant_potion {
            data.loc_insert(l, constants::ITEM_ID_BEAN);
            out.push(Msg::Response(constants::STR_ID_POUR_POTION_PLANT));
        } else {
            data.loc_insert(l, constants::ITEM_ID_TOADSTOOL);
            data.set_direction(l, Direction::North, Some(constants::LOCATION_ID_TOADSTOOL));
            self.complete_achievement(constants::PUZZLE_ID_MUSHROOM, out);
        }
        true
    }

    fn transfer_item(&mut self, data: &mut DataCollection, gift: ItemId, recipient: ItemId, out: &mut Vec<Msg>)
        requires
            old(self).wf(),
            old(data).wf(),
            old(self).can_count(),
            valid_item(gift),
            valid_item(recipient),
        ensures
            final(self).wf(),
            outcome_holds(*final(self), *final(data), final(out)@, *old(data), old(out)@,
                old(self).spec_transfer(*old(data), gift, recipient)),
    {
        let g = data.get_item_by_id_certain(gift);
        let gift_edible = g.has_property(constants::CTRL_ITEM_EDIBLE);
        let gift_liquid = g.has_property(constants::CTRL_ITEM_LIQUID);
        if recipient == constants::ITEM_ID_ALIEN {
            self.transfer_alien(data, gift, out);
        } else if recipient == constants::ITEM_ID_GUNSLINGER && gift == constants::ITEM_ID_MAGAZINE {
            data.loc_insert(self.location, constants::ITEM_ID_CARTRIDGE);
            data.inv_remove(self.inventory, gift);
            self.complete_obstruction_achievement(data, constants::ITEM_ID_GUNSLINGER, constants::PUZZLE_ID_GUNSLINGER, out);
        } else if recipient == constants::ITEM_ID_LION && gift_edible {
            data.inv_remove(self.inventory, gift);
            if gift == constants::ITEM_ID_KOHLRABI {
                out.push(Msg::Response(constants::STR_ID_LION_CABBAGE));
                self.die(data);
            } else {
                out.push(Msg::Response(constants::STR_ID_LION_WHET));
            }
        } else if recipient == constants::ITEM_ID_SKELETON && gift == constants::ITEM_ID_MILK {
            data.loc_insert(self.location, constants::ITEM_ID_BROOCH);
            data.inv_remove(self.inventory, gift);
            self.complete_obstruction_achievement(data, constants::ITEM_ID_SKELETON, constants::PUZZLE_ID_SKELETON, out);
        } else if recipient == constants::ITEM_ID_TROLL && gift_edible {
            data.inv_remove(self.inventory, gift);
            out.push(Msg::Response(constants::STR_ID_TROLL_FED));
            self.die(data);
        } else if self.transfer_plant(data, gift, recipient, out) {
        } else if gift_liquid {
            data.inv_remove(self.inventory, gift);
            let name = data.get_item_by_id_certain(recipient).get_shortname().to_owned();
            out.push(Msg::ResponseParam(constants::STR_ID_POUR_LIQUID_DEFAULT, name));
        } else {
            let mut response = data.get_response(constants::STR_ID_THE_START).to_owned();
            response.append(data.get_item_by_id_certain(recipient).get_shortname());
            response.append(data.get_response(constants::STR_ID_NOT_INTERESTED));
            response.append(data.get_item_by_id_certain(gift).get_shortname());
            response.append(data.get_response(constants::STR_ID_DOT));
            out.push(Msg::Text(response));
        }
    }
    /// Handing gift `g` to the item named `answer`, if it is here.
    pub open spec fn spec_hand_answer(self, d: DataCollection, g: ItemId, answer: Seq<char>) -> Outcome {
        let w = d.world();
        match d.spec_item_by_name(answer) {
            None => self.respond(w, constants::STR_ID_NO_KNOW_WHO_WHAT),
            Some(r) => if self.has_inv(w, r) || self.has_loc(w, r) {
                self.spec_transfer(d, g, r)
            } else {
                self.respond_about(w, constants::STR_ID_NO_SEE_HERE, r)
            },
        }
    }

    fn hand_answer(&mut self, data: &mut DataCollection, gift: ItemId, answer: &str, out: &mut Vec<Msg>)
        requires
            old(self).wf(),
            old(data).wf(),
            old(self).can_count(),
            valid_item(gift),
        ensures
            final(self).wf(),
            outcome_holds(*final(self), *final(data), final(out)@, *old(data), old(out)@,
                old(self).spec_hand_answer(*old(data), gift, answer@)),
    {
        match data.get_item_by_name(answer) {
            None => out.push(Msg::Response(constants::STR_ID_NO_KNOW_WHO_WHAT)),
            Some(recipient) => {
                if self.has_item_present(data, recipient) {
                    self.transfer_item(data, gift, recipient, out);
                } else {
                    let name = data.get_item_by_id_certain(recipient).get_shortname().to_owned();
                    out.push(Msg::ResponseParam(constants::STR_ID_NO_SEE_HERE, name));
                }
            },
        }
    }

    /// Giving item `x`: the player is asked to whom.
    pub open spec fn spec_give(self, w: World, x: ItemId) -> (Outcome, Option<QuestionV>) {
        (self.quiet(w), Some(question_about(w, constants::STR_ID_WHAT_GIVE, x, Pending::Give(x))))
    }

    pub fn give(&mut self, data: &mut DataCollection, item: ItemId, out: &mut Vec<Msg>) -> (res: Option<Question>)
        requires
            old(self).wf(),
            old(data).wf(),
            valid_item(item),
        ensures
            final(self).wf(),
            outcome_holds(*final(self), *final(data), final(out)@, *old(data), old(out)@, old(self).spec_give(old(data).world(), item).0),
            ask_view(res) == old(self).spec_give(old(data).world(), item).1,
    {
        assert(msgs_view(out@) =~= msgs_view(old(out)@) + Seq::<MsgV>::empty());
        let name = data.get_item_by_id_certain(item).get_shortname().to_owned();
        Some(Question { prompt: Msg::ResponseParam(constants::STR_ID_WHAT_GIVE, name), pending: Pending::Give(item) })
    }

    /// Giving item `x` to the item named `answer`.
    pub fn give_answer(&mut self, data: &mut DataCollection, item: ItemId, answer: &str, out: &mut Vec<Msg>)
        requires
            old(self).wf(),
            old(data).wf(),
            old(self).can_count(),
            valid_item(item),
        ensures
            final(self).wf(),
            outcome_holds(*final(self), *final(data), final(out)@, *old(data), old(out)@,
                old(self).spec_hand_answer(*old(data), item, answer@)),
    {
        self.hand_answer(data, item, answer, out);
    }

    /// Pouring item `x`: only a liquid can be poured; the player is asked onto what.
    pub open spec fn spec_pour(self, w: World, x: ItemId) -> (Outcome, Option<QuestionV>) {
        if !w.item_has(x, constants::CTRL_ITEM_LIQUID) {
            (self.respond(w, constants::STR_ID_POUR_NONLIQUID), None)
        } else {
            (self.quiet(w), Some(question_about(w, constants::STR_ID_WHAT_POUR, x, Pending::Pour(x))))
        }
    }

    pub fn pour(&mut self, data: &mut DataCollection, item: ItemId, out: &mut Vec<Msg>) -> (res: Option<Question>)
        requires
            old(self).wf(),
            old(data).wf(),
            valid_item(item),
        ensures
            final(self).wf(),
            outcome_holds(*final(self), *final(data), final(out)@, *old(data), old(out)@, old(self).spec_pour(old(data).world(), item).0),
            ask_view(res) == old(self).spec_pour(old(data).world(), item).1,
    {
        let it = data.get_item_by_id_certain(item);
        if !it.has_property(constants::CTRL_ITEM_LIQUID) {
            out.push(Msg::Response(constants::STR_ID_POUR_NONLIQUID));
            return None;
        }
        assert(msgs_view(out@) =~= msgs_view(old(out)@) + Seq::<MsgV>::empty());
        Some(Question { prompt: Msg::ResponseParam(constants::STR_ID_WHAT_POUR, it.get_shortname().to_owned()), pending: Pending::Pour(item) })
    }

    /// Pouring liquid `x` onto the item named `answer`.
    pub fn pour_answer(&mut self, data: &mut DataCollection, item: ItemId, answer: &str, out: &mut Vec<Msg>)
        requires
            old(self).wf(),
            old(data).wf(),
            old(self).can_count(),
            valid_item(item),
        ensures
            final(self).wf(),
            outcome_holds(*final(self), *final(data), final(out)@, *old(data), old(out)@,
                old(self).spec_hand_answer(*old(data), item, answer@)),
    {
        self.hand_answer(data, item, answer, out);
    }

    /// Feeding item `x`: if it can receive food, the player is asked what to
    /// feed it; otherwise it is the food, which must be carried, and the
    /// player is asked to whom.
    pub open spec fn spec_feed(self, w: World, x: ItemId) -> (Outcome, Option<QuestionV>) {
        if w.item_has(x, constants::CTRL_ITEM_RECIPIENT) {
            (self.quiet(w), Some(question_about(w, constants::STR_ID_WHAT_FEED_DAT, x, Pending::FeedWith(x))))
        } else if !self.has_inv(w, x) {
            (self.respond_about(w, constants::STR_ID_NO_HAVE_INVENTORY, x), None)
        } else {
            (self.quiet(w), Some(question_about(w, constants::STR_ID_WHAT_FEED_ACC, x, Pending::FeedTo(x))))
        }
    }

    pub fn feed(&mut self, data: &mut DataCollection, item: ItemId, out: &mut Vec<Msg>) -> (res: Option<Question>)
        requires
            old(self).wf(),
            old(data).wf(),
            valid_item(item),
        ensures
            final(self).wf(),
            outcome_holds(*final(self), *final(data), final(out)@, *old(data), old(out)@, old(self).spec_feed(old(data).world(), item).0),
            ask_view(res) == old(self).spec_feed(old(data).world(), item).1,
    {
        let it = data.get_item_by_id_certain(item);
        let name = it.get_shortname().to_owned();
        if it.has_property(constants::CTRL_ITEM_RECIPIENT) {
            assert(msgs_view(out@) =~= msgs_view(old(out)@) + Seq::<MsgV>::empty());
            return Some(Question { prompt: Msg::ResponseParam(constants::STR_ID_WHAT_FEED_DAT, name), pending: Pending::FeedWith(item) });
        }
        if !self.has_item_inventory(data, item) {
            out.push(Msg::ResponseParam(constants::STR_ID_NO_HAVE_INVENTORY, name));
            return None;
        }
        assert(msgs_view(out@) =~= msgs_view(old(out)@) + Seq::<MsgV>::empty());
        Some(Question { prompt: Msg::ResponseParam(constants::STR_ID_WHAT_FEED_ACC, name), pending: Pending::FeedTo(item) })
    }

    /// Feeding `direct` to `indirect`, if `indirect` can receive food.
    pub open spec fn spec_feed_item_unknown(self, d: DataCollection, direct: ItemId, indirect: ItemId) -> Outcome {
        if !d.world().item_has(indirect, constants::CTRL_ITEM_RECIPIENT) {
            self.respond_about(d.world(), constants::STR_ID_NOT_FEEDABLE, indirect)
        } else {
            self.spec_transfer(d, direct, indirect)
        }
    }

    fn feed_item_unknown(&mut self, data: &mut DataCollection, direct: ItemId, indirect: ItemId, out: &mut Vec<Msg>)
        requires
            old(self).wf(),
            old(data).wf(),
            old(self).can_count(),
            valid_item(direct),
            valid_item(indirect),
        ensures
            final(self).wf(),
            outcome_holds(*final(self), *final(data), final(out)@, *old(data), old(out)@,
                old(self).spec_feed_item_unknown(*old(data), direct, indirect)),
    {
        let ind = data.get_item_by_id_certain(indirect);
        if !ind.has_property(constants::CTRL_ITEM_RECIPIENT) {
            out.push(Msg::ResponseParam(constants::STR_ID_NOT_FEEDABLE, ind.get_shortname().to_owned()));
            return;
        }
        self.transfer_item(data, direct, indirect, out);
    }

    /// Feeding the carried food `direct` to the item named `answer`, if it is here.
    pub open spec fn spec_feed_to_answer(self, d: DataCollection, direct: ItemId, answer: Seq<char>) -> Outcome {
        let w = d.world();
        match d.spec_item_by_name(answer) {
            None => self.respond(w, constants::STR_ID_NO_KNOW_WHO_WHAT),
            Some(r) => if self.has_inv(w, r) || self.has_loc(w, r) {
                self.spec_feed_item_unknown(d, direct, r)
            } else {
                self.respond_about(w, constants::STR_ID_NO_SEE_HERE, r)
            },
        }
    }

    pub fn feed_to_answer(&mut self, data: &mut DataCollection, direct: ItemId, answer: &str, out: &mut Vec<Msg>)
        requires
            old(self).wf(),
            old(data).wf(),
            old(self).can_count(),
            valid_item(direct),
        ensures
            final(self).wf(),
            outcome_holds(*final(self), *final(data), final(out)@, *old(data), old(out)@,
                old(self).spec_feed_to_answer(*old(data), direct, answer@)),
    {
        match data.get_item_by_name(answer) {
            None => out.push(Msg::Response(constants::STR_ID_NO_KNOW_WHO_WHAT)),
            Some(indirect) => {
                if self.has_item_present(data, indirect) {
                    self.feed_item_unknown(data, direct, indirect, out);
                } else {
                    let name = data.get_item_by_id_certain(indirect).get_shortname().to_owned();
                    out.push(Msg::ResponseParam(constants::STR_ID_NO_SEE_HERE, name));
                }
            },
        }
    }

    /// Feeding the item named `answer`, if carried, to `indirect`.
    pub open spec fn spec_feed_with_answer(self, d: DataCollection, indirect: ItemId, answer: Seq<char>) -> Outcome {
        let w = d.world();
        match d.spec_item_by_name(answer) {
            None => self.respond(w, constants::STR_ID_NO_KNOW_WHO_WHAT),
            Some(g) => if self.has_inv(w, g) {
                self.spec_feed_item_unknown(d, g, indirect)
            } else {
                self.respond_about(w, constants::STR_ID_NO_HAVE_INVENTORY, g)
            },
        }
    }

    pub fn feed_with_answer(&mut self, data: &mut DataCollection, indirect: ItemId, answer: &str, out: &mut Vec<Msg>)
        requires
            old(self).wf(),
            old(data).wf(),
            old(self).can_count(),
            valid_item(indirect),
        ensures
            final(self).wf(),
            outcome_holds(*final(self), *final(data), final(out)@, *old(data), old(out)@,
                old(self).spec_feed_with_answer(*old(data), indirect, answer@)),
    {
        match data.get_item_by_name(answer) {
            None => out.push(Msg::Response(constants::STR_ID_NO_KNOW_WHO_WHAT)),
            Some(direct) => {
                if self.has_item_inventory(data, direct) {
                    self.feed_item_unknown(data, direct, indirect, out);
                } else {
                    let name = data.get_item_by_id_certain(direct).get_shortname().to_owned();
                    out.push(Msg::ResponseParam(constants::STR_ID_NO_HAVE_INVENTORY, name));
                }
            },
        }
    }
    /// Exchanging item `x`: at the building a treasure buys the farm and
    /// ends the game; at the machine the cartridge is taken, and the player
    /// is asked what the machine should make.
    pub open spec fn spec_exchange(self, w: World, x: ItemId) -> (Outcome, Option<QuestionV>) {
        if self.has_loc(w, constants::ITEM_ID_BUILDING) {
            if w.item_has(x, constants::CTRL_ITEM_TREASURE) {
                (Outcome {
                    player: Player { playing: false, ..self },
                    world: w,
                    msgs: seq![MsgV::ResponseParam(constants::STR_ID_EXCHANGE_GOOD, w.item(x).shortname@),
                        MsgV::Response(constants::STR_ID_BUY_FARM)],
                }, None)
            } else {
                (self.respond(w, constants::STR_ID_NOT_VALUABLE), None)
            }
        } else if self.has_loc(w, constants::ITEM_ID_MACHINE) {
            if x != constants::ITEM_ID_CARTRIDGE {
                (self.respond(w, constants::STR_ID_MACHINE_REJECT), None)
            } else {
                (self.quiet(w), Some(QuestionV { prompt: MsgV::Response(constants::STR_ID_MACHINE_ASK), pending: Pending::Machine(x) }))
            }
        } else {
            (self.respond(w, constants::STR_ID_NOWHERE_EXCHANGE), None)
        }
    }

    pub fn exchange(&mut self, data: &mut DataCollection, item: ItemId, out: &mut Vec<Msg>) -> (res: Option<Question>)
        requires
            old(self).wf(),
            old(data).wf(),
            valid_item(item),
        ensures
            final(self).wf(),
            outcome_holds(*final(self), *final(data), final(out)@, *old(data), old(out)@,
                old(self).spec_exchange(old(data).world(), item).0),
            ask_view(res) == old(self).spec_exchange(old(data).world(), item).1,
    {
        let building_present = self.has_item_location(data, constants::ITEM_ID_BUILDING);
        let machine_present = self.has_item_location(data, constants::ITEM_ID_MACHINE);
        if building_present {
            let it = data.get_item_by_id_certain(item);
            if it.has_property(constants::CTRL_ITEM_TREASURE) {
                out.push(Msg::ResponseParam(constants::STR_ID_EXCHANGE_GOOD, it.get_shortname().to_owned()));
                out.push(Msg::Response(constants::STR_ID_BUY_FARM));
                self.playing = false;
            } else {
                out.push(Msg::Response(constants::STR_ID_NOT_VALUABLE));
            }
            None
        } else if machine_present {
            if item != constants::ITEM_ID_CARTRIDGE {
                out.push(Msg::Response(constants::STR_ID_MACHINE_REJECT));
                return None;
            }
            assert(msgs_view(out@) =~= msgs_view(old(out)@) + Seq::<MsgV>::empty());
            Some(Question { prompt: Msg::Response(constants::STR_ID_MACHINE_ASK), pending: Pending::Machine(item) })
        } else {
            out.push(Msg::Response(constants::STR_ID_NOWHERE_EXCHANGE));
            None
        }
    }

    /// The machine makes `request` for `cartridge`, if it can and has not
    /// yet; the cartridge then turns up where its use lies.
    pub open spec fn spec_operate_machine(self, w: World, cartridge: ItemId, request: ItemId) -> Outcome {
        if !w.item_has(request, constants::CTRL_ITEM_FACTORY) {
            self.respond(w, constants::STR_ID_MACHINE_NO_KNOW_CREATE)
        } else if w.item(request).location != constants::LOCATION_ID_NURSERY {
            self.respond(w, constants::STR_ID_MACHINE_ALREADY_CREATE)
        } else {
            let w1 = w.inv_remove(self.inventory, constants::ITEM_ID_CARTRIDGE);
            let w2 = if request == constants::ITEM_ID_LENS {
                w1.loc_insert(constants::LOCATION_ID_OBSERVATORY, cartridge)
            } else if request == constants::ITEM_ID_WIRE {
                w1.loc_insert(constants::LOCATION_ID_SENSOR, cartridge)
            } else {
                w1
            };
            self.respond_about(w2.loc_insert(self.location, request), constants::STR_ID_MACHINE_DISPENSE, request)
        }
    }

    fn operate_machine(&mut self, data: &mut DataCollection, cartridge: ItemId, request: ItemId, out: &mut Vec<Msg>)
        requires
            old(self).wf(),
            old(data).wf(),
            valid_item(cartridge),
            valid_item(request),
        ensures
            final(self).wf(),
            outcome_holds(*final(self), *final(data), final(out)@, *old(data), old(out)@,
                old(self).spec_operate_machine(old(data).world(), cartridge, request)),
    {
        let req = data.get_item_by_id_certain(request);
        if !req.has_property(constants::CTRL_ITEM_FACTORY) {
            out.push(Msg::Response(constants::STR_ID_MACHINE_NO_KNOW_CREATE));
            return;
        }
        if !req.is_new() {
            out.push(Msg::Response(constants::STR_ID_MACHINE_ALREADY_CREATE));
            return;
        }
        data.inv_remove(self.inventory, constants::ITEM_ID_CARTRIDGE);
        if request == constants::ITEM_ID_LENS {
            data.loc_insert(constants::LOCATION_ID_OBSERVATORY, cartridge);
        } else if request == constants::ITEM_ID_WIRE {
            data.loc_insert(constants::LOCATION_ID_SENSOR, cartridge);
        }
        data.loc_insert(self.location, request);
        let name = data.get_item_by_id_certain(request).get_shortname().to_owned();
        out.push(Msg::ResponseParam(constants::STR_ID_MACHINE_DISPENSE, name));
    }

    /// Asking the machine for the item named `answer` in exchange for `cartridge`.
    pub open spec fn spec_exchange_answer(self, d: DataCollection, cartridge: ItemId, answer: Seq<char>) -> Outcome {
        match d.spec_item_by_name(answer) {
            None => self.respond(d.world(), constants::STR_ID_MACHINE_NO_KNOW_WHAT),
            Some(r) => self.spec_operate_machine(d.world(), cartridge, r),
        }
    }

    pub fn exchange_answer(&mut self, data: &mut DataCollection, cartridge: ItemId, answer: &str, out: &mut Vec<Msg>)
        requires
            old(self).wf(),
            old(data).wf(),
            valid_item(cartridge),
        ensures
            final(self).wf(),
            outcome_holds(*final(self), *final(data), final(out)@, *old(data), old(out)@,
                old(self).spec_exchange_answer(*old(data), cartridge, answer@)),
    {
        match data.get_item_by_name(answer) {
            None => out.push(Msg::Response(constants::STR_ID_MACHINE_NO_KNOW_WHAT)),
            Some(request) => self.operate_machine(data, cartridge, request, out),
        }
    }

    /// Tethering item `x` takes the cable; the player is asked to what.
    pub open spec fn spec_tether(self, w: World, x: ItemId) -> (Outcome, Option<QuestionV>) {
        if !self.has_inv(w, constants::ITEM_ID_CABLE) {
            (self.respond_about(w, constants::STR_ID_NO_TETHER, x), None)
        } else {
            (self.quiet(w), Some(question_about(w, constants::STR_ID_WHAT_TETHER, x, Pending::Tether(x))))
        }
    }

    pub fn tether(&mut self, data: &mut DataCollection, item: ItemId, out: &mut Vec<Msg>) -> (res: Option<Question>)
        requires
            old(self).wf(),
            old(data).wf(),
            valid_item(item),
        ensures
            final(self).wf(),
            outcome_holds(*final(self), *final(data), final(out)@, *old(data), old(out)@, old(self).spec_tether(old(data).world(), item).0),
            ask_view(res) == old(self).spec_tether(old(data).world(), item).1,
    {
        let name = data.get_item_by_id_certain(item).get_shortname().to_owned();
        if !self.has_item_inventory(data, constants::ITEM_ID_CABLE) {
            out.push(Msg::ResponseParam(constants::STR_ID_NO_TETHER, name));
            return None;
        }
        assert(msgs_view(out@) =~= msgs_view(old(out)@) + Seq::<MsgV>::empty());
        Some(Question { prompt: Msg::ResponseParam(constants::STR_ID_WHAT_TETHER, name), pending: Pending::Tether(item) })
    }

    /// Tethering item `x` to the item named `answer`: the shuttle, tethered
    /// to the ship, uses up the cable and solves a puzzle.
    pub open spec fn spec_tether_answer(self, d: DataCollection, x: ItemId, answer: Seq<char>) -> Outcome {
        let w = d.world();
        match d.spec_item_by_name(answer) {
            None => self.respond(w, constants::STR_ID_NO_KNOW_WHO_WHAT),
            Some(a) => if !self.has_inv(w, a) && !self.has_loc(w, a) {
                self.respond_about(w, constants::STR_ID_NO_SEE_HERE, a)
            } else if x == constants::ITEM_ID_SHUTTLE && a == constants::ITEM_ID_SHIP {
                self.achieve(w.inv_remove(self.inventory, constants::ITEM_ID_CABLE), constants::PUZZLE_ID_TETHER)
            } else {
                self.respond(w, constants::STR_ID_NO_KNOW_HOW)
            },
        }
    }

    pub fn tether_answer(&mut self, data: &mut DataCollection, item: ItemId, answer: &str, out: &mut Vec<Msg>)
        requires
            old(self).wf(),
            old(data).wf(),
            old(self).can_count(),
        ensures
            final(self).wf(),
            outcome_holds(*final(self), *final(data), final(out)@, *old(data), old(out)@,
                old(self).spec_tether_answer(*old(data), item, answer@)),
    {
        match data.get_item_by_name(answer) {
            None => out.push(Msg::Response(constants::STR_ID_NO_KNOW_WHO_WHAT)),
            Some(anchor) => {
                if !self.has_item_inventory(data, anchor) && !self.has_item_location(data, anchor) {
                    let name = data.get_item_by_id_certain(anchor).get_shortname().to_owned();
                    out.push(Msg::ResponseParam(constants::STR_ID_NO_SEE_HERE, name));
                    return;
                }
                if item == constants::ITEM_ID_SHUTTLE && anchor == constants::ITEM_ID_SHIP {
                    data.inv_remove(self.inventory, constants::ITEM_ID_CABLE);
                    self.complete_achievement(constants::PUZZLE_ID_TETHER, out);
                } else {
                    out.push(Msg::Response(constants::STR_ID_NO_KNOW_HOW));
                }
            },
        }
    }

    /// Playing item `x`: the whistle asks for a tune; the record player plays.
    pub open spec fn spec_play(self, w: World, x: ItemId) -> (Outcome, Option<QuestionV>) {
        if x == constants::ITEM_ID_WHISTLE {
            (self.quiet(w), Some(QuestionV { prompt: MsgV::Response(constants::STR_ID_WHAT_PLAY), pending: Pending::Tune }))
        } else if x == constants::ITEM_ID_PLAYER {
            (self.spec_play_player(w, x), None)
        } else {
            (self.respond(w, constants::STR_ID_NO_KNOW_HOW), None)
        }
    }

    pub fn play(&mut self, data: &mut DataCollection, item: ItemId, out: &mut Vec<Msg>) -> (res: Option<Question>)
        requires
            old(self).wf(),
            old(data).wf(),
        ensures
            final(self).wf(),
            outcome_holds(*final(self), *final(data), final(out)@, *old(data), old(out)@, old(self).spec_play(old(data).world(), item).0),
            ask_view(res) == old(self).spec_play(old(data).world(), item).1,
    {
        if item == constants::ITEM_ID_WHISTLE {
            assert(msgs_view(out@) =~= msgs_view(old(out)@) + Seq::<MsgV>::empty());
            Some(Question { prompt: Msg::Response(constants::STR_ID_WHAT_PLAY), pending: Pending::Tune })
        } else if item == constants::ITEM_ID_PLAYER {
            self.play_player(data, item, out);
            None
        } else {
            out.push(Msg::Response(constants::STR_ID_NO_KNOW_HOW));
            None
        }
    }

    /// Whistling `tune`: the cabbage song calms the lion here, which then
    /// no longer blocks the way.
    pub open spec fn spec_play_answer(self, d: DataCollection, tune: Seq<char>) -> Outcome {
        let w = d.world();
        let played = MsgV::ResponseParam(constants::STR_ID_PLAY_WHISTLE, tune);
        if tune == d.response(constants::STR_ID_CABBAGE) && self.has_loc(w, constants::ITEM_ID_LION)
            && w.item_has(constants::ITEM_ID_LION, constants::CTRL_ITEM_OBSTRUCTION) {
            self.achieve(w.set_item_property(constants::ITEM_ID_LION, constants::CTRL_ITEM_OBSTRUCTION, false), constants::PUZZLE_ID_LION)
                .after(played)
        } else {
            self.said(w, played)
        }
    }

    pub fn play_answer(&mut self, data: &mut DataCollection, tune: &str, out: &mut Vec<Msg>)
        requires
            old(self).wf(),
            old(data).wf(),
            old(self).can_count(),
        ensures
            final(self).wf(),
            outcome_holds(*final(self), *final(data), final(out)@, *old(data), old(out)@,
                old(self).spec_play_answer(*old(data), tune@)),
    {
        out.push(Msg::ResponseParam(constants::STR_ID_PLAY_WHISTLE, tune.to_owned()));
        let cabbage = data.get_response(constants::STR_ID_CABBAGE).to_owned();
        if tune.to_owned() == cabbage {
            if self.has_item_location(data, constants::ITEM_ID_LION) {
                let lion_obstruction = data.get_item_by_id_certain(constants::ITEM_ID_LION).has_property(constants::CTRL_ITEM_OBSTRUCTION);
                if lion_obstruction {
                    data.set_item_property(constants::ITEM_ID_LION, constants::CTRL_ITEM_OBSTRUCTION, false);
                    self.complete_achievement(constants::PUZZLE_ID_LION, out);
                }
            }
        }
    }
}

} // verus!
