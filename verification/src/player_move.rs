//! Moving about, and what the player sees and scores.
use vstd::prelude::*;

use crate::chance::random_u32;
use crate::constants;
use crate::data_collection::{DataCollection, ItemId, LocationId, Msg, MsgV, StringId, World, msgs_view, valid_item,
    valid_location_id};
use crate::item_list::first_obstruction;
use crate::location::{Direction, dir_index};
use crate::player::{Outcome, Player, outcome_holds};
use crate::text::{decimal, subst, u32_to_string};

verus! {

broadcast use crate::data_collection::lemma_msgs_view_push;

/// The result of trying to move: where the player ends up (if they move),
/// whether they die, what they are told, and the obstruction the message
/// is about.
pub struct MoveV {
    pub next: Option<LocationId>,
    pub death: bool,
    pub response: Option<StringId>,
    pub obstruction: Option<ItemId>,
}

pub open spec fn stay(code: StringId) -> MoveV {
    MoveV { next: None, death: false, response: Some(code), obstruction: None }
}

/// The score for `treasures` stowed, `achievements` made, `deaths` died and
/// `hints` taken: points for treasures and puzzles, less penalties for deaths
/// and hints, and never below zero.
pub open spec fn score(treasures: nat, achievements: nat, deaths: nat, hints: nat) -> int {
    let total = treasures * constants::SCORE_TREASURE + achievements * constants::SCORE_PUZZLE
        - deaths * constants::PENALTY_DEATH - hints * constants::PENALTY_HINT;
    if total < 0 { 0 } else { total }
}

/// Whether the score's terms fit the machine integers that compute it.
pub open spec fn score_in_range(treasures: nat, achievements: nat, deaths: nat, hints: nat) -> bool {
    &&& treasures * constants::SCORE_TREASURE + achievements * constants::SCORE_PUZZLE <= i32::MAX
    &&& deaths * constants::PENALTY_DEATH + hints * constants::PENALTY_HINT <= i32::MAX
}

impl Player {
    /// The first obstruction here, if any.
    pub fn get_current_obstruction(&self, data: &DataCollection) -> (res: Option<ItemId>)
        requires
            self.wf(),
            data.wf(),
        ensures
            res == first_obstruction(data.world().items, self.loc(data.world()).items, 0),
            res matches Some(x) ==> valid_item(x),
    {
        proof {
            data.lemma_wf_sizes();
            crate::item_list::lemma_first_obstruction_valid(data.world().items, data.world().loc(self.location).items, 0);
        }
        data.get_location_certain(self.location).get_obstruction(&data.items)
    }

    /// What the player sees of something: nothing but `haze` in a haze,
    /// nothing but `darkness` in the dark, else `default`.
    pub open spec fn spec_effective(self, w: World, haze: Seq<char>, darkness: Seq<char>, default: Seq<char>) -> Seq<char> {
        if self.spec_light_needsno(w) {
            haze
        } else if !self.spec_has_light(w) {
            darkness
        } else {
            default
        }
    }

    pub fn get_effective_description(&self, data: &DataCollection, haze_description: String, darkness_description: String,
        default_description: String) -> (res: String)
        requires
            self.wf(),
            data.wf(),
        ensures
            res@ == self.spec_effective(data.world(), haze_description@, darkness_description@, default_description@),
    {
        if self.has_light_and_needsno_light(data) {
            return haze_description;
        }
        if !self.has_light(data) {
            return darkness_description;
        }
        default_description
    }

    pub open spec fn spec_appearance(self, d: DataCollection, w: World, default: Seq<char>) -> Seq<char> {
        self.spec_effective(w, d.response(constants::STR_ID_NO_SEE_HAZE), d.response(constants::STR_ID_NO_SEE_DARKNESS), default)
    }

    pub fn get_effective_appearance(&self, data: &DataCollection, default_description: String) -> (res: String)
        requires
            self.wf(),
            data.wf(),
        ensures
            res@ == self.spec_appearance(*data, data.world(), default_description@),
    {
        let haze = data.get_response(constants::STR_ID_NO_SEE_HAZE).to_owned();
        let darkness = data.get_response(constants::STR_ID_NO_SEE_DARKNESS).to_owned();
        self.get_effective_description(data, haze, darkness, default_description)
    }

    /// The name of the player's location, as the prompt shows it.
    pub fn get_location_stubname(&self, data: &DataCollection) -> (res: String)
        requires
            self.wf(),
            data.wf(),
        ensures
            res@ == self.spec_effective(data.world(), constants::STR_LOCATION_UNKNOWN@, constants::STR_LOCATION_UNKNOWN@,
                self.loc(data.world()).shortname),
    {
        let unknown_description = constants::STR_LOCATION_UNKNOWN.to_owned();
        let shortname = data.get_location_certain(self.location).get_shortname();
        self.get_effective_description(data, unknown_description.clone(), unknown_description, shortname)
    }

    pub open spec fn spec_location_string(self, d: DataCollection, w: World) -> Seq<char> {
        self.loc(w).spec_full_string(w.items, d.response(constants::STR_ID_YOU_ARE), d.response(constants::STR_ID_HOT))
    }

    fn mk_location_string(&self, data: &DataCollection) -> (res: String)
        requires
            self.wf(),
            data.wf(),
        ensures
            res@ == self.spec_location_string(*data, data.world()),
    {
        proof {
            data.lemma_wf_sizes();
        }
        let loc = data.get_location_certain(self.location);
        loc.mk_full_string(&data.items, data.get_response(constants::STR_ID_YOU_ARE), data.get_response(constants::STR_ID_HOT))
    }

    /// Looking around: the place is marked visited, and described if the player can see.
    pub fn get_look(&self, data: &mut DataCollection) -> (res: String)
        requires
            self.wf(),
            old(data).wf(),
        ensures
            final(data).wf(),
            final(data).same_static(*old(data)),
            final(data).world() == old(data).world().set_visited(self.location, true),
            res@ == self.spec_appearance(*old(data), final(data).world(), self.spec_location_string(*old(data), final(data).world())),
    {
        data.set_visited(self.location, true);
        let full = self.mk_location_string(data);
        self.get_effective_appearance(data, full)
    }

    /// What the player carries, as they are told it.
    pub open spec fn spec_inventory_string(self, d: DataCollection) -> Seq<char> {
        if self.inv(d.world()).is_empty() {
            d.response(constants::STR_ID_INVENTORY_EMPTY)
        } else {
            d.response(constants::STR_ID_INVENTORY_INTRO)
                + self.inv(d.world()).spec_listing(d.world().items, self.inv(d.world()).items.len() as int)
        }
    }

    pub fn mk_inventory_string(&self, data: &DataCollection) -> (res: String)
        requires
            self.wf(),
            data.wf(),
        ensures
            res@ == self.spec_inventory_string(*data),
    {
        proof {
            data.lemma_wf_sizes();
        }
        let inv = data.get_inventory(self.inventory);
        inv.mk_string(&data.items, data.get_response(constants::STR_ID_INVENTORY_EMPTY),
            data.get_response(constants::STR_ID_INVENTORY_INTRO))
    }

    /// The id of the player's location, as a message (a debugging aid).
    pub fn get_node(&self, data: &DataCollection) -> (res: String)
        requires
            data.wf(),
        ensures
            res@ == subst(data.response(constants::STR_ID_NODE), decimal(self.location as nat)),
    {
        let id = u32_to_string(self.location);
        data.get_response_param(constants::STR_ID_NODE, id.as_str())
    }

    /// Moving straight to location `next` (a debugging aid).
    pub fn flash(&mut self, data: &DataCollection, next: LocationId, out: &mut Vec<Msg>)
        requires
            old(self).wf(),
            data.wf(),
            valid_location_id(next),
        ensures
            final(self).wf(),
            *final(self) == (Player { location: next, previous: None, ..*old(self) }),
            msgs_view(final(out)@) == msgs_view(old(out)@).push(MsgV::Text(data.world().loc(next).spec_arrival_string(
                data.world().items, data.response(constants::STR_ID_YOU_ARE), data.response(constants::STR_ID_HOT)))),
    {
        proof {
            data.lemma_wf_sizes();
        }
        self.location = next;
        self.previous = None;
        let loc = data.get_location_certain(next);
        let s = loc.mk_arrival_string(&data.items, data.get_response(constants::STR_ID_YOU_ARE), data.get_response(constants::STR_ID_HOT));
        out.push(Msg::Text(s));
    }

    /// The player's score (see `score`).
    fn calculate_score(&self, data: &DataCollection) -> (res: u32)
        requires
            data.wf(),
            score_in_range(data.stowed_treasures() as nat, self.achievement_count as nat, self.deaths as nat, self.hints as nat),
        ensures
            res == score(data.stowed_treasures() as nat, self.achievement_count as nat, self.deaths as nat, self.hints as nat),
    {
        let treasures = data.get_stowed_treasure_count();
        let treasure_score: i64 = treasures as i64 * constants::SCORE_TREASURE as i64;
        let achievement_score: i64 = self.achievement_count as i64 * constants::SCORE_PUZZLE as i64;
        let death_penalty: i64 = self.deaths as i64 * constants::PENALTY_DEATH as i64;
        let hint_penalty: i64 = self.hints as i64 * constants::PENALTY_HINT as i64;
        let total_score: i64 = treasure_score + achievement_score - death_penalty - hint_penalty;
        if total_score < 0 { 0 } else { total_score as u32 }
    }

    /// The score report opening with response `response_code_start`.
    pub open spec fn spec_score_str(self, d: DataCollection, start: StringId) -> Seq<char> {
        d.response(start)
            + subst(d.response(constants::STR_ID_SCORE_POINTS), decimal(score(d.stowed_treasures() as nat,
                self.achievement_count as nat, self.deaths as nat, self.hints as nat) as nat))
            + subst(d.response(constants::STR_ID_SCORE_DIED), decimal(d.max_score as nat))
            + subst(d.response(constants::STR_ID_SCORE_DEATHS), decimal(self.deaths as nat))
            + subst(d.response(constants::STR_ID_SCORE_INSTRUCTIONS), decimal(self.instructions as nat))
            + subst(d.response(constants::STR_ID_SCORE_HINTS), decimal(self.hints as nat))
    }

    pub fn get_score_str(&self, data: &DataCollection, response_code_start: StringId) -> (res: String)
        requires
            data.wf(),
            response_code_start < constants::EXPECTED_STRINGS_RESPONSES,
            score_in_range(data.stowed_treasures() as nat, self.achievement_count as nat, self.deaths as nat, self.hints as nat),
        ensures
            res@ == self.spec_score_str(*data, response_code_start),
    {
        let total_score = self.calculate_score(data);
        let mut s = data.get_response(response_code_start).to_owned();
        let points = data.get_response_param(constants::STR_ID_SCORE_POINTS, u32_to_string(total_score).as_str());
        s.append(points.as_str());
        let max = data.get_response_param(constants::STR_ID_SCORE_DIED, u32_to_string(data.get_max_score()).as_str());
        s.append(max.as_str());
        let deaths = data.get_response_param(constants::STR_ID_SCORE_DEATHS, u32_to_string(self.deaths).as_str());
        s.append(deaths.as_str());
        let instructions = data.get_response_param(constants::STR_ID_SCORE_INSTRUCTIONS, u32_to_string(self.instructions).as_str());
        s.append(instructions.as_str());
        let hints = data.get_response_param(constants::STR_ID_SCORE_HINTS, u32_to_string(self.hints).as_str());
        s.append(hints.as_str());
        s
    }
    /// What stops the player going `dir` to `next`: no air there (nor
    /// carried), gravity holding them down or pulling them through a
    /// missing floor, or open water (with no means to stay afloat).
    pub open spec fn spec_movement_problem(self, w: World, dir: Direction, next: LocationId) -> Option<StringId> {
        if !w.loc(next).has_or_contains_gives(w.items, constants::CTRL_LOC_HAS_AIR, constants::CTRL_ITEM_GIVES_AIR, false)
            && !self.inv_gives(w, constants::CTRL_ITEM_GIVES_AIR, false) {
            Some(constants::STR_ID_NO_AIR)
        } else if dir == Direction::Up && self.spec_has_gravity(w) && self.loc(w).has(constants::CTRL_LOC_NEEDSNO_GRAVITY) {
            Some(constants::STR_ID_NO_REACH_CEILING)
        } else if dir == Direction::Down && self.spec_has_gravity(w) && !self.loc(w).has(constants::CTRL_LOC_HAS_FLOOR) {
            Some(constants::STR_ID_DOWN_KILL)
        } else if !w.loc(next).has(constants::CTRL_LOC_HAS_LAND) && !self.inv_gives(w, constants::CTRL_ITEM_GIVES_LAND, false) {
            Some(constants::STR_ID_OPEN_WATER)
        } else {
            None
        }
    }

    fn has_environmental_movement_problem(&self, data: &DataCollection, dir: Direction, next: LocationId) -> (res: Option<StringId>)
        requires
            self.wf(),
            data.wf(),
            valid_location_id(next),
        ensures
            res == self.spec_movement_problem(data.world(), dir, next),
    {
        proof {
            data.lemma_wf_sizes();
        }
        let next_loc = data.get_location_certain(next);
        let inv = data.get_inventory(self.inventory);
        if !next_loc.has_or_contains_with_property(&data.items, constants::CTRL_LOC_HAS_AIR, constants::CTRL_ITEM_GIVES_AIR, false)
            && !inv.contains_with_property(&data.items, constants::CTRL_ITEM_GIVES_AIR, false) {
            return Some(constants::STR_ID_NO_AIR);
        }
        let here = data.get_location_certain(self.location);
        if dir == Direction::Up && self.has_gravity(data) && here.has_property(constants::CTRL_LOC_NEEDSNO_GRAVITY) {
            return Some(constants::STR_ID_NO_REACH_CEILING);
        }
        if dir == Direction::Down && self.has_gravity(data) && !here.has_property(constants::CTRL_LOC_HAS_FLOOR) {
            return Some(constants::STR_ID_DOWN_KILL);
        }
        if !next_loc.has_property(constants::CTRL_LOC_HAS_LAND) && !inv.contains_with_property(&data.items, constants::CTRL_ITEM_GIVES_LAND, false) {
            return Some(constants::STR_ID_OPEN_WATER);
        }
        None
    }

    /// Stepping to the adjacent `next`: in the dark, or without protection
    /// from the snomps, one move in `death_divisor` (as the roll
    /// `death_rand` decides) is fatal.
    pub open spec fn spec_move_to(self, w: World, next: LocationId, death_rand: u32) -> MoveV {
        let death = death_rand % self.death_divisor == 0;
        if !self.spec_has_light(w) && !w.loc(next).has_or_contains_gives(w.items, constants::CTRL_LOC_HAS_LIGHT,
            constants::CTRL_ITEM_GIVES_LIGHT, true) && death {
            MoveV { next: None, death: true, response: Some(constants::STR_ID_BREAK_NECK), obstruction: None }
        } else if !self.spec_has_nosnomp(w) && !w.loc(next).has_or_contains_gives(w.items, constants::CTRL_LOC_HAS_NOSNOMP,
            constants::CTRL_ITEM_GIVES_NOSNOMP, false) && death {
            MoveV { next: None, death: true, response: Some(constants::STR_ID_SNOMP_KILL), obstruction: None }
        } else {
            MoveV { next: Some(next), death: false, response: None, obstruction: None }
        }
    }

    fn try_move_to(&self, data: &DataCollection, next: LocationId, death_rand: u32) -> (res: (Option<LocationId>, bool, Option<StringId>, Option<ItemId>))
        requires
            self.wf(),
            data.wf(),
            valid_location_id(next),
        ensures
            res.0 == self.spec_move_to(data.world(), next, death_rand).next,
            res.1 == self.spec_move_to(data.world(), next, death_rand).death,
            res.2 == self.spec_move_to(data.world(), next, death_rand).response,
            res.3 == self.spec_move_to(data.world(), next, death_rand).obstruction,
    {
        proof {
            data.lemma_wf_sizes();
        }
        let death = death_rand % self.death_divisor == 0;
        let next_loc = data.get_location_certain(next);
        if !self.has_light(data) && !next_loc.has_or_contains_with_switchable_property(&data.items, constants::CTRL_LOC_HAS_LIGHT,
            constants::CTRL_ITEM_GIVES_LIGHT) && death {
            (None, true, Some(constants::STR_ID_BREAK_NECK), None)
        } else if !self.has_nosnomp(data) && !next_loc.has_or_contains_with_property(&data.items, constants::CTRL_LOC_HAS_NOSNOMP,
            constants::CTRL_ITEM_GIVES_NOSNOMP, false) && death {
            (None, true, Some(constants::STR_ID_SNOMP_KILL), None)
        } else {
            (Some(next), false, None, None)
        }
    }

    /// Getting past obstruction `ob` on the way to `next`: the buccaneer
    /// lets only an invisible player by; the corsair hears a player in boots
    /// and kills them; anything else just blocks the way.
    pub open spec fn spec_move_obstruction(self, w: World, ob: ItemId, next: LocationId) -> MoveV {
        if ob == constants::ITEM_ID_BUCCANEER {
            if !self.spec_has_invisibility(w) {
                MoveV { next: None, death: false, response: Some(constants::STR_ID_BUCCANEER_WATCHING), obstruction: Some(ob) }
            } else {
                MoveV { next: Some(next), death: false, response: Some(constants::STR_ID_BUCCANEER_SNEAK_PAST), obstruction: None }
            }
        } else if ob == constants::ITEM_ID_CORSAIR {
            if self.has_inv(w, constants::ITEM_ID_BOOTS) {
                MoveV { next: None, death: true, response: Some(constants::STR_ID_CORSAIR_SNEAK_PAST), obstruction: Some(ob) }
            } else {
                MoveV { next: None, death: false, response: Some(constants::STR_ID_CORSAIR_LISTENING), obstruction: Some(ob) }
            }
        } else {
            MoveV { next: None, death: false, response: Some(constants::STR_ID_BLOCKED), obstruction: Some(ob) }
        }
    }

    fn try_move_obstruction(&self, data: &DataCollection, obstruction: ItemId, next: LocationId)
        -> (res: (Option<LocationId>, bool, Option<StringId>, Option<ItemId>))
        requires
            self.wf(),
            data.wf(),
        ensures
            res.0 == self.spec_move_obstruction(data.world(), obstruction, next).next,
            res.1 == self.spec_move_obstruction(data.world(), obstruction, next).death,
            res.2 == self.spec_move_obstruction(data.world(), obstruction, next).response,
            res.3 == self.spec_move_obstruction(data.world(), obstruction, next).obstruction,
    {
        let mut next_loc_option: Option<LocationId> = None;
        let mut death = false;
        let mut response_code = constants::STR_ID_BLOCKED;
        let mut obstruction_code_option = Some(obstruction);
        if obstruction == constants::ITEM_ID_BUCCANEER {
            if !self.has_invisibility(data) {
                response_code = constants::STR_ID_BUCCANEER_WATCHING;
            } else {
                next_loc_option = Some(next);
                obstruction_code_option = None;
                response_code = constants::STR_ID_BUCCANEER_SNEAK_PAST;
            }
        } else if obstruction == constants::ITEM_ID_CORSAIR {
            if self.has_item_inventory(data, constants::ITEM_ID_BOOTS) {
                death = true;
                response_code = constants::STR_ID_CORSAIR_SNEAK_PAST;
            } else {
                response_code = constants::STR_ID_CORSAIR_LISTENING;
            }
        }
        (next_loc_option, death, Some(response_code), obstruction_code_option)
    }

    /// Trying to go `dir`: back to where the player last was, or along an
    /// exit from here, past any obstruction (unless going back the way they
    /// came) and any problem of the surroundings.
    pub open spec fn spec_try_move(self, w: World, dir: Direction, death_rand: u32) -> MoveV {
        if dir == Direction::Back {
            match self.previous {
                None => stay(constants::STR_ID_NO_REMEMBER),
                Some(prev) => match self.spec_movement_problem(w, dir, prev) {
                    Some(p) => stay(p),
                    None => self.spec_move_to(w, prev, death_rand),
                },
            }
        } else {
            match self.loc(w).directions[dir_index(dir)] {
                None => stay(if dir == Direction::Out { constants::STR_ID_NO_IN_OUT } else { constants::STR_ID_CANNOT_GO }),
                Some(next) => {
                    let ob = first_obstruction(w.items, self.loc(w).items, 0);
                    if self.previous != Some(next) && ob is Some {
                        self.spec_move_obstruction(w, ob.unwrap(), next)
                    } else {
                        match self.spec_movement_problem(w, dir, next) {
                            Some(p) => stay(p),
                            None => self.spec_move_to(w, next, death_rand),
                        }
                    }
                },
            }
        }
    }

    fn try_move(&self, data: &DataCollection, dir: Direction, death_rand: u32) -> (res: (Option<LocationId>, bool, Option<StringId>, Option<ItemId>))
        requires
            self.wf(),
            data.wf(),
        ensures
            res.0 == self.spec_try_move(data.world(), dir, death_rand).next,
            res.1 == self.spec_try_move(data.world(), dir, death_rand).death,
            res.2 == self.spec_try_move(data.world(), dir, death_rand).response,
            res.3 == self.spec_try_move(data.world(), dir, death_rand).obstruction,
            res.0 matches Some(n) ==> valid_location_id(n),
            res.3 matches Some(ob) ==> valid_item(ob),
    {
        proof {
            data.lemma_wf_sizes();
            crate::item_list::lemma_first_obstruction_valid(data.world().items, data.world().loc(self.location).items, 0);
        }
        if dir == Direction::Back {
            match self.previous {
                None => (None, false, Some(constants::STR_ID_NO_REMEMBER), None),
                Some(prev) => {
                    if let Some(movement_problem_id) = self.has_environmental_movement_problem(data, dir, prev) {
                        return (None, false, Some(movement_problem_id), None);
                    }
                    self.try_move_to(data, prev, death_rand)
                },
            }
        } else {
            let here = data.get_location_certain(self.location);
            proof {
                assert(data.world().locations[self.location as int].directions.len() == crate::location::DIRECTION_COUNT);
            }
            match here.get_direction(dir) {
                None => {
                    if dir == Direction::Out {
                        return (None, false, Some(constants::STR_ID_NO_IN_OUT), None);
                    }
                    (None, false, Some(constants::STR_ID_CANNOT_GO), None)
                },
                Some(next) => {
                    proof {
                        assert(data.world().locations[self.location as int].directions[dir_index(dir)] == Some(next));
                    }
                    if !self.is_previous_loc(next) {
                        if let Some(obstruction) = here.get_obstruction(&data.items) {
                            return self.try_move_obstruction(data, obstruction, next);
                        }
                    }
                    if let Some(movement_problem_id) = self.has_environmental_movement_problem(data, dir, next) {
                        return (None, false, Some(movement_problem_id), None);
                    }
                    self.try_move_to(data, next, death_rand)
                },
            }
        }
    }

    /// Going `dir`, with `death_rand` the roll that decides a risky move.
    /// The player is told why they cannot go (naming the obstruction, if
    /// they can see it), or where they arrive (which is then visited, and
    /// remembered as the way back if it leads back here); a fatal move kills
    /// them.
    pub open spec fn spec_go(self, d: DataCollection, dir: Direction, death_rand: u32) -> Outcome {
        let w = d.world();
        let mv = self.spec_try_move(w, dir, death_rand);
        let told: Seq<MsgV> = match mv.response {
            None => Seq::empty(),
            Some(code) => match mv.obstruction {
                None => seq![MsgV::Response(code)],
                Some(ob) => seq![MsgV::ResponseParam(code, self.spec_effective(w, d.response(constants::STR_ID_OBSTRUCTION_UNKNOWN),
                    d.response(constants::STR_ID_OBSTRUCTION_UNKNOWN), w.item(ob).longname@))],
            },
        };
        let o = match mv.next {
            None => Outcome { player: self, world: w, msgs: told },
            Some(n) => {
                let p1 = Player {
                    location: n,
                    previous: if w.loc(n).directions.contains(Some(self.location)) { Some(self.location) } else { None },
                    ..self
                };
                let arrival = w.loc(n).spec_arrival_string(w.items, d.response(constants::STR_ID_YOU_ARE), d.response(constants::STR_ID_HOT));
                Outcome { player: p1, world: w.set_visited(n, true), msgs: told.push(MsgV::Text(p1.spec_appearance(d, w, arrival))) }
            },
        };
        if mv.death {
            Outcome { msgs: o.msgs, ..o.player.spec_die(o.world) }
        } else {
            o
        }
    }

    /// Going `dir`, with the fatal roll decided by `death_rand`.
    pub fn go_rolled(&mut self, data: &mut DataCollection, dir: Direction, death_rand: u32, out: &mut Vec<Msg>)
        requires
            old(self).wf(),
            old(data).wf(),
            old(self).can_count(),
        ensures
            final(self).wf(),
            outcome_holds(*final(self), *final(data), final(out)@, *old(data), old(out)@, old(self).spec_go(*old(data), dir, death_rand)),
    {
        proof {
            data.lemma_wf_sizes();
        }
        let location_before = self.location;
        let (next_location_option, death, response_code_option, obstruction_code_option) = self.try_move(data, dir, death_rand);
        if let Some(response_code) = response_code_option {
            match obstruction_code_option {
                None => out.push(Msg::Response(response_code)),
                Some(obstruction_code) => {
                    let obstruction_longname = data.get_item_by_id_certain(obstruction_code).get_longname().to_owned();
                    let obstruction_unknown = data.get_response(constants::STR_ID_OBSTRUCTION_UNKNOWN).to_owned();
                    let shown = self.get_effective_description(data, obstruction_unknown.clone(), obstruction_unknown, obstruction_longname);
                    out.push(Msg::ResponseParam(response_code, shown));
                },
            }
        }
        if let Some(next_location) = next_location_option {
            self.location = next_location;
            let reaches_back = data.get_location_certain(next_location).can_reach(location_before);
            if reaches_back {
                self.previous = Some(location_before);
            } else {
                self.previous = None;
            }
            let arrival_description = data.get_location_certain(next_location).mk_arrival_string(&data.items,
                data.get_response(constants::STR_ID_YOU_ARE), data.get_response(constants::STR_ID_HOT));
            let shown = self.get_effective_appearance(data, arrival_description);
            out.push(Msg::Text(shown));
            data.set_visited(next_location, true);
        }
        if death {
            self.die(data);
        }
    }

    /// Going `dir`: a risky move is fatal on a random roll, as `go_rolled`
    /// says for that roll.
    pub fn go(&mut self, data: &mut DataCollection, dir: Direction, out: &mut Vec<Msg>)
        requires
            old(self).wf(),
            old(data).wf(),
            old(self).can_count(),
        ensures
            final(self).wf(),
            exists|death_rand: u32| outcome_holds(*final(self), *final(data), final(out)@, *old(data), old(out)@,
                old(self).spec_go(*old(data), dir, death_rand)),
    {
        let death_rand = random_u32();
        self.go_rolled(data, dir, death_rand, out);
    }
}

} // verus!
