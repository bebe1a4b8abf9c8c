//! The player: where they are, what they carry, how they fare, and what
//! each of their actions does to the world.
//!
//! Every action appends what the game tells the player to `out`, and is
//! specified by a spec function giving the player, the world and the
//! messages that result (an `Outcome`).
use vstd::prelude::*;

use crate::constants;
use crate::data_collection::{DataCollection, InventoryId, ItemId, LocationId, Msg, MsgV, StringId, World, msgs_view, valid_inventory_id,
    valid_item, valid_location_id};
use crate::item::Item;
use crate::item_list::set_gives;
use crate::location::{Direction, LocationV};
use crate::inventory::InventoryV;

verus! {

#[derive(PartialEq, Eq, Structural, Clone, Copy, Debug)]
pub struct Player {
    pub inventory: InventoryId,
    pub location: LocationId,
    pub previous: Option<LocationId>,
    /// The number of puzzles solved.
    pub achievement_count: u32,
    /// Whether the game goes on.
    pub playing: bool,
    /// The number of hints taken.
    pub hints: u32,
    /// The number of instructions entered.
    pub instructions: u32,
    pub deaths: u32,
    /// One in this many risky moves is fatal.
    pub death_divisor: u32,
    pub alive: bool,
    pub strong: bool,
    /// Where the player's essential items go when they die.
    pub location_id_safe: LocationId,
    /// Where the player wakes after dying.
    pub location_id_wake: LocationId,
}

/// The player, the world and the messages after an action.
pub struct Outcome {
    pub player: Player,
    pub world: World,
    pub msgs: Seq<MsgV>,
}

impl Outcome {
    /// `m` told before the messages of `self`.
    pub open spec fn after(self, m: MsgV) -> Outcome {
        Outcome { msgs: seq![m] + self.msgs, ..self }
    }

    /// `m` told after the messages of `self`.
    pub open spec fn and_say(self, m: MsgV) -> Outcome {
        Outcome { msgs: self.msgs.push(m), ..self }
    }
}

/// The player `p`, world of `d`, and messages `out` (appended to `out0`) are those of `o`.
pub open spec fn outcome_holds(p: Player, d: DataCollection, out: Seq<Msg>, d0: DataCollection, out0: Seq<Msg>, o: Outcome) -> bool {
    &&& p == o.player
    &&& d.world() == o.world
    &&& d.same_static(d0)
    &&& d.wf()
    &&& msgs_view(out) =~= msgs_view(out0) + o.msgs
}

impl Player {
    pub open spec fn wf(self) -> bool {
        &&& valid_location_id(self.location)
        &&& valid_inventory_id(self.inventory)
        &&& (self.previous matches Some(p) ==> valid_location_id(p))
        &&& valid_location_id(self.location_id_safe)
        &&& valid_location_id(self.location_id_wake)
        &&& self.death_divisor > 0
    }

    /// The counters that an action may raise can still be raised.
    pub open spec fn can_count(self) -> bool {
        self.achievement_count < u32::MAX && self.deaths < u32::MAX
    }

    pub open spec fn loc(self, w: World) -> LocationV {
        w.loc(self.location)
    }

    pub open spec fn inv(self, w: World) -> InventoryV {
        w.inv(self.inventory)
    }

    pub open spec fn said(self, w: World, m: MsgV) -> Outcome {
        Outcome { player: self, world: w, msgs: seq![m] }
    }

    pub open spec fn respond(self, w: World, k: StringId) -> Outcome {
        self.said(w, MsgV::Response(k))
    }

    pub open spec fn inv_gives(self, w: World, code: u32, on_optional: bool) -> bool {
        set_gives(w.items, self.inv(w).items, code, on_optional, false)
    }

    pub open spec fn spec_has_light(self, w: World) -> bool {
        self.loc(w).has_or_contains_gives(w.items, constants::CTRL_LOC_HAS_LIGHT, constants::CTRL_ITEM_GIVES_LIGHT, true)
            || self.inv_gives(w, constants::CTRL_ITEM_GIVES_LIGHT, true)
    }

    pub open spec fn spec_light_needsno(self, w: World) -> bool {
        self.loc(w).has(constants::CTRL_LOC_NEEDSNO_LIGHT)
            && (self.inv_gives(w, constants::CTRL_ITEM_GIVES_LIGHT, true)
                || self.loc(w).contains_gives(w.items, constants::CTRL_ITEM_GIVES_LIGHT, true))
    }

    pub open spec fn spec_has_air(self, w: World) -> bool {
        self.loc(w).has_or_contains_gives(w.items, constants::CTRL_LOC_HAS_AIR, constants::CTRL_ITEM_GIVES_AIR, false)
            || self.inv_gives(w, constants::CTRL_ITEM_GIVES_AIR, false)
    }

    pub open spec fn spec_has_gravity(self, w: World) -> bool {
        self.loc(w).has(constants::CTRL_LOC_HAS_GRAVITY) || self.inv_gives(w, constants::CTRL_ITEM_GIVES_GRAVITY, false)
    }

    pub open spec fn spec_has_nosnomp(self, w: World) -> bool {
        self.loc(w).has_or_contains_gives(w.items, constants::CTRL_LOC_HAS_NOSNOMP, constants::CTRL_ITEM_GIVES_NOSNOMP, false)
            || self.inv_gives(w, constants::CTRL_ITEM_GIVES_NOSNOMP, false)
    }

    pub open spec fn spec_has_land(self, w: World) -> bool {
        self.loc(w).has(constants::CTRL_LOC_HAS_LAND) || self.inv_gives(w, constants::CTRL_ITEM_GIVES_LAND, false)
    }

    pub open spec fn spec_has_invisibility(self, w: World) -> bool {
        self.inv_gives(w, constants::CTRL_ITEM_GIVES_INVISIBILITY, false)
    }

    pub open spec fn has_inv(self, w: World, x: ItemId) -> bool {
        w.inv_has(self.inventory, x)
    }

    pub open spec fn has_loc(self, w: World, x: ItemId) -> bool {
        w.loc_has(self.location, x)
    }

    /// The player and world after the player dies: they lose a life, their
    /// belongings are dropped (essential ones in the safe place) and they
    /// are moved to where they wake.
    pub open spec fn spec_die(self, w: World) -> Outcome {
        Outcome {
            player: Player {
                alive: false,
                deaths: (self.deaths + 1) as u32,
                location: self.location_id_wake,
                previous: None,
                ..self
            },
            world: w.drop_on_death(self.inventory, self.location, self.location_id_safe),
            msgs: Seq::empty(),
        }
    }

    /// The outcome of solving puzzle `puzzle`.
    pub open spec fn achieve(self, w: World, puzzle: StringId) -> Outcome {
        Outcome {
            player: Player { achievement_count: (self.achievement_count + 1) as u32, ..self },
            world: w,
            msgs: seq![MsgV::Puzzle(puzzle)],
        }
    }

    /// The outcome of solving puzzle `puzzle` by removing obstruction `obstruction`.
    pub open spec fn achieve_obstruction(self, w: World, obstruction: ItemId, puzzle: StringId) -> Outcome {
        self.achieve(w.loc_remove(self.location, obstruction), puzzle)
    }

    /// Item `x` taken from wherever the player finds it: their inventory, or else here.
    pub open spec fn remove_from_current(self, w: World, x: ItemId) -> World {
        if self.has_inv(w, x) { w.inv_remove(self.inventory, x) } else { w.loc_remove(self.location, x) }
    }

    pub fn new(initial: LocationId, inventory: InventoryId) -> (res: Player)
        ensures
            res == (Player {
                inventory,
                location: initial,
                previous: None,
                achievement_count: 0,
                playing: true,
                hints: 0,
                instructions: 0,
                deaths: 0,
                death_divisor: constants::DEATH_DIVISOR_NORMAL,
                alive: true,
                strong: false,
                location_id_safe: constants::LOCATION_ID_SAFE_INITIAL,
                location_id_wake: constants::LOCATION_ID_WAKE_INITIAL,
            }),
    {
        Player {
            inventory,
            location: initial,
            previous: None,
            achievement_count: 0,
            playing: true,
            hints: 0,
            instructions: 0,
            deaths: 0,
            death_divisor: constants::DEATH_DIVISOR_NORMAL,
            alive: true,
            strong: false,
            location_id_safe: constants::LOCATION_ID_SAFE_INITIAL,
            location_id_wake: constants::LOCATION_ID_WAKE_INITIAL,
        }
    }

    pub fn has_light(&self, data: &DataCollection) -> (res: bool)
        requires
            self.wf(),
            data.wf(),
        ensures
            res == self.spec_has_light(data.world()),
    {
        let loc = data.get_location_certain(self.location);
        let inv = data.get_inventory(self.inventory);
        loc.has_or_contains_with_switchable_property(&data.items, constants::CTRL_LOC_HAS_LIGHT, constants::CTRL_ITEM_GIVES_LIGHT)
            || inv.contains_with_switchable_property(&data.items, constants::CTRL_ITEM_GIVES_LIGHT)
    }

    pub(crate) fn has_light_and_needsno_light(&self, data: &DataCollection) -> (res: bool)
        requires
            self.wf(),
            data.wf(),
        ensures
            res == self.spec_light_needsno(data.world()),
    {
        let loc = data.get_location_certain(self.location);
        let inv = data.get_inventory(self.inventory);
        loc.has_property(constants::CTRL_LOC_NEEDSNO_LIGHT)
            && (inv.contains_with_switchable_property(&data.items, constants::CTRL_ITEM_GIVES_LIGHT)
                || loc.contains_with_property(&data.items, constants::CTRL_ITEM_GIVES_LIGHT, true))
    }

    pub fn has_air(&self, data: &DataCollection) -> (res: bool)
        requires
            self.wf(),
            data.wf(),
        ensures
            res == self.spec_has_air(data.world()),
    {
        let loc = data.get_location_certain(self.location);
        let inv = data.get_inventory(self.inventory);
        loc.has_or_contains_with_property(&data.items, constants::CTRL_LOC_HAS_AIR, constants::CTRL_ITEM_GIVES_AIR, false)
            || inv.contains_with_property(&data.items, constants::CTRL_ITEM_GIVES_AIR, false)
    }

    pub fn has_gravity(&self, data: &DataCollection) -> (res: bool)
        requires
            self.wf(),
            data.wf(),
        ensures
            res == self.spec_has_gravity(data.world()),
    {
        let loc = data.get_location_certain(self.location);
        let inv = data.get_inventory(self.inventory);
        loc.has_property(constants::CTRL_LOC_HAS_GRAVITY)
            || inv.contains_with_property(&data.items, constants::CTRL_ITEM_GIVES_GRAVITY, false)
    }

    pub fn has_nosnomp(&self, data: &DataCollection) -> (res: bool)
        requires
            self.wf(),
            data.wf(),
        ensures
            res == self.spec_has_nosnomp(data.world()),
    {
        let loc = data.get_location_certain(self.location);
        let inv = data.get_inventory(self.inventory);
        loc.has_or_contains_with_property(&data.items, constants::CTRL_LOC_HAS_NOSNOMP, constants::CTRL_ITEM_GIVES_NOSNOMP, false)
            || inv.contains_with_property(&data.items, constants::CTRL_ITEM_GIVES_NOSNOMP, false)
    }

    pub fn has_land(&self, data: &DataCollection) -> (res: bool)
        requires
            self.wf(),
            data.wf(),
        ensures
            res == self.spec_has_land(data.world()),
    {
        let loc = data.get_location_certain(self.location);
        let inv = data.get_inventory(self.inventory);
        loc.has_property(constants::CTRL_LOC_HAS_LAND) || inv.contains_with_property(&data.items, constants::CTRL_ITEM_GIVES_LAND, false)
    }

    pub(crate) fn has_invisibility(&self, data: &DataCollection) -> (res: bool)
        requires
            self.wf(),
            data.wf(),
        ensures
            res == self.spec_has_invisibility(data.world()),
    {
        let inv = data.get_inventory(self.inventory);
        inv.contains_with_property(&data.items, constants::CTRL_ITEM_GIVES_INVISIBILITY, false)
    }

    pub fn is_playing(&self) -> (res: bool)
        ensures
            res == self.playing,
    {
        self.playing
    }

    pub fn set_playing(&mut self, b: bool)
        ensures
            *final(self) == (Player { playing: b, ..*old(self) }),
    {
        self.playing = b;
    }

    pub fn is_alive(&self) -> (res: bool)
        ensures
            res == self.alive,
    {
        self.alive
    }

    pub fn set_alive(&mut self, b: bool)
        ensures
            *final(self) == (Player { alive: b, ..*old(self) }),
    {
        self.alive = b;
    }

    pub fn increment_hints(&mut self)
        requires
            old(self).hints < u32::MAX,
        ensures
            *final(self) == (Player { hints: (old(self).hints + 1) as u32, ..*old(self) }),
    {
        self.hints = self.hints + 1;
    }

    pub fn get_instructions(&self) -> (res: u32)
        ensures
            res == self.instructions,
    {
        self.instructions
    }

    pub fn increment_instructions(&mut self)
        requires
            old(self).instructions < u32::MAX,
        ensures
            *final(self) == (Player { instructions: (old(self).instructions + 1) as u32, ..*old(self) }),
    {
        self.instructions = self.instructions + 1;
    }

    pub fn decrement_instructions(&mut self)
        requires
            old(self).instructions > 0,
        ensures
            *final(self) == (Player { instructions: (old(self).instructions - 1) as u32, ..*old(self) }),
    {
        self.instructions = self.instructions - 1;
    }

    pub fn increment_deaths(&mut self)
        requires
            old(self).deaths < u32::MAX,
        ensures
            *final(self) == (Player { deaths: (old(self).deaths + 1) as u32, ..*old(self) }),
    {
        self.deaths = self.deaths + 1;
    }

    /// Whether `next` is the last place the player was.
    pub(crate) fn is_previous_loc(&self, next: LocationId) -> (res: bool)
        ensures
            res == (self.previous == Some(next)),
    {
        match self.previous {
            None => false,
            Some(prev) => prev == next,
        }
    }

    /// The player dies (see `spec_die`).
    pub fn die(&mut self, data: &mut DataCollection)
        requires
            old(self).wf(),
            old(data).wf(),
            old(self).deaths < u32::MAX,
        ensures
            final(self).wf(),
            outcome_holds(*final(self), *final(data), Seq::empty(), *old(data), Seq::empty(), old(self).spec_die(old(data).world())),
    {
        self.set_alive(false);
        self.increment_deaths();
        let safe = self.location_id_safe;
        self.drop_on_death(data, safe);
        self.location = self.location_id_wake;
        self.previous = None;
    }

    /// The player's belongings are dropped: essential ones at `location_safe`, the others here.
    pub fn drop_on_death(&mut self, data: &mut DataCollection, location_safe: LocationId)
        requires
            old(self).wf(),
            old(data).wf(),
            valid_location_id(location_safe),
        ensures
            *final(self) == *old(self),
            final(data).wf(),
            final(data).same_static(*old(data)),
            final(data).world() == old(data).world().drop_on_death(old(self).inventory, old(self).location, location_safe),
    {
        data.drop_on_death(self.inventory, self.location, location_safe);
    }

    pub fn has_item_inventory(&self, data: &DataCollection, item_id: ItemId) -> (res: bool)
        requires
            self.wf(),
            data.wf(),
        ensures
            res == self.has_inv(data.world(), item_id),
    {
        data.inv_has(self.inventory, item_id)
    }

    pub(crate) fn has_item_location(&self, data: &DataCollection, item_id: ItemId) -> (res: bool)
        requires
            self.wf(),
            data.wf(),
        ensures
            res == self.has_loc(data.world(), item_id),
    {
        data.loc_has(self.location, item_id)
    }

    pub fn has_item_present(&self, data: &DataCollection, item_id: ItemId) -> (res: bool)
        requires
            self.wf(),
            data.wf(),
        ensures
            res == (self.has_inv(data.world(), item_id) || self.has_loc(data.world(), item_id)),
    {
        self.has_item_inventory(data, item_id) || self.has_item_location(data, item_id)
    }

    pub(crate) fn complete_achievement(&mut self, puzzle: StringId, out: &mut Vec<Msg>)
        requires
            old(self).achievement_count < u32::MAX,
        ensures
            *final(self) == (Player { achievement_count: (old(self).achievement_count + 1) as u32, ..*old(self) }),
            final(out)@ == old(out)@.push(Msg::Puzzle(puzzle)),
    {
        self.achievement_count = self.achievement_count + 1;
        out.push(Msg::Puzzle(puzzle));
    }

    pub(crate) fn complete_obstruction_achievement(&mut self, data: &mut DataCollection, obstruction_id: ItemId, puzzle: StringId,
        out: &mut Vec<Msg>)
        requires
            old(self).wf(),
            old(data).wf(),
            old(self).achievement_count < u32::MAX,
        ensures
            outcome_holds(*final(self), *final(data), final(out)@, *old(data), old(out)@,
                old(self).achieve_obstruction(old(data).world(), obstruction_id, puzzle)),
    {
        data.loc_remove(self.location, obstruction_id);
        self.complete_achievement(puzzle, out);
    }

    /// Takes item `id_to_remove` from the player's inventory if it is there, else from here.
    pub(crate) fn remove_item_from_current(&mut self, data: &mut DataCollection, id_to_remove: ItemId)
        requires
            old(self).wf(),
            old(data).wf(),
        ensures
            *final(self) == *old(self),
            final(data).wf(),
            final(data).same_static(*old(data)),
            final(data).world() == old(self).remove_from_current(old(data).world(), id_to_remove),
    {
        let in_inventory = self.has_item_inventory(data, id_to_remove);
        if in_inventory {
            data.inv_remove(self.inventory, id_to_remove);
        } else {
            data.loc_remove(self.location, id_to_remove);
        }
    }

    /// Without gravity: safe under a ceiling, fatal otherwise.
    pub open spec fn spec_float(self, w: World) -> Outcome {
        if self.loc(w).has(constants::CTRL_LOC_HAS_CEILING) {
            self.respond(w, constants::STR_ID_NO_GRAVITY)
        } else {
            self.spec_die(w).after(MsgV::Response(constants::STR_ID_DEATH_NO_GRAVITY))
        }
    }

    pub fn float(&mut self, data: &mut DataCollection, out: &mut Vec<Msg>)
        requires
            old(self).wf(),
            old(data).wf(),
            old(self).can_count(),
        ensures
            final(self).wf(),
            outcome_holds(*final(self), *final(data), final(out)@, *old(data), old(out)@, old(self).spec_float(old(data).world())),
    {
        let has_ceiling = data.get_location_certain(self.location).has_property(constants::CTRL_LOC_HAS_CEILING);
        if has_ceiling {
            out.push(Msg::Response(constants::STR_ID_NO_GRAVITY));
        } else {
            out.push(Msg::Response(constants::STR_ID_DEATH_NO_GRAVITY));
            self.die(data);
        }
    }

    /// Whether the inventory has room for item `x`.
    pub open spec fn inv_can_fit(self, w: World, x: ItemId) -> bool {
        crate::item_list::full_size(w.items, x)
            + crate::item_list::set_size(w.items, self.inv(w).items, self.inv(w).items.len() as int) <= self.inv(w).capacity
    }

    pub(crate) fn inventory_can_fit(&self, data: &DataCollection, x: ItemId) -> (res: bool)
        requires
            self.wf(),
            data.wf(),
        ensures
            res == self.inv_can_fit(data.world(), x),
    {
        data.get_inventory(self.inventory).can_fit(&data.items, x)
    }

    pub open spec fn spec_attack(self, w: World, x: ItemId) -> Outcome {
        if x == constants::ITEM_ID_BUCCANEER || x == constants::ITEM_ID_CORSAIR || x == constants::ITEM_ID_DOGS
            || x == constants::ITEM_ID_DRAGON || x == constants::ITEM_ID_GUNSLINGER || x == constants::ITEM_ID_LION
            || x == constants::ITEM_ID_WOLF {
            self.respond(w, constants::STR_ID_UNWISE)
        } else if x == constants::ITEM_ID_BOULDER {
            if self.strong {
                let o = self.achieve_obstruction(w, constants::ITEM_ID_BOULDER, constants::PUZZLE_ID_BOULDER);
                Outcome {
                    player: Player { strong: false, ..o.player },
                    world: o.world.loc_insert(self.location, constants::ITEM_ID_DUST)
                        .set_direction(self.location, Direction::Down, Some(constants::LOCATION_ID_CELLAR))
                        .set_direction(constants::LOCATION_ID_CELLAR, Direction::Up, Some(self.location)),
                    msgs: o.msgs,
                }
            } else {
                self.respond(w, constants::STR_ID_BOULDER_HIT_WEAK)
            }
        } else {
            self.respond(w, constants::STR_ID_NO_KNOW_HOW)
        }
    }

    pub fn attack(&mut self, data: &mut DataCollection, item: ItemId, out: &mut Vec<Msg>)
        requires
            old(self).wf(),
            old(data).wf(),
            old(self).can_count(),
        ensures
            final(self).wf(),
            outcome_holds(*final(self), *final(data), final(out)@, *old(data), old(out)@, old(self).spec_attack(old(data).world(), item)),
    {
        if item == constants::ITEM_ID_BUCCANEER || item == constants::ITEM_ID_CORSAIR || item == constants::ITEM_ID_DOGS
            || item == constants::ITEM_ID_DRAGON || item == constants::ITEM_ID_GUNSLINGER || item == constants::ITEM_ID_LION
            || item == constants::ITEM_ID_WOLF {
            out.push(Msg::Response(constants::STR_ID_UNWISE));
        } else if item == constants::ITEM_ID_BOULDER {
            if self.strong {
                self.complete_obstruction_achievement(data, constants::ITEM_ID_BOULDER, constants::PUZZLE_ID_BOULDER, out);
                data.loc_insert(self.location, constants::ITEM_ID_DUST);
                data.set_direction(self.location, Direction::Down, Some(constants::LOCATION_ID_CELLAR));
                data.set_direction(constants::LOCATION_ID_CELLAR, Direction::Up, Some(self.location));
                self.strong = false;
            } else {
                out.push(Msg::Response(constants::STR_ID_BOULDER_HIT_WEAK));
            }
        } else {
            out.push(Msg::Response(constants::STR_ID_NO_KNOW_HOW));
        }
    }

    pub open spec fn spec_burn(self, w: World, x: ItemId) -> Outcome {
        if !self.has_inv(w, constants::ITEM_ID_MATCHES) {
            self.respond(w, constants::STR_ID_NO_CARRY_BURN)
        } else if x == constants::ITEM_ID_BOOK {
            self.respond(w, constants::STR_ID_PHILISTINE)
        } else if x == constants::ITEM_ID_BREAD {
            self.respond(self.remove_from_current(w, x).loc_insert(self.location, constants::ITEM_ID_TOAST), constants::STR_ID_BURN_BREAD)
        } else if x == constants::ITEM_ID_LAMP {
            self.respond(w, constants::STR_ID_NO_BURN_LAMP)
        } else if x == constants::ITEM_ID_MATCHES {
            self.respond(w, constants::STR_ID_NO_BURN_MATCHES)
        } else if x == constants::ITEM_ID_TOAST {
            let w1 = self.remove_from_current(w, x);
            if self.location == constants::LOCATION_ID_AIRLOCKE {
                self.achieve(w1.set_direction(self.location, Direction::Southwest, Some(constants::LOCATION_ID_AIRLOCKEOUT))
                    .set_loc_property(self.location, constants::CTRL_LOC_HAS_AIR, false), constants::PUZZLE_ID_AIRLOCK)
                    .after(MsgV::Response(constants::STR_ID_BURN_TOAST))
            } else {
                Outcome { player: self, world: w1, msgs: seq![MsgV::Response(constants::STR_ID_BURN_TOAST), MsgV::Response(constants::STR_ID_ROBOT_MOUSE)] }
            }
        } else {
            self.respond(w, constants::STR_ID_NO_KNOW_HOW)
        }
    }

    pub fn burn(&mut self, data: &mut DataCollection, item: ItemId, out: &mut Vec<Msg>)
        requires
            old(self).wf(),
            old(data).wf(),
            old(self).can_count(),
        ensures
            final(self).wf(),
            outcome_holds(*final(self), *final(data), final(out)@, *old(data), old(out)@, old(self).spec_burn(old(data).world(), item)),
    {
        if !self.has_item_inventory(data, constants::ITEM_ID_MATCHES) {
            out.push(Msg::Response(constants::STR_ID_NO_CARRY_BURN));
            return;
        }
        if item == constants::ITEM_ID_BOOK {
            out.push(Msg::Response(constants::STR_ID_PHILISTINE));
        } else if item == constants::ITEM_ID_BREAD {
            self.remove_item_from_current(data, item);
            data.loc_insert(self.location, constants::ITEM_ID_TOAST);
            out.push(Msg::Response(constants::STR_ID_BURN_BREAD));
        } else if item == constants::ITEM_ID_LAMP {
            out.push(Msg::Response(constants::STR_ID_NO_BURN_LAMP));
        } else if item == constants::ITEM_ID_MATCHES {
            out.push(Msg::Response(constants::STR_ID_NO_BURN_MATCHES));
        } else if item == constants::ITEM_ID_TOAST {
            self.remove_item_from_current(data, item);
            out.push(Msg::Response(constants::STR_ID_BURN_TOAST));
            let at_airlocke = data.get_location_certain(self.location).is(constants::LOCATION_ID_AIRLOCKE);
            if at_airlocke {
                data.set_direction(self.location, Direction::Southwest, Some(constants::LOCATION_ID_AIRLOCKEOUT));
                data.set_loc_property(self.location, constants::CTRL_LOC_HAS_AIR, false);
                self.complete_achievement(constants::PUZZLE_ID_AIRLOCK, out);
            } else {
                out.push(Msg::Response(constants::STR_ID_ROBOT_MOUSE));
            }
        } else {
            out.push(Msg::Response(constants::STR_ID_NO_KNOW_HOW));
        }
    }

    pub open spec fn spec_call(self, w: World, x: ItemId) -> Outcome {
        if x == constants::ITEM_ID_BUCCANEER || x == constants::ITEM_ID_CORSAIR {
            if w.item(x).location == constants::LOCATION_ID_NURSERY {
                self.respond(w, constants::STR_ID_NO_KNOW_APPLY)
            } else {
                self.respond(w, constants::STR_ID_UNWISE)
            }
        } else if x == constants::ITEM_ID_SHIP {
            if !self.has_loc(w, constants::ITEM_ID_CONSOLE_FIXED) {
                self.respond(w, constants::STR_ID_NO_KNOW_APPLY)
            } else {
                let w1 = w.loc_insert(self.location, constants::ITEM_ID_CONSOLE_BROKEN)
                    .loc_insert(constants::LOCATION_ID_CHECKPOINT, constants::ITEM_ID_CORSAIR)
                    .loc_insert(constants::LOCATION_ID_DOCKINGCONTROL, constants::ITEM_ID_BUCCANEER)
                    .set_loc_property(constants::LOCATION_ID_DOCKINGCONTROL, constants::CTRL_LOC_HAS_LIGHT, true)
                    .set_on(constants::ITEM_ID_LEVER, true)
                    .loc_insert(constants::LOCATION_ID_DOCKING, x)
                    .set_direction(constants::LOCATION_ID_DOCKING, Direction::East, Some(constants::LOCATION_ID_SHIP))
                    .set_direction(constants::LOCATION_ID_DOCKING, Direction::Southeast, Some(constants::LOCATION_ID_SHIP))
                    .set_direction(constants::LOCATION_ID_SHUTTLE, Direction::South, None);
                let p1 = Player {
                    location_id_safe: constants::LOCATION_ID_SAFE_PIRATES,
                    location_id_wake: constants::LOCATION_ID_WAKE_PIRATES,
                    ..self
                };
                p1.achieve_obstruction(w1, constants::ITEM_ID_CONSOLE_FIXED, constants::PUZZLE_ID_DISTRESS)
            }
        } else {
            self.respond(w, constants::STR_ID_NO_KNOW_HOW)
        }
    }

    pub fn call(&mut self, data: &mut DataCollection, item: ItemId, out: &mut Vec<Msg>)
        requires
            old(self).wf(),
            old(data).wf(),
            old(self).can_count(),
            valid_item(item),
        ensures
            final(self).wf(),
            outcome_holds(*final(self), *final(data), final(out)@, *old(data), old(out)@, old(self).spec_call(old(data).world(), item)),
    {
        if item == constants::ITEM_ID_BUCCANEER || item == constants::ITEM_ID_CORSAIR {
            if data.get_item_by_id_certain(item).is_new() {
                out.push(Msg::Response(constants::STR_ID_NO_KNOW_APPLY));
            } else {
                out.push(Msg::Response(constants::STR_ID_UNWISE));
            }
        } else if item == constants::ITEM_ID_SHIP {
            let panel_present = self.has_item_location(data, constants::ITEM_ID_CONSOLE_FIXED);
            if !panel_present {
                out.push(Msg::Response(constants::STR_ID_NO_KNOW_APPLY));
                return;
            }
            data.loc_insert(self.location, constants::ITEM_ID_CONSOLE_BROKEN);
            self.location_id_safe = constants::LOCATION_ID_SAFE_PIRATES;
            self.location_id_wake = constants::LOCATION_ID_WAKE_PIRATES;
            data.loc_insert(constants::LOCATION_ID_CHECKPOINT, constants::ITEM_ID_CORSAIR);
            data.loc_insert(constants::LOCATION_ID_DOCKINGCONTROL, constants::ITEM_ID_BUCCANEER);
            data.set_loc_property(constants::LOCATION_ID_DOCKINGCONTROL, constants::CTRL_LOC_HAS_LIGHT, true);
            data.set_on(constants::ITEM_ID_LEVER, true);
            data.loc_insert(constants::LOCATION_ID_DOCKING, item);
            data.set_direction(constants::LOCATION_ID_DOCKING, Direction::East, Some(constants::LOCATION_ID_SHIP));
            data.set_direction(constants::LOCATION_ID_DOCKING, Direction::Southeast, Some(constants::LOCATION_ID_SHIP));
            data.set_direction(constants::LOCATION_ID_SHUTTLE, Direction::South, None);
            self.complete_obstruction_achievement(data, constants::ITEM_ID_CONSOLE_FIXED, constants::PUZZLE_ID_DISTRESS, out);
        } else {
            out.push(Msg::Response(constants::STR_ID_NO_KNOW_HOW));
        }
    }

    pub open spec fn spec_cook(self, w: World, x: ItemId) -> Outcome {
        if !self.has_loc(w, constants::ITEM_ID_CAULDRON) {
            self.respond(w, constants::STR_ID_NO_HERE_COOK)
        } else if w.item(constants::ITEM_ID_CAULDRON).within is Some {
            self.respond(w, constants::STR_ID_CAULDRON_FULL)
        } else if x == constants::ITEM_ID_MUSHROOM {
            self.respond(w, constants::STR_ID_POISONOUS)
        } else if x == constants::ITEM_ID_KOHLRABI {
            self.respond(w.inv_remove(self.inventory, constants::ITEM_ID_KOHLRABI)
                .set_within(constants::ITEM_ID_CAULDRON, Some(constants::ITEM_ID_STEW)), constants::STR_ID_COOK_CABBAGE)
        } else if x == constants::ITEM_ID_RADISHES {
            self.achieve(w.inv_remove(self.inventory, constants::ITEM_ID_RADISHES)
                .set_within(constants::ITEM_ID_CAULDRON, Some(constants::ITEM_ID_ELIXIR)), constants::PUZZLE_ID_ELIXIR)
        } else {
            self.respond(w, constants::STR_ID_NO_KNOW_HOW)
        }
    }

    pub fn cook(&mut self, data: &mut DataCollection, item: ItemId, out: &mut Vec<Msg>)
        requires
            old(self).wf(),
            old(data).wf(),
            old(self).can_count(),
        ensures
            final(self).wf(),
            outcome_holds(*final(self), *final(data), final(out)@, *old(data), old(out)@, old(self).spec_cook(old(data).world(), item)),
    {
        if !self.has_item_location(data, constants::ITEM_ID_CAULDRON) {
            out.push(Msg::Response(constants::STR_ID_NO_HERE_COOK));
            return;
        }
        if !data.get_item_by_id_certain(constants::ITEM_ID_CAULDRON).is_empty() {
            out.push(Msg::Response(constants::STR_ID_CAULDRON_FULL));
            return;
        }
        if item == constants::ITEM_ID_MUSHROOM {
            out.push(Msg::Response(constants::STR_ID_POISONOUS));
        } else if item == constants::ITEM_ID_KOHLRABI {
            data.inv_remove(self.inventory, constants::ITEM_ID_KOHLRABI);
            data.set_within(constants::ITEM_ID_CAULDRON, Some(constants::ITEM_ID_STEW));
            out.push(Msg::Response(constants::STR_ID_COOK_CABBAGE));
        } else if item == constants::ITEM_ID_RADISHES {
            data.inv_remove(self.inventory, constants::ITEM_ID_RADISHES);
            data.set_within(constants::ITEM_ID_CAULDRON, Some(constants::ITEM_ID_ELIXIR));
            self.complete_achievement(constants::PUZZLE_ID_ELIXIR, out);
        } else {
            out.push(Msg::Response(constants::STR_ID_NO_KNOW_HOW));
        }
    }

    pub open spec fn spec_drink(self, w: World, x: ItemId) -> Outcome {
        if !w.item_has(x, constants::CTRL_ITEM_LIQUID) {
            self.respond(w, constants::STR_ID_DRINK_NON_LIQUID)
        } else {
            let w1 = w.inv_remove(self.inventory, x);
            let first = MsgV::Response(constants::STR_ID_DRINK_LIQUID);
            if x == constants::ITEM_ID_AQUA {
                Outcome { player: self, world: w1, msgs: seq![first, MsgV::Response(constants::STR_ID_DRINK_AQUA)] }
            } else if x == constants::ITEM_ID_WATER {
                Outcome { player: self, world: w1, msgs: seq![first, MsgV::Response(constants::STR_ID_DRINK_WATER)] }
            } else if x == constants::ITEM_ID_STEW {
                Outcome { player: self, world: w1, msgs: seq![first, MsgV::Response(constants::STR_ID_DRINK_STEW)] }
            } else if x == constants::ITEM_ID_ELIXIR {
                Outcome { player: Player { strong: true, ..self }, world: w1,
                    msgs: seq![first, MsgV::Response(constants::STR_ID_DRINK_ELIXIR)] }
            } else if x == constants::ITEM_ID_POTION {
                self.spec_die(w1).after(first).and_say(MsgV::Response(constants::STR_ID_DRINK_POTION))
            } else {
                Outcome { player: self, world: w1, msgs: seq![first, MsgV::Response(constants::STR_ID_NOTHING_HAPPENS)] }
            }
        }
    }

    pub fn drink(&mut self, data: &mut DataCollection, item: ItemId, out: &mut Vec<Msg>)
        requires
            old(self).wf(),
            old(data).wf(),
            old(self).can_count(),
            valid_item(item),
        ensures
            final(self).wf(),
            outcome_holds(*final(self), *final(data), final(out)@, *old(data), old(out)@, old(self).spec_drink(old(data).world(), item)),
    {
        if !data.get_item_by_id_certain(item).has_property(constants::CTRL_ITEM_LIQUID) {
            out.push(Msg::Response(constants::STR_ID_DRINK_NON_LIQUID));
            return;
        }
        data.inv_remove(self.inventory, item);
        out.push(Msg::Response(constants::STR_ID_DRINK_LIQUID));
        let mut response_code = constants::STR_ID_NOTHING_HAPPENS;
        if item == constants::ITEM_ID_AQUA {
            response_code = constants::STR_ID_DRINK_AQUA;
        } else if item == constants::ITEM_ID_WATER {
            response_code = constants::STR_ID_DRINK_WATER;
        } else if item == constants::ITEM_ID_STEW {
            response_code = constants::STR_ID_DRINK_STEW;
        } else if item == constants::ITEM_ID_ELIXIR {
            self.strong = true;
            response_code = constants::STR_ID_DRINK_ELIXIR;
        } else if item == constants::ITEM_ID_POTION {
            response_code = constants::STR_ID_DRINK_POTION;
            self.die(data);
        }
        out.push(Msg::Response(response_code));
    }

    pub open spec fn spec_eat(self, w: World, x: ItemId) -> Outcome {
        if w.item_has(x, constants::CTRL_ITEM_LIQUID) {
            self.said(w, MsgV::ResponseParam(constants::STR_ID_EAT_LIQUID, w.item(x).shortname@))
        } else if x == constants::ITEM_ID_ALIEN {
            self.respond(w, constants::STR_ID_EAT_ALIEN)
        } else if x == constants::ITEM_ID_CAULDRON {
            self.respond(w, constants::STR_ID_EAT_CAULDRON)
        } else if x == constants::ITEM_ID_DOGS {
            self.respond(w, constants::STR_ID_NO)
        } else if x == constants::ITEM_ID_PUPPY {
            self.respond(w, constants::STR_ID_EAT_PUPPY)
        } else if x == constants::ITEM_ID_LION {
            self.respond(w, constants::STR_ID_EAT_LION)
        } else if x == constants::ITEM_ID_KOHLRABI {
            self.respond(w, constants::STR_ID_EAT_CABBAGE)
        } else if x == constants::ITEM_ID_MUSHROOM {
            self.respond(w, constants::STR_ID_POISONOUS)
        } else if x == constants::ITEM_ID_RADISHES {
            self.respond(self.remove_from_current(w, constants::ITEM_ID_RADISHES), constants::STR_ID_EAT_RADISHES)
        } else {
            self.respond(w, constants::STR_ID_NO_KNOW_HOW)
        }
    }

    pub fn eat(&mut self, data: &mut DataCollection, item: ItemId, out: &mut Vec<Msg>)
        requires
            old(self).wf(),
            old(data).wf(),
            valid_item(item),
        ensures
            final(self).wf(),
            outcome_holds(*final(self), *final(data), final(out)@, *old(data), old(out)@, old(self).spec_eat(old(data).world(), item)),
    {
        let it = data.get_item_by_id_certain(item);
        if it.has_property(constants::CTRL_ITEM_LIQUID) {
            out.push(Msg::ResponseParam(constants::STR_ID_EAT_LIQUID, it.shortname.clone()));
            return;
        }
        let mut response_code = constants::STR_ID_NO_KNOW_HOW;
        if item == constants::ITEM_ID_ALIEN {
            response_code = constants::STR_ID_EAT_ALIEN;
        } else if item == constants::ITEM_ID_CAULDRON {
            response_code = constants::STR_ID_EAT_CAULDRON;
        } else if item == constants::ITEM_ID_DOGS {
            response_code = constants::STR_ID_NO;
        } else if item == constants::ITEM_ID_PUPPY {
            response_code = constants::STR_ID_EAT_PUPPY;
        } else if item == constants::ITEM_ID_LION {
            response_code = constants::STR_ID_EAT_LION;
        } else if item == constants::ITEM_ID_KOHLRABI {
            response_code = constants::STR_ID_EAT_CABBAGE;
        } else if item == constants::ITEM_ID_MUSHROOM {
            response_code = constants::STR_ID_POISONOUS;
        } else if item == constants::ITEM_ID_RADISHES {
            self.remove_item_from_current(data, constants::ITEM_ID_RADISHES);
            response_code = constants::STR_ID_EAT_RADISHES;
        }
        out.push(Msg::Response(response_code));
    }

    pub open spec fn spec_fairy(self, w: World) -> Outcome {
        if self.has_loc(w, constants::ITEM_ID_FAIRY)
            && crate::item::chain_contains(w.items, w.item(constants::ITEM_ID_ENVELOPE).within, constants::ITEM_ID_TOOTH, w.items.len()) {
            self.achieve_obstruction(w.item_remove(constants::ITEM_ID_ENVELOPE, constants::ITEM_ID_TOOTH)
                .set_within(constants::ITEM_ID_ENVELOPE, Some(constants::ITEM_ID_COIN)), constants::ITEM_ID_FAIRY, constants::PUZZLE_ID_FAIRY)
        } else {
            self.respond(w, constants::STR_ID_NOTHING_HAPPENS)
        }
    }

    pub fn fairy(&mut self, data: &mut DataCollection, out: &mut Vec<Msg>)
        requires
            old(self).wf(),
            old(data).wf(),
            old(self).can_count(),
        ensures
            final(self).wf(),
            outcome_holds(*final(self), *final(data), final(out)@, *old(data), old(out)@, old(self).spec_fairy(old(data).world())),
    {
        let fairy_present = self.has_item_location(data, constants::ITEM_ID_FAIRY);
        let tooth_within = data.get_item_by_id_certain(constants::ITEM_ID_ENVELOPE).contains_item(&data.items, constants::ITEM_ID_TOOTH);
        if fairy_present && tooth_within {
            data.item_remove(constants::ITEM_ID_ENVELOPE, constants::ITEM_ID_TOOTH);
            data.set_within(constants::ITEM_ID_ENVELOPE, Some(constants::ITEM_ID_COIN));
            self.complete_obstruction_achievement(data, constants::ITEM_ID_FAIRY, constants::PUZZLE_ID_FAIRY, out);
        } else {
            out.push(Msg::Response(constants::STR_ID_NOTHING_HAPPENS));
        }
    }

    pub open spec fn spec_fish(self, w: World) -> Outcome {
        if !self.has_inv(w, constants::ITEM_ID_NET) {
            self.respond(w, constants::STR_ID_NO_EQUIPMENT)
        } else if !self.has_loc(w, constants::ITEM_ID_GLINT) {
            self.respond(w, constants::STR_ID_NO_FISH)
        } else if !self.inv_can_fit(w, constants::ITEM_ID_NUGGET) {
            self.respond(w, constants::STR_ID_GLINT_HEAVY)
        } else {
            self.achieve_obstruction(w.inv_insert(self.inventory, constants::ITEM_ID_NUGGET), constants::ITEM_ID_GLINT, constants::PUZZLE_ID_GLINT)
        }
    }

    pub fn fish(&mut self, data: &mut DataCollection, out: &mut Vec<Msg>)
        requires
            old(self).wf(),
            old(data).wf(),
            old(self).can_count(),
        ensures
            final(self).wf(),
            outcome_holds(*final(self), *final(data), final(out)@, *old(data), old(out)@, old(self).spec_fish(old(data).world())),
    {
        if !self.has_item_inventory(data, constants::ITEM_ID_NET) {
            out.push(Msg::Response(constants::STR_ID_NO_EQUIPMENT));
            return;
        }
        if !self.has_item_location(data, constants::ITEM_ID_GLINT) {
            out.push(Msg::Response(constants::STR_ID_NO_FISH));
            return;
        }
        if !self.inventory_can_fit(data, constants::ITEM_ID_NUGGET) {
            out.push(Msg::Response(constants::STR_ID_GLINT_HEAVY));
            return;
        }
        data.inv_insert(self.inventory, constants::ITEM_ID_NUGGET);
        self.complete_obstruction_achievement(data, constants::ITEM_ID_GLINT, constants::PUZZLE_ID_GLINT, out);
    }

    pub open spec fn spec_fly(self, w: World, x: ItemId) -> Outcome {
        if x == constants::ITEM_ID_SHIP {
            if self.has_loc(w, constants::ITEM_ID_SHIP) {
                self.respond(w, constants::STR_ID_NOT_IN_SHIP)
            } else if self.location != constants::LOCATION_ID_SHIP {
                self.said(w, MsgV::ResponseParam(constants::STR_ID_NO_SEE_HERE, w.item(x).shortname@))
            } else if !self.has_inv(w, constants::ITEM_ID_KEY) {
                self.respond(w, constants::STR_ID_NO_KEY)
            } else {
                let o = self.achieve(w, constants::PUZZLE_ID_ESCAPE);
                Outcome { player: Player { playing: false, ..o.player }, ..o }
            }
        } else {
            self.respond(w, constants::STR_ID_NO_KNOW_HOW)
        }
    }

    pub fn fly(&mut self, data: &mut DataCollection, item: ItemId, out: &mut Vec<Msg>)
        requires
            old(self).wf(),
            old(data).wf(),
            old(self).can_count(),
            valid_item(item),
        ensures
            final(self).wf(),
            outcome_holds(*final(self), *final(data), final(out)@, *old(data), old(out)@, old(self).spec_fly(old(data).world(), item)),
    {
        if item == constants::ITEM_ID_SHIP {
            let ship_present = self.has_item_location(data, constants::ITEM_ID_SHIP);
            let key_present = self.has_item_inventory(data, constants::ITEM_ID_KEY);
            if ship_present {
                out.push(Msg::Response(constants::STR_ID_NOT_IN_SHIP));
            } else if self.location != constants::LOCATION_ID_SHIP {
                out.push(Msg::ResponseParam(constants::STR_ID_NO_SEE_HERE, data.get_item_by_id_certain(item).shortname.clone()));
            } else if !key_present {
                out.push(Msg::Response(constants::STR_ID_NO_KEY));
            } else {
                self.complete_achievement(constants::PUZZLE_ID_ESCAPE, out);
                self.playing = false;
            }
        } else {
            out.push(Msg::Response(constants::STR_ID_NO_KNOW_HOW));
        }
    }

    pub open spec fn spec_ignore(self, w: World, x: ItemId) -> Outcome {
        if x == constants::ITEM_ID_TROLL {
            self.achieve_obstruction(w, constants::ITEM_ID_TROLL, constants::PUZZLE_ID_TROLL)
        } else {
            self.respond(w, constants::STR_ID_IGNORED)
        }
    }

    pub fn ignore(&mut self, data: &mut DataCollection, item: ItemId, out: &mut Vec<Msg>)
        requires
            old(self).wf(),
            old(data).wf(),
            old(self).can_count(),
        ensures
            final(self).wf(),
            outcome_holds(*final(self), *final(data), final(out)@, *old(data), old(out)@, old(self).spec_ignore(old(data).world(), item)),
    {
        if item == constants::ITEM_ID_TROLL {
            self.complete_obstruction_achievement(data, constants::ITEM_ID_TROLL, constants::PUZZLE_ID_TROLL, out);
        } else {
            out.push(Msg::Response(constants::STR_ID_IGNORED));
        }
    }

    pub open spec fn spec_knit(self, w: World) -> Outcome {
        if !self.has_inv(w, constants::ITEM_ID_NEEDLES) || !self.has_inv(w, constants::ITEM_ID_YARN) {
            self.respond(w, constants::STR_ID_NO_EQUIPMENT)
        } else {
            self.achieve(w.inv_remove(self.inventory, constants::ITEM_ID_YARN).loc_insert(self.location, constants::ITEM_ID_JUMPER),
                constants::PUZZLE_ID_JUMPER)
        }
    }

    pub fn knit(&mut self, data: &mut DataCollection, out: &mut Vec<Msg>)
        requires
            old(self).wf(),
            old(data).wf(),
            old(self).can_count(),
        ensures
            final(self).wf(),
            outcome_holds(*final(self), *final(data), final(out)@, *old(data), old(out)@, old(self).spec_knit(old(data).world())),
    {
        if !self.has_item_inventory(data, constants::ITEM_ID_NEEDLES) || !self.has_item_inventory(data, constants::ITEM_ID_YARN) {
            out.push(Msg::Response(constants::STR_ID_NO_EQUIPMENT));
            return;
        }
        data.inv_remove(self.inventory, constants::ITEM_ID_YARN);
        data.loc_insert(self.location, constants::ITEM_ID_JUMPER);
        self.complete_achievement(constants::PUZZLE_ID_JUMPER, out);
    }

    pub open spec fn spec_repair(self, w: World, x: ItemId) -> Outcome {
        if x == constants::ITEM_ID_CONSOLE_FIXED {
            self.respond(w, constants::STR_ID_ALREADY_REPAIRED)
        } else if x == constants::ITEM_ID_CONSOLE_BROKEN {
            if !self.has_inv(w, constants::ITEM_ID_WIRE) {
                self.respond(w, constants::STR_ID_NO_COMPONENT)
            } else {
                self.achieve_obstruction(w.loc_insert(self.location, constants::ITEM_ID_CONSOLE_FIXED)
                    .inv_remove(self.inventory, constants::ITEM_ID_WIRE), constants::ITEM_ID_CONSOLE_BROKEN, constants::PUZZLE_ID_CONSOLE)
            }
        } else {
            self.respond(w, constants::STR_ID_NO_KNOW_HOW)
        }
    }

    pub fn repair(&mut self, data: &mut DataCollection, item: ItemId, out: &mut Vec<Msg>)
        requires
            old(self).wf(),
            old(data).wf(),
            old(self).can_count(),
        ensures
            final(self).wf(),
            outcome_holds(*final(self), *final(data), final(out)@, *old(data), old(out)@, old(self).spec_repair(old(data).world(), item)),
    {
        if item == constants::ITEM_ID_CONSOLE_FIXED {
            out.push(Msg::Response(constants::STR_ID_ALREADY_REPAIRED));
        } else if item == constants::ITEM_ID_CONSOLE_BROKEN {
            let wire_present = self.has_item_inventory(data, constants::ITEM_ID_WIRE);
            if !wire_present {
                out.push(Msg::Response(constants::STR_ID_NO_COMPONENT));
            } else {
                data.loc_insert(self.location, constants::ITEM_ID_CONSOLE_FIXED);
                data.inv_remove(self.inventory, constants::ITEM_ID_WIRE);
                self.complete_obstruction_achievement(data, constants::ITEM_ID_CONSOLE_BROKEN, constants::PUZZLE_ID_CONSOLE, out);
            }
        } else {
            out.push(Msg::Response(constants::STR_ID_NO_KNOW_HOW));
        }
    }

    /// Robbing a pirate of `reward`: the reward must still be unclaimed; the
    /// pirate kills the player if `kill`; the reward must fit in the inventory.
    pub open spec fn spec_rob_pirate(self, w: World, pirate: ItemId, reward: ItemId, kill: bool,
        response_code_kill: StringId, puzzle: StringId) -> Outcome {
        if w.item(reward).location != constants::LOCATION_ID_NURSERY {
            self.respond(w, constants::STR_ID_PIRATE_EMPTY)
        } else if kill {
            self.spec_die(w).after(MsgV::Response(response_code_kill))
        } else if !self.inv_can_fit(w, reward) {
            self.said(w, MsgV::ResponseParam(constants::STR_ID_PIRATE_HEAVY, w.item(pirate).shortname@))
        } else {
            self.achieve(w.inv_insert(self.inventory, reward), puzzle)
        }
    }

    fn rob_pirate(&mut self, data: &mut DataCollection, pirate: ItemId, reward_code: ItemId, kill: bool,
        response_code_kill: StringId, response_code_success: StringId, out: &mut Vec<Msg>)
        requires
            old(self).wf(),
            old(data).wf(),
            old(self).can_count(),
            valid_item(pirate),
            valid_item(reward_code),
        ensures
            final(self).wf(),
            outcome_holds(*final(self), *final(data), final(out)@, *old(data), old(out)@,
                old(self).spec_rob_pirate(old(data).world(), pirate, reward_code, kill, response_code_kill, response_code_success)),
    {
        let reward_is_new = data.get_item_by_id_certain(reward_code).is_new();
        let inventory_fits = self.inventory_can_fit(data, reward_code);
        if !reward_is_new {
            out.push(Msg::Response(constants::STR_ID_PIRATE_EMPTY));
        } else if kill {
            out.push(Msg::Response(response_code_kill));
            self.die(data);
        } else if !inventory_fits {
            out.push(Msg::ResponseParam(constants::STR_ID_PIRATE_HEAVY, data.get_item_by_id_certain(pirate).shortname.clone()));
        } else {
            data.inv_insert(self.inventory, reward_code);
            self.complete_achievement(response_code_success, out);
        }
    }

    pub open spec fn spec_rob(self, w: World, x: ItemId) -> Outcome {
        if x == constants::ITEM_ID_BODIES {
            self.respond(w, constants::STR_ID_NO)
        } else if x == constants::ITEM_ID_BUCCANEER {
            self.spec_rob_pirate(w, x, constants::ITEM_ID_MEDALLION, !self.spec_has_invisibility(w),
                constants::STR_ID_BUCCANEER_SNEAK_ROB, constants::PUZZLE_ID_BUCCANEER)
        } else if x == constants::ITEM_ID_CORSAIR {
            self.spec_rob_pirate(w, x, constants::ITEM_ID_KEY, self.has_inv(w, constants::ITEM_ID_BOOTS),
                constants::STR_ID_CORSAIR_SNEAK_ROB, constants::PUZZLE_ID_CORSAIR)
        } else {
            self.respond(w, constants::STR_ID_NO_KNOW_HOW)
        }
    }

    pub fn rob(&mut self, data: &mut DataCollection, item: ItemId, out: &mut Vec<Msg>)
        requires
            old(self).wf(),
            old(data).wf(),
            old(self).can_count(),
        ensures
            final(self).wf(),
            outcome_holds(*final(self), *final(data), final(out)@, *old(data), old(out)@, old(self).spec_rob(old(data).world(), item)),
    {
        if item == constants::ITEM_ID_BODIES {
            out.push(Msg::Response(constants::STR_ID_NO));
        } else if item == constants::ITEM_ID_BUCCANEER {
            let kill_condition = !self.has_invisibility(data);
            self.rob_pirate(data, item, constants::ITEM_ID_MEDALLION, kill_condition, constants::STR_ID_BUCCANEER_SNEAK_ROB,
                constants::PUZZLE_ID_BUCCANEER, out);
        } else if item == constants::ITEM_ID_CORSAIR {
            let kill_condition = self.has_item_inventory(data, constants::ITEM_ID_BOOTS);
            self.rob_pirate(data, item, constants::ITEM_ID_KEY, kill_condition, constants::STR_ID_CORSAIR_SNEAK_ROB,
                constants::PUZZLE_ID_CORSAIR, out);
        } else {
            out.push(Msg::Response(constants::STR_ID_NO_KNOW_HOW));
        }
    }

    pub open spec fn spec_robot(self, w: World) -> Outcome {
        if self.has_loc(w, constants::ITEM_ID_ROBOT) {
            self.achieve_obstruction(w, constants::ITEM_ID_ROBOT, constants::PUZZLE_ID_ROBOT)
        } else {
            self.respond(w, constants::STR_ID_NOTHING_HAPPENS)
        }
    }

    pub fn robot(&mut self, data: &mut DataCollection, out: &mut Vec<Msg>)
        requires
            old(self).wf(),
            old(data).wf(),
            old(self).can_count(),
        ensures
            final(self).wf(),
            outcome_holds(*final(self), *final(data), final(out)@, *old(data), old(out)@, old(self).spec_robot(old(data).world())),
    {
        if self.has_item_location(data, constants::ITEM_ID_ROBOT) {
            self.complete_obstruction_achievement(data, constants::ITEM_ID_ROBOT, constants::PUZZLE_ID_ROBOT, out);
        } else {
            out.push(Msg::Response(constants::STR_ID_NOTHING_HAPPENS));
        }
    }

    pub open spec fn spec_roll(self, w: World, x: ItemId) -> Outcome {
        if x == constants::ITEM_ID_MARBLE {
            let corsair_present = self.has_loc(w, constants::ITEM_ID_CORSAIR);
            let w1 = w.inv_remove(self.inventory, x);
            if self.location == constants::LOCATION_ID_CHECKPOINT && corsair_present {
                let o = self.achieve_obstruction(w1, constants::ITEM_ID_CORSAIR, constants::PUZZLE_ID_MARBLE);
                Outcome {
                    world: o.world.loc_insert(constants::LOCATION_ID_UNDER, x).loc_insert(constants::LOCATION_ID_UNDER, constants::ITEM_ID_CORSAIR),
                    ..o
                }.after(MsgV::Response(constants::STR_ID_ROLL_MARBLE))
            } else {
                Outcome { player: self, world: w1.loc_insert(self.location, x),
                    msgs: seq![MsgV::Response(constants::STR_ID_ROLL_MARBLE), MsgV::Response(constants::STR_ID_NOTHING_HAPPENS)] }
            }
        } else {
            self.respond(w, constants::STR_ID_NO_KNOW_HOW)
        }
    }

    pub fn roll(&mut self, data: &mut DataCollection, item: ItemId, out: &mut Vec<Msg>)
        requires
            old(self).wf(),
            old(data).wf(),
            old(self).can_count(),
        ensures
            final(self).wf(),
            outcome_holds(*final(self), *final(data), final(out)@, *old(data), old(out)@, old(self).spec_roll(old(data).world(), item)),
    {
        if item == constants::ITEM_ID_MARBLE {
            let corsair_present = self.has_item_location(data, constants::ITEM_ID_CORSAIR);
            data.inv_remove(self.inventory, item);
            out.push(Msg::Response(constants::STR_ID_ROLL_MARBLE));
            if self.location == constants::LOCATION_ID_CHECKPOINT && corsair_present {
                self.complete_obstruction_achievement(data, constants::ITEM_ID_CORSAIR, constants::PUZZLE_ID_MARBLE, out);
                data.loc_insert(constants::LOCATION_ID_UNDER, item);
                data.loc_insert(constants::LOCATION_ID_UNDER, constants::ITEM_ID_CORSAIR);
            } else {
                data.loc_insert(self.location, item);
                out.push(Msg::Response(constants::STR_ID_NOTHING_HAPPENS));
            }
        } else {
            out.push(Msg::Response(constants::STR_ID_NO_KNOW_HOW));
        }
    }

    /// The world after item `x` is taken from wherever it is recorded to be:
    /// an inventory, a location, or the item holding it.
    pub open spec fn spec_unlink(w: World, x: ItemId) -> World {
        let prev = w.item(x).location;
        if constants::INDEX_START_INVENTORY <= prev <= constants::INDEX_STOP_INVENTORY {
            if valid_inventory_id(prev) { w.inv_remove(prev, x) } else { w }
        } else if constants::INDEX_START_LOCATION <= prev <= constants::INDEX_STOP_LOCATION {
            if valid_location_id(prev) { w.loc_remove(prev, x) } else { w }
        } else {
            w.item_remove(prev, x)
        }
    }

    pub(crate) fn unlink_item(&mut self, data: &mut DataCollection, item: ItemId)
        requires
            old(data).wf(),
            valid_item(item),
        ensures
            *final(self) == *old(self),
            final(data).wf(),
            final(data).same_static(*old(data)),
            final(data).world() == Self::spec_unlink(old(data).world(), item),
    {
        let previous_id = data.get_item_by_id_certain(item).get_location();
        if constants::INDEX_START_INVENTORY <= previous_id && previous_id <= constants::INDEX_STOP_INVENTORY {
            if previous_id <= constants::INVENTORY_ID_DREAM {
                data.inv_remove(previous_id, item);
            }
        } else if constants::INDEX_START_LOCATION <= previous_id && previous_id <= constants::INDEX_STOP_LOCATION {
            if previous_id < constants::EXPECTED_LOCATIONS {
                data.loc_remove(previous_id, item);
            }
        } else {
            data.item_remove(previous_id, item);
        }
    }

    pub open spec fn spec_rub(self, w: World, x: ItemId) -> Outcome {
        if x == constants::ITEM_ID_LAMP {
            self.respond(w, constants::STR_ID_RUB_LAMP)
        } else if x == constants::ITEM_ID_DRAGON {
            self.achieve_obstruction(w.loc_insert(self.location, constants::ITEM_ID_TOOTH), constants::ITEM_ID_DRAGON, constants::PUZZLE_ID_DRAGON)
        } else if x == constants::ITEM_ID_PENDANT {
            self.respond(Self::spec_unlink(w, constants::ITEM_ID_ROD).loc_insert(constants::LOCATION_ID_THOR, constants::ITEM_ID_ROD),
                constants::STR_ID_RUB_PENDANT)
        } else {
            self.respond(w, constants::STR_ID_NOTHING_INTERESTING)
        }
    }

    pub fn rub(&mut self, data: &mut DataCollection, item: ItemId, out: &mut Vec<Msg>)
        requires
            old(self).wf(),
            old(data).wf(),
            old(self).can_count(),
        ensures
            final(self).wf(),
            outcome_holds(*final(self), *final(data), final(out)@, *old(data), old(out)@, old(self).spec_rub(old(data).world(), item)),
    {
        if item == constants::ITEM_ID_LAMP {
            out.push(Msg::Response(constants::STR_ID_RUB_LAMP));
        } else if item == constants::ITEM_ID_DRAGON {
            data.loc_insert(self.location, constants::ITEM_ID_TOOTH);
            self.complete_obstruction_achievement(data, constants::ITEM_ID_DRAGON, constants::PUZZLE_ID_DRAGON, out);
        } else if item == constants::ITEM_ID_PENDANT {
            self.unlink_item(data, constants::ITEM_ID_ROD);
            data.loc_insert(constants::LOCATION_ID_THOR, constants::ITEM_ID_ROD);
            out.push(Msg::Response(constants::STR_ID_RUB_PENDANT));
        } else {
            out.push(Msg::Response(constants::STR_ID_NOTHING_INTERESTING));
        }
    }

    pub open spec fn spec_stare(self, w: World) -> Outcome {
        if !self.spec_has_light(w) {
            self.respond(w, constants::STR_ID_NO_SEE_DARKNESS)
        } else if self.location == constants::LOCATION_ID_REFLECTION || self.has_inv(w, constants::ITEM_ID_MIRROR) {
            if self.spec_has_invisibility(w) {
                self.respond(w, constants::STR_ID_SEE_INVISIBLE)
            } else if self.strong {
                self.respond(w, constants::STR_ID_SEE_STRONG)
            } else {
                self.respond(w, constants::STR_ID_SEE_NORMAL)
            }
        } else {
            self.respond(w, constants::STR_ID_SEE_NOTHING)
        }
    }

    pub fn stare(&mut self, data: &mut DataCollection, out: &mut Vec<Msg>)
        requires
            old(self).wf(),
            old(data).wf(),
        ensures
            final(self).wf(),
            outcome_holds(*final(self), *final(data), final(out)@, *old(data), old(out)@, old(self).spec_stare(old(data).world())),
    {
        if !self.has_light(data) {
            out.push(Msg::Response(constants::STR_ID_NO_SEE_DARKNESS));
            return;
        }
        let at_reflection = data.get_location_certain(self.location).is(constants::LOCATION_ID_REFLECTION);
        if at_reflection || self.has_item_inventory(data, constants::ITEM_ID_MIRROR) {
            if self.has_invisibility(data) {
                out.push(Msg::Response(constants::STR_ID_SEE_INVISIBLE));
            } else if self.strong {
                out.push(Msg::Response(constants::STR_ID_SEE_STRONG));
            } else {
                out.push(Msg::Response(constants::STR_ID_SEE_NORMAL));
            }
        } else {
            out.push(Msg::Response(constants::STR_ID_SEE_NOTHING));
        }
    }

    pub open spec fn spec_wizard(self, w: World) -> Outcome {
        if self.has_loc(w, constants::ITEM_ID_WIZARD) {
            if self.spec_has_invisibility(w) {
                self.respond(w, constants::STR_ID_WIZARDED)
            } else if self.has_inv(w, constants::ITEM_ID_MIRROR) {
                self.achieve_obstruction(w, constants::ITEM_ID_WIZARD, constants::PUZZLE_ID_WIZARD)
            } else {
                self.spec_die(w).after(MsgV::Response(constants::STR_ID_WIZARD_INVISIBLE))
            }
        } else {
            self.respond(w, constants::STR_ID_SH_MAGIC)
        }
    }

    pub fn wizard(&mut self, data: &mut DataCollection, out: &mut Vec<Msg>)
        requires
            old(self).wf(),
            old(data).wf(),
            old(self).can_count(),
        ensures
            final(self).wf(),
            outcome_holds(*final(self), *final(data), final(out)@, *old(data), old(out)@, old(self).spec_wizard(old(data).world())),
    {
        let wizard_present = self.has_item_location(data, constants::ITEM_ID_WIZARD);
        let mirror_present = self.has_item_inventory(data, constants::ITEM_ID_MIRROR);
        if wizard_present {
            if self.has_invisibility(data) {
                out.push(Msg::Response(constants::STR_ID_WIZARDED));
            } else if mirror_present {
                self.complete_obstruction_achievement(data, constants::ITEM_ID_WIZARD, constants::PUZZLE_ID_WIZARD, out);
            } else {
                out.push(Msg::Response(constants::STR_ID_WIZARD_INVISIBLE));
                self.die(data);
            }
        } else {
            out.push(Msg::Response(constants::STR_ID_SH_MAGIC));
        }
    }

    /// Playing the record player: it plays what it holds, then stops.
    pub open spec fn spec_play_player(self, w: World, x: ItemId) -> Outcome {
        let code = if crate::item::chain_contains(w.items, w.item(x).within, constants::ITEM_ID_CD, w.items.len()) {
            constants::STR_ID_PLAY_CD
        } else if crate::item::chain_contains(w.items, w.item(x).within, constants::ITEM_ID_CASSETTE, w.items.len()) {
            constants::STR_ID_PLAY_CASSETTE
        } else {
            constants::STR_ID_NO_MUSIC
        };
        self.respond(w.set_on(x, false), code)
    }

    pub(crate) fn play_player(&mut self, data: &mut DataCollection, player: ItemId, out: &mut Vec<Msg>)
        requires
            old(self).wf(),
            old(data).wf(),
            valid_item(player),
        ensures
            final(self).wf(),
            outcome_holds(*final(self), *final(data), final(out)@, *old(data), old(out)@, old(self).spec_play_player(old(data).world(), player)),
    {
        let mut response_code = constants::STR_ID_NO_MUSIC;
        let it = data.get_item_by_id_certain(player);
        if it.contains_item(&data.items, constants::ITEM_ID_CD) {
            response_code = constants::STR_ID_PLAY_CD;
        } else if it.contains_item(&data.items, constants::ITEM_ID_CASSETTE) {
            response_code = constants::STR_ID_PLAY_CASSETTE;
        }
        out.push(Msg::Response(response_code));
        data.set_on(player, false);
    }

    /// Switching item `x` on (`on_next`) or off; some switches do more.
    pub open spec fn spec_switch_item(self, w: World, x: ItemId, on_next: bool) -> Outcome {
        if !w.item_has(x, constants::CTRL_ITEM_SWITCHABLE) {
            self.respond(w, constants::STR_ID_NO_KNOW_HOW)
        } else if w.item(x).on == on_next {
            self.respond(w, constants::STR_ID_ALREADY_DONE)
        } else {
            let w1 = w.set_on(x, on_next);
            let done = MsgV::Response(constants::STR_ID_DONE);
            if x == constants::ITEM_ID_BUTTON {
                Outcome {
                    player: self,
                    world: w1.set_loc_property(constants::LOCATION_ID_ANTEROOM, constants::CTRL_LOC_HAS_GRAVITY, !on_next),
                    msgs: seq![done, MsgV::Response(constants::STR_ID_NOTHING_HAPPENS)],
                }
            } else if x == constants::ITEM_ID_LEVER {
                let w2 = w1.set_loc_property(constants::LOCATION_ID_DOCKINGCONTROL, constants::CTRL_LOC_HAS_LIGHT, on_next);
                let code = if w2.loc(constants::LOCATION_ID_DOCKINGCONTROL).has(constants::CTRL_LOC_HAS_LIGHT) {
                    constants::STR_ID_DOCKING_LIGHT_ON
                } else {
                    constants::STR_ID_DOCKING_LIGHT_OFF
                };
                Outcome { player: self, world: w2, msgs: seq![done, MsgV::Response(code)] }
            } else if x == constants::ITEM_ID_PLAYER && on_next {
                self.spec_play_player(w1, x).after(done)
            } else {
                Outcome { player: self, world: w1, msgs: seq![done] }
            }
        }
    }

    fn switch_item(&mut self, data: &mut DataCollection, item: ItemId, on_next: bool, out: &mut Vec<Msg>)
        requires
            old(self).wf(),
            old(data).wf(),
            valid_item(item),
        ensures
            final(self).wf(),
            outcome_holds(*final(self), *final(data), final(out)@, *old(data), old(out)@,
                old(self).spec_switch_item(old(data).world(), item, on_next)),
    {
        let it = data.get_item_by_id_certain(item);
        if !it.has_property(constants::CTRL_ITEM_SWITCHABLE) {
            out.push(Msg::Response(constants::STR_ID_NO_KNOW_HOW));
            return;
        }
        if (it.is_on() && on_next) || (!it.is_on() && !on_next) {
            out.push(Msg::Response(constants::STR_ID_ALREADY_DONE));
            return;
        }
        data.set_on(item, on_next);
        out.push(Msg::Response(constants::STR_ID_DONE));
        if item == constants::ITEM_ID_BUTTON {
            data.set_loc_property(constants::LOCATION_ID_ANTEROOM, constants::CTRL_LOC_HAS_GRAVITY, !on_next);
            out.push(Msg::Response(constants::STR_ID_NOTHING_HAPPENS));
        } else if item == constants::ITEM_ID_LEVER {
            data.set_loc_property(constants::LOCATION_ID_DOCKINGCONTROL, constants::CTRL_LOC_HAS_LIGHT, on_next);
            let lit = data.get_location_certain(constants::LOCATION_ID_DOCKINGCONTROL).has_property(constants::CTRL_LOC_HAS_LIGHT);
            let response_code = if lit { constants::STR_ID_DOCKING_LIGHT_ON } else { constants::STR_ID_DOCKING_LIGHT_OFF };
            out.push(Msg::Response(response_code));
        } else if item == constants::ITEM_ID_PLAYER && on_next {
            self.play_player(data, item, out);
        }
    }

    pub fn light(&mut self, data: &mut DataCollection, item: ItemId, out: &mut Vec<Msg>)
        requires
            old(self).wf(),
            old(data).wf(),
            valid_item(item),
        ensures
            final(self).wf(),
            outcome_holds(*final(self), *final(data), final(out)@, *old(data), old(out)@,
                old(self).spec_switch_item(old(data).world(), item, true)),
    {
        self.switch_item(data, item, true, out);
    }

    pub fn quench(&mut self, data: &mut DataCollection, item: ItemId, out: &mut Vec<Msg>)
        requires
            old(self).wf(),
            old(data).wf(),
            valid_item(item),
        ensures
            final(self).wf(),
            outcome_holds(*final(self), *final(data), final(out)@, *old(data), old(out)@,
                old(self).spec_switch_item(old(data).world(), item, false)),
    {
        self.switch_item(data, item, false, out);
    }

    pub open spec fn spec_push(self, w: World, x: ItemId) -> Outcome {
        if x == constants::ITEM_ID_BUTTON || x == constants::ITEM_ID_LEVER {
            self.spec_switch_item(w, x, !w.item(x).on)
        } else {
            self.respond(w, constants::STR_ID_NO_KNOW_HOW)
        }
    }

    pub fn push(&mut self, data: &mut DataCollection, item: ItemId, out: &mut Vec<Msg>)
        requires
            old(self).wf(),
            old(data).wf(),
        ensures
            final(self).wf(),
            outcome_holds(*final(self), *final(data), final(out)@, *old(data), old(out)@, old(self).spec_push(old(data).world(), item)),
    {
        if item == constants::ITEM_ID_BUTTON || item == constants::ITEM_ID_LEVER {
            let is_on = data.get_item_by_id_certain(item).is_on();
            self.switch_item(data, item, !is_on, out);
        } else {
            out.push(Msg::Response(constants::STR_ID_NO_KNOW_HOW));
        }
    }

    /// Teleporting with the map `tp_map`: from a teleport location the player
    /// moves to its destination and changes inventory.
    pub open spec fn spec_teleport(self, w: World, tp_map: Seq<(LocationId, (LocationId, InventoryId))>,
        no_teleport: StringId, teleport: StringId) -> Outcome {
        match crate::data_collection::tp_lookup(tp_map, self.location, 0) {
            None => self.respond(w, no_teleport),
            Some(next) => Player { inventory: next.1, location: next.0, previous: None, ..self }.respond(w, teleport),
        }
    }

    fn teleport(&mut self, data: &DataCollection, witch: bool, response_code_no_teleport: StringId,
        response_code_teleport: StringId, out: &mut Vec<Msg>)
        requires
            old(self).wf(),
            data.wf(),
        ensures
            final(self).wf(),
            outcome_holds(*final(self), *data, final(out)@, *data, old(out)@,
                old(self).spec_teleport(data.world(), if witch { data.tp_map_witch@ } else { data.tp_map_sleep@ },
                    response_code_no_teleport, response_code_teleport)),
    {
        let tp_map = if witch { data.get_tp_map_witch() } else { data.get_tp_map_sleep() };
        match crate::data_collection::tp_get(tp_map, self.location) {
            None => out.push(Msg::Response(response_code_no_teleport)),
            Some(nexts) => {
                let (location_id_next, inventory_id_next) = nexts;
                self.inventory = inventory_id_next;
                self.location = location_id_next;
                self.previous = None;
                out.push(Msg::Response(response_code_teleport));
            },
        }
    }

    pub fn sleep(&mut self, data: &DataCollection, out: &mut Vec<Msg>)
        requires
            old(self).wf(),
            data.wf(),
        ensures
            final(self).wf(),
            outcome_holds(*final(self), *data, final(out)@, *data, old(out)@,
                old(self).spec_teleport(data.world(), data.tp_map_sleep@, constants::STR_ID_NO_SLEEP, constants::STR_ID_SLEEP)),
    {
        self.teleport(data, false, constants::STR_ID_NO_SLEEP, constants::STR_ID_SLEEP, out);
    }

    pub fn tezazzle(&mut self, data: &DataCollection, out: &mut Vec<Msg>)
        requires
            old(self).wf(),
            data.wf(),
        ensures
            final(self).wf(),
            outcome_holds(*final(self), *data, final(out)@, *data, old(out)@,
                old(self).spec_teleport(data.world(), data.tp_map_witch@, constants::STR_ID_NOTHING_HAPPENS, constants::STR_ID_WITCHED)),
    {
        self.teleport(data, true, constants::STR_ID_NOTHING_HAPPENS, constants::STR_ID_WITCHED, out);
    }

    /// Describing item `x`: its full description, if the player can see.
    pub open spec fn spec_describe(self, w: World, d: DataCollection, x: ItemId) -> Outcome {
        if !self.spec_has_light(w) {
            self.respond(w, constants::STR_ID_NO_SEE_DARKNESS)
        } else {
            self.said(w, MsgV::Text(w.item(x).spec_full_string(w.items, d.response(constants::STR_ID_IT_IS))))
        }
    }

    pub fn describe(&mut self, data: &mut DataCollection, item: ItemId, out: &mut Vec<Msg>)
        requires
            old(self).wf(),
            old(data).wf(),
            valid_item(item),
        ensures
            final(self).wf(),
            outcome_holds(*final(self), *final(data), final(out)@, *old(data), old(out)@,
                old(self).spec_describe(old(data).world(), *old(data), item)),
    {
        if !self.has_light(data) {
            out.push(Msg::Response(constants::STR_ID_NO_SEE_DARKNESS));
            return;
        }
        let text = data.get_item_by_id_certain(item).mk_full_string(&data.items, data.get_response(constants::STR_ID_IT_IS));
        out.push(Msg::Text(text));
    }

    /// Reading item `x`: what is written on it, if the player can see.
    pub open spec fn spec_read(self, w: World, d: DataCollection, x: ItemId) -> Outcome {
        if !self.spec_has_light(w) {
            self.respond(w, constants::STR_ID_NO_SEE_DARKNESS)
        } else {
            self.said(w, MsgV::Text(match w.item(x).writing {
                None => d.response(constants::STR_ID_NO_WRITING),
                Some(wr) => crate::text::subst(d.response(constants::STR_ID_READS), wr@),
            }))
        }
    }

    pub fn read(&mut self, data: &mut DataCollection, item: ItemId, out: &mut Vec<Msg>)
        requires
            old(self).wf(),
            old(data).wf(),
            valid_item(item),
        ensures
            final(self).wf(),
            outcome_holds(*final(self), *final(data), final(out)@, *old(data), old(out)@,
                old(self).spec_read(old(data).world(), *old(data), item)),
    {
        if !self.has_light(data) {
            out.push(Msg::Response(constants::STR_ID_NO_SEE_DARKNESS));
            return;
        }
        let text = data.get_item_by_id_certain(item).mk_writing_string(data.get_response(constants::STR_ID_NO_WRITING),
            data.get_response(constants::STR_ID_READS));
        out.push(Msg::Text(text));
    }

    /// Saying `statement`: the corsair, if here, hears it and kills the
    /// player; saying hello to the alien gets a hint of what it wants.
    pub open spec fn spec_say(self, w: World, d: DataCollection, statement: Seq<char>) -> Outcome {
        let said = MsgV::ResponseParam(constants::STR_ID_SAY, statement);
        if self.has_loc(w, constants::ITEM_ID_CORSAIR) {
            self.spec_die(w).after(MsgV::Response(constants::STR_ID_CORSAIR_SPEAK)).after(said)
        } else if statement == d.response(constants::STR_ID_HELLO) && self.has_loc(w, constants::ITEM_ID_ALIEN) {
            let code = if w.item(constants::ITEM_ID_TRANSMITTER).location == constants::LOCATION_ID_GRAVEYARD {
                constants::STR_ID_HELLO_LENS
            } else if w.item(constants::ITEM_ID_CHART).location == constants::LOCATION_ID_GRAVEYARD {
                constants::STR_ID_HELLO_BEACON
            } else {
                constants::STR_ID_HELLO_CHART
            };
            Outcome { player: self, world: w, msgs: seq![said, MsgV::Response(code)] }
        } else {
            self.said(w, said)
        }
    }

    pub fn say(&mut self, data: &mut DataCollection, statement: &str, out: &mut Vec<Msg>)
        requires
            old(self).wf(),
            old(data).wf(),
            old(self).can_count(),
        ensures
            final(self).wf(),
            outcome_holds(*final(self), *final(data), final(out)@, *old(data), old(out)@,
                old(self).spec_say(old(data).world(), *old(data), statement@)),
    {
        out.push(Msg::ResponseParam(constants::STR_ID_SAY, statement.to_owned()));
        if self.has_item_location(data, constants::ITEM_ID_CORSAIR) {
            out.push(Msg::Response(constants::STR_ID_CORSAIR_SPEAK));
            self.die(data);
            return;
        }
        let hello = data.get_response(constants::STR_ID_HELLO).to_owned();
        if statement.to_owned() == hello {
            let alien_present = self.has_item_location(data, constants::ITEM_ID_ALIEN);
            if alien_present {
                let chart_used = data.get_item_by_id_certain(constants::ITEM_ID_CHART).is_retired();
                let transmitter_used = data.get_item_by_id_certain(constants::ITEM_ID_TRANSMITTER).is_retired();
                if transmitter_used {
                    out.push(Msg::Response(constants::STR_ID_HELLO_LENS));
                } else if chart_used {
                    out.push(Msg::Response(constants::STR_ID_HELLO_BEACON));
                } else {
                    out.push(Msg::Response(constants::STR_ID_HELLO_CHART));
                }
            }
        }
    }

    pub open spec fn spec_acorn(self, w: World) -> Outcome {
        if self.location == constants::LOCATION_ID_TREETOP
            && w.item(constants::ITEM_ID_ACORN).location == constants::LOCATION_ID_NURSERY {
            self.achieve(w.loc_insert(constants::LOCATION_ID_GARDEN, constants::ITEM_ID_ACORN), constants::PUZZLE_ID_ACORN)
        } else {
            self.respond(w, constants::STR_ID_NOTHING_HAPPENS)
        }
    }

    pub fn acorn(&mut self, data: &mut DataCollection, out: &mut Vec<Msg>)
        requires
            old(self).wf(),
            old(data).wf(),
            old(self).can_count(),
        ensures
            final(self).wf(),
            outcome_holds(*final(self), *final(data), final(out)@, *old(data), old(out)@, old(self).spec_acorn(old(data).world())),
    {
        let at_treetop = data.get_location_certain(self.location).is(constants::LOCATION_ID_TREETOP);
        if at_treetop {
            let acorn_is_new = data.get_item_by_id_certain(constants::ITEM_ID_ACORN).is_new();
            if acorn_is_new {
                data.loc_insert(constants::LOCATION_ID_GARDEN, constants::ITEM_ID_ACORN);
                self.complete_achievement(constants::PUZZLE_ID_ACORN, out);
                return;
            }
        }
        out.push(Msg::Response(constants::STR_ID_NOTHING_HAPPENS));
    }
}

} // verus!
