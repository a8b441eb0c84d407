//! The save-file data model of the desktop shell: a base layout, the roster
//! of hired operators, and rotation parameters, with the documented default
//! values.

use vstd::prelude::*;

verus! {

/// A facility without shift assignments.
pub struct NoShiftFacility {
    /// The facility's upgrade level.
    pub level: u8,
}

impl NoShiftFacility {
    pub fn new(level: u8) -> (r: Self)
        ensures
            r.level == level,
    {
        NoShiftFacility { level }
    }
}

/// A facility with a shift rotation.
pub struct Facility {
    /// The facility's upgrade level.
    pub level: u8,
    /// The operator assigned to each shift, if any.
    pub shifts: Vec<Option<String>>,
}

impl Facility {
    pub fn new(level: u8) -> (r: Self)
        ensures
            r.level == level,
            r.shifts@.len() == 0,
    {
        Facility { level, shifts: Vec::new() }
    }
}

/// What a trading post produces.
#[derive(Clone, Copy, PartialEq, Eq, Structural, Debug)]
pub enum TradingProduct {
    Lmd,
    Orundum,
}

/// What a factory produces.
#[derive(Clone, Copy, PartialEq, Eq, Structural, Debug)]
pub enum FactoryProduct {
    Exp200,
    Exp400,
    Exp1000,
    Gold,
    Shard,
}

/// A trading post: shifts, drone boosts and products.
pub struct TradingPost {
    /// The facility's upgrade level.
    pub level: u8,
    /// The operator assigned to each shift, if any.
    pub shifts: Vec<Option<String>>,
    /// The drone boost of each shift, if any.
    pub boosts: Vec<Option<u32>>,
    /// The product of each shift, if any.
    pub products: Vec<Option<TradingProduct>>,
}

impl TradingPost {
    pub fn new(level: u8) -> (r: Self)
        ensures
            r.level == level,
            r.shifts@.len() == 0,
            r.boosts@.len() == 0,
            r.products@.len() == 0,
    {
        TradingPost { level, shifts: Vec::new(), boosts: Vec::new(), products: Vec::new() }
    }
}

/// A factory: shifts, drone boosts and products.
pub struct Factory {
    /// The facility's upgrade level.
    pub level: u8,
    /// The operator assigned to each shift, if any.
    pub shifts: Vec<Option<String>>,
    /// The drone boost of each shift, if any.
    pub boosts: Vec<Option<u32>>,
    /// The product of each shift, if any.
    pub products: Vec<Option<FactoryProduct>>,
}

impl Factory {
    pub fn new(level: u8) -> (r: Self)
        ensures
            r.level == level,
            r.shifts@.len() == 0,
            r.boosts@.len() == 0,
            r.products@.len() == 0,
    {
        Factory { level, shifts: Vec::new(), boosts: Vec::new(), products: Vec::new() }
    }
}

/// One hired operator and its elite tier.
pub struct CharData {
    /// The operator's name.
    pub operator: String,
    /// The operator's elite tier.
    pub tier: u8,
}

/// The base layout: one entry per buildable facility slot.
pub struct Layout {
    /// The control center.
    pub cc: Facility,
    /// The trading posts.
    pub tp: Vec<TradingPost>,
    /// The factories.
    pub fac: Vec<Factory>,
    /// The power plants.
    pub pp: Vec<Facility>,
    /// The workshop.
    pub workshop: NoShiftFacility,
    /// The reception room.
    pub rr: Facility,
    /// The office.
    pub office: Facility,
    /// The training room.
    pub train: NoShiftFacility,
    /// The four dormitories.
    pub dorm: Vec<Facility>,
}

/// The starting layout: a level-one control center, one level-one trading
/// post, factory and power plant, a level-one workshop, one open dormitory,
/// and everything else unbuilt.
pub open spec fn is_default_layout(l: &Layout) -> bool {
    &&& l.cc.level == 1 && l.cc.shifts@.len() == 0
    &&& l.tp@.len() == 1 && l.tp@[0].level == 1 && l.tp@[0].shifts@.len() == 0 && l.tp@[0].boosts@.len()
        == 0 && l.tp@[0].products@.len() == 0
    &&& l.fac@.len() == 1 && l.fac@[0].level == 1 && l.fac@[0].shifts@.len() == 0
        && l.fac@[0].boosts@.len() == 0 && l.fac@[0].products@.len() == 0
    &&& l.pp@.len() == 1 && l.pp@[0].level == 1 && l.pp@[0].shifts@.len() == 0
    &&& l.workshop.level == 1
    &&& l.rr.level == 0 && l.rr.shifts@.len() == 0
    &&& l.office.level == 0 && l.office.shifts@.len() == 0
    &&& l.train.level == 0
    &&& l.dorm@.len() == 4
    &&& l.dorm@[0].level == 1 && l.dorm@[0].shifts@.len() == 0
    &&& l.dorm@[1].level == 0 && l.dorm@[1].shifts@.len() == 0
    &&& l.dorm@[2].level == 0 && l.dorm@[2].shifts@.len() == 0
    &&& l.dorm@[3].level == 0 && l.dorm@[3].shifts@.len() == 0
}

impl Default for Layout {
    fn default() -> (r: Self)
        ensures
            is_default_layout(&r),
    {
        let mut tp: Vec<TradingPost> = Vec::new();
        tp.push(TradingPost::new(1));
        let mut fac: Vec<Factory> = Vec::new();
        fac.push(Factory::new(1));
        let mut pp: Vec<Facility> = Vec::new();
        pp.push(Facility::new(1));
        let mut dorm: Vec<Facility> = Vec::new();
        dorm.push(Facility::new(1));
        dorm.push(Facility::new(0));
        dorm.push(Facility::new(0));
        dorm.push(Facility::new(0));
        Layout {
            cc: Facility::new(1),
            tp,
            fac,
            pp,
            workshop: NoShiftFacility::new(1),
            rr: Facility::new(0),
            office: Facility::new(0),
            train: NoShiftFacility::new(0),
            dorm,
        }
    }
}

/// One saved base: the layout, the hired roster, and the rotation
/// parameters.
pub struct Save {
    /// The base layout.
    pub layout: Layout,
    /// The hired operators.
    pub chars: Vec<CharData>,
    /// The drone capacity; drones regenerate up to this amount.
    pub drones: u32,
    /// The total number of shifts in the rotation.
    pub max_shift: u16,
    /// The duration of one shift, in minutes.
    pub interval: u16,
}

impl Default for Save {
    fn default() -> (r: Self)
        ensures
            is_default_layout(&r.layout),
            r.chars@.len() == 0,
            r.drones == 200,
            r.max_shift == 12,
            r.interval == 720,
    {
        Save {
            layout: Layout::default(),
            chars: Vec::new(),
            drones: 200,
            max_shift: 12,
            interval: 720,
        }
    }
}

} // verus!
