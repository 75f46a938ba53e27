//! What the energy system of the house is doing.

use vstd::prelude::*;

use crate::double::{with_sign, Double};

verus! {

/// The live state of the house: charge in percent, powers in kW, and the history of each as pairs
/// of milliseconds since 1970-01-01 and value.
#[derive(Debug)]
pub struct SystemStatus {
    pub soc: u8,
    pub pv_power: Double,
    pub load_power: Double,
    pub grid_power: Double,
    pub battery_power: Double,
    pub soc_histogram: Vec<(i64, Double)>,
    pub pv_histogram: Vec<(i64, Double)>,
    pub load_histogram: Vec<(i64, Double)>,
    pub grid_histogram: Vec<(i64, Double)>,
    pub battuse_histogram: Vec<(i64, Double)>,
}

/// The contents of a status.
#[verifier::ext_equal]
pub struct StatusView {
    pub soc: u8,
    pub pv_power: Double,
    pub load_power: Double,
    pub grid_power: Double,
    pub battery_power: Double,
    pub soc_histogram: Seq<(i64, Double)>,
    pub pv_histogram: Seq<(i64, Double)>,
    pub load_histogram: Seq<(i64, Double)>,
    pub grid_histogram: Seq<(i64, Double)>,
    pub battuse_histogram: Seq<(i64, Double)>,
}

impl View for SystemStatus {
    type V = StatusView;

    open spec fn view(&self) -> StatusView {
        StatusView {
            soc: self.soc,
            pv_power: self.pv_power,
            load_power: self.load_power,
            grid_power: self.grid_power,
            battery_power: self.battery_power,
            soc_histogram: self.soc_histogram@,
            pv_histogram: self.pv_histogram@,
            load_histogram: self.load_histogram@,
            grid_histogram: self.grid_histogram@,
            battuse_histogram: self.battuse_histogram@,
        }
    }
}

/// Readings without a history.
pub open spec fn reading(
    soc: u8,
    pv_power: Double,
    load_power: Double,
    grid_power: Double,
    battery_power: Double,
) -> StatusView {
    StatusView {
        soc,
        pv_power,
        load_power,
        grid_power,
        battery_power,
        soc_histogram: seq![],
        pv_histogram: seq![],
        load_histogram: seq![],
        grid_histogram: seq![],
        battuse_histogram: seq![],
    }
}

/// Nothing is known: everything is zero and there is no history.
pub open spec fn blank_status() -> StatusView {
    let zero = with_sign(false, 0);
    reading(0, zero, zero, zero, zero)
}

impl SystemStatus {
    /// Readings without a history.
    pub fn from_readings(
        soc: u8,
        pv_power: Double,
        load_power: Double,
        grid_power: Double,
        battery_power: Double,
    ) -> (r: SystemStatus)
        ensures
            r@ == reading(soc, pv_power, load_power, grid_power, battery_power),
    {
        SystemStatus {
            soc,
            pv_power,
            load_power,
            grid_power,
            battery_power,
            soc_histogram: Vec::new(),
            pv_histogram: Vec::new(),
            load_histogram: Vec::new(),
            grid_histogram: Vec::new(),
            battuse_histogram: Vec::new(),
        }
    }
}

/// Copies a list.
pub(crate) fn copy_list<T: Copy>(list: &Vec<T>) -> (r: Vec<T>)
    ensures
        r@ == list@,
{
    let mut r: Vec<T> = Vec::new();
    let mut i: usize = 0;
    while i < list.len()
        invariant
            i <= list.len(),
            r@ == list@.take(i as int),
        decreases list.len() - i,
    {
        r.push(list[i]);
        assert(list@.take(i + 1) == list@.take(i as int).push(list@[i as int]));
        i = i + 1;
    }
    assert(list@.take(i as int) == list@);
    r
}

impl Clone for SystemStatus {
    fn clone(&self) -> (r: SystemStatus)
        ensures
            r@ == self@,
    {
        SystemStatus {
            soc: self.soc,
            pv_power: self.pv_power,
            load_power: self.load_power,
            grid_power: self.grid_power,
            battery_power: self.battery_power,
            soc_histogram: copy_list(&self.soc_histogram),
            pv_histogram: copy_list(&self.pv_histogram),
            load_histogram: copy_list(&self.load_histogram),
            grid_histogram: copy_list(&self.grid_histogram),
            battuse_histogram: copy_list(&self.battuse_histogram),
        }
    }
}

impl Default for SystemStatus {
    fn default() -> (r: SystemStatus)
        ensures
            r@ == blank_status(),
    {
        let zero: Double = Double::zero();
        SystemStatus::from_readings(0, zero, zero, zero, zero)
    }
}

} // verus!
