use vstd::prelude::*;

use crate::themes::DeviceMeter;

verus! {

/// A meter to run: its id, its polling interval in seconds and its widgets.
#[derive(Debug, Clone)]
pub struct MeterConfig {
    pub id: u64,
    pub interval: u32,
    pub layout: DeviceMeter,
}

/// Why a meter could not be set up or read.
#[derive(Debug, Clone, Copy, PartialEq, Eq, Structural)]
pub enum MeterError {
    /// The source of the measurement is not available on this machine.
    Unavailable,
}

/// The CPU temperature meter.
#[derive(Debug, Clone, Copy, PartialEq, Eq, Structural)]
pub struct CpuTemperature {
    pub id: u64,
}

impl CpuTemperature {
    /// The meter with id `id`. Setting it up needs nothing, so it never fails.
    pub fn new(id: u64) -> (r: Result<CpuTemperature, MeterError>)
        ensures
            r == Ok::<CpuTemperature, MeterError>(CpuTemperature { id }),
    {
        Ok(CpuTemperature { id })
    }

    pub fn id(&self) -> (id: u64)
        ensures
            id == self.id,
    {
        self.id
    }
}

/// What identifies a temperature sensor: the unit (chip) it belongs to and
/// its label, when it has one.
#[derive(Debug, Clone)]
pub struct SensorName {
    pub unit: String,
    pub label: Option<String>,
}

/// Whether a sensor is the one that measures the CPU die: unit `k10temp`,
/// label `Tccd1`.
pub open spec fn is_die_sensor(s: SensorName) -> bool {
    &&& s.unit@ == "k10temp"@
    &&& s.label is Some
    &&& s.label->Some_0@ == "Tccd1"@
}

/// The index of the first sensor that measures the CPU die, if any.
pub fn find_die_sensor(sensors: &Vec<SensorName>) -> (r: Option<usize>)
    ensures
        match r {
            Some(i) => i < sensors@.len() && is_die_sensor(sensors@[i as int]) && forall|k: int|
                0 <= k < i ==> !is_die_sensor(#[trigger] sensors@[k]),
            None => forall|k: int| 0 <= k < sensors@.len() ==> !is_die_sensor(#[trigger] sensors@[k]),
        },
{
    let unit = String::from_str("k10temp");
    let label = String::from_str("Tccd1");
    let mut i: usize = 0;
    while i < sensors.len()
        invariant
            i <= sensors@.len(),
            unit@ == "k10temp"@,
            label@ == "Tccd1"@,
            forall|k: int| 0 <= k < i ==> !is_die_sensor(#[trigger] sensors@[k]),
        decreases sensors@.len() - i,
    {
        let s = &sensors[i];
        if s.unit == unit {
            match &s.label {
                Some(l) => {
                    if *l == label {
                        return Some(i);
                    }
                },
                None => {},
            }
        }
        i += 1;
    }
    None
}

} // verus!
