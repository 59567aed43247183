//! Point-in-time metric readings. Acquiring them from the operating system
//! is the host's affair; the types they arrive in, and the arithmetic on
//! them, live here.

use vstd::prelude::*;

verus! {

/// The state of the machine's batteries taken together.
#[derive(Clone, Debug, Eq, PartialEq, Structural)]
pub struct BatteryState {
    /// Charge as a percentage, at most 100.
    pub capacity: u32,
    pub charging: bool,
}

/// One battery's reading: its charge in thousandths of full, and whether it
/// is charging.
#[derive(Clone, Copy, Debug, Eq, PartialEq, Structural)]
pub struct BatteryReading {
    pub charge_permille: u32,
    pub charging: bool,
}

/// A failure to read the batteries, as the host reports it.
#[derive(Clone, Debug, Eq, PartialEq)]
pub struct BatteryError {
    pub message: String,
}

/// A failure to read a backlight device, as the host reports it.
#[derive(Clone, Debug, Eq, PartialEq)]
pub struct BrightnessError {
    pub message: String,
}

/// One backlight device's reading.
#[derive(Clone, Debug, Eq, PartialEq)]
pub struct BrightnessInfo {
    pub device: String,
    pub level: u32,
}

/// Space used on a disk, in bytes.
#[derive(Clone, Copy, Debug, Eq, PartialEq, Structural)]
pub struct DiskUsage {
    pub used: u64,
    pub total: u64,
}

/// Memory in use, in bytes.
#[derive(Clone, Copy, Debug, Eq, PartialEq, Structural)]
pub struct MemoryUsage {
    pub used: u64,
    pub total: u64,
}

pub open spec fn sum_permille(rs: Seq<BatteryReading>) -> int
    decreases rs.len(),
{
    if rs.len() == 0 {
        0
    } else {
        sum_permille(rs.drop_last()) + rs.last().charge_permille
    }
}

/// The batteries' combined percentage: their average charge, rounded to the
/// nearest percent (half up), never above 100.
pub open spec fn battery_capacity_of(rs: Seq<BatteryReading>) -> int {
    let pct = (sum_permille(rs) + 5 * rs.len()) / (10 * rs.len() as int);
    if pct > 100 {
        100
    } else {
        pct
    }
}

pub open spec fn any_charging(rs: Seq<BatteryReading>) -> bool {
    exists|k: int| 0 <= k < rs.len() && rs[k].charging
}

proof fn lemma_sum_permille_bound(rs: Seq<BatteryReading>)
    requires
        forall|k: int| 0 <= k < rs.len() ==> (#[trigger] rs[k]).charge_permille <= 1000,
    ensures
        0 <= sum_permille(rs) <= 1000 * rs.len(),
    decreases rs.len(),
{
    if rs.len() > 0 {
        assert(forall|k: int|
            0 <= k < rs.drop_last().len() ==> (#[trigger] rs.drop_last()[k]).charge_permille
                <= 1000);
        lemma_sum_permille_bound(rs.drop_last());
    }
}

/// Folds any number of per-battery readings into one state: nothing when
/// there is no battery, else the rounded average charge, capped at 100
/// percent, charging when any battery is.
pub fn battery_state(readings: &Vec<BatteryReading>) -> (r: Option<BatteryState>)
    requires
        forall|k: int| 0 <= k < readings@.len() ==> (#[trigger] readings@[k]).charge_permille
            <= 1000,
    ensures
        r is Some <==> readings@.len() > 0,
        r matches Some(st) ==> st.capacity == battery_capacity_of(readings@) && st.charging
            == any_charging(readings@),
{
    if readings.len() == 0 {
        return None;
    }
    let mut sum: u128 = 0;
    let mut charging = false;
    let mut i: usize = 0;
    proof {
        assert(readings@.take(0) =~= Seq::<BatteryReading>::empty());
    }
    while i < readings.len()
        invariant
            i <= readings@.len(),
            forall|k: int| 0 <= k < readings@.len() ==> (#[trigger] readings@[k]).charge_permille
                <= 1000,
            sum == sum_permille(readings@.take(i as int)),
            charging == any_charging(readings@.take(i as int)),
            sum <= 1000 * i,
        decreases readings@.len() - i,
    {
        let rd = readings[i];
        proof {
            let upto = readings@.take(i + 1);
            assert(upto.drop_last() =~= readings@.take(i as int));
            assert(upto.last() == readings@[i as int]);
            if charging || rd.charging {
                assert(any_charging(upto)) by {
                    if rd.charging {
                        assert(upto[i as int].charging);
                    } else {
                        let k = choose|k: int|
                            0 <= k < i && readings@.take(i as int)[k].charging;
                        assert(upto[k].charging);
                    }
                }
            } else {
                assert(!any_charging(upto)) by {
                    assert(forall|k: int| 0 <= k <= i ==> !(#[trigger] upto[k]).charging) by {
                        assert(forall|k: int|
                            0 <= k < i ==> upto[k] == readings@.take(i as int)[k]);
                    }
                }
            }
        }
        sum = sum + rd.charge_permille as u128;
        charging = charging || rd.charging;
        i = i + 1;
    }
    proof {
        assert(readings@.take(readings@.len() as int) =~= readings@);
    }
    let n = readings.len() as u128;
    let pct = (sum + 5 * n) / (10 * n);
    let capacity: u32 = if pct > 100 {
        100
    } else {
        pct as u32
    };
    Some(BatteryState { capacity, charging })
}

/// Disk usage from the total and the space still available.
pub fn disk_usage(total: u64, available: u64) -> (r: DiskUsage)
    requires
        available <= total,
    ensures
        r.total == total,
        r.used == total - available,
{
    DiskUsage { used: total - available, total }
}

} // verus!
