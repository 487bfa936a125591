use vstd::prelude::*;

verus! {

/// Bytes in one GiB.
pub const GIB: u64 = 1073741824;

/// A whole in hundredths of a percent: 100% is 10000.
pub const FULL_CENTI_PERCENT: u64 = 10000;

/// `part / whole` in hundredths of a percent, rounded down; 0 when `whole`
/// is 0, and saturated at `u64::MAX`.
pub open spec fn percent_centi_spec(part: nat, whole: nat) -> nat {
    if whole == 0 {
        0
    } else if part * 10000 / whole > u64::MAX {
        u64::MAX as nat
    } else {
        part * 10000 / whole
    }
}

/// `bytes` in hundredths of a GiB, rounded down.
pub open spec fn gib_centi_spec(bytes: nat) -> nat {
    bytes * 100 / (GIB as nat)
}

/// `part / whole` in hundredths of a percent (see `percent_centi_spec`).
pub fn percent_centi(part: u64, whole: u64) -> (r: u64)
    ensures
        r == percent_centi_spec(part as nat, whole as nat),
{
    if whole == 0 {
        return 0;
    }
    let scaled: u128 = part as u128 * 10000u128;
    assert(scaled == part * 10000) by (nonlinear_arith)
        requires scaled == part as u128 * 10000u128, part <= u64::MAX;
    let q: u128 = scaled / (whole as u128);
    if q > u64::MAX as u128 {
        u64::MAX
    } else {
        q as u64
    }
}

/// `bytes` in hundredths of a GiB.
pub fn gib_centi(bytes: u64) -> (r: u64)
    ensures
        r == gib_centi_spec(bytes as nat),
{
    let scaled: u128 = bytes as u128 * 100u128;
    let q: u128 = scaled / (GIB as u128);
    assert(q <= u64::MAX) by (nonlinear_arith)
        requires q == scaled / 1073741824u128, scaled == bytes * 100, bytes <= u64::MAX;
    q as u64
}

/// Memory (or swap) figures derived from raw byte totals.
#[derive(Clone, Copy, Debug, PartialEq, Eq)]
pub struct MemFigures {
    /// The total in hundredths of a GiB.
    pub total_gib_centi: u64,
    /// The used amount in hundredths of a GiB.
    pub usage_gib_centi: u64,
    /// The reference percentage of the total: always 100%.
    pub total_per: u64,
    /// The used amount as a percentage of the total.
    pub usage_per: u64,
}

/// Derives the figures for `used_mem_in_byte` out of `total_mem_in_byte`;
/// all percentages are in hundredths of a percent.
pub fn mem_calc(total_mem_in_byte: u64, used_mem_in_byte: u64) -> (r: MemFigures)
    ensures
        r.total_gib_centi == gib_centi_spec(total_mem_in_byte as nat),
        r.usage_gib_centi == gib_centi_spec(used_mem_in_byte as nat),
        r.total_per == FULL_CENTI_PERCENT,
        r.usage_per == percent_centi_spec(used_mem_in_byte as nat, total_mem_in_byte as nat),
{
    MemFigures {
        total_gib_centi: gib_centi(total_mem_in_byte),
        usage_gib_centi: gib_centi(used_mem_in_byte),
        total_per: FULL_CENTI_PERCENT,
        usage_per: percent_centi(used_mem_in_byte, total_mem_in_byte),
    }
}

/// The number of recent CPU readings that the smoothed figure averages.
pub const CPU_SMOOTHING_LEN: usize = 3;

/// The arithmetic mean of a reading window, rounded down.
pub open spec fn mean_spec(s: Seq<u64>) -> nat {
    (s[0] + s[1] + s[2]) as nat / 3
}

/// A fixed window of the three most recent global CPU readings, in
/// hundredths of a percent, oldest first.
pub struct CpuSmoother {
    pub readings: Vec<u64>,
}

impl CpuSmoother {
    /// The window always holds exactly three readings.
    pub open spec fn wf(&self) -> bool {
        self.readings@.len() == CPU_SMOOTHING_LEN
    }

    /// A window of three zero readings.
    pub fn new() -> (r: Self)
        ensures
            r.wf(),
            r.readings@ == seq![0u64, 0u64, 0u64],
    {
        CpuSmoother { readings: vec![0, 0, 0] }
    }

    /// Pushes `reading`, evicting the oldest, and returns the mean of the
    /// window, rounded down.
    pub fn usage_calc(&mut self, reading: u64) -> (r: u64)
        requires
            old(self).wf(),
        ensures
            final(self).wf(),
            final(self).readings@ == old(self).readings@.drop_first().push(reading),
            r == mean_spec(final(self).readings@),
    {
        self.readings.remove(0);
        self.readings.push(reading);
        assert(self.readings@ =~= old(self).readings@.drop_first().push(reading));
        let sum: u128 = self.readings[0] as u128 + self.readings[1] as u128
            + self.readings[2] as u128;
        (sum / 3) as u64
    }
}

/// A duration in seconds split into days, hours, minutes and seconds.
pub open spec fn split_spec(secs: nat) -> (nat, nat, nat, nat) {
    (secs / 86400, (secs % 86400) / 3600, (secs % 3600) / 60, secs % 60)
}

/// Splits `secs` into `(days, hours, minutes, seconds)`, with hours below
/// 24, and minutes and seconds below 60.
pub fn time_to_human_str(secs: u64) -> (r: (u64, u64, u64, u64))
    ensures
        (r.0 as nat, r.1 as nat, r.2 as nat, r.3 as nat) == split_spec(secs as nat),
        r.1 < 24 && r.2 < 60 && r.3 < 60,
        r.0 * 86400 + r.1 * 3600 + r.2 * 60 + r.3 == secs,
{
    let day = secs / 86400;
    let rest = secs % 86400;
    let hour = rest / 3600;
    let rest2 = rest % 3600;
    let min = rest2 / 60;
    let sec = rest2 % 60;
    assert(rest2 == secs % 3600 && sec == secs % 60) by (nonlinear_arith)
        requires
            rest == secs % 86400,
            rest2 == rest % 3600,
            sec == rest2 % 60,
            secs >= 0,
    {
        assert(secs % 86400 % 3600 == secs % 3600);
    }
    assert(day * 86400 + hour * 3600 + min * 60 + sec == secs) by (nonlinear_arith)
        requires
            day == secs / 86400,
            rest == secs % 86400,
            hour == rest / 3600,
            rest2 == rest % 3600,
            min == rest2 / 60,
            sec == rest2 % 60,
    ;
    (day, hour, min, sec)
}

/// How loaded a gauge reads against its two alarm levels.
#[derive(Clone, Copy, Debug, PartialEq, Eq)]
pub enum BarLevel {
    Normal,
    High,
    Critical,
}

/// The level of `value`: critical above `high_high`, high above `high`,
/// normal otherwise.
pub fn bar_level(value: u64, high: u64, high_high: u64) -> (r: BarLevel)
    ensures
        r == if value > high_high {
            BarLevel::Critical
        } else if value > high {
            BarLevel::High
        } else {
            BarLevel::Normal
        },
{
    if value > high_high {
        BarLevel::Critical
    } else if value > high {
        BarLevel::High
    } else {
        BarLevel::Normal
    }
}

} // verus!
