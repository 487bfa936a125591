use vstd::prelude::*;
use vstd::string::StrSliceExecFns;
use crate::metrics::{percent_centi, percent_centi_spec};

verus! {

/// The records that the csv crate reads from `data` (first row taken as a
/// header), each as its fields; `None` when the reader reports an error.
pub uninterp spec fn csv_records(data: Seq<u8>) -> Option<Seq<Seq<Seq<char>>>>;

/// The views of a list of records.
pub open spec fn records_view(v: Seq<Vec<String>>) -> Seq<Seq<Seq<char>>> {
    v.map(|_i: int, rec: Vec<String>| rec@.map(|_j: int, f: String| f@))
}

/// Relies on `csv::Reader::from_reader` with its default configuration
/// (comma-separated, first row a header, every record as wide as the first)
/// and on `Reader::records`, to split `data` into records of fields.
#[verifier::external_body]
fn read_csv_records(data: &[u8]) -> (r: Option<Vec<Vec<String>>>)
    ensures
        match r {
            Some(v) => csv_records(data@) == Some(records_view(v@)),
            None => csv_records(data@).is_none(),
        },
{
    let mut reader = csv::Reader::from_reader(data);
    reader
        .records()
        .map(|rec| rec.map(|rec| rec.iter().map(String::from).collect()))
        .collect::<Result<Vec<Vec<String>>, csv::Error>>()
        .ok()
}

/// Why a history file could not be loaded.
#[derive(Clone, Copy, Debug, PartialEq, Eq)]
pub enum LoadError {
    /// The csv reader failed on the data.
    Unreadable,
    /// The file holds no records.
    Empty,
    /// The record at this index (counting from 0 after the header) does not
    /// hold exactly three well-formed numbers: a whole-number tick, a decimal
    /// CPU percentage and a whole number of bytes.
    Malformed(usize),
}

pub open spec fn is_digit(c: char) -> bool {
    '0' <= c && c <= '9'
}

pub open spec fn digit_value(c: char) -> nat {
    (c as int - '0' as int) as nat
}

pub open spec fn all_digits(s: Seq<char>) -> bool {
    forall|i: int| 0 <= i < s.len() ==> is_digit(#[trigger] s[i])
}

/// The value of a string of decimal digits.
pub open spec fn digits_value(s: Seq<char>) -> nat
    decreases s.len(),
{
    if s.len() == 0 {
        0
    } else {
        digits_value(s.drop_last()) * 10 + digit_value(s.last())
    }
}

/// A non-empty string of decimal digits whose value fits in a `u64`.
pub open spec fn parse_u64_spec(s: Seq<char>) -> Option<u64> {
    if s.len() > 0 && all_digits(s) && digits_value(s) <= u64::MAX {
        Some(digits_value(s) as u64)
    } else {
        None
    }
}

/// The index of the first '.' in `s`, or its length when there is none.
pub open spec fn dot_pos(s: Seq<char>) -> int
    decreases s.len(),
{
    if s.len() == 0 {
        0
    } else if s[0] == '.' {
        0
    } else {
        1 + dot_pos(s.drop_first())
    }
}

/// The hundredths that the fraction digits `f` give: its first two digits,
/// the rest dropped.
pub open spec fn fraction_centi(f: Seq<char>) -> nat {
    (if f.len() >= 1 { digit_value(f[0]) * 10 } else { 0 }) + (if f.len() >= 2 {
        digit_value(f[1])
    } else {
        0
    })
}

/// A decimal number "D" or "D.F" (digits on both sides of the point) in
/// hundredths, fraction digits past the second dropped; `None` when it is
/// not of that form or does not fit in a `u64`.
pub open spec fn parse_centi_spec(s: Seq<char>) -> Option<u64> {
    let k = dot_pos(s);
    let int_part = s.subrange(0, k);
    let frac = if k < s.len() { s.subrange(k + 1, s.len() as int) } else { Seq::empty() };
    if k > 0 && all_digits(int_part) && (k < s.len() ==> frac.len() > 0) && all_digits(frac)
        && digits_value(int_part) * 100 + fraction_centi(frac) <= u64::MAX {
        Some((digits_value(int_part) * 100 + fraction_centi(frac)) as u64)
    } else {
        None
    }
}

/// A record is well formed when it holds exactly three fields: a tick, a
/// CPU percentage and the memory used in bytes. The tick is a whole number
/// (trend ticks are integers); a fractional tick such as "1.5" makes the
/// record malformed.
pub open spec fn record_ok(rec: Seq<Seq<char>>) -> bool {
    &&& rec.len() == 3
    &&& parse_u64_spec(rec[0]).is_some()
    &&& parse_centi_spec(rec[1]).is_some()
    &&& parse_u64_spec(rec[2]).is_some()
}

/// The CPU sample of a well-formed record: (tick, hundredths of a percent).
pub open spec fn cpu_sample(rec: Seq<Seq<char>>) -> (u64, u64) {
    (parse_u64_spec(rec[0]).unwrap(), parse_centi_spec(rec[1]).unwrap())
}

/// The memory sample of a well-formed record: the bytes used as hundredths
/// of a percent of `total`.
pub open spec fn mem_sample(rec: Seq<Seq<char>>, total: nat) -> (u64, u64) {
    (
        parse_u64_spec(rec[0]).unwrap(),
        percent_centi_spec(parse_u64_spec(rec[2]).unwrap() as nat, total) as u64,
    )
}

/// What loading the records `recs` gives against `total` bytes of memory.
pub open spec fn load_ok(
    recs: Seq<Seq<Seq<char>>>,
    total: nat,
    cpu: Seq<(u64, u64)>,
    mem: Seq<(u64, u64)>,
) -> bool {
    &&& cpu.len() == recs.len()
    &&& mem.len() == recs.len()
    &&& forall|i: int| 0 <= i < recs.len() ==> #[trigger] cpu[i] == cpu_sample(recs[i])
    &&& forall|i: int| 0 <= i < recs.len() ==> #[trigger] mem[i] == mem_sample(recs[i], total)
}

/// The contract of loading `recs`: `Empty` without records, `Malformed(i)`
/// for the first bad record `i`, else the two series in record order.
pub open spec fn load_result_ok(
    recs: Seq<Seq<Seq<char>>>,
    total: nat,
    r: Result<(Vec<(u64, u64)>, Vec<(u64, u64)>), LoadError>,
) -> bool {
    match r {
        Ok((cpu, mem)) => {
            &&& recs.len() > 0
            &&& forall|i: int| 0 <= i < recs.len() ==> #[trigger] record_ok(recs[i])
            &&& load_ok(recs, total, cpu@, mem@)
        },
        Err(LoadError::Empty) => recs.len() == 0,
        Err(LoadError::Malformed(i)) => {
            &&& i < recs.len()
            &&& !record_ok(recs[i as int])
            &&& forall|j: int| 0 <= j < i ==> #[trigger] record_ok(recs[j])
        },
        Err(LoadError::Unreadable) => false,
    }
}

proof fn lemma_prefix_value_le(s: Seq<char>, i: int)
    requires
        0 <= i <= s.len(),
    ensures
        digits_value(s.subrange(0, i)) <= digits_value(s),
    decreases s.len(),
{
    if i < s.len() {
        assert(s.drop_last().subrange(0, i) =~= s.subrange(0, i));
        lemma_prefix_value_le(s.drop_last(), i);
    } else {
        assert(s.subrange(0, i) =~= s);
    }
}

/// Parses a non-empty string of decimal digits that fits in a `u64`.
pub fn parse_u64(s: &str) -> (r: Option<u64>)
    ensures
        r == parse_u64_spec(s@),
{
    let n = s.unicode_len();
    if n == 0 {
        return None;
    }
    let mut acc: u64 = 0;
    let mut i: usize = 0;
    while i < n
        invariant
            n == s@.len(),
            i <= n,
            all_digits(s@.subrange(0, i as int)),
            acc == digits_value(s@.subrange(0, i as int)),
        decreases n - i,
    {
        let c = s.get_char(i);
        assert(s@.subrange(0, i + 1).drop_last() =~= s@.subrange(0, i as int));
        if !('0' <= c && c <= '9') {
            assert(!all_digits(s@));
            return None;
        }
        let d = (c as u32 - '0' as u32) as u64;
        if acc > (u64::MAX - d) / 10 {
            proof {
                assert(all_digits(s@.subrange(0, i + 1)));
                assert(digits_value(s@.subrange(0, i + 1)) > u64::MAX);
                lemma_prefix_value_le(s@, i + 1);
            }
            return None;
        }
        acc = acc * 10 + d;
        i = i + 1;
    }
    assert(s@.subrange(0, n as int) =~= s@);
    Some(acc)
}

/// Parses a decimal number "D" or "D.F" into hundredths (see
/// `parse_centi_spec`).
pub fn parse_centi(s: &str) -> (r: Option<u64>)
    ensures
        r == parse_centi_spec(s@),
{
    let n = s.unicode_len();
    let mut k: usize = 0;
    assert(s@.subrange(0, n as int) =~= s@);
    while k < n && s.get_char(k) != '.'
        invariant
            n == s@.len(),
            k <= n,
            dot_pos(s@) == k + dot_pos(s@.subrange(k as int, n as int)),
        decreases n - k,
    {
        assert(s@.subrange(k as int, n as int).drop_first() =~= s@.subrange(k + 1, n as int));
        k = k + 1;
    }
    proof {
        if k < n {
            assert(s@.subrange(k as int, n as int)[0] == s@[k as int]);
        }
        assert(dot_pos(s@) == k);
    }
    if k == 0 {
        return None;
    }
    let int_part = parse_u64(s.substring_char(0, k));
    let whole = match int_part {
        None => {
            return None;
        },
        Some(v) => v,
    };
    let mut frac: u64 = 0;
    if k < n {
        let f = s.substring_char(k + 1, n);
        let fl = f.unicode_len();
        if fl == 0 {
            return None;
        }
        let mut j: usize = 0;
        while j < fl
            invariant
                fl == f@.len(),
                j <= fl,
                k < n,
                n == s@.len(),
                dot_pos(s@) == k,
                f@ == s@.subrange(k + 1, n as int),
                all_digits(f@.subrange(0, j as int)),
        decreases fl - j,
        {
            let c = f.get_char(j);
            if !('0' <= c && c <= '9') {
                assert(!is_digit(f@[j as int]));
                assert(!all_digits(s@.subrange(k + 1, n as int)));
                return None;
            }
            assert(f@.subrange(0, j + 1) =~= f@.subrange(0, j as int).push(c));
            j = j + 1;
        }
        assert(f@.subrange(0, fl as int) =~= f@);
        let d0 = (f.get_char(0) as u32 - '0' as u32) as u64;
        frac = d0 * 10;
        if fl >= 2 {
            let d1 = (f.get_char(1) as u32 - '0' as u32) as u64;
            frac = frac + d1;
        }
    }
    if whole > (u64::MAX - frac) / 100 {
        return None;
    }
    Some(whole * 100 + frac)
}

/// Turns history records into the CPU and memory series, taking memory
/// against `total_memory` bytes (see `load_result_ok`).
pub fn load_records(records: &Vec<Vec<String>>, total_memory: u64) -> (r: Result<
    (Vec<(u64, u64)>, Vec<(u64, u64)>),
    LoadError,
>)
    ensures
        load_result_ok(records_view(records@), total_memory as nat, r),
{
    let ghost recs = records_view(records@);
    if records.len() == 0 {
        return Err(LoadError::Empty);
    }
    let mut cpu: Vec<(u64, u64)> = Vec::new();
    let mut mem: Vec<(u64, u64)> = Vec::new();
    let mut i: usize = 0;
    while i < records.len()
        invariant
            i <= records@.len(),
            recs == records_view(records@),
            forall|j: int| 0 <= j < i ==> #[trigger] record_ok(recs[j]),
            load_ok(recs.subrange(0, i as int), total_memory as nat, cpu@, mem@),
        decreases records@.len() - i,
    {
        let rec = &records[i];
        let ghost rv = recs[i as int];
        assert(rv == rec@.map(|_j: int, f: String| f@));
        if rec.len() != 3 {
            return Err(LoadError::Malformed(i));
        }
        let tick = parse_u64(rec[0].as_str());
        let cpu_value = parse_centi(rec[1].as_str());
        let used = parse_u64(rec[2].as_str());
        match (tick, cpu_value, used) {
            (Some(t), Some(c), Some(u)) => {
                cpu.push((t, c));
                mem.push((t, percent_centi(u, total_memory)));
                assert(record_ok(rv));
            },
            _ => {
                return Err(LoadError::Malformed(i));
            },
        }
        assert(recs.subrange(0, i + 1).drop_last() =~= recs.subrange(0, i as int));
        i = i + 1;
    }
    assert(recs.subrange(0, i as int) =~= recs);
    Ok((cpu, mem))
}

/// Loads a history file's bytes into the CPU and memory series, taking
/// memory against `total_memory` bytes; `Unreadable` when the csv reader
/// fails on the data.
pub fn load_data_from_csv(data: &[u8], total_memory: u64) -> (r: Result<
    (Vec<(u64, u64)>, Vec<(u64, u64)>),
    LoadError,
>)
    ensures
        match csv_records(data@) {
            None => r == Err::<(Vec<(u64, u64)>, Vec<(u64, u64)>), LoadError>(LoadError::Unreadable),
            Some(recs) => load_result_ok(recs, total_memory as nat, r),
        },
{
    match read_csv_records(data) {
        None => Err(LoadError::Unreadable),
        Some(records) => load_records(&records, total_memory),
    }
}

} // verus!
