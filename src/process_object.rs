use vstd::prelude::*;
use crate::metrics::{percent_centi, percent_centi_spec};
use crate::text::{centi_chars, centi_string, dec_chars, decimal_string, proc_time_calc, run_time_chars};

verus! {

/// How the owner of a process was resolved by the metrics source.
#[derive(Clone, Debug)]
pub enum Owner {
    /// The process reports no user id at all.
    NoUid,
    /// The process reports a user id that matches no user record.
    Unresolved,
    /// The user record's name.
    Named(String),
}

/// A raw process descriptor as the metrics source reports it.
#[derive(Clone, Debug)]
pub struct RawProcess {
    pub pid: u32,
    pub owner: Owner,
    /// CPU usage in hundredths of a percent.
    pub cpu: u64,
    /// Resident memory in bytes.
    pub memory: u64,
    /// Elapsed run time in seconds.
    pub run_time: u64,
    pub name: String,
    /// The executable's path, empty when unknown.
    pub exe: String,
}

/// One row of the process table: a snapshot of one process.
#[derive(Clone, Debug)]
pub struct ProcessObject {
    pub pid: u32,
    pub user: String,
    /// CPU usage in hundredths of a percent.
    pub cpu: u64,
    /// Memory in hundredths of a percent of the total memory.
    pub mem: u64,
    pub time_sec: u64,
    /// `time_sec` rendered as "H:M:S".
    pub time: String,
    pub name: String,
    pub command: String,
}

/// The owner name shown for `o`: "" without a user id, "root" for a user id
/// with no record, else the record's name.
pub open spec fn owner_chars(o: Owner) -> Seq<char> {
    match o {
        Owner::NoUid => Seq::empty(),
        Owner::Unresolved => "root"@,
        Owner::Named(n) => n@,
    }
}

/// What a row holds, with its strings as character sequences.
pub struct RowView {
    pub pid: u32,
    pub user: Seq<char>,
    pub cpu: u64,
    pub mem: u64,
    pub time_sec: u64,
    pub time: Seq<char>,
    pub name: Seq<char>,
    pub command: Seq<char>,
}

impl View for ProcessObject {
    type V = RowView;

    open spec fn view(&self) -> RowView {
        RowView {
            pid: self.pid,
            user: self.user@,
            cpu: self.cpu,
            mem: self.mem,
            time_sec: self.time_sec,
            time: self.time@,
            name: self.name@,
            command: self.command@,
        }
    }
}

/// The row that `raw` gives when the total memory is `total`.
pub open spec fn raw_view(raw: RawProcess, total: nat) -> RowView {
    RowView {
        pid: raw.pid,
        user: owner_chars(raw.owner),
        cpu: raw.cpu,
        mem: percent_centi_spec(raw.memory as nat, total) as u64,
        time_sec: raw.run_time,
        time: run_time_chars(raw.run_time as nat),
        name: raw.name@,
        command: raw.exe@,
    }
}

/// `row` is the table row for `raw` when the total memory is `total`.
pub open spec fn row_of(row: ProcessObject, raw: RawProcess, total: nat) -> bool {
    row@ == raw_view(raw, total)
}

/// Resolves the owner name for `o`.
pub fn owner_name(o: &Owner) -> (r: String)
    ensures
        r@ == owner_chars(*o),
{
    match o {
        Owner::NoUid => String::new(),
        Owner::Unresolved => {
            proof {
                reveal_strlit("root");
            }
            String::from_str("root")
        },
        Owner::Named(n) => n.clone(),
    }
}

impl ProcessObject {
    /// An empty row.
    pub fn new() -> (r: Self)
        ensures
            r.pid == 0 && r.cpu == 0 && r.mem == 0 && r.time_sec == 0,
            r.user@.len() == 0 && r.time@.len() == 0,
            r.name@.len() == 0 && r.command@.len() == 0,
    {
        ProcessObject {
            pid: 0,
            user: String::new(),
            cpu: 0,
            mem: 0,
            time_sec: 0,
            time: String::new(),
            name: String::new(),
            command: String::new(),
        }
    }

    /// The row for `raw`, with memory taken against `total_memory` bytes.
    pub fn from_raw(raw: &RawProcess, total_memory: u64) -> (r: Self)
        ensures
            row_of(r, *raw, total_memory as nat),
    {
        ProcessObject {
            pid: raw.pid,
            user: owner_name(&raw.owner),
            cpu: raw.cpu,
            mem: percent_centi(raw.memory, total_memory),
            time_sec: raw.run_time,
            time: proc_time_calc(raw.run_time),
            name: raw.name.clone(),
            command: raw.exe.clone(),
        }
    }

    /// The seven display cells, in column order: pid, user, cpu%, mem%,
    /// time, name, command.
    pub fn ref_array(&self) -> (r: Vec<String>)
        ensures
            r@.len() == 7,
            r@[0]@ == dec_chars(self.pid as nat),
            r@[1]@ == self.user@,
            r@[2]@ == centi_chars(self.cpu as nat),
            r@[3]@ == centi_chars(self.mem as nat),
            r@[4]@ == self.time@,
            r@[5]@ == self.name@,
            r@[6]@ == self.command@,
    {
        let mut r: Vec<String> = Vec::new();
        r.push(decimal_string(self.pid as u64));
        r.push(self.user.clone());
        r.push(centi_string(self.cpu));
        r.push(centi_string(self.mem));
        r.push(self.time.clone());
        r.push(self.name.clone());
        r.push(self.command.clone());
        r
    }

    pub fn pid(&self) -> (r: u32)
        ensures
            r == self.pid,
    {
        self.pid
    }

    pub fn user(&self) -> (r: &str)
        ensures
            r@ == self.user@,
    {
        self.user.as_str()
    }

    pub fn cpu(&self) -> (r: u64)
        ensures
            r == self.cpu,
    {
        self.cpu
    }

    pub fn mem(&self) -> (r: u64)
        ensures
            r == self.mem,
    {
        self.mem
    }

    pub fn time(&self) -> (r: &str)
        ensures
            r@ == self.time@,
    {
        self.time.as_str()
    }

    pub fn name(&self) -> (r: &str)
        ensures
            r@ == self.name@,
    {
        self.name.as_str()
    }

    pub fn command(&self) -> (r: &str)
        ensures
            r@ == self.command@,
    {
        self.command.as_str()
    }
}

/// Rows are the same process when their pids are equal.
impl PartialEq for ProcessObject {
    fn eq(&self, other: &ProcessObject) -> (r: bool) {
        self.pid == other.pid
    }
}

impl vstd::std_specs::cmp::PartialEqSpecImpl for ProcessObject {
    open spec fn obeys_eq_spec() -> bool {
        true
    }

    open spec fn eq_spec(&self, other: &ProcessObject) -> bool {
        self.pid == other.pid
    }
}

impl Eq for ProcessObject {

}

/// Rows order by pid.
impl PartialOrd for ProcessObject {
    fn partial_cmp(&self, other: &ProcessObject) -> (r: Option<core::cmp::Ordering>) {
        if self.pid < other.pid {
            Some(core::cmp::Ordering::Less)
        } else if self.pid > other.pid {
            Some(core::cmp::Ordering::Greater)
        } else {
            Some(core::cmp::Ordering::Equal)
        }
    }
}

impl vstd::std_specs::cmp::PartialOrdSpecImpl for ProcessObject {
    open spec fn obeys_partial_cmp_spec() -> bool {
        true
    }

    open spec fn partial_cmp_spec(&self, other: &ProcessObject) -> Option<core::cmp::Ordering> {
        if self.pid < other.pid {
            Some(core::cmp::Ordering::Less)
        } else if self.pid > other.pid {
            Some(core::cmp::Ordering::Greater)
        } else {
            Some(core::cmp::Ordering::Equal)
        }
    }
}

} // verus!
