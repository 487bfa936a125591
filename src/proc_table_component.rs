use vstd::prelude::*;
use crate::process_object::{ProcessObject, RawProcess, RowView, raw_view, row_of};
use vstd::utf8::encode_utf8;

verus! {

broadcast use vstd::seq_lib::group_to_multiset_ensures;

/// The key the process table is sorted by. `Cpu` and `Mem` sort with the
/// highest usage first; the others ascend. Rows that tie on the key are
/// ordered by ascending pid, so the order of a snapshot is fully determined.
#[derive(Clone, Copy, Debug, PartialEq, Eq)]
pub enum SortTableParam {
    Pid,
    User,
    Cpu,
    Mem,
    Time,
    Name,
    Command,
}

/// Three-way comparison of two integers: -1, 0 or 1.
pub open spec fn int_cmp(a: int, b: int) -> int {
    if a < b { -1 } else if a > b { 1 } else { 0 }
}

/// Lexicographic three-way comparison of two byte strings, a proper prefix
/// coming first.
pub open spec fn lex_cmp(a: Seq<u8>, b: Seq<u8>) -> int
    decreases a.len(),
{
    if a.len() == 0 && b.len() == 0 {
        0
    } else if a.len() == 0 {
        -1
    } else if b.len() == 0 {
        1
    } else if a[0] != b[0] {
        int_cmp(a[0] as int, b[0] as int)
    } else {
        lex_cmp(a.drop_first(), b.drop_first())
    }
}

/// The UTF-8 bytes of a string: the order of Rust's `str` comparison.
pub open spec fn bytes_of(s: String) -> Seq<u8> {
    vstd::utf8::encode_utf8(s@)
}

/// How `a` and `b` compare on `key` alone.
pub open spec fn key_cmp(key: SortTableParam, a: RowView, b: RowView) -> int {
    match key {
        SortTableParam::Pid => int_cmp(a.pid as int, b.pid as int),
        SortTableParam::User => lex_cmp(encode_utf8(a.user), encode_utf8(b.user)),
        SortTableParam::Cpu => int_cmp(b.cpu as int, a.cpu as int),
        SortTableParam::Mem => int_cmp(b.mem as int, a.mem as int),
        SortTableParam::Time => int_cmp(a.time_sec as int, b.time_sec as int),
        SortTableParam::Name => lex_cmp(encode_utf8(a.name), encode_utf8(b.name)),
        SortTableParam::Command => lex_cmp(encode_utf8(a.command), encode_utf8(b.command)),
    }
}

/// `a` may stand before `b` under `key`: it comes first on the key, or ties
/// on it with a pid no larger.
pub open spec fn row_before(key: SortTableParam, a: RowView, b: RowView) -> bool {
    key_cmp(key, a, b) < 0 || (key_cmp(key, a, b) == 0 && a.pid <= b.pid)
}

/// The rows of `s` are in the order of `key`.
pub open spec fn sorted_by(key: SortTableParam, s: Seq<ProcessObject>) -> bool {
    forall|i: int, j: int| 0 <= i < j < s.len() ==> #[trigger] row_before(key, s[i]@, s[j]@)
}

/// The row views `v` are in the order of `key`.
pub open spec fn sorted_views(key: SortTableParam, v: Seq<RowView>) -> bool {
    forall|i: int, j: int| 0 <= i < j < v.len() ==> #[trigger] row_before(key, v[i], v[j])
}

/// The views of a sequence of rows.
pub open spec fn views(s: Seq<ProcessObject>) -> Seq<RowView> {
    s.map_values(|r: ProcessObject| r@)
}

/// No two rows of `v` share a pid unless they are the same row.
pub open spec fn pids_unique(v: Seq<RowView>) -> bool {
    forall|a: RowView, b: RowView| v.contains(a) && v.contains(b) && a.pid == b.pid ==> a == b
}

/// No two descriptors of a snapshot share a pid.
pub open spec fn raw_pids_distinct(raws: Seq<RawProcess>) -> bool {
    forall|i: int, j: int| 0 <= i < j < raws.len() ==> #[trigger] raws[i].pid != #[trigger] raws[j].pid
}

/// `rows` is what rebuilding the table from `raws` under `key` gives: one
/// row per descriptor, in the order of `key`.
pub open spec fn rebuilt_from(
    rows: Seq<ProcessObject>,
    raws: Seq<RawProcess>,
    total: nat,
    key: SortTableParam,
) -> bool {
    &&& sorted_by(key, rows)
    &&& exists|m: Seq<ProcessObject>|
        {
            &&& m.len() == raws.len()
            &&& forall|i: int| 0 <= i < m.len() ==> #[trigger] row_of(m[i], raws[i], total)
            &&& m.to_multiset() == rows.to_multiset()
        }
}

proof fn lemma_lex_antisym(a: Seq<u8>, b: Seq<u8>)
    ensures
        lex_cmp(a, b) == -lex_cmp(b, a),
        lex_cmp(a, b) == 0 ==> a == b,
    decreases a.len(),
{
    if a.len() > 0 && b.len() > 0 && a[0] == b[0] {
        lemma_lex_antisym(a.drop_first(), b.drop_first());
        if lex_cmp(a, b) == 0 {
            assert(a =~= seq![a[0]] + a.drop_first());
            assert(b =~= seq![b[0]] + b.drop_first());
        }
    }
}

proof fn lemma_lex_trans(a: Seq<u8>, b: Seq<u8>, c: Seq<u8>)
    requires
        lex_cmp(a, b) < 0,
        lex_cmp(b, c) < 0,
    ensures
        lex_cmp(a, c) < 0,
    decreases a.len(),
{
    if a.len() > 0 && b.len() > 0 && c.len() > 0 && a[0] == b[0] && b[0] == c[0] {
        lemma_lex_trans(a.drop_first(), b.drop_first(), c.drop_first());
    }
}

proof fn lemma_key_cmp_antisym(key: SortTableParam, a: RowView, b: RowView)
    ensures
        key_cmp(key, a, b) == -key_cmp(key, b, a),
        -1 <= key_cmp(key, a, b) <= 1,
{
    lemma_lex_antisym(encode_utf8(a.user), encode_utf8(b.user));
    lemma_lex_antisym(encode_utf8(a.name), encode_utf8(b.name));
    lemma_lex_antisym(encode_utf8(a.command), encode_utf8(b.command));
    lemma_lex_range(encode_utf8(a.user), encode_utf8(b.user));
    lemma_lex_range(encode_utf8(a.name), encode_utf8(b.name));
    lemma_lex_range(encode_utf8(a.command), encode_utf8(b.command));
}

proof fn lemma_lex_range(a: Seq<u8>, b: Seq<u8>)
    ensures
        -1 <= lex_cmp(a, b) <= 1,
    decreases a.len(),
{
    if a.len() > 0 && b.len() > 0 && a[0] == b[0] {
        lemma_lex_range(a.drop_first(), b.drop_first());
    }
}

proof fn lemma_lex_trans_le(a: Seq<u8>, b: Seq<u8>, c: Seq<u8>)
    requires
        lex_cmp(a, b) <= 0,
        lex_cmp(b, c) <= 0,
    ensures
        lex_cmp(a, c) <= 0,
        lex_cmp(a, c) == 0 ==> lex_cmp(a, b) == 0 && lex_cmp(b, c) == 0,
{
    lemma_lex_antisym(a, b);
    lemma_lex_antisym(b, c);
    lemma_lex_antisym(a, c);
    if lex_cmp(a, b) < 0 && lex_cmp(b, c) < 0 {
        lemma_lex_trans(a, b, c);
    }
}

/// `row_before` is total: of two rows, one may stand before the other.
pub proof fn lemma_row_before_total(key: SortTableParam, a: RowView, b: RowView)
    ensures
        row_before(key, a, b) || row_before(key, b, a),
        row_before(key, a, b) && row_before(key, b, a) ==> a.pid == b.pid,
{
    lemma_key_cmp_antisym(key, a, b);
}

/// `row_before` is transitive.
pub proof fn lemma_row_before_trans(
    key: SortTableParam,
    a: RowView,
    b: RowView,
    c: RowView,
)
    requires
        row_before(key, a, b),
        row_before(key, b, c),
    ensures
        row_before(key, a, c),
{
    lemma_key_cmp_antisym(key, a, b);
    lemma_key_cmp_antisym(key, b, c);
    lemma_key_cmp_antisym(key, a, c);
    match key {
        SortTableParam::User => {
            lemma_lex_trans_le(encode_utf8(a.user), encode_utf8(b.user), encode_utf8(c.user));
        },
        SortTableParam::Name => {
            lemma_lex_trans_le(encode_utf8(a.name), encode_utf8(b.name), encode_utf8(c.name));
        },
        SortTableParam::Command => {
            lemma_lex_trans_le(encode_utf8(a.command), encode_utf8(b.command), encode_utf8(c.command));
        },
        _ => {},
    }
}

/// Compares two byte strings lexicographically: -1, 0 or 1.
pub fn lex_compare(a: &[u8], b: &[u8]) -> (r: i8)
    ensures
        r as int == lex_cmp(a@, b@),
{
    let mut i: usize = 0;
    assert(a@.subrange(0, a@.len() as int) =~= a@);
    assert(b@.subrange(0, b@.len() as int) =~= b@);
    while i < a.len() && i < b.len() && a[i] == b[i]
        invariant
            i <= a@.len(),
            i <= b@.len(),
            lex_cmp(a@, b@) == lex_cmp(a@.subrange(i as int, a@.len() as int), b@.subrange(i as int, b@.len() as int)),
        decreases a@.len() - i,
    {
        let ghost sa = a@.subrange(i as int, a@.len() as int);
        let ghost sb = b@.subrange(i as int, b@.len() as int);
        assert(sa.drop_first() =~= a@.subrange(i + 1, a@.len() as int));
        assert(sb.drop_first() =~= b@.subrange(i + 1, b@.len() as int));
        i = i + 1;
    }
    let ghost sa = a@.subrange(i as int, a@.len() as int);
    let ghost sb = b@.subrange(i as int, b@.len() as int);
    if i == a.len() && i == b.len() {
        0
    } else if i == a.len() {
        -1
    } else if i == b.len() {
        1
    } else if a[i] < b[i] {
        assert(sa[0] == a@[i as int] && sb[0] == b@[i as int]);
        -1
    } else {
        assert(sa[0] == a@[i as int] && sb[0] == b@[i as int]);
        1
    }
}

fn int_compare(a: u64, b: u64) -> (r: i8)
    ensures
        r as int == int_cmp(a as int, b as int),
{
    if a < b {
        -1
    } else if a > b {
        1
    } else {
        0
    }
}

fn string_compare(a: &String, b: &String) -> (r: i8)
    ensures
        r as int == lex_cmp(bytes_of(*a), bytes_of(*b)),
{
    lex_compare(a.as_str().as_bytes(), b.as_str().as_bytes())
}

/// How `a` and `b` compare on `key` alone: -1, 0 or 1.
pub fn compare_on_key(key: SortTableParam, a: &ProcessObject, b: &ProcessObject) -> (r: i8)
    ensures
        r as int == key_cmp(key, a@, b@),
{
    match key {
        SortTableParam::Pid => int_compare(a.pid as u64, b.pid as u64),
        SortTableParam::User => string_compare(&a.user, &b.user),
        SortTableParam::Cpu => int_compare(b.cpu, a.cpu),
        SortTableParam::Mem => int_compare(b.mem, a.mem),
        SortTableParam::Time => int_compare(a.time_sec, b.time_sec),
        SortTableParam::Name => string_compare(&a.name, &b.name),
        SortTableParam::Command => string_compare(&a.command, &b.command),
    }
}

/// Whether `a` may stand before `b` under `key`.
pub fn before(key: SortTableParam, a: &ProcessObject, b: &ProcessObject) -> (r: bool)
    ensures
        r == row_before(key, a@, b@),
{
    let c = compare_on_key(key, a, b);
    c < 0 || (c == 0 && a.pid <= b.pid)
}

/// Sorts `rows` by `key`, ties by ascending pid.
pub fn sort_rows(rows: Vec<ProcessObject>, key: SortTableParam) -> (r: Vec<ProcessObject>)
    ensures
        r@.to_multiset() == rows@.to_multiset(),
        sorted_by(key, r@),
{
    let mut input = rows;
    let mut out: Vec<ProcessObject> = Vec::new();
    while input.len() > 0
        invariant
            sorted_by(key, out@),
            input@.to_multiset().add(out@.to_multiset()) == rows@.to_multiset(),
        decreases input@.len(),
    {
        let ghost in_old = input@;
        let ghost out_old = out@;
        let x = input.pop().unwrap();
        assert(in_old =~= input@.push(x));
        let mut j: usize = 0;
        while j < out.len() && before(key, &out[j], &x)
            invariant
                j <= out@.len(),
                out@ == out_old,
                forall|i: int| 0 <= i < j ==> #[trigger] row_before(key, out@[i]@, x@),
            decreases out@.len() - j,
        {
            j = j + 1;
        }
        proof {
            if j < out@.len() {
                lemma_row_before_total(key, out@[j as int]@, x@);
                assert forall|k: int| j <= k < out@.len() implies #[trigger] row_before(key, x@, out@[k]@) by {
                    if k > j {
                        assert(row_before(key, out@[j as int]@, out@[k]@));
                        lemma_row_before_trans(key, x@, out@[j as int]@, out@[k]@);
                    }
                }
            }
        }
        out.insert(j, x);
        proof {
            let s = out@;
            assert(s =~= out_old.insert(j as int, x));
            assert forall|a: int, b: int| 0 <= a < b < s.len() implies #[trigger] row_before(key, s[a]@, s[b]@) by {
                if a < j && b < j {
                    assert(row_before(key, out_old[a]@, out_old[b]@));
                } else if a < j && b == j {
                } else if a < j {
                    assert(row_before(key, out_old[a]@, out_old[b - 1]@));
                } else if a == j {
                    assert(row_before(key, x@, out_old[b - 1]@));
                } else {
                    assert(row_before(key, out_old[a - 1]@, out_old[b - 1]@));
                }
            }
            assert(input@.to_multiset().add(out@.to_multiset()) =~= rows@.to_multiset());
        }
    }
    assert(input@ =~= Seq::<ProcessObject>::empty());
    assert(out@.to_multiset() =~= rows@.to_multiset());
    out
}

/// Builds the table rows for `raws`, with memory taken against
/// `total_memory` bytes, sorted by `key`.
pub fn convert_processes_to_table_items(
    raws: &Vec<RawProcess>,
    total_memory: u64,
    key: SortTableParam,
) -> (r: Vec<ProcessObject>)
    ensures
        rebuilt_from(r@, raws@, total_memory as nat, key),
{
    let mut rows: Vec<ProcessObject> = Vec::new();
    let mut i: usize = 0;
    while i < raws.len()
        invariant
            i <= raws@.len(),
            rows@.len() == i,
            forall|k: int| 0 <= k < i ==> #[trigger] row_of(rows@[k], raws@[k], total_memory as nat),
        decreases raws@.len() - i,
    {
        rows.push(ProcessObject::from_raw(&raws[i], total_memory));
        i = i + 1;
    }
    let ghost m = rows@;
    let r = sort_rows(rows, key);
    assert(m.len() == raws@.len() && forall|k: int| 0 <= k < m.len() ==> #[trigger] row_of(m[k], raws@[k], total_memory as nat)
        && m.to_multiset() == r@.to_multiset());
    r
}

proof fn lemma_row_before_refl(key: SortTableParam, a: RowView)
    ensures
        row_before(key, a, a),
{
    lemma_key_cmp_antisym(key, a, a);
}

/// Sorting is deterministic: two orderings of the same rows (distinct pids)
/// that are both sorted by one key are the same sequence.
pub proof fn lemma_sort_deterministic(key: SortTableParam, s1: Seq<RowView>, s2: Seq<RowView>)
    requires
        sorted_views(key, s1),
        sorted_views(key, s2),
        s1.to_multiset() == s2.to_multiset(),
        pids_unique(s1),
    ensures
        s1 == s2,
    decreases s1.len(),
{
    assert(s1.len() == s1.to_multiset().len() && s2.len() == s2.to_multiset().len());
    if s1.len() == 0 {
        assert(s1 =~= s2);
    } else {
        let a = s1[0];
        let b = s2[0];
        assert(s1.to_multiset().count(a) > 0);
        assert(s2.contains(a));
        assert(s2.to_multiset().count(b) > 0);
        assert(s1.contains(b));
        let ka = choose|k: int| 0 <= k < s2.len() && s2[k] == a;
        let kb = choose|k: int| 0 <= k < s1.len() && s1[k] == b;
        lemma_row_before_refl(key, a);
        lemma_row_before_refl(key, b);
        if ka > 0 {
            assert(row_before(key, s2[0], s2[ka]));
        }
        if kb > 0 {
            assert(row_before(key, s1[0], s1[kb]));
        }
        lemma_row_before_total(key, a, b);
        assert(s1.contains(a));
        assert(a == b);
        let t1 = s1.drop_first();
        let t2 = s2.drop_first();
        assert(s1.remove(0) =~= t1);
        assert(s2.remove(0) =~= t2);
        assert(t1.to_multiset() =~= s1.to_multiset().remove(a));
        assert(t2.to_multiset() =~= s2.to_multiset().remove(b));
        assert forall|i: int, j: int| 0 <= i < j < t1.len() implies #[trigger] row_before(key, t1[i], t1[j]) by {
            assert(row_before(key, s1[i + 1], s1[j + 1]));
        }
        assert forall|i: int, j: int| 0 <= i < j < t2.len() implies #[trigger] row_before(key, t2[i], t2[j]) by {
            assert(row_before(key, s2[i + 1], s2[j + 1]));
        }
        assert forall|x: RowView, y: RowView| t1.contains(x) && t1.contains(y) && x.pid == y.pid implies x == y by {
            let ix = choose|k: int| 0 <= k < t1.len() && t1[k] == x;
            let iy = choose|k: int| 0 <= k < t1.len() && t1[k] == y;
            assert(s1[ix + 1] == x && s1[iy + 1] == y);
            assert(s1.contains(x) && s1.contains(y));
        }
        lemma_sort_deterministic(key, t1, t2);
        assert forall|i: int| 0 <= i < s1.len() implies s1[i] == s2[i] by {
            if i > 0 {
                assert(s1[i] == t1[i - 1] && s2[i] == t2[i - 1]);
            }
        }
        assert(s1 =~= s2);
    }
}

/// Under `Cpu` and `Mem` the first row has the highest usage; under `Pid`
/// the first row has the lowest pid.
pub proof fn lemma_sorted_ends(key: SortTableParam, s: Seq<ProcessObject>)
    requires
        sorted_by(key, s),
        s.len() > 0,
    ensures
        key == SortTableParam::Cpu ==> s[0].cpu >= s.last().cpu,
        key == SortTableParam::Mem ==> s[0].mem >= s.last().mem,
        key == SortTableParam::Pid ==> s[0].pid <= s.last().pid,
{
    if s.len() > 1 {
        assert(row_before(key, s[0]@, s[s.len() - 1]@));
    }
}

/// A rebuilt table holds a row for a pid exactly when the snapshot it was
/// rebuilt from reports that pid: once the source no longer reports a
/// killed process, the rebuild drops its row.
pub proof fn lemma_rebuilt_pids(
    rows: Seq<ProcessObject>,
    raws: Seq<RawProcess>,
    total: nat,
    key: SortTableParam,
    pid: u32,
)
    requires
        rebuilt_from(rows, raws, total, key),
    ensures
        (exists|k: int| 0 <= k < rows.len() && #[trigger] rows[k].pid == pid) <==> (exists|i: int|
            0 <= i < raws.len() && #[trigger] raws[i].pid == pid),
{
    let m = choose|m: Seq<ProcessObject>|
        {
            &&& m.len() == raws.len()
            &&& forall|i: int| 0 <= i < m.len() ==> #[trigger] row_of(m[i], raws[i], total)
            &&& m.to_multiset() == rows.to_multiset()
        };
    if exists|k: int| 0 <= k < rows.len() && #[trigger] rows[k].pid == pid {
        let k = choose|k: int| 0 <= k < rows.len() && #[trigger] rows[k].pid == pid;
        assert(rows.to_multiset().count(rows[k]) > 0);
        assert(m.contains(rows[k]));
        let i = choose|i: int| 0 <= i < m.len() && m[i] == rows[k];
        assert(row_of(m[i], raws[i], total));
        assert(raws[i].pid == pid);
    }
    if exists|i: int| 0 <= i < raws.len() && #[trigger] raws[i].pid == pid {
        let i = choose|i: int| 0 <= i < raws.len() && #[trigger] raws[i].pid == pid;
        assert(row_of(m[i], raws[i], total));
        assert(m.to_multiset().count(m[i]) > 0);
        assert(rows.contains(m[i]));
        let k = choose|k: int| 0 <= k < rows.len() && rows[k] == m[i];
        assert(rows[k].pid == pid);
    }
}

/// The column headers of the process table, in order.
pub open spec fn header_chars(col: int) -> Seq<char> {
    if col == 0 { "PID"@ }
    else if col == 1 { "USER"@ }
    else if col == 2 { "CPU%"@ }
    else if col == 3 { "MEM%"@ }
    else if col == 4 { "TIME"@ }
    else if col == 5 { "Name"@ }
    else { "Command"@ }
}

/// The column each sort key orders by.
pub open spec fn column_spec(key: SortTableParam) -> int {
    match key {
        SortTableParam::Pid => 0,
        SortTableParam::User => 1,
        SortTableParam::Cpu => 2,
        SortTableParam::Mem => 3,
        SortTableParam::Time => 4,
        SortTableParam::Name => 5,
        SortTableParam::Command => 6,
    }
}

impl SortTableParam {
    /// The index of the column this key orders by.
    pub fn column(&self) -> (r: usize)
        ensures
            r == column_spec(*self),
    {
        match self {
            SortTableParam::Pid => 0,
            SortTableParam::User => 1,
            SortTableParam::Cpu => 2,
            SortTableParam::Mem => 3,
            SortTableParam::Time => 4,
            SortTableParam::Name => 5,
            SortTableParam::Command => 6,
        }
    }
}

/// The header text of column `col`.
pub fn header(col: usize) -> (r: &'static str)
    requires
        col < 7,
    ensures
        r@ == header_chars(col as int),
{
    proof {
        reveal_strlit("PID");
        reveal_strlit("USER");
        reveal_strlit("CPU%");
        reveal_strlit("MEM%");
        reveal_strlit("TIME");
        reveal_strlit("Name");
        reveal_strlit("Command");
    }
    if col == 0 { "PID" }
    else if col == 1 { "USER" }
    else if col == 2 { "CPU%" }
    else if col == 3 { "MEM%" }
    else if col == 4 { "TIME" }
    else if col == 5 { "Name" }
    else { "Command" }
}

/// The process table as the renderer reads it: the rows and the key they
/// are sorted by.
pub struct ProcTableComponent<'a> {
    pub process_table_items_vec: &'a Vec<ProcessObject>,
    pub process_table_sort_param: &'a SortTableParam,
}

impl<'a> ProcTableComponent<'a> {
    pub fn new(
        process_table_items_vec: &'a Vec<ProcessObject>,
        process_table_sort_param: &'a SortTableParam,
    ) -> (r: Self)
        ensures
            r.process_table_items_vec == process_table_items_vec,
            r.process_table_sort_param == process_table_sort_param,
    {
        ProcTableComponent { process_table_items_vec, process_table_sort_param }
    }

    /// The index of the highlighted header column: the one sorted by.
    pub fn sort_column(&self) -> (r: usize)
        ensures
            r == column_spec(*self.process_table_sort_param),
    {
        self.process_table_sort_param.column()
    }
}

/// The rows that a snapshot's descriptors give, in snapshot order.
pub open spec fn raw_views(raws: Seq<RawProcess>, total: nat) -> Seq<RowView> {
    raws.map_values(|r: RawProcess| raw_view(r, total))
}

proof fn lemma_views_multiset(s: Seq<ProcessObject>, t: Seq<ProcessObject>)
    requires
        s.to_multiset() == t.to_multiset(),
    ensures
        views(s).to_multiset() == views(t).to_multiset(),
    decreases s.len(),
{
    assert(s.len() == s.to_multiset().len() && t.len() == t.to_multiset().len());
    if s.len() == 0 {
        assert(views(s) =~= views(t));
    } else {
        let x = s[0];
        assert(s.to_multiset().count(x) > 0);
        assert(t.contains(x));
        let i = choose|i: int| 0 <= i < t.len() && t[i] == x;
        let s2 = s.drop_first();
        let t2 = t.remove(i);
        assert(s.remove(0) =~= s2);
        assert(s2.to_multiset() =~= s.to_multiset().remove(x));
        assert(t2.to_multiset() =~= t.to_multiset().remove(x));
        lemma_views_multiset(s2, t2);
        assert(views(s).remove(0) =~= views(s2));
        assert(views(t).remove(i) =~= views(t2));
        let vs = views(s);
        let vt = views(t);
        assert(vs[0] == x@ && vt[i] == x@);
        assert(vs.remove(0).to_multiset() =~= vs.to_multiset().remove(x@));
        assert(vt.remove(i).to_multiset() =~= vt.to_multiset().remove(x@));
        assert(vs.to_multiset().count(x@) > 0);
        assert(vt.to_multiset().count(x@) > 0);
        assert(vs.to_multiset() =~= vs.to_multiset().remove(x@).insert(x@));
        assert(vt.to_multiset() =~= vt.to_multiset().remove(x@).insert(x@));
    }
}

/// A table rebuilt from a snapshot with distinct pids holds exactly the
/// snapshot's rows, each once, no two with the same pid.
pub proof fn lemma_rebuilt_views(
    rows: Seq<ProcessObject>,
    raws: Seq<RawProcess>,
    total: nat,
    key: SortTableParam,
)
    requires
        rebuilt_from(rows, raws, total, key),
        raw_pids_distinct(raws),
    ensures
        views(rows).to_multiset() == raw_views(raws, total).to_multiset(),
        sorted_views(key, views(rows)),
        pids_unique(views(rows)),
        views(rows).no_duplicates(),
{
    let m = choose|m: Seq<ProcessObject>|
        {
            &&& m.len() == raws.len()
            &&& forall|i: int| 0 <= i < m.len() ==> #[trigger] row_of(m[i], raws[i], total)
            &&& m.to_multiset() == rows.to_multiset()
        };
    let rv = raw_views(raws, total);
    let v = views(rows);
    assert forall|i: int| 0 <= i < m.len() implies views(m)[i] == rv[i] by {
        assert(row_of(m[i], raws[i], total));
    }
    assert(views(m) =~= rv);
    lemma_views_multiset(m, rows);
    assert forall|i: int, j: int| 0 <= i < j < v.len() implies #[trigger] row_before(key, v[i], v[j]) by {
        assert(row_before(key, rows[i]@, rows[j]@));
    }
    assert forall|a: RowView, b: RowView| v.contains(a) && v.contains(b) && a.pid == b.pid implies a == b by {
        assert(v.to_multiset().count(a) > 0 && v.to_multiset().count(b) > 0);
        assert(rv.contains(a) && rv.contains(b));
        let i = choose|i: int| 0 <= i < rv.len() && rv[i] == a;
        let j = choose|j: int| 0 <= j < rv.len() && rv[j] == b;
        if i < j {
            assert(raws[i].pid != raws[j].pid);
        } else if j < i {
            assert(raws[j].pid != raws[i].pid);
        }
    }
    assert forall|i: int, j: int| 0 <= i < rv.len() && 0 <= j < rv.len() && i != j implies rv[i] != rv[j] by {
        if i < j {
            assert(raws[i].pid != raws[j].pid);
        } else {
            assert(raws[j].pid != raws[i].pid);
        }
    }
    rv.lemma_multiset_has_no_duplicates();
    v.lemma_multiset_has_no_duplicates_conv();
}

/// Rebuilding twice from the same snapshot (distinct pids), the same total
/// memory and the same key gives the same rows in the same order; under
/// `Pid` the pids strictly increase.
pub proof fn lemma_rebuild_deterministic(
    r1: Seq<ProcessObject>,
    r2: Seq<ProcessObject>,
    raws: Seq<RawProcess>,
    total: nat,
    key: SortTableParam,
)
    requires
        rebuilt_from(r1, raws, total, key),
        rebuilt_from(r2, raws, total, key),
        raw_pids_distinct(raws),
    ensures
        views(r1) == views(r2),
        r1.len() == r2.len(),
        forall|k: int| 0 <= k < r1.len() ==> #[trigger] r1[k].pid == r2[k].pid,
        key == SortTableParam::Pid ==> forall|i: int, j: int|
            0 <= i < j < r1.len() ==> #[trigger] r1[i].pid < #[trigger] r1[j].pid,
{
    lemma_rebuilt_views(r1, raws, total, key);
    lemma_rebuilt_views(r2, raws, total, key);
    lemma_sort_deterministic(key, views(r1), views(r2));
    assert(views(r1).len() == r1.len() && views(r2).len() == r2.len());
    assert forall|k: int| 0 <= k < r1.len() implies #[trigger] r1[k].pid == r2[k].pid by {
        assert(views(r1)[k] == views(r2)[k]);
    }
    if key == SortTableParam::Pid {
        let v = views(r1);
        assert forall|i: int, j: int| 0 <= i < j < r1.len() implies #[trigger] r1[i].pid < #[trigger] r1[j].pid by {
            assert(row_before(key, v[i], v[j]));
            assert(v.contains(v[i]) && v.contains(v[j]));
            if r1[i].pid == r1[j].pid {
                assert(v[i] == v[j]);
            }
        }
    }
}

} // verus!
