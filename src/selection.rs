use vstd::prelude::*;

verus! {

/// The highest index a selection may hold over `len` rows: `len - 1`, or 0
/// when there are no rows.
pub open spec fn last_index(len: int) -> int {
    if len <= 0 { 0 } else { len - 1 }
}

/// A selection index is valid over `len` rows when `0 <= i < max(1, len)`.
pub open spec fn index_valid(i: int, len: int) -> bool {
    0 <= i <= last_index(len)
}

/// `i` brought into `[0, last_index(len)]`.
pub open spec fn clamp_spec(i: int, len: int) -> int {
    if i < 0 { 0 } else if i > last_index(len) { last_index(len) } else { i }
}

/// One navigation command over the process table.
#[derive(Clone, Copy, Debug, PartialEq, Eq)]
pub enum Nav {
    Next,
    Previous,
    PageDown(usize),
    PageUp(usize),
}

/// The index that `cmd` moves the selection `i` to over `len` rows.
pub open spec fn nav_step(i: int, len: int, cmd: Nav) -> int {
    match cmd {
        Nav::Next => clamp_spec(i + 1, len),
        Nav::Previous => clamp_spec(i - 1, len),
        Nav::PageDown(n) => clamp_spec(i + n, len),
        Nav::PageUp(n) => clamp_spec(i - n, len),
    }
}

/// The index reached from `i` by running `cmds` in order over `len` rows.
pub open spec fn nav_run(i: int, len: int, cmds: Seq<Nav>) -> int
    decreases cmds.len(),
{
    if cmds.len() == 0 {
        i
    } else {
        nav_run(nav_step(i, len, cmds[0]), len, cmds.drop_first())
    }
}

/// Clamps `i` into the valid range for `len` rows.
pub fn clamp_index(i: usize, len: usize) -> (r: usize)
    ensures
        r == clamp_spec(i as int, len as int),
        index_valid(r as int, len as int),
{
    if len == 0 {
        0
    } else if i > len - 1 {
        len - 1
    } else {
        i
    }
}

/// Moves one row down, stopping at the last row.
pub fn next_index(i: usize, len: usize) -> (r: usize)
    ensures
        r == nav_step(i as int, len as int, Nav::Next),
        index_valid(r as int, len as int),
{
    if len == 0 || i >= len - 1 {
        clamp_index(i, len)
    } else {
        i + 1
    }
}

/// Moves one row up, stopping at the first row.
pub fn previous_index(i: usize, len: usize) -> (r: usize)
    ensures
        r == nav_step(i as int, len as int, Nav::Previous),
        index_valid(r as int, len as int),
{
    if i == 0 {
        0
    } else {
        clamp_index(i - 1, len)
    }
}

/// Moves `n` rows down, stopping at the last row.
pub fn page_down_index(i: usize, n: usize, len: usize) -> (r: usize)
    ensures
        r == nav_step(i as int, len as int, Nav::PageDown(n)),
        index_valid(r as int, len as int),
{
    if len == 0 {
        0
    } else if i >= len - 1 || n >= len - 1 - i {
        len - 1
    } else {
        i + n
    }
}

/// Moves `n` rows up, stopping at the first row.
pub fn page_up_index(i: usize, n: usize, len: usize) -> (r: usize)
    ensures
        r == nav_step(i as int, len as int, Nav::PageUp(n)),
        index_valid(r as int, len as int),
{
    if n >= i {
        0
    } else {
        clamp_index(i - n, len)
    }
}

/// Applies one navigation command to the selection `i` over `len` rows.
pub fn apply_nav(i: usize, len: usize, cmd: Nav) -> (r: usize)
    ensures
        r == nav_step(i as int, len as int, cmd),
        index_valid(r as int, len as int),
{
    match cmd {
        Nav::Next => next_index(i, len),
        Nav::Previous => previous_index(i, len),
        Nav::PageDown(n) => page_down_index(i, n, len),
        Nav::PageUp(n) => page_up_index(i, n, len),
    }
}

/// Every navigation step lands on a valid index, whatever index it starts from.
pub proof fn lemma_nav_step_valid(i: int, len: int, cmd: Nav)
    requires
        len >= 0,
    ensures
        index_valid(nav_step(i, len, cmd), len),
{
}

/// For any row count, after any sequence of next / previous / page-down /
/// page-up commands, the selection satisfies `0 <= selected < max(1, n)`.
pub proof fn lemma_navigation_stays_in_range(i: int, len: int, cmds: Seq<Nav>)
    requires
        len >= 0,
        index_valid(i, len),
    ensures
        index_valid(nav_run(i, len, cmds), len),
    decreases cmds.len(),
{
    if cmds.len() > 0 {
        lemma_nav_step_valid(i, len, cmds[0]);
        lemma_navigation_stays_in_range(nav_step(i, len, cmds[0]), len, cmds.drop_first());
    }
}

} // verus!
