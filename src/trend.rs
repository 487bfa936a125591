use vstd::prelude::*;

verus! {

/// The number of samples a trend keeps by default.
pub const DEFAULT_TREND_WINDOW: usize = 500;

/// A bounded first-in first-out series of `(tick, value)` samples.
///
/// Values are whatever unit the caller tracks (here, hundredths of a
/// percent). The series is never empty once seeded, and never longer than
/// its window.
pub struct TrendBuffer {
    pub samples: Vec<(u64, u64)>,
    pub window: usize,
}

/// The samples left after appending `v` to `s` under window `w`: the new
/// sample takes the tick after the last one, and the oldest sample leaves
/// when the series would exceed `w`.
pub open spec fn append_spec(s: Seq<(u64, u64)>, w: nat, v: u64) -> Seq<(u64, u64)> {
    let t = s.push(((s.last().0 + 1) as u64, v));
    if t.len() > w {
        t.drop_first()
    } else {
        t
    }
}

/// The samples left after appending each of `vals`, in order.
pub open spec fn append_all_spec(s: Seq<(u64, u64)>, w: nat, vals: Seq<u64>) -> Seq<(u64, u64)>
    decreases vals.len(),
{
    if vals.len() == 0 {
        s
    } else {
        append_spec(append_all_spec(s, w, vals.drop_last()), w, vals.last())
    }
}

/// The samples that seeding with `init` under window `w` keeps: its last `w`.
pub open spec fn seed_spec(init: Seq<(u64, u64)>, w: nat) -> Seq<(u64, u64)> {
    if init.len() > w {
        init.subrange(init.len() - w, init.len() as int)
    } else {
        init
    }
}

impl View for TrendBuffer {
    type V = Seq<(u64, u64)>;

    open spec fn view(&self) -> Seq<(u64, u64)> {
        self.samples@
    }
}

impl TrendBuffer {
    /// A buffer holds at least one sample and at most `window` of them.
    pub open spec fn wf(&self) -> bool {
        &&& self.window >= 1
        &&& 1 <= self@.len() <= self.window
    }

    /// Another sample can be appended without the tick counter overflowing.
    pub open spec fn can_append_spec(&self) -> bool {
        self@.last().0 < u64::MAX
    }

    /// Starts a series from `init` (a single live sample, or a loaded
    /// history), keeping its last `window` samples.
    pub fn seed(window: usize, init: Vec<(u64, u64)>) -> (r: Self)
        requires
            window >= 1,
            init@.len() >= 1,
        ensures
            r.wf(),
            r.window == window,
            r@ == seed_spec(init@, window as nat),
    {
        if init.len() > window {
            let start = init.len() - window;
            let mut kept: Vec<(u64, u64)> = Vec::new();
            let mut i: usize = start;
            while i < init.len()
                invariant
                    start <= i <= init@.len(),
                    start == init@.len() - window,
                    kept@ == init@.subrange(start as int, i as int),
                decreases init@.len() - i,
            {
                kept.push(init[i]);
                i = i + 1;
                assert(kept@ =~= init@.subrange(start as int, i as int));
            }
            TrendBuffer { samples: kept, window }
        } else {
            TrendBuffer { samples: init, window }
        }
    }

    /// The tick of the newest sample.
    pub fn last_tick(&self) -> (r: u64)
        requires
            self.wf(),
        ensures
            r == self@.last().0,
    {
        self.samples[self.samples.len() - 1].0
    }

    /// Whether another sample can be appended (the tick counter has room).
    pub fn can_append(&self) -> (r: bool)
        requires
            self.wf(),
        ensures
            r == self.can_append_spec(),
    {
        self.last_tick() < u64::MAX
    }

    /// Appends `value` at the tick after the newest one, evicting the oldest
    /// sample when the window is full.
    pub fn append(&mut self, value: u64)
        requires
            old(self).wf(),
            old(self).can_append_spec(),
        ensures
            final(self).wf(),
            final(self).window == old(self).window,
            final(self)@ == append_spec(old(self)@, old(self).window as nat, value),
            final(self)@.last() == ((old(self)@.last().0 + 1) as u64, value),
    {
        let tick = self.last_tick() + 1;
        self.samples.push((tick, value));
        if self.samples.len() > self.window {
            self.samples.remove(0);
        }
        assert(self@ =~= append_spec(old(self)@, old(self).window as nat, value));
    }
}

/// After any number of appends to a series of window `w`, its length is
/// `min(start + calls, w)`, so at most `w`, and its newest `min(calls, w)`
/// samples hold exactly the most recently appended values, in append order;
/// while the window has not filled, the starting samples stay in front.
pub proof fn lemma_append_all_keeps_latest(s: Seq<(u64, u64)>, w: nat, vals: Seq<u64>)
    requires
        w >= 1,
        1 <= s.len() <= w,
    ensures
        append_all_spec(s, w, vals).len() == if s.len() + vals.len() <= w {
            (s.len() + vals.len()) as int
        } else {
            w as int
        },
        append_all_spec(s, w, vals).len() <= w,
        forall|j: int|
            0 <= j < vals.len() && j < w ==> #[trigger] append_all_spec(s, w, vals)[append_all_spec(
                s,
                w,
                vals,
            ).len() - 1 - j].1 == vals[vals.len() - 1 - j],
        s.len() + vals.len() <= w ==> append_all_spec(s, w, vals).subrange(0, s.len() as int) == s,
    decreases vals.len(),
{
    if vals.len() > 0 {
        let prev = vals.drop_last();
        lemma_append_all_keeps_latest(s, w, prev);
        let r0 = append_all_spec(s, w, prev);
        let r = append_all_spec(s, w, vals);
        assert(r == append_spec(r0, w, vals.last()));
        assert forall|j: int| 0 <= j < vals.len() && j < w implies #[trigger] r[r.len() - 1 - j].1
            == vals[vals.len() - 1 - j] by {
            if j > 0 {
                assert(r[r.len() - 1 - j] == r0[r0.len() - 1 - (j - 1)]);
                assert(prev[prev.len() - 1 - (j - 1)] == vals[vals.len() - 1 - j]);
            }
        }
        if s.len() + vals.len() <= w {
            assert(r.subrange(0, s.len() as int) =~= r0.subrange(0, s.len() as int));
        }
    } else {
        assert(s.subrange(0, s.len() as int) =~= s);
    }
}

} // verus!
