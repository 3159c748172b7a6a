//! Which part of a reused buffer must be painted again: a short history of
//! the damage of recent frames, numbered by a frame sequence.
use vstd::prelude::*;
use crate::geometry::Bounds;

verus! {

/// How many released buffers a surface keeps for reuse.
pub const MAX_SPARE_FRAMES: usize = 2;

/// How many frames of damage a surface remembers.
pub const MAX_DAMAGE_HISTORY: usize = 4;

/// The union of two optional rectangles; absent ones add nothing.
pub open spec fn spec_union_optional(current: Option<Bounds>, next: Option<Bounds>) -> Option<Bounds> {
    match (current, next) {
        (Some(c), Some(n)) => Some(c.spec_union(n)),
        (Some(c), None) => Some(c),
        (None, Some(n)) => Some(n),
        (None, None) => None,
    }
}

/// Whether an optional rectangle holds a point.
pub open spec fn spec_optional_contains(bounds: Option<Bounds>, x: int, y: int) -> bool {
    match bounds {
        Some(b) => b.spec_contains_point(x, y),
        None => false,
    }
}

pub fn union_optional_bounds(current: Option<Bounds>, next: Option<Bounds>) -> (r: Option<Bounds>)
    ensures
        r == spec_union_optional(current, next),
{
    match (current, next) {
        (Some(current), Some(next)) => Some(current.union(next)),
        (Some(current), None) => Some(current),
        (None, Some(next)) => Some(next),
        (None, None) => None,
    }
}

/// `requested` grown by the damage of the first `n` entries that are newer
/// than `sequence`, in order.
pub open spec fn spec_repaint_prefix(
    entries: Seq<(u64, Bounds)>,
    sequence: u64,
    requested: Option<Bounds>,
    n: int,
) -> Option<Bounds>
    decreases n,
{
    if n <= 0 {
        requested
    } else {
        let before = spec_repaint_prefix(entries, sequence, requested, n - 1);
        if entries[n - 1].0 > sequence {
            spec_union_optional(before, Some(entries[n - 1].1))
        } else {
            before
        }
    }
}

/// What must be painted into a buffer last drawn at frame `sequence`: all of
/// it (`None`) when the history no longer reaches back to that frame, else
/// the requested region grown by every damage recorded after it.
pub open spec fn spec_buffer_age_repaint(
    entries: Seq<(u64, Bounds)>,
    sequence: u64,
    requested: Option<Bounds>,
) -> Option<Bounds> {
    if entries.len() > 0 && sequence < entries[0].0 {
        None
    } else {
        spec_repaint_prefix(entries, sequence, requested, entries.len() as int)
    }
}

/// The entries after one more frame: its damage, if any, appended under its
/// sequence, keeping only the newest `MAX_DAMAGE_HISTORY`.
pub open spec fn spec_record(entries: Seq<(u64, Bounds)>, sequence: u64, damage: Option<Bounds>) -> Seq<
    (u64, Bounds),
> {
    match damage {
        Some(d) => {
            let pushed = entries.push((sequence, d));
            if pushed.len() > MAX_DAMAGE_HISTORY {
                pushed.subrange(pushed.len() - MAX_DAMAGE_HISTORY, pushed.len() as int)
            } else {
                pushed
            }
        },
        None => entries,
    }
}

/// The damage of a surface's recent frames.
pub struct DamageHistory {
    entries: Vec<(u64, Bounds)>,
    sequence: u64,
}

impl DamageHistory {
    /// The recorded `(frame sequence, damage)` pairs, oldest first.
    pub closed spec fn spec_entries(&self) -> Seq<(u64, Bounds)> {
        self.entries@
    }

    /// The sequence number of the latest frame.
    pub closed spec fn spec_sequence(&self) -> u64 {
        self.sequence
    }

    /// At most `MAX_DAMAGE_HISTORY` entries, in order of their frames, none
    /// newer than the latest frame.
    pub open spec fn wf(&self) -> bool {
        &&& self.spec_entries().len() <= MAX_DAMAGE_HISTORY
        &&& forall|i: int, j: int|
            0 <= i < j < self.spec_entries().len() ==> #[trigger] self.spec_entries()[i].0
                <= #[trigger] self.spec_entries()[j].0
        &&& forall|i: int| 0 <= i < self.spec_entries().len() ==> #[trigger] self.spec_entries()[i].0 <= self.spec_sequence()
    }

    pub fn new() -> (r: Self)
        ensures
            r.wf(),
            r.spec_entries() == Seq::<(u64, Bounds)>::empty(),
            r.spec_sequence() == 0,
    {
        DamageHistory { entries: Vec::new(), sequence: 0 }
    }

    pub fn sequence(&self) -> (r: u64)
        ensures
            r == self.spec_sequence(),
    {
        self.sequence
    }

    /// Numbers a new frame (saturating at `u64::MAX`) and records its damage;
    /// returns the frame's sequence number.
    pub fn record(&mut self, damage: Option<Bounds>) -> (r: u64)
        requires
            old(self).wf(),
        ensures
            final(self).wf(),
            r as int == (if old(self).spec_sequence() == u64::MAX {
                u64::MAX as int
            } else {
                old(self).spec_sequence() + 1
            }),
            final(self).spec_sequence() == r,
            final(self).spec_entries() == spec_record(old(self).spec_entries(), r, damage),
    {
        self.sequence = self.sequence.saturating_add(1);
        let sequence = self.sequence;
        match damage {
            Some(d) => {
                let ghost before = self.entries@;
                self.entries.push((sequence, d));
                if self.entries.len() > MAX_DAMAGE_HISTORY {
                    self.entries.remove(0);
                    assert(self.entries@ =~= before.push((sequence, d)).subrange(1, MAX_DAMAGE_HISTORY as int + 1));
                }
            },
            None => {},
        }
        sequence
    }

    /// Forgets all recorded damage; the frame numbering goes on.
    pub fn clear(&mut self)
        requires
            old(self).wf(),
        ensures
            final(self).wf(),
            final(self).spec_entries() == Seq::<(u64, Bounds)>::empty(),
            final(self).spec_sequence() == old(self).spec_sequence(),
    {
        self.entries.clear();
    }

    /// What must be painted into a buffer last drawn at frame `sequence`
    /// when `requested` is asked for: `None` (everything) when the history
    /// no longer reaches back to that frame.
    pub fn buffer_age_repaint(&self, sequence: u64, requested: Option<Bounds>) -> (r: Option<Bounds>)
        ensures
            r == spec_buffer_age_repaint(self.spec_entries(), sequence, requested),
    {
        if self.entries.len() > 0 && sequence < self.entries[0].0 {
            return None;
        }
        let mut repaint = requested;
        let mut i: usize = 0;
        while i < self.entries.len()
            invariant
                i <= self.entries.len(),
                repaint == spec_repaint_prefix(self.entries@, sequence, requested, i as int),
            decreases self.entries.len() - i,
        {
            let (damage_sequence, damage) = self.entries[i];
            if damage_sequence > sequence {
                repaint = union_optional_bounds(repaint, Some(damage));
            }
            i = i + 1;
        }
        repaint
    }
}

/// A grown region still holds every point it held.
proof fn lemma_union_optional_keeps(current: Option<Bounds>, next: Option<Bounds>, x: int, y: int)
    requires
        spec_optional_contains(current, x, y) || spec_optional_contains(next, x, y),
    ensures
        spec_optional_contains(spec_union_optional(current, next), x, y),
{
    match (current, next) {
        (Some(c), Some(n)) => crate::geometry::lemma_bounds_union_contains(c, n, x, y),
        _ => {},
    }
}

proof fn lemma_repaint_prefix_covers(
    entries: Seq<(u64, Bounds)>,
    sequence: u64,
    requested: Option<Bounds>,
    n: int,
    x: int,
    y: int,
)
    requires
        0 <= n <= entries.len(),
        spec_optional_contains(requested, x, y) || exists|i: int|
            0 <= i < n && entries[i].0 > sequence && #[trigger] entries[i].1.spec_contains_point(x, y),
    ensures
        spec_optional_contains(spec_repaint_prefix(entries, sequence, requested, n), x, y),
    decreases n,
{
    if n > 0 {
        let before = spec_repaint_prefix(entries, sequence, requested, n - 1);
        if spec_optional_contains(requested, x, y) || exists|i: int|
            0 <= i < n - 1 && entries[i].0 > sequence && #[trigger] entries[i].1.spec_contains_point(x, y) {
            lemma_repaint_prefix_covers(entries, sequence, requested, n - 1, x, y);
            if entries[n - 1].0 > sequence {
                lemma_union_optional_keeps(before, Some(entries[n - 1].1), x, y);
            }
        } else {
            let i = choose|i: int|
                0 <= i < n && entries[i].0 > sequence && #[trigger] entries[i].1.spec_contains_point(x, y);
            assert(i == n - 1);
            lemma_union_optional_keeps(before, Some(entries[n - 1].1), x, y);
        }
    }
}

/// A buffer that is repainted at all is repainted wherever it was asked to be
/// and wherever any frame after it drew.
pub proof fn lemma_buffer_age_repaint_covers_newer_damage(
    history: DamageHistory,
    sequence: u64,
    requested: Option<Bounds>,
    i: int,
    x: int,
    y: int,
)
    requires
        spec_buffer_age_repaint(history.spec_entries(), sequence, requested) is Some,
        (spec_optional_contains(requested, x, y)) || (0 <= i < history.spec_entries().len()
            && history.spec_entries()[i].0 > sequence && history.spec_entries()[i].1.spec_contains_point(x, y)),
    ensures
        spec_optional_contains(spec_buffer_age_repaint(history.spec_entries(), sequence, requested), x, y),
{
    let entries = history.spec_entries();
    if !spec_optional_contains(requested, x, y) {
        assert(entries[i].1.spec_contains_point(x, y));
    }
    lemma_repaint_prefix_covers(entries, sequence, requested, entries.len() as int, x, y);
}

/// A buffer drawn at the latest frame needs only what is requested.
pub proof fn lemma_current_buffer_needs_only_request(history: DamageHistory, requested: Option<Bounds>)
    requires
        history.wf(),
    ensures
        spec_buffer_age_repaint(history.spec_entries(), history.spec_sequence(), requested) == requested,
{
    let entries = history.spec_entries();
    let s = history.spec_sequence();
    assert forall|n: int| 0 <= n <= entries.len() implies spec_repaint_prefix(entries, s, requested, n)
        == requested by {
        lemma_prefix_unchanged(entries, s, requested, n);
    }
}

proof fn lemma_prefix_unchanged(entries: Seq<(u64, Bounds)>, sequence: u64, requested: Option<Bounds>, n: int)
    requires
        0 <= n <= entries.len(),
        forall|i: int| 0 <= i < entries.len() ==> #[trigger] entries[i].0 <= sequence,
    ensures
        spec_repaint_prefix(entries, sequence, requested, n) == requested,
    decreases n,
{
    if n > 0 {
        assert(entries[n - 1].0 <= sequence);
        lemma_prefix_unchanged(entries, sequence, requested, n - 1);
    }
}

} // verus!
