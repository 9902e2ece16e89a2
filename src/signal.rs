use vstd::prelude::*;

verus! {

/// The coalescing save flag shared by the ingestion side and the
/// persistence worker. Any number of notifications between two saves
/// collapse into one pending save.
#[derive(Debug)]
pub struct SaveSignal {
    dirty: bool,
}

impl SaveSignal {
    pub closed spec fn is_pending(&self) -> bool {
        self.dirty
    }

    /// A flag with no save pending.
    pub fn new() -> (r: SaveSignal)
        ensures
            !r.is_pending(),
    {
        SaveSignal { dirty: false }
    }

    /// Marks the store dirty after a write.
    pub fn notify(&mut self)
        ensures
            final(self).is_pending(),
    {
        self.dirty = true;
    }

    /// Whether a save is pending.
    pub fn pending(&self) -> (r: bool)
        ensures
            r == self.is_pending(),
    {
        self.dirty
    }

    /// Called by the worker when it wakes: tells whether a save is due and
    /// clears the flag, so that the writes it covers are not saved again.
    pub fn take(&mut self) -> (r: bool)
        ensures
            r == old(self).is_pending(),
            !final(self).is_pending(),
    {
        let r = self.dirty;
        self.dirty = false;
        r
    }
}

/// Saves made over a run of events, starting with the flag `pending`:
/// `true` is a write followed by `notify`, `false` is a wake of the worker
/// followed by `take`, which saves when it returns `true`.
pub open spec fn saves_of(pending: bool, events: Seq<bool>) -> nat
    decreases events.len(),
{
    if events.len() == 0 {
        0
    } else if events[0] {
        saves_of(true, events.drop_first())
    } else {
        (if pending { 1nat } else { 0nat }) + saves_of(false, events.drop_first())
    }
}

/// Whether a save is still pending after a run of events, starting with the
/// flag `pending`.
pub open spec fn pending_after(pending: bool, events: Seq<bool>) -> bool
    decreases events.len(),
{
    if events.len() == 0 {
        pending
    } else if events[0] {
        pending_after(true, events.drop_first())
    } else {
        pending_after(false, events.drop_first())
    }
}

/// Number of writes in a run of events.
pub open spec fn writes_of(events: Seq<bool>) -> nat
    decreases events.len(),
{
    if events.len() == 0 {
        0
    } else {
        (if events[0] { 1nat } else { 0nat }) + writes_of(events.drop_first())
    }
}

proof fn lemma_saves_bounded(pending: bool, events: Seq<bool>)
    ensures
        saves_of(pending, events) <= writes_of(events) + (if pending { 1nat } else { 0nat }),
    decreases events.len(),
{
    if events.len() > 0 {
        lemma_saves_bounded(true, events.drop_first());
        lemma_saves_bounded(false, events.drop_first());
    }
}

proof fn lemma_save_after_write(pending: bool, events: Seq<bool>, w: int)
    requires
        0 <= w < events.len(),
        events[w],
        !events.last(),
    ensures
        saves_of(pending, events) >= 1,
    decreases events.len(),
{
    if w > 0 {
        lemma_save_after_write(events[0] || pending, events.drop_first(), w - 1);
    } else {
        lemma_worker_saves(events.drop_first());
    }
}

proof fn lemma_worker_saves(events: Seq<bool>)
    requires
        events.len() > 0,
        !events.last(),
    ensures
        saves_of(true, events) >= 1,
    decreases events.len(),
{
    if events[0] {
        lemma_worker_saves(events.drop_first());
    }
}

/// Drives a fresh flag through `events` (`true`: a write and `notify`;
/// `false`: a wake of the worker and `take`). Returns the number of saves
/// made and whether a save is still pending at the end.
pub fn replay(events: &Vec<bool>) -> (r: (u64, bool))
    requires
        events@.len() < u64::MAX,
    ensures
        r.0 == saves_of(false, events@),
        r.1 == pending_after(false, events@),
{
    let mut s = SaveSignal::new();
    let mut saves: u64 = 0;
    let mut i: usize = 0;
    proof {
        assert(events@.subrange(0, events@.len() as int) =~= events@);
    }
    while i < events.len()
        invariant
            i <= events@.len() < u64::MAX,
            saves <= i,
            saves + saves_of(s.is_pending(), events@.subrange(i as int, events@.len() as int))
                == saves_of(false, events@),
            pending_after(s.is_pending(), events@.subrange(i as int, events@.len() as int))
                == pending_after(false, events@),
        decreases events@.len() - i,
    {
        let ghost rest = events@.subrange(i as int, events@.len() as int);
        assert(rest.drop_first() =~= events@.subrange(i + 1, events@.len() as int));
        if events[i] {
            s.notify();
        } else if s.take() {
            saves = saves + 1;
        }
        i = i + 1;
    }
    proof {
        assert(events@.subrange(i as int, events@.len() as int).len() == 0);
    }
    (saves, s.pending())
}

/// No write is left unsaved: after any run of events with at least one
/// write, starting with nothing pending, either a save was made or a save is
/// still pending, so the next wake of the worker makes one. Never more saves
/// than writes are made.
pub proof fn law_no_lost_save(events: Seq<bool>)
    requires
        writes_of(events) >= 1,
    ensures
        saves_of(false, events) >= 1 || pending_after(false, events),
        saves_of(false, events) <= writes_of(events),
{
    lemma_saves_bounded(false, events);
    lemma_some_write(events);
    let w = choose|w: int| 0 <= w < events.len() && events[w];
    lemma_saved_or_pending(false, events, w);
}

proof fn lemma_saved_or_pending(pending: bool, events: Seq<bool>, w: int)
    requires
        0 <= w < events.len(),
        events[w],
    ensures
        saves_of(pending, events) >= 1 || pending_after(pending, events),
    decreases events.len(),
{
    if w > 0 {
        lemma_saved_or_pending(events[0] || pending, events.drop_first(), w - 1);
    } else {
        lemma_pending_saved_or_kept(events.drop_first());
    }
}

proof fn lemma_pending_saved_or_kept(events: Seq<bool>)
    ensures
        saves_of(true, events) >= 1 || pending_after(true, events),
    decreases events.len(),
{
    if events.len() > 0 && events[0] {
        lemma_pending_saved_or_kept(events.drop_first());
    }
}

/// Coalesced persistence: starting with nothing pending, a run of events
/// with at least one write, ending with a wake of the worker, makes at least
/// one save and never more saves than writes.
pub proof fn law_coalesced_saves(events: Seq<bool>)
    requires
        writes_of(events) >= 1,
        events.len() > 0,
        !events.last(),
    ensures
        1 <= saves_of(false, events) <= writes_of(events),
{
    lemma_saves_bounded(false, events);
    lemma_some_write(events);
    let w = choose|w: int| 0 <= w < events.len() && events[w];
    lemma_save_after_write(false, events, w);
}

proof fn lemma_some_write(events: Seq<bool>)
    requires
        writes_of(events) >= 1,
    ensures
        exists|w: int| 0 <= w < events.len() && events[w],
    decreases events.len(),
{
    if !events[0] {
        lemma_some_write(events.drop_first());
        let w = choose|w: int| 0 <= w < events.len() - 1 && events.drop_first()[w];
        assert(events[w + 1]);
    } else {
        assert(events[0]);
    }
}

} // verus!
