use vstd::prelude::*;

verus! {

/// Whether the log holds a confirmed mask for `frame`.
pub open spec fn confirmed_at(log: Seq<Option<u8>>, frame: int) -> bool {
    0 <= frame < log.len() && log[frame] is Some
}

/// The mask that counts for `frame`: the confirmed one where there is one,
/// else the mask that counts for the frame before, and no input before the
/// first frame. So a frame without confirmation repeats the last confirmed
/// mask before it.
pub open spec fn effective(log: Seq<Option<u8>>, frame: int) -> u8
    decreases frame + 1,
{
    if frame < 0 {
        0
    } else if confirmed_at(log, frame) {
        log[frame]->0
    } else {
        effective(log, frame - 1)
    }
}

/// The first frame at or after `from` that has no confirmed mask.
pub open spec fn unconfirmed_from(log: Seq<Option<u8>>, from: int) -> int
    decreases log.len() - from,
{
    if confirmed_at(log, from) {
        unconfirmed_from(log, from + 1)
    } else {
        from
    }
}

/// The first frame that has no confirmed mask.
pub open spec fn first_unconfirmed(log: Seq<Option<u8>>) -> int {
    unconfirmed_from(log, 0)
}

/// The log after `mask` has arrived for `frame`. A frame that is confirmed
/// already keeps its mask.
pub open spec fn with_confirmed(log: Seq<Option<u8>>, frame: int, mask: u8) -> Seq<Option<u8>> {
    if confirmed_at(log, frame) || frame < 0 {
        log
    } else {
        Seq::new(
            if frame < log.len() { log.len() } else { (frame + 1) as nat },
            |i: int|
                if i == frame {
                    Some(mask)
                } else if i < log.len() {
                    log[i]
                } else {
                    None
                },
        )
    }
}

/// Whether `later` confirms every frame that `earlier` confirms, with the
/// same mask.
pub open spec fn extends(earlier: Seq<Option<u8>>, later: Seq<Option<u8>>) -> bool {
    forall|f: int| #[trigger] confirmed_at(earlier, f) ==> confirmed_at(later, f) && later[f] == earlier[f]
}

/// What the first unconfirmed frame is: every frame before it is confirmed
/// and it is not.
pub proof fn lemma_first_unconfirmed(log: Seq<Option<u8>>)
    ensures
        0 <= first_unconfirmed(log) <= log.len(),
        !confirmed_at(log, first_unconfirmed(log)),
        forall|f: int| 0 <= f < first_unconfirmed(log) ==> confirmed_at(log, f),
{
    lemma_unconfirmed_from(log, 0);
}

proof fn lemma_unconfirmed_from(log: Seq<Option<u8>>, from: int)
    requires
        0 <= from,
    ensures
        from <= unconfirmed_from(log, from),
        from <= log.len() ==> unconfirmed_from(log, from) <= log.len(),
        !confirmed_at(log, unconfirmed_from(log, from)),
        forall|f: int| from <= f < unconfirmed_from(log, from) ==> confirmed_at(log, f),
    decreases log.len() - from,
{
    if confirmed_at(log, from) {
        lemma_unconfirmed_from(log, from + 1);
    }
}

/// A frame that is not confirmed while all before it are is the first
/// unconfirmed frame.
pub proof fn lemma_first_unconfirmed_is(log: Seq<Option<u8>>, frame: int)
    requires
        0 <= frame,
        !confirmed_at(log, frame),
        forall|f: int| 0 <= f < frame ==> confirmed_at(log, f),
    ensures
        first_unconfirmed(log) == frame,
{
    lemma_first_unconfirmed(log);
}

/// A log that confirms more has its first unconfirmed frame no earlier.
pub proof fn lemma_first_unconfirmed_grows(earlier: Seq<Option<u8>>, later: Seq<Option<u8>>)
    requires
        extends(earlier, later),
    ensures
        first_unconfirmed(earlier) <= first_unconfirmed(later),
{
    lemma_first_unconfirmed(earlier);
    lemma_first_unconfirmed(later);
    let u = first_unconfirmed(later);
    if u < first_unconfirmed(earlier) {
        assert(confirmed_at(earlier, u));
    }
}

/// Frames past the end of the log repeat the mask that counts for its last
/// frame.
pub proof fn lemma_effective_past_end(log: Seq<Option<u8>>, frame: int)
    requires
        frame >= log.len() - 1,
    ensures
        effective(log, frame) == effective(log, log.len() - 1),
    decreases frame + 1,
{
    if frame >= log.len() && frame >= 0 {
        lemma_effective_past_end(log, frame - 1);
    }
}

/// A mask that arrives for a frame changes nothing for the frames before.
pub proof fn lemma_confirm_keeps_earlier(log: Seq<Option<u8>>, frame: int, mask: u8, f: int)
    requires
        f < frame,
    ensures
        effective(with_confirmed(log, frame, mask), f) == effective(log, f),
    decreases f + 1,
{
    if f >= 0 {
        lemma_confirm_keeps_earlier(log, frame, mask, f - 1);
    }
}

/// A mask that arrives for an unconfirmed frame counts for that frame.
pub proof fn lemma_confirm_counts(log: Seq<Option<u8>>, frame: int, mask: u8)
    requires
        0 <= frame,
        !confirmed_at(log, frame),
    ensures
        confirmed_at(with_confirmed(log, frame, mask), frame),
        effective(with_confirmed(log, frame, mask), frame) == mask,
        extends(log, with_confirmed(log, frame, mask)),
        forall|f: int| f != frame ==> (confirmed_at(with_confirmed(log, frame, mask), f) <==> confirmed_at(log, f)),
{
}

/// A mask that arrives as it was predicted changes nothing for any frame.
pub proof fn lemma_confirm_as_predicted(log: Seq<Option<u8>>, frame: int, mask: u8, f: int)
    requires
        0 <= frame,
        mask == effective(log, frame),
    ensures
        effective(with_confirmed(log, frame, mask), f) == effective(log, f),
    decreases f + 1,
{
    if f >= 0 {
        lemma_confirm_as_predicted(log, frame, mask, f - 1);
    }
}

/// The confirmed inputs of one player, by frame. A frame is confirmed at
/// most once: the mask that arrives first stays.
#[derive(Debug)]
pub struct InputLog {
    entries: Vec<Option<u8>>,
    solid: usize,
}

impl View for InputLog {
    type V = Seq<Option<u8>>;

    closed spec fn view(&self) -> Seq<Option<u8>> {
        self.entries@
    }
}

impl InputLog {
    /// The log's bookkeeping is sound. Every log made and changed through
    /// the functions of this type is well-formed.
    pub closed spec fn wf(&self) -> bool {
        &&& self.solid <= self.entries@.len()
        &&& forall|f: int| 0 <= f < self.solid ==> confirmed_at(self.entries@, f)
    }

    /// A log whose first `blank` frames are confirmed to carry no input.
    pub fn new(blank: u32) -> (log: InputLog)
        ensures
            log.wf(),
            log@ == Seq::new(blank as nat, |i: int| Some(0u8)),
    {
        let mut entries: Vec<Option<u8>> = Vec::new();
        let mut i: u32 = 0;
        while i < blank
            invariant
                i <= blank,
                entries@.len() == i,
                forall|f: int| 0 <= f < i ==> #[trigger] entries@[f] == Some(0u8),
            decreases blank - i,
        {
            entries.push(Some(0u8));
            i = i + 1;
        }
        let solid: usize = entries.len();
        InputLog { entries, solid }
    }

    /// The confirmed mask for `frame`, if there is one.
    pub fn confirmed(&self, frame: u32) -> (mask: Option<u8>)
        ensures
            mask is Some <==> confirmed_at(self@, frame as int),
            mask is Some ==> mask == self@[frame as int],
    {
        let at: usize = frame as usize;
        if at < self.entries.len() {
            self.entries[at]
        } else {
            None
        }
    }

    /// Records the mask that arrived for `frame`, unless the frame is
    /// confirmed already, and says whether it was recorded.
    pub fn confirm(&mut self, frame: u32, mask: u8) -> (fresh: bool)
        requires
            old(self).wf(),
        ensures
            final(self).wf(),
            fresh == !confirmed_at(old(self)@, frame as int),
            final(self)@ == with_confirmed(old(self)@, frame as int, mask),
    {
        let at: usize = frame as usize;
        if at < self.entries.len() {
            if self.entries[at].is_some() {
                return false;
            }
        }
        while self.entries.len() <= at
            invariant
                self.entries@.len() >= old(self).entries@.len(),
                forall|f: int| 0 <= f < old(self).entries@.len() ==> self.entries@[f] == old(self).entries@[f],
                forall|f: int| old(self).entries@.len() <= f < self.entries@.len() ==> self.entries@[f] is None,
                self.entries@.len() <= at + 1 || self.entries@.len() == old(self).entries@.len(),
                self.solid == old(self).solid,
                self.solid <= old(self).entries@.len(),
                forall|f: int| 0 <= f < self.solid ==> confirmed_at(old(self).entries@, f),
            decreases at + 1 - self.entries@.len(),
        {
            self.entries.push(None);
        }
        self.entries[at] = Some(mask);
        assert forall|f: int| 0 <= f < self.solid implies confirmed_at(self.entries@, f) by {
            assert(confirmed_at(old(self).entries@, f));
        }
        while self.solid < self.entries.len() && self.entries[self.solid].is_some()
            invariant
                self.solid <= self.entries@.len(),
                forall|f: int| 0 <= f < self.solid ==> confirmed_at(self.entries@, f),
                self.entries@ == with_confirmed(old(self)@, frame as int, mask),
            decreases self.entries@.len() - self.solid,
        {
            self.solid = self.solid + 1;
        }
        true
    }

    /// The mask that counts for `frame`: the confirmed one, or else the
    /// last one confirmed before it, or else no input.
    pub fn effective(&self, frame: u32) -> (mask: u8)
        ensures
            mask == effective(self@, frame as int),
    {
        if self.entries.len() == 0 {
            proof {
                lemma_effective_past_end(self@, frame as int);
            }
            return 0;
        }
        let mut at: usize = frame as usize;
        if at >= self.entries.len() {
            at = self.entries.len() - 1;
            proof {
                lemma_effective_past_end(self@, frame as int);
            }
        }
        loop
            invariant
                at < self.entries@.len(),
                effective(self@, frame as int) == effective(self@, at as int),
            decreases at,
        {
            match self.entries[at] {
                Some(mask) => {
                    return mask;
                },
                None => {
                    if at == 0 {
                        assert(effective(self@, -1) == 0);
                        return 0;
                    }
                    at = at - 1;
                },
            }
        }
    }

    /// The first frame that has no confirmed mask.
    pub fn first_unconfirmed(&self) -> (frame: usize)
        requires
            self.wf(),
        ensures
            frame == first_unconfirmed(self@),
    {
        let mut at: usize = self.solid;
        while at < self.entries.len() && self.entries[at].is_some()
            invariant
                at <= self.entries@.len(),
                forall|f: int| 0 <= f < at ==> confirmed_at(self.entries@, f),
            decreases self.entries@.len() - at,
        {
            at = at + 1;
        }
        proof {
            lemma_first_unconfirmed_is(self@, at as int);
        }
        at
    }

    /// Number of frames up to the last confirmed one.
    pub fn len(&self) -> (n: usize)
        ensures
            n == self@.len(),
    {
        self.entries.len()
    }
}

} // verus!
