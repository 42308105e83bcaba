use vstd::prelude::*;
use rand::seq::SliceRandom;
use crate::backend::BackendRequest;

verus! {

/// How the queue behaves when the cursor reaches the end of the visitation
/// order, or when a track finishes.
#[derive(Clone, Copy, Debug, PartialEq, Eq, Structural)]
pub enum RepeatSetting {
    /// Stop after the last track.
    Off,
    /// Wrap around to the start of the visitation order.
    All,
    /// Replay the current track when it finishes on its own.
    One,
}

/// The indices `0, 1, ..., n - 1` in order.
pub open spec fn identity(n: nat) -> Seq<usize> {
    Seq::new(n, |i: int| i as usize)
}

/// The first position of `c` in `s`, or -1 when `c` does not occur.
pub open spec fn first_index(s: Seq<usize>, c: usize) -> int
    decreases s.len(),
{
    if s.len() == 0 {
        -1
    } else {
        let r = first_index(s.drop_last(), c);
        if r >= 0 {
            r
        } else if s.last() == c {
            s.len() - 1
        } else {
            -1
        }
    }
}

/// A cursor value is absent or a valid index into a sequence of length `n`.
pub open spec fn cursor_ok(c: Option<usize>, n: nat) -> bool {
    match c {
        Some(i) => i < n,
        None => true,
    }
}

/// The mathematical model of a queue.
pub struct QueueView {
    /// The stored tracks, in insertion order.
    pub tracks: Seq<u64>,
    /// The index of the current track, if any.
    pub current: Option<usize>,
    /// The order in which indices are visited: a permutation of the indices,
    /// the identity unless shuffle mode is on.
    pub order: Seq<usize>,
    /// The cursor values left behind by each move, most recent last.
    pub history: Seq<Option<usize>>,
    pub shuffle: bool,
    pub repeat: RepeatSetting,
}

impl QueueView {
    pub open spec fn wf(self) -> bool {
        &&& self.order.to_multiset() == identity(self.tracks.len()).to_multiset()
        &&& self.order.len() == self.tracks.len()
        &&& forall|i: int| 0 <= i < self.order.len() ==> self.order[i] < self.tracks.len()
        &&& !self.shuffle ==> self.order == identity(self.tracks.len())
        &&& cursor_ok(self.current, self.tracks.len())
        &&& forall|j: int|
            0 <= j < self.history.len() ==> cursor_ok(#[trigger] self.history[j], self.tracks.len())
    }

    /// The index after the current one in the visitation order, if there is one
    /// before the end.
    pub open spec fn successor(self) -> Option<usize> {
        match self.current {
            None => None,
            Some(c) => if self.shuffle {
                let p = first_index(self.order, c);
                if 0 <= p && p + 1 < self.order.len() {
                    Some(self.order[p + 1])
                } else {
                    None
                }
            } else if c + 1 < self.tracks.len() {
                Some((c + 1) as usize)
            } else {
                None
            },
        }
    }

    /// The cursor stands on the last index of the visitation order.
    pub open spec fn at_last(self) -> bool {
        match self.current {
            Some(c) => if self.shuffle {
                first_index(self.order, c) == self.order.len() - 1
            } else {
                c == self.tracks.len() - 1
            },
            None => false,
        }
    }

    /// A non-explicit advance under repeat-one keeps the current track.
    pub open spec fn keeps_current(self, explicit: bool) -> bool {
        self.repeat == RepeatSetting::One && !explicit && self.current.is_some()
    }

    /// The advance runs off the end and wraps around to the start.
    pub open spec fn wraps(self, explicit: bool) -> bool {
        !self.keeps_current(explicit) && self.successor().is_none() && self.repeat
            == RepeatSetting::All
    }

    /// Where `next` puts the cursor; `new_order` is the visitation order after
    /// the call (a fresh one when a shuffled queue wraps).
    pub open spec fn next_target(self, explicit: bool, new_order: Seq<usize>) -> Option<usize> {
        if self.keeps_current(explicit) {
            self.current
        } else if self.successor().is_some() {
            self.successor()
        } else if self.repeat == RepeatSetting::All {
            Some(new_order[0])
        } else {
            None
        }
    }

    /// `f` is the state after `next(explicit)` from this state: on an empty
    /// queue nothing changes; otherwise the cursor moves to `next_target`,
    /// the cursor left behind is recorded, and only a shuffled wrap draws a
    /// fresh visitation order.
    pub open spec fn advanced_to(self, f: QueueView, explicit: bool) -> bool {
        if self.tracks.len() == 0 {
            f == self
        } else {
            &&& f.tracks == self.tracks
            &&& f.shuffle == self.shuffle
            &&& f.repeat == self.repeat
            &&& f.history == self.history.push(self.current)
            &&& f.current == self.next_target(explicit, f.order)
            &&& (self.wraps(explicit) && self.shuffle) || f.order == self.order
        }
    }

    /// `f` is the state after `previous()` from this state: the most recently
    /// recorded cursor comes back; with nothing recorded nothing changes.
    pub open spec fn stepped_back_to(self, f: QueueView) -> bool {
        if self.history.len() == 0 {
            f == self
        } else {
            f == (QueueView {
                current: self.history.last(),
                history: self.history.drop_last(),
                ..self
            })
        }
    }

    /// The backend request that makes playback follow the cursor.
    pub open spec fn request(self) -> BackendRequest {
        match self.current {
            Some(i) => BackendRequest::Play(self.tracks[i as int]),
            None => BackendRequest::Stop,
        }
    }
}

/// An ordered list of tracks with a cursor and play-mode settings.
pub struct Queue {
    tracks: Vec<u64>,
    current: Option<usize>,
    order: Vec<usize>,
    history: Vec<Option<usize>>,
    shuffle: bool,
    repeat: RepeatSetting,
}

impl View for Queue {
    type V = QueueView;

    closed spec fn view(&self) -> QueueView {
        QueueView {
            tracks: self.tracks@,
            current: self.current,
            order: self.order@,
            history: self.history@,
            shuffle: self.shuffle,
            repeat: self.repeat,
        }
    }
}

/// Relies on rand's `SliceRandom::shuffle` with the thread-local generator:
/// it only swaps elements, so the result is a permutation of the input.
#[verifier::external_body]
fn shuffled(v: Vec<usize>) -> (r: Vec<usize>)
    ensures
        r@.to_multiset() == v@.to_multiset(),
{
    let mut v = v;
    v.shuffle(&mut rand::thread_rng());
    v
}

/// A sequence with the same elements as the indices below `n` has length `n`
/// and holds only such indices.
proof fn lemma_permutation_bounds(s: Seq<usize>, n: nat)
    requires
        s.to_multiset() == identity(n).to_multiset(),
        n <= usize::MAX,
    ensures
        s.len() == n,
        forall|i: int| 0 <= i < s.len() ==> s[i] < n,
{
    s.to_multiset_ensures();
    identity(n).to_multiset_ensures();
    assert forall|i: int| 0 <= i < s.len() implies s[i] < n by {
        assert(s.contains(s[i]));
        assert(s.to_multiset().count(s[i]) > 0);
        assert(identity(n).to_multiset().count(s[i]) > 0);
        assert(identity(n).contains(s[i]));
        let j = choose|j: int| 0 <= j < identity(n).len() && identity(n)[j] == s[i];
        assert(s[i] == j);
    }
}

/// Once `c` occurs in a prefix, its first position in the whole sequence is
/// the one in that prefix.
proof fn lemma_first_index_prefix(s: Seq<usize>, c: usize, k: int)
    requires
        0 <= k <= s.len(),
        first_index(s.take(k), c) >= 0,
    ensures
        first_index(s, c) == first_index(s.take(k), c),
    decreases s.len() - k,
{
    if k < s.len() {
        assert(s.take(k + 1).drop_last() =~= s.take(k));
        lemma_first_index_prefix(s, c, k + 1);
    } else {
        assert(s.take(k) =~= s);
    }
}

/// The first position of `c` in `s`.
fn position_of(s: &Vec<usize>, c: usize) -> (r: Option<usize>)
    ensures
        match r {
            Some(p) => p < s@.len() && p == first_index(s@, c),
            None => first_index(s@, c) == -1,
        },
{
    let mut i: usize = 0;
    while i < s.len()
        invariant
            i <= s@.len(),
            first_index(s@.take(i as int), c) == -1,
        decreases s@.len() - i,
    {
        assert(s@.take(i + 1).drop_last() =~= s@.take(i as int));
        if s[i] == c {
            proof {
                lemma_first_index_prefix(s@, c, i + 1);
            }
            return Some(i);
        }
        i = i + 1;
    }
    assert(s@.take(i as int) =~= s@);
    None
}

/// The vector of indices `0, 1, ..., n - 1`.
fn identity_vec(n: usize) -> (r: Vec<usize>)
    ensures
        r@ == identity(n as nat),
{
    let mut v: Vec<usize> = Vec::new();
    let mut i: usize = 0;
    while i < n
        invariant
            i <= n,
            v@ =~= identity(i as nat),
        decreases n - i,
    {
        v.push(i);
        i = i + 1;
    }
    v
}

impl Queue {
    /// A queue over `tracks` with no current track, sequential order and
    /// repeat off.
    pub fn new(tracks: Vec<u64>) -> (r: Queue)
        ensures
            r@.wf(),
            r@.tracks == tracks@,
            r@.current.is_none(),
            r@.history.len() == 0,
            !r@.shuffle,
            r@.repeat == RepeatSetting::Off,
    {
        let order = identity_vec(tracks.len());
        proof {
            lemma_permutation_bounds(order@, tracks@.len());
        }
        Queue {
            tracks,
            current: None,
            order,
            history: Vec::new(),
            shuffle: false,
            repeat: RepeatSetting::Off,
        }
    }

    fn request(&self) -> (r: BackendRequest)
        requires
            self@.wf(),
        ensures
            r == self@.request(),
    {
        match self.current {
            Some(i) => BackendRequest::Play(self.tracks[i]),
            None => BackendRequest::Stop,
        }
    }

    fn successor(&self) -> (r: Option<usize>)
        requires
            self@.wf(),
        ensures
            r == self@.successor(),
            cursor_ok(r, self@.tracks.len()),
    {
        match self.current {
            None => None,
            Some(c) => {
                if self.shuffle {
                    match position_of(&self.order, c) {
                        Some(p) => {
                            if p < self.order.len() - 1 {
                                Some(self.order[p + 1])
                            } else {
                                None
                            }
                        },
                        None => None,
                    }
                } else if c < self.tracks.len() - 1 {
                    Some(c + 1)
                } else {
                    None
                }
            },
        }
    }

    /// Replaces the visitation order with a fresh random permutation.
    fn reshuffle(&mut self)
        requires
            old(self)@.wf(),
            old(self)@.shuffle,
        ensures
            final(self)@.wf(),
            final(self)@ == (QueueView { order: final(self)@.order, ..old(self)@ }),
    {
        let n = self.tracks.len();
        let order = shuffled(identity_vec(n));
        proof {
            lemma_permutation_bounds(order@, n as nat);
        }
        self.order = order;
    }

    /// Moves the cursor to the next track of the visitation order. Under
    /// repeat-one a non-explicit advance replays the current track; past the
    /// end the queue wraps under repeat-all (reshuffling in shuffle mode) and
    /// otherwise clears the cursor. The cursor left behind is recorded so that
    /// `previous` can restore it. On an empty queue nothing happens.
    pub fn next(&mut self, explicit: bool) -> (r: Option<BackendRequest>)
        requires
            old(self)@.wf(),
        ensures
            final(self)@.wf(),
            old(self)@.advanced_to(final(self)@, explicit),
            r == if old(self)@.tracks.len() == 0 {
                None
            } else {
                Some(final(self)@.request())
            },
    {
        if self.tracks.len() == 0 {
            return None;
        }
        let prior = self.current;
        let keep = self.repeat == RepeatSetting::One && !explicit && prior.is_some();
        let target = if keep {
            prior
        } else {
            let s = self.successor();
            if s.is_some() {
                s
            } else if self.repeat == RepeatSetting::All {
                if self.shuffle {
                    self.reshuffle();
                }
                Some(self.order[0])
            } else {
                None
            }
        };
        self.history.push(prior);
        self.current = target;
        assert(self@.history =~= old(self)@.history.push(prior));
        assert forall|j: int| 0 <= j < self@.history.len() implies cursor_ok(
            #[trigger] self@.history[j],
            self@.tracks.len(),
        ) by {
            if j < old(self)@.history.len() {
                assert(self@.history[j] == old(self)@.history[j]);
            }
        }
        Some(self.request())
    }

    /// Steps back to the cursor recorded by the most recent move, undoing it.
    /// With nothing recorded, the current track (if any) is restarted.
    pub fn previous(&mut self) -> (r: Option<BackendRequest>)
        requires
            old(self)@.wf(),
        ensures
            final(self)@.wf(),
            old(self)@.stepped_back_to(final(self)@),
            r == if old(self)@.history.len() == 0 && old(self)@.current.is_none() {
                None
            } else {
                Some(final(self)@.request())
            },
    {
        match self.history.pop() {
            Some(h) => {
                proof {
                    let j = old(self)@.history.len() - 1;
                    assert(cursor_ok(old(self)@.history[j], old(self)@.tracks.len()));
                    assert forall|k: int| 0 <= k < self@.history.len() implies cursor_ok(
                        #[trigger] self@.history[k],
                        self@.tracks.len(),
                    ) by {
                        assert(self@.history[k] == old(self)@.history[k]);
                    }
                }
                self.current = h;
                assert(self@ =~= (QueueView {
                    current: old(self)@.history.last(),
                    history: old(self)@.history.drop_last(),
                    ..old(self)@
                }));
                Some(self.request())
            },
            None => {
                if self.current.is_some() {
                    Some(self.request())
                } else {
                    None
                }
            },
        }
    }

    /// Jumps to the track at `index`, recording the cursor left behind.
    /// Returns `None`, changing nothing, when `index` is out of range.
    pub fn play(&mut self, index: usize) -> (r: Option<BackendRequest>)
        requires
            old(self)@.wf(),
        ensures
            final(self)@.wf(),
            index >= old(self)@.tracks.len() ==> r.is_none() && final(self)@ == old(self)@,
            index < old(self)@.tracks.len() ==> {
                &&& final(self)@ == (QueueView {
                    current: Some(index),
                    history: old(self)@.history.push(old(self)@.current),
                    ..old(self)@
                })
                &&& r == Some(BackendRequest::Play(old(self)@.tracks[index as int]))
            },
    {
        if index >= self.tracks.len() {
            return None;
        }
        let prior = self.current;
        self.history.push(prior);
        self.current = Some(index);
        assert forall|j: int| 0 <= j < self@.history.len() implies cursor_ok(
            #[trigger] self@.history[j],
            self@.tracks.len(),
        ) by {
            if j < old(self)@.history.len() {
                assert(self@.history[j] == old(self)@.history[j]);
            }
        }
        Some(BackendRequest::Play(self.tracks[index]))
    }

    /// Turns shuffle mode on (drawing a fresh visitation order) or off
    /// (visiting in stored order). Tracks, cursor and history are kept.
    pub fn set_shuffle(&mut self, on: bool)
        requires
            old(self)@.wf(),
        ensures
            final(self)@.wf(),
            final(self)@ == (QueueView { shuffle: on, order: final(self)@.order, ..old(self)@ }),
    {
        let n = self.tracks.len();
        self.shuffle = on;
        if on {
            self.reshuffle();
        } else {
            self.order = identity_vec(n);
        }
    }

    /// Sets the repeat mode; nothing else changes.
    pub fn set_repeat(&mut self, repeat: RepeatSetting)
        requires
            old(self)@.wf(),
        ensures
            final(self)@.wf(),
            final(self)@ == (QueueView { repeat, ..old(self)@ }),
    {
        self.repeat = repeat;
    }

    /// The index of the current track.
    pub fn current_index(&self) -> (r: Option<usize>)
        ensures
            r == self@.current,
    {
        self.current
    }

    /// The id of the current track.
    pub fn current_track(&self) -> (r: Option<u64>)
        requires
            self@.wf(),
        ensures
            r == match self@.current {
                Some(i) => Some(self@.tracks[i as int]),
                None => None,
            },
    {
        match self.current {
            Some(i) => Some(self.tracks[i]),
            None => None,
        }
    }

    /// The number of tracks.
    pub fn len(&self) -> (r: usize)
        ensures
            r == self@.tracks.len(),
    {
        self.tracks.len()
    }

    /// The repeat mode.
    pub fn repeat(&self) -> (r: RepeatSetting)
        ensures
            r == self@.repeat,
    {
        self.repeat
    }

    /// Whether shuffle mode is on.
    pub fn is_shuffled(&self) -> (r: bool)
        ensures
            r == self@.shuffle,
    {
        self.shuffle
    }
}

/// `previous` after `next` restores the cursor that was current before the
/// `next`, whatever the modes; on a non-empty queue the recorded history is
/// restored too.
pub proof fn lemma_previous_undoes_next(q0: QueueView, q1: QueueView, q2: QueueView, explicit: bool)
    requires
        q0.wf(),
        q0.advanced_to(q1, explicit),
        q1.stepped_back_to(q2),
    ensures
        q2.current == q0.current,
        q2.tracks == q0.tracks,
        q0.tracks.len() > 0 ==> q2.history == q0.history,
{
    if q0.tracks.len() == 0 {
        if q0.history.len() > 0 {
            let j = q0.history.len() - 1;
            assert(cursor_ok(q0.history[j], 0));
            assert(q0.history.last().is_none());
            assert(q0.current.is_none());
            assert(q2.current == q0.current);
        }
    } else {
        assert(q1.history.drop_last() =~= q0.history);
    }
}

/// Under repeat-all, `next` on a non-empty queue never clears the cursor, and
/// from the last index of the visitation order it wraps to the first one:
/// index 0 when not shuffled.
pub proof fn lemma_repeat_all_wraps(q0: QueueView, q1: QueueView, explicit: bool)
    requires
        q0.wf(),
        q0.tracks.len() > 0,
        q0.repeat == RepeatSetting::All,
        q0.advanced_to(q1, explicit),
    ensures
        q1.current.is_some(),
        q0.at_last() ==> q1.current == Some(q1.order[0]),
        q0.at_last() && !q0.shuffle ==> q1.current == Some(0usize),
{
    if q0.at_last() && !q0.shuffle {
        assert(q1.order == identity(q0.tracks.len()));
    }
}

/// Under repeat-off, `next` from the last index of the visitation order clears
/// the cursor and asks the backend to stop.
pub proof fn lemma_repeat_off_stops(q0: QueueView, q1: QueueView, explicit: bool)
    requires
        q0.wf(),
        q0.repeat == RepeatSetting::Off,
        q0.at_last(),
        q0.advanced_to(q1, explicit),
    ensures
        q1.current.is_none(),
        q1.request() == BackendRequest::Stop,
{
}

} // verus!
