//! The sonar's track book: which contacts are followed, under which id, how
//! often and how recently they were heard, whether they are shared with the
//! crew, and the acoustic evidence that classifies them. The geometry of a
//! track (bearing, range, their uncertainties) is measured in floating point
//! and kept beside the book by its user.
use vstd::prelude::*;
use crate::evidence::{classification_of, sat_add, with_profile, Evidence, TrackError};
use crate::protocol::TrackId;
use crate::submarine::{AcousticProfile, ContactClassification, ObservationMode};

verus! {

/// Ticks after its last observation for which a track is kept.
pub const TRACK_LIFETIME_TICKS: u64 = 1200;

/// Ticks after its last observation during which a track may take a new one.
pub const ASSOCIATION_WINDOW_TICKS: u64 = 120;

/// One followed contact.
#[derive(Debug, Clone, Copy, PartialEq, Eq, Structural)]
pub struct TrackRecord {
    pub id: TrackId,
    pub observations: u32,
    pub last_tick: u64,
    pub mode: ObservationMode,
    pub shared: bool,
    pub evidence: Evidence,
}

impl TrackRecord {
    /// What the evidence on this track says it is.
    pub fn classification(&self) -> (r: ContactClassification)
        ensures
            r == classification_of(self.evidence),
    {
        self.evidence.classify()
    }
}

/// The tracks in the order they were opened, and the id the next one gets.
pub struct Tracker {
    tracks: Vec<TrackRecord>,
    next_id: u64,
}

/// What a track book holds.
pub struct TrackerState {
    pub tracks: Seq<TrackRecord>,
    pub next_id: u64,
}

impl View for Tracker {
    type V = TrackerState;

    closed spec fn view(&self) -> TrackerState {
        TrackerState { tracks: self.tracks@, next_id: self.next_id }
    }
}

/// `a + b`, stopping at `u32::MAX`.
pub open spec fn sat_add32(a: u32, b: u32) -> u32 {
    if a + b > u32::MAX { u32::MAX } else { (a + b) as u32 }
}

/// `a - b`, stopping at zero.
pub open spec fn sat_sub64(a: u64, b: u64) -> u64 {
    if a < b { 0 } else { (a - b) as u64 }
}

/// Some track carries `id`.
pub open spec fn holds_id(s: Seq<TrackRecord>, id: TrackId) -> bool {
    exists|i: int| 0 <= i < s.len() && #[trigger] s[i].id == id
}

/// `i` is the first track carrying `id`.
pub open spec fn first_with(s: Seq<TrackRecord>, id: TrackId, i: int) -> bool {
    &&& 0 <= i < s.len()
    &&& s[i].id == id
    &&& forall|j: int| 0 <= j < i ==> #[trigger] s[j].id != id
}

/// The position of the first track carrying `id`.
pub open spec fn index_of(s: Seq<TrackRecord>, id: TrackId) -> int {
    choose|i: int| first_with(s, id, i)
}

/// A track after one more observation at `tick`, made in `mode`, with
/// `profile`.
pub open spec fn observed(r: TrackRecord, tick: u64, mode: ObservationMode, profile: AcousticProfile) -> TrackRecord {
    TrackRecord {
        observations: sat_add32(r.observations, 1),
        last_tick: tick,
        mode,
        evidence: with_profile(r.evidence, profile),
        ..r
    }
}

/// The track opened by a first observation.
pub open spec fn opened(id: u64, tick: u64, mode: ObservationMode, profile: AcousticProfile) -> TrackRecord {
    TrackRecord {
        id: TrackId(id),
        observations: 1,
        last_tick: tick,
        mode,
        shared: false,
        evidence: with_profile(Evidence { merchant: 0, escort: 0 }, profile),
    }
}

/// `b` merged into `a`: the id of `a`, both counts of observations and of
/// evidence summed (saturating), shared if either was, and the latest
/// observation with its mode.
pub open spec fn merged(a: TrackRecord, b: TrackRecord) -> TrackRecord {
    let newer = b.last_tick > a.last_tick;
    TrackRecord {
        id: a.id,
        observations: sat_add32(a.observations, b.observations),
        last_tick: if newer { b.last_tick } else { a.last_tick },
        mode: if newer { b.mode } else { a.mode },
        shared: a.shared || b.shared,
        evidence: Evidence {
            merchant: sat_add(a.evidence.merchant, b.evidence.merchant),
            escort: sat_add(a.evidence.escort, b.evidence.escort),
        },
    }
}

/// Why merging `secondary` into `primary` is refused, if it is: a track
/// cannot be merged into itself, both must exist (the primary is looked up
/// first), and their bearings must lie within the merge arc.
pub open spec fn merge_refusal(s: Seq<TrackRecord>, primary: TrackId, secondary: TrackId, within_arc: bool) -> Option<TrackError> {
    if primary == secondary {
        Some(TrackError::InvalidMerge)
    } else if !holds_id(s, primary) {
        Some(TrackError::NotFound(primary))
    } else if !holds_id(s, secondary) {
        Some(TrackError::NotFound(secondary))
    } else if !within_arc {
        Some(TrackError::InvalidMerge)
    } else {
        None
    }
}

/// The tracks after a merge: the secondary leaves, the primary takes its
/// place merged with it, every other track stays in order.
pub open spec fn after_merge(s: Seq<TrackRecord>, primary: TrackId, secondary: TrackId) -> Seq<TrackRecord> {
    let p = index_of(s, primary);
    let q = index_of(s, secondary);
    let at = if q < p { p - 1 } else { p };
    s.remove(q).update(at, merged(s[p], s[q]))
}

/// A track heard at `tick` in `mode` may take that observation unless it was
/// already observed in the same mode at the same tick, and only while its
/// last observation is at most the association window old.
pub open spec fn can_take(r: TrackRecord, tick: u64, mode: ObservationMode) -> bool {
    &&& !(r.last_tick == tick && r.mode == mode)
    &&& sat_sub64(tick, r.last_tick) <= ASSOCIATION_WINDOW_TICKS
}

/// The positions, in increasing order, among the first `n` tracks, of those
/// that may take an observation at `tick` in `mode`.
pub open spec fn takers(s: Seq<TrackRecord>, tick: u64, mode: ObservationMode, n: nat) -> Seq<usize>
    decreases n,
{
    if n == 0 {
        Seq::empty()
    } else {
        let before = takers(s, tick, mode, (n - 1) as nat);
        if can_take(s[n - 1], tick, mode) {
            before.push((n - 1) as usize)
        } else {
            before
        }
    }
}

/// A track is kept while its last observation is at most the lifetime old.
pub open spec fn recent(tick: u64) -> spec_fn(TrackRecord) -> bool {
    |r: TrackRecord| sat_sub64(tick, r.last_tick) <= TRACK_LIFETIME_TICKS
}

/// The tracks among the first `n` that are recent at `tick` and flagged
/// confident, in order.
pub open spec fn survivors(s: Seq<TrackRecord>, confident: Seq<bool>, tick: u64, n: nat) -> Seq<TrackRecord>
    decreases n,
{
    if n == 0 {
        Seq::empty()
    } else {
        let before = survivors(s, confident, tick, (n - 1) as nat);
        if recent(tick)(s[n - 1]) && confident[n - 1] {
            before.push(s[n - 1])
        } else {
            before
        }
    }
}

/// Whether a track is shared with the crew.
pub open spec fn is_shared() -> spec_fn(TrackRecord) -> bool {
    |r: TrackRecord| r.shared
}

/// The first track carrying an id is unique.
pub proof fn lemma_first_with_unique(s: Seq<TrackRecord>, id: TrackId, i: int, j: int)
    requires
        first_with(s, id, i),
        first_with(s, id, j),
    ensures
        i == j,
{
    if i < j {
        assert(s[i].id != id);
    } else if j < i {
        assert(s[j].id != id);
    }
}

/// A first position found is the one `index_of` names.
proof fn lemma_index_of(s: Seq<TrackRecord>, id: TrackId, i: int)
    requires
        first_with(s, id, i),
    ensures
        index_of(s, id) == i,
{
    let k = index_of(s, id);
    assert(first_with(s, id, k));
    lemma_first_with_unique(s, id, i, k);
}

/// The position of the first track carrying `id`.
fn find(tracks: &Vec<TrackRecord>, id: TrackId) -> (r: Option<usize>)
    ensures
        match r {
            Some(i) => first_with(tracks@, id, i as int) && index_of(tracks@, id) == i,
            None => !holds_id(tracks@, id),
        },
{
    let mut i: usize = 0;
    while i < tracks.len()
        invariant
            i <= tracks.len(),
            forall|j: int| 0 <= j < i ==> #[trigger] tracks@[j].id != id,
        decreases tracks.len() - i,
    {
        if tracks[i].id == id {
            proof {
                lemma_index_of(tracks@, id, i as int);
            }
            return Some(i);
        }
        i += 1;
    }
    None
}

impl Tracker {
    /// No track; the first one opened gets id zero.
    pub fn new() -> (r: Tracker)
        ensures
            r@.tracks == Seq::<TrackRecord>::empty(),
            r@.next_id == 0,
    {
        Tracker { tracks: Vec::new(), next_id: 0 }
    }

    /// The tracks, in the order they were opened.
    pub fn tracks(&self) -> (r: &Vec<TrackRecord>)
        ensures
            r@ == self@.tracks,
    {
        &self.tracks
    }

    /// The tracks shared with the crew, in order.
    pub fn shared_tracks(&self) -> (r: Vec<TrackRecord>)
        ensures
            r@ == self@.tracks.filter(is_shared()),
    {
        let mut out: Vec<TrackRecord> = Vec::new();
        let mut i: usize = 0;
        while i < self.tracks.len()
            invariant
                i <= self.tracks.len(),
                out@ == self.tracks@.take(i as int).filter(is_shared()),
            decreases self.tracks.len() - i,
        {
            proof {
                reveal(Seq::filter);
                assert(self.tracks@.take(i + 1).drop_last() =~= self.tracks@.take(i as int));
            }
            if self.tracks[i].shared {
                out.push(self.tracks[i]);
            }
            i += 1;
        }
        proof {
            assert(self.tracks@.take(self.tracks.len() as int) =~= self.tracks@);
        }
        out
    }

    /// Shares a track with the crew, or stops sharing it.
    pub fn set_shared(&mut self, id: TrackId, shared: bool) -> (r: Result<(), TrackError>)
        ensures
            final(self)@.next_id == old(self)@.next_id,
            holds_id(old(self)@.tracks, id) ==> {
                let i = index_of(old(self)@.tracks, id);
                &&& r is Ok
                &&& final(self)@.tracks == old(self)@.tracks.update(i, TrackRecord { shared, ..old(self)@.tracks[i] })
            },
            !holds_id(old(self)@.tracks, id) ==> r == Err::<(), TrackError>(TrackError::NotFound(id))
                && final(self)@.tracks == old(self)@.tracks,
    {
        match find(&self.tracks, id) {
            Some(i) => {
                let mut record = self.tracks[i];
                record.shared = shared;
                self.tracks.set(i, record);
                Ok(())
            },
            None => Err(TrackError::NotFound(id)),
        }
    }

    /// Stops following a track.
    pub fn drop_track(&mut self, id: TrackId) -> (r: Result<(), TrackError>)
        ensures
            final(self)@.next_id == old(self)@.next_id,
            holds_id(old(self)@.tracks, id) ==> r is Ok
                && final(self)@.tracks == old(self)@.tracks.remove(index_of(old(self)@.tracks, id)),
            !holds_id(old(self)@.tracks, id) ==> r == Err::<(), TrackError>(TrackError::NotFound(id))
                && final(self)@.tracks == old(self)@.tracks,
    {
        match find(&self.tracks, id) {
            Some(i) => {
                self.tracks.remove(i);
                Ok(())
            },
            None => Err(TrackError::NotFound(id)),
        }
    }

    /// Merges `secondary` into `primary`. `within_arc` says whether the
    /// bearings of the two tracks lie within the merge arc of each other.
    pub fn merge(&mut self, primary: TrackId, secondary: TrackId, within_arc: bool) -> (r: Result<(), TrackError>)
        ensures
            final(self)@.next_id == old(self)@.next_id,
            match merge_refusal(old(self)@.tracks, primary, secondary, within_arc) {
                Some(e) => r == Err::<(), TrackError>(e) && final(self)@.tracks == old(self)@.tracks,
                None => r is Ok && final(self)@.tracks == after_merge(old(self)@.tracks, primary, secondary),
            },
            r is Ok ==> ({
                let s = old(self)@.tracks;
                let p = index_of(s, primary);
                let q = index_of(s, secondary);
                let at = if q < p { p - 1 } else { p };
                &&& final(self)@.tracks.len() == s.len() - 1
                &&& final(self)@.tracks[at].id == primary
                &&& final(self)@.tracks[at].shared == (s[p].shared || s[q].shared)
            }),
    {
        if primary == secondary {
            return Err(TrackError::InvalidMerge);
        }
        let p = match find(&self.tracks, primary) {
            Some(i) => i,
            None => return Err(TrackError::NotFound(primary)),
        };
        let q = match find(&self.tracks, secondary) {
            Some(i) => i,
            None => return Err(TrackError::NotFound(secondary)),
        };
        if !within_arc {
            return Err(TrackError::InvalidMerge);
        }
        let ghost before = self.tracks@;
        let a = self.tracks[p];
        let b = self.tracks.remove(q);
        let at = if q < p { p - 1 } else { p };
        let newer = b.last_tick > a.last_tick;
        let mut evidence = a.evidence;
        evidence.absorb(&b.evidence);
        let record = TrackRecord {
            id: a.id,
            observations: a.observations.saturating_add(b.observations),
            last_tick: if newer { b.last_tick } else { a.last_tick },
            mode: if newer { b.mode } else { a.mode },
            shared: a.shared || b.shared,
            evidence,
        };
        assert(record == merged(before[p as int], before[q as int]));
        self.tracks.set(at, record);
        Ok(())
    }

    /// The positions of the tracks that may take an observation made at
    /// `tick` in `mode`, in increasing order.
    pub fn candidates(&self, tick: u64, mode: ObservationMode) -> (r: Vec<usize>)
        ensures
            r@ == takers(self@.tracks, tick, mode, self@.tracks.len()),
    {
        let mut out: Vec<usize> = Vec::new();
        let mut i: usize = 0;
        while i < self.tracks.len()
            invariant
                i <= self.tracks.len(),
                out@ == takers(self.tracks@, tick, mode, i as nat),
            decreases self.tracks.len() - i,
        {
            let r = self.tracks[i];
            let same = r.last_tick == tick && r.mode == mode;
            if !same && tick.saturating_sub(r.last_tick) <= ASSOCIATION_WINDOW_TICKS {
                out.push(i);
            }
            i += 1;
        }
        out
    }

    /// Records an observation at `tick` in `mode` with `profile`: on the
    /// track at `candidate` when one was chosen, else on a new track that
    /// gets the next id (which then moves on, wrapping around). Returns the
    /// id of the track that took it.
    pub fn record(&mut self, candidate: Option<usize>, tick: u64, mode: ObservationMode, profile: AcousticProfile) -> (r: TrackId)
        requires
            candidate matches Some(i) ==> i < old(self)@.tracks.len(),
        ensures
            match candidate {
                Some(i) => {
                    &&& r == old(self)@.tracks[i as int].id
                    &&& final(self)@.tracks == old(self)@.tracks.update(i as int, observed(old(self)@.tracks[i as int], tick, mode, profile))
                    &&& final(self)@.next_id == old(self)@.next_id
                },
                None => {
                    &&& r == TrackId(old(self)@.next_id)
                    &&& final(self)@.tracks == old(self)@.tracks.push(opened(old(self)@.next_id, tick, mode, profile))
                    &&& final(self)@.next_id == (if old(self)@.next_id == u64::MAX { 0 } else { (old(self)@.next_id + 1) as u64 })
                },
            },
    {
        match candidate {
            Some(i) => {
                let mut record = self.tracks[i];
                record.observations = record.observations.saturating_add(1);
                record.last_tick = tick;
                record.mode = mode;
                record.evidence.add(profile);
                self.tracks.set(i, record);
                record.id
            },
            None => {
                let id = TrackId(self.next_id);
                self.next_id = self.next_id.wrapping_add(1);
                let mut evidence = Evidence::new();
                evidence.add(profile);
                self.tracks.push(TrackRecord { id, observations: 1, last_tick: tick, mode, shared: false, evidence });
                id
            },
        }
    }

    /// Ages the book at `tick`: a track is kept while its last observation
    /// is at most the lifetime old and its estimate still carries confidence
    /// (`confident`, one flag per track in order); the kept tracks stay in
    /// order and none is added.
    pub fn update(&mut self, tick: u64, confident: &Vec<bool>)
        requires
            confident@.len() == old(self)@.tracks.len(),
        ensures
            final(self)@.tracks == survivors(old(self)@.tracks, confident@, tick, old(self)@.tracks.len()),
            final(self)@.next_id == old(self)@.next_id,
    {
        let mut kept: Vec<TrackRecord> = Vec::new();
        let mut i: usize = 0;
        while i < self.tracks.len()
            invariant
                i <= self.tracks.len(),
                confident@.len() == self.tracks@.len(),
                kept@ == survivors(self.tracks@, confident@, tick, i as nat),
            decreases self.tracks.len() - i,
        {
            if tick.saturating_sub(self.tracks[i].last_tick) <= TRACK_LIFETIME_TICKS && confident[i] {
                kept.push(self.tracks[i]);
            }
            i += 1;
        }
        self.tracks = kept;
    }
}

/// A successful merge leaves one track fewer, and the primary id is still
/// followed, at the place of the primary (one earlier when the secondary
/// came before it), carrying the pooled evidence.
pub proof fn lemma_merge_shrinks(s: Seq<TrackRecord>, primary: TrackId, secondary: TrackId)
    requires
        merge_refusal(s, primary, secondary, true) is None,
    ensures
        after_merge(s, primary, secondary).len() == s.len() - 1,
        holds_id(after_merge(s, primary, secondary), primary),
        ({
            let p = index_of(s, primary);
            let q = index_of(s, secondary);
            let at = if q < p { p - 1 } else { p };
            &&& after_merge(s, primary, secondary)[at].id == primary
            &&& after_merge(s, primary, secondary)[at].evidence.merchant == sat_add(s[p].evidence.merchant, s[q].evidence.merchant)
            &&& after_merge(s, primary, secondary)[at].evidence.escort == sat_add(s[p].evidence.escort, s[q].evidence.escort)
        }),
{
    let i = choose|i: int| 0 <= i < s.len() && #[trigger] s[i].id == primary;
    let j = choose|j: int| 0 <= j < s.len() && #[trigger] s[j].id == secondary;
    lemma_first_exists(s, primary, i);
    lemma_first_exists(s, secondary, j);
    let p = index_of(s, primary);
    let q = index_of(s, secondary);
    assert(p != q);
    let at = if q < p { p - 1 } else { p };
    assert(after_merge(s, primary, secondary)[at].id == primary);
}

/// Some track carrying `id` means a first one.
proof fn lemma_first_exists(s: Seq<TrackRecord>, id: TrackId, i: int)
    requires
        0 <= i < s.len(),
        s[i].id == id,
    ensures
        first_with(s, id, index_of(s, id)),
    decreases i,
{
    if forall|j: int| 0 <= j < i ==> #[trigger] s[j].id != id {
        assert(first_with(s, id, i));
    } else {
        let j = choose|j: int| 0 <= j < i && #[trigger] s[j].id == id;
        lemma_first_exists(s, id, j);
    }
}

/// Once shared, a track is among the shared ones; once unshared, it is not
/// listed by that record any more.
pub proof fn lemma_shared_listed(s: Seq<TrackRecord>, i: int, shared: bool)
    requires
        0 <= i < s.len(),
    ensures
        ({
            let after = s.update(i, TrackRecord { shared, ..s[i] });
            &&& shared ==> after.filter(is_shared()).contains(after[i])
            &&& !shared ==> !after.filter(is_shared()).contains(after[i])
        }),
{
    broadcast use vstd::seq_lib::group_filter_ensures;
    let after = s.update(i, TrackRecord { shared, ..s[i] });
    if shared {
        after.lemma_filter_contains(is_shared(), i);
    } else if after.filter(is_shared()).contains(after[i]) {
        let k = choose|k: int| 0 <= k < after.filter(is_shared()).len() && after.filter(is_shared())[k] == after[i];
        after.lemma_filter_pred(is_shared(), k);
    }
}

/// Ageing keeps, in order, exactly the tracks that are recent and still
/// confident: every track kept is one of them, every one of them is kept,
/// and none is added.
pub proof fn lemma_update_keeps(s: Seq<TrackRecord>, confident: Seq<bool>, tick: u64, n: nat)
    requires
        n <= s.len(),
        confident.len() == s.len(),
    ensures
        survivors(s, confident, tick, n).len() <= n,
        forall|x: TrackRecord| #[trigger] survivors(s, confident, tick, n).contains(x) ==>
            exists|k: int| 0 <= k < n && s[k] == x && recent(tick)(s[k]) && confident[k],
        forall|k: int| 0 <= k < n && recent(tick)(s[k]) && confident[k] ==>
            survivors(s, confident, tick, n).contains(#[trigger] s[k]),
    decreases n,
{
    if n > 0 {
        let m = (n - 1) as nat;
        lemma_update_keeps(s, confident, tick, m);
        let before = survivors(s, confident, tick, m);
        let now = survivors(s, confident, tick, n);
        assert forall|x: TrackRecord| #[trigger] now.contains(x) implies
            exists|k: int| 0 <= k < n && s[k] == x && recent(tick)(s[k]) && confident[k] by {
            if before.contains(x) {
            } else {
                let j = choose|j: int| 0 <= j < now.len() && now[j] == x;
                assert(now == before.push(s[m as int]));
                assert(j == before.len());
                assert(s[m as int] == x);
            }
        }
        assert forall|k: int| 0 <= k < n && recent(tick)(s[k]) && confident[k] implies
            now.contains(#[trigger] s[k]) by {
            if k < m {
                assert(before.contains(s[k]));
                let j = choose|j: int| 0 <= j < before.len() && before[j] == s[k];
                if recent(tick)(s[m as int]) && confident[m as int] {
                    assert(now[j] == s[k]);
                }
            } else {
                assert(now == before.push(s[k]));
                assert(now[before.len() as int] == s[k]);
            }
        }
    }
}

/// No two tracks share an id, and every id was handed out before `next_id`.
pub open spec fn ids_fresh(tracks: Seq<TrackRecord>, next_id: u64) -> bool {
    &&& forall|i: int, j: int| 0 <= i < j < tracks.len() ==> #[trigger] tracks[i].id != #[trigger] tracks[j].id
    &&& forall|i: int| 0 <= i < tracks.len() ==> (#[trigger] tracks[i]).id.0 < next_id
}

/// Recording an observation keeps ids distinct and below the next id: it
/// either updates one track, whose id stays, or opens one track under the
/// next id, which then moves on (short of the last id).
pub proof fn lemma_record_keeps_ids_fresh(
    tracks: Seq<TrackRecord>,
    next_id: u64,
    candidate: Option<usize>,
    tick: u64,
    mode: ObservationMode,
    profile: AcousticProfile,
)
    requires
        ids_fresh(tracks, next_id),
        candidate matches Some(i) ==> i < tracks.len(),
        candidate is None ==> next_id < u64::MAX,
    ensures
        match candidate {
            Some(i) => ids_fresh(tracks.update(i as int, observed(tracks[i as int], tick, mode, profile)), next_id),
            None => ids_fresh(tracks.push(opened(next_id, tick, mode, profile)), (next_id + 1) as u64),
        },
{
    match candidate {
        Some(i) => {
            let t = tracks.update(i as int, observed(tracks[i as int], tick, mode, profile));
            assert forall|a: int| 0 <= a < t.len() implies (#[trigger] t[a]).id == tracks[a].id by {}
            assert forall|a: int, b: int| 0 <= a < b < t.len() implies #[trigger] t[a].id != #[trigger] t[b].id by {
                assert(t[a].id == tracks[a].id && t[b].id == tracks[b].id);
            }
        },
        None => {
            let t = tracks.push(opened(next_id, tick, mode, profile));
            assert forall|a: int, b: int| 0 <= a < b < t.len() implies #[trigger] t[a].id != #[trigger] t[b].id by {
                if b == tracks.len() {
                    assert(t[a] == tracks[a]);
                } else {
                    assert(t[a] == tracks[a] && t[b] == tracks[b]);
                }
            }
            assert forall|a: int| 0 <= a < t.len() implies (#[trigger] t[a]).id.0 < next_id + 1 by {
                if a < tracks.len() {
                    assert(t[a] == tracks[a]);
                }
            }
        },
    }
}

/// Sharing, dropping and merging keep ids distinct and below the next id.
pub proof fn lemma_edits_keep_ids_fresh(tracks: Seq<TrackRecord>, next_id: u64, id: TrackId, other: TrackId, shared: bool)
    requires
        ids_fresh(tracks, next_id),
    ensures
        holds_id(tracks, id) ==> ids_fresh(
            tracks.update(index_of(tracks, id), TrackRecord { shared, ..tracks[index_of(tracks, id)] }),
            next_id,
        ),
        holds_id(tracks, id) ==> ids_fresh(tracks.remove(index_of(tracks, id)), next_id),
        merge_refusal(tracks, id, other, true) is None ==> ids_fresh(after_merge(tracks, id, other), next_id),
{
    if holds_id(tracks, id) {
        let w = choose|w: int| 0 <= w < tracks.len() && #[trigger] tracks[w].id == id;
        lemma_first_exists(tracks, id, w);
        let k = index_of(tracks, id);
        let t = tracks.update(k, TrackRecord { shared, ..tracks[k] });
        assert forall|a: int, b: int| 0 <= a < b < t.len() implies #[trigger] t[a].id != #[trigger] t[b].id by {
            assert(t[a].id == tracks[a].id && t[b].id == tracks[b].id);
        }
        assert forall|a: int| 0 <= a < t.len() implies (#[trigger] t[a]).id.0 < next_id by {
            assert(t[a].id == tracks[a].id);
        }
        let d = tracks.remove(k);
        assert forall|a: int, b: int| 0 <= a < b < d.len() implies #[trigger] d[a].id != #[trigger] d[b].id by {
            let x = if a < k { a } else { a + 1 };
            let y = if b < k { b } else { b + 1 };
            assert(d[a] == tracks[x] && d[b] == tracks[y]);
        }
        assert forall|a: int| 0 <= a < d.len() implies (#[trigger] d[a]).id.0 < next_id by {
            let x = if a < k { a } else { a + 1 };
            assert(d[a] == tracks[x]);
        }
    }
    if merge_refusal(tracks, id, other, true) is None {
        let wp = choose|w: int| 0 <= w < tracks.len() && #[trigger] tracks[w].id == id;
        let wq = choose|w: int| 0 <= w < tracks.len() && #[trigger] tracks[w].id == other;
        lemma_first_exists(tracks, id, wp);
        lemma_first_exists(tracks, other, wq);
        let p = index_of(tracks, id);
        let q = index_of(tracks, other);
        let at = if q < p { p - 1 } else { p };
        let d = tracks.remove(q);
        let m = d.update(at, merged(tracks[p], tracks[q]));
        assert(m == after_merge(tracks, id, other));
        assert forall|a: int| 0 <= a < d.len() implies (#[trigger] d[a]).id == tracks[if a < q { a } else { a + 1 }].id by {}
        assert forall|a: int| 0 <= a < m.len() implies (#[trigger] m[a]).id == tracks[if a < q { a } else { a + 1 }].id by {
            assert(d[a].id == tracks[if a < q { a } else { a + 1 }].id);
            if a == at {
                assert(m[a].id == tracks[p].id);
            }
        }
        assert forall|a: int, b: int| 0 <= a < b < m.len() implies #[trigger] m[a].id != #[trigger] m[b].id by {
            let x = if a < q { a } else { a + 1 };
            let y = if b < q { b } else { b + 1 };
            assert(m[a].id == tracks[x].id && m[b].id == tracks[y].id);
        }
        assert forall|a: int| 0 <= a < m.len() implies (#[trigger] m[a]).id.0 < next_id by {
            let x = if a < q { a } else { a + 1 };
            assert(m[a].id == tracks[x].id);
        }
    }
}

/// What a successful merge does: the book loses one track; the primary keeps
/// its id and takes the place it had (one earlier when the secondary came
/// before it); it is shared when either track was; its observation counts
/// and evidence are the sums of both (stopping at the largest count); it
/// keeps the latest observation and that observation's mode; every other
/// track stays, in order.
pub proof fn lemma_merge_pools(s: Seq<TrackRecord>, primary: TrackId, secondary: TrackId)
    requires
        merge_refusal(s, primary, secondary, true) is None,
    ensures
        ({
            let m = after_merge(s, primary, secondary);
            let p = index_of(s, primary);
            let q = index_of(s, secondary);
            let at = if q < p { p - 1 } else { p };
            let a = s[p];
            let b = s[q];
            &&& 0 <= p < s.len() && 0 <= q < s.len() && p != q
            &&& a.id == primary && b.id == secondary
            &&& m.len() == s.len() - 1
            &&& m[at].id == primary
            &&& m[at].shared == (a.shared || b.shared)
            &&& (a.shared ==> m[at].shared)
            &&& m[at].observations == (if a.observations + b.observations > u32::MAX { u32::MAX as int } else { a.observations + b.observations })
            &&& m[at].last_tick == (if b.last_tick > a.last_tick { b.last_tick } else { a.last_tick })
            &&& m[at].mode == (if b.last_tick > a.last_tick { b.mode } else { a.mode })
            &&& m[at].evidence.merchant == (if a.evidence.merchant + b.evidence.merchant > 255 { 255 } else { a.evidence.merchant + b.evidence.merchant })
            &&& m[at].evidence.escort == (if a.evidence.escort + b.evidence.escort > 255 { 255 } else { a.evidence.escort + b.evidence.escort })
            &&& forall|k: int| 0 <= k < m.len() && k != at ==> #[trigger] m[k] == s[if k < q { k } else { k + 1 }]
        }),
{
    let i = choose|i: int| 0 <= i < s.len() && #[trigger] s[i].id == primary;
    let j = choose|j: int| 0 <= j < s.len() && #[trigger] s[j].id == secondary;
    lemma_first_exists(s, primary, i);
    lemma_first_exists(s, secondary, j);
}

/// What recording does to a track: an observation on an existing track
/// counts one more observation (stopping at the largest count), takes the
/// observation's tick and mode and counts its profile once, keeping the id
/// and the sharing; a first observation opens an unshared track with one
/// observation, the tick and mode, and only that profile counted.
pub proof fn lemma_record_fields(r: TrackRecord, id: u64, tick: u64, mode: ObservationMode, profile: AcousticProfile)
    ensures
        observed(r, tick, mode, profile).id == r.id,
        observed(r, tick, mode, profile).shared == r.shared,
        observed(r, tick, mode, profile).observations == (if r.observations == u32::MAX { u32::MAX as int } else { r.observations + 1 }),
        observed(r, tick, mode, profile).last_tick == tick,
        observed(r, tick, mode, profile).mode == mode,
        observed(r, tick, mode, profile).evidence == with_profile(r.evidence, profile),
        opened(id, tick, mode, profile).id == TrackId(id),
        !opened(id, tick, mode, profile).shared,
        opened(id, tick, mode, profile).observations == 1,
        opened(id, tick, mode, profile).last_tick == tick,
        opened(id, tick, mode, profile).mode == mode,
        opened(id, tick, mode, profile).evidence.merchant == (if profile == AcousticProfile::HighFrequency { 0int } else { 1 }),
        opened(id, tick, mode, profile).evidence.escort == (if profile == AcousticProfile::LowFrequency { 0int } else { 1 }),
{
}

} // verus!
