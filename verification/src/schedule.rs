//! Learning records and the due-set predicate.
//!
//! A [`LearningRecord`] is the scheduling state for one attempt at memorising
//! one song.  [`is_due`] decides review eligibility at a given instant, with
//! an optional lookahead window, and [`advance_record`] is the one-step level
//! transition: a record below the top level climbs one level, a record at the
//! top level graduates.

use vstd::prelude::*;

verus! {

/// Seconds a freshly created (or freshly reset) record waits before its
/// first review.
pub const WARM_UP_SECONDS: u64 = 300;

/// Seconds in a day: the unit of the level-up path.
pub const DAY_SECONDS: u64 = 86400;

/// Mathematical model of a learning record.
#[verifier::ext_equal]
pub ghost struct RecordV {
    pub id: Seq<char>,
    pub song_id: Seq<char>,
    pub level: int,
    pub created_at: int,
    pub updated_at: int,
    pub last_level_up_at: int,
    pub level_up_path: Seq<int>,
    pub graduated: bool,
}

/// The scheduling state for one attempt at memorising one song.
pub struct LearningRecord {
    /// Unique identifier, immutable after creation.
    pub id: String,
    /// The song being learned; several records may share it over time.
    pub song_id: String,
    /// Position on the interval curve; `0` is the start.
    pub level: i64,
    /// Creation instant (seconds since epoch).
    pub created_at: i64,
    /// Instant of the latest mutation.
    pub updated_at: i64,
    /// Instant of the latest level increment or graduation; `0` means the
    /// record never levelled up.
    pub last_level_up_at: i64,
    /// Wait interval in days for each level, fixed at creation.
    pub level_up_path: Vec<i64>,
    /// Once true, the record is inert: excluded from due sets and rejected
    /// by the transition processor.
    pub graduated: bool,
}

impl View for LearningRecord {
    type V = RecordV;

    open spec fn view(&self) -> RecordV {
        RecordV {
            id: self.id@,
            song_id: self.song_id@,
            level: self.level as int,
            created_at: self.created_at as int,
            updated_at: self.updated_at as int,
            last_level_up_at: self.last_level_up_at as int,
            level_up_path: self.level_up_path@.map_values(|x: i64| x as int),
            graduated: self.graduated,
        }
    }
}

impl DeepView for LearningRecord {
    type V = RecordV;

    open spec fn deep_view(&self) -> RecordV {
        self.view()
    }
}

/// Whether `r` is eligible for review at instant `now`, looking
/// `lookahead` seconds into the future.  A record is due if it has not
/// graduated and one of three clauses holds: a record still at level zero
/// waits out the warm-up buffer after its creation (or after its latest
/// reset), and a record above level zero waits out its current level's
/// interval, in days, since its latest level-up.  A level outside the
/// stored path makes the third clause false.
pub open spec fn spec_is_due(r: RecordV, now: int, lookahead: int) -> bool {
    &&& !r.graduated
    &&& {
        let t = now + lookahead;
        ||| (r.last_level_up_at == 0 && r.level == 0 && t >= r.updated_at + WARM_UP_SECONDS)
        ||| (r.last_level_up_at > 0 && r.level == 0 && t >= r.last_level_up_at + WARM_UP_SECONDS)
        ||| (r.level > 0 && r.level < r.level_up_path.len() && t >= r.last_level_up_at
            + r.level_up_path[r.level] * DAY_SECONDS)
    }
}

/// Decide [`spec_is_due`] for a record.
pub fn is_due(r: &LearningRecord, now: i64, lookahead: i64) -> (b: bool)
    ensures
        b == spec_is_due(r@, now as int, lookahead as int),
{
    if r.graduated {
        return false;
    }
    let t: i128 = now as i128 + lookahead as i128;
    if r.last_level_up_at == 0 && r.level == 0 && t >= r.updated_at as i128 + WARM_UP_SECONDS as i128 {
        return true;
    }
    if r.last_level_up_at > 0 && r.level == 0 && t >= r.last_level_up_at as i128
        + WARM_UP_SECONDS as i128 {
        return true;
    }
    if r.level > 0 && (r.level as u64) < (r.level_up_path.len() as u64) {
        let wait: i128 = r.level_up_path[r.level as usize] as i128 * DAY_SECONDS as i128;
        if t >= r.last_level_up_at as i128 + wait {
            return true;
        }
    }
    false
}

/// Looking `k` seconds ahead from `now` selects exactly the records that
/// would be due at `now + k` with no lookahead.
pub proof fn lemma_lookahead_shift(r: RecordV, now: int, k: int)
    ensures
        spec_is_due(r, now, k) == spec_is_due(r, now + k, 0),
{
}

/// The record after one successful review at instant `now`: at
/// `max_level - 1` or above it graduates with its level unchanged; below
/// that its level climbs by exactly one.  Either way both timestamps are
/// refreshed; every other field is kept.
pub open spec fn spec_advance(r: RecordV, now: int, max_level: int) -> RecordV {
    if r.level >= max_level - 1 {
        RecordV { graduated: true, updated_at: now, last_level_up_at: now, ..r }
    } else {
        RecordV { level: r.level + 1, updated_at: now, last_level_up_at: now, ..r }
    }
}

/// Apply [`spec_advance`] to a record.
pub fn advance_record(r: LearningRecord, now: i64, max_level: i64) -> (r2: LearningRecord)
    requires
        !r.graduated,
    ensures
        r2@ == spec_advance(r@, now as int, max_level as int),
        r2.id == r.id,
        r2.song_id == r.song_id,
        r2.level_up_path == r.level_up_path,
        r2.created_at == r.created_at,
{
    if r.level as i128 >= max_level as i128 - 1 {
        LearningRecord { updated_at: now, last_level_up_at: now, graduated: true, ..r }
    } else {
        LearningRecord { level: r.level + 1, updated_at: now, last_level_up_at: now, ..r }
    }
}

/// A field-for-field copy of a record; its model is the same.
pub fn clone_record(r: &LearningRecord) -> (c: LearningRecord)
    ensures
        c@ == r@,
{
    let mut p: Vec<i64> = Vec::new();
    let n = r.level_up_path.len();
    let mut i: usize = 0;
    while i < n
        invariant
            n == r.level_up_path@.len(),
            i <= n,
            p@ == r.level_up_path@.take(i as int),
        decreases n - i,
    {
        p.push(r.level_up_path[i]);
        proof {
            assert(p@ =~= r.level_up_path@.take(i + 1));
        }
        i = i + 1;
    }
    proof {
        assert(r.level_up_path@.take(n as int) =~= r.level_up_path@);
    }
    let c = LearningRecord {
        id: r.id.clone(),
        song_id: r.song_id.clone(),
        level: r.level,
        created_at: r.created_at,
        updated_at: r.updated_at,
        last_level_up_at: r.last_level_up_at,
        level_up_path: p,
        graduated: r.graduated,
    };
    proof {
        assert(c@ =~~= r@);
    }
    c
}

} // verus!
