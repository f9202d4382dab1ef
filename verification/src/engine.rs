//! The enrollment decision engine and the level-transition processor, over
//! an in-memory store of learning records.
//!
//! Both engines are all-or-nothing: validation happens before any mutation,
//! and a rejected batch leaves the store exactly as it was.  The SQLite-backed
//! commands in [`crate::commands`] drive the same decision logic against the
//! database.

use vstd::prelude::*;

use crate::error::AppError;
use crate::schedule::{spec_advance, advance_record, LearningRecord, RecordV};
use crate::text::{join_strings, spec_join};

verus! {

/// Outcome of a batch enrollment: which records were created, which songs
/// were skipped because a record is still active, and which were left alone
/// because their record graduated and no relearn was requested.
#[derive(Debug)]
pub struct BatchOutcome {
    pub created_ids: Vec<String>,
    pub skipped_song_ids: Vec<String>,
    pub already_graduated_song_ids: Vec<String>,
}

/// Outcome of a batch level transition.
#[derive(Debug)]
pub struct LevelUpOutcome {
    pub leveled_up_count: u64,
    pub graduated_count: u64,
    pub total_processed: u64,
}

/// Whether `l` holds `s`.
pub open spec fn spec_contains(l: Seq<Seq<char>>, s: Seq<char>) -> bool {
    exists|i: int| 0 <= i < l.len() && l[i] == s
}

/// Whether a non-graduated record for `song` exists.
pub open spec fn spec_has_active(rs: Seq<RecordV>, song: Seq<char>) -> bool {
    exists|i: int| 0 <= i < rs.len() && rs[i].song_id == song && !rs[i].graduated
}

/// Whether a graduated record for `song` exists.
pub open spec fn spec_has_graduated(rs: Seq<RecordV>, song: Seq<char>) -> bool {
    exists|i: int| 0 <= i < rs.len() && rs[i].song_id == song && rs[i].graduated
}

/// What enrollment does for one song, given the state of its records.
#[derive(Debug, PartialEq, Eq, Structural)]
pub enum EnrollDecision {
    /// An active record exists: leave it alone and report the song skipped.
    Skip,
    /// Only graduated records exist and a relearn was requested: create a
    /// new record at the relearn start level.
    Relearn,
    /// Only graduated records exist and no relearn was requested: report
    /// the song as already graduated.
    AlreadyGraduated,
    /// No record at all: create a fresh record at level zero.
    CreateNew,
}

/// The enrollment decision table of the engine: an active record wins,
/// then graduation (split by the relearn request), then a fresh start.
pub open spec fn spec_enroll_decision(
    has_active: bool,
    has_graduated: bool,
    relearn: bool,
) -> EnrollDecision {
    if has_active {
        EnrollDecision::Skip
    } else if has_graduated {
        if relearn {
            EnrollDecision::Relearn
        } else {
            EnrollDecision::AlreadyGraduated
        }
    } else {
        EnrollDecision::CreateNew
    }
}

/// Decide [`spec_enroll_decision`].
pub fn enroll_decision(has_active: bool, has_graduated: bool, relearn: bool) -> (d: EnrollDecision)
    ensures
        d == spec_enroll_decision(has_active, has_graduated, relearn),
{
    if has_active {
        EnrollDecision::Skip
    } else if has_graduated {
        if relearn {
            EnrollDecision::Relearn
        } else {
            EnrollDecision::AlreadyGraduated
        }
    } else {
        EnrollDecision::CreateNew
    }
}

/// A record as enrollment creates it: fresh timestamps, not graduated.
pub open spec fn spec_new_record(
    id: Seq<char>,
    song: Seq<char>,
    level: int,
    now: int,
    last: int,
    path: Seq<int>,
) -> RecordV {
    RecordV {
        id: id,
        song_id: song,
        level: level,
        created_at: now,
        updated_at: now,
        last_level_up_at: last,
        level_up_path: path,
        graduated: false,
    }
}

/// Everything a batch enrollment produces: the final store and the three
/// outcome lists.
#[verifier::ext_equal]
pub ghost struct EnrollResultV {
    pub records: Seq<RecordV>,
    pub created: Seq<Seq<char>>,
    pub skipped: Seq<Seq<char>>,
    pub graduated: Seq<Seq<char>>,
}

/// The enrollment engine, song by song in order.  Each song is classified
/// against the store as the earlier songs left it, so a song enrolled twice
/// in one batch is skipped the second time.  A created record takes the
/// next unused id from `new_ids` and a copy of `path`; a fresh record
/// starts at level `0` with no level-up instant, a relearn record at
/// `start_level` with its level-up instant set to `now`.
pub open spec fn spec_enroll(
    rs: Seq<RecordV>,
    songs: Seq<Seq<char>>,
    relearn: Seq<Seq<char>>,
    start_level: int,
    now: int,
    new_ids: Seq<Seq<char>>,
    path: Seq<int>,
) -> EnrollResultV
    decreases songs.len(),
{
    if songs.len() == 0 {
        EnrollResultV { records: rs, created: Seq::empty(), skipped: Seq::empty(), graduated: Seq::empty() }
    } else {
        let song = songs[0];
        let d = spec_enroll_decision(
            spec_has_active(rs, song),
            spec_has_graduated(rs, song),
            spec_contains(relearn, song),
        );
        if d == EnrollDecision::Skip {
            let r = spec_enroll(rs, songs.drop_first(), relearn, start_level, now, new_ids, path);
            EnrollResultV { skipped: seq![song] + r.skipped, ..r }
        } else if d == EnrollDecision::AlreadyGraduated {
            let r = spec_enroll(rs, songs.drop_first(), relearn, start_level, now, new_ids, path);
            EnrollResultV { graduated: seq![song] + r.graduated, ..r }
        } else {
            let level = if d == EnrollDecision::Relearn {
                start_level
            } else {
                0
            };
            let last = if d == EnrollDecision::Relearn {
                now
            } else {
                0
            };
            let nr = spec_new_record(new_ids[0], song, level, now, last, path);
            let r = spec_enroll(
                rs.push(nr),
                songs.drop_first(),
                relearn,
                start_level,
                now,
                new_ids.drop_first(),
                path,
            );
            EnrollResultV { created: seq![new_ids[0]] + r.created, ..r }
        }
    }
}

/// The first song of `songs` that `existing` does not hold, if any.
pub open spec fn spec_first_missing(
    songs: Seq<Seq<char>>,
    existing: Seq<Seq<char>>,
) -> Option<Seq<char>>
    decreases songs.len(),
{
    if songs.len() == 0 {
        None
    } else if !spec_contains(existing, songs[0]) {
        Some(songs[0])
    } else {
        spec_first_missing(songs.drop_first(), existing)
    }
}

/// Whether a non-graduated record for `song` exists in the store.
pub fn has_active(records: &Vec<LearningRecord>, song: &str) -> (b: bool)
    ensures
        b == spec_has_active(records.deep_view(), song@),
{
    let ghost rs = records.deep_view();
    let n = records.len();
    let mut i: usize = 0;
    while i < n
        invariant
            n == records@.len(),
            rs == records.deep_view(),
            i <= n,
            forall|j: int| 0 <= j < i ==> !(rs[j].song_id == song@ && !rs[j].graduated),
        decreases n - i,
    {
        let r = &records[i];
        if !r.graduated && crate::text::str_eq(r.song_id.as_str(), song) {
            proof {
                assert(rs[i as int] == records@[i as int]@);
                assert(rs[i as int].song_id == song@ && !rs[i as int].graduated);
            }
            return true;
        }
        i = i + 1;
    }
    false
}

/// Whether a graduated record for `song` exists in the store.
pub fn has_graduated(records: &Vec<LearningRecord>, song: &str) -> (b: bool)
    ensures
        b == spec_has_graduated(records.deep_view(), song@),
{
    let ghost rs = records.deep_view();
    let n = records.len();
    let mut i: usize = 0;
    while i < n
        invariant
            n == records@.len(),
            rs == records.deep_view(),
            i <= n,
            forall|j: int| 0 <= j < i ==> !(rs[j].song_id == song@ && rs[j].graduated),
        decreases n - i,
    {
        let r = &records[i];
        if r.graduated && crate::text::str_eq(r.song_id.as_str(), song) {
            proof {
                assert(rs[i as int] == records@[i as int]@);
                assert(rs[i as int].song_id == song@ && rs[i as int].graduated);
            }
            return true;
        }
        i = i + 1;
    }
    false
}

/// A record as enrollment creates it.
pub fn make_record(
    id: String,
    song: String,
    level: i64,
    now: i64,
    last: i64,
    path: &Vec<i64>,
) -> (r: LearningRecord)
    ensures
        r@ == spec_new_record(
            id@,
            song@,
            level as int,
            now as int,
            last as int,
            path@.map_values(|x: i64| x as int),
        ),
{
    let mut p: Vec<i64> = Vec::new();
    let n = path.len();
    let mut i: usize = 0;
    while i < n
        invariant
            n == path@.len(),
            i <= n,
            p@ == path@.take(i as int),
        decreases n - i,
    {
        p.push(path[i]);
        proof {
            assert(p@ =~= path@.take(i + 1));
        }
        i = i + 1;
    }
    proof {
        assert(path@.take(n as int) =~= path@);
    }
    LearningRecord {
        id: id,
        song_id: song,
        level: level,
        created_at: now,
        updated_at: now,
        last_level_up_at: last,
        level_up_path: p,
        graduated: false,
    }
}

/// Whether `v` holds a string whose characters equal those of `s`, stated
/// over the deep view.
pub fn contains_string_list(v: &Vec<String>, s: &str) -> (b: bool)
    ensures
        b == spec_contains(v.deep_view(), s@),
{
    let ghost l = v.deep_view();
    let n = v.len();
    let mut i: usize = 0;
    while i < n
        invariant
            n == v@.len(),
            l == v.deep_view(),
            i <= n,
            forall|j: int| 0 <= j < i ==> l[j] != s@,
        decreases n - i,
    {
        if crate::text::str_eq(v[i].as_str(), s) {
            proof {
                assert(l[i as int] == v@[i as int]@);
            }
            return true;
        }
        i = i + 1;
    }
    false
}

/// A list whose prefix is all present has the same first missing song as
/// the rest of the list.
proof fn lemma_first_missing_skip(songs: Seq<Seq<char>>, existing: Seq<Seq<char>>, i: int)
    requires
        0 <= i <= songs.len(),
        forall|j: int| 0 <= j < i ==> spec_contains(existing, #[trigger] songs[j]),
    ensures
        spec_first_missing(songs, existing) == spec_first_missing(songs.skip(i), existing),
    decreases i,
{
    if i > 0 {
        assert(spec_contains(existing, songs[0]));
        assert forall|j: int| 0 <= j < i - 1 implies spec_contains(
            existing,
            #[trigger] songs.drop_first()[j],
        ) by {
            assert(songs.drop_first()[j] == songs[j + 1]);
        }
        assert(spec_first_missing(songs, existing) == spec_first_missing(
            songs.drop_first(),
            existing,
        ));
        lemma_first_missing_skip(songs.drop_first(), existing, i - 1);
        assert(songs.drop_first().skip(i - 1) =~= songs.skip(i));
        assert(spec_first_missing(songs.drop_first().skip(i - 1), existing)
            == spec_first_missing(songs.skip(i), existing));
    } else {
        assert(songs.skip(0) =~= songs);
    }
}

/// Enroll a batch of songs: classify each song in order per
/// [`spec_enroll`] and create, skip or report it accordingly.  The whole
/// batch is rejected, and the store left unchanged, when the list is empty
/// or any song is not in `existing_song_ids`.  A created record takes the
/// next unused id from `new_ids`.
pub fn enroll_batch(
    records: &mut Vec<LearningRecord>,
    existing_song_ids: &Vec<String>,
    song_ids: &Vec<String>,
    relearn_song_ids: &Vec<String>,
    relearn_start_level: i64,
    now: i64,
    new_ids: &Vec<String>,
    path: &Vec<i64>,
) -> (r: Result<BatchOutcome, AppError>)
    requires
        new_ids@.len() >= song_ids@.len(),
    ensures
        song_ids.deep_view().len() == 0 ==> (r matches Err(AppError::InvalidParameter(m))
            && m@ == "song_ids cannot be empty"@ && final(records)@ == old(records)@),
        (song_ids.deep_view().len() > 0 && spec_first_missing(
            song_ids.deep_view(),
            existing_song_ids.deep_view(),
        ) is Some) ==> (r matches Err(AppError::NotFound(m)) && m@ == "song not found: "@
            + spec_first_missing(song_ids.deep_view(), existing_song_ids.deep_view()).unwrap()
            && final(records)@ == old(records)@),
        (song_ids.deep_view().len() > 0 && spec_first_missing(
            song_ids.deep_view(),
            existing_song_ids.deep_view(),
        ) is None) ==> (r matches Ok(out) && {
            let f = spec_enroll(
                old(records).deep_view(),
                song_ids.deep_view(),
                relearn_song_ids.deep_view(),
                relearn_start_level as int,
                now as int,
                new_ids.deep_view(),
                path@.map_values(|x: i64| x as int),
            );
            &&& final(records).deep_view() == f.records
            &&& out.created_ids.deep_view() == f.created
            &&& out.skipped_song_ids.deep_view() == f.skipped
            &&& out.already_graduated_song_ids.deep_view() == f.graduated
        }),
{
    let ghost songs = song_ids.deep_view();
    let ghost existing = existing_song_ids.deep_view();
    let ghost relearnv = relearn_song_ids.deep_view();
    let ghost idsv = new_ids.deep_view();
    let ghost pathv = path@.map_values(|x: i64| x as int);

    let n = song_ids.len();
    if n == 0 {
        return Err(AppError::InvalidParameter("song_ids cannot be empty".to_owned()));
    }

    // Validate every song before touching the store: all-or-nothing.
    let mut i: usize = 0;
    while i < n
        invariant
            n == song_ids@.len(),
            songs == song_ids.deep_view(),
            existing == existing_song_ids.deep_view(),
            i <= n,
            forall|j: int| 0 <= j < i ==> spec_contains(existing, #[trigger] songs[j]),
        decreases n - i,
    {
        let song = &song_ids[i];
        if !contains_string_list(existing_song_ids, song.as_str()) {
            proof {
                assert(songs[i as int] == song_ids@[i as int]@);
                lemma_first_missing_skip(songs, existing, i as int);
                assert(songs.skip(i as int)[0] == songs[i as int]);
            }
            let mut m = "song not found: ".to_owned();
            m.append(song.as_str());
            return Err(AppError::NotFound(m));
        }
        proof {
            assert(songs[i as int] == song_ids@[i as int]@);
        }
        i = i + 1;
    }

    let ghost f = spec_enroll(
        records.deep_view(),
        songs,
        relearnv,
        relearn_start_level as int,
        now as int,
        idsv,
        pathv,
    );
    proof {
        lemma_first_missing_skip(songs, existing, n as int);
        assert(songs.skip(n as int) =~= Seq::<Seq<char>>::empty());
    }

    let mut created: Vec<String> = Vec::new();
    let mut skipped: Vec<String> = Vec::new();
    let mut graduated: Vec<String> = Vec::new();
    let mut used: usize = 0;
    proof {
        assert(songs.skip(0) =~= songs);
        assert(idsv.skip(0) =~= idsv);
        assert(created.deep_view() =~= Seq::<Seq<char>>::empty());
        assert(skipped.deep_view() =~= Seq::<Seq<char>>::empty());
        assert(graduated.deep_view() =~= Seq::<Seq<char>>::empty());
        assert(f.created =~= created.deep_view() + f.created);
        assert(f.skipped =~= skipped.deep_view() + f.skipped);
        assert(f.graduated =~= graduated.deep_view() + f.graduated);
    }
    let mut i: usize = 0;
    while i < n
        invariant
            n == song_ids@.len(),
            songs == song_ids.deep_view(),
            relearnv == relearn_song_ids.deep_view(),
            idsv == new_ids.deep_view(),
            pathv == path@.map_values(|x: i64| x as int),
            idsv.len() >= n,
            i <= n,
            used <= i,
            used == created@.len(),
            f == spec_enroll(
                old(records).deep_view(),
                songs,
                relearnv,
                relearn_start_level as int,
                now as int,
                idsv,
                pathv,
            ),
            ({
                let rest = spec_enroll(
                    records.deep_view(),
                    songs.skip(i as int),
                    relearnv,
                    relearn_start_level as int,
                    now as int,
                    idsv.skip(used as int),
                    pathv,
                );
                &&& f.records == rest.records
                &&& f.created == created.deep_view() + rest.created
                &&& f.skipped == skipped.deep_view() + rest.skipped
                &&& f.graduated == graduated.deep_view() + rest.graduated
            }),
        decreases n - i,
    {
        let ghost cur = records.deep_view();
        let ghost rest = spec_enroll(
            cur,
            songs.skip(i as int),
            relearnv,
            relearn_start_level as int,
            now as int,
            idsv.skip(used as int),
            pathv,
        );
        let song = &song_ids[i];
        proof {
            assert(songs[i as int] == song_ids@[i as int]@);
            assert(songs.skip(i as int)[0] == songs[i as int]);
            assert(songs.skip(i as int).drop_first() =~= songs.skip(i + 1));
        }
        let act = has_active(records, song.as_str());
        let grad = has_graduated(records, song.as_str());
        let rel = contains_string_list(relearn_song_ids, song.as_str());
        let d = enroll_decision(act, grad, rel);
        match d {
            EnrollDecision::Skip => {
                skipped.push(song.clone());
                proof {
                    assert(skipped.deep_view() =~= skipped.deep_view().drop_last().push(
                        songs[i as int],
                    ));
                    assert(f.skipped =~= skipped.deep_view() + rest.skipped.drop_first());
                }
            },
            EnrollDecision::AlreadyGraduated => {
                graduated.push(song.clone());
                proof {
                    assert(graduated.deep_view() =~= graduated.deep_view().drop_last().push(
                        songs[i as int],
                    ));
                    assert(f.graduated =~= graduated.deep_view() + rest.graduated.drop_first());
                }
            },
            _ => {
                let level: i64 = if matches!(d, EnrollDecision::Relearn) {
                    relearn_start_level
                } else {
                    0
                };
                let last: i64 = if matches!(d, EnrollDecision::Relearn) {
                    now
                } else {
                    0
                };
                let id = new_ids[used].clone();
                proof {
                    assert(id@ == idsv[used as int]);
                    assert(idsv.skip(used as int)[0] == idsv[used as int]);
                    assert(idsv.skip(used as int).drop_first() =~= idsv.skip(used + 1));
                }
                let rec = make_record(id.clone(), song.clone(), level, now, last, path);
                records.push(rec);
                created.push(id);
                used = used + 1;
                proof {
                    assert(records.deep_view() =~= cur.push(
                        spec_new_record(
                            idsv[used - 1],
                            songs[i as int],
                            level as int,
                            now as int,
                            last as int,
                            pathv,
                        ),
                    ));
                    assert(created.deep_view() =~= created.deep_view().drop_last().push(
                        idsv[used - 1],
                    ));
                    assert(f.created =~= created.deep_view() + rest.created.drop_first());
                }
            },
        }
        i = i + 1;
    }
    proof {
        assert(songs.skip(n as int) =~= Seq::<Seq<char>>::empty());
        assert(f.created =~= created.deep_view());
        assert(f.skipped =~= skipped.deep_view());
        assert(f.graduated =~= graduated.deep_view());
    }
    Ok(
        BatchOutcome {
            created_ids: created,
            skipped_song_ids: skipped,
            already_graduated_song_ids: graduated,
        },
    )
}

/// Index of the first record with identifier `id`, or `-1`.
pub open spec fn spec_find_record(rs: Seq<RecordV>, id: Seq<char>) -> int
    decreases rs.len(),
{
    if rs.len() == 0 {
        -1
    } else if rs[0].id == id {
        0
    } else {
        let r = spec_find_record(rs.drop_first(), id);
        if r < 0 {
            -1
        } else {
            r + 1
        }
    }
}

proof fn lemma_find_record(rs: Seq<RecordV>, id: Seq<char>)
    ensures
        -1 <= spec_find_record(rs, id) < rs.len(),
        spec_find_record(rs, id) >= 0 ==> rs[spec_find_record(rs, id)].id == id,
        forall|j: int| 0 <= j < spec_find_record(rs, id) ==> rs[j].id != id,
        spec_find_record(rs, id) == -1 ==> forall|j: int| 0 <= j < rs.len() ==> rs[j].id != id,
    decreases rs.len(),
{
    if rs.len() > 0 && rs[0].id != id {
        lemma_find_record(rs.drop_first(), id);
        assert forall|j: int| 0 <= j < spec_find_record(rs, id) implies rs[j].id != id by {
            if j > 0 {
                assert(rs.drop_first()[j - 1] == rs[j]);
            }
        }
        if spec_find_record(rs, id) == -1 {
            assert forall|j: int| 0 <= j < rs.len() implies rs[j].id != id by {
                if j > 0 {
                    assert(rs.drop_first()[j - 1] == rs[j]);
                }
            }
        }
    }
}

/// No two records share an identifier.
pub open spec fn spec_store_wf(rs: Seq<RecordV>) -> bool {
    forall|i: int, j: int| 0 <= i < j < rs.len() ==> rs[i].id != rs[j].id
}

/// In a well-formed store, looking a record's own id up finds it.
proof fn lemma_wf_find(rs: Seq<RecordV>, j: int)
    requires
        spec_store_wf(rs),
        0 <= j < rs.len(),
    ensures
        spec_find_record(rs, rs[j].id) == j,
{
    lemma_find_record(rs, rs[j].id);
    let f = spec_find_record(rs, rs[j].id);
    if f < 0 {
        assert(rs[j].id == rs[j].id);
        assert(false);
    }
    if f < j {
        assert(rs[f].id != rs[j].id);
        assert(false);
    }
    if f > j {
        assert(rs[j].id != rs[j].id);
        assert(false);
    }
}

/// The first id of `ids` that resolves to a graduated record, if any.
pub open spec fn spec_first_grad(rs: Seq<RecordV>, ids: Seq<Seq<char>>) -> Option<Seq<char>>
    decreases ids.len(),
{
    if ids.len() == 0 {
        None
    } else {
        let f = spec_find_record(rs, ids[0]);
        if f >= 0 && rs[f].graduated {
            Some(ids[0])
        } else {
            spec_first_grad(rs, ids.drop_first())
        }
    }
}

/// The ids of `ids` that resolve to no record, in order, duplicates kept.
pub open spec fn spec_missing_ids(rs: Seq<RecordV>, ids: Seq<Seq<char>>) -> Seq<Seq<char>>
    decreases ids.len(),
{
    if ids.len() == 0 {
        Seq::empty()
    } else {
        let head: Seq<Seq<char>> = if spec_find_record(rs, ids[0]) < 0 {
            seq![ids[0]]
        } else {
            Seq::empty()
        };
        head + spec_missing_ids(rs, ids.drop_first())
    }
}

/// How many entries of `ids` resolve to a record at the top level or above,
/// which a transition graduates rather than levels up.
pub open spec fn spec_grad_count(rs: Seq<RecordV>, ids: Seq<Seq<char>>, max_level: int) -> int
    decreases ids.len(),
{
    if ids.len() == 0 {
        0
    } else {
        let f = spec_find_record(rs, ids[0]);
        let here: int = if f >= 0 && rs[f].level >= max_level - 1 {
            1
        } else {
            0
        };
        here + spec_grad_count(rs, ids.drop_first(), max_level)
    }
}

/// The store after a batch transition: every record whose id the batch
/// names is advanced once; every other record is untouched.
pub open spec fn spec_advance_all(
    rs: Seq<RecordV>,
    ids: Seq<Seq<char>>,
    now: int,
    max_level: int,
) -> Seq<RecordV> {
    Seq::new(
        rs.len(),
        |j: int|
            if spec_contains(ids, rs[j].id) {
                spec_advance(rs[j], now, max_level)
            } else {
                rs[j]
            },
    )
}

/// With no missing ids, every id resolves to a record.
proof fn lemma_missing_none(rs: Seq<RecordV>, ids: Seq<Seq<char>>)
    requires
        spec_missing_ids(rs, ids).len() == 0,
    ensures
        forall|k: int|
            0 <= k < ids.len() ==> spec_find_record(rs, #[trigger] ids[k]) >= 0,
    decreases ids.len(),
{
    if ids.len() > 0 {
        lemma_missing_none(rs, ids.drop_first());
        assert forall|k: int|
            0 <= k < ids.len() implies spec_find_record(rs, #[trigger] ids[k]) >= 0 by {
            if k > 0 {
                assert(ids.drop_first()[k - 1] == ids[k]);
            }
        }
    }
}

/// Index of the first record with identifier `id`, if any.
fn find_record(records: &Vec<LearningRecord>, id: &str) -> (r: Option<usize>)
    ensures
        match r {
            Some(j) => j < records@.len() && spec_find_record(records.deep_view(), id@) == j,
            None => spec_find_record(records.deep_view(), id@) == -1,
        },
{
    let ghost rs = records.deep_view();
    let n = records.len();
    let mut i: usize = 0;
    while i < n
        invariant
            n == records@.len(),
            rs == records.deep_view(),
            i <= n,
            forall|j: int| 0 <= j < i ==> rs[j].id != id@,
        decreases n - i,
    {
        if crate::text::str_eq(records[i].id.as_str(), id) {
            proof {
                assert(rs[i as int] == records@[i as int]@);
                lemma_find_record(rs, id@);
            }
            return Some(i);
        }
        proof {
            assert(rs[i as int] == records@[i as int]@);
        }
        i = i + 1;
    }
    proof {
        lemma_find_record(rs, id@);
        let f = spec_find_record(rs, id@);
        if f >= 0 {
            assert(rs[f].id == id@);
        }
    }
    None
}

/// Advance a batch of records by id: each record below the top level climbs
/// one level, each record at the top level graduates; both timestamps are
/// refreshed either way.  The whole batch is rejected, and the store left
/// unchanged, when the list is empty, when any id resolves to no record
/// (all such ids are then reported together), or — with every id resolved
/// — when any id resolves to a graduated record.
pub fn advance_batch(
    records: &mut Vec<LearningRecord>,
    ids: &Vec<String>,
    now: i64,
    max_level: i64,
) -> (r: Result<LevelUpOutcome, AppError>)
    requires
        spec_store_wf(old(records).deep_view()),
    ensures
        ids.deep_view().len() == 0 ==> (r matches Err(AppError::InvalidParameter(m))
            && m@ == "ids cannot be empty"@ && final(records)@ == old(records)@),
        (ids.deep_view().len() > 0 && spec_missing_ids(
            old(records).deep_view(),
            ids.deep_view(),
        ).len() > 0) ==> (r matches Err(AppError::NotFound(m)) && m@
            == "learning record(s) not found: "@ + spec_join(
            spec_missing_ids(old(records).deep_view(), ids.deep_view()),
            ", "@,
        ) && final(records)@ == old(records)@),
        (ids.deep_view().len() > 0 && spec_missing_ids(old(records).deep_view(), ids.deep_view())
            .len() == 0 && spec_first_grad(old(records).deep_view(), ids.deep_view()) is Some)
            ==> (r matches Err(AppError::InvalidParameter(m)) && m@
            == "learning record already graduated: "@ + spec_first_grad(
            old(records).deep_view(),
            ids.deep_view(),
        ).unwrap() && final(records)@ == old(records)@),
        (ids.deep_view().len() > 0 && spec_first_grad(old(records).deep_view(), ids.deep_view())
            is None && spec_missing_ids(old(records).deep_view(), ids.deep_view()).len() == 0) ==> (
        r matches Ok(out) && {
            let rs = old(records).deep_view();
            let idsv = ids.deep_view();
            &&& final(records).deep_view() == spec_advance_all(rs, idsv, now as int, max_level as int)
            &&& out.graduated_count as int == spec_grad_count(rs, idsv, max_level as int)
            &&& out.leveled_up_count as int == idsv.len() - spec_grad_count(rs, idsv, max_level as int)
            &&& out.total_processed as int == idsv.len()
            &&& spec_store_wf(final(records).deep_view())
        }),
{
    let ghost rs = records.deep_view();
    let ghost idsv = ids.deep_view();

    let n = ids.len();
    if n == 0 {
        return Err(AppError::InvalidParameter("ids cannot be empty".to_owned()));
    }

    // Scan every id before touching any record: all-or-nothing.  Missing
    // ids are all collected, and a graduated hit is remembered, so the two
    // rejections can be reported in that order once every id was resolved.
    let mut missing: Vec<String> = Vec::new();
    let mut grad_hit: Option<String> = None;
    let mut grad_rows: usize = 0;
    let mut grad_count: u64 = 0;
    let mut level_count: u64 = 0;
    proof {
        assert(idsv.skip(0) =~= idsv);
        assert(missing.deep_view() =~= Seq::<Seq<char>>::empty());
        assert(spec_missing_ids(rs, idsv) =~= missing.deep_view() + spec_missing_ids(rs, idsv));
    }
    let mut i: usize = 0;
    while i < n
        invariant
            n == ids@.len(),
            rs == records.deep_view(),
            idsv == ids.deep_view(),
            i <= n,
            grad_rows <= i,
            grad_count + level_count == i - missing@.len() - grad_rows,
            missing@.len() + grad_rows <= i,
            grad_hit is None ==> grad_rows == 0,
            match grad_hit {
                Some(g) => spec_first_grad(rs, idsv) == Some(g@),
                None => spec_first_grad(rs, idsv) == spec_first_grad(rs, idsv.skip(i as int)),
            },
            spec_missing_ids(rs, idsv) == missing.deep_view() + spec_missing_ids(
                rs,
                idsv.skip(i as int),
            ),
            grad_hit is None ==> spec_grad_count(rs, idsv, max_level as int) == grad_count
                + spec_grad_count(rs, idsv.skip(i as int), max_level as int),
            grad_hit is None ==> forall|k: int|
                0 <= k < i ==> {
                    let f = spec_find_record(rs, #[trigger] idsv[k]);
                    f >= 0 ==> !rs[f].graduated
                },
        decreases n - i,
    {
        let id = &ids[i];
        proof {
            assert(idsv[i as int] == ids@[i as int]@);
            assert(idsv.skip(i as int)[0] == idsv[i as int]);
            assert(idsv.skip(i as int).drop_first() =~= idsv.skip(i + 1));
        }
        match find_record(records, id.as_str()) {
            None => {
                missing.push(id.clone());
                proof {
                    assert(missing.deep_view() =~= missing.deep_view().drop_last().push(
                        idsv[i as int],
                    ));
                    assert(spec_missing_ids(rs, idsv) =~= missing.deep_view()
                        + spec_missing_ids(rs, idsv.skip(i + 1)));
                }
            },
            Some(j) => {
                proof {
                    assert(rs[j as int] == records@[j as int]@);
                    lemma_find_record(rs, idsv[i as int]);
                }
                if records[j].graduated {
                    proof {
                        assert(spec_first_grad(rs, idsv.skip(i as int)) == Some(idsv[i as int]));
                        assert(rs[j as int].id == idsv[i as int]);
                    }
                    if matches!(grad_hit, None) {
                        grad_hit = Some(records[j].id.clone());
                    }
                    grad_rows = grad_rows + 1;
                } else {
                    if records[j].level as i128 >= max_level as i128 - 1 {
                        grad_count = grad_count + 1;
                    } else {
                        level_count = level_count + 1;
                    }
                }
            },
        }
        i = i + 1;
    }
    proof {
        assert(idsv.skip(n as int) =~= Seq::<Seq<char>>::empty());
        assert(spec_missing_ids(rs, idsv) =~= missing.deep_view());
    }
    if missing.len() > 0 {
        let mut m = "learning record(s) not found: ".to_owned();
        m.append(join_strings(&missing, ", ").as_str());
        return Err(AppError::NotFound(m));
    }
    match grad_hit {
        Some(g) => {
            let mut m = "learning record already graduated: ".to_owned();
            m.append(g.as_str());
            return Err(AppError::InvalidParameter(m));
        },
        None => (),
    }
    proof {
        lemma_missing_none(rs, idsv);
    }

    // Every id resolves to a live record: apply the transitions.
    let ghost old_rs = rs;
    let len = records.len();
    let mut j: usize = 0;
    while j < len
        invariant
            len == records@.len(),
            old_rs == old(records).deep_view(),
            idsv == ids.deep_view(),
            records.deep_view().len() == old_rs.len(),
            spec_store_wf(old_rs),
            forall|k: int|
                0 <= k < idsv.len() ==> {
                    let f = spec_find_record(old_rs, #[trigger] idsv[k]);
                    f >= 0 && !old_rs[f].graduated
                },
            forall|k: int| j <= k < len ==> records.deep_view()[k] == old_rs[k],
            forall|k: int|
                0 <= k < j ==> records.deep_view()[k] == (if spec_contains(
                    idsv,
                    old_rs[k].id,
                ) {
                    spec_advance(old_rs[k], now as int, max_level as int)
                } else {
                    old_rs[k]
                }),
        decreases len - j,
    {
        let ghost before = records.deep_view();
        let matched = contains_string_list(ids, records[j].id.as_str());
        proof {
            assert(records.deep_view()[j as int] == records@[j as int]@);
            assert(records.deep_view()[j as int] == old_rs[j as int]);
            assert(matched == spec_contains(idsv, old_rs[j as int].id));
        }
        if matched {
            proof {
                let gid = old_rs[j as int].id;
                let ghost k = choose|k: int| 0 <= k < idsv.len() && idsv[k] == gid;
                lemma_wf_find(old_rs, j as int);
                assert(spec_find_record(old_rs, idsv[k]) == j);
                assert(!old_rs[j as int].graduated);
            }
            let mut tmp = LearningRecord {
                id: String::new(),
                song_id: String::new(),
                level: 0,
                created_at: 0,
                updated_at: 0,
                last_level_up_at: 0,
                level_up_path: Vec::new(),
                graduated: false,
            };
            vstd::pervasive::VecAdditionalExecFns::set_and_swap(records, j, &mut tmp);
            let newr = advance_record(tmp, now, max_level);
            vstd::pervasive::VecAdditionalExecFns::set(records, j, newr);
            proof {
                assert(records.deep_view()[j as int] == spec_advance(
                    old_rs[j as int],
                    now as int,
                    max_level as int,
                ));
                assert forall|k: int|
                    0 <= k < len && k != j implies records.deep_view()[k] == before[k] by {
                    assert(records.deep_view()[k] == records@[k]@);
                }
            }
        }
        proof {
            assert forall|k: int|
                0 <= k < j + 1 implies records.deep_view()[k] == (if spec_contains(
                idsv,
                old_rs[k].id,
            ) {
                spec_advance(old_rs[k], now as int, max_level as int)
            } else {
                old_rs[k]
            }) by {
                if k < j {
                    assert(records.deep_view()[k] == before[k]);
                }
            }
        }
        j = j + 1;
    }
    proof {
        assert(records.deep_view() =~= spec_advance_all(
            old_rs,
            idsv,
            now as int,
            max_level as int,
        ));
        assert forall|a: int, b: int|
            0 <= a < b < records.deep_view().len() implies records.deep_view()[a].id
            != records.deep_view()[b].id by {
            assert(records.deep_view()[a].id == old_rs[a].id);
            assert(records.deep_view()[b].id == old_rs[b].id);
        }
    }
    Ok(
        LevelUpOutcome {
            leveled_up_count: level_count,
            graduated_count: grad_count,
            total_processed: level_count + grad_count,
        },
    )
}

/// Enrolling songs that all have an active record only skips: every song is
/// reported in the skipped list, in order; no record is created and the
/// store is left exactly as it was — so a second identical call yields the
/// same outcome again.
pub proof fn lemma_enroll_skip_idempotent(
    rs: Seq<RecordV>,
    songs: Seq<Seq<char>>,
    relearn: Seq<Seq<char>>,
    start_level: int,
    now: int,
    new_ids: Seq<Seq<char>>,
    path: Seq<int>,
)
    requires
        forall|i: int| 0 <= i < songs.len() ==> spec_has_active(rs, #[trigger] songs[i]),
    ensures
        ({
            let f = spec_enroll(rs, songs, relearn, start_level, now, new_ids, path);
            &&& f.records == rs
            &&& f.created == Seq::<Seq<char>>::empty()
            &&& f.skipped == songs
            &&& f.graduated == Seq::<Seq<char>>::empty()
        }),
        spec_enroll(
            spec_enroll(rs, songs, relearn, start_level, now, new_ids, path).records,
            songs,
            relearn,
            start_level,
            now,
            new_ids,
            path,
        ) == spec_enroll(rs, songs, relearn, start_level, now, new_ids, path),
    decreases songs.len(),
{
    if songs.len() > 0 {
        assert(spec_has_active(rs, songs[0]));
        assert forall|i: int|
            0 <= i < songs.drop_first().len() implies spec_has_active(
            rs,
            #[trigger] songs.drop_first()[i],
        ) by {
            assert(songs.drop_first()[i] == songs[i + 1]);
        }
        lemma_enroll_skip_idempotent(rs, songs.drop_first(), relearn, start_level, now, new_ids, path);
        let f = spec_enroll(rs, songs, relearn, start_level, now, new_ids, path);
        assert(f.skipped =~= songs);
    }
}

/// Re-enrolling a graduated song with a relearn request appends exactly one
/// new, non-graduated record at the requested start level whose level-up
/// instant is `now`, reports its id as created, and leaves every existing
/// record — the graduated one included — unchanged.
pub proof fn lemma_enroll_relearn_restart(
    rs: Seq<RecordV>,
    s: Seq<char>,
    relearn: Seq<Seq<char>>,
    start_level: int,
    now: int,
    new_ids: Seq<Seq<char>>,
    path: Seq<int>,
)
    requires
        !spec_has_active(rs, s),
        spec_has_graduated(rs, s),
        spec_contains(relearn, s),
        new_ids.len() >= 1,
    ensures
        ({
            let f = spec_enroll(rs, seq![s], relearn, start_level, now, new_ids, path);
            &&& f.records == rs.push(spec_new_record(new_ids[0], s, start_level, now, now, path))
            &&& f.created == seq![new_ids[0]]
            &&& f.skipped == Seq::<Seq<char>>::empty()
            &&& f.graduated == Seq::<Seq<char>>::empty()
            &&& f.records[rs.len() as int].graduated == false
            &&& f.records[rs.len() as int].level == start_level
            &&& f.records[rs.len() as int].last_level_up_at == now
            &&& forall|j: int| 0 <= j < rs.len() ==> f.records[j] == rs[j]
        }),
{
    let songs = seq![s];
    assert(songs[0] == s);
    let nr = spec_new_record(new_ids[0], s, start_level, now, now, path);
    assert(songs.drop_first() =~= Seq::<Seq<char>>::empty());
    let f = spec_enroll(rs, songs, relearn, start_level, now, new_ids, path);
    let r = spec_enroll(
        rs.push(nr),
        songs.drop_first(),
        relearn,
        start_level,
        now,
        new_ids.drop_first(),
        path,
    );
    assert(r.records == rs.push(nr));
    assert(f.created =~= seq![new_ids[0]]);
}

/// A batch that names any id resolving to a graduated record is rejected:
/// once every id resolves, [`advance_batch`]'s contract turns the
/// graduated hit into an error and leaves every record unchanged.
pub proof fn lemma_advance_rejects_graduated(rs: Seq<RecordV>, ids: Seq<Seq<char>>, i: int)
    requires
        0 <= i < ids.len(),
        spec_find_record(rs, ids[i]) >= 0,
        rs[spec_find_record(rs, ids[i])].graduated,
    ensures
        spec_first_grad(rs, ids) is Some,
    decreases i,
{
    let f0 = spec_find_record(rs, ids[0]);
    if !(f0 >= 0 && rs[f0].graduated) {
        assert(i > 0);
        assert(ids.drop_first()[i - 1] == ids[i]);
        lemma_advance_rejects_graduated(rs, ids.drop_first(), i - 1);
    }
}

} // verus!
