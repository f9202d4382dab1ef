//! The learning commands against the SQLite store: due listing, batch
//! enrollment, batch level transition, per-song listing, and the review
//! report.
//!
//! Each command fetches plain rows through the trusted wrappers in
//! [`crate::store`] and runs every scheduling decision — due filtering,
//! ordering, classification, transition — in verified code.  Multi-row
//! mutations run inside one transaction: they commit only if every step
//! succeeded and roll back otherwise.

use vstd::prelude::*;
use vstd::string::StringExecFns;

use crate::easing::{generate_level_up_path_json, MAX_LEVEL};
use crate::engine::{enroll_decision, spec_contains, EnrollDecision};
use crate::error::AppError;
use crate::models::now_unix;
use crate::report::{build_review_html, level_histogram, push_unique, EnrichedSong};
use crate::schedule::{is_due, spec_is_due, LearningRecord, RecordV};
use crate::store::{execute_batch_sql, execute_sql, new_uuid, query_rows, DbValue, DbValueV};
use crate::text::{parse_comma_list, spec_clean_list};

verus! {

/// One row of a due listing.
#[derive(Debug)]
pub struct DueEntry {
    pub id: String,
    pub song_id: String,
    pub song_name: String,
    pub level: i64,
    pub wait_days: i64,
}

/// A due listing: the due records, highest level first.
#[derive(Debug)]
pub struct DueList {
    pub count: usize,
    pub results: Vec<DueEntry>,
}

/// One row of a per-song listing, graduated records included.
#[derive(Debug)]
pub struct LearningEntry {
    pub id: String,
    pub song_id: String,
    pub song_name: String,
    pub level: i64,
    pub graduated: bool,
    pub last_level_up_at: i64,
    pub wait_days: Option<i64>,
}

/// A per-song listing.
#[derive(Debug)]
pub struct LearningList {
    pub count: usize,
    pub results: Vec<LearningEntry>,
}

/// The review report: the page text, the due count, and the due records'
/// ids in page order.
#[derive(Debug)]
pub struct ReviewReport {
    pub html: String,
    pub count: usize,
    pub learning_ids: Vec<String>,
}

/// A learning row joined with its song, as the commands read it back.
pub struct DueCandidate {
    pub rec: LearningRecord,
    pub song_name: String,
    pub artist_id: String,
}

/// Mathematical model of a [`DueCandidate`].
#[verifier::ext_equal]
pub ghost struct DueCandidateV {
    pub rec: RecordV,
    pub song_name: Seq<char>,
    pub artist_id: Seq<char>,
}

impl View for DueCandidate {
    type V = DueCandidateV;

    open spec fn view(&self) -> DueCandidateV {
        DueCandidateV { rec: self.rec@, song_name: self.song_name@, artist_id: self.artist_id@ }
    }
}

impl DeepView for DueCandidate {
    type V = DueCandidateV;

    open spec fn deep_view(&self) -> DueCandidateV {
        self.view()
    }
}

/// Mathematical model of a [`DueEntry`].
#[verifier::ext_equal]
pub ghost struct DueEntryV {
    pub id: Seq<char>,
    pub song_id: Seq<char>,
    pub song_name: Seq<char>,
    pub level: int,
    pub wait_days: int,
}

impl View for DueEntry {
    type V = DueEntryV;

    open spec fn view(&self) -> DueEntryV {
        DueEntryV {
            id: self.id@,
            song_id: self.song_id@,
            song_name: self.song_name@,
            level: self.level as int,
            wait_days: self.wait_days as int,
        }
    }
}

impl DeepView for DueEntry {
    type V = DueEntryV;

    open spec fn deep_view(&self) -> DueEntryV {
        self.view()
    }
}

/// Mathematical model of a [`LearningEntry`].
#[verifier::ext_equal]
pub ghost struct LearningEntryV {
    pub id: Seq<char>,
    pub song_id: Seq<char>,
    pub song_name: Seq<char>,
    pub level: int,
    pub graduated: bool,
    pub last_level_up_at: int,
    pub wait_days: Option<int>,
}

impl View for LearningEntry {
    type V = LearningEntryV;

    open spec fn view(&self) -> LearningEntryV {
        LearningEntryV {
            id: self.id@,
            song_id: self.song_id@,
            song_name: self.song_name@,
            level: self.level as int,
            graduated: self.graduated,
            last_level_up_at: self.last_level_up_at as int,
            wait_days: match self.wait_days {
                Some(w) => Some(w as int),
                None => None,
            },
        }
    }
}

impl DeepView for LearningEntry {
    type V = LearningEntryV;

    open spec fn deep_view(&self) -> LearningEntryV {
        self.view()
    }
}

pub open spec fn spec_dbv_is_text(v: DbValueV) -> bool {
    match v {
        DbValueV::Text(_) => true,
        _ => false,
    }
}

pub open spec fn spec_dbv_text(v: DbValueV) -> Seq<char> {
    match v {
        DbValueV::Text(s) => s,
        _ => Seq::empty(),
    }
}

pub open spec fn spec_dbv_is_int(v: DbValueV) -> bool {
    match v {
        DbValueV::Int(_) => true,
        _ => false,
    }
}

pub open spec fn spec_dbv_int(v: DbValueV) -> int {
    match v {
        DbValueV::Int(i) => i,
        _ => 0,
    }
}

/// How a fetched learning row reads as a record: ten columns — id, song
/// id, song name, level, graduated flag, the three timestamps, the stored
/// level-up path, and the song's artist id.  A malformed path column reads
/// as an empty path, which no level falls inside.
pub open spec fn spec_row_candidate(row: Seq<DbValueV>) -> Option<DueCandidateV> {
    if row.len() == 10 && spec_dbv_is_text(row[0]) && spec_dbv_is_text(row[1]) && spec_dbv_is_text(
        row[2],
    ) && spec_dbv_is_int(row[3]) && spec_dbv_is_int(row[4]) && spec_dbv_is_int(row[5])
        && spec_dbv_is_int(row[6]) && spec_dbv_is_int(row[7]) && spec_dbv_is_text(row[8])
        && spec_dbv_is_text(row[9]) {
        Some(
            DueCandidateV {
                rec: RecordV {
                    id: spec_dbv_text(row[0]),
                    song_id: spec_dbv_text(row[1]),
                    level: spec_dbv_int(row[3]),
                    created_at: spec_dbv_int(row[5]),
                    updated_at: spec_dbv_int(row[6]),
                    last_level_up_at: spec_dbv_int(row[7]),
                    level_up_path: match crate::text::spec_parse_int_list(spec_dbv_text(row[8])) {
                        Option::Some(v) => v,
                        Option::None => Seq::empty(),
                    },
                    graduated: spec_dbv_int(row[4]) != 0,
                },
                song_name: spec_dbv_text(row[2]),
                artist_id: spec_dbv_text(row[9]),
            },
        )
    } else {
        None
    }
}

/// Read one fetched row as a record, per [`spec_row_candidate`].
fn row_to_candidate(row: &Vec<DbValue>) -> (r: Option<DueCandidate>)
    ensures
        match r {
            Some(c) => spec_row_candidate(row.deep_view()) == Some(c@),
            None => spec_row_candidate(row.deep_view()) is None,
        },
{
    proof {
        assert forall|j: int| 0 <= j < row@.len() implies row.deep_view()[j] == row@[j]@ by {}
    }
    if row.len() != 10 {
        return None;
    }
    let id = match &row[0] {
        DbValue::Text(s) => s.clone(),
        _ => {
            return None;
        },
    };
    let song_id = match &row[1] {
        DbValue::Text(s) => s.clone(),
        _ => {
            return None;
        },
    };
    let song_name = match &row[2] {
        DbValue::Text(s) => s.clone(),
        _ => {
            return None;
        },
    };
    let level = match &row[3] {
        DbValue::Int(v) => *v,
        _ => {
            return None;
        },
    };
    let graduated = match &row[4] {
        DbValue::Int(v) => *v != 0,
        _ => {
            return None;
        },
    };
    let created_at = match &row[5] {
        DbValue::Int(v) => *v,
        _ => {
            return None;
        },
    };
    let updated_at = match &row[6] {
        DbValue::Int(v) => *v,
        _ => {
            return None;
        },
    };
    let last_level_up_at = match &row[7] {
        DbValue::Int(v) => *v,
        _ => {
            return None;
        },
    };
    let path_text = match &row[8] {
        DbValue::Text(s) => s.clone(),
        _ => {
            return None;
        },
    };
    let artist_id = match &row[9] {
        DbValue::Text(s) => s.clone(),
        _ => {
            return None;
        },
    };
    let level_up_path: Vec<i64> = match crate::text::parse_int_list(path_text.as_str()) {
        Some(v) => v,
        None => Vec::new(),
    };
    let c = DueCandidate {
        rec: LearningRecord {
            id,
            song_id,
            level,
            created_at,
            updated_at,
            last_level_up_at,
            level_up_path,
            graduated,
        },
        song_name,
        artist_id,
    };
    proof {
        let rv = row.deep_view();
        if crate::text::spec_parse_int_list(path_text@) is None {
            assert(c.rec.level_up_path@.map_values(|x: i64| x as int) =~= Seq::<int>::empty());
        }
        assert(spec_row_candidate(rv).unwrap() =~~= c@);
    }
    Some(c)
}

/// The candidates that are due at `now`, looking `lookahead` ahead, in
/// their original order.
pub open spec fn spec_filter_due(
    cands: Seq<DueCandidateV>,
    now: int,
    lookahead: int,
) -> Seq<DueCandidateV> {
    cands.filter(|c: DueCandidateV| spec_is_due(c.rec, now, lookahead))
}

/// A field-for-field copy of a candidate; its model is the same.
fn clone_candidate(c: &DueCandidate) -> (r: DueCandidate)
    ensures
        r@ == c@,
{
    DueCandidate {
        rec: crate::schedule::clone_record(&c.rec),
        song_name: c.song_name.clone(),
        artist_id: c.artist_id.clone(),
    }
}

/// Keep the due candidates, in order, per [`spec_filter_due`].
fn filter_due(cands: &Vec<DueCandidate>, now: i64, lookahead: i64) -> (r: Vec<DueCandidate>)
    ensures
        r.deep_view() == spec_filter_due(cands.deep_view(), now as int, lookahead as int),
{
    let ghost orig = cands.deep_view();
    let n = cands.len();
    let mut out: Vec<DueCandidate> = Vec::new();
    let mut k: usize = 0;
    proof {
        reveal(Seq::filter);
        assert(out.deep_view() =~= orig.take(0).filter(
            |c: DueCandidateV| spec_is_due(c.rec, now as int, lookahead as int),
        ));
    }
    while k < n
        invariant
            n == cands@.len(),
            orig == cands.deep_view(),
            k <= n,
            out.deep_view() == orig.take(k as int).filter(
                |c: DueCandidateV| spec_is_due(c.rec, now as int, lookahead as int),
            ),
        decreases n - k,
    {
        let c = &cands[k];
        proof {
            assert(c@ == orig[k as int]);
        }
        let ghost prev_out = out.deep_view();
        if is_due(&c.rec, now, lookahead) {
            out.push(clone_candidate(c));
            proof {
                assert(out.deep_view() =~= prev_out.push(orig[k as int]));
            }
        }
        proof {
            reveal(Seq::filter);
            assert(orig.take(k + 1).drop_last() =~= orig.take(k as int));
            assert(orig.take(k + 1).last() == orig[k as int]);
        }
        k = k + 1;
    }
    proof {
        assert(orig.take(n as int) =~= orig);
    }
    out
}

/// `sorted` with `c` placed after every candidate whose level is at least
/// `c`'s: descending level order, ties kept in arrival order.
pub open spec fn spec_insert_desc(
    sorted: Seq<DueCandidateV>,
    c: DueCandidateV,
) -> Seq<DueCandidateV>
    decreases sorted.len(),
{
    if sorted.len() == 0 {
        seq![c]
    } else if sorted[0].rec.level >= c.rec.level {
        seq![sorted[0]] + spec_insert_desc(sorted.drop_first(), c)
    } else {
        seq![c] + sorted
    }
}

/// The candidates in descending level order, ties kept in arrival order:
/// each candidate inserted per [`spec_insert_desc`].
pub open spec fn spec_sort_desc(cands: Seq<DueCandidateV>) -> Seq<DueCandidateV>
    decreases cands.len(),
{
    if cands.len() == 0 {
        Seq::empty()
    } else {
        spec_insert_desc(spec_sort_desc(cands.drop_last()), cands.last())
    }
}

/// Inserting at the first position whose level is below `c`'s is what
/// [`spec_insert_desc`] does.
proof fn lemma_insert_desc_at(s: Seq<DueCandidateV>, c: DueCandidateV, idx: int)
    requires
        0 <= idx <= s.len(),
        forall|j: int| 0 <= j < idx ==> (#[trigger] s[j]).rec.level >= c.rec.level,
        idx < s.len() ==> s[idx].rec.level < c.rec.level,
    ensures
        spec_insert_desc(s, c) == s.take(idx) + seq![c] + s.skip(idx),
    decreases idx,
{
    if idx == 0 {
        assert(spec_insert_desc(s, c) =~= s.take(0) + seq![c] + s.skip(0));
    } else {
        assert(s[0].rec.level >= c.rec.level);
        assert forall|j: int|
            0 <= j < idx - 1 implies (#[trigger] s.drop_first()[j]).rec.level >= c.rec.level by {
            assert(s.drop_first()[j] == s[j + 1]);
        }
        if idx < s.len() {
            assert(s.drop_first()[idx - 1] == s[idx]);
        }
        lemma_insert_desc_at(s.drop_first(), c, idx - 1);
        assert(s.drop_first().take(idx - 1) =~= s.take(idx).drop_first());
        assert(s.drop_first().skip(idx - 1) =~= s.skip(idx));
        assert(spec_insert_desc(s, c) =~= s.take(idx) + seq![c] + s.skip(idx));
    }
}

/// Insert `c` per [`spec_insert_desc`].
fn insert_desc(v: &mut Vec<DueCandidate>, c: DueCandidate)
    ensures
        final(v).deep_view() == spec_insert_desc(old(v).deep_view(), c@),
{
    let n = v.len();
    let mut idx: usize = 0;
    while idx < n && v[idx].rec.level >= c.rec.level
        invariant
            n == v@.len(),
            v == old(v),
            idx <= n,
            forall|j: int| 0 <= j < idx ==> (#[trigger] v.deep_view()[j]).rec.level >= c@.rec.level,
        decreases n - idx,
    {
        proof {
            assert(v.deep_view()[idx as int] == v@[idx as int]@);
        }
        idx = idx + 1;
    }
    proof {
        if idx < n {
            assert(v.deep_view()[idx as int] == v@[idx as int]@);
        }
        lemma_insert_desc_at(v.deep_view(), c@, idx as int);
    }
    let ghost prev = v.deep_view();
    v.insert(idx, c);
    proof {
        assert(v.deep_view() =~~= prev.take(idx as int) + seq![c@] + prev.skip(idx as int));
    }
}

/// Sort candidates per [`spec_sort_desc`].
fn sort_desc(cands: Vec<DueCandidate>) -> (r: Vec<DueCandidate>)
    ensures
        r.deep_view() == spec_sort_desc(cands.deep_view()),
{
    let ghost orig = cands.deep_view();
    let n = cands.len();
    let mut out: Vec<DueCandidate> = Vec::new();
    let mut k: usize = 0;
    proof {
        assert(out.deep_view() =~= spec_sort_desc(orig.take(0)));
    }
    while k < n
        invariant
            n == cands@.len(),
            orig == cands.deep_view(),
            k <= n,
            out.deep_view() == spec_sort_desc(orig.take(k as int)),
        decreases n - k,
    {
        let c = clone_candidate(&cands[k]);
        proof {
            assert(c@ == orig[k as int]);
            assert(orig.take(k + 1).drop_last() =~= orig.take(k as int));
            assert(orig.take(k + 1).last() == orig[k as int]);
        }
        insert_desc(&mut out, c);
        k = k + 1;
    }
    proof {
        assert(orig.take(n as int) =~= orig);
    }
    out
}

/// A descending insertion keeps descending order.
proof fn lemma_insert_desc_sorted(s: Seq<DueCandidateV>, c: DueCandidateV)
    requires
        forall|i: int, j: int|
            0 <= i < j < s.len() ==> (#[trigger] s[i]).rec.level >= (#[trigger] s[j]).rec.level,
    ensures
        ({
            let r = spec_insert_desc(s, c);
            forall|i: int, j: int|
                0 <= i < j < r.len() ==> (#[trigger] r[i]).rec.level >= (#[trigger] r[j]).rec.level
        }),
    decreases s.len(),
{
    if s.len() > 0 && s[0].rec.level >= c.rec.level {
        assert forall|i: int, j: int|
            0 <= i < j < s.drop_first().len() implies (#[trigger] s.drop_first()[i]).rec.level
            >= (#[trigger] s.drop_first()[j]).rec.level by {
            assert(s.drop_first()[i] == s[i + 1]);
            assert(s.drop_first()[j] == s[j + 1]);
        }
        lemma_insert_desc_sorted(s.drop_first(), c);
        let r = spec_insert_desc(s, c);
        let rr = spec_insert_desc(s.drop_first(), c);
        assert forall|i: int, j: int|
            0 <= i < j < r.len() implies (#[trigger] r[i]).rec.level
            >= (#[trigger] r[j]).rec.level by {
            if i == 0 {
                if j - 1 < rr.len() {
                    assert(r[j] == rr[j - 1]);
                    lemma_insert_desc_member(s.drop_first(), c, j - 1);
                }
            } else {
                assert(r[i] == rr[i - 1]);
                assert(r[j] == rr[j - 1]);
            }
        }
    }
}

/// Every element of an insertion result is the inserted element or one of
/// the originals, so its level is bounded by the head's.
proof fn lemma_insert_desc_member(s: Seq<DueCandidateV>, c: DueCandidateV, i: int)
    requires
        0 <= i < spec_insert_desc(s, c).len(),
    ensures
        spec_insert_desc(s, c)[i] == c || (exists|j: int|
            0 <= j < s.len() && spec_insert_desc(s, c)[i] == s[j]),
    decreases s.len(),
{
    if s.len() > 0 && s[0].rec.level >= c.rec.level {
        if i > 0 {
            lemma_insert_desc_member(s.drop_first(), c, i - 1);
            let r = spec_insert_desc(s, c);
            if r[i] != c {
                let j = choose|j: int|
                    0 <= j < s.drop_first().len() && spec_insert_desc(s.drop_first(), c)[i - 1]
                        == s.drop_first()[j];
                assert(r[i] == s[j + 1]);
            }
        }
    } else {
        if s.len() == 0 {
        } else {
            if i > 0 {
                assert(spec_insert_desc(s, c)[i] == s[i - 1]);
            }
        }
    }
}

/// The sorted sequence is in descending level order.
pub proof fn lemma_sort_desc_sorted(cands: Seq<DueCandidateV>)
    ensures
        ({
            let r = spec_sort_desc(cands);
            forall|i: int, j: int|
                0 <= i < j < r.len() ==> (#[trigger] r[i]).rec.level >= (#[trigger] r[j]).rec.level
        }),
    decreases cands.len(),
{
    if cands.len() > 0 {
        lemma_sort_desc_sorted(cands.drop_last());
        lemma_insert_desc_sorted(spec_sort_desc(cands.drop_last()), cands.last());
    }
}


/// Every element the sort yields is one of the candidates it was given.
proof fn lemma_sort_desc_member(cands: Seq<DueCandidateV>, i: int)
    requires
        0 <= i < spec_sort_desc(cands).len(),
    ensures
        exists|j: int| 0 <= j < cands.len() && spec_sort_desc(cands)[i] == cands[j],
    decreases cands.len(),
{
    if cands.len() > 0 {
        let prev = spec_sort_desc(cands.drop_last());
        lemma_insert_desc_member(prev, cands.last(), i);
        let r = spec_sort_desc(cands);
        if r[i] == cands.last() {
            assert(r[i] == cands[cands.len() - 1]);
        } else {
            let j = choose|j: int| 0 <= j < prev.len() && r[i] == prev[j];
            lemma_sort_desc_member(cands.drop_last(), j);
            let k = choose|k: int| 0 <= k < cands.drop_last().len() && prev[j]
                == cands.drop_last()[k];
            assert(r[i] == cands[k]);
        }
    }
}

/// The wait interval the due listing reports for a record: its level's
/// entry in the stored path, or zero when the level has no entry.
pub open spec fn spec_wait_days(rec: RecordV) -> int {
    if 0 <= rec.level < rec.level_up_path.len() {
        rec.level_up_path[rec.level]
    } else {
        0
    }
}

/// The wait interval of the record's current level, per [`spec_wait_days`].
fn wait_days_of(rec: &LearningRecord) -> (w: i64)
    ensures
        w as int == spec_wait_days(rec@),
{
    if rec.level >= 0 && (rec.level as u64) < (rec.level_up_path.len() as u64) {
        rec.level_up_path[rec.level as usize]
    } else {
        0
    }
}

/// The due selection: the candidates due at `now` with the given
/// lookahead, in descending level order (ties in storage order), capped at
/// `limit`.
pub open spec fn spec_selected(
    cands: Seq<DueCandidateV>,
    now: int,
    lookahead: int,
    limit: int,
) -> Seq<DueCandidateV> {
    let sorted = spec_sort_desc(spec_filter_due(cands, now, lookahead));
    if sorted.len() > limit {
        sorted.take(limit)
    } else {
        sorted
    }
}

/// Select the due candidates, per [`spec_selected`].
pub fn select_due_candidates(
    cands: &Vec<DueCandidate>,
    now: i64,
    lookahead: i64,
    limit: usize,
) -> (r: Vec<DueCandidate>)
    ensures
        r.deep_view() == spec_selected(cands.deep_view(), now as int, lookahead as int, limit as int),
        r@.len() <= limit,
{
    let due = filter_due(cands, now, lookahead);
    let mut sorted = sort_desc(due);
    let ghost sorted_dv = sorted.deep_view();
    if sorted.len() > limit {
        sorted.truncate(limit);
    }
    proof {
        assert forall|j: int|
            0 <= j < sorted.deep_view().len() implies sorted.deep_view()[j] == sorted_dv[j] by {
            assert(sorted.deep_view()[j] == sorted@[j]@);
        }
        assert(sorted.deep_view() =~= spec_selected(
            cands.deep_view(),
            now as int,
            lookahead as int,
            limit as int,
        ));
    }
    sorted
}

/// The due listing rows of a selection, in order.
pub open spec fn spec_due_entries(sel: Seq<DueCandidateV>) -> Seq<DueEntryV> {
    sel.map_values(|c: DueCandidateV| spec_due_entry(c))
}

/// The listing row a due candidate yields: its record's id, song and
/// level, the joined song name, and the current level's wait interval.
pub open spec fn spec_due_entry(c: DueCandidateV) -> DueEntryV {
    DueEntryV {
        id: c.rec.id,
        song_id: c.rec.song_id,
        song_name: c.song_name,
        level: c.rec.level,
        wait_days: spec_wait_days(c.rec),
    }
}

/// Project a candidate to its due-listing row, per [`spec_due_entry`].
fn due_entry_of(c: &DueCandidate) -> (e: DueEntry)
    ensures
        e@ == spec_due_entry(c@),
{
    let e = DueEntry {
        id: c.rec.id.clone(),
        song_id: c.rec.song_id.clone(),
        song_name: c.song_name.clone(),
        level: c.rec.level,
        wait_days: wait_days_of(&c.rec),
    };
    proof {
        assert(e@ =~~= spec_due_entry(c@));
    }
    e
}

/// The due listing built from fetched candidates: the selection of
/// [`spec_selected`], each candidate projected per [`spec_due_entry`].
pub fn due_listing(cands: &Vec<DueCandidate>, now: i64, lookahead: i64, limit: usize) -> (out:
    DueList)
    ensures
        out.results.deep_view() == spec_due_entries(
            spec_selected(cands.deep_view(), now as int, lookahead as int, limit as int),
        ),
        out.count == out.results@.len(),
{
    let sel = select_due_candidates(cands, now, lookahead, limit);
    let ghost selv = sel.deep_view();
    let m = sel.len();
    let mut results: Vec<DueEntry> = Vec::new();
    let mut i: usize = 0;
    proof {
        assert(results.deep_view() =~= spec_due_entries(selv.take(0)));
    }
    while i < m
        invariant
            m == sel@.len(),
            selv == sel.deep_view(),
            i <= m,
            results@.len() == i,
            results.deep_view() == spec_due_entries(selv.take(i as int)),
        decreases m - i,
    {
        let c = &sel[i];
        proof {
            assert(c@ == selv[i as int]);
        }
        let e = due_entry_of(c);
        let ghost prev = results.deep_view();
        results.push(e);
        proof {
            assert forall|j: int|
                0 <= j < i + 1 implies results.deep_view()[j] == spec_due_entries(
                selv.take(i + 1),
            )[j] by {
                assert(results.deep_view()[j] == results@[j]@);
                assert(spec_due_entries(selv.take(i + 1))[j] == spec_due_entry(
                    selv.take(i + 1)[j],
                ));
                if j < i {
                    assert(results@[j]@ == prev[j]);
                    assert(prev[j] == spec_due_entry(selv.take(i as int)[j]));
                }
            }
            assert(results.deep_view() =~~= spec_due_entries(selv.take(i + 1)));
        }
        i = i + 1;
    }
    proof {
        assert(selv.take(m as int) =~= selv);
        assert(spec_due_entries(selv.take(m as int)) =~~= spec_due_entries(selv));
    }
    DueList { count: results.len(), results }
}

/// The per-song listing rows of a selection, in order.
pub open spec fn spec_learning_entries(sel: Seq<DueCandidateV>) -> Seq<LearningEntryV> {
    sel.map_values(|c: DueCandidateV| spec_learning_entry(c))
}

/// The listing row any learning record yields, graduated ones included:
/// the wait interval is absent when the level has no path entry.
pub open spec fn spec_learning_entry(c: DueCandidateV) -> LearningEntryV {
    LearningEntryV {
        id: c.rec.id,
        song_id: c.rec.song_id,
        song_name: c.song_name,
        level: c.rec.level,
        graduated: c.rec.graduated,
        last_level_up_at: c.rec.last_level_up_at,
        wait_days: if 0 <= c.rec.level < c.rec.level_up_path.len() {
            Some(c.rec.level_up_path[c.rec.level])
        } else {
            None
        },
    }
}

/// Project a candidate to its per-song listing row, per
/// [`spec_learning_entry`].
fn learning_entry_of(c: &DueCandidate) -> (e: LearningEntry)
    ensures
        e@ == spec_learning_entry(c@),
{
    let w = if c.rec.level >= 0 && (c.rec.level as u64) < (c.rec.level_up_path.len() as u64) {
        Some(c.rec.level_up_path[c.rec.level as usize])
    } else {
        None
    };
    let e = LearningEntry {
        id: c.rec.id.clone(),
        song_id: c.rec.song_id.clone(),
        song_name: c.song_name.clone(),
        level: c.rec.level,
        graduated: c.rec.graduated,
        last_level_up_at: c.rec.last_level_up_at,
        wait_days: w,
    };
    proof {
        assert(e@ =~~= spec_learning_entry(c@));
    }
    e
}

/// The per-song listing: the records whose song the list names, in
/// descending level order, each projected per [`spec_learning_entry`].
pub open spec fn spec_learning_listing(
    cands: Seq<DueCandidateV>,
    song_ids: Seq<Seq<char>>,
) -> Seq<LearningEntryV> {
    spec_learning_entries(
        spec_sort_desc(cands.filter(|c: DueCandidateV| spec_contains(song_ids, c.rec.song_id))),
    )
}

/// Build the per-song listing from fetched candidates, per
/// [`spec_learning_listing`].
pub fn learning_listing(cands: &Vec<DueCandidate>, song_ids: &Vec<String>) -> (out: LearningList)
    ensures
        out.results.deep_view() == spec_learning_listing(
            cands.deep_view(),
            song_ids.deep_view(),
        ),
        out.count == out.results@.len(),
{
    let picked = filter_by_songs(cands, song_ids);
    proof {
        assert(picked.deep_view() =~~= cands.deep_view().filter(
            |c: DueCandidateV| spec_contains(song_ids.deep_view(), c.rec.song_id),
        ));
    }
    let sorted = sort_desc(picked);
    let ghost selv = sorted.deep_view();
    let m = sorted.len();
    let mut results: Vec<LearningEntry> = Vec::new();
    let mut i: usize = 0;
    proof {
        assert(results.deep_view() =~= spec_learning_entries(selv.take(0)));
    }
    while i < m
        invariant
            m == sorted@.len(),
            selv == sorted.deep_view(),
            i <= m,
            results@.len() == i,
            results.deep_view() == spec_learning_entries(selv.take(i as int)),
        decreases m - i,
    {
        let c = &sorted[i];
        proof {
            assert(c@ == selv[i as int]);
        }
        let e = learning_entry_of(c);
        let ghost prev = results.deep_view();
        results.push(e);
        proof {
            assert forall|j: int|
                0 <= j < i + 1 implies results.deep_view()[j] == spec_learning_entries(
                selv.take(i + 1),
            )[j] by {
                assert(results.deep_view()[j] == results@[j]@);
                assert(spec_learning_entries(selv.take(i + 1))[j] == spec_learning_entry(
                    selv.take(i + 1)[j],
                ));
                if j < i {
                    assert(results@[j]@ == prev[j]);
                    assert(prev[j] == spec_learning_entry(selv.take(i as int)[j]));
                }
            }
            assert(results.deep_view() =~~= spec_learning_entries(selv.take(i + 1)));
        }
        i = i + 1;
    }
    proof {
        assert(selv.take(m as int) =~= selv);
        assert(spec_learning_entries(selv.take(m as int)) =~~= spec_learning_entries(selv));
    }
    LearningList { count: results.len(), results }
}

/// All learning rows joined with their songs, read back as candidates.  A
/// storage failure is fatal; a row that does not read as a record is an
/// internal error.
fn fetch_candidates(conn: &mut rusqlite::Connection) -> (r: Result<Vec<DueCandidate>, AppError>)
    ensures
        r matches Err(e) ==> (e is Database || e is Internal),
{
    let rows = match query_rows(
        conn,
        "SELECT l.id, l.song_id, s.name, l.level, l.graduated, l.created_at, l.updated_at, l.last_level_up_at, l.level_up_path, s.artist_id FROM learning l JOIN song s ON l.song_id = s.id",
        &Vec::new(),
    ) {
        Ok(rows) => rows,
        Err(e) => {
            return Err(AppError::Database(e));
        },
    };
    let mut cands: Vec<DueCandidate> = Vec::new();
    let n = rows.len();
    let mut i: usize = 0;
    while i < n
        invariant
            n == rows@.len(),
            i <= n,
        decreases n - i,
    {
        match row_to_candidate(&rows[i]) {
            Some(c) => {
                cands.push(c);
            },
            None => {
                return Err(
                    AppError::Internal("unexpected row shape in learning listing".to_owned()),
                );
            },
        }
        i = i + 1;
    }
    Ok(cands)
}

/// The due set at this instant: records picked by the due predicate with
/// the given lookahead, highest level first (ties in storage order), capped
/// at `limit`.
pub fn cmd_learning_due(conn: &mut rusqlite::Connection, limit: u32, offset_seconds: u32) -> (r:
    Result<DueList, AppError>)
    ensures
        r matches Err(e) ==> (e is Database || e is Internal),
        r matches Ok(out) ==> out.count == out.results@.len() && out.results@.len() <= limit
            && (forall|i: int, j: int|
            0 <= i < j < out.results@.len() ==> (#[trigger] out.results@[i]).level
                >= (#[trigger] out.results@[j]).level),
{
    let cands = match fetch_candidates(conn) {
        Ok(c) => c,
        Err(e) => {
            return Err(e);
        },
    };
    let now = now_unix();
    let out = due_listing(&cands, now, offset_seconds as i64, limit as usize);
    proof {
        let candsv = cands.deep_view();
        let look = (offset_seconds as i64) as int;
        let sortedv = spec_sort_desc(spec_filter_due(candsv, now as int, look));
        let selv = spec_selected(candsv, now as int, look, limit as int);
        lemma_sort_desc_sorted(spec_filter_due(candsv, now as int, look));
        assert(selv.len() <= limit as int);
        assert(out.results.deep_view() == spec_due_entries(selv));
        assert(out.results.deep_view().len() == selv.len());
        assert(out.results@.len() == out.results.deep_view().len());
        assert forall|i: int, j: int|
            0 <= i < j < out.results@.len() implies (#[trigger] out.results@[i]).level
            >= (#[trigger] out.results@[j]).level by {
            assert(out.results.deep_view()[i] == out.results@[i]@);
            assert(out.results.deep_view()[j] == out.results@[j]@);
            assert(out.results.deep_view()[i] == spec_due_entry(selv[i]));
            assert(out.results.deep_view()[j] == spec_due_entry(selv[j]));
            assert(selv[i] == sortedv[i]);
            assert(selv[j] == sortedv[j]);
        }
    }
    Ok(out)
}

/// Every learning record — active or graduated — for the given songs,
/// highest level first.  An empty song list is rejected.
pub fn cmd_learning_by_song_ids(conn: &mut rusqlite::Connection, song_ids_str: &str) -> (r: Result<
    LearningList,
    AppError,
>)
    ensures
        spec_clean_list(song_ids_str@).len() == 0 ==> (r matches Err(AppError::InvalidParameter(m))
            && m@ == "song_ids cannot be empty"@),
        r matches Err(e) ==> (e matches AppError::InvalidParameter(m) ==> (m@
            == "song_ids cannot be empty"@ && spec_clean_list(song_ids_str@).len() == 0)),
        r matches Ok(out) ==> out.count == out.results@.len() && (forall|i: int, j: int|
            0 <= i < j < out.results@.len() ==> (#[trigger] out.results@[i]).level
                >= (#[trigger] out.results@[j]).level) && (forall|j: int|
            0 <= j < out.results@.len() ==> spec_contains(
                crate::text::spec_clean_list(song_ids_str@),
                (#[trigger] out.results@[j]).song_id@,
            )),
{
    let song_ids = parse_comma_list(song_ids_str);
    if song_ids.len() == 0 {
        proof {
            assert(song_ids.deep_view().len() == 0);
        }
        return Err(AppError::InvalidParameter("song_ids cannot be empty".to_owned()));
    }
    let ghost parsed = song_ids.deep_view();
    let cands = match fetch_candidates(conn) {
        Ok(c) => c,
        Err(e) => {
            return Err(e);
        },
    };
    let out = learning_listing(&cands, &song_ids);
    proof {
        let candsv = cands.deep_view();
        let pred = |c: DueCandidateV| spec_contains(parsed, c.rec.song_id);
        let picked = candsv.filter(pred);
        let sortedv = spec_sort_desc(picked);
        lemma_sort_desc_sorted(picked);
        assert(out.results.deep_view() == spec_learning_entries(sortedv));
        assert(out.results.deep_view().len() == sortedv.len());
        assert(out.results@.len() == out.results.deep_view().len());
        assert forall|i: int, j: int|
            0 <= i < j < out.results@.len() implies (#[trigger] out.results@[i]).level
            >= (#[trigger] out.results@[j]).level by {
            assert(out.results.deep_view()[i] == out.results@[i]@);
            assert(out.results.deep_view()[j] == out.results@[j]@);
            assert(out.results.deep_view()[i] == spec_learning_entry(sortedv[i]));
            assert(out.results.deep_view()[j] == spec_learning_entry(sortedv[j]));
        }
        assert forall|j: int|
            0 <= j < out.results@.len() implies spec_contains(
            parsed,
            (#[trigger] out.results@[j]).song_id@,
        ) by {
            assert(out.results.deep_view()[j] == out.results@[j]@);
            assert(out.results.deep_view()[j] == spec_learning_entry(sortedv[j]));
            lemma_sort_desc_member(picked, j);
            let k = choose|k: int| 0 <= k < picked.len() && sortedv[j] == picked[k];
            candsv.lemma_filter_pred(pred, k);
        }
    }
    Ok(out)
}

/// The candidates whose song the list names, in their original order.
fn filter_by_songs(cands: &Vec<DueCandidate>, song_ids: &Vec<String>) -> (r: Vec<DueCandidate>)
    ensures
        r.deep_view() == cands.deep_view().filter(
            |c: DueCandidateV| spec_contains(song_ids.deep_view(), c.rec.song_id),
        ),
{
    let ghost orig = cands.deep_view();
    let ghost parsed = song_ids.deep_view();
    let n = cands.len();
    let mut out: Vec<DueCandidate> = Vec::new();
    let mut k: usize = 0;
    proof {
        reveal(Seq::filter);
        assert(out.deep_view() =~= orig.take(0).filter(
            |c: DueCandidateV| spec_contains(parsed, c.rec.song_id),
        ));
    }
    while k < n
        invariant
            n == cands@.len(),
            orig == cands.deep_view(),
            parsed == song_ids.deep_view(),
            k <= n,
            out.deep_view() == orig.take(k as int).filter(
                |c: DueCandidateV| spec_contains(parsed, c.rec.song_id),
            ),
        decreases n - k,
    {
        let c = &cands[k];
        proof {
            assert(c@ == orig[k as int]);
        }
        let ghost prev_out = out.deep_view();
        if crate::engine::contains_string_list(song_ids, c.rec.song_id.as_str()) {
            out.push(clone_candidate(c));
            proof {
                assert(out.deep_view() =~= prev_out.push(orig[k as int]));
            }
        }
        proof {
            reveal(Seq::filter);
            assert(orig.take(k + 1).drop_last() =~= orig.take(k as int));
            assert(orig.take(k + 1).last() == orig[k as int]);
        }
        k = k + 1;
    }
    proof {
        assert(orig.take(n as int) =~= orig);
    }
    out
}


/// The single integer a COUNT query yields, or an internal error when the
/// fetched rows do not have that shape.
fn read_count(rows: &Vec<Vec<DbValue>>) -> (r: Result<i64, AppError>)
    ensures
        (rows.deep_view().len() >= 1 && rows.deep_view()[0].len() >= 1 && spec_dbv_is_int(
            rows.deep_view()[0][0],
        )) ==> (r matches Ok(c) && c as int == spec_dbv_int(rows.deep_view()[0][0])),
        !(rows.deep_view().len() >= 1 && rows.deep_view()[0].len() >= 1 && spec_dbv_is_int(
            rows.deep_view()[0][0],
        )) ==> (r matches Err(e) && e matches AppError::Internal(m) && m@
            == "unexpected count result"@),
{
    proof {
        if rows@.len() >= 1 {
            assert(rows.deep_view()[0] == rows@[0].deep_view());
            if rows@[0]@.len() >= 1 {
                assert(rows@[0].deep_view()[0] == rows@[0]@[0]@);
            }
        }
    }
    if rows.len() >= 1 && rows[0].len() >= 1 {
        match &rows[0][0] {
            DbValue::Int(v) => Ok(*v),
            _ => Err(AppError::Internal("unexpected count result".to_owned())),
        }
    } else {
        Err(AppError::Internal("unexpected count result".to_owned()))
    }
}

/// What one batch enrollment step does for one song.
#[derive(Debug, PartialEq, Eq, Structural)]
pub enum EnrollStep {
    /// The song has no row in the song table: the whole batch aborts.
    MissingSong,
    /// An active record exists: the song is skipped.
    Skip,
    /// Only graduated records exist and no relearn was requested: the song
    /// is reported as already graduated.
    AlreadyGraduated,
    /// A record is created at this level, with this level-up instant.
    Create { level: i64, last_level_up_at: i64 },
}

/// The per-song enrollment rule over the three fetched counts: a song with
/// no row aborts; otherwise the engine's decision table applies, and a
/// created record starts fresh at level zero (no level-up instant) or as a
/// relearn at `start_level` with its level-up instant set to `now`.
pub open spec fn spec_enroll_step(
    song_count: int,
    active_count: int,
    graduated_count: int,
    relearn: bool,
    start_level: i64,
    now: i64,
) -> EnrollStep {
    if song_count <= 0 {
        EnrollStep::MissingSong
    } else {
        match crate::engine::spec_enroll_decision(active_count > 0, graduated_count > 0, relearn) {
            EnrollDecision::Skip => EnrollStep::Skip,
            EnrollDecision::AlreadyGraduated => EnrollStep::AlreadyGraduated,
            EnrollDecision::Relearn => EnrollStep::Create {
                level: start_level,
                last_level_up_at: now,
            },
            EnrollDecision::CreateNew => EnrollStep::Create { level: 0, last_level_up_at: 0 },
        }
    }
}

/// Decide [`spec_enroll_step`] for one song of a batch.
pub fn enroll_step(
    song_count: i64,
    active_count: i64,
    graduated_count: i64,
    relearn: bool,
    start_level: i64,
    now: i64,
) -> (s: EnrollStep)
    ensures
        s == spec_enroll_step(
            song_count as int,
            active_count as int,
            graduated_count as int,
            relearn,
            start_level,
            now,
        ),
{
    if song_count <= 0 {
        EnrollStep::MissingSong
    } else {
        match enroll_decision(active_count > 0, graduated_count > 0, relearn) {
            EnrollDecision::Skip => EnrollStep::Skip,
            EnrollDecision::AlreadyGraduated => EnrollStep::AlreadyGraduated,
            EnrollDecision::Relearn => EnrollStep::Create {
                level: start_level,
                last_level_up_at: now,
            },
            EnrollDecision::CreateNew => EnrollStep::Create { level: 0, last_level_up_at: 0 },
        }
    }
}

/// The parameter list of the learning INSERT, in its column order: id,
/// song id, level, creation and update instants (both `now`), level-up
/// instant, and the stored path text; the graduated column is literal `0`.
fn insert_learning_params(
    id: &String,
    song_id: &String,
    level: i64,
    now: i64,
    last_level_up_at: i64,
    path_json: &String,
) -> (p: Vec<DbValue>)
    ensures
        p.deep_view() == seq![
            DbValueV::Text(id@),
            DbValueV::Text(song_id@),
            DbValueV::Int(level as int),
            DbValueV::Int(now as int),
            DbValueV::Int(now as int),
            DbValueV::Int(last_level_up_at as int),
            DbValueV::Text(path_json@),
        ],
{
    let p = vec![
        DbValue::Text(id.clone()),
        DbValue::Text(song_id.clone()),
        DbValue::Int(level),
        DbValue::Int(now),
        DbValue::Int(now),
        DbValue::Int(last_level_up_at),
        DbValue::Text(path_json.clone()),
    ];
    proof {
        assert(p.deep_view() =~~= seq![
            DbValueV::Text(id@),
            DbValueV::Text(song_id@),
            DbValueV::Int(level as int),
            DbValueV::Int(now as int),
            DbValueV::Int(now as int),
            DbValueV::Int(last_level_up_at as int),
            DbValueV::Text(path_json@),
        ]);
    }
    p
}

/// Run one COUNT-style query and read the single integer it yields.
fn query_count(conn: &mut rusqlite::Connection, sql: &str, params: &Vec<DbValue>) -> (r: Result<
    i64,
    AppError,
>)
    ensures
        r matches Err(e) ==> (e is Database || e is Internal),
{
    match query_rows(conn, sql, params) {
        Err(e) => Err(AppError::Database(e)),
        Ok(rows) => read_count(&rows),
    }
}

/// Open a transaction.
fn begin_tx(conn: &mut rusqlite::Connection) -> (r: Result<(), AppError>)
    ensures
        r matches Err(e) ==> e is Database,
{
    match execute_batch_sql(conn, "BEGIN") {
        Ok(u) => Ok(u),
        Err(e) => Err(AppError::Database(e)),
    }
}

/// Commit the open transaction.
fn commit_tx(conn: &mut rusqlite::Connection) -> (r: Result<(), AppError>)
    ensures
        r matches Err(e) ==> e is Database,
{
    match execute_batch_sql(conn, "COMMIT") {
        Ok(u) => Ok(u),
        Err(e) => Err(AppError::Database(e)),
    }
}

/// Roll the open transaction back, best effort.
fn rollback_tx(conn: &mut rusqlite::Connection) {
    match execute_batch_sql(conn, "ROLLBACK") {
        Ok(_) => (),
        Err(_) => (),
    }
}

/// Enroll a batch of songs, in one transaction.  Each song is classified
/// by the engine's decision table against the store: an active record
/// skips the song, a graduated record either starts a relearn record (at
/// `relearn_start_level`, level-up instant now) or reports the song, and a
/// song with no record gets a fresh record at level zero.  A song that
/// does not exist aborts the whole batch; every song then lands in exactly
/// one of the three outcome lists.
pub fn cmd_learning_batch(
    conn: &mut rusqlite::Connection,
    song_ids_str: &str,
    relearn_song_ids_str: Option<&str>,
    relearn_start_level: u32,
) -> (r: Result<crate::engine::BatchOutcome, AppError>)
    ensures
        spec_clean_list(song_ids_str@).len() == 0 ==> (r matches Err(AppError::InvalidParameter(m))
            && m@ == "song_ids cannot be empty"@),
        r matches Err(e) ==> (e matches AppError::InvalidParameter(m) ==> (m@
            == "song_ids cannot be empty"@ && spec_clean_list(song_ids_str@).len() == 0)),
        r matches Ok(out) ==> out.created_ids@.len() + out.skipped_song_ids@.len()
            + out.already_graduated_song_ids@.len() == spec_clean_list(song_ids_str@).len(),
        r matches Ok(out) ==> (forall|j: int|
            0 <= j < out.skipped_song_ids@.len() ==> spec_contains(
                spec_clean_list(song_ids_str@),
                (#[trigger] out.skipped_song_ids@[j])@,
            )) && (forall|j: int|
            0 <= j < out.already_graduated_song_ids@.len() ==> spec_contains(
                spec_clean_list(song_ids_str@),
                (#[trigger] out.already_graduated_song_ids@[j])@,
            )),
{
    let song_ids = parse_comma_list(song_ids_str);
    if song_ids.len() == 0 {
        proof {
            assert(song_ids.deep_view().len() == 0);
        }
        return Err(AppError::InvalidParameter("song_ids cannot be empty".to_owned()));
    }
    let relearn_ids: Vec<String> = match relearn_song_ids_str {
        Some(s) => parse_comma_list(s),
        None => Vec::new(),
    };
    let ghost parsed = song_ids.deep_view();
    proof {
        assert(song_ids.deep_view().len() == song_ids@.len());
    }
    let now = now_unix();
    let level_up_path = generate_level_up_path_json(MAX_LEVEL);

    let mut created_ids: Vec<String> = Vec::new();
    let mut skipped_song_ids: Vec<String> = Vec::new();
    let mut already_graduated_song_ids: Vec<String> = Vec::new();

    match begin_tx(conn) {
        Ok(_) => (),
        Err(e) => {
            return Err(e);
        },
    }
    let n = song_ids.len();
    let mut i: usize = 0;
    while i < n
        invariant
            n == song_ids@.len(),
            n == spec_clean_list(song_ids_str@).len(),
            parsed == song_ids.deep_view(),
            parsed == spec_clean_list(song_ids_str@),
            n > 0,
            i <= n,
            created_ids@.len() + skipped_song_ids@.len() + already_graduated_song_ids@.len()
                == i,
            forall|j: int|
                0 <= j < skipped_song_ids@.len() ==> spec_contains(
                    parsed,
                    (#[trigger] skipped_song_ids@[j])@,
                ),
            forall|j: int|
                0 <= j < already_graduated_song_ids@.len() ==> spec_contains(
                    parsed,
                    (#[trigger] already_graduated_song_ids@[j])@,
                ),
        decreases n - i,
    {
        let song_id = &song_ids[i];
        proof {
            assert(parsed[i as int] == song_ids@[i as int]@);
        }

        let song_count = match query_count(
            conn,
            "SELECT COUNT(*) FROM song WHERE id = ?1",
            &vec![DbValue::Text(song_id.clone())],
        ) {
            Ok(c) => c,
            Err(e) => {
                rollback_tx(conn);
                return Err(e);
            },
        };
        let active_count = match query_count(
            conn,
            "SELECT COUNT(*) FROM learning WHERE song_id = ?1 AND graduated = 0",
            &vec![DbValue::Text(song_id.clone())],
        ) {
            Ok(c) => c,
            Err(e) => {
                rollback_tx(conn);
                return Err(e);
            },
        };
        let graduated_count = match query_count(
            conn,
            "SELECT COUNT(*) FROM learning WHERE song_id = ?1 AND graduated = 1",
            &vec![DbValue::Text(song_id.clone())],
        ) {
            Ok(c) => c,
            Err(e) => {
                rollback_tx(conn);
                return Err(e);
            },
        };
        let relearn = crate::engine::contains_string_list(&relearn_ids, song_id.as_str());
        let step = enroll_step(
            song_count,
            active_count,
            graduated_count,
            relearn,
            relearn_start_level as i64,
            now,
        );
        match step {
            EnrollStep::MissingSong => {
                rollback_tx(conn);
                let mut m = "song not found: ".to_owned();
                m.append(song_id.as_str());
                return Err(AppError::NotFound(m));
            },
            EnrollStep::Skip => {
                skipped_song_ids.push(song_id.clone());
            },
            EnrollStep::AlreadyGraduated => {
                already_graduated_song_ids.push(song_id.clone());
            },
            EnrollStep::Create { level, last_level_up_at } => {
                let new_id = new_uuid();
                let params = insert_learning_params(
                    &new_id,
                    song_id,
                    level,
                    now,
                    last_level_up_at,
                    &level_up_path,
                );
                match execute_sql(
                    conn,
                    "INSERT INTO learning (id, song_id, level, created_at, updated_at, last_level_up_at, level_up_path, graduated) VALUES (?1, ?2, ?3, ?4, ?5, ?6, ?7, 0)",
                    &params,
                ) {
                    Ok(_) => (),
                    Err(e) => {
                        rollback_tx(conn);
                        return Err(AppError::Database(e));
                    },
                }
                created_ids.push(new_id);
            },
        }
        i = i + 1;
    }
    match commit_tx(conn) {
        Ok(_) => (),
        Err(e) => {
            return Err(e);
        },
    }
    Ok(
        crate::engine::BatchOutcome {
            created_ids,
            skipped_song_ids,
            already_graduated_song_ids,
        },
    )
}


/// Whether a fetched learning-record row has its three columns in shape:
/// text id, integer level, integer graduated flag.
pub open spec fn spec_levelup_row_ok(row: Seq<DbValueV>) -> bool {
    row.len() == 3 && spec_dbv_is_text(row[0]) && spec_dbv_is_int(row[1]) && spec_dbv_is_int(
        row[2],
    )
}

/// Read a record fetch for the transition: no row means the id resolved to
/// nothing; one well-shaped row reads as `(id, level, graduated)`, where
/// the flag is set exactly when the column holds one; anything else is an
/// internal error.
fn read_learning_row(rows: &Vec<Vec<DbValue>>) -> (r: Result<Option<(String, i64, bool)>, AppError>)
    ensures
        rows.deep_view().len() == 0 ==> (r matches Ok(o) && o is None),
        (rows.deep_view().len() > 0 && spec_levelup_row_ok(rows.deep_view()[0])) ==> (r matches Ok(
            o,
        ) && o matches Some(t) && t.0@ == spec_dbv_text(rows.deep_view()[0][0]) && t.1 as int
            == spec_dbv_int(rows.deep_view()[0][1]) && t.2 == (spec_dbv_int(
            rows.deep_view()[0][2],
        ) == 1)),
        (rows.deep_view().len() > 0 && !spec_levelup_row_ok(rows.deep_view()[0])) ==> (r matches
            Err(e) && e matches AppError::Internal(m) && m@ == "unexpected learning record row"@),
{
    proof {
        if rows@.len() > 0 {
            assert(rows.deep_view()[0] == rows@[0].deep_view());
            assert forall|j: int| 0 <= j < rows@[0]@.len() implies rows@[0].deep_view()[j]
                == rows@[0]@[j]@ by {}
        }
    }
    if rows.len() == 0 {
        return Ok(None);
    }
    let row = &rows[0];
    if row.len() != 3 {
        return Err(AppError::Internal("unexpected learning record row".to_owned()));
    }
    let record_id = match &row[0] {
        DbValue::Text(v) => v.clone(),
        _ => {
            return Err(AppError::Internal("unexpected learning record row".to_owned()));
        },
    };
    let level = match &row[1] {
        DbValue::Int(v) => *v,
        _ => {
            return Err(AppError::Internal("unexpected learning record row".to_owned()));
        },
    };
    let graduated = match &row[2] {
        DbValue::Int(v) => *v == 1,
        _ => {
            return Err(AppError::Internal("unexpected learning record row".to_owned()));
        },
    };
    Ok(Some((record_id, level, graduated)))
}

/// The UPDATE one transition step runs: at the top level or above, the
/// record graduates (parameters `now, id`, both timestamps refreshed by
/// the statement); below it, the record climbs one level (parameters
/// `level + 1, now, id`).
fn transition_update(id: &String, level: i64, now: i64) -> (u: (bool, Vec<DbValue>))
    ensures
        u.0 == (level as int >= MAX_LEVEL as int - 1),
        u.0 ==> u.1.deep_view() == seq![DbValueV::Int(now as int), DbValueV::Text(id@)],
        !u.0 ==> u.1.deep_view() == seq![
            DbValueV::Int(level as int + 1),
            DbValueV::Int(now as int),
            DbValueV::Text(id@),
        ],
{
    if level as i128 >= MAX_LEVEL as i128 - 1 {
        let p = vec![DbValue::Int(now), DbValue::Text(id.clone())];
        proof {
            assert(p.deep_view() =~~= seq![DbValueV::Int(now as int), DbValueV::Text(id@)]);
        }
        (true, p)
    } else {
        let p = vec![DbValue::Int(level + 1), DbValue::Int(now), DbValue::Text(id.clone())];
        proof {
            assert(p.deep_view() =~~= seq![
                DbValueV::Int(level as int + 1),
                DbValueV::Int(now as int),
                DbValueV::Text(id@),
            ]);
        }
        (false, p)
    }
}

/// Advance a batch of records by id, in one transaction: a record below
/// the top level climbs one level, a record at the top level graduates.
/// Every id is resolved before any record changes: ids that resolve to
/// nothing are all reported together, and with every id resolved, an id
/// that resolves to a graduated record rejects the batch.
pub fn cmd_learning_song_levelup_ids(conn: &mut rusqlite::Connection, ids_str: &str) -> (r: Result<
    crate::engine::LevelUpOutcome,
    AppError,
>)
    ensures
        spec_clean_list(ids_str@).len() == 0 ==> (r matches Err(AppError::InvalidParameter(m))
            && m@ == "ids cannot be empty"@),
        r matches Err(e) ==> (e matches AppError::InvalidParameter(m) ==> (m@
            == "ids cannot be empty"@ ==> spec_clean_list(ids_str@).len() == 0)),
        r matches Ok(out) ==> out.total_processed as int == spec_clean_list(ids_str@).len()
            && out.total_processed == out.leveled_up_count + out.graduated_count,
{
    let ids = parse_comma_list(ids_str);
    if ids.len() == 0 {
        proof {
            assert(ids.deep_view().len() == 0);
        }
        return Err(AppError::InvalidParameter("ids cannot be empty".to_owned()));
    }

    proof {
        assert(ids.deep_view().len() == ids@.len());
    }
    // Resolve every id before mutating anything.  Missing ids are all
    // collected, and a graduated hit is remembered, so the two rejections
    // can be reported in that order once every id was resolved.
    let mut records: Vec<(String, i64)> = Vec::new();
    let mut not_found_ids: Vec<String> = Vec::new();
    let mut grad_hit: Option<String> = None;
    let mut grad_rows: usize = 0;
    let n = ids.len();
    let mut i: usize = 0;
    while i < n
        invariant
            n == ids@.len(),
            n == spec_clean_list(ids_str@).len(),
            n > 0,
            i <= n,
            grad_rows <= i,
            grad_hit is None ==> grad_rows == 0,
            records@.len() + not_found_ids@.len() + grad_rows == i,
        decreases n - i,
    {
        let id = &ids[i];
        let rows = match query_rows(
            conn,
            "SELECT id, level, graduated FROM learning WHERE id = ?1",
            &vec![DbValue::Text(id.clone())],
        ) {
            Ok(rows) => rows,
            Err(e) => {
                return Err(AppError::Database(e));
            },
        };
        match read_learning_row(&rows) {
            Err(e) => {
                return Err(e);
            },
            Ok(None) => {
                not_found_ids.push(id.clone());
            },
            Ok(Some((record_id, level, graduated))) => {
                if graduated {
                    if matches!(grad_hit, None) {
                        grad_hit = Some(record_id);
                    }
                    grad_rows = grad_rows + 1;
                } else {
                    records.push((record_id, level));
                }
            },
        }
        i = i + 1;
    }
    if not_found_ids.len() > 0 {
        let mut m = "learning record(s) not found: ".to_owned();
        m.append(crate::text::join_strings(&not_found_ids, ", ").as_str());
        return Err(AppError::NotFound(m));
    }
    match grad_hit {
        Some(g) => {
            let mut m = "learning record already graduated: ".to_owned();
            m.append(g.as_str());
            proof {
                reveal_strlit("learning record already graduated: ");
                reveal_strlit("ids cannot be empty");
                assert(m@.len() >= 35);
                assert("ids cannot be empty"@.len() == 19);
            }
            return Err(AppError::InvalidParameter(m));
        },
        None => (),
    }
    proof {
        assert(records@.len() == n);
    }

    let now = now_unix();
    let mut leveled_up_count: u64 = 0;
    let mut graduated_count: u64 = 0;

    match begin_tx(conn) {
        Ok(_) => (),
        Err(e) => {
            return Err(e);
        },
    }
    let m = records.len();
    let mut k: usize = 0;
    while k < m
        invariant
            m == records@.len(),
            m == spec_clean_list(ids_str@).len(),
            m > 0,
            k <= m,
            leveled_up_count + graduated_count == k,
        decreases m - k,
    {
        let (id, level) = &records[k];
        let (graduate, params) = transition_update(id, *level, now);
        if graduate {
            match execute_sql(
                conn,
                "UPDATE learning SET graduated = 1, updated_at = ?1, last_level_up_at = ?1 WHERE id = ?2",
                &params,
            ) {
                Ok(_) => (),
                Err(e) => {
                    rollback_tx(conn);
                    return Err(AppError::Database(e));
                },
            }
            graduated_count = graduated_count + 1;
        } else {
            match execute_sql(
                conn,
                "UPDATE learning SET level = ?1, updated_at = ?2, last_level_up_at = ?2 WHERE id = ?3",
                &params,
            ) {
                Ok(_) => (),
                Err(e) => {
                    rollback_tx(conn);
                    return Err(AppError::Database(e));
                },
            }
            leveled_up_count = leveled_up_count + 1;
        }
        k = k + 1;
    }
    match commit_tx(conn) {
        Ok(_) => (),
        Err(e) => {
            return Err(e);
        },
    }
    Ok(
        crate::engine::LevelUpOutcome {
            leveled_up_count,
            graduated_count,
            total_processed: leveled_up_count + graduated_count,
        },
    )
}


/// The artist label for one due song: the fetched name when the lookup
/// yielded a text row, and the default label on no row, a malformed row,
/// or a failed lookup — a missing artist degrades, it never fails the
/// report.
fn artist_name_from(fetched: Result<Vec<Vec<DbValue>>, String>) -> (name: String)
    ensures
        match fetched {
            Ok(rows) => {
                if rows.deep_view().len() >= 1 && rows.deep_view()[0].len() >= 1
                    && spec_dbv_is_text(rows.deep_view()[0][0]) {
                    name@ == spec_dbv_text(rows.deep_view()[0][0])
                } else {
                    name@ == "Unknown"@
                }
            },
            Err(_) => name@ == "Unknown"@,
        },
{
    match fetched {
        Ok(rows) => {
            proof {
                if rows@.len() >= 1 {
                    assert(rows.deep_view()[0] == rows@[0].deep_view());
                    if rows@[0]@.len() >= 1 {
                        assert(rows@[0].deep_view()[0] == rows@[0]@[0]@);
                    }
                }
            }
            if rows.len() >= 1 && rows[0].len() >= 1 {
                match &rows[0][0] {
                    DbValue::Text(n) => n.clone(),
                    _ => "Unknown".to_owned(),
                }
            } else {
                "Unknown".to_owned()
            }
        },
        Err(_) => "Unknown".to_owned(),
    }
}

/// What the fetched show links add to the enrichment lists: for each row
/// in order — show id, media URL, show name — a non-empty name joins the
/// name list and a non-empty URL joins the URL list, each kept only at its
/// first occurrence; a malformed row adds nothing.
pub open spec fn spec_add_show_rows(
    names: Seq<Seq<char>>,
    urls: Seq<Seq<char>>,
    rows: Seq<Seq<DbValueV>>,
) -> (Seq<Seq<char>>, Seq<Seq<char>>)
    decreases rows.len(),
{
    if rows.len() == 0 {
        (names, urls)
    } else {
        let row = rows[0];
        let names2 = if row.len() == 3 && spec_dbv_is_text(row[2]) && spec_dbv_text(
            row[2],
        ).len() > 0 {
            crate::report::spec_push_unique(names, spec_dbv_text(row[2]))
        } else {
            names
        };
        let urls2 = if row.len() == 3 && spec_dbv_is_text(row[1]) && spec_dbv_text(
            row[1],
        ).len() > 0 {
            crate::report::spec_push_unique(urls, spec_dbv_text(row[1]))
        } else {
            urls
        };
        spec_add_show_rows(names2, urls2, rows.drop_first())
    }
}

/// Fold the fetched show links into the lists, per [`spec_add_show_rows`].
fn add_show_rows(
    show_names: &mut Vec<String>,
    media_urls: &mut Vec<String>,
    rows: &Vec<Vec<DbValue>>,
)
    ensures
        ({
            let p = spec_add_show_rows(
                old(show_names).deep_view(),
                old(media_urls).deep_view(),
                rows.deep_view(),
            );
            &&& final(show_names).deep_view() == p.0
            &&& final(media_urls).deep_view() == p.1
        }),
{
    let ghost rowsv = rows.deep_view();
    let ghost goal = spec_add_show_rows(show_names.deep_view(), media_urls.deep_view(), rowsv);
    let n = rows.len();
    let mut j: usize = 0;
    proof {
        assert(rowsv.skip(0) =~= rowsv);
    }
    while j < n
        invariant
            n == rows@.len(),
            rowsv == rows.deep_view(),
            j <= n,
            spec_add_show_rows(
                show_names.deep_view(),
                media_urls.deep_view(),
                rowsv.skip(j as int),
            ) == goal,
        decreases n - j,
    {
        let row = &rows[j];
        proof {
            assert(rowsv[j as int] == rows@[j as int].deep_view());
            assert forall|k: int| 0 <= k < row@.len() implies row.deep_view()[k]
                == row@[k]@ by {}
            assert(rowsv.skip(j as int)[0] == rowsv[j as int]);
            assert(rowsv.skip(j as int).drop_first() =~= rowsv.skip(j + 1));
        }
        if row.len() == 3 {
            match &row[2] {
                DbValue::Text(name) => {
                    if !name.as_str().is_empty() {
                        push_unique(show_names, name.as_str());
                    }
                },
                _ => (),
            }
            match &row[1] {
                DbValue::Text(url) => {
                    if !url.as_str().is_empty() {
                        push_unique(media_urls, url.as_str());
                    }
                },
                _ => (),
            }
        }
        j = j + 1;
    }
    proof {
        assert(rowsv.skip(n as int) =~= Seq::<Seq<DbValueV>>::empty());
    }
}

/// What the fetched play history adds to the URL list: each single-column
/// text row in order, non-empty URLs only, each kept only at its first
/// occurrence; a malformed row adds nothing.
pub open spec fn spec_add_history_rows(
    urls: Seq<Seq<char>>,
    rows: Seq<Seq<DbValueV>>,
) -> Seq<Seq<char>>
    decreases rows.len(),
{
    if rows.len() == 0 {
        urls
    } else {
        let row = rows[0];
        let urls2 = if row.len() == 1 && spec_dbv_is_text(row[0]) && spec_dbv_text(
            row[0],
        ).len() > 0 {
            crate::report::spec_push_unique(urls, spec_dbv_text(row[0]))
        } else {
            urls
        };
        spec_add_history_rows(urls2, rows.drop_first())
    }
}

/// Fold the fetched play history into the URL list, per
/// [`spec_add_history_rows`].
fn add_history_rows(media_urls: &mut Vec<String>, rows: &Vec<Vec<DbValue>>)
    ensures
        final(media_urls).deep_view() == spec_add_history_rows(
            old(media_urls).deep_view(),
            rows.deep_view(),
        ),
{
    let ghost rowsv = rows.deep_view();
    let ghost goal = spec_add_history_rows(media_urls.deep_view(), rowsv);
    let n = rows.len();
    let mut j: usize = 0;
    proof {
        assert(rowsv.skip(0) =~= rowsv);
    }
    while j < n
        invariant
            n == rows@.len(),
            rowsv == rows.deep_view(),
            j <= n,
            spec_add_history_rows(media_urls.deep_view(), rowsv.skip(j as int)) == goal,
        decreases n - j,
    {
        let row = &rows[j];
        proof {
            assert(rowsv[j as int] == rows@[j as int].deep_view());
            assert forall|k: int| 0 <= k < row@.len() implies row.deep_view()[k]
                == row@[k]@ by {}
            assert(rowsv.skip(j as int)[0] == rowsv[j as int]);
            assert(rowsv.skip(j as int).drop_first() =~= rowsv.skip(j + 1));
        }
        if row.len() == 1 {
            match &row[0] {
                DbValue::Text(url) => {
                    if !url.as_str().is_empty() {
                        push_unique(media_urls, url.as_str());
                    }
                },
                _ => (),
            }
        }
        j = j + 1;
    }
    proof {
        assert(rowsv.skip(n as int) =~= Seq::<Seq<DbValueV>>::empty());
    }
}

/// Build the review report for the current due set: each due record,
/// highest level first and capped at `limit`, enriched with its song's
/// name, its artist's name (a failed lookup reads as "Unknown"), and the
/// de-duplicated, order-preserving union of show names and media URLs from
/// the song's show links and play history.
pub fn cmd_learning_song_review(
    conn: &mut rusqlite::Connection,
    limit: u32,
    offset_seconds: u32,
) -> (r: Result<ReviewReport, AppError>)
    ensures
        r matches Err(e) ==> (e is Database || e is Internal),
        r matches Ok(rep) ==> rep.count == rep.learning_ids@.len() && rep.count <= limit,
{
    let cands = match fetch_candidates(conn) {
        Ok(c) => c,
        Err(e) => {
            return Err(e);
        },
    };
    let now = now_unix();
    let sorted = select_due_candidates(&cands, now, offset_seconds as i64, limit as usize);

    let m = sorted.len();
    let mut songs: Vec<EnrichedSong> = Vec::new();
    let mut learning_ids: Vec<String> = Vec::new();
    let mut levels: Vec<i64> = Vec::new();
    let mut i: usize = 0;
    while i < m
        invariant
            m == sorted@.len(),
            m <= limit,
            i <= m,
            learning_ids@.len() == i,
            songs@.len() == i,
            forall|j: int|
                0 <= j < i ==> (#[trigger] learning_ids@[j])@ == sorted.deep_view()[j].rec.id,
        decreases m - i,
    {
        let c = &sorted[i];
        proof {
            assert(c@ == sorted.deep_view()[i as int]);
        }

        // Artist name; a missing or failed lookup degrades to the default.
        let artist_name: String = artist_name_from(
            query_rows(
                conn,
                "SELECT name FROM artist WHERE id = ?1",
                &vec![DbValue::Text(c.artist_id.clone())],
            ),
        );

        // The union of show names and media URLs linked to the song: show
        // links first, then play history, each value at its first
        // occurrence only.  A failure of either query is fatal.
        let mut show_names: Vec<String> = Vec::new();
        let mut media_urls: Vec<String> = Vec::new();
        let show_rows = match query_rows(
            conn,
            "SELECT rs.show_id, rs.media_url, sh.name FROM rel_show_song rs JOIN show sh ON rs.show_id = sh.id WHERE rs.song_id = ?1",
            &vec![DbValue::Text(c.rec.song_id.clone())],
        ) {
            Ok(rows) => rows,
            Err(e) => {
                return Err(AppError::Database(e));
            },
        };
        add_show_rows(&mut show_names, &mut media_urls, &show_rows);
        let ph_rows = match query_rows(
            conn,
            "SELECT media_url FROM play_history WHERE song_id = ?1 AND media_url != '' AND status = 0",
            &vec![DbValue::Text(c.rec.song_id.clone())],
        ) {
            Ok(rows) => rows,
            Err(e) => {
                return Err(AppError::Database(e));
            },
        };
        add_history_rows(&mut media_urls, &ph_rows);

        let w = wait_days_of(&c.rec);
        songs.push(
            EnrichedSong {
                song_name: c.song_name.clone(),
                level: c.rec.level,
                wait_days: w,
                artist_name,
                show_names,
                media_urls,
            },
        );
        levels.push(c.rec.level);
        learning_ids.push(c.rec.id.clone());
        i = i + 1;
    }

    let dist = level_histogram(&levels);
    let html = build_review_html(&songs, &dist);
    Ok(ReviewReport { html, count: learning_ids.len(), learning_ids })
}

} // verus!
