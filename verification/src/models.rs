//! Table and field allow-lists: which tables each operation accepts and
//! which fields it may read or write, plus the shared input helpers.
//!
//! Identifier validation against these lists is what keeps dynamic query
//! text safe: every table or field name spliced into SQL is checked here
//! first.

use vstd::prelude::*;

use crate::error::AppError;
use crate::text::{spec_clean_list, spec_join, str_eq};

verus! {

pub open spec fn spec_artist_fields() -> Seq<Seq<char>> {
    seq!["id"@, "name"@, "name_context"@, "created_at"@, "updated_at"@, "status"@]
}

pub open spec fn spec_show_fields() -> Seq<Seq<char>> {
    seq![
        "id"@,
        "name"@,
        "name_romaji"@,
        "vintage"@,
        "s_type"@,
        "created_at"@,
        "updated_at"@,
        "status"@,
    ]
}

pub open spec fn spec_song_fields() -> Seq<Seq<char>> {
    seq!["id"@, "name"@, "name_context"@, "artist_id"@, "created_at"@, "updated_at"@, "status"@]
}

pub open spec fn spec_play_history_fields() -> Seq<Seq<char>> {
    seq!["id"@, "show_id"@, "song_id"@, "created_at"@, "media_url"@, "status"@]
}

pub open spec fn spec_learning_fields() -> Seq<Seq<char>> {
    seq![
        "id"@,
        "song_id"@,
        "level"@,
        "created_at"@,
        "updated_at"@,
        "last_level_up_at"@,
        "level_up_path"@,
        "graduated"@,
    ]
}

pub open spec fn spec_rel_show_song_fields() -> Seq<Seq<char>> {
    seq!["show_id"@, "song_id"@, "media_url"@, "created_at"@]
}


/// The six table names are pairwise distinct.
pub(crate) proof fn lemma_table_names_distinct()
    ensures
        "artist"@ != "show"@,
        "artist"@ != "song"@,
        "artist"@ != "play_history"@,
        "artist"@ != "learning"@,
        "artist"@ != "rel_show_song"@,
        "show"@ != "song"@,
        "show"@ != "play_history"@,
        "show"@ != "learning"@,
        "show"@ != "rel_show_song"@,
        "song"@ != "play_history"@,
        "song"@ != "learning"@,
        "song"@ != "rel_show_song"@,
        "play_history"@ != "learning"@,
        "play_history"@ != "rel_show_song"@,
        "learning"@ != "rel_show_song"@,
{
    reveal_strlit("artist");
    reveal_strlit("show");
    reveal_strlit("song");
    reveal_strlit("play_history");
    reveal_strlit("learning");
    reveal_strlit("rel_show_song");
    assert("artist"@.len() == 6);
    assert("show"@.len() == 4);
    assert("song"@.len() == 4);
    assert("play_history"@.len() == 12);
    assert("learning"@.len() == 8);
    assert("rel_show_song"@.len() == 13);
    assert("show"@[1] != "song"@[1]);
}

/// Whether `r` succeeded with exactly the field list `l`.
pub open spec fn spec_ok_fields(r: Result<Vec<&'static str>, AppError>, l: Seq<Seq<char>>) -> bool {
    match r {
        Ok(v) => v.deep_view() == l,
        Err(_) => false,
    }
}

/// Whether `r` failed with an invalid-parameter error carrying message `m`.
pub open spec fn spec_err_invalid(r: Result<Vec<&'static str>, AppError>, m: Seq<char>) -> bool {
    match r {
        Ok(_) => false,
        Err(e) => match e {
            AppError::InvalidParameter(mm) => mm@ == m,
            _ => false,
        },
    }
}

/// Allowed fields per table for a read by id.
pub fn get_fields(table: &str) -> (r: Result<Vec<&'static str>, AppError>)
    ensures
        table@ == "artist"@ ==> spec_ok_fields(r, spec_artist_fields()),
        table@ == "show"@ ==> spec_ok_fields(r, spec_show_fields()),
        table@ == "song"@ ==> spec_ok_fields(r, spec_song_fields()),
        table@ == "play_history"@ ==> spec_ok_fields(r, spec_play_history_fields()),
        table@ == "learning"@ ==> spec_ok_fields(r, spec_learning_fields()),
        (table@ != "artist"@ && table@ != "show"@ && table@ != "song"@ && table@
            != "play_history"@ && table@ != "learning"@) ==> spec_err_invalid(
            r,
            "Invalid table for get: "@ + table@,
        ),
{
    proof {
        lemma_table_names_distinct();
    }
    if str_eq(table, "artist") {
        let v = vec!["id", "name", "name_context", "created_at", "updated_at", "status"];
        proof {
            assert(v.deep_view() =~= spec_artist_fields());
        }
        Ok(v)
    } else if str_eq(table, "show") {
        let v = vec![
            "id",
            "name",
            "name_romaji",
            "vintage",
            "s_type",
            "created_at",
            "updated_at",
            "status",
        ];
        proof {
            assert(v.deep_view() =~= spec_show_fields());
        }
        Ok(v)
    } else if str_eq(table, "song") {
        let v = vec!["id", "name", "name_context", "artist_id", "created_at", "updated_at", "status"];
        proof {
            assert(v.deep_view() =~= spec_song_fields());
        }
        Ok(v)
    } else if str_eq(table, "play_history") {
        let v = vec!["id", "show_id", "song_id", "created_at", "media_url", "status"];
        proof {
            assert(v.deep_view() =~= spec_play_history_fields());
        }
        Ok(v)
    } else if str_eq(table, "learning") {
        let v = vec![
            "id",
            "song_id",
            "level",
            "created_at",
            "updated_at",
            "last_level_up_at",
            "level_up_path",
            "graduated",
        ];
        proof {
            assert(v.deep_view() =~= spec_learning_fields());
        }
        Ok(v)
    } else {
        let mut m = "Invalid table for get: ".to_owned();
        m.append(table);
        Err(AppError::InvalidParameter(m))
    }
}

pub open spec fn spec_artist_search_cols() -> Seq<Seq<char>> {
    seq!["name"@, "name_context"@]
}

pub open spec fn spec_show_search_cols() -> Seq<Seq<char>> {
    seq!["name"@, "vintage"@]
}

pub open spec fn spec_song_search_cols() -> Seq<Seq<char>> {
    seq!["name"@, "name_context"@, "artist_id"@]
}

pub open spec fn spec_link_search_cols() -> Seq<Seq<char>> {
    seq!["show_id"@, "song_id"@]
}

pub open spec fn spec_learning_search_cols() -> Seq<Seq<char>> {
    seq!["song_id"@, "level"@, "graduated"@, "last_level_up_at"@, "level_up_path"@]
}

/// Allowed searchable columns per table (the keys of a search term).
pub fn search_columns(table: &str) -> (r: Result<Vec<&'static str>, AppError>)
    ensures
        table@ == "artist"@ ==> spec_ok_fields(r, spec_artist_search_cols()),
        table@ == "show"@ ==> spec_ok_fields(r, spec_show_search_cols()),
        table@ == "song"@ ==> spec_ok_fields(r, spec_song_search_cols()),
        table@ == "play_history"@ ==> spec_ok_fields(r, spec_link_search_cols()),
        table@ == "rel_show_song"@ ==> spec_ok_fields(r, spec_link_search_cols()),
        table@ == "learning"@ ==> spec_ok_fields(r, spec_learning_search_cols()),
        (table@ != "artist"@ && table@ != "show"@ && table@ != "song"@ && table@
            != "play_history"@ && table@ != "rel_show_song"@ && table@ != "learning"@)
            ==> spec_err_invalid(r, "Invalid table for search with columns: "@ + table@),
{
    proof {
        lemma_table_names_distinct();
    }
    if str_eq(table, "artist") {
        let v = vec!["name", "name_context"];
        proof {
            assert(v.deep_view() =~= spec_artist_search_cols());
        }
        Ok(v)
    } else if str_eq(table, "show") {
        let v = vec!["name", "vintage"];
        proof {
            assert(v.deep_view() =~= spec_show_search_cols());
        }
        Ok(v)
    } else if str_eq(table, "song") {
        let v = vec!["name", "name_context", "artist_id"];
        proof {
            assert(v.deep_view() =~= spec_song_search_cols());
        }
        Ok(v)
    } else if str_eq(table, "play_history") {
        let v = vec!["show_id", "song_id"];
        proof {
            assert(v.deep_view() =~= spec_link_search_cols());
        }
        Ok(v)
    } else if str_eq(table, "rel_show_song") {
        let v = vec!["show_id", "song_id"];
        proof {
            assert(v.deep_view() =~= spec_link_search_cols());
        }
        Ok(v)
    } else if str_eq(table, "learning") {
        let v = vec!["song_id", "level", "graduated", "last_level_up_at", "level_up_path"];
        proof {
            assert(v.deep_view() =~= spec_learning_search_cols());
        }
        Ok(v)
    } else {
        let mut m = "Invalid table for search with columns: ".to_owned();
        m.append(table);
        Err(AppError::InvalidParameter(m))
    }
}

/// Allowed result fields per table for a search.
pub fn search_fields(table: &str) -> (r: Result<Vec<&'static str>, AppError>)
    ensures
        table@ == "artist"@ ==> spec_ok_fields(r, spec_artist_fields()),
        table@ == "show"@ ==> spec_ok_fields(r, spec_show_fields()),
        table@ == "song"@ ==> spec_ok_fields(r, spec_song_fields()),
        table@ == "play_history"@ ==> spec_ok_fields(r, spec_play_history_fields()),
        table@ == "rel_show_song"@ ==> spec_ok_fields(r, spec_rel_show_song_fields()),
        table@ == "learning"@ ==> spec_ok_fields(r, spec_learning_fields()),
        (table@ != "artist"@ && table@ != "show"@ && table@ != "song"@ && table@
            != "play_history"@ && table@ != "rel_show_song"@ && table@ != "learning"@)
            ==> spec_err_invalid(r, "Invalid table for search with fields: "@ + table@),
{
    proof {
        lemma_table_names_distinct();
    }
    if str_eq(table, "rel_show_song") {
        let v = vec!["show_id", "song_id", "media_url", "created_at"];
        proof {
            assert(v.deep_view() =~= spec_rel_show_song_fields());
        }
        Ok(v)
    } else if str_eq(table, "artist") || str_eq(table, "show") || str_eq(table, "song") || str_eq(
        table,
        "play_history",
    ) || str_eq(table, "learning") {
        match get_fields(table) {
            Ok(v) => Ok(v),
            Err(e) => Err(e),
        }
    } else {
        let mut m = "Invalid table for search with fields: ".to_owned();
        m.append(table);
        Err(AppError::InvalidParameter(m))
    }
}

pub open spec fn spec_artist_create_fields() -> Seq<Seq<char>> {
    seq!["name"@, "name_context"@]
}

pub open spec fn spec_show_create_fields() -> Seq<Seq<char>> {
    seq!["name"@, "name_romaji"@, "vintage"@, "s_type"@]
}

pub open spec fn spec_song_create_fields() -> Seq<Seq<char>> {
    seq!["name"@, "name_context"@, "artist_id"@]
}

pub open spec fn spec_media_create_fields() -> Seq<Seq<char>> {
    seq!["show_id"@, "song_id"@, "media_url"@]
}

pub open spec fn spec_learning_create_fields() -> Seq<Seq<char>> {
    seq!["song_id"@, "level_up_path"@]
}

/// Allowed data fields per table for a create.
pub fn create_data_fields(table: &str) -> (r: Result<Vec<&'static str>, AppError>)
    ensures
        table@ == "artist"@ ==> spec_ok_fields(r, spec_artist_create_fields()),
        table@ == "show"@ ==> spec_ok_fields(r, spec_show_create_fields()),
        table@ == "song"@ ==> spec_ok_fields(r, spec_song_create_fields()),
        table@ == "play_history"@ ==> spec_ok_fields(r, spec_media_create_fields()),
        table@ == "rel_show_song"@ ==> spec_ok_fields(r, spec_media_create_fields()),
        table@ == "learning"@ ==> spec_ok_fields(r, spec_learning_create_fields()),
        (table@ != "artist"@ && table@ != "show"@ && table@ != "song"@ && table@
            != "play_history"@ && table@ != "rel_show_song"@ && table@ != "learning"@)
            ==> spec_err_invalid(r, "Invalid table for create: "@ + table@),
{
    proof {
        lemma_table_names_distinct();
    }
    if str_eq(table, "artist") {
        let v = vec!["name", "name_context"];
        proof {
            assert(v.deep_view() =~= spec_artist_create_fields());
        }
        Ok(v)
    } else if str_eq(table, "show") {
        let v = vec!["name", "name_romaji", "vintage", "s_type"];
        proof {
            assert(v.deep_view() =~= spec_show_create_fields());
        }
        Ok(v)
    } else if str_eq(table, "song") {
        let v = vec!["name", "name_context", "artist_id"];
        proof {
            assert(v.deep_view() =~= spec_song_create_fields());
        }
        Ok(v)
    } else if str_eq(table, "play_history") || str_eq(table, "rel_show_song") {
        let v = vec!["show_id", "song_id", "media_url"];
        proof {
            assert(v.deep_view() =~= spec_media_create_fields());
        }
        Ok(v)
    } else if str_eq(table, "learning") {
        let v = vec!["song_id", "level_up_path"];
        proof {
            assert(v.deep_view() =~= spec_learning_create_fields());
        }
        Ok(v)
    } else {
        let mut m = "Invalid table for create: ".to_owned();
        m.append(table);
        Err(AppError::InvalidParameter(m))
    }
}

pub open spec fn spec_artist_update_fields() -> Seq<Seq<char>> {
    seq!["name"@, "name_context"@, "status"@]
}

pub open spec fn spec_show_update_fields() -> Seq<Seq<char>> {
    seq!["name"@, "name_romaji"@, "vintage"@, "s_type"@, "status"@]
}

pub open spec fn spec_song_update_fields() -> Seq<Seq<char>> {
    seq!["name"@, "name_context"@, "artist_id"@, "status"@]
}

pub open spec fn spec_play_history_update_fields() -> Seq<Seq<char>> {
    seq!["show_id"@, "song_id"@, "media_url"@, "status"@]
}

pub open spec fn spec_learning_update_fields() -> Seq<Seq<char>> {
    seq!["level"@, "graduated"@]
}

/// Allowed data fields per table for an update.
pub fn update_data_fields(table: &str) -> (r: Result<Vec<&'static str>, AppError>)
    ensures
        table@ == "artist"@ ==> spec_ok_fields(r, spec_artist_update_fields()),
        table@ == "show"@ ==> spec_ok_fields(r, spec_show_update_fields()),
        table@ == "song"@ ==> spec_ok_fields(r, spec_song_update_fields()),
        table@ == "play_history"@ ==> spec_ok_fields(r, spec_play_history_update_fields()),
        table@ == "learning"@ ==> spec_ok_fields(r, spec_learning_update_fields()),
        (table@ != "artist"@ && table@ != "show"@ && table@ != "song"@ && table@
            != "play_history"@ && table@ != "learning"@) ==> spec_err_invalid(
            r,
            "Invalid table for update: "@ + table@,
        ),
{
    proof {
        lemma_table_names_distinct();
    }
    if str_eq(table, "artist") {
        let v = vec!["name", "name_context", "status"];
        proof {
            assert(v.deep_view() =~= spec_artist_update_fields());
        }
        Ok(v)
    } else if str_eq(table, "show") {
        let v = vec!["name", "name_romaji", "vintage", "s_type", "status"];
        proof {
            assert(v.deep_view() =~= spec_show_update_fields());
        }
        Ok(v)
    } else if str_eq(table, "song") {
        let v = vec!["name", "name_context", "artist_id", "status"];
        proof {
            assert(v.deep_view() =~= spec_song_update_fields());
        }
        Ok(v)
    } else if str_eq(table, "play_history") {
        let v = vec!["show_id", "song_id", "media_url", "status"];
        proof {
            assert(v.deep_view() =~= spec_play_history_update_fields());
        }
        Ok(v)
    } else if str_eq(table, "learning") {
        let v = vec!["level", "graduated"];
        proof {
            assert(v.deep_view() =~= spec_learning_update_fields());
        }
        Ok(v)
    } else {
        let mut m = "Invalid table for update: ".to_owned();
        m.append(table);
        Err(AppError::InvalidParameter(m))
    }
}

/// Valid table names for a read by id.
pub fn get_tables() -> (v: Vec<&'static str>)
    ensures
        v.deep_view() == seq!["artist"@, "show"@, "song"@, "play_history"@, "learning"@],
{
    let v = vec!["artist", "show", "song", "play_history", "learning"];
    proof {
        assert(v.deep_view() =~= seq!["artist"@, "show"@, "song"@, "play_history"@, "learning"@]);
    }
    v
}

/// Valid table names for a search.
pub fn search_tables() -> (v: Vec<&'static str>)
    ensures
        v.deep_view() == seq![
            "artist"@,
            "show"@,
            "song"@,
            "play_history"@,
            "rel_show_song"@,
            "learning"@,
        ],
{
    let v = vec!["artist", "show", "song", "play_history", "rel_show_song", "learning"];
    proof {
        assert(v.deep_view() =~= seq![
            "artist"@,
            "show"@,
            "song"@,
            "play_history"@,
            "rel_show_song"@,
            "learning"@,
        ]);
    }
    v
}

/// Valid table names for a duplicates scan.
pub fn duplicates_tables() -> (v: Vec<&'static str>)
    ensures
        v.deep_view() == seq!["artist"@, "show"@, "song"@],
{
    let v = vec!["artist", "show", "song"];
    proof {
        assert(v.deep_view() =~= seq!["artist"@, "show"@, "song"@]);
    }
    v
}

/// Valid table names for a create.
pub fn create_tables() -> (v: Vec<&'static str>)
    ensures
        v.deep_view() == seq![
            "artist"@,
            "show"@,
            "song"@,
            "play_history"@,
            "learning"@,
            "rel_show_song"@,
        ],
{
    let v = vec!["artist", "show", "song", "play_history", "learning", "rel_show_song"];
    proof {
        assert(v.deep_view() =~= seq![
            "artist"@,
            "show"@,
            "song"@,
            "play_history"@,
            "learning"@,
            "rel_show_song"@,
        ]);
    }
    v
}

/// Valid table names for an update.
pub fn update_tables() -> (v: Vec<&'static str>)
    ensures
        v.deep_view() == seq!["artist"@, "show"@, "song"@, "play_history"@, "learning"@],
{
    let v = vec!["artist", "show", "song", "play_history", "learning"];
    proof {
        assert(v.deep_view() =~= seq!["artist"@, "show"@, "song"@, "play_history"@, "learning"@]);
    }
    v
}

/// Valid table names for a delete.
pub fn delete_tables() -> (v: Vec<&'static str>)
    ensures
        v.deep_view() == seq!["artist"@, "song"@],
{
    let v = vec!["artist", "song"];
    proof {
        assert(v.deep_view() =~= seq!["artist"@, "song"@]);
    }
    v
}

/// Valid match modes for search term conditions.
pub fn match_modes() -> (v: Vec<&'static str>)
    ensures
        v.deep_view() == seq!["exact"@, "exact-i"@, "starts-with"@, "ends-with"@, "contains"@],
{
    let v = vec!["exact", "exact-i", "starts-with", "ends-with", "contains"];
    proof {
        assert(v.deep_view() =~= seq![
            "exact"@,
            "exact-i"@,
            "starts-with"@,
            "ends-with"@,
            "contains"@,
        ]);
    }
    v
}

/// Validate a table name against an allowed list.
pub fn validate_table(table: &str, allowed: &Vec<&'static str>) -> (r: Result<(), AppError>)
    ensures
        (exists|i: int| 0 <= i < allowed.deep_view().len() && allowed.deep_view()[i] == table@)
            <==> r is Ok,
        r matches Err(e) ==> (e matches AppError::InvalidParameter(m) && m@ == "Invalid table: "@
            + table@ + ". Allowed: "@ + spec_join(allowed.deep_view(), ", "@)),
{
    let ghost l = allowed.deep_view();
    let n = allowed.len();
    let mut i: usize = 0;
    while i < n
        invariant
            n == allowed@.len(),
            l == allowed.deep_view(),
            i <= n,
            forall|j: int| 0 <= j < i ==> l[j] != table@,
        decreases n - i,
    {
        if str_eq(allowed[i], table) {
            proof {
                assert(l[i as int] == allowed@[i as int]@);
            }
            return Ok(());
        }
        i = i + 1;
    }
    let mut m = "Invalid table: ".to_owned();
    m.append(table);
    m.append(". Allowed: ");
    m.append(crate::text::join_strs(allowed, ", ").as_str());
    Err(AppError::InvalidParameter(m))
}


/// Index of the first field that `allowed` does not hold, or `-1`.
pub open spec fn spec_first_invalid(fields: Seq<Seq<char>>, allowed: Seq<Seq<char>>) -> int
    decreases fields.len(),
{
    if fields.len() == 0 {
        -1
    } else if !crate::engine::spec_contains(allowed, fields[0]) {
        0
    } else {
        let r = spec_first_invalid(fields.drop_first(), allowed);
        if r < 0 {
            -1
        } else {
            r + 1
        }
    }
}

/// With an all-allowed prefix, the first offender is the first offending
/// index encountered.
proof fn lemma_first_invalid_at(fields: Seq<Seq<char>>, allowed: Seq<Seq<char>>, i: int)
    requires
        0 <= i < fields.len(),
        forall|j: int| 0 <= j < i ==> crate::engine::spec_contains(allowed, #[trigger] fields[j]),
        !crate::engine::spec_contains(allowed, fields[i]),
    ensures
        spec_first_invalid(fields, allowed) == i,
    decreases i,
{
    if i > 0 {
        assert(crate::engine::spec_contains(allowed, fields[0]));
        assert forall|j: int| 0 <= j < i - 1 implies crate::engine::spec_contains(
            allowed,
            #[trigger] fields.drop_first()[j],
        ) by {
            assert(fields.drop_first()[j] == fields[j + 1]);
        }
        assert(fields.drop_first()[i - 1] == fields[i]);
        lemma_first_invalid_at(fields.drop_first(), allowed, i - 1);
    }
}

/// Validate that every requested field is allowed for the table.
pub fn validate_fields(fields: &Vec<String>, allowed: &Vec<&'static str>) -> (r: Result<
    (),
    AppError,
>)
    ensures
        (forall|i: int|
            0 <= i < fields.deep_view().len() ==> crate::engine::spec_contains(
                allowed.deep_view(),
                #[trigger] fields.deep_view()[i],
            )) <==> r is Ok,
        r matches Err(e) ==> (e matches AppError::InvalidParameter(m) && ({
            let fi = spec_first_invalid(fields.deep_view(), allowed.deep_view());
            &&& 0 <= fi < fields.deep_view().len()
            &&& !crate::engine::spec_contains(allowed.deep_view(), fields.deep_view()[fi])
            &&& m@ == "Invalid field: "@ + fields.deep_view()[fi] + ". Allowed: "@ + spec_join(
                allowed.deep_view(),
                ", "@,
            )
        })),
{
    let ghost fl = fields.deep_view();
    let ghost al = allowed.deep_view();
    let n = fields.len();
    let mut i: usize = 0;
    while i < n
        invariant
            n == fields@.len(),
            fl == fields.deep_view(),
            al == allowed.deep_view(),
            i <= n,
            forall|j: int| 0 <= j < i ==> crate::engine::spec_contains(al, #[trigger] fl[j]),
        decreases n - i,
    {
        let f = &fields[i];
        proof {
            assert(fl[i as int] == fields@[i as int]@);
        }
        if !field_allowed(f.as_str(), allowed) {
            proof {
                lemma_first_invalid_at(fl, al, i as int);
            }
            let mut m = "Invalid field: ".to_owned();
            m.append(f.as_str());
            m.append(". Allowed: ");
            m.append(crate::text::join_strs(allowed, ", ").as_str());
            return Err(AppError::InvalidParameter(m));
        }
        i = i + 1;
    }
    Ok(())
}

/// Whether `allowed` holds `f`.
fn field_allowed(f: &str, allowed: &Vec<&'static str>) -> (b: bool)
    ensures
        b == crate::engine::spec_contains(allowed.deep_view(), f@),
{
    let ghost l = allowed.deep_view();
    let n = allowed.len();
    let mut i: usize = 0;
    while i < n
        invariant
            n == allowed@.len(),
            l == allowed.deep_view(),
            i <= n,
            forall|j: int| 0 <= j < i ==> l[j] != f@,
        decreases n - i,
    {
        if str_eq(allowed[i], f) {
            proof {
                assert(l[i as int] == allowed@[i as int]@);
            }
            return true;
        }
        i = i + 1;
    }
    false
}

/// Parse a comma-separated fields string into a vector.
pub fn parse_fields(fields_str: &str) -> (r: Vec<String>)
    ensures
        r.deep_view() == spec_clean_list(fields_str@),
{
    crate::text::parse_comma_list(fields_str)
}

/// Relies on `std::time::SystemTime::now`: the current Unix time in
/// seconds.  The clock decides the value, so only its sign is promised: a
/// clock before the epoch reads as zero, and a second count beyond `i64`
/// saturates.
#[verifier::external_body]
pub fn now_unix() -> (t: i64)
    ensures
        t >= 0,
{
    match std::time::SystemTime::now().duration_since(std::time::UNIX_EPOCH) {
        Ok(d) => d.as_secs().min(i64::MAX as u64) as i64,
        Err(_) => 0,
    }
}

} // verus!
