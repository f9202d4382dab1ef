//! Centralized per-table field configuration: one place that says, for each
//! table, which fields can be selected, searched, created and updated.

use vstd::prelude::*;

use crate::models::{
    spec_artist_create_fields, spec_artist_fields, spec_artist_search_cols,
    spec_artist_update_fields, spec_learning_create_fields, spec_learning_fields,
    spec_learning_search_cols, spec_learning_update_fields, spec_link_search_cols,
    spec_media_create_fields, spec_play_history_fields, spec_play_history_update_fields,
    spec_rel_show_song_fields, spec_show_create_fields, spec_show_fields,
    spec_show_update_fields, spec_song_create_fields, spec_song_fields,
    spec_song_search_cols, spec_song_update_fields,
};
use crate::text::str_eq;

verus! {

/// Per-table field metadata.
#[derive(Debug)]
pub struct TableConfig {
    /// Fields selectable by a read or search.
    pub selectable: Vec<&'static str>,
    /// Columns searchable as term keys.
    pub searchable: Vec<&'static str>,
    /// Fields writable by a create.
    pub creatable: Vec<&'static str>,
    /// Fields writable by an update.
    pub updatable: Vec<&'static str>,
}

/// Whether `r` holds exactly the four given field lists.
pub open spec fn spec_config_is(
    r: Option<TableConfig>,
    sel: Seq<Seq<char>>,
    sea: Seq<Seq<char>>,
    cre: Seq<Seq<char>>,
    upd: Seq<Seq<char>>,
) -> bool {
    match r {
        Some(c) => c.selectable.deep_view() == sel && c.searchable.deep_view() == sea
            && c.creatable.deep_view() == cre && c.updatable.deep_view() == upd,
        None => false,
    }
}

pub open spec fn spec_show_table_search_cols() -> Seq<Seq<char>> {
    seq!["name"@, "name_romaji"@, "vintage"@]
}

/// Look up the configuration for a table by name; an unknown table has none.
pub fn get(table: &str) -> (r: Option<TableConfig>)
    ensures
        table@ == "artist"@ ==> spec_config_is(
            r,
            spec_artist_fields(),
            spec_artist_search_cols(),
            spec_artist_create_fields(),
            spec_artist_update_fields(),
        ),
        table@ == "show"@ ==> spec_config_is(
            r,
            spec_show_fields(),
            spec_show_table_search_cols(),
            spec_show_create_fields(),
            spec_show_update_fields(),
        ),
        table@ == "song"@ ==> spec_config_is(
            r,
            spec_song_fields(),
            spec_song_search_cols(),
            spec_song_create_fields(),
            spec_song_update_fields(),
        ),
        table@ == "play_history"@ ==> spec_config_is(
            r,
            spec_play_history_fields(),
            spec_link_search_cols(),
            spec_media_create_fields(),
            spec_play_history_update_fields(),
        ),
        table@ == "learning"@ ==> spec_config_is(
            r,
            spec_learning_fields(),
            spec_learning_search_cols(),
            spec_learning_create_fields(),
            spec_learning_update_fields(),
        ),
        table@ == "rel_show_song"@ ==> spec_config_is(
            r,
            spec_rel_show_song_fields(),
            spec_link_search_cols(),
            spec_media_create_fields(),
            Seq::empty(),
        ),
        (table@ != "artist"@ && table@ != "show"@ && table@ != "song"@ && table@
            != "play_history"@ && table@ != "learning"@ && table@ != "rel_show_song"@) ==> r
            is None,
{
    proof {
        crate::models::lemma_table_names_distinct();
    }
    if str_eq(table, "artist") {
        let c = TableConfig {
            selectable: vec!["id", "name", "name_context", "created_at", "updated_at", "status"],
            searchable: vec!["name", "name_context"],
            creatable: vec!["name", "name_context"],
            updatable: vec!["name", "name_context", "status"],
        };
        proof {
            assert(c.selectable.deep_view() =~= spec_artist_fields());
            assert(c.searchable.deep_view() =~= spec_artist_search_cols());
            assert(c.creatable.deep_view() =~= spec_artist_create_fields());
            assert(c.updatable.deep_view() =~= spec_artist_update_fields());
        }
        Some(c)
    } else if str_eq(table, "show") {
        let c = TableConfig {
            selectable: vec![
                "id",
                "name",
                "name_romaji",
                "vintage",
                "s_type",
                "created_at",
                "updated_at",
                "status",
            ],
            searchable: vec!["name", "name_romaji", "vintage"],
            creatable: vec!["name", "name_romaji", "vintage", "s_type"],
            updatable: vec!["name", "name_romaji", "vintage", "s_type", "status"],
        };
        proof {
            assert(c.selectable.deep_view() =~= spec_show_fields());
            assert(c.searchable.deep_view() =~= spec_show_table_search_cols());
            assert(c.creatable.deep_view() =~= spec_show_create_fields());
            assert(c.updatable.deep_view() =~= spec_show_update_fields());
        }
        Some(c)
    } else if str_eq(table, "song") {
        let c = TableConfig {
            selectable: vec![
                "id",
                "name",
                "name_context",
                "artist_id",
                "created_at",
                "updated_at",
                "status",
            ],
            searchable: vec!["name", "name_context", "artist_id"],
            creatable: vec!["name", "name_context", "artist_id"],
            updatable: vec!["name", "name_context", "artist_id", "status"],
        };
        proof {
            assert(c.selectable.deep_view() =~= spec_song_fields());
            assert(c.searchable.deep_view() =~= spec_song_search_cols());
            assert(c.creatable.deep_view() =~= spec_song_create_fields());
            assert(c.updatable.deep_view() =~= spec_song_update_fields());
        }
        Some(c)
    } else if str_eq(table, "play_history") {
        let c = TableConfig {
            selectable: vec!["id", "show_id", "song_id", "created_at", "media_url", "status"],
            searchable: vec!["show_id", "song_id"],
            creatable: vec!["show_id", "song_id", "media_url"],
            updatable: vec!["show_id", "song_id", "media_url", "status"],
        };
        proof {
            assert(c.selectable.deep_view() =~= spec_play_history_fields());
            assert(c.searchable.deep_view() =~= spec_link_search_cols());
            assert(c.creatable.deep_view() =~= spec_media_create_fields());
            assert(c.updatable.deep_view() =~= spec_play_history_update_fields());
        }
        Some(c)
    } else if str_eq(table, "learning") {
        let c = TableConfig {
            selectable: vec![
                "id",
                "song_id",
                "level",
                "created_at",
                "updated_at",
                "last_level_up_at",
                "level_up_path",
                "graduated",
            ],
            searchable: vec!["song_id", "level", "graduated", "last_level_up_at", "level_up_path"],
            creatable: vec!["song_id", "level_up_path"],
            updatable: vec!["level", "graduated"],
        };
        proof {
            assert(c.selectable.deep_view() =~= spec_learning_fields());
            assert(c.searchable.deep_view() =~= spec_learning_search_cols());
            assert(c.creatable.deep_view() =~= spec_learning_create_fields());
            assert(c.updatable.deep_view() =~= spec_learning_update_fields());
        }
        Some(c)
    } else if str_eq(table, "rel_show_song") {
        let c = TableConfig {
            selectable: vec!["show_id", "song_id", "media_url", "created_at"],
            searchable: vec!["show_id", "song_id"],
            creatable: vec!["show_id", "song_id", "media_url"],
            updatable: Vec::new(),
        };
        proof {
            assert(c.selectable.deep_view() =~= spec_rel_show_song_fields());
            assert(c.searchable.deep_view() =~= spec_link_search_cols());
            assert(c.creatable.deep_view() =~= spec_media_create_fields());
            assert(c.updatable.deep_view() =~= Seq::<Seq<char>>::empty());
        }
        Some(c)
    } else {
        None
    }
}

} // verus!
