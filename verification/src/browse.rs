//! The document browser's plain parts: fetched documents, the search
//! result summary, the pagination arithmetic, the results title shown over
//! the table, and the body of the search request the committed query turns
//! into.

use vstd::prelude::*;
use vstd::string::*;
use crate::json::JsonValue;
use crate::json::JsonView;
use crate::json::jview;
use crate::json::jview_fields;
use crate::json::lemma_jview_fields;
use crate::text::dec_str;
use crate::text::trim_of;
use crate::text::trim_ws;
use crate::text::u64_str;

verus! {

/// One fetched document: its identifier and its structured source value.
pub struct DocEntry {
    pub id: String,
    pub source: JsonValue,
}

/// The summary of the last search response: total hits, elapsed time,
/// failed shard count and timeout flag, each unknown until reported.
#[derive(Clone, Copy, Debug)]
pub struct SearchSummary {
    pub total: Option<u64>,
    pub took: Option<u64>,
    pub shards_failed: Option<u64>,
    pub timed_out: Option<bool>,
}

// ---------------------------------------------------------------------------
// Pagination
// ---------------------------------------------------------------------------

/// The offset after advancing one page: a no-op once the end is reached
/// when the total is known; an optimistic advance when it is not, held
/// back only by the machine limit.
pub open spec fn next_from(from: u64, size: u64, total: Option<u64>) -> int {
    match total {
        Some(t) => if from + size < t {
            from + size
        } else {
            from as int
        },
        None => if from + size <= u64::MAX {
            from + size
        } else {
            from as int
        },
    }
}

/// The offset after retreating one page, clamped at zero.
pub open spec fn prev_from(from: u64, size: u64) -> int {
    if from >= size {
        from - size
    } else {
        0
    }
}

/// Advancing one page and then retreating one restores the original
/// offset whenever the total was already known and the forward move was
/// not a no-op.
pub proof fn lemma_page_round_trip(from: u64, size: u64, total: u64)
    requires
        from + size < total,
    ensures
        next_from(from, size, Some(total)) == from + size,
        prev_from(next_from(from, size, Some(total)) as u64, size) == from,
{
}

// ---------------------------------------------------------------------------
// Results title
// ---------------------------------------------------------------------------

/// The title over the results table: the page position when the total is
/// known, the raw offset and page size when it is not.
pub open spec fn results_title_of(from: u64, size: u64, total: Option<u64>) -> Seq<char> {
    match total {
        Some(t) => if t == 0 {
            "Results (0)"@
        } else {
            "Results (page "@ + dec_str(from as int / size as int + 1) + "/"@ + dec_str(
                (t - 1) as int / size as int + 1,
            ) + ", total "@ + dec_str(t as int) + ")"@
        },
        None => "Results (from "@ + dec_str(from as int) + ", size "@ + dec_str(size as int)
            + ")"@,
    }
}

/// Renders the results title, as `results_title_of` describes.
pub fn results_title(from: u64, size: u64, total: Option<u64>) -> (r: String)
    requires
        size > 0,
        (from as int) / (size as int) < u64::MAX,
    ensures
        r@ == results_title_of(from, size, total),
{
    match total {
        Some(t) => {
            if t == 0 {
                "Results (0)".to_owned()
            } else {
                let page: u64 = from / size + 1;
                let pages: u64 = (t - 1) / size + 1;
                let mut r = "Results (page ".to_owned();
                r.append(u64_str(page).as_str());
                r.append("/");
                r.append(u64_str(pages).as_str());
                r.append(", total ");
                r.append(u64_str(t).as_str());
                r.append(")");
                proof {
                    assert(r@ =~= results_title_of(from, size, total));
                }
                r
            }
        },
        None => {
            let mut r = "Results (from ".to_owned();
            r.append(u64_str(from).as_str());
            r.append(", size ");
            r.append(u64_str(size).as_str());
            r.append(")");
            proof {
                assert(r@ =~= results_title_of(from, size, total));
            }
            r
        },
    }
}

/// The width of the id column: a third of the table, kept between 12 and
/// 28 cells.
pub open spec fn id_width_of(total_width: u16) -> int {
    let target = total_width as int / 3;
    if target < 12 {
        12
    } else if target > 28 {
        28
    } else {
        target
    }
}

/// Picks the id column width, as `id_width_of` describes.
pub fn result_id_width(total_width: u16) -> (r: u16)
    ensures
        r as int == id_width_of(total_width),
{
    let target = total_width / 3;
    if target < 12 {
        12
    } else if target > 28 {
        28
    } else {
        target
    }
}

// ---------------------------------------------------------------------------
// Search request body
// ---------------------------------------------------------------------------

/// The body of the search request for a committed query: a blank query
/// asks for everything; any other query is passed through as a free-text
/// query-string expression whose terms combine with AND by default.
pub open spec fn search_body_view(q: Seq<char>) -> JsonView {
    let t = trim_of(q);
    if t.len() == 0 {
        JsonView::Obj(
            seq![("query"@, JsonView::Obj(seq![("match_all"@, JsonView::Obj(Seq::empty()))]))],
        )
    } else {
        JsonView::Obj(
            seq![
                (
                    "query"@,
                    JsonView::Obj(
                        seq![
                            (
                                "query_string"@,
                                JsonView::Obj(
                                    seq![
                                        ("query"@, JsonView::Str(t)),
                                        ("default_operator"@, JsonView::Str("AND"@)),
                                    ],
                                ),
                            ),
                        ],
                    ),
                ),
            ],
        )
    }
}

/// Builds the search request body for `query`, as `search_body_view`
/// describes.
pub fn search_request_body(query: &str) -> (r: JsonValue)
    ensures
        jview(r) == search_body_view(query@),
{
    let trimmed = trim_ws(query);
    if trimmed.is_empty() {
        let empty_fields: Vec<(String, JsonValue)> = Vec::new();
        proof {
            assert(jview_fields(empty_fields@) =~= Seq::<(Seq<char>, JsonView)>::empty());
        }
        let mut inner: Vec<(String, JsonValue)> = Vec::new();
        inner.push(("match_all".to_owned(), JsonValue::Obj(empty_fields)));
        proof {
            lemma_jview_fields(inner@);
            assert(jview_fields(inner@) =~= seq![
                ("match_all"@, JsonView::Obj(Seq::<(Seq<char>, JsonView)>::empty())),
            ]);
        }
        let mut outer: Vec<(String, JsonValue)> = Vec::new();
        outer.push(("query".to_owned(), JsonValue::Obj(inner)));
        proof {
            lemma_jview_fields(outer@);
            assert(jview_fields(outer@) =~= seq![
                (
                    "query"@,
                    JsonView::Obj(
                        seq![("match_all"@, JsonView::Obj(Seq::<(Seq<char>, JsonView)>::empty()))],
                    ),
                ),
            ]);
        }
        JsonValue::Obj(outer)
    } else {
        let mut qs: Vec<(String, JsonValue)> = Vec::new();
        qs.push(("query".to_owned(), JsonValue::Str(trimmed.to_owned())));
        qs.push(("default_operator".to_owned(), JsonValue::Str("AND".to_owned())));
        proof {
            lemma_jview_fields(qs@);
            assert(jview_fields(qs@) =~= seq![
                ("query"@, JsonView::Str(trim_of(query@))),
                ("default_operator"@, JsonView::Str("AND"@)),
            ]);
        }
        let mut inner: Vec<(String, JsonValue)> = Vec::new();
        inner.push(("query_string".to_owned(), JsonValue::Obj(qs)));
        proof {
            lemma_jview_fields(inner@);
            assert(jview_fields(inner@) =~= seq![
                (
                    "query_string"@,
                    JsonView::Obj(
                        seq![
                            ("query"@, JsonView::Str(trim_of(query@))),
                            ("default_operator"@, JsonView::Str("AND"@)),
                        ],
                    ),
                ),
            ]);
        }
        let mut outer: Vec<(String, JsonValue)> = Vec::new();
        outer.push(("query".to_owned(), JsonValue::Obj(inner)));
        proof {
            lemma_jview_fields(outer@);
            assert(jview(JsonValue::Obj(outer)) == search_body_view(query@)) by {
                assert(jview_fields(outer@) =~= seq![
                    (
                        "query"@,
                        JsonView::Obj(
                            seq![
                                (
                                    "query_string"@,
                                    JsonView::Obj(
                                        seq![
                                            ("query"@, JsonView::Str(trim_of(query@))),
                                            ("default_operator"@, JsonView::Str("AND"@)),
                                        ],
                                    ),
                                ),
                            ],
                        ),
                    ),
                ]);
            }
        }
        JsonValue::Obj(outer)
    }
}

} // verus!
