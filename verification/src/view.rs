//! The view model the dashboard hands to its drawing layer: styled text
//! spans and the functions that derive every displayed line — search-term
//! highlighting, scope list lines, the query and status lines, and the
//! bounded document drawer.

use vstd::prelude::*;
use vstd::string::*;
use crate::browse::DocEntry;
use crate::json::compact_of;
use crate::json::jview;
use crate::json::to_compact;
use crate::state::AppState;
use crate::state::DocViewMode;
use crate::state::InputMode;
use crate::state::SavedView;
use crate::state::active_col;
use crate::text::contains_sub;
use crate::text::find_sub;
use crate::text::is_space;
use crate::text::lower_of;
use crate::text::match_at;
use crate::text::str_eq;
use crate::text::trim_front;
use crate::text::trim_of;
use crate::text::truncate_string;
use crate::text::truncated_of;
use crate::text::ws_char;

verus! {

/// The color class of a reported health or status value.
#[derive(Clone, Copy, PartialEq, Eq, Structural, Debug)]
pub enum HealthColor {
    Green,
    Yellow,
    Red,
    Unknown,
}

/// How a span of line text should be drawn.
#[derive(Clone, Copy, PartialEq, Eq, Structural, Debug)]
pub enum TextStyle {
    /// Ordinary text.
    Plain,
    /// A dimmed label before a value.
    Label,
    /// Emphasized text.
    Bold,
    /// A search-term match.
    Highlight,
    /// The committed-query chip.
    Chip,
    /// A failing or timed-out status.
    Alert,
    /// The active tab or view mode.
    Accent,
    /// A health word, colored by its value.
    Health(HealthColor),
}

/// One styled piece of a display line.
#[derive(Clone, Debug)]
pub struct TextSpan {
    pub text: String,
    pub style: TextStyle,
}

/// The model of a span list: each span's characters and style.
pub open spec fn spans_view(v: Seq<TextSpan>) -> Seq<(Seq<char>, TextStyle)> {
    v.map_values(|s: TextSpan| (s.text@, s.style))
}

/// The color class of a health word.
pub open spec fn health_color_of(status: Seq<char>) -> HealthColor {
    if status == "green"@ {
        HealthColor::Green
    } else if status == "yellow"@ {
        HealthColor::Yellow
    } else if status == "red"@ {
        HealthColor::Red
    } else {
        HealthColor::Unknown
    }
}

/// Classifies a health word, as `health_color_of` describes.
pub fn health_color(status: &str) -> (r: HealthColor)
    ensures
        r == health_color_of(status@),
{
    if str_eq(status, "green") {
        HealthColor::Green
    } else if str_eq(status, "yellow") {
        HealthColor::Yellow
    } else if str_eq(status, "red") {
        HealthColor::Red
    } else {
        HealthColor::Unknown
    }
}

// ---------------------------------------------------------------------------
// The highlight token
// ---------------------------------------------------------------------------

/// The leading run of `s` up to (not including) its first white space.
pub open spec fn until_space(s: Seq<char>) -> Seq<char>
    decreases s.len(),
{
    if s.len() == 0 {
        s
    } else if is_space(s[0]) {
        Seq::empty()
    } else {
        seq![s[0]] + until_space(s.drop_first())
    }
}

/// The first whitespace-delimited segment of `q`.
pub open spec fn first_token(q: Seq<char>) -> Seq<char> {
    until_space(trim_front(q))
}

/// A single or double quote character.
pub open spec fn is_quote(c: char) -> bool {
    c == '"' || c == '\''
}

/// `s` with one layer of surrounding quotes removed: at most one leading
/// and one trailing quote character, of either kind.
pub open spec fn strip_quotes(s: Seq<char>) -> Seq<char> {
    let a = if s.len() > 0 && is_quote(s[0]) {
        s.drop_first()
    } else {
        s
    };
    if a.len() > 0 && is_quote(a.last()) {
        a.drop_last()
    } else {
        a
    }
}

/// The highlight token of a committed query: its first
/// whitespace-delimited segment, trimmed of one layer of surrounding
/// single or double quotes; no token when nothing remains.
pub open spec fn highlight_token_of(q: Seq<char>) -> Option<Seq<char>> {
    let t = strip_quotes(first_token(q));
    if t.len() == 0 {
        None
    } else {
        Some(t)
    }
}

proof fn lemma_until_space(s: Seq<char>, j: int)
    requires
        0 <= j <= s.len(),
        forall|k: int| 0 <= k < j ==> !is_space(s[k]),
        j < s.len() ==> is_space(s[j]),
    ensures
        until_space(s) == s.subrange(0, j),
    decreases j,
{
    if j == 0 {
        assert(until_space(s) =~= s.subrange(0, 0));
    } else {
        let t = s.drop_first();
        assert(forall|k: int| 0 <= k < j - 1 ==> !is_space(#[trigger] t[k]));
        lemma_until_space(t, j - 1);
        assert(seq![s[0]] + t.subrange(0, j - 1) =~= s.subrange(0, j));
    }
}

fn quote_char(c: char) -> (r: bool)
    ensures
        r == is_quote(c),
{
    c == '"' || c == '\''
}

fn strip_quotes_exec<'a>(s: &'a str) -> (r: &'a str)
    ensures
        r@ == strip_quotes(s@),
{
    let n = s.unicode_len();
    let start: usize = if n > 0 && quote_char(s.get_char(0)) {
        1
    } else {
        0
    };
    let end: usize = if n > start && quote_char(s.get_char(n - 1)) {
        n - 1
    } else {
        n
    };
    proof {
        let a = if s@.len() > 0 && is_quote(s@[0]) {
            s@.drop_first()
        } else {
            s@
        };
        assert(a =~= s@.subrange(start as int, n as int));
        let b = if a.len() > 0 && is_quote(a.last()) {
            a.drop_last()
        } else {
            a
        };
        assert(b =~= s@.subrange(start as int, end as int));
    }
    s.substring_char(start, end)
}

/// Derives the highlight token from the committed query, as
/// `highlight_token_of` describes.
pub fn highlight_token(query: &str) -> (r: Option<String>)
    ensures
        match r {
            Some(t) => highlight_token_of(query@) == Some(t@),
            None => highlight_token_of(query@) is None,
        },
{
    let n = query.unicode_len();
    let mut i: usize = 0;
    while i < n && ws_char(query.get_char(i))
        invariant
            0 <= i <= n,
            n == query@.len(),
            forall|k: int| 0 <= k < i ==> is_space(query@[k]),
        decreases n - i,
    {
        i = i + 1;
    }
    let mut j: usize = i;
    while j < n && !ws_char(query.get_char(j))
        invariant
            i <= j <= n,
            n == query@.len(),
            forall|k: int| i <= k < j ==> !is_space(query@[k]),
        decreases n - j,
    {
        j = j + 1;
    }
    proof {
        crate::text::lemma_trim_front_is_subrange(query@, i as int);
        let t = query@.subrange(i as int, n as int);
        assert(forall|k: int| 0 <= k < j - i ==> !is_space(#[trigger] t[k]));
        lemma_until_space(t, j - i);
        assert(t.subrange(0, j - i) =~= query@.subrange(i as int, j as int));
    }
    let tok = query.substring_char(i, j);
    let stripped = strip_quotes_exec(tok);
    if stripped.unicode_len() == 0 {
        None
    } else {
        Some(stripped.to_owned())
    }
}

// ---------------------------------------------------------------------------
// Line highlighting
// ---------------------------------------------------------------------------

/// The first position at or past `i` where the token matches, or the
/// line's length when it matches nowhere there.
pub open spec fn first_match_from(line: Seq<char>, token: Seq<char>, i: nat) -> nat
    decreases line.len() - i,
{
    if i >= line.len() || match_at(line, token, i as int) {
        i
    } else {
        first_match_from(line, token, (i + 1) as nat)
    }
}

pub proof fn lemma_first_match_from(line: Seq<char>, token: Seq<char>, i: nat)
    ensures
        i <= first_match_from(line, token, i),
        forall|j: int|
            i <= j < first_match_from(line, token, i) ==> !match_at(line, token, j),
        (exists|j: int| i <= j && match_at(line, token, j)) ==> match_at(
            line,
            token,
            first_match_from(line, token, i) as int,
        ),
    decreases line.len() - i,
{
    if !(i >= line.len() || match_at(line, token, i as int)) {
        lemma_first_match_from(line, token, (i + 1) as nat);
        if exists|j: int| i <= j && match_at(line, token, j) {
            let j = choose|j: int| i <= j && #[trigger] match_at(line, token, j);
            assert(i + 1 <= j);
        }
    }
}

/// The line re-split around every occurrence of the token: plain and
/// matched pieces alternate, each match is exactly the token, adjacent
/// matches are found by searching the remainder after each, and the final
/// plain piece (possibly empty) carries no further occurrence. A line
/// without an occurrence, or an empty token, stays whole.
pub open spec fn highlight_spec(line: Seq<char>, token: Seq<char>) -> Seq<(Seq<char>, bool)>
    decreases line.len()
    via highlight_spec_dec
{
    if token.len() == 0 || !contains_sub(line, token) {
        seq![(line, false)]
    } else {
        let i = first_match_from(line, token, 0) as int;
        seq![(line.subrange(0, i), false), (token, true)] + highlight_spec(
            line.subrange(i + token.len() as int, line.len() as int),
            token,
        )
    }
}

#[via_fn]
proof fn highlight_spec_dec(line: Seq<char>, token: Seq<char>) {
    if token.len() > 0 && contains_sub(line, token) {
        lemma_first_match_from(line, token, 0);
    }
}

/// The concatenation of the segment texts of a highlighted line.
pub open spec fn concat_segs(segs: Seq<(Seq<char>, bool)>) -> Seq<char>
    decreases segs.len(),
{
    if segs.len() == 0 {
        Seq::empty()
    } else {
        segs[0].0 + concat_segs(segs.drop_first())
    }
}

/// Re-splitting a line around a token loses nothing: the segments of
/// `highlight_spec` concatenate back to the line, and every matched
/// segment is exactly the token.
pub proof fn lemma_highlight_preserves(line: Seq<char>, token: Seq<char>)
    ensures
        concat_segs(highlight_spec(line, token)) == line,
        forall|k: int|
            0 <= k < highlight_spec(line, token).len() && #[trigger] highlight_spec(
                line,
                token,
            )[k].1 ==> highlight_spec(line, token)[k].0 == token,
    decreases line.len(),
{
    if token.len() == 0 || !contains_sub(line, token) {
        let segs = highlight_spec(line, token);
        assert(segs =~= seq![(line, false)]);
        assert(segs[0].0 == line);
        assert(concat_segs(segs) == segs[0].0 + concat_segs(segs.drop_first()));
        assert(segs.drop_first() =~= Seq::<(Seq<char>, bool)>::empty());
        assert(concat_segs(segs.drop_first()) =~= Seq::<char>::empty());
        assert(concat_segs(segs) =~= line);
    } else {
        lemma_first_match_from(line, token, 0);
        let i = first_match_from(line, token, 0) as int;
        let rest = line.subrange(i + token.len() as int, line.len() as int);
        lemma_highlight_preserves(rest, token);
        let segs = highlight_spec(line, token);
        let rest_segs = highlight_spec(rest, token);
        let head = seq![(line.subrange(0, i), false), (token, true)];
        assert(segs == head + rest_segs);
        assert(segs.drop_first() =~= seq![(token, true)] + rest_segs);
        assert((seq![(token, true)] + rest_segs).drop_first() =~= rest_segs);
        assert(concat_segs(segs) == segs[0].0 + concat_segs(segs.drop_first()));
        assert(segs[0].0 == line.subrange(0, i));
        let mid = seq![(token, true)] + rest_segs;
        assert(concat_segs(mid) == mid[0].0 + concat_segs(mid.drop_first()));
        assert(mid[0].0 == token);
        assert(concat_segs(segs.drop_first()) == concat_segs(mid));
        assert(concat_segs(segs) == line.subrange(0, i) + (token + concat_segs(rest_segs)));
        assert(token == line.subrange(i, i + token.len() as int));
        assert(line.subrange(0, i) + (line.subrange(i, i + token.len() as int) + rest) =~= line);
        assert forall|k: int| 0 <= k < segs.len() && #[trigger] segs[k].1 implies segs[k].0
            == token by {
            if k >= 2 {
                assert(segs[k] == rest_segs[k - 2]);
            }
        }
    }
}

/// The style of a highlighted or plain piece.
pub open spec fn style_of(hl: bool) -> TextStyle {
    if hl {
        TextStyle::Highlight
    } else {
        TextStyle::Plain
    }
}

/// The styled spans of a line under a highlight token.
pub open spec fn highlight_spans(line: Seq<char>, token: Seq<char>) -> Seq<(Seq<char>, TextStyle)> {
    highlight_spec(line, token).map_values(|p: (Seq<char>, bool)| (p.0, style_of(p.1)))
}

/// Splits a line into plain and highlighted spans, as `highlight_spans`
/// describes.
pub fn highlight_line(line: &str, token: &str) -> (r: Vec<TextSpan>)
    ensures
        spans_view(r@) == highlight_spans(line@, token@),
    decreases line@.len(),
{
    let tlen = token.unicode_len();
    if tlen == 0 {
        let mut r: Vec<TextSpan> = Vec::new();
        r.push(TextSpan { text: line.to_owned(), style: TextStyle::Plain });
        proof {
            assert(spans_view(r@) =~= highlight_spans(line@, token@));
        }
        return r;
    }
    match find_sub(line, token) {
        None => {
            let mut r: Vec<TextSpan> = Vec::new();
            r.push(TextSpan { text: line.to_owned(), style: TextStyle::Plain });
            proof {
                assert(spans_view(r@) =~= highlight_spans(line@, token@));
            }
            r
        },
        Some(i) => {
            let n = line.unicode_len();
            let prefix = line.substring_char(0, i);
            let rest = line.substring_char(i + tlen, n);
            let mut r: Vec<TextSpan> = Vec::new();
            r.push(TextSpan { text: prefix.to_owned(), style: TextStyle::Plain });
            r.push(TextSpan { text: token.to_owned(), style: TextStyle::Highlight });
            let ghost two = r@;
            let mut tail = highlight_line(rest, token);
            let ghost tailv = tail@;
            r.append(&mut tail);
            proof {
                assert(match_at(line@, token@, i as int));
                assert(contains_sub(line@, token@));
                lemma_first_match_from(line@, token@, 0);
                let f = first_match_from(line@, token@, 0);
                assert(f as int == i as int) by {
                    if (f as int) < (i as int) {
                        assert(match_at(line@, token@, f as int));
                    }
                    if (i as int) < (f as int) {
                        assert(!match_at(line@, token@, i as int));
                    }
                }
                let hs = highlight_spans(line@, token@);
                let rs = highlight_spans(rest@, token@);
                assert(highlight_spec(line@, token@) == seq![
                    (line@.subrange(0, i as int), false),
                    (token@, true),
                ] + highlight_spec(rest@, token@));
                assert(spans_view(tailv) == rs);
                assert(r@ == two + tailv);
                assert(two.len() == 2);
                assert(tailv.len() == spans_view(tailv).len());
                assert(rs.len() == highlight_spec(rest@, token@).len());
                assert(hs.len() == highlight_spec(line@, token@).len());
                assert(highlight_spec(line@, token@).len() == 2 + highlight_spec(
                    rest@,
                    token@,
                ).len());
                assert(spans_view(r@).len() == r@.len());
                assert(spans_view(r@).len() == hs.len());
                assert forall|k: int| 0 <= k < hs.len() implies spans_view(r@)[k] == hs[k] by {
                    if k >= 2 {
                        assert(r@[k] == tailv[k - 2]);
                        assert(spans_view(tailv)[k - 2] == (tailv[k - 2].text@, tailv[k - 2].style));
                        assert(hs[k] == rs[k - 2]);
                    } else {
                        assert(r@[k] == two[k]);
                    }
                }
                assert(spans_view(r@) =~= hs);
            }
            r
        },
    }
}

} // verus!

verus! {

// ---------------------------------------------------------------------------
// Simple labels and widths
// ---------------------------------------------------------------------------

/// The authentication label of the cluster address: `basic` when the
/// address embeds credentials, else `none`.
pub fn auth_label(es_url: &str) -> (r: &'static str)
    ensures
        r@ == (if crate::text::has_char(es_url@, '@') {
            "basic"@
        } else {
            "none"@
        }),
{
    if crate::text::contains_char(es_url, '@') {
        "basic"
    } else {
        "none"
    }
}

/// The document drawer's width: a bit over half the screen, at least 30
/// cells, and never past the screen's width less a margin.
pub open spec fn drawer_width_of(total_width: u16) -> int {
    let maxw = if total_width as int - 2 > 30 {
        total_width as int - 2
    } else {
        30
    };
    let prod = if total_width as int * 55 > 65535 {
        65535int
    } else {
        total_width as int * 55
    };
    let target = prod / 100;
    if target < 30 {
        30
    } else if target > maxw {
        maxw
    } else {
        target
    }
}

/// Picks the drawer width, as `drawer_width_of` describes.
pub fn drawer_width(total_width: u16) -> (r: u16)
    ensures
        r as int == drawer_width_of(total_width),
{
    let w32: u32 = total_width as u32;
    let prod: u32 = w32 * 55;
    let capped: u32 = if prod > 65535 {
        65535
    } else {
        prod
    };
    let target: u16 = (capped / 100) as u16;
    let maxw: u16 = if total_width >= 2 && total_width - 2 > 30 {
        total_width - 2
    } else {
        30
    };
    if target < 30 {
        30
    } else if target > maxw {
        maxw
    } else {
        target
    }
}

/// The one-line summary of a saved view, capped at 60 characters.
pub open spec fn saved_view_line_of(v: SavedView) -> Seq<char> {
    truncated_of(v.name@ + "  "@ + v.scope@ + "  "@ + v.query@, 60)
}

/// Renders a saved view's summary line, as `saved_view_line_of`
/// describes.
pub fn saved_view_line(v: &SavedView) -> (r: String)
    ensures
        r@ == saved_view_line_of(*v),
{
    let mut s = v.name.clone();
    s.append("  ");
    s.append(v.scope.as_str());
    s.append("  ");
    s.append(v.query.as_str());
    proof {
        assert(s@ =~= v.name@ + "  "@ + v.scope@ + "  "@ + v.query@);
    }
    truncate_string(s.as_str(), 60)
}

/// The table preview of a document: its compact serialization, capped.
pub open spec fn doc_summary_of(d: DocEntry, max_len: int) -> Seq<char> {
    truncated_of(compact_of(jview(d.source)), max_len)
}

/// Renders a document's table preview, as `doc_summary_of` describes.
pub fn doc_summary(doc: &DocEntry, max_len: usize) -> (r: String)
    ensures
        r@ == doc_summary_of(*doc, max_len as int),
{
    let source = to_compact(&doc.source);
    truncate_string(source.as_str(), max_len)
}

// ---------------------------------------------------------------------------
// Scope list lines
// ---------------------------------------------------------------------------

/// The style of a view-mode word: accented when active.
pub open spec fn mode_style(active: bool) -> TextStyle {
    if active {
        TextStyle::Accent
    } else {
        TextStyle::Label
    }
}

/// The spans of one scope list line: the identity key in bold, then the
/// kind's details — health and document count for an index, the target
/// for an alias, status, generation and backing count for a data stream.
pub open spec fn scope_line_of(e: crate::scope::ScopeEntry) -> Seq<(Seq<char>, TextStyle)> {
    match e {
        crate::scope::ScopeEntry::Index { name, health, docs_count } => seq![
            (name@, TextStyle::Bold),
            (" "@, TextStyle::Plain),
            (health@, TextStyle::Health(health_color_of(health@))),
            (" docs="@ + docs_count@, TextStyle::Plain),
        ],
        crate::scope::ScopeEntry::Alias { alias, target_index } => seq![
            (alias@, TextStyle::Bold),
            (" -> "@, TextStyle::Plain),
            (target_index@, TextStyle::Plain),
        ],
        crate::scope::ScopeEntry::DataStream { name, status, generation, backing_index_count } => {
            let st = match status {
                Some(s) => s@,
                None => "-"@,
            };
            let gen = match generation {
                Some(g) => crate::text::dec_str(g as int),
                None => "-"@,
            };
            seq![
                (name@, TextStyle::Bold),
                (" "@, TextStyle::Plain),
                (st, TextStyle::Health(health_color_of(lower_of(st)))),
                (
                    " gen="@ + gen + " backing="@ + crate::text::dec_str(
                        backing_index_count as int,
                    ),
                    TextStyle::Plain,
                ),
            ]
        },
    }
}

/// Renders one scope list line, as `scope_line_of` describes.
pub fn scope_line(e: &crate::scope::ScopeEntry) -> (r: Vec<TextSpan>)
    ensures
        spans_view(r@) == scope_line_of(*e),
{
    let mut r: Vec<TextSpan> = Vec::new();
    match e {
        crate::scope::ScopeEntry::Index { name, health, docs_count } => {
            r.push(TextSpan { text: name.clone(), style: TextStyle::Bold });
            r.push(TextSpan { text: " ".to_owned(), style: TextStyle::Plain });
            let color = health_color(health.as_str());
            r.push(TextSpan { text: health.clone(), style: TextStyle::Health(color) });
            let mut details = " docs=".to_owned();
            details.append(docs_count.as_str());
            r.push(TextSpan { text: details, style: TextStyle::Plain });
            proof {
                assert(spans_view(r@) =~= scope_line_of(*e));
            }
        },
        crate::scope::ScopeEntry::Alias { alias, target_index } => {
            r.push(TextSpan { text: alias.clone(), style: TextStyle::Bold });
            r.push(TextSpan { text: " -> ".to_owned(), style: TextStyle::Plain });
            r.push(TextSpan { text: target_index.clone(), style: TextStyle::Plain });
            proof {
                assert(spans_view(r@) =~= scope_line_of(*e));
            }
        },
        crate::scope::ScopeEntry::DataStream { name, status, generation, backing_index_count } => {
            r.push(TextSpan { text: name.clone(), style: TextStyle::Bold });
            r.push(TextSpan { text: " ".to_owned(), style: TextStyle::Plain });
            let st: String = match status {
                Some(s) => s.clone(),
                None => "-".to_owned(),
            };
            let lowered = crate::text::to_lower(st.as_str());
            let color = health_color(lowered.as_str());
            r.push(TextSpan { text: st, style: TextStyle::Health(color) });
            let mut details = " gen=".to_owned();
            match generation {
                Some(g) => details.append(crate::text::u64_str(*g).as_str()),
                None => details.append("-"),
            }
            details.append(" backing=");
            details.append(crate::text::u64_str(*backing_index_count).as_str());
            r.push(TextSpan { text: details, style: TextStyle::Plain });
            proof {
                assert(spans_view(r@) =~= scope_line_of(*e));
            }
        },
    }
    r
}

} // verus!

verus! {

// ---------------------------------------------------------------------------
// Query, filter and status lines
// ---------------------------------------------------------------------------

/// The query line: the committed query, or the buffer (and a `*` mark)
/// while it is being edited; a dash when empty.
pub open spec fn query_line_of(s: AppState) -> Seq<(Seq<char>, TextStyle)> {
    let value = if s.input_mode == InputMode::Query {
        s.query_edit@
    } else {
        s.query@
    };
    let shown = if value.len() == 0 {
        "-"@
    } else {
        value
    };
    let label = if s.input_mode == InputMode::Query {
        "Query*"@
    } else {
        "Query"@
    };
    seq![(label, TextStyle::Label), (": "@, TextStyle::Plain), (shown, TextStyle::Plain)]
}

/// Renders the query line, as `query_line_of` describes.
pub fn query_line(s: &AppState) -> (r: Vec<TextSpan>)
    ensures
        spans_view(r@) == query_line_of(*s),
{
    let mut r: Vec<TextSpan> = Vec::new();
    let editing = s.input_mode == InputMode::Query;
    let label: &str = if editing {
        "Query*"
    } else {
        "Query"
    };
    r.push(TextSpan { text: label.to_owned(), style: TextStyle::Label });
    r.push(TextSpan { text: ": ".to_owned(), style: TextStyle::Plain });
    let value: &String = if editing {
        &s.query_edit
    } else {
        &s.query
    };
    let shown: String = if value.as_str().is_empty() {
        "-".to_owned()
    } else {
        value.clone()
    };
    r.push(TextSpan { text: shown, style: TextStyle::Plain });
    proof {
        assert(spans_view(r@) =~= query_line_of(*s));
    }
    r
}

/// The filter chip line: the committed query as a chip, or `(none)`.
pub open spec fn filter_chips_line_of(s: AppState) -> Seq<(Seq<char>, TextStyle)> {
    let base = seq![("Filters"@, TextStyle::Label), (": "@, TextStyle::Plain)];
    if trim_of(s.query@).len() == 0 {
        base + seq![("(none)"@, TextStyle::Plain)]
    } else {
        base + seq![
            (" "@ + truncated_of(trim_of(s.query@), 40) + " "@, TextStyle::Chip),
        ]
    }
}

/// Renders the filter chip line, as `filter_chips_line_of` describes.
pub fn filter_chips_line(s: &AppState) -> (r: Vec<TextSpan>)
    ensures
        spans_view(r@) == filter_chips_line_of(*s),
{
    let mut r: Vec<TextSpan> = Vec::new();
    r.push(TextSpan { text: "Filters".to_owned(), style: TextStyle::Label });
    r.push(TextSpan { text: ": ".to_owned(), style: TextStyle::Plain });
    let trimmed = crate::text::trim_ws(s.query.as_str());
    if trimmed.is_empty() {
        r.push(TextSpan { text: "(none)".to_owned(), style: TextStyle::Plain });
    } else {
        let chip = truncate_string(trimmed, 40);
        let mut text = " ".to_owned();
        text.append(chip.as_str());
        text.append(" ");
        proof {
            assert(text@ =~= " "@ + truncated_of(trim_of(s.query@), 40) + " "@);
        }
        r.push(TextSpan { text, style: TextStyle::Chip });
    }
    proof {
        assert(spans_view(r@) =~= filter_chips_line_of(*s));
    }
    r
}

/// The failed shard count in effect: zero until reported.
pub open spec fn shards_failed_of(s: AppState) -> int {
    match s.search_shards_failed {
        Some(v) => v as int,
        None => 0,
    }
}

/// The timeout flag in effect: false until reported.
pub open spec fn timed_out_of(s: AppState) -> bool {
    match s.search_timed_out {
        Some(b) => b,
        None => false,
    }
}

/// The status text of the last search: hits and elapsed time (dashes
/// until known), then failed shards, a timeout mark and — where asked —
/// an error mark, each only when present.
pub open spec fn status_parts_of(s: AppState, with_error: bool) -> Seq<char> {
    "hits "@ + (match s.docs_total {
        Some(v) => crate::text::dec_str(v as int),
        None => "-"@,
    }) + " | took "@ + (match s.search_took_ms {
        Some(v) => crate::text::dec_str(v as int) + "ms"@,
        None => "-"@,
    }) + (if shards_failed_of(s) > 0 {
        " | shard_fail "@ + crate::text::dec_str(shards_failed_of(s))
    } else {
        Seq::<char>::empty()
    }) + (if timed_out_of(s) {
        " | timeout"@
    } else {
        Seq::<char>::empty()
    }) + (if with_error && s.last_error is Some {
        " | error"@
    } else {
        Seq::<char>::empty()
    })
}

/// Whether the status deserves alert coloring: failed shards, a timeout,
/// or — where errors count — a standing error summary.
pub open spec fn alert_of(s: AppState, with_error: bool) -> bool {
    shards_failed_of(s) > 0 || timed_out_of(s) || (with_error && s.last_error is Some)
}

fn status_parts(s: &AppState, with_error: bool) -> (r: String)
    ensures
        r@ == status_parts_of(*s, with_error),
{
    let mut r = "hits ".to_owned();
    match s.docs_total {
        Some(v) => r.append(crate::text::u64_str(v).as_str()),
        None => r.append("-"),
    }
    r.append(" | took ");
    match s.search_took_ms {
        Some(v) => {
            r.append(crate::text::u64_str(v).as_str());
            r.append("ms");
        },
        None => r.append("-"),
    }
    let failed: u64 = match s.search_shards_failed {
        Some(v) => v,
        None => 0,
    };
    if failed > 0 {
        r.append(" | shard_fail ");
        r.append(crate::text::u64_str(failed).as_str());
    }
    let timed: bool = match s.search_timed_out {
        Some(b) => b,
        None => false,
    };
    if timed {
        r.append(" | timeout");
    }
    let has_error: bool = match &s.last_error {
        Some(_) => true,
        None => false,
    };
    if with_error && has_error {
        r.append(" | error");
    }
    proof {
        assert(r@ =~= status_parts_of(*s, with_error));
    }
    r
}

/// The results line under the query: the search status, alert-colored on
/// failed shards or a timeout.
pub open spec fn results_summary_line_of(s: AppState) -> Seq<(Seq<char>, TextStyle)> {
    seq![
        ("Results"@, TextStyle::Label),
        (": "@, TextStyle::Plain),
        (
            status_parts_of(s, false),
            if alert_of(s, false) {
                TextStyle::Alert
            } else {
                TextStyle::Label
            },
        ),
    ]
}

/// Renders the results line, as `results_summary_line_of` describes.
pub fn results_summary_line(s: &AppState) -> (r: Vec<TextSpan>)
    ensures
        spans_view(r@) == results_summary_line_of(*s),
{
    let mut r: Vec<TextSpan> = Vec::new();
    r.push(TextSpan { text: "Results".to_owned(), style: TextStyle::Label });
    r.push(TextSpan { text: ": ".to_owned(), style: TextStyle::Plain });
    let text = status_parts(s, false);
    let failed: u64 = match s.search_shards_failed {
        Some(v) => v,
        None => 0,
    };
    let timed: bool = match s.search_timed_out {
        Some(b) => b,
        None => false,
    };
    let style = if failed > 0 || timed {
        TextStyle::Alert
    } else {
        TextStyle::Label
    };
    r.push(TextSpan { text, style });
    proof {
        assert(spans_view(r@) =~= results_summary_line_of(*s));
    }
    r
}

/// The top bar's status summary and whether it deserves alert coloring;
/// here a standing error summary counts too.
pub fn status_summary(s: &AppState) -> (r: (String, bool))
    ensures
        r.0@ == "status: "@ + status_parts_of(*s, true),
        r.1 == alert_of(*s, true),
{
    let mut text = "status: ".to_owned();
    let parts = status_parts(s, true);
    text.append(parts.as_str());
    let failed: u64 = match s.search_shards_failed {
        Some(v) => v,
        None => 0,
    };
    let timed: bool = match s.search_timed_out {
        Some(b) => b,
        None => false,
    };
    let has_error: bool = match &s.last_error {
        Some(_) => true,
        None => false,
    };
    proof {
        assert(text@ =~= "status: "@ + status_parts_of(*s, true));
    }
    (text, failed > 0 || timed || has_error)
}

/// The kind word of the top bar's scope label.
pub open spec fn kind_word(k: crate::scope::ScopeKind) -> Seq<char> {
    match k {
        crate::scope::ScopeKind::Indices => "index"@,
        crate::scope::ScopeKind::Aliases => "alias"@,
        crate::scope::ScopeKind::DataStreams => "datastream"@,
    }
}

/// The top bar's scope label: the active kind and the selected entry's
/// key, or a dash.
pub open spec fn scope_label_of(s: AppState) -> Seq<char> {
    kind_word(s.scope_kind) + "/"@ + (match active_col(s).selected_key() {
        Some(k) => k,
        None => "-"@,
    })
}

/// Renders the scope label, as `scope_label_of` describes.
pub fn scope_label(s: &AppState) -> (r: String)
    ensures
        r@ == scope_label_of(*s),
{
    let mut r = match s.scope_kind {
        crate::scope::ScopeKind::Indices => "index".to_owned(),
        crate::scope::ScopeKind::Aliases => "alias".to_owned(),
        crate::scope::ScopeKind::DataStreams => "datastream".to_owned(),
    };
    r.append("/");
    match s.selected_scope_name() {
        Some(name) => r.append(name),
        None => r.append("-"),
    }
    proof {
        assert(r@ =~= scope_label_of(*s));
    }
    r
}

} // verus!

verus! {

// ---------------------------------------------------------------------------
// The scope list
// ---------------------------------------------------------------------------

/// The model of a list of span lines.
pub open spec fn lines_view(v: Seq<Vec<TextSpan>>) -> Seq<Seq<(Seq<char>, TextStyle)>> {
    v.map_values(|l: Vec<TextSpan>| spans_view(l@))
}

/// The lines of the scope list: one per filtered entry, in filtered
/// order, or a single placeholder when the filtered view is empty.
pub open spec fn scope_items_of(s: AppState) -> Seq<Seq<(Seq<char>, TextStyle)>> {
    let filtered = crate::state::active_filtered(s);
    if filtered.len() == 0 {
        seq![seq![("No items"@, TextStyle::Plain)]]
    } else {
        filtered.map_values(|j: int| scope_line_of(active_col(s).entries@[j]))
    }
}

/// The selected row of the scope list: the selection's position within
/// the filtered view, when it sits there.
pub open spec fn scope_cursor_of(s: AppState) -> Option<int> {
    match crate::scope::sel_view(active_col(s).selected) {
        Some(c) => crate::state::seq_find_from(crate::state::active_filtered(s), c, 0),
        None => None,
    }
}

fn active_entries(s: &AppState) -> (r: &Vec<crate::scope::ScopeEntry>)
    ensures
        *r == active_col(*s).entries,
{
    match s.scope_kind {
        crate::scope::ScopeKind::Indices => &s.indices.entries,
        crate::scope::ScopeKind::Aliases => &s.aliases.entries,
        crate::scope::ScopeKind::DataStreams => &s.datastreams.entries,
    }
}

/// Builds the scope list's lines and its selected row, as
/// `scope_items_of` and `scope_cursor_of` describe.
pub fn build_scope_items(s: &AppState) -> (r: (Vec<Vec<TextSpan>>, Option<usize>))
    ensures
        lines_view(r.0@) == scope_items_of(*s),
        match r.1 {
            Some(k) => scope_cursor_of(*s) == Some(k as int),
            None => scope_cursor_of(*s) is None,
        },
{
    let filtered = s.filtered_scope_indices();
    let ghost fs = crate::state::active_filtered(*s);
    let cursor: Option<usize> = match s.scope_selected() {
        Some(c) => crate::state::position_of(&filtered, c),
        None => None,
    };
    let mut items: Vec<Vec<TextSpan>> = Vec::new();
    if filtered.len() == 0 {
        let mut line: Vec<TextSpan> = Vec::new();
        line.push(TextSpan { text: "No items".to_owned(), style: TextStyle::Plain });
        items.push(line);
        proof {
            assert(lines_view(items@) =~~= scope_items_of(*s));
        }
        return (items, cursor);
    }
    let entries = active_entries(s);
    proof {
        crate::scope::lemma_filtered_view(entries@, crate::state::needle_of(*s));
    }
    let n = filtered.len();
    let mut k: usize = 0;
    while k < n
        invariant
            0 <= k <= n,
            n == filtered@.len(),
            n > 0,
            fs == filtered@.map_values(|x: usize| x as int),
            fs == crate::state::active_filtered(*s),
            *entries == active_col(*s).entries,
            forall|t: int| 0 <= t < n ==> 0 <= #[trigger] fs[t] < entries@.len(),
            items@.len() == k,
            forall|t: int|
                0 <= t < k ==> #[trigger] lines_view(items@)[t] == scope_line_of(
                    active_col(*s).entries@[fs[t]],
                ),
        decreases n - k,
    {
        proof {
            assert(fs[k as int] == filtered@[k as int] as int);
            assert(0 <= fs[k as int] < entries@.len());
        }
        let idx = filtered[k];
        let line = scope_line(&entries[idx]);
        let ghost lv = line@;
        let ghost pre = items@;
        items.push(line);
        proof {
            assert(lines_view(items@) =~= lines_view(pre).push(spans_view(lv)));
        }
        k = k + 1;
    }
    proof {
        let want = scope_items_of(*s);
        assert(want == fs.map_values(|j: int| scope_line_of(active_col(*s).entries@[j])));
        assert forall|t: int| 0 <= t < n implies lines_view(items@)[t] == want[t] by {
            assert(lines_view(items@)[t] == scope_line_of(active_col(*s).entries@[fs[t]]));
        }
        assert(lines_view(items@) =~= want);
    }
    (items, cursor)
}

// ---------------------------------------------------------------------------
// The document drawer
// ---------------------------------------------------------------------------

/// The selected document, when the selection points at one.
pub open spec fn selected_doc(s: AppState) -> Option<DocEntry> {
    match s.docs_selected {
        Some(i) => if (i as int) < s.documents@.len() {
            Some(s.documents@[i as int])
        } else {
            None
        },
        None => None,
    }
}

/// The drawer's header: the document id, the view-mode line, the action
/// hints and a blank separator.
pub open spec fn drawer_header(s: AppState, d: DocEntry) -> Seq<Seq<(Seq<char>, TextStyle)>> {
    seq![
        seq![("ID: "@, TextStyle::Bold), (d.id@, TextStyle::Plain)],
        doc_view_line_of(s.doc_view_mode),
        seq![
            ("Actions"@, TextStyle::Label),
            (": include  exclude  copy  search"@, TextStyle::Plain),
        ],
        Seq::<(Seq<char>, TextStyle)>::empty(),
    ]
}

/// The body lines of the active view mode.
pub open spec fn mode_lines(mode: DocViewMode, d: DocEntry) -> Seq<Seq<char>> {
    match mode {
        DocViewMode::Pretty => crate::json::pretty_json_lines(jview(d.source)),
        DocViewMode::Raw => seq![compact_of(jview(d.source))],
        DocViewMode::Flatten => crate::json::flat_json_lines(jview(d.source)),
    }
}

/// A body line's spans: highlighted under a token, whole otherwise.
pub open spec fn line_spans(line: Seq<char>, tok: Option<Seq<char>>) -> Seq<(Seq<char>, TextStyle)> {
    match tok {
        Some(t) => highlight_spans(line, t),
        None => seq![(line, TextStyle::Plain)],
    }
}

/// The drawer's lines under a budget of `max_lines`: a placeholder when
/// no document is selected; the header alone, cut to the budget, when
/// the header already meets it; else header and body lines up to the
/// budget, the last line becoming a truncation sentinel when body
/// content was cut.
pub open spec fn drawer_lines_of(s: AppState, max_lines: int) -> Seq<Seq<(Seq<char>, TextStyle)>> {
    match selected_doc(s) {
        None => seq![seq![("No document selected"@, TextStyle::Plain)]],
        Some(d) => {
            let header = drawer_header(s, d);
            if header.len() >= max_lines {
                header.take(max_lines)
            } else {
                let body = mode_lines(s.doc_view_mode, d);
                let tok = highlight_token_of(s.query@);
                let mapped = body.map_values(|l: Seq<char>| line_spans(l, tok));
                if header.len() + body.len() <= max_lines {
                    header + mapped
                } else {
                    (header + mapped.take(max_lines - header.len())).update(
                        max_lines - 1,
                        seq![("..."@, TextStyle::Plain)],
                    )
                }
            }
        },
    }
}

/// The view-mode line of the drawer, each mode word accented when
/// active.
pub open spec fn doc_view_line_of(mode: DocViewMode) -> Seq<(Seq<char>, TextStyle)> {
    seq![
        ("View: "@, TextStyle::Label),
        ("Pretty"@, mode_style(mode == DocViewMode::Pretty)),
        (" | "@, TextStyle::Plain),
        ("Raw"@, mode_style(mode == DocViewMode::Raw)),
        (" | "@, TextStyle::Plain),
        ("Flatten"@, mode_style(mode == DocViewMode::Flatten)),
    ]
}

/// Renders the view-mode line, as `doc_view_line_of` describes.
pub fn doc_view_line(mode: DocViewMode) -> (r: Vec<TextSpan>)
    ensures
        spans_view(r@) == doc_view_line_of(mode),
{
    let mut r: Vec<TextSpan> = Vec::new();
    r.push(TextSpan { text: "View: ".to_owned(), style: TextStyle::Label });
    let pretty = if mode == DocViewMode::Pretty {
        TextStyle::Accent
    } else {
        TextStyle::Label
    };
    r.push(TextSpan { text: "Pretty".to_owned(), style: pretty });
    r.push(TextSpan { text: " | ".to_owned(), style: TextStyle::Plain });
    let raw = if mode == DocViewMode::Raw {
        TextStyle::Accent
    } else {
        TextStyle::Label
    };
    r.push(TextSpan { text: "Raw".to_owned(), style: raw });
    r.push(TextSpan { text: " | ".to_owned(), style: TextStyle::Plain });
    let flat = if mode == DocViewMode::Flatten {
        TextStyle::Accent
    } else {
        TextStyle::Label
    };
    r.push(TextSpan { text: "Flatten".to_owned(), style: flat });
    proof {
        assert(spans_view(r@) =~= doc_view_line_of(mode));
    }
    r
}

/// Renders the document drawer under a line budget, as `drawer_lines_of`
/// describes.
pub fn doc_drawer_lines(s: &AppState, max_lines: usize) -> (r: Vec<Vec<TextSpan>>)
    ensures
        lines_view(r@) == drawer_lines_of(*s, max_lines as int),
{
    let present: bool = match s.docs_selected {
        Some(i) => i < s.documents.len(),
        None => false,
    };
    if !present {
        let mut line: Vec<TextSpan> = Vec::new();
        line.push(TextSpan { text: "No document selected".to_owned(), style: TextStyle::Plain });
        let mut r: Vec<Vec<TextSpan>> = Vec::new();
        r.push(line);
        proof {
            assert(lines_view(r@) =~~= drawer_lines_of(*s, max_lines as int));
        }
        return r;
    }
    let idx: usize = match s.docs_selected {
        Some(i) => i,
        None => 0,
    };
    let doc = &s.documents[idx];
    let ghost d = s.documents@[idx as int];

    let mut lines: Vec<Vec<TextSpan>> = Vec::new();
    let mut id_line: Vec<TextSpan> = Vec::new();
    id_line.push(TextSpan { text: "ID: ".to_owned(), style: TextStyle::Bold });
    id_line.push(TextSpan { text: doc.id.clone(), style: TextStyle::Plain });
    lines.push(id_line);
    lines.push(doc_view_line(s.doc_view_mode));
    let mut actions: Vec<TextSpan> = Vec::new();
    actions.push(TextSpan { text: "Actions".to_owned(), style: TextStyle::Label });
    actions.push(TextSpan {
        text: ": include  exclude  copy  search".to_owned(),
        style: TextStyle::Plain,
    });
    lines.push(actions);
    lines.push(Vec::new());
    proof {
        assert(lines_view(lines@) =~~= drawer_header(*s, d));
    }
    if lines.len() >= max_lines {
        lines.truncate(max_lines);
        proof {
            assert(lines_view(lines@) =~~= drawer_header(*s, d).take(max_lines as int));
        }
        return lines;
    }
    let body: Vec<String> = match s.doc_view_mode {
        DocViewMode::Pretty => crate::json::json_lines_pretty(&doc.source),
        DocViewMode::Raw => crate::json::json_lines_raw(&doc.source),
        DocViewMode::Flatten => crate::json::json_lines_flatten(&doc.source),
    };
    proof {
        assert(body.deep_view() == mode_lines(s.doc_view_mode, d));
    }
    let token = highlight_token(s.query.as_str());
    let ghost tok = highlight_token_of(s.query@);
    let ghost header = drawer_header(*s, d);
    let n = body.len();
    let mut k: usize = 0;
    while k < n && lines.len() < max_lines
        invariant
            0 <= k <= n,
            n == body@.len(),
            body.deep_view() == mode_lines(s.doc_view_mode, d),
            body.deep_view().len() == n,
            header == drawer_header(*s, d),
            header.len() == 4,
            4 < max_lines,
            lines@.len() == 4 + k,
            lines@.len() <= max_lines,
            match token {
                Some(ref t) => tok == Some(t@),
                None => tok is None,
            },
            tok == highlight_token_of(s.query@),
            lines_view(lines@) == header + body.deep_view().take(k as int).map_values(
                |l: Seq<char>| line_spans(l, tok),
            ),
        decreases n - k,
    {
        let spans: Vec<TextSpan> = match &token {
            Some(t) => highlight_line(body[k].as_str(), t.as_str()),
            None => {
                let mut one: Vec<TextSpan> = Vec::new();
                one.push(TextSpan { text: body[k].clone(), style: TextStyle::Plain });
                proof {
                    assert(spans_view(one@) =~= seq![(body.deep_view()[k as int], TextStyle::Plain)]);
                }
                one
            },
        };
        let ghost sv = spans@;
        let ghost pre = lines@;
        proof {
            assert(spans_view(sv) == line_spans(body.deep_view()[k as int], tok));
        }
        lines.push(spans);
        proof {
            assert(lines_view(lines@) =~= lines_view(pre).push(spans_view(sv)));
            assert(body.deep_view().take(k + 1) =~= body.deep_view().take(k as int).push(
                body.deep_view()[k as int],
            ));
            assert(body.deep_view().take(k + 1).map_values(|l: Seq<char>| line_spans(l, tok))
                =~= body.deep_view().take(k as int).map_values(
                |l: Seq<char>| line_spans(l, tok),
            ).push(line_spans(body.deep_view()[k as int], tok)));
            assert(lines_view(lines@) =~= header + body.deep_view().take(k + 1).map_values(
                |l: Seq<char>| line_spans(l, tok),
            ));
        }
        k = k + 1;
    }
    if k < n {
        let ghost before = lines@;
        lines.pop();
        let mut sentinel: Vec<TextSpan> = Vec::new();
        sentinel.push(TextSpan { text: "...".to_owned(), style: TextStyle::Plain });
        let ghost sentvec = sentinel;
        lines.push(sentinel);
        proof {
            let body_v = body.deep_view();
            let mapped = body_v.map_values(|l: Seq<char>| line_spans(l, tok));
            assert(spans_view(sentvec@) =~= seq![("..."@, TextStyle::Plain)]);
            assert(lines@ =~= before.subrange(0, before.len() - 1).push(sentvec));
            assert(lines_view(lines@) =~= lines_view(before).update(
                max_lines - 1,
                spans_view(sentvec@),
            ));
            assert(mapped.take(max_lines - 4) =~= body_v.take(max_lines - 4).map_values(
                |l: Seq<char>| line_spans(l, tok),
            ));
            assert(lines_view(before) =~= header + mapped.take(max_lines - 4));
            assert(lines_view(lines@) =~= (header + mapped.take(max_lines - 4)).update(
                max_lines - 1,
                seq![("..."@, TextStyle::Plain)],
            ));
        }
    } else {
        proof {
            let body_v = body.deep_view();
            let mapped = body_v.map_values(|l: Seq<char>| line_spans(l, tok));
            assert(body_v.take(n as int) =~= body_v);
            assert(mapped =~= body_v.take(n as int).map_values(|l: Seq<char>| line_spans(l, tok)));
            assert(lines_view(lines@) =~= header + mapped);
        }
    }
    lines
}

} // verus!
