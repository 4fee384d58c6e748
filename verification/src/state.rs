//! The dashboard's application state and its transitions: the active scope
//! catalog with filter and selection, the document browser's query and
//! pagination cursor, the input-mode machine that routes keystrokes, and
//! the appliers through which a refresh pass lands its results and
//! aggregates its failures.

use vstd::prelude::*;
use vstd::string::*;
use crate::browse::DocEntry;
use crate::browse::SearchSummary;
use crate::browse::next_from;
use crate::browse::prev_from;
use crate::scope::ScopeCollection;
use crate::scope::ScopeEntry;
use crate::scope::ScopeKind;
use crate::scope::filter_indices_by;
use crate::scope::filtered_idx;
use crate::scope::reconciled_selection;
use crate::scope::sel_view;
use crate::text::contains_sub;
use crate::text::lower_of;
use crate::text::match_at;
use crate::text::pop_char;
use crate::text::push_char;
use crate::text::to_lower;
use crate::text::trim_of;
use crate::text::trim_ws;

verus! {

/// Where keyboard focus rests.
#[derive(Clone, Copy, PartialEq, Eq, Structural, Debug)]
pub enum Focus {
    LeftNav,
    Results,
}

/// What keystrokes currently edit: dashboard commands, the query buffer,
/// or the scope filter buffer.
#[derive(Clone, Copy, PartialEq, Eq, Structural, Debug)]
pub enum InputMode {
    Normal,
    Query,
    ScopeFilter,
}

/// How the selected document's source is rendered.
#[derive(Clone, Copy, PartialEq, Eq, Structural, Debug)]
pub enum DocViewMode {
    Pretty,
    Raw,
    Flatten,
}

/// Cluster health as last reported.
#[derive(Clone, Debug)]
pub struct ClusterHealth {
    pub cluster_name: String,
    pub status: String,
}

/// A named shortcut intended for later replay. Nothing populates or
/// mutates it after construction; it is declared but dormant.
#[derive(Clone, Debug)]
pub struct SavedView {
    pub name: String,
    pub scope: String,
    pub query: String,
}

/// A keystroke, reduced to what the dashboard distinguishes.
#[derive(Clone, Copy, PartialEq, Eq, Structural, Debug)]
pub enum KeyInput {
    Char(char),
    Ctrl(char),
    Enter,
    Esc,
    Backspace,
    Up,
    Down,
    Tab,
}

/// What the caller must do after a keystroke is applied.
#[derive(Clone, Copy, PartialEq, Eq, Structural, Debug)]
pub enum Action {
    Idle,
    Quit,
    RefreshAll,
    FetchDocs,
}

/// Which fetch of a refresh pass an error line belongs to.
#[derive(Clone, Copy, PartialEq, Eq, Structural, Debug)]
pub enum FetchSource {
    Health,
    Indices,
    Aliases,
    DataStreams,
    Docs,
}

/// The whole application state, owned by the event loop and mutated only
/// through the methods here.
pub struct AppState {
    pub es_url: String,
    pub health: Option<ClusterHealth>,
    pub indices: ScopeCollection,
    pub aliases: ScopeCollection,
    pub datastreams: ScopeCollection,
    pub favorites: Vec<String>,
    pub saved_views: Vec<SavedView>,
    pub documents: Vec<DocEntry>,
    pub docs_total: Option<u64>,
    pub docs_from: u64,
    pub docs_size: u64,
    pub docs_selected: Option<usize>,
    pub focus: Focus,
    pub input_mode: InputMode,
    pub scope_kind: ScopeKind,
    pub scope_filter: String,
    pub scope_filter_edit: String,
    pub query: String,
    pub query_edit: String,
    pub show_doc_drawer: bool,
    pub doc_view_mode: DocViewMode,
    pub search_took_ms: Option<u64>,
    pub search_shards_failed: Option<u64>,
    pub search_timed_out: Option<bool>,
    pub last_error: Option<String>,
}

// ---------------------------------------------------------------------------
// Spec-level views of the state and its transitions
// ---------------------------------------------------------------------------

/// The collection of the active kind.
pub open spec fn active_col(s: AppState) -> ScopeCollection {
    match s.scope_kind {
        ScopeKind::Indices => s.indices,
        ScopeKind::Aliases => s.aliases,
        ScopeKind::DataStreams => s.datastreams,
    }
}

/// `s` with the active collection's selection replaced.
pub open spec fn with_active_selected(s: AppState, idx: Option<usize>) -> AppState {
    match s.scope_kind {
        ScopeKind::Indices => (AppState {
            indices: (ScopeCollection { selected: idx, ..s.indices }),
            ..s
        }),
        ScopeKind::Aliases => (AppState {
            aliases: (ScopeCollection { selected: idx, ..s.aliases }),
            ..s
        }),
        ScopeKind::DataStreams => (AppState {
            datastreams: (ScopeCollection { selected: idx, ..s.datastreams }),
            ..s
        }),
    }
}

/// `s` with the pagination cursor and document selection reset, as a new
/// scope or query demands.
pub open spec fn reset_paging(s: AppState) -> AppState {
    AppState { docs_from: 0, docs_total: None, docs_selected: None, ..s }
}

/// The filter needle in effect: the filter, trimmed and lowercased.
pub open spec fn needle_of(s: AppState) -> Seq<char> {
    lower_of(trim_of(s.scope_filter@))
}

/// The filtered view of the active collection, as entry positions.
pub open spec fn active_filtered(s: AppState) -> Seq<int> {
    filtered_idx(active_col(s).entries@, needle_of(s))
}

/// The position of `x` in `s`, from `i` on.
pub open spec fn seq_find_from(s: Seq<int>, x: int, i: int) -> Option<int>
    decreases s.len() - i,
{
    if 0 <= i < s.len() {
        if s[i] == x {
            Some(i)
        } else {
            seq_find_from(s, x, i + 1)
        }
    } else {
        None
    }
}

/// The position within the (non-empty) filtered view that a cyclic move
/// lands on: one past the current position for a forward move, one before
/// it for a backward move, wrapping at both ends. A selection that is
/// absent or not in the filtered view counts as position zero.
pub open spec fn shifted_pos(filtered: Seq<int>, cur: Option<int>, delta: int) -> int {
    let cur_pos = match cur {
        Some(c) => match seq_find_from(filtered, c, 0) {
            Some(k) => k,
            None => 0,
        },
        None => 0,
    };
    if delta >= 0 {
        (cur_pos + 1) % (filtered.len() as int)
    } else if cur_pos == 0 {
        filtered.len() - 1
    } else {
        cur_pos - 1
    }
}

/// The transition of a cyclic selection move through the filtered view.
pub open spec fn shift_spec(pre: AppState, delta: int, post: AppState) -> bool {
    let filtered = active_filtered(pre);
    if filtered.len() == 0 {
        post == reset_paging(with_active_selected(pre, None))
    } else {
        post == reset_paging(
            with_active_selected(
                pre,
                Some(filtered[shifted_pos(filtered, sel_view(active_col(pre).selected), delta)] as usize),
            ),
        )
    }
}

/// The document selection after a forward move: the next document,
/// wrapping to the first past the end.
pub open spec fn next_doc_sel(cur: Option<int>, len: int) -> Option<int> {
    if len == 0 {
        None
    } else {
        match cur {
            Some(i) => if i + 1 < len {
                Some(i + 1)
            } else {
                Some(0)
            },
            None => Some(0),
        }
    }
}

/// The document selection after a backward move: the previous document,
/// wrapping to the last before the start.
pub open spec fn prev_doc_sel(cur: Option<int>, len: int) -> Option<int> {
    if len == 0 {
        None
    } else {
        match cur {
            Some(i) => if i == 0 {
                Some(len - 1)
            } else {
                Some(i - 1)
            },
            None => Some(len - 1),
        }
    }
}

/// The document selection after the list is replaced: re-clamped into the
/// new bounds, or cleared when the list is empty.
pub open spec fn clamped_doc_sel(cur: Option<int>, len: int) -> Option<int> {
    if len == 0 {
        None
    } else {
        let c = match cur {
            Some(i) => i,
            None => 0,
        };
        Some(
            if c < len {
                c
            } else {
                len - 1
            },
        )
    }
}

/// The transition of switching the active kind: a no-op when already
/// active, otherwise the kind switches and pagination resets while the
/// committed query is preserved.
pub open spec fn set_kind_spec(pre: AppState, kind: ScopeKind, post: AppState) -> bool {
    if pre.scope_kind == kind {
        post == pre
    } else {
        post == reset_paging(AppState { scope_kind: kind, ..pre })
    }
}

/// The reconciliation step after the filter changed: a selection still in
/// the filtered view is kept; otherwise the first filtered entry is
/// selected, or the selection cleared when the view is empty. The flag
/// says whether the effective selection changed.
pub open spec fn visible_result(s: AppState) -> (AppState, bool) {
    let filtered = active_filtered(s);
    if filtered.len() == 0 {
        if active_col(s).selected is Some {
            (with_active_selected(s, None), true)
        } else {
            (s, false)
        }
    } else {
        match sel_view(active_col(s).selected) {
            Some(c) => if filtered.contains(c) {
                (s, false)
            } else {
                (with_active_selected(s, Some(filtered[0] as usize)), true)
            },
            None => (with_active_selected(s, Some(filtered[0] as usize)), true),
        }
    }
}

/// The next view mode in the cycle.
pub open spec fn next_view_mode(m: DocViewMode) -> DocViewMode {
    match m {
        DocViewMode::Pretty => DocViewMode::Raw,
        DocViewMode::Raw => DocViewMode::Flatten,
        DocViewMode::Flatten => DocViewMode::Pretty,
    }
}

/// The other focus target.
pub open spec fn other_focus(f: Focus) -> Focus {
    match f {
        Focus::LeftNav => Focus::Results,
        Focus::Results => Focus::LeftNav,
    }
}

// ---------------------------------------------------------------------------
// The input-mode machine, as one relation per mode
// ---------------------------------------------------------------------------

/// What a keystroke does in `Normal` mode.
pub open spec fn normal_key_spec(pre: AppState, key: KeyInput, post: AppState, act: Action) -> bool {
    match key {
        KeyInput::Char(c) => if c == 'q' {
            post == pre && act == Action::Quit
        } else if c == 'r' {
            post == pre && act == Action::RefreshAll
        } else if c == '/' || c == '?' {
            post == (AppState { input_mode: InputMode::Query, query_edit: pre.query, ..pre })
                && act == Action::Idle
        } else if c == '1' {
            set_kind_spec(pre, ScopeKind::Indices, post) && act == Action::FetchDocs
        } else if c == '2' {
            set_kind_spec(pre, ScopeKind::Aliases, post) && act == Action::FetchDocs
        } else if c == '3' {
            set_kind_spec(pre, ScopeKind::DataStreams, post) && act == Action::FetchDocs
        } else if c == 'o' {
            post == (if pre.focus == Focus::Results {
                AppState { show_doc_drawer: !pre.show_doc_drawer, ..pre }
            } else {
                pre
            }) && act == Action::Idle
        } else if c == 'd' {
            post == pre && act == Action::FetchDocs
        } else if c == 'n' {
            post == (AppState {
                docs_from: next_from(pre.docs_from, pre.docs_size, pre.docs_total) as u64,
                ..pre
            }) && act == Action::FetchDocs
        } else if c == 'p' {
            post == (AppState { docs_from: prev_from(pre.docs_from, pre.docs_size) as u64, ..pre })
                && act == Action::FetchDocs
        } else if c == 'v' {
            post == (if pre.show_doc_drawer {
                AppState { doc_view_mode: next_view_mode(pre.doc_view_mode), ..pre }
            } else {
                pre
            }) && act == Action::Idle
        } else {
            post == pre && act == Action::Idle
        },
        KeyInput::Ctrl(c) => if c == 'f' {
            post == (AppState {
                input_mode: InputMode::ScopeFilter,
                scope_filter_edit: pre.scope_filter,
                ..pre
            }) && act == Action::Idle
        } else {
            post == pre && act == Action::Idle
        },
        KeyInput::Tab => post == (AppState { focus: other_focus(pre.focus), ..pre }) && act
            == Action::Idle,
        KeyInput::Up => match pre.focus {
            Focus::LeftNav => shift_spec(pre, -1, post) && act == Action::FetchDocs,
            Focus::Results => post == (AppState {
                docs_selected: match prev_doc_sel(
                    sel_view(pre.docs_selected),
                    pre.documents@.len() as int,
                ) {
                    Some(i) => Some(i as usize),
                    None => None,
                },
                ..pre
            }) && act == Action::Idle,
        },
        KeyInput::Down => match pre.focus {
            Focus::LeftNav => shift_spec(pre, 1, post) && act == Action::FetchDocs,
            Focus::Results => post == (AppState {
                docs_selected: match next_doc_sel(
                    sel_view(pre.docs_selected),
                    pre.documents@.len() as int,
                ) {
                    Some(i) => Some(i as usize),
                    None => None,
                },
                ..pre
            }) && act == Action::Idle,
        },
        KeyInput::Enter => post == (if pre.focus == Focus::Results {
            AppState { show_doc_drawer: !pre.show_doc_drawer, ..pre }
        } else {
            pre
        }) && act == Action::Idle,
        KeyInput::Esc => post == (AppState { show_doc_drawer: false, ..pre }) && act
            == Action::Idle,
        KeyInput::Backspace => post == pre && act == Action::Idle,
    }
}

/// What a keystroke does while the query buffer is being edited: text
/// lands in the buffer alone; Enter commits the trimmed buffer and resets
/// pagination; Esc discards the buffer.
pub open spec fn query_key_spec(pre: AppState, key: KeyInput, post: AppState, act: Action) -> bool {
    match key {
        KeyInput::Esc => post == (AppState {
            input_mode: InputMode::Normal,
            query_edit: post.query_edit,
            ..pre
        }) && post.query_edit@ == Seq::<char>::empty() && act == Action::Idle,
        KeyInput::Enter => post == (AppState {
            input_mode: InputMode::Normal,
            query: post.query,
            docs_from: 0,
            docs_total: None,
            docs_selected: None,
            ..pre
        }) && post.query@ == trim_of(pre.query_edit@) && act == Action::FetchDocs,
        KeyInput::Backspace => post == (AppState { query_edit: post.query_edit, ..pre })
            && post.query_edit@ == (if pre.query_edit@.len() > 0 {
            pre.query_edit@.drop_last()
        } else {
            pre.query_edit@
        }) && act == Action::Idle,
        KeyInput::Char(c) => post == (AppState { query_edit: post.query_edit, ..pre })
            && post.query_edit@ == pre.query_edit@.push(c) && act == Action::Idle,
        KeyInput::Ctrl(c) => post == (AppState { query_edit: post.query_edit, ..pre })
            && post.query_edit@ == pre.query_edit@.push(c) && act == Action::Idle,
        _ => post == pre && act == Action::Idle,
    }
}

/// What a keystroke does while the filter buffer is being edited: text
/// lands in the buffer alone and the committed filter stands untouched;
/// Enter commits the trimmed buffer and reconciles the selection against
/// the new filtered view; Esc discards the buffer and changes nothing
/// else.
pub open spec fn filter_key_spec(pre: AppState, key: KeyInput, post: AppState, act: Action) -> bool {
    match key {
        KeyInput::Esc => post == (AppState {
            input_mode: InputMode::Normal,
            scope_filter_edit: post.scope_filter_edit,
            ..pre
        }) && post.scope_filter_edit@ == Seq::<char>::empty() && act == Action::Idle,
        KeyInput::Enter => {
            let mid = AppState {
                input_mode: InputMode::Normal,
                scope_filter: post.scope_filter,
                ..pre
            };
            &&& post.scope_filter@ == trim_of(pre.scope_filter_edit@)
            &&& post == visible_result(mid).0
            &&& act == (if visible_result(mid).1 {
                Action::FetchDocs
            } else {
                Action::Idle
            })
        },
        KeyInput::Backspace => post == (AppState {
            scope_filter_edit: post.scope_filter_edit,
            ..pre
        }) && post.scope_filter_edit@ == (if pre.scope_filter_edit@.len() > 0 {
            pre.scope_filter_edit@.drop_last()
        } else {
            pre.scope_filter_edit@
        }) && act == Action::Idle,
        KeyInput::Char(c) => post == (AppState {
            scope_filter_edit: post.scope_filter_edit,
            ..pre
        }) && post.scope_filter_edit@ == pre.scope_filter_edit@.push(c) && act == Action::Idle,
        KeyInput::Ctrl(c) => post == (AppState {
            scope_filter_edit: post.scope_filter_edit,
            ..pre
        }) && post.scope_filter_edit@ == pre.scope_filter_edit@.push(c) && act == Action::Idle,
        _ => post == pre && act == Action::Idle,
    }
}

} // verus!

verus! {

/// `Some(i)` as a machine option.
pub open spec fn opt_usize(o: Option<int>) -> Option<usize> {
    match o {
        Some(i) => Some(i as usize),
        None => None,
    }
}

proof fn lemma_seq_find_from(s: Seq<int>, x: int, i: int)
    requires
        0 <= i,
    ensures
        match seq_find_from(s, x, i) {
            Some(k) => i <= k < s.len() && s[k] == x,
            None => forall|j: int| i <= j < s.len() ==> s[j] != x,
        },
    decreases s.len() - i,
{
    if 0 <= i < s.len() && s[i] != x {
        lemma_seq_find_from(s, x, i + 1);
    }
}

pub(crate) fn position_of(v: &Vec<usize>, x: usize) -> (r: Option<usize>)
    ensures
        match r {
            Some(k) => (k as int) < v@.len() && seq_find_from(
                v@.map_values(|y: usize| y as int),
                x as int,
                0,
            ) == Some(k as int),
            None => seq_find_from(v@.map_values(|y: usize| y as int), x as int, 0) is None,
        },
{
    let ghost s = v@.map_values(|y: usize| y as int);
    let n = v.len();
    let mut k: usize = 0;
    while k < n
        invariant
            0 <= k <= n,
            n == v@.len(),
            s == v@.map_values(|y: usize| y as int),
            seq_find_from(s, x as int, 0) == seq_find_from(s, x as int, k as int),
        decreases n - k,
    {
        if v[k] == x {
            return Some(k);
        }
        k = k + 1;
    }
    None
}

impl AppState {
    /// A fresh dashboard state pointed at `es_url`: indices active, focus
    /// on the navigation list, everything else empty or unknown, and a
    /// page size of five documents.
    pub fn new(es_url: String) -> (r: AppState)
        ensures
            r.es_url == es_url,
            r.health is None,
            r.indices.entries@.len() == 0 && r.indices.selected is None,
            r.aliases.entries@.len() == 0 && r.aliases.selected is None,
            r.datastreams.entries@.len() == 0 && r.datastreams.selected is None,
            r.favorites@.len() == 0,
            r.saved_views@.len() == 0,
            r.documents@.len() == 0,
            r.docs_total is None,
            r.docs_from == 0,
            r.docs_size == 5,
            r.docs_selected is None,
            r.focus == Focus::LeftNav,
            r.input_mode == InputMode::Normal,
            r.scope_kind == ScopeKind::Indices,
            r.scope_filter@.len() == 0,
            r.scope_filter_edit@.len() == 0,
            r.query@.len() == 0,
            r.query_edit@.len() == 0,
            r.show_doc_drawer == false,
            r.doc_view_mode == DocViewMode::Pretty,
            r.search_took_ms is None,
            r.search_shards_failed is None,
            r.search_timed_out is None,
            r.last_error is None,
    {
        AppState {
            es_url,
            health: None,
            indices: ScopeCollection::new(),
            aliases: ScopeCollection::new(),
            datastreams: ScopeCollection::new(),
            favorites: Vec::new(),
            saved_views: Vec::new(),
            documents: Vec::new(),
            docs_total: None,
            docs_from: 0,
            docs_size: 5,
            docs_selected: None,
            focus: Focus::LeftNav,
            input_mode: InputMode::Normal,
            scope_kind: ScopeKind::Indices,
            scope_filter: String::new(),
            scope_filter_edit: String::new(),
            query: String::new(),
            query_edit: String::new(),
            show_doc_drawer: false,
            doc_view_mode: DocViewMode::Pretty,
            search_took_ms: None,
            search_shards_failed: None,
            search_timed_out: None,
            last_error: None,
        }
    }

    /// The identity key of the selected entry of the active collection.
    pub fn selected_scope_name(&self) -> (r: Option<&str>)
        ensures
            match r {
                Some(s) => active_col(*self).selected_key() == Some(s@),
                None => active_col(*self).selected_key() is None,
            },
    {
        match self.scope_kind {
            ScopeKind::Indices => match self.indices.selected {
                Some(i) => if i < self.indices.entries.len() {
                    Some(self.indices.entries[i].key())
                } else {
                    None
                },
                None => None,
            },
            ScopeKind::Aliases => match self.aliases.selected {
                Some(i) => if i < self.aliases.entries.len() {
                    Some(self.aliases.entries[i].key())
                } else {
                    None
                },
                None => None,
            },
            ScopeKind::DataStreams => match self.datastreams.selected {
                Some(i) => if i < self.datastreams.entries.len() {
                    Some(self.datastreams.entries[i].key())
                } else {
                    None
                },
                None => None,
            },
        }
    }

    /// Switches the active kind; pagination resets unless it already was
    /// the active kind. The committed query is preserved.
    pub fn set_scope_kind(&mut self, scope: ScopeKind)
        ensures
            set_kind_spec(*old(self), scope, *final(self)),
    {
        if self.scope_kind == scope {
            return ;
        }
        self.scope_kind = scope;
        self.reset_docs_paging();
    }

    /// Forgets the pagination cursor, the known total and the document
    /// selection.
    pub fn reset_docs_paging(&mut self)
        ensures
            *final(self) == reset_paging(*old(self)),
    {
        self.docs_from = 0;
        self.docs_total = None;
        self.docs_selected = None;
    }

    /// Advances one page, as `next_from` describes.
    pub fn next_docs_page(&mut self)
        ensures
            *final(self) == (AppState {
                docs_from: next_from(old(self).docs_from, old(self).docs_size, old(self).docs_total)
                    as u64,
                ..*old(self)
            }),
    {
        match self.docs_total {
            Some(t) => {
                if self.docs_from < t && self.docs_size < t - self.docs_from {
                    self.docs_from = self.docs_from + self.docs_size;
                }
            },
            None => {
                if self.docs_from <= u64::MAX - self.docs_size {
                    self.docs_from = self.docs_from + self.docs_size;
                }
            },
        }
    }

    /// Retreats one page, clamped at the first page.
    pub fn prev_docs_page(&mut self)
        ensures
            *final(self) == (AppState {
                docs_from: prev_from(old(self).docs_from, old(self).docs_size) as u64,
                ..*old(self)
            }),
    {
        if self.docs_from >= self.docs_size {
            self.docs_from = self.docs_from - self.docs_size;
        } else {
            self.docs_from = 0;
        }
    }

    /// The selected position of the active collection.
    pub fn scope_selected(&self) -> (r: Option<usize>)
        ensures
            r == active_col(*self).selected,
    {
        match self.scope_kind {
            ScopeKind::Indices => self.indices.selected,
            ScopeKind::Aliases => self.aliases.selected,
            ScopeKind::DataStreams => self.datastreams.selected,
        }
    }

    /// Replaces the selected position of the active collection.
    pub fn set_scope_selected(&mut self, idx: Option<usize>)
        ensures
            *final(self) == with_active_selected(*old(self), idx),
    {
        match self.scope_kind {
            ScopeKind::Indices => {
                self.indices.selected = idx;
            },
            ScopeKind::Aliases => {
                self.aliases.selected = idx;
            },
            ScopeKind::DataStreams => {
                self.datastreams.selected = idx;
            },
        }
    }

    /// The filtered view of the active collection, as entry positions in
    /// order.
    pub fn filtered_scope_indices(&self) -> (r: Vec<usize>)
        ensures
            r@.map_values(|x: usize| x as int) == active_filtered(*self),
    {
        let trimmed = trim_ws(self.scope_filter.as_str());
        let needle = to_lower(trimmed);
        match self.scope_kind {
            ScopeKind::Indices => filter_indices_by(&self.indices.entries, needle.as_str()),
            ScopeKind::Aliases => filter_indices_by(&self.aliases.entries, needle.as_str()),
            ScopeKind::DataStreams => filter_indices_by(&self.datastreams.entries, needle.as_str()),
        }
    }

    /// Moves the selection cyclically through the filtered view of the
    /// active collection, as `shift_spec` describes, and resets
    /// pagination when something was selected.
    pub fn shift_scope_selection(&mut self, delta: isize)
        ensures
            shift_spec(*old(self), delta as int, *final(self)),
    {
        let filtered = self.filtered_scope_indices();
        if filtered.len() == 0 {
            self.set_scope_selected(None);
            self.reset_docs_paging();
            return ;
        }
        let len = filtered.len();
        let current = self.scope_selected();
        let cur_pos: usize = match current {
            Some(cur) => match position_of(&filtered, cur) {
                Some(k) => k,
                None => 0,
            },
            None => 0,
        };
        let next_pos: usize = if delta >= 0 {
            (cur_pos + 1) % len
        } else if cur_pos == 0 {
            len - 1
        } else {
            cur_pos - 1
        };
        proof {
            assert(next_pos as int == shifted_pos(
                active_filtered(*old(self)),
                sel_view(active_col(*old(self)).selected),
                delta as int,
            ));
        }
        let sel = filtered[next_pos];
        self.set_scope_selected(Some(sel));
        self.reset_docs_paging();
    }

    /// Moves the scope selection forward.
    pub fn select_next_scope_item(&mut self)
        ensures
            shift_spec(*old(self), 1, *final(self)),
    {
        self.shift_scope_selection(1);
    }

    /// Moves the scope selection backward.
    pub fn select_prev_scope_item(&mut self)
        ensures
            shift_spec(*old(self), -1, *final(self)),
    {
        self.shift_scope_selection(-1);
    }

    /// Moves the document selection forward, wrapping to the first.
    pub fn select_next_doc(&mut self)
        ensures
            *final(self) == (AppState {
                docs_selected: opt_usize(
                    next_doc_sel(sel_view(old(self).docs_selected), old(self).documents@.len() as int),
                ),
                ..*old(self)
            }),
    {
        if self.documents.len() == 0 {
            self.docs_selected = None;
            return ;
        }
        let next: usize = match self.docs_selected {
            Some(idx) => if idx < self.documents.len() - 1 {
                idx + 1
            } else {
                0
            },
            None => 0,
        };
        self.docs_selected = Some(next);
    }

    /// Moves the document selection backward, wrapping to the last.
    pub fn select_prev_doc(&mut self)
        ensures
            *final(self) == (AppState {
                docs_selected: opt_usize(
                    prev_doc_sel(sel_view(old(self).docs_selected), old(self).documents@.len() as int),
                ),
                ..*old(self)
            }),
    {
        if self.documents.len() == 0 {
            self.docs_selected = None;
            return ;
        }
        let prev: usize = match self.docs_selected {
            Some(idx) => if idx == 0 {
                self.documents.len() - 1
            } else {
                idx - 1
            },
            None => self.documents.len() - 1,
        };
        self.docs_selected = Some(prev);
    }

    /// Re-establishes the invariant that the selection points into the
    /// filtered view, as `visible_result` describes; the result says
    /// whether the effective selection changed, so callers know whether
    /// to fetch documents again.
    pub fn ensure_scope_selection_visible(&mut self) -> (r: bool)
        ensures
            *final(self) == visible_result(*old(self)).0,
            r == visible_result(*old(self)).1,
    {
        let filtered = self.filtered_scope_indices();
        if filtered.len() == 0 {
            match self.scope_selected() {
                Some(_) => {
                    self.set_scope_selected(None);
                    true
                },
                None => false,
            }
        } else {
            let ghost fs = active_filtered(*old(self));
            let first = filtered[0];
            match self.scope_selected() {
                Some(current) => {
                    match position_of(&filtered, current) {
                        Some(_) => {
                            proof {
                                lemma_seq_find_from(fs, current as int, 0);
                            }
                            false
                        },
                        None => {
                            proof {
                                lemma_seq_find_from(fs, current as int, 0);
                                if fs.contains(current as int) {
                                    let j = choose|j: int|
                                        0 <= j < fs.len() && fs[j] == current as int;
                                    assert(fs[j] == current as int);
                                }
                            }
                            self.set_scope_selected(Some(first));
                            true
                        },
                    }
                },
                None => {
                    self.set_scope_selected(Some(first));
                    true
                },
            }
        }
    }
}

} // verus!

verus! {

impl AppState {
    /// Routes one keystroke through the input-mode machine: commands in
    /// `Normal` mode, buffer edits in the two edit modes, commit on Enter
    /// and cancel on Esc, as the three relations describe.
    pub fn handle_key(&mut self, key: KeyInput) -> (act: Action)
        ensures
            match old(self).input_mode {
                InputMode::Normal => normal_key_spec(*old(self), key, *final(self), act),
                InputMode::Query => query_key_spec(*old(self), key, *final(self), act),
                InputMode::ScopeFilter => filter_key_spec(*old(self), key, *final(self), act),
            },
    {
        match self.input_mode {
            InputMode::Normal => self.handle_key_normal(key),
            InputMode::Query => self.handle_key_query(key),
            InputMode::ScopeFilter => self.handle_key_filter(key),
        }
    }

    fn handle_key_normal(&mut self, key: KeyInput) -> (act: Action)
        requires
            old(self).input_mode == InputMode::Normal,
        ensures
            normal_key_spec(*old(self), key, *final(self), act),
    {
        match key {
            KeyInput::Char(c) => {
                if c == 'q' {
                    Action::Quit
                } else if c == 'r' {
                    Action::RefreshAll
                } else if c == '/' || c == '?' {
                    self.input_mode = InputMode::Query;
                    self.query_edit = self.query.clone();
                    Action::Idle
                } else if c == '1' {
                    self.set_scope_kind(ScopeKind::Indices);
                    Action::FetchDocs
                } else if c == '2' {
                    self.set_scope_kind(ScopeKind::Aliases);
                    Action::FetchDocs
                } else if c == '3' {
                    self.set_scope_kind(ScopeKind::DataStreams);
                    Action::FetchDocs
                } else if c == 'o' {
                    if self.focus == Focus::Results {
                        self.show_doc_drawer = !self.show_doc_drawer;
                    }
                    Action::Idle
                } else if c == 'd' {
                    Action::FetchDocs
                } else if c == 'n' {
                    self.next_docs_page();
                    Action::FetchDocs
                } else if c == 'p' {
                    self.prev_docs_page();
                    Action::FetchDocs
                } else if c == 'v' {
                    if self.show_doc_drawer {
                        self.doc_view_mode = match self.doc_view_mode {
                            DocViewMode::Pretty => DocViewMode::Raw,
                            DocViewMode::Raw => DocViewMode::Flatten,
                            DocViewMode::Flatten => DocViewMode::Pretty,
                        };
                    }
                    Action::Idle
                } else {
                    Action::Idle
                }
            },
            KeyInput::Ctrl(c) => {
                if c == 'f' {
                    self.input_mode = InputMode::ScopeFilter;
                    self.scope_filter_edit = self.scope_filter.clone();
                }
                Action::Idle
            },
            KeyInput::Tab => {
                self.focus = match self.focus {
                    Focus::LeftNav => Focus::Results,
                    Focus::Results => Focus::LeftNav,
                };
                Action::Idle
            },
            KeyInput::Up => {
                match self.focus {
                    Focus::LeftNav => {
                        self.shift_scope_selection(-1);
                        Action::FetchDocs
                    },
                    Focus::Results => {
                        self.select_prev_doc();
                        Action::Idle
                    },
                }
            },
            KeyInput::Down => {
                match self.focus {
                    Focus::LeftNav => {
                        self.shift_scope_selection(1);
                        Action::FetchDocs
                    },
                    Focus::Results => {
                        self.select_next_doc();
                        Action::Idle
                    },
                }
            },
            KeyInput::Enter => {
                if self.focus == Focus::Results {
                    self.show_doc_drawer = !self.show_doc_drawer;
                }
                Action::Idle
            },
            KeyInput::Esc => {
                self.show_doc_drawer = false;
                Action::Idle
            },
            KeyInput::Backspace => Action::Idle,
        }
    }

    fn handle_key_query(&mut self, key: KeyInput) -> (act: Action)
        requires
            old(self).input_mode == InputMode::Query,
        ensures
            query_key_spec(*old(self), key, *final(self), act),
    {
        match key {
            KeyInput::Esc => {
                self.input_mode = InputMode::Normal;
                self.query_edit = String::new();
                Action::Idle
            },
            KeyInput::Enter => {
                let committed = trim_ws(self.query_edit.as_str()).to_owned();
                self.query = committed;
                self.input_mode = InputMode::Normal;
                self.reset_docs_paging();
                Action::FetchDocs
            },
            KeyInput::Backspace => {
                pop_char(&mut self.query_edit);
                Action::Idle
            },
            KeyInput::Char(c) => {
                push_char(&mut self.query_edit, c);
                Action::Idle
            },
            KeyInput::Ctrl(c) => {
                push_char(&mut self.query_edit, c);
                Action::Idle
            },
            _ => Action::Idle,
        }
    }

    fn handle_key_filter(&mut self, key: KeyInput) -> (act: Action)
        requires
            old(self).input_mode == InputMode::ScopeFilter,
        ensures
            filter_key_spec(*old(self), key, *final(self), act),
    {
        match key {
            KeyInput::Esc => {
                self.scope_filter_edit = String::new();
                self.input_mode = InputMode::Normal;
                Action::Idle
            },
            KeyInput::Enter => {
                let committed = trim_ws(self.scope_filter_edit.as_str()).to_owned();
                self.scope_filter = committed;
                self.input_mode = InputMode::Normal;
                let changed = self.ensure_scope_selection_visible();
                if changed {
                    Action::FetchDocs
                } else {
                    Action::Idle
                }
            },
            KeyInput::Backspace => {
                pop_char(&mut self.scope_filter_edit);
                Action::Idle
            },
            KeyInput::Char(c) => {
                push_char(&mut self.scope_filter_edit, c);
                Action::Idle
            },
            KeyInput::Ctrl(c) => {
                push_char(&mut self.scope_filter_edit, c);
                Action::Idle
            },
            _ => Action::Idle,
        }
    }
}

} // verus!

verus! {

// ---------------------------------------------------------------------------
// Refresh orchestration: appliers and failure aggregation
// ---------------------------------------------------------------------------

/// The error label of a fetch.
pub open spec fn fetch_label(s: FetchSource) -> Seq<char> {
    match s {
        FetchSource::Health => "health"@,
        FetchSource::Indices => "indices"@,
        FetchSource::Aliases => "aliases"@,
        FetchSource::DataStreams => "datastreams"@,
        FetchSource::Docs => "docs"@,
    }
}

/// The summary line of one failing fetch: its label, a colon, the
/// failure text.
pub open spec fn error_line_of(s: FetchSource, msg: Seq<char>) -> Seq<char> {
    fetch_label(s) + ": "@ + msg
}

/// Builds the summary line of one failing fetch, as `error_line_of`
/// describes.
pub fn fetch_error_line(source: FetchSource, msg: &str) -> (r: String)
    ensures
        r@ == error_line_of(source, msg@),
{
    let mut r = match source {
        FetchSource::Health => "health".to_owned(),
        FetchSource::Indices => "indices".to_owned(),
        FetchSource::Aliases => "aliases".to_owned(),
        FetchSource::DataStreams => "datastreams".to_owned(),
        FetchSource::Docs => "docs".to_owned(),
    };
    r.append(": ");
    r.append(msg);
    proof {
        assert(r@ =~= error_line_of(source, msg@));
    }
    r
}

/// The error lines from `i` on, joined with a separator.
pub open spec fn joined_from(errs: Seq<Seq<char>>, i: int) -> Seq<char>
    decreases errs.len() - i,
{
    if 0 <= i < errs.len() {
        if i + 1 < errs.len() {
            errs[i] + " | "@ + joined_from(errs, i + 1)
        } else {
            errs[i]
        }
    } else {
        Seq::empty()
    }
}

/// All error lines of one pass, joined with a separator.
pub open spec fn joined_errors(errs: Seq<Seq<char>>) -> Seq<char> {
    joined_from(errs, 0)
}

/// Joins error lines into one summary, as `joined_errors` describes.
pub fn join_error_lines(errs: &Vec<String>) -> (r: String)
    ensures
        r@ == joined_errors(errs.deep_view()),
{
    let ghost dv = errs.deep_view();
    let n = errs.len();
    let mut r = String::new();
    let mut i: usize = 0;
    proof {
        assert(dv.len() == n) by {
            assert(errs.deep_view().len() == errs@.len());
        }
    }
    while i < n
        invariant
            0 <= i <= n,
            n == errs@.len(),
            dv == errs.deep_view(),
            dv.len() == n,
            forall|k: int| 0 <= k < n ==> dv[k] == errs@[k]@,
            i == 0 ==> r@ == Seq::<char>::empty(),
            i > 0 ==> r@ + (if i < n {
                " | "@ + joined_from(dv, i as int)
            } else {
                Seq::<char>::empty()
            }) == joined_from(dv, 0),
        decreases n - i,
    {
        let ghost pre = r@;
        if i > 0 {
            r.append(" | ");
        }
        r.append(errs[i].as_str());
        proof {
            if i == 0 {
                assert(r@ =~= dv[0]);
                if n > 1 {
                    assert(joined_from(dv, 0) == dv[0] + " | "@ + joined_from(dv, 1));
                } else {
                    assert(joined_from(dv, 0) == dv[0]);
                    assert(r@ + Seq::<char>::empty() =~= r@);
                }
            } else {
                assert(r@ =~= pre + (" | "@ + dv[i as int]));
                if i + 1 < n {
                    assert(joined_from(dv, i as int) == dv[i as int] + " | "@ + joined_from(
                        dv,
                        i + 1,
                    ));
                    assert(pre + (" | "@ + (dv[i as int] + " | "@ + joined_from(dv, i + 1)))
                        =~= (pre + (" | "@ + dv[i as int])) + (" | "@ + joined_from(dv, i + 1)));
                } else {
                    assert(joined_from(dv, i as int) == dv[i as int]);
                    assert(pre + (" | "@ + dv[i as int]) =~= (pre + (" | "@ + dv[i as int]))
                        + Seq::<char>::empty());
                }
            }
        }
        i = i + 1;
    }
    proof {
        if n == 0 {
            assert(joined_from(dv, 0) =~= Seq::<char>::empty());
        }
    }
    r
}

proof fn lemma_join_contains(errs: Seq<Seq<char>>, i: int, k: int)
    requires
        0 <= i <= k < errs.len(),
    ensures
        contains_sub(joined_from(errs, i), errs[k]),
    decreases k - i,
{
    if i == k {
        if i + 1 < errs.len() {
            assert(match_at(errs[i], errs[i], 0)) by {
                assert(errs[i].subrange(0, errs[i].len() as int) =~= errs[i]);
            }
            crate::text::lemma_match_left(errs[i], " | "@, errs[i], 0);
            crate::text::lemma_match_left(
                errs[i] + " | "@,
                joined_from(errs, i + 1),
                errs[i],
                0,
            );
            assert((errs[i] + " | "@) + joined_from(errs, i + 1) =~= errs[i] + " | "@
                + joined_from(errs, i + 1));
        } else {
            assert(joined_from(errs, i).subrange(0, errs[i].len() as int) =~= errs[i]);
            assert(match_at(joined_from(errs, i), errs[i], 0));
        }
    } else {
        lemma_join_contains(errs, i + 1, k);
        let q = choose|q: int| #[trigger] match_at(joined_from(errs, i + 1), errs[k], q);
        crate::text::lemma_match_right(
            errs[i] + " | "@,
            joined_from(errs, i + 1),
            errs[k],
            q,
        );
        assert((errs[i] + " | "@) + joined_from(errs, i + 1) =~= errs[i] + " | "@ + joined_from(
            errs,
            i + 1,
        ));
        assert(joined_from(errs, i) == errs[i] + " | "@ + joined_from(errs, i + 1));
    }
}

/// Partial-failure aggregation: when one fetch of a pass fails — say the
/// health fetch — its labelled failure text appears in the joined error
/// summary, which is then non-empty; the other fetches' results are
/// applied independently of it (each applier above touches only its own
/// component), so a succeeding indices fetch still leaves a freshly
/// replaced, non-stale collection beside that summary.
pub proof fn lemma_partial_failure_aggregation(errs: Seq<Seq<char>>, k: int, msg: Seq<char>)
    requires
        0 <= k < errs.len(),
        errs[k] == error_line_of(FetchSource::Health, msg),
    ensures
        joined_errors(errs).len() > 0,
        contains_sub(joined_errors(errs), msg),
{
    lemma_join_contains(errs, 0, k);
    reveal_strlit("health");
    reveal_strlit(": ");
    assert(errs[k].len() == 8 + msg.len());
    let line = errs[k];
    assert(match_at(line, msg, 8)) by {
        assert(line.subrange(8, 8 + msg.len() as int) =~= msg);
    }
    crate::text::lemma_contains_within(joined_errors(errs), line, msg, 8);
    let q = choose|q: int| #[trigger] match_at(joined_errors(errs), line, q);
    assert(joined_errors(errs).len() >= q + line.len());
}

impl AppState {
    /// Records a fresh health report.
    pub fn apply_health(&mut self, h: ClusterHealth)
        ensures
            *final(self) == (AppState { health: Some(h), ..*old(self) }),
    {
        self.health = Some(h);
    }

    /// Replaces one kind's collection wholesale, reconciling its
    /// selection by identity key; nothing else changes.
    pub fn replace_scope(&mut self, kind: ScopeKind, entries: Vec<ScopeEntry>)
        ensures
            match kind {
                ScopeKind::Indices => {
                    &&& *final(self) == (AppState { indices: final(self).indices, ..*old(self) })
                    &&& final(self).indices.entries == entries
                    &&& sel_view(final(self).indices.selected) == reconciled_selection(
                        old(self).indices.selected_key(),
                        entries@,
                    )
                    &&& final(self).indices.wf()
                },
                ScopeKind::Aliases => {
                    &&& *final(self) == (AppState { aliases: final(self).aliases, ..*old(self) })
                    &&& final(self).aliases.entries == entries
                    &&& sel_view(final(self).aliases.selected) == reconciled_selection(
                        old(self).aliases.selected_key(),
                        entries@,
                    )
                    &&& final(self).aliases.wf()
                },
                ScopeKind::DataStreams => {
                    &&& *final(self) == (AppState {
                        datastreams: final(self).datastreams,
                        ..*old(self)
                    })
                    &&& final(self).datastreams.entries == entries
                    &&& sel_view(final(self).datastreams.selected) == reconciled_selection(
                        old(self).datastreams.selected_key(),
                        entries@,
                    )
                    &&& final(self).datastreams.wf()
                },
            },
    {
        match kind {
            ScopeKind::Indices => self.indices.replace_entries(entries),
            ScopeKind::Aliases => self.aliases.replace_entries(entries),
            ScopeKind::DataStreams => self.datastreams.replace_entries(entries),
        }
    }

    /// Empties the document list and summary, as a skipped document fetch
    /// demands when no scope entry is selected.
    pub fn clear_docs(&mut self)
        ensures
            *final(self) == (AppState {
                documents: final(self).documents,
                docs_total: None,
                search_took_ms: None,
                search_shards_failed: None,
                search_timed_out: None,
                docs_selected: None,
                ..*old(self)
            }),
            final(self).documents@ == Seq::<DocEntry>::empty(),
    {
        self.documents = Vec::new();
        self.docs_total = None;
        self.search_took_ms = None;
        self.search_shards_failed = None;
        self.search_timed_out = None;
        self.docs_selected = None;
        proof {
            assert(self.documents@ =~= Seq::<DocEntry>::empty());
        }
    }

    /// Replaces the document list and summary wholesale and re-clamps the
    /// document selection into the new bounds.
    pub fn apply_docs_result(&mut self, docs: Vec<DocEntry>, summary: SearchSummary)
        ensures
            *final(self) == (AppState {
                documents: docs,
                docs_total: summary.total,
                search_took_ms: summary.took,
                search_shards_failed: summary.shards_failed,
                search_timed_out: summary.timed_out,
                docs_selected: opt_usize(
                    clamped_doc_sel(sel_view(old(self).docs_selected), docs@.len() as int),
                ),
                ..*old(self)
            }),
    {
        self.documents = docs;
        self.docs_total = summary.total;
        self.search_took_ms = summary.took;
        self.search_shards_failed = summary.shards_failed;
        self.search_timed_out = summary.timed_out;
        if self.documents.len() == 0 {
            self.docs_selected = None;
        } else {
            let current: usize = match self.docs_selected {
                Some(i) => i,
                None => 0,
            };
            let bounded: usize = if current < self.documents.len() {
                current
            } else {
                self.documents.len() - 1
            };
            self.docs_selected = Some(bounded);
        }
    }

    /// Ends a refresh pass: zero failures clear the error summary, any
    /// failures replace it with their lines joined into one.
    pub fn set_refresh_errors(&mut self, errs: Vec<String>)
        ensures
            errs@.len() == 0 ==> *final(self) == (AppState { last_error: None, ..*old(self) }),
            errs@.len() > 0 ==> {
                &&& *final(self) == (AppState {
                    last_error: final(self).last_error,
                    ..*old(self)
                })
                &&& final(self).last_error matches Some(e) && e@ == joined_errors(errs.deep_view())
            },
    {
        if errs.len() == 0 {
            self.last_error = None;
        } else {
            self.last_error = Some(join_error_lines(&errs));
        }
    }

    /// Records the failure of a lone document fetch, replacing any prior
    /// error summary.
    pub fn set_docs_error(&mut self, msg: &str)
        ensures
            *final(self) == (AppState { last_error: final(self).last_error, ..*old(self) }),
            final(self).last_error matches Some(e) && e@ == error_line_of(
                FetchSource::Docs,
                msg@,
            ),
    {
        self.last_error = Some(fetch_error_line(FetchSource::Docs, msg));
    }
}

} // verus!
