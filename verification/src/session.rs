//! The state of the interface: routes and selection, focus and editing,
//! the drafts of every route, the URL history, the response on show and
//! the custom-route dialog, with the operations the key and mouse bindings
//! perform on it.
use vstd::prelude::*;
use crate::app::{
    buffer_edit, buffer_room, draft_ok, draft_wf, kv_fresh, lemma_draft_wf_rows, lemma_empty_buffer_ok,
    lemma_row_stepped_wf, row_stepped, row_toggled, tab_at, tab_rows, BodyType, EditorTab, FocusPane,
    HttpMethod, InputTarget, KVRow, RequestDraft, TextBuffer,
};
use crate::config::AppConfig;
use crate::highlight::ResponseView;
use crate::http::HttpResponse;
use crate::keyed::KeyedList;
use crate::scanner::{route_id, RouteInfo, RouteView, ScannerReport};
use crate::text::{concat, decimal, decimal_string, str_eq, string_from};
use crate::utf8len::{str_byte_len, utf8_len};

verus! {

/// The response on show.
#[derive(Debug)]
pub struct ResponseState {
    pub status_code: Option<u16>,
    pub latency_ms: Option<u128>,
    pub size_bytes: usize,
    pub content_type: String,
    pub body: String,
    pub view: ResponseView,
}

/// The field of the custom-route dialog that has the focus.
#[derive(Debug, Clone, Copy, PartialEq, Eq, Structural)]
pub enum CustomRouteField {
    Method,
    Path,
}

/// The dialog that adds a route by hand.
#[derive(Debug, Clone)]
pub struct CustomRouteDialog {
    pub method: HttpMethod,
    pub path: TextBuffer,
    pub active_field: CustomRouteField,
}

/// Where the panes lie on screen, in columns, as the last drawn frame laid
/// them out: the explorer's width, the editor's width, and the column
/// (counted from the editor's inner left edge) where the value column of
/// the key/value table begins.
#[derive(Debug, Clone, Copy)]
pub struct ClickLayout {
    pub explorer_width: u16,
    pub editor_width: u16,
    pub key_end: u16,
}

/// The whole state of the interface.
#[derive(Debug)]
pub struct App {
    pub routes: Vec<RouteInfo>,
    pub filtered_routes: Vec<RouteInfo>,
    pub scanner_report: ScannerReport,
    pub selected_route: usize,
    pub focus: FocusPane,
    pub editor_tab: EditorTab,
    pub input_mode: bool,
    pub input_target: InputTarget,
    pub drafts: KeyedList<RequestDraft>,
    pub url_history: Vec<String>,
    pub url_history_index: Option<usize>,
    pub url_history_open: bool,
    pub viewer_scroll: u16,
    pub response: ResponseState,
    pub should_quit: bool,
    pub pending_request: bool,
    pub loader_tick: u8,
    pub status_message: String,
    pub env_vars: KeyedList<String>,
    pub custom_route_dialog: Option<CustomRouteDialog>,
    pub view_picker_open: bool,
    pub body_type_focused: bool,
}

/// The base URL a new draft starts from.
pub open spec fn default_base_url() -> Seq<char> {
    "http://localhost:3000"@
}

/// The pane after `f`: explorer, editor, viewer, explorer.
pub open spec fn next_pane(f: FocusPane) -> FocusPane {
    match f {
        FocusPane::Explorer => FocusPane::Editor,
        FocusPane::Editor => FocusPane::Viewer,
        FocusPane::Viewer => FocusPane::Explorer,
    }
}

/// The pane before `f`.
pub open spec fn prev_pane(f: FocusPane) -> FocusPane {
    match f {
        FocusPane::Explorer => FocusPane::Viewer,
        FocusPane::Editor => FocusPane::Explorer,
        FocusPane::Viewer => FocusPane::Editor,
    }
}

/// The key under which the selected route's draft is kept: the route's id,
/// or "default" when no route is selected.
pub open spec fn draft_key(a: App) -> Seq<char> {
    if a.selected_route < a.filtered_routes@.len() {
        route_id(a.filtered_routes@[a.selected_route as int]@)
    } else {
        "default"@
    }
}

/// The base URL a new draft of this state starts from: the oldest entry of
/// the URL history, or the default base URL when it is empty.
pub open spec fn fallback_base(a: App) -> Seq<char> {
    if a.url_history@.len() > 0 {
        a.url_history@.last()@
    } else {
        default_base_url()
    }
}

/// A draft as `RequestDraft::new(base)` makes it.
pub open spec fn fresh_draft(d: RequestDraft, base: Seq<char>) -> bool {
    &&& d.base_url.text@ == base
    &&& d.base_url.cursor == utf8_len(base)
    &&& d.base_url.wf()
    &&& d.headers@.len() == 1 && kv_fresh(d.headers@[0])
    &&& d.params@.len() == 1 && kv_fresh(d.params@[0])
    &&& d.auth@.len() == 1 && kv_fresh(d.auth@[0])
    &&& d.body.text@ == Seq::<char>::empty()
    &&& d.body.cursor == 0
    &&& d.body_type == BodyType::NoBody
    &&& d.active_row == 0
    &&& d.active_col == 0
}

/// `d` is the draft of the selected route: the kept one, or a fresh one
/// when none is kept yet.
pub open spec fn is_current_draft(a: App, d: RequestDraft) -> bool {
    let k = draft_key(a);
    if a.drafts@.contains_key(k) {
        d == a.drafts@[k]
    } else {
        fresh_draft(d, fallback_base(a))
    }
}

/// The history entry that cycling moves to: up from no selection is the
/// newest entry, down the oldest; otherwise one step older (up) or newer
/// (down), wrapping around.
pub open spec fn history_target(a: App, up: bool) -> int {
    let len = a.url_history@.len() as int;
    match a.url_history_index {
        None => if up { 0 } else { len - 1 },
        Some(i) => if up { (i + 1) % len } else { (i + len - 1) % len },
    }
}

/// The state `a` with the history selection on entry `i`.
pub open spec fn with_history_index(a: App, i: int) -> App {
    App { url_history_index: Some(i as usize), ..a }
}

/// The state `a` with its drafts replaced.
pub open spec fn with_drafts(a: App, drafts: KeyedList<RequestDraft>) -> App {
    App { drafts, ..a }
}

/// The texts of a list of strings.
pub open spec fn string_texts(v: Seq<String>) -> Seq<Seq<char>> {
    v.map_values(|s: String| s@)
}

/// The status line after a response: "<status> in <latency>ms".
pub open spec fn response_status_line(status: u16, latency: u128) -> Seq<char> {
    decimal(status as nat) + " in "@ + decimal(latency as nat) + "ms"@
}

/// `b` is `a` with the kept draft of the selected route set to `d1`.
pub open spec fn current_replaced(a: App, b: App, d1: RequestDraft) -> bool {
    &&& b == with_drafts(a, b.drafts)
    &&& b.drafts@ == a.drafts@.insert(draft_key(a), d1)
}

/// `b` is `a` after `cycle_url_history(up)`.
pub open spec fn history_cycled(a: App, up: bool, b: App) -> bool {
    if a.url_history@.len() == 0 {
        b == a
    } else {
        let mid = with_history_index(a, history_target(a, up));
        let url = a.url_history@[history_target(a, up)]@;
        exists|d0: RequestDraft, d1: RequestDraft| {
            &&& #[trigger] is_current_draft(mid, d0)
            &&& #[trigger] base_url_set(d0, d1, url)
            &&& current_replaced(mid, b, d1)
        }
    }
}

/// The base URL of the selected route's draft (a fresh draft's when none is kept).
pub open spec fn current_base_url(a: App) -> Seq<char> {
    if a.drafts@.contains_key(draft_key(a)) {
        a.drafts@[draft_key(a)].base_url.text@
    } else {
        fallback_base(a)
    }
}

/// `b` is `a` after `stop_editing`: input ended, the history closed and
/// unselected, and the current base URL added to its front unless empty or
/// already there.
pub open spec fn editing_stopped(a: App, b: App) -> bool {
    let url = current_base_url(a);
    let added = url.len() > 0 && !string_texts(a.url_history@).contains(url);
    &&& string_texts(b.url_history@) == if added {
        seq![url] + string_texts(a.url_history@)
    } else {
        string_texts(a.url_history@)
    }
    &&& b == (App {
        input_mode: false,
        url_history_open: false,
        url_history_index: None,
        url_history: b.url_history,
        ..a
    })
}

/// `b` is `a` after `add_kv_row`.
pub open spec fn kv_row_added(a: App, b: App) -> bool {
    let tab = a.editor_tab;
    if tab == EditorTab::Body {
        b == a
    } else {
        let mid = (App { input_mode: true, input_target: InputTarget::Tab(tab), ..a });
        exists|d0: RequestDraft, d1: RequestDraft| {
            &&& #[trigger] is_current_draft(a, d0)
            &&& #[trigger] row_added(d0, d1, tab)
            &&& current_replaced(mid, b, d1)
        }
    }
}

/// A copy of a list of routes.
fn duplicate_routes(v: &Vec<RouteInfo>) -> (r: Vec<RouteInfo>)
    ensures
        r@ == v@,
{
    let mut r: Vec<RouteInfo> = Vec::new();
    let mut i: usize = 0;
    while i < v.len()
        invariant
            i <= v.len(),
            r@ == v@.take(i as int),
        decreases v.len() - i,
    {
        r.push(v[i].duplicate());
        assert(v@.take(i + 1) =~= v@.take(i as int).push(v@[i as int]));
        i += 1;
    }
    assert(v@.take(v.len() as int) =~= v@);
    r
}

/// Whether a text is one of the strings of `v`.
fn contains_text(v: &Vec<String>, s: &str) -> (b: bool)
    ensures
        b == string_texts(v@).contains(s@),
{
    let mut i: usize = 0;
    while i < v.len()
        invariant
            i <= v.len(),
            forall|j: int| 0 <= j < i ==> v@[j]@ != s@,
        decreases v.len() - i,
    {
        if str_eq(v[i].as_str(), s) {
            assert(string_texts(v@)[i as int] == s@);
            return true;
        }
        i += 1;
    }
    proof {
        if string_texts(v@).contains(s@) {
            let j = choose|j: int| 0 <= j < string_texts(v@).len() && string_texts(v@)[j] == s@;
            assert(v@[j]@ == s@);
        }
    }
    false
}

/// The history entry that cycling moves to, for a history of `len` entries.
fn history_step(index: Option<usize>, len: usize, up: bool) -> (idx: usize)
    requires
        len > 0,
    ensures
        idx < len,
        idx as int == match index {
            None => if up { 0 } else { len - 1 },
            Some(i) => if up { (i + 1) % (len as int) } else { (i + len - 1) % (len as int) },
        },
{
    match index {
        None => if up { 0 } else { len - 1 },
        Some(i) => {
            if up {
                ((i as u128 + 1) % (len as u128)) as usize
            } else {
                ((i as u128 + len as u128 - 1) % (len as u128)) as usize
            }
        },
    }
}

impl App {
    /// The state at start-up: every scanned route listed and none filtered
    /// out, the explorer focused on the first route, the Params tab shown,
    /// and a URL history holding the default base URL, preceded by the
    /// configured base URL when that is another non-empty one.
    pub fn new(report: ScannerReport, config: &AppConfig, env_vars: KeyedList<String>) -> (a: App)
        ensures
            a.routes@ == report.routes@,
            a.filtered_routes@ == report.routes@,
            a.scanner_report == report,
            app_wf(a),
            a.selected_route == 0,
            a.focus == FocusPane::Explorer,
            a.editor_tab == EditorTab::Params,
            !a.input_mode,
            a.input_target == InputTarget::Tab(EditorTab::Params),
            a.drafts@ == Map::<Seq<char>, RequestDraft>::empty(),
            string_texts(a.url_history@) == if config.base_url@.len() > 0 && config.base_url@ != default_base_url() {
                seq![config.base_url@, default_base_url()]
            } else {
                seq![default_base_url()]
            },
            a.url_history_index is None,
            !a.url_history_open,
            a.viewer_scroll == 0,
            a.response.status_code is None,
            a.response.latency_ms is None,
            a.response.size_bytes == 0,
            a.response.content_type@ == Seq::<char>::empty(),
            a.response.body@ == Seq::<char>::empty(),
            a.response.view == ResponseView::Auto,
            !a.should_quit,
            !a.pending_request,
            a.loader_tick == 0,
            a.status_message@ == "Ready"@,
            a.env_vars == env_vars,
            a.custom_route_dialog is None,
            !a.view_picker_open,
            !a.body_type_focused,
    {
        let routes = duplicate_routes(&report.routes);
        let filtered_routes = duplicate_routes(&report.routes);
        let default_url = string_from("http://localhost:3000");
        let mut url_history: Vec<String> = Vec::new();
        url_history.push(default_url);
        if !config.base_url.as_str().is_empty() && !str_eq(config.base_url.as_str(), "http://localhost:3000") {
            url_history.insert(0, config.base_url.clone());
        }
        assert(string_texts(url_history@) =~= if config.base_url@.len() > 0 && config.base_url@ != default_base_url() {
            seq![config.base_url@, default_base_url()]
        } else {
            seq![default_base_url()]
        });
        App {
            routes,
            filtered_routes,
            scanner_report: report,
            selected_route: 0,
            focus: FocusPane::Explorer,
            editor_tab: EditorTab::Params,
            input_mode: false,
            input_target: InputTarget::Tab(EditorTab::Params),
            drafts: KeyedList::new(),
            url_history,
            url_history_index: None,
            url_history_open: false,
            viewer_scroll: 0,
            response: ResponseState {
                status_code: None,
                latency_ms: None,
                size_bytes: 0,
                content_type: String::new(),
                body: String::new(),
                view: ResponseView::Auto,
            },
            should_quit: false,
            pending_request: false,
            loader_tick: 0,
            status_message: string_from("Ready"),
            env_vars,
            custom_route_dialog: None,
            view_picker_open: false,
            body_type_focused: false,
        }
    }

    // -- Selection and drafts ----------------------------------------------

    /// The selected route, if the selection is on a route.
    pub fn current_route(&self) -> (r: Option<&RouteInfo>)
        ensures
            self.selected_route < self.filtered_routes@.len() ==> r == Some(&self.filtered_routes@[self.selected_route as int]),
            self.selected_route >= self.filtered_routes@.len() ==> r is None,
    {
        if self.selected_route < self.filtered_routes.len() {
            Some(&self.filtered_routes[self.selected_route])
        } else {
            None
        }
    }

    /// The key of the selected route's draft.
    fn draft_key_text(&self) -> (k: String)
        ensures
            k@ == draft_key(*self),
    {
        match self.current_route() {
            Some(r) => r.id(),
            None => string_from("default"),
        }
    }

    /// The base URL a new draft starts from.
    fn fallback_base_text(&self) -> (b: String)
        ensures
            b@ == fallback_base(*self),
    {
        if self.url_history.len() > 0 {
            self.url_history[self.url_history.len() - 1].clone()
        } else {
            string_from("http://localhost:3000")
        }
    }

    /// Whether the explorer's selection is on the "add custom route" entry
    /// that follows the routes.
    pub fn selected_is_add_custom(&self) -> (b: bool)
        ensures
            b == (self.selected_route == self.filtered_routes@.len()),
    {
        self.selected_route == self.filtered_routes.len()
    }

    /// The selected route's draft, to be edited in place; a fresh draft
    /// (from the oldest URL of the history) is kept for the route first when
    /// it has none.
    pub fn current_draft_mut(&mut self) -> (d: &mut RequestDraft)
        ensures
            is_current_draft(*old(self), *d),
            *final(self) == with_drafts(*old(self), final(self).drafts),
            final(self).drafts@ == old(self).drafts@.insert(draft_key(*old(self)), *final(d)),
    {
        let key = self.draft_key_text();
        if !self.drafts.contains_key(key.as_str()) {
            let base = self.fallback_base_text();
            self.drafts.insert(key.clone(), RequestDraft::new(base.as_str()));
        }
        self.drafts.get_mut(key.as_str())
    }

    /// A copy of the selected route's draft, or a fresh draft when it has
    /// none; nothing is kept.
    pub fn current_draft(&self) -> (d: RequestDraft)
        ensures
            self.drafts@.contains_key(draft_key(*self)) ==> crate::app::same_draft(d, self.drafts@[draft_key(*self)]),
            !self.drafts@.contains_key(draft_key(*self)) ==> fresh_draft(d, fallback_base(*self)),
    {
        let key = self.draft_key_text();
        match self.drafts.get(key.as_str()) {
            Some(d) => d.duplicate(),
            None => {
                let base = self.fallback_base_text();
                RequestDraft::new(base.as_str())
            },
        }
    }

    // -- URL history -------------------------------------------------------

    /// Steps through the URL history (newest first) into the base URL of
    /// the selected route's draft: up moves to the next older entry,
    /// starting from the newest; down moves to the next newer one, starting
    /// from the oldest; both wrap around. An empty history changes nothing.
    pub fn cycle_url_history(&mut self, up: bool)
        ensures
            app_wf(*old(self)) ==> app_wf(*final(self)),
            history_cycled(*old(self), up, *final(self)),
    {
        if self.url_history.len() == 0 {
            return;
        }
        let idx = history_step(self.url_history_index, self.url_history.len(), up);
        self.url_history_index = Some(idx);
        let ghost mid = *self;
        assert(mid == with_history_index(*old(self), history_target(*old(self), up)));
        let url = self.url_history[idx].clone();
        let d = self.current_draft_mut();
        let ghost d0 = *d;
        d.base_url = TextBuffer::new(url.as_str());
        let ghost d1 = *d;
        proof {
            assert(base_url_set(d0, d1, url@));
            assert(is_current_draft(mid, d0));
        }
        proof {
            assert(self.drafts@ == mid.drafts@.insert(draft_key(mid), d1));
            assert(*self == with_drafts(mid, self.drafts));
            assert(history_cycled(*old(self), up, *self));
            if app_wf(*old(self)) {
                lemma_history_cycled_wf(*old(self), up, *self);
            }
        }
    }

    // -- Viewer scroll -----------------------------------------------------

    /// Scrolls the viewer one line, stopping at the top and at the largest offset.
    pub fn scroll_viewer(&mut self, up: bool)
        ensures
            app_wf(*old(self)) ==> app_wf(*final(self)),
            final(self).viewer_scroll == if up {
                if old(self).viewer_scroll > 0 { (old(self).viewer_scroll - 1) as u16 } else { 0 }
            } else {
                if old(self).viewer_scroll < u16::MAX { (old(self).viewer_scroll + 1) as u16 } else { u16::MAX }
            },
            *final(self) == (App { viewer_scroll: final(self).viewer_scroll, ..*old(self) }),
    {
        if up {
            self.viewer_scroll = self.viewer_scroll.saturating_sub(1);
        } else {
            self.viewer_scroll = self.viewer_scroll.saturating_add(1);
        }
    }

    /// Scrolls the viewer ten lines, stopping at the top and at the largest offset.
    pub fn scroll_viewer_page(&mut self, up: bool)
        ensures
            app_wf(*old(self)) ==> app_wf(*final(self)),
            final(self).viewer_scroll == if up {
                if old(self).viewer_scroll > 10 { (old(self).viewer_scroll - 10) as u16 } else { 0 }
            } else {
                if old(self).viewer_scroll < u16::MAX - 10 { (old(self).viewer_scroll + 10) as u16 } else { u16::MAX }
            },
            *final(self) == (App { viewer_scroll: final(self).viewer_scroll, ..*old(self) }),
    {
        if up {
            self.viewer_scroll = self.viewer_scroll.saturating_sub(10);
        } else {
            self.viewer_scroll = self.viewer_scroll.saturating_add(10);
        }
    }

    // -- Focus -------------------------------------------------------------

    /// Moves the focus to the next pane: explorer, editor, viewer, explorer.
    pub fn focus_next(&mut self)
        ensures
            app_wf(*old(self)) ==> app_wf(*final(self)),
            final(self).focus == next_pane(old(self).focus),
            *final(self) == (App { focus: final(self).focus, ..*old(self) }),
    {
        self.focus = match self.focus {
            FocusPane::Explorer => FocusPane::Editor,
            FocusPane::Editor => FocusPane::Viewer,
            FocusPane::Viewer => FocusPane::Explorer,
        };
    }

    /// Moves the focus to the previous pane.
    pub fn focus_prev(&mut self)
        ensures
            app_wf(*old(self)) ==> app_wf(*final(self)),
            final(self).focus == prev_pane(old(self).focus),
            *final(self) == (App { focus: final(self).focus, ..*old(self) }),
    {
        self.focus = match self.focus {
            FocusPane::Explorer => FocusPane::Viewer,
            FocusPane::Editor => FocusPane::Explorer,
            FocusPane::Viewer => FocusPane::Editor,
        };
    }

    // -- Editing -----------------------------------------------------------

    /// Starts text input into `target`; the URL history opens, unselected,
    /// when the target is the base URL.
    pub fn start_editing(&mut self, target: InputTarget)
        ensures
            app_wf(*old(self)) ==> app_wf(*final(self)),
            final(self).input_mode,
            final(self).input_target == target,
            target == InputTarget::BaseUrl ==> final(self).url_history_open && final(self).url_history_index is None,
            target != InputTarget::BaseUrl ==> final(self).url_history_open == old(self).url_history_open
                && final(self).url_history_index == old(self).url_history_index,
            *final(self) == (App {
                input_mode: true,
                input_target: target,
                url_history_open: final(self).url_history_open,
                url_history_index: final(self).url_history_index,
                ..*old(self)
            }),
    {
        self.input_mode = true;
        self.input_target = target;
        if target == InputTarget::BaseUrl {
            self.url_history_open = true;
            self.url_history_index = None;
        }
    }

    /// Ends text input and closes the URL history; the base URL of the
    /// selected route's draft joins the front of the history unless it is
    /// empty or already there.
    pub fn stop_editing(&mut self)
        ensures
            app_wf(*old(self)) ==> app_wf(*final(self)),
            editing_stopped(*old(self), *final(self)),
    {
        self.input_mode = false;
        self.url_history_open = false;
        self.url_history_index = None;
        let d = self.current_draft();
        let url = d.base_url.text;
        let ghost h = self.url_history@;
        if !url.as_str().is_empty() && !contains_text(&self.url_history, url.as_str()) {
            self.url_history.insert(0, url);
            assert(string_texts(self.url_history@) =~= seq![url@] + string_texts(h));
        }
    }

    // -- Rows --------------------------------------------------------------

    /// Appends a row to the shown key/value tab of the selected route's
    /// draft and starts editing its key; nothing happens on the body tab.
    pub fn add_kv_row(&mut self)
        ensures
            app_wf(*old(self)) ==> app_wf(*final(self)),
            kv_row_added(*old(self), *final(self)),
    {
        let tab = self.editor_tab;
        if tab == EditorTab::Body {
            return;
        }
        let d = self.current_draft_mut();
        let ghost d0 = *d;
        d.add_row(tab);
        let ghost d1 = *d;
        proof {
            assert(row_added(d0, d1, tab));
        }
        self.input_mode = true;
        self.input_target = InputTarget::Tab(tab);
        proof {
            assert(kv_row_added(*old(self), *self));
            if app_wf(*old(self)) {
                lemma_kv_row_added_wf(*old(self), *self);
            }
        }
    }
}

/// `d1` is `d0` with its base URL replaced by a buffer holding `url`, the
/// cursor at its end.
pub open spec fn base_url_set(d0: RequestDraft, d1: RequestDraft, url: Seq<char>) -> bool {
    &&& d1 == (RequestDraft { base_url: d1.base_url, ..d0 })
    &&& d1.base_url.text@ == url
    &&& d1.base_url.cursor == utf8_len(url)
    &&& d1.base_url.wf()
}

/// `d1` is `d0` with a fresh row appended to `tab`, that row active, key column.
pub open spec fn row_added(d0: RequestDraft, d1: RequestDraft, tab: EditorTab) -> bool {
    &&& tab_rows(d1, tab).len() == tab_rows(d0, tab).len() + 1
    &&& tab_rows(d1, tab).drop_last() == tab_rows(d0, tab)
    &&& kv_fresh(tab_rows(d1, tab).last())
    &&& d1.active_row == tab_rows(d0, tab).len()
    &&& d1.active_col == 0
    &&& forall|t: EditorTab| t != tab ==> tab_rows(d1, t) == tab_rows(d0, t)
    &&& d1.base_url == d0.base_url
    &&& d1.body == d0.body
    &&& d1.body_type == d0.body_type
}


// ---------------------------------------------------------------------------
// Invariant and room
// ---------------------------------------------------------------------------

/// Every kept draft and the dialog's path have well-formed buffers.
pub open spec fn app_wf(a: App) -> bool {
    &&& forall|k: Seq<char>| #[trigger] a.drafts@.contains_key(k) ==> draft_wf(a.drafts@[k])
    &&& a.custom_route_dialog matches Some(d) ==> d.path.wf()
}

/// The selected route's draft and the dialog's path leave room for one more
/// character and one more row (a machine limit only).
pub open spec fn app_room(a: App) -> bool {
    &&& if a.drafts@.contains_key(draft_key(a)) {
        draft_ok(a.drafts@[draft_key(a)])
    } else {
        utf8_len(fallback_base(a)) + 4 <= usize::MAX
    }
    &&& a.custom_route_dialog matches Some(d) ==> buffer_room(d.path)
}

/// The active row of the selected route's draft.
pub open spec fn current_row(a: App) -> usize {
    if a.drafts@.contains_key(draft_key(a)) {
        a.drafts@[draft_key(a)].active_row
    } else {
        0
    }
}

/// The active column of the selected route's draft.
pub open spec fn current_col(a: App) -> usize {
    if a.drafts@.contains_key(draft_key(a)) {
        a.drafts@[draft_key(a)].active_col
    } else {
        0
    }
}

/// The body type of the selected route's draft.
pub open spec fn current_body_type(a: App) -> BodyType {
    if a.drafts@.contains_key(draft_key(a)) {
        a.drafts@[draft_key(a)].body_type
    } else {
        BodyType::NoBody
    }
}

/// A fresh draft is well formed, and has room when its base URL has.
pub proof fn lemma_fresh_draft(d: RequestDraft, base: Seq<char>)
    requires
        fresh_draft(d, base),
    ensures
        draft_wf(d),
        utf8_len(base) + 4 <= usize::MAX ==> draft_ok(d),
{
    lemma_empty_buffer_ok(d.body);
    lemma_empty_buffer_ok(d.headers@[0].key);
    lemma_empty_buffer_ok(d.headers@[0].value);
    lemma_empty_buffer_ok(d.params@[0].key);
    lemma_empty_buffer_ok(d.params@[0].value);
    lemma_empty_buffer_ok(d.auth@[0].key);
    lemma_empty_buffer_ok(d.auth@[0].value);
}

/// The selected route's draft of a well-formed state is well formed, and
/// ok when the state has room.
pub proof fn lemma_current_draft(a: App, d: RequestDraft)
    requires
        app_wf(a),
        is_current_draft(a, d),
    ensures
        draft_wf(d),
        app_room(a) ==> draft_ok(d),
        d.active_row == current_row(a),
        d.active_col == current_col(a),
        d.body_type == current_body_type(a),
{
    if !a.drafts@.contains_key(draft_key(a)) {
        lemma_fresh_draft(d, fallback_base(a));
    }
}

/// Replacing the selected route's draft by a well-formed one keeps the state well formed.
pub proof fn lemma_replaced_wf(a: App, b: App, d1: RequestDraft)
    requires
        app_wf(a),
        current_replaced(a, b, d1),
        draft_wf(d1),
    ensures
        app_wf(b),
        draft_key(b) == draft_key(a),
        fallback_base(b) == fallback_base(a),
        b.drafts@.contains_key(draft_key(a)),
        b.drafts@[draft_key(a)] == d1,
{
    assert forall|k: Seq<char>| #[trigger] b.drafts@.contains_key(k) implies draft_wf(b.drafts@[k]) by {
        if k != draft_key(a) {
            assert(a.drafts@.contains_key(k));
        }
    }
}

/// `b` is `a` after `move_row(up)`.
pub open spec fn row_moved(a: App, up: bool, b: App) -> bool {
    let tab = a.editor_tab;
    if tab == EditorTab::Body {
        b == a
    } else {
        exists|d0: RequestDraft, d1: RequestDraft| {
            &&& #[trigger] is_current_draft(a, d0)
            &&& #[trigger] row_stepped(d0, tab, up, d1)
            &&& current_replaced(a, b, d1)
        }
    }
}

/// `b` is `a` after `start_editing(target)`.
pub open spec fn editing_started(a: App, target: InputTarget, b: App) -> bool {
    b == (App {
        input_mode: true,
        input_target: target,
        url_history_open: if target == InputTarget::BaseUrl { true } else { a.url_history_open },
        url_history_index: if target == InputTarget::BaseUrl { None } else { a.url_history_index },
        ..a
    })
}

/// The route a confirmed dialog adds: its method and path, framework and
/// source "custom", line 0.
pub open spec fn custom_route(r: RouteInfo, d: CustomRouteDialog) -> bool {
    &&& r.method == d.method
    &&& r.path == d.path.text
    &&& r.framework@ == "custom"@
    &&& r.source@ == "custom"@
    &&& r.line == 0
}

/// `b` is `a` after `confirm_custom_route`.
pub open spec fn route_confirmed(a: App, b: App) -> bool {
    match a.custom_route_dialog {
        None => b == a,
        Some(d) => {
            &&& b.routes@.len() == a.routes@.len() + 1
            &&& b.routes@.drop_last() == a.routes@
            &&& custom_route(b.routes@.last(), d)
            &&& b.filtered_routes@ == b.routes@
            &&& b.selected_route == a.routes@.len()
            &&& b == (App {
                routes: b.routes,
                filtered_routes: b.filtered_routes,
                selected_route: b.selected_route,
                custom_route_dialog: None,
                ..a
            })
        },
    }
}

/// `b` is `a` with the custom-route dialog opened on GET and path "/".
pub open spec fn dialog_opened(a: App, b: App) -> bool {
    &&& b.custom_route_dialog matches Some(d) && d.method == HttpMethod::Get && d.path.text@ == "/"@
        && d.path.cursor == 1 && d.path.wf() && d.active_field == CustomRouteField::Method
    &&& b == (App { custom_route_dialog: b.custom_route_dialog, ..a })
}

/// `b` is `a` after `execute_current_request`, which gave `r`.
pub open spec fn request_started(a: App, b: App, r: Option<(RouteInfo, RequestDraft)>) -> bool {
    if a.selected_route >= a.filtered_routes@.len() {
        r is None && b == a
    } else {
        &&& r matches Some((route, draft)) && route == a.filtered_routes@[a.selected_route as int]
            && (if a.drafts@.contains_key(draft_key(a)) {
                crate::app::same_draft(draft, a.drafts@[draft_key(a)])
            } else {
                fresh_draft(draft, fallback_base(a))
            })
        &&& b == (App { pending_request: true, loader_tick: 0, viewer_scroll: 0, ..a })
    }
}

/// `b` is `a` after a mouse click at (`col`, `row`).
pub open spec fn mouse_clicked(a: App, col: int, row: int, l: ClickLayout, b: App) -> bool {
    let ew = l.explorer_width as int;
    let edw = l.editor_width as int;
    if col < ew {
        b == (App {
            focus: FocusPane::Explorer,
            selected_route: if row >= 2 && row - 2 <= a.filtered_routes@.len() { (row - 2) as usize } else { a.selected_route },
            ..a
        })
    } else if col < ew + edw {
        let a1 = (App { focus: FocusPane::Editor, ..a });
        if 2 <= row <= 4 {
            editing_started(a1, InputTarget::BaseUrl, b)
        } else if row == 5 || row == 6 {
            let rel = col - ew;
            let tab_w = (if edw > 4 { edw } else { 4 }) / 4;
            let idx = if rel / tab_w < 3 { rel / tab_w } else { 3 };
            b == (App { editor_tab: tab_at(idx), ..a1 })
        } else if row >= 9 {
            table_clicked(a1, col - ew, row - 9, l, b)
        } else {
            b == a1
        }
    } else {
        b == (App { focus: FocusPane::Viewer, ..a })
    }
}

/// `b` is `a` after a click on the key/value table, `x` columns right of
/// the explorer and on data row `data_row`: a click on the check box
/// switches the row on or off, a click elsewhere edits the clicked cell.
pub open spec fn table_clicked(a: App, x: int, data_row: int, l: ClickLayout, b: App) -> bool {
    let inner_x = if x - 1 > 0 { x - 1 } else { 0 };
    let tab = a.editor_tab;
    if inner_x < 5 {
        exists|d0: RequestDraft, d1: RequestDraft| {
            &&& #[trigger] is_current_draft(a, d0)
            &&& current_replaced(a, b, d1)
            &&& #[trigger] toggled_unless_body(d0, tab, data_row, d1)
        }
    } else {
        let a2 = (App { input_mode: true, input_target: InputTarget::Tab(tab), ..a });
        exists|d0: RequestDraft| {
            &&& #[trigger] is_current_draft(a2, d0)
            &&& current_replaced(a2, b, RequestDraft {
                active_row: data_row as usize,
                active_col: if inner_x < l.key_end { 0 } else { 1 },
                ..d0
            })
        }
    }
}

/// `d1` is `d0` with row `idx` of `tab` toggled, or `d0` itself on the body tab.
pub open spec fn toggled_unless_body(d0: RequestDraft, tab: EditorTab, idx: int, d1: RequestDraft) -> bool {
    if tab == EditorTab::Body {
        d1 == d0
    } else {
        row_toggled(d0, tab, idx, d1)
    }
}

/// The status line of a failed request: "Error: <message>".
pub open spec fn error_status_line(e: Seq<char>) -> Seq<char> {
    "Error: "@ + e
}

/// Cycling the URL history keeps the state well formed.
pub proof fn lemma_history_cycled_wf(a: App, up: bool, b: App)
    requires
        app_wf(a),
        history_cycled(a, up, b),
    ensures
        app_wf(b),
{
    if a.url_history@.len() > 0 {
        let mid = with_history_index(a, history_target(a, up));
        let url = a.url_history@[history_target(a, up)]@;
        let (d0, d1) = choose|d0: RequestDraft, d1: RequestDraft| {
            &&& #[trigger] is_current_draft(mid, d0)
            &&& #[trigger] base_url_set(d0, d1, url)
            &&& current_replaced(mid, b, d1)
        };
        assert(app_wf(mid));
        lemma_current_draft(mid, d0);
        lemma_replaced_wf(mid, b, d1);
    }
}

/// Moving the active row keeps the state well formed.
pub proof fn lemma_row_moved_wf(a: App, up: bool, b: App)
    requires
        app_wf(a),
        row_moved(a, up, b),
    ensures
        app_wf(b),
{
    if a.editor_tab != EditorTab::Body {
        let (d0, d1) = choose|d0: RequestDraft, d1: RequestDraft| {
            &&& #[trigger] is_current_draft(a, d0)
            &&& #[trigger] row_stepped(d0, a.editor_tab, up, d1)
            &&& current_replaced(a, b, d1)
        };
        lemma_current_draft(a, d0);
        lemma_row_stepped_wf(d0, a.editor_tab, up, d1);
        lemma_replaced_wf(a, b, d1);
    }
}

/// Adding a row keeps the state well formed.
pub proof fn lemma_kv_row_added_wf(a: App, b: App)
    requires
        app_wf(a),
        kv_row_added(a, b),
    ensures
        app_wf(b),
{
    let tab = a.editor_tab;
    if tab != EditorTab::Body {
        let mid = (App { input_mode: true, input_target: InputTarget::Tab(tab), ..a });
        let (d0, d1) = choose|d0: RequestDraft, d1: RequestDraft| {
            &&& #[trigger] is_current_draft(a, d0)
            &&& #[trigger] row_added(d0, d1, tab)
            &&& current_replaced(mid, b, d1)
        };
        lemma_current_draft(a, d0);
        lemma_draft_wf_rows(d0);
        lemma_draft_wf_rows(d1);
        let r0 = tab_rows(d0, tab);
        let r1 = tab_rows(d1, tab);
        assert forall|i: int| 0 <= i < r1.len() implies (#[trigger] r1[i]).key.wf() && r1[i].value.wf() by {
            if i < r0.len() {
                assert(r1[i] == r1.drop_last()[i]);
            } else {
                lemma_empty_buffer_ok(r1[i].key);
                lemma_empty_buffer_ok(r1[i].value);
            }
        }
        assert(tab_rows(d1, EditorTab::Headers) == tab_rows(d0, EditorTab::Headers) || tab == EditorTab::Headers);
        assert(tab_rows(d1, EditorTab::Params) == tab_rows(d0, EditorTab::Params) || tab == EditorTab::Params);
        assert(tab_rows(d1, EditorTab::Auth) == tab_rows(d0, EditorTab::Auth) || tab == EditorTab::Auth);
        assert(app_wf(mid));
        lemma_replaced_wf(mid, b, d1);
    }
}


/// Switching a row on or off keeps a draft well formed.
pub proof fn lemma_toggled_wf(d0: RequestDraft, tab: EditorTab, idx: int, d1: RequestDraft)
    requires
        draft_wf(d0),
        toggled_unless_body(d0, tab, idx, d1),
    ensures
        draft_wf(d1),
{
    crate::app::lemma_draft_wf_rows(d0);
    crate::app::lemma_draft_wf_rows(d1);
    if tab != EditorTab::Body {
        let r0 = tab_rows(d0, tab);
        let r1 = tab_rows(d1, tab);
        assert forall|i: int| 0 <= i < r1.len() implies (#[trigger] r1[i]).key.wf() && r1[i].value.wf() by {
            assert(r1[i].key == r0[i].key && r1[i].value == r0[i].value);
        }
        assert(tab_rows(d1, EditorTab::Headers) == tab_rows(d0, EditorTab::Headers) || tab == EditorTab::Headers);
        assert(tab_rows(d1, EditorTab::Params) == tab_rows(d0, EditorTab::Params) || tab == EditorTab::Params);
        assert(tab_rows(d1, EditorTab::Auth) == tab_rows(d0, EditorTab::Auth) || tab == EditorTab::Auth);
    }
}

impl App {
    /// Moves the active row of the shown key/value tab of the selected
    /// route's draft one up (stopping at the first) or down (adding fresh
    /// rows as needed); nothing happens on the body tab.
    pub fn move_row(&mut self, up: bool)
        requires
            !up ==> current_row(*old(self)) < usize::MAX - 1,
        ensures
            app_wf(*old(self)) ==> app_wf(*final(self)),
            row_moved(*old(self), up, *final(self)),
    {
        let tab = self.editor_tab;
        if tab == EditorTab::Body {
            return;
        }
        let d = self.current_draft_mut();
        let ghost d0 = *d;
        d.step_row(tab, up);
        let ghost d1 = *d;
        proof {
            assert(row_stepped(d0, tab, up, d1));
        }
        proof {
            assert(row_moved(*old(self), up, *self));
            if app_wf(*old(self)) {
                lemma_row_moved_wf(*old(self), up, *self);
            }
        }
    }

    /// The text buffer that input edits: the one `RequestDraft::active_buffer_mut`
    /// gives for the input target in the selected route's draft, kept for
    /// the route (a fresh draft first when it has none).
    pub fn active_buffer_mut(&mut self) -> (b: &mut TextBuffer)
        requires
            current_row(*old(self)) < usize::MAX,
        ensures
            exists|d0: RequestDraft| {
                &&& #[trigger] is_current_draft(*old(self), d0)
                &&& buffer_edit(d0, old(self).input_target, *b, *final(b), final(self).drafts@[draft_key(*old(self))])
            },
            current_replaced(*old(self), *final(self), final(self).drafts@[draft_key(*old(self))]),
    {
        let target = self.input_target;
        let d = self.current_draft_mut();
        let ghost d0 = *d;
        d.active_buffer_mut(target)
    }

    /// Handles a click of the left mouse button at (`col`, `row`): a click
    /// in the explorer focuses it and selects the clicked route (or the
    /// "add custom route" entry); in the editor it focuses the editor and,
    /// by row, edits the base URL, picks a tab, switches a key/value row on
    /// or off (its check box) or edits the clicked cell; in the viewer it
    /// focuses the viewer.
    pub fn handle_mouse_click(&mut self, col: u16, row: u16, layout: ClickLayout)
        requires
            layout.explorer_width < u16::MAX,
            layout.explorer_width as int + layout.editor_width as int <= u16::MAX,
        ensures
            app_wf(*old(self)) ==> app_wf(*final(self)),
            mouse_clicked(*old(self), col as int, row as int, layout, *final(self)),
    {
        let ew = layout.explorer_width;
        let edw = layout.editor_width;
        if col < ew {
            self.focus = FocusPane::Explorer;
            if row >= 2 {
                let idx = (row - 2) as usize;
                if idx <= self.filtered_routes.len() {
                    self.selected_route = idx;
                }
            }
        } else if col < ew + edw {
            self.focus = FocusPane::Editor;
            if row >= 2 && row <= 4 {
                self.start_editing(InputTarget::BaseUrl);
            } else if row == 5 || row == 6 {
                let rel_x = col - ew;
                let tab_w = (if edw > 4 { edw } else { 4 }) / 4;
                let q = rel_x / tab_w;
                let idx = if q < 3 { q } else { 3 };
                self.editor_tab = match idx {
                    0 => EditorTab::Params,
                    1 => EditorTab::Headers,
                    2 => EditorTab::Auth,
                    _ => EditorTab::Body,
                };
            } else if row >= 9 {
                self.click_table(col - ew, (row - 9) as usize, layout);
            }
        } else {
            self.focus = FocusPane::Viewer;
        }
    }

    /// A click on the key/value table (see `table_clicked`).
    fn click_table(&mut self, x: u16, data_row: usize, layout: ClickLayout)
        requires
            data_row <= u16::MAX,
        ensures
            table_clicked(*old(self), x as int, data_row as int, layout, *final(self)),
            app_wf(*old(self)) ==> app_wf(*final(self)),
    {
        let inner_x = x.saturating_sub(1);
        if inner_x < 5 {
            let tab = self.editor_tab;
            let d = self.current_draft_mut();
            let ghost d0 = *d;
            if tab != EditorTab::Body {
                d.toggle_row(tab, data_row);
            }
            let ghost d1 = *d;
            proof {
                assert(toggled_unless_body(d0, tab, data_row as int, d1));
                if app_wf(*old(self)) {
                    lemma_current_draft(*old(self), d0);
                    lemma_toggled_wf(d0, tab, data_row as int, d1);
                    lemma_replaced_wf(*old(self), *self, d1);
                }
            }
        } else {
            let tab = self.editor_tab;
            self.start_editing(InputTarget::Tab(tab));
            let ghost a2 = *self;
            let d = self.current_draft_mut();
            let ghost d0 = *d;
            d.active_row = data_row;
            d.active_col = if inner_x < layout.key_end { 0 } else { 1 };
            let ghost d1 = *d;
            proof {
                if app_wf(*old(self)) {
                    lemma_current_draft(a2, d0);
                    lemma_draft_wf_rows(d0);
                    lemma_draft_wf_rows(d1);
                    lemma_replaced_wf(a2, *self, d1);
                }
            }
        }
    }

    /// Shows the outcome of a request: the response and a status line
    /// "<status> in <latency>ms", or the status line "Error: <message>".
    pub fn apply_http_result(&mut self, result: Result<HttpResponse, String>)
        ensures
            app_wf(*old(self)) ==> app_wf(*final(self)),
            !final(self).pending_request,
            match result {
                Ok(res) => {
                    &&& final(self).response == (ResponseState {
                        status_code: Some(res.status_code),
                        latency_ms: Some(res.latency_ms),
                        size_bytes: res.size_bytes,
                        content_type: res.content_type,
                        body: res.body,
                        view: old(self).response.view,
                    })
                    &&& final(self).status_message@ == response_status_line(res.status_code, res.latency_ms)
                    &&& *final(self) == (App {
                        pending_request: false,
                        response: final(self).response,
                        status_message: final(self).status_message,
                        ..*old(self)
                    })
                },
                Err(e) => {
                    &&& final(self).status_message@ == error_status_line(e@)
                    &&& *final(self) == (App {
                        pending_request: false,
                        status_message: final(self).status_message,
                        ..*old(self)
                    })
                },
            },
    {
        self.pending_request = false;
        match result {
            Ok(res) => {
                let code = decimal_string(res.status_code as u128);
                let latency = decimal_string(res.latency_ms);
                let a = concat(code.as_str(), " in ");
                let b = concat(a.as_str(), latency.as_str());
                self.status_message = concat(b.as_str(), "ms");
                self.response.status_code = Some(res.status_code);
                self.response.latency_ms = Some(res.latency_ms);
                self.response.size_bytes = res.size_bytes;
                self.response.content_type = res.content_type;
                self.response.body = res.body;
            },
            Err(e) => {
                self.status_message = concat("Error: ", e.as_str());
            },
        }
    }

    /// Advances the loading animation while a request is pending, wrapping
    /// after 255.
    pub fn tick_loader(&mut self)
        ensures
            app_wf(*old(self)) ==> app_wf(*final(self)),
            *final(self) == (App {
                loader_tick: if old(self).pending_request {
                    (if old(self).loader_tick == 255 { 0 } else { old(self).loader_tick + 1 }) as u8
                } else {
                    old(self).loader_tick
                },
                ..*old(self)
            }),
    {
        if self.pending_request {
            self.loader_tick = self.loader_tick.wrapping_add(1);
        }
    }

    /// Opens the dialog that adds a route, on GET with path "/".
    pub fn open_custom_route_dialog(&mut self)
        ensures
            app_wf(*old(self)) ==> app_wf(*final(self)),
            dialog_opened(*old(self), *final(self)),
    {
        let path = TextBuffer::new("/");
        proof {
            reveal_strlit("/");
            assert("/"@ =~= seq!['/']);
            crate::utf8len::lemma_encode_single('/');
            assert(utf8_len("/"@) == 1);
        }
        self.custom_route_dialog = Some(CustomRouteDialog {
            method: HttpMethod::Get,
            path,
            active_field: CustomRouteField::Method,
        });
    }

    /// Closes the dialog; the route it describes joins the routes, every
    /// route is listed again and the new one is selected. Nothing happens
    /// when the dialog is closed.
    pub fn confirm_custom_route(&mut self)
        ensures
            app_wf(*old(self)) ==> app_wf(*final(self)),
            route_confirmed(*old(self), *final(self)),
    {
        if self.custom_route_dialog.is_none() {
            return;
        }
        let d = self.custom_route_dialog.take().unwrap();
        let ghost r0 = self.routes@;
        self.routes.push(RouteInfo {
            method: d.method,
            path: d.path.text,
            framework: string_from("custom"),
            source: string_from("custom"),
            line: 0,
        });
        assert(self.routes@.drop_last() =~= r0);
        self.filtered_routes = duplicate_routes(&self.routes);
        self.selected_route = self.filtered_routes.len() - 1;
    }

    /// Starts the request of the selected route: marks it pending, resets
    /// the loader and the viewer's scroll, and gives the route and a copy
    /// of its draft to send. Nothing happens without a selected route.
    pub fn execute_current_request(&mut self) -> (r: Option<(RouteInfo, RequestDraft)>)
        ensures
            app_wf(*old(self)) ==> app_wf(*final(self)),
            request_started(*old(self), *final(self), r),
    {
        let route = match self.current_route() {
            Some(r) => r.duplicate(),
            None => return None,
        };
        self.pending_request = true;
        self.loader_tick = 0;
        self.viewer_scroll = 0;
        let draft = self.current_draft();
        Some((route, draft))
    }
}

/// Whether a buffer has room for one more character.
fn has_buffer_room(b: &TextBuffer) -> (r: bool)
    ensures
        r == buffer_room(*b),
{
    str_byte_len(b.text.as_str()) <= usize::MAX - 4
}

/// Whether every buffer of a list of rows has room.
fn rows_have_room(rows: &Vec<KVRow>) -> (r: bool)
    requires
        forall|i: int| 0 <= i < rows@.len() ==> (#[trigger] rows@[i]).key.wf() && rows@[i].value.wf(),
    ensures
        r == crate::app::rows_ok(rows@),
{
    let mut i: usize = 0;
    while i < rows.len()
        invariant
            i <= rows.len(),
            forall|j: int| 0 <= j < rows@.len() ==> (#[trigger] rows@[j]).key.wf() && rows@[j].value.wf(),
            forall|j: int| 0 <= j < i ==> buffer_room((#[trigger] rows@[j]).key) && buffer_room(rows@[j].value),
        decreases rows.len() - i,
    {
        if !has_buffer_room(&rows[i].key) || !has_buffer_room(&rows[i].value) {
            return false;
        }
        i += 1;
    }
    true
}

impl App {
    /// Whether the selected route's draft and the dialog's path leave room
    /// for one more character and one more row.
    pub fn has_room(&self) -> (r: bool)
        requires
            app_wf(*self),
        ensures
            r == app_room(*self),
    {
        let dialog_ok = match &self.custom_route_dialog {
            Some(d) => has_buffer_room(&d.path),
            None => true,
        };
        let key = self.draft_key_text();
        let draft_ok = match self.drafts.get(key.as_str()) {
            Some(d) => {
                assert(self.drafts@.contains_key(key@));
                has_buffer_room(&d.base_url) && has_buffer_room(&d.body) && rows_have_room(&d.headers)
                    && rows_have_room(&d.params) && rows_have_room(&d.auth) && d.active_row < usize::MAX - 1
            },
            None => {
                let base = self.fallback_base_text();
                str_byte_len(base.as_str()) <= usize::MAX - 4
            },
        };
        dialog_ok && draft_ok
    }
}

} // verus!
