//! The keyboard bindings: what each key does in each mode of the interface
//! (view picker, custom-route dialog, text input, body-type selector, and
//! navigation), as a step from one state to the next and an effect for the
//! program around the state to carry out.
use vstd::prelude::*;
use crate::app::{
    body_type_at, body_type_index, buffer_edit, buffer_op_done, buffer_room, draft_ok, draft_wf,
    lemma_draft_wf_rows, lemma_empty_buffer_ok, lemma_ok_rows_wf, lemma_probe_ok,
    lemma_row_stepped_wf, method_next, method_prev, rows_wf, row_stepped, tab_at, tab_index,
    tab_rows, BodyType, BufferOp, EditorTab, FocusPane, InputTarget, RequestDraft, TextBuffer,
};
use crate::highlight::{view_at, view_index, ResponseView};
use crate::scanner::RouteInfo;
use crate::session::{
    app_room, app_wf, base_url_set, current_body_type, current_col, current_replaced, current_row,
    dialog_opened, draft_key, editing_started, editing_stopped, history_cycled, history_target,
    is_current_draft, kv_row_added, lemma_current_draft, lemma_replaced_wf, request_started,
    route_confirmed, row_added, row_moved, with_history_index, App, CustomRouteDialog,
    CustomRouteField,
};
use crate::text::string_from;
use crate::utf8len::{str_byte_len, utf8_len};

verus! {

/// A key as the terminal reports it.
#[derive(Debug, Clone, Copy, PartialEq, Eq, Structural)]
pub enum Key {
    Char(char),
    Esc,
    Tab,
    BackTab,
    Backspace,
    Delete,
    Left,
    Right,
    Up,
    Down,
    Home,
    End,
    Enter,
    PageUp,
    PageDown,
    Other,
}

/// What the program around the state has to do after a key.
#[derive(Debug)]
pub enum Effect {
    Nothing,
    /// Send this route's request with this draft.
    Execute(RouteInfo, RequestDraft),
    /// Put this text on the clipboard, then report with `finish_copy`.
    Copy(String),
    /// Render the response body again in the new view.
    Rerender,
    /// Save the hand-made routes.
    SaveCustomRoutes,
}

// ---------------------------------------------------------------------------
// Relations between states
// ---------------------------------------------------------------------------

/// The target is a cell of a key/value tab.
pub open spec fn is_kv_target(t: InputTarget) -> bool {
    t matches InputTarget::Tab(tab) && tab != EditorTab::Body
}

/// `d` with its active column set.
pub open spec fn with_col(d: RequestDraft, c: usize) -> RequestDraft {
    RequestDraft { active_col: c, ..d }
}

/// `d` with its body type set.
pub open spec fn with_body_type(d: RequestDraft, bt: BodyType) -> RequestDraft {
    RequestDraft { body_type: bt, ..d }
}

/// `d1` is `d0` after `op` on the buffer that input edits for `target`.
pub open spec fn draft_edited(d0: RequestDraft, target: InputTarget, op: BufferOp, d1: RequestDraft) -> bool {
    exists|b0: TextBuffer, b1: TextBuffer| {
        &&& #[trigger] buffer_edit(d0, target, b0, b1, d1)
        &&& buffer_op_done(op, b0, b1)
    }
}

/// `b` is `a` after `op` on the buffer that input edits.
pub open spec fn edited(a: App, op: BufferOp, b: App) -> bool {
    exists|d0: RequestDraft, d1: RequestDraft| {
        &&& #[trigger] is_current_draft(a, d0)
        &&& #[trigger] draft_edited(d0, a.input_target, op, d1)
        &&& current_replaced(a, b, d1)
    }
}

/// `b` is `a` with the active column of the selected route's draft set to `c`.
pub open spec fn col_set(a: App, c: usize, b: App) -> bool {
    exists|d0: RequestDraft| {
        &&& #[trigger] is_current_draft(a, d0)
        &&& current_replaced(a, b, with_col(d0, c))
    }
}

/// `b` is `a` with the body type of the selected route's draft set to `bt`.
pub open spec fn body_type_set(a: App, bt: BodyType, b: App) -> bool {
    exists|d0: RequestDraft| {
        &&& #[trigger] is_current_draft(a, d0)
        &&& current_replaced(a, b, with_body_type(d0, bt))
    }
}

/// `b` is `a` after the buffer that input edits was looked at (which
/// keeps a fresh draft and adds the rows up to the active one), the
/// buffer's cursor being `cursor` and its byte length `len`.
pub open spec fn probed(a: App, b: App, cursor: usize, len: int) -> bool {
    exists|d0: RequestDraft, bb: TextBuffer, dm: RequestDraft| {
        &&& #[trigger] is_current_draft(a, d0)
        &&& #[trigger] buffer_edit(d0, a.input_target, bb, bb, dm)
        &&& current_replaced(a, b, dm)
        &&& cursor == bb.cursor
        &&& len == utf8_len(bb.text@)
    }
}

/// Backspace in input: in the value column of a key/value row whose value
/// is empty it moves to the key column; otherwise it deletes backwards.
pub open spec fn backspace_done(a: App, b: App) -> bool {
    if is_kv_target(a.input_target) && current_col(a) == 1 {
        exists|m: App, cursor: usize, len: int| {
            &&& #[trigger] probed(a, m, cursor, len)
            &&& if len == 0 { col_set(m, 0, b) } else { edited(m, BufferOp::Backspace, b) }
        }
    } else {
        edited(a, BufferOp::Backspace, b)
    }
}

/// Left in input: at the start of a value it moves to the end of the key;
/// otherwise the cursor moves left.
pub open spec fn left_done(a: App, b: App) -> bool {
    if a.input_target != InputTarget::BaseUrl && is_kv_target(a.input_target) && current_col(a) == 1 {
        exists|m: App, cursor: usize, len: int| {
            &&& #[trigger] probed(a, m, cursor, len)
            &&& if cursor == 0 {
                exists|m2: App| #[trigger] col_set(m, 0, m2) && edited(m2, BufferOp::End, b)
            } else {
                edited(m, BufferOp::Left, b)
            }
        }
    } else {
        edited(a, BufferOp::Left, b)
    }
}

/// Right in input: at the end of a key it moves to the start of the value;
/// otherwise the cursor moves right.
pub open spec fn right_done(a: App, b: App) -> bool {
    if is_kv_target(a.input_target) && current_col(a) == 0 {
        exists|m: App, cursor: usize, len: int| {
            &&& #[trigger] probed(a, m, cursor, len)
            &&& if cursor == len {
                exists|m2: App| #[trigger] col_set(m, 1, m2) && edited(m2, BufferOp::Home, b)
            } else {
                edited(m, BufferOp::Right, b)
            }
        }
    } else {
        edited(a, BufferOp::Right, b)
    }
}

/// A key in text input.
pub open spec fn input_outcome(a: App, k: Key, b: App) -> bool {
    let t = a.input_target;
    match k {
        Key::Esc => editing_stopped(a, b),
        Key::Tab => if is_kv_target(t) {
            col_set(a, ((current_col(a) + 1) % 2) as usize, b)
        } else {
            b == a
        },
        Key::Backspace => backspace_done(a, b),
        Key::Delete => edited(a, BufferOp::Delete, b),
        Key::Left => left_done(a, b),
        Key::Right => right_done(a, b),
        Key::Home => edited(a, BufferOp::Home, b),
        Key::End => edited(a, BufferOp::End, b),
        Key::Up => if t == InputTarget::BaseUrl { history_cycled(a, true, b) } else { row_moved(a, true, b) },
        Key::Down => if t == InputTarget::BaseUrl { history_cycled(a, false, b) } else { row_moved(a, false, b) },
        Key::Enter => if t == InputTarget::Tab(EditorTab::Body) {
            edited(a, BufferOp::Newline, b)
        } else if t == InputTarget::BaseUrl {
            editing_stopped(a, b)
        } else {
            row_moved(a, false, b)
        },
        Key::Char(c) => edited(a, BufferOp::Insert(c), b),
        _ => b == a,
    }
}

/// `b` is `a` with the body-type selector left for the Auth tab.
pub open spec fn body_type_left(a: App, b: App) -> bool {
    b == (App { body_type_focused: false, editor_tab: EditorTab::Auth, ..a })
}

/// A key while the body-type selector has the focus.
pub open spec fn body_type_outcome(a: App, k: Key, b: App) -> bool {
    let bt = current_body_type(a);
    if k == Key::Left || k == Key::Char('h') {
        if bt == BodyType::NoBody {
            body_type_left(a, b)
        } else {
            body_type_set(a, body_type_at(body_type_index(bt) + 3), b)
        }
    } else if k == Key::Right || k == Key::Char('l') {
        body_type_set(a, body_type_at(body_type_index(bt) + 1), b)
    } else if k == Key::Esc || k == Key::Up || k == Key::Char('k') {
        body_type_left(a, b)
    } else if k == Key::Char('i') {
        if bt != BodyType::NoBody {
            editing_started((App { body_type_focused: false, ..a }), InputTarget::Tab(EditorTab::Body), b)
        } else {
            b == a
        }
    } else {
        b == a
    }
}

/// `b` is `a` with the response shown in view `v` and the picker closed.
pub open spec fn view_selected(a: App, v: ResponseView, b: App) -> bool {
    &&& b.response == (crate::session::ResponseState { view: v, ..a.response })
    &&& b == (App { view_picker_open: false, response: b.response, ..a })
}

/// `b` is `a` with the response view set to `v`.
pub open spec fn view_set(a: App, v: ResponseView, b: App) -> bool {
    &&& b.response == (crate::session::ResponseState { view: v, ..a.response })
    &&& b == (App { response: b.response, ..a })
}

/// The view a digit key picks: 1 Auto, 2 JSON, 3 HTML, 4 Text, 5 Raw.
pub open spec fn digit_view(c: char) -> Option<ResponseView> {
    if c == '1' {
        Some(ResponseView::Auto)
    } else if c == '2' {
        Some(ResponseView::Json)
    } else if c == '3' {
        Some(ResponseView::Html)
    } else if c == '4' {
        Some(ResponseView::Text)
    } else if c == '5' {
        Some(ResponseView::Raw)
    } else {
        None
    }
}

/// A key while the view picker is open.
pub open spec fn picker_outcome(a: App, k: Key, b: App, e: Effect) -> bool {
    let v = a.response.view;
    if k == Key::Esc || k == Key::Char('q') {
        b == (App { view_picker_open: false, ..a }) && e is Nothing
    } else if k matches Key::Char(c) && digit_view(c) is Some {
        view_selected(a, digit_view(k->Char_0)->Some_0, b) && e is Rerender
    } else if k == Key::Char('k') || k == Key::Down {
        view_set(a, view_at((view_index(v) + 1) % 5), b) && e is Nothing
    } else if k == Key::Char('j') || k == Key::Up {
        view_set(a, view_at((view_index(v) + 4) % 5), b) && e is Nothing
    } else if k == Key::Enter {
        view_selected(a, v, b) && e is Rerender
    } else {
        b == a && e is Nothing
    }
}

/// `b` is `a` with the dialog replaced by `d`.
pub open spec fn dialog_set(a: App, d: CustomRouteDialog, b: App) -> bool {
    b == (App { custom_route_dialog: Some(d), ..a })
}

/// `b` is `a` after `op` on the dialog's path.
pub open spec fn dialog_path_edited(a: App, d: CustomRouteDialog, op: BufferOp, b: App) -> bool {
    exists|p1: TextBuffer| {
        &&& #[trigger] buffer_op_done(op, d.path, p1)
        &&& dialog_set(a, CustomRouteDialog { path: p1, ..d }, b)
    }
}

/// A key while the custom-route dialog is open.
pub open spec fn dialog_outcome(a: App, d: CustomRouteDialog, k: Key, b: App) -> bool {
    match d.active_field {
        CustomRouteField::Method => if k == Key::Left || k == Key::Char('h') {
            dialog_set(a, CustomRouteDialog { method: method_prev(d.method), ..d }, b)
        } else if k == Key::Right || k == Key::Char('l') {
            dialog_set(a, CustomRouteDialog { method: method_next(d.method), ..d }, b)
        } else if k == Key::Tab || k == Key::Enter {
            dialog_set(a, CustomRouteDialog { active_field: CustomRouteField::Path, ..d }, b)
        } else if k == Key::Esc {
            b == (App { custom_route_dialog: None, ..a })
        } else {
            b == a
        },
        CustomRouteField::Path => match k {
            Key::Char(c) => dialog_path_edited(a, d, BufferOp::Insert(c), b),
            Key::Backspace => dialog_path_edited(a, d, BufferOp::Backspace, b),
            Key::Left => dialog_path_edited(a, d, BufferOp::Left, b),
            Key::Right => dialog_path_edited(a, d, BufferOp::Right, b),
            Key::Home => dialog_path_edited(a, d, BufferOp::Home, b),
            Key::End => dialog_path_edited(a, d, BufferOp::End, b),
            Key::Enter => route_confirmed(a, b),
            Key::Esc => b == (App { custom_route_dialog: None, ..a }),
            _ => b == a,
        },
    }
}

/// `b` is `a` with the explorer's selection moved one entry down (not past
/// the "add custom route" entry) or up (not past the first).
pub open spec fn explorer_moved(a: App, down: bool, b: App) -> bool {
    b == (App {
        selected_route: if down {
            if a.selected_route < a.filtered_routes@.len() { (a.selected_route + 1) as usize } else { a.selected_route }
        } else {
            if a.selected_route > 0 { (a.selected_route - 1) as usize } else { 0 }
        },
        ..a
    })
}

/// The position of the first route of `v` from position `j` on that holds
/// the same values as `r`, if any.
pub open spec fn first_index_from(v: Seq<RouteInfo>, r: RouteInfo, j: int) -> Option<int>
    decreases v.len() - j,
{
    if j < 0 || j >= v.len() {
        None
    } else if v[j]@ == r@ {
        Some(j)
    } else {
        first_index_from(v, r, j + 1)
    }
}

/// The position of the first route of `v` that holds the same values as `r`, if any.
pub open spec fn first_index_of(v: Seq<RouteInfo>, r: RouteInfo) -> Option<int> {
    first_index_from(v, r, 0)
}

/// `b` is `a` after `d` in the explorer: a selected hand-made route leaves
/// the listed routes and the first equal route leaves all routes, and the
/// hand-made routes are to be saved; anything else is left alone.
pub open spec fn custom_route_deleted(a: App, b: App, e: Effect) -> bool {
    let i = a.selected_route as int;
    if i < a.filtered_routes@.len() && a.filtered_routes@[i].framework@ == "custom"@ {
        let r = a.filtered_routes@[i];
        &&& b.filtered_routes@ == a.filtered_routes@.remove(i)
        &&& b.routes@ == match first_index_of(a.routes@, r) {
            Some(j) => a.routes@.remove(j),
            None => a.routes@,
        }
        &&& b == (App { routes: b.routes, filtered_routes: b.filtered_routes, ..a })
        &&& e is SaveCustomRoutes
    } else {
        b == a && e is Nothing
    }
}

/// The viewer's scroll offset moved by `delta` lines, kept within 0 and 65535.
pub open spec fn scrolled(s: u16, delta: int) -> u16 {
    if s + delta < 0 {
        0
    } else if s + delta > u16::MAX {
        u16::MAX
    } else {
        (s + delta) as u16
    }
}

/// `b` is `a` with the viewer scrolled to `s`.
pub open spec fn scroll_set(a: App, s: u16, b: App) -> bool {
    b == (App { viewer_scroll: s, ..a })
}

/// The message after an attempt to copy the response.
pub open spec fn copy_message(copied: bool) -> Seq<char> {
    if copied {
        "Copied response to clipboard"@
    } else {
        "Nothing to copy"@
    }
}

/// A key in navigation mode.
pub open spec fn normal_outcome(a: App, k: Key, b: App, e: Effect) -> bool {
    let f = a.focus;
    let tab = a.editor_tab;
    if k == Key::Char('q') {
        b == (App { should_quit: true, ..a }) && e is Nothing
    } else if k == Key::Tab {
        b == (App { focus: crate::session::next_pane(f), ..a }) && e is Nothing
    } else if k == Key::BackTab {
        b == (App { focus: crate::session::prev_pane(f), ..a }) && e is Nothing
    } else if (k == Key::Char('k') || k == Key::Down) && f == FocusPane::Explorer {
        explorer_moved(a, true, b) && e is Nothing
    } else if (k == Key::Char('j') || k == Key::Up) && f == FocusPane::Explorer {
        explorer_moved(a, false, b) && e is Nothing
    } else if k == Key::Char('d') && f == FocusPane::Explorer {
        custom_route_deleted(a, b, e)
    } else if (k == Key::Char('k') || k == Key::Down) && f == FocusPane::Viewer {
        scroll_set(a, scrolled(a.viewer_scroll, 1), b) && e is Nothing
    } else if (k == Key::Char('j') || k == Key::Up) && f == FocusPane::Viewer {
        scroll_set(a, scrolled(a.viewer_scroll, -1), b) && e is Nothing
    } else if k == Key::PageDown && f == FocusPane::Viewer {
        scroll_set(a, scrolled(a.viewer_scroll, 10), b) && e is Nothing
    } else if k == Key::PageUp && f == FocusPane::Viewer {
        scroll_set(a, scrolled(a.viewer_scroll, -10), b) && e is Nothing
    } else if k == Key::Home && f == FocusPane::Viewer {
        scroll_set(a, 0, b) && e is Nothing
    } else if k == Key::End && f == FocusPane::Viewer {
        scroll_set(a, u16::MAX, b) && e is Nothing
    } else if k == Key::Char('/') && f == FocusPane::Viewer {
        b == (App { view_picker_open: true, ..a }) && e is Nothing
    } else if k == Key::Char('[') && f == FocusPane::Viewer {
        view_set(a, view_at((view_index(a.response.view) + 4) % 5), b) && e is Rerender
    } else if k == Key::Char(']') && f == FocusPane::Viewer {
        view_set(a, view_at((view_index(a.response.view) + 1) % 5), b) && e is Rerender
    } else if (k == Key::Char('y') || k == Key::Char('c')) && f == FocusPane::Viewer {
        if a.response.body@.len() == 0 {
            b.status_message@ == copy_message(false)
                && b == (App { status_message: b.status_message, ..a }) && e is Nothing
        } else {
            b == a && (e matches Effect::Copy(t) && t@ == a.response.body@)
        }
    } else if (k == Key::Char('h') || k == Key::Left) && f == FocusPane::Editor {
        if tab == EditorTab::Body {
            b == (App { body_type_focused: true, ..a }) && e is Nothing
        } else {
            b == (App { editor_tab: tab_at(tab_index(tab) + 3), ..a }) && e is Nothing
        }
    } else if (k == Key::Char('l') || k == Key::Right) && f == FocusPane::Editor {
        if tab == EditorTab::Body {
            b == (App { body_type_focused: true, ..a }) && e is Nothing
        } else {
            b == (App { editor_tab: tab_at(tab_index(tab) + 1), ..a }) && e is Nothing
        }
    } else if k == Key::Char('u') {
        editing_started(a, InputTarget::BaseUrl, b) && e is Nothing
    } else if k == Key::Char('i') && f == FocusPane::Editor {
        &&& e is Nothing
        &&& if tab == EditorTab::Body {
            if current_body_type(a) != BodyType::NoBody {
                editing_started(a, InputTarget::Tab(EditorTab::Body), b)
            } else {
                b == (App { body_type_focused: true, ..a })
            }
        } else {
            editing_started(a, InputTarget::Tab(tab), b)
        }
    } else if k == Key::Char('n') && f == FocusPane::Editor && tab != EditorTab::Body {
        kv_row_added(a, b) && e is Nothing
    } else if k == Key::Char('r') {
        request_started(a, b, match e {
            Effect::Execute(route, draft) => Some((route, draft)),
            _ => None,
        }) && (e is Nothing || e is Execute)
    } else if k == Key::Enter && f == FocusPane::Explorer {
        &&& e is Nothing
        &&& if a.selected_route == a.filtered_routes@.len() {
            dialog_opened(a, b)
        } else {
            b == (App { focus: FocusPane::Editor, ..a })
        }
    } else if k == Key::Char('1') {
        b == (App { editor_tab: EditorTab::Headers, ..a }) && e is Nothing
    } else if k == Key::Char('2') {
        b == (App { editor_tab: EditorTab::Body, ..a }) && e is Nothing
    } else if k == Key::Char('3') {
        b == (App { editor_tab: EditorTab::Params, ..a }) && e is Nothing
    } else if k == Key::Char('4') {
        b == (App { editor_tab: EditorTab::Auth, ..a }) && e is Nothing
    } else {
        b == a && e is Nothing
    }
}

/// What a key does: the view picker, the custom-route dialog, text input
/// and the body-type selector take keys first, in that order; otherwise
/// the key navigates.
pub open spec fn key_outcome(a: App, k: Key, b: App, e: Effect) -> bool {
    if a.view_picker_open {
        picker_outcome(a, k, b, e)
    } else if a.custom_route_dialog is Some {
        dialog_outcome(a, a.custom_route_dialog->Some_0, k, b) && e is Nothing
    } else if a.input_mode {
        input_outcome(a, k, b) && e is Nothing
    } else if a.body_type_focused {
        body_type_outcome(a, k, b) && e is Nothing
    } else {
        normal_outcome(a, k, b, e)
    }
}


// ---------------------------------------------------------------------------
// The invariant across the operations
// ---------------------------------------------------------------------------

/// An ok draft is well formed.
proof fn lemma_ok_is_wf(d: RequestDraft)
    requires
        draft_ok(d),
    ensures
        draft_wf(d),
{
    lemma_ok_rows_wf(d.headers@);
    lemma_ok_rows_wf(d.params@);
    lemma_ok_rows_wf(d.auth@);
}

/// After the current draft was replaced by an ok draft, the state has room
/// when the dialog has.
proof fn lemma_replaced_room(a: App, b: App, d1: RequestDraft)
    requires
        app_wf(a),
        app_room(a),
        current_replaced(a, b, d1),
        draft_ok(d1),
    ensures
        app_wf(b),
        app_room(b),
        current_row(b) == d1.active_row,
        current_col(b) == d1.active_col,
        current_body_type(b) == d1.body_type,
{
    lemma_ok_is_wf(d1);
    lemma_replaced_wf(a, b, d1);
}

impl App {
    /// The active column of the selected route's draft.
    fn current_col_value(&self) -> (c: usize)
        ensures
            c == current_col(*self),
    {
        let d = self.current_draft();
        d.active_col
    }

    /// The body type of the selected route's draft.
    fn current_body_type_value(&self) -> (bt: BodyType)
        ensures
            bt == current_body_type(*self),
    {
        let d = self.current_draft();
        d.body_type
    }

    /// Applies `op` to the buffer that input edits.
    fn edit_active(&mut self, op: BufferOp)
        requires
            app_wf(*old(self)),
            app_room(*old(self)),
        ensures
            edited(*old(self), op, *final(self)),
            app_wf(*final(self)),
    {
        let target = self.input_target;
        let ghost a = *self;
        let d = self.current_draft_mut();
        let ghost d0 = *d;
        proof {
            lemma_current_draft(a, d0);
        }
        d.edit(target, op);
        let ghost d1 = *d;
        proof {
            assert(draft_edited(d0, target, op, d1));
            lemma_replaced_wf(a, *self, d1);
        }
    }

    /// Sets the active column of the selected route's draft.
    fn set_col(&mut self, c: usize)
        requires
            app_wf(*old(self)),
        ensures
            col_set(*old(self), c, *final(self)),
            app_wf(*final(self)),
            app_room(*old(self)) ==> app_room(*final(self)),
    {
        let ghost a = *self;
        let d = self.current_draft_mut();
        let ghost d0 = *d;
        proof {
            lemma_current_draft(a, d0);
        }
        d.active_col = c;
        proof {
            lemma_draft_wf_rows(d0);
            lemma_draft_wf_rows(with_col(d0, c));
            lemma_replaced_wf(a, *self, with_col(d0, c));
            if app_room(a) {
                lemma_replaced_room(a, *self, with_col(d0, c));
            }
        }
    }

    /// Sets the body type of the selected route's draft.
    fn set_body_type(&mut self, bt: BodyType)
        requires
            app_wf(*old(self)),
        ensures
            body_type_set(*old(self), bt, *final(self)),
            app_wf(*final(self)),
    {
        let ghost a = *self;
        let d = self.current_draft_mut();
        let ghost d0 = *d;
        proof {
            lemma_current_draft(a, d0);
        }
        d.body_type = bt;
        proof {
            lemma_draft_wf_rows(d0);
            lemma_draft_wf_rows(with_body_type(d0, bt));
            lemma_replaced_wf(a, *self, with_body_type(d0, bt));
        }
    }

    /// Looks at the buffer that input edits: its cursor and byte length.
    fn probe(&mut self) -> (r: (usize, usize))
        requires
            app_wf(*old(self)),
            app_room(*old(self)),
        ensures
            probed(*old(self), *final(self), r.0, r.1 as int),
            app_wf(*final(self)),
            app_room(*final(self)),
            current_col(*final(self)) == current_col(*old(self)),
    {
        let ghost a = *self;
        proof {
            if a.drafts@.contains_key(draft_key(a)) {
                lemma_current_draft(a, a.drafts@[draft_key(a)]);
            }
        }
        let b = self.active_buffer_mut();
        let ghost bb = *b;
        let cursor = b.cursor;
        let len = str_byte_len(b.text.as_str());
        proof {
            let dm = self.drafts@[draft_key(a)];
            let d0 = choose|d0: RequestDraft| #[trigger] is_current_draft(a, d0) && buffer_edit(d0, a.input_target, bb, bb, dm);
            lemma_current_draft(a, d0);
            lemma_probe_ok(d0, a.input_target, bb, dm);
            lemma_replaced_room(a, *self, dm);
        }
        (cursor, len)
    }
}


impl App {
    /// Handles a key in text input.
    fn input_key(&mut self, key: Key)
        requires
            app_wf(*old(self)),
            app_room(*old(self)),
        ensures
            input_outcome(*old(self), key, *final(self)),
            app_wf(*final(self)),
    {
        let ghost a = *self;
        let t = self.input_target;
        let kv = match t {
            InputTarget::Tab(tab) => tab != EditorTab::Body,
            InputTarget::BaseUrl => false,
        };
        match key {
            Key::Esc => self.stop_editing(),
            Key::Tab => {
                if kv {
                    let col = self.current_col_value();
                    self.set_col(((col % 2) + 1) % 2);
                }
            },
            Key::Backspace => {
                if kv && self.current_col_value() == 1 {
                    let (cursor, len) = self.probe();
                    if len == 0 {
                        self.set_col(0);
                    } else {
                        self.edit_active(BufferOp::Backspace);
                    }
                } else {
                    self.edit_active(BufferOp::Backspace);
                }
            },
            Key::Delete => self.edit_active(BufferOp::Delete),
            Key::Left => {
                if t != InputTarget::BaseUrl && kv && self.current_col_value() == 1 {
                    let (cursor, len) = self.probe();
                    if cursor == 0 {
                        self.set_col(0);
                        self.edit_active(BufferOp::End);
                    } else {
                        self.edit_active(BufferOp::Left);
                    }
                } else {
                    self.edit_active(BufferOp::Left);
                }
            },
            Key::Right => {
                if kv && self.current_col_value() == 0 {
                    let (cursor, len) = self.probe();
                    if cursor == len {
                        self.set_col(1);
                        self.edit_active(BufferOp::Home);
                    } else {
                        self.edit_active(BufferOp::Right);
                    }
                } else {
                    self.edit_active(BufferOp::Right);
                }
            },
            Key::Home => self.edit_active(BufferOp::Home),
            Key::End => self.edit_active(BufferOp::End),
            Key::Up => {
                if t == InputTarget::BaseUrl {
                    self.cycle_url_history(true);
                } else {
                    self.move_row(true);
                }
            },
            Key::Down => {
                if t == InputTarget::BaseUrl {
                    self.cycle_url_history(false);
                } else {
                    proof {
                        if a.drafts@.contains_key(draft_key(a)) {
                            lemma_current_draft(a, a.drafts@[draft_key(a)]);
                        }
                    }
                    self.move_row(false);
                }
            },
            Key::Enter => {
                if t == InputTarget::Tab(EditorTab::Body) {
                    self.edit_active(BufferOp::Newline);
                } else if t == InputTarget::BaseUrl {
                    self.stop_editing();
                } else {
                    proof {
                        if a.drafts@.contains_key(draft_key(a)) {
                            lemma_current_draft(a, a.drafts@[draft_key(a)]);
                        }
                    }
                    self.move_row(false);
                }
            },
            Key::Char(c) => self.edit_active(BufferOp::Insert(c)),
            _ => {},
        }
    }
}


/// Whether two routes hold the same values.
fn same_route(a: &RouteInfo, b: &RouteInfo) -> (r: bool)
    ensures
        r == (a@ == b@),
{
    a.method == b.method && a.path == b.path && a.framework == b.framework && a.source == b.source
        && a.line == b.line
}

impl App {
    /// Opens the view picker.
    pub fn open_view_picker(&mut self)
        ensures
            app_wf(*old(self)) ==> app_wf(*final(self)),
            *final(self) == (App { view_picker_open: true, ..*old(self) }),
    {
        self.view_picker_open = true;
    }

    /// Shows the response in view `v` and closes the picker.
    pub fn select_view(&mut self, v: ResponseView)
        ensures
            app_wf(*old(self)) ==> app_wf(*final(self)),
            view_selected(*old(self), v, *final(self)),
    {
        self.response.view = v;
        self.view_picker_open = false;
    }

    /// Shows the response in the next (or previous) view.
    pub fn cycle_response_view(&mut self, forward: bool)
        ensures
            app_wf(*old(self)) ==> app_wf(*final(self)),
            view_set(*old(self), view_at((view_index(old(self).response.view) + if forward { 1int } else { 4 }) % 5), *final(self)),
    {
        self.response.view = if forward { self.response.view.next() } else { self.response.view.prev() };
    }

    /// Moves the explorer's selection one entry down or up.
    pub fn move_explorer_selection(&mut self, down: bool)
        ensures
            app_wf(*old(self)) ==> app_wf(*final(self)),
            explorer_moved(*old(self), down, *final(self)),
    {
        if down {
            if self.selected_route < self.filtered_routes.len() {
                self.selected_route = self.selected_route + 1;
            }
        } else {
            self.selected_route = self.selected_route.saturating_sub(1);
        }
    }

    /// Removes the selected route when it was made by hand; tells whether
    /// one was removed.
    pub fn delete_selected_custom_route(&mut self) -> (removed: bool)
        ensures
            app_wf(*old(self)) ==> app_wf(*final(self)),
            custom_route_deleted(*old(self), *final(self), if removed { Effect::SaveCustomRoutes } else { Effect::Nothing }),
    {
        let i = self.selected_route;
        if i >= self.filtered_routes.len() {
            return false;
        }
        let custom = crate::text::str_eq(self.filtered_routes[i].framework.as_str(), "custom");
        if !custom {
            return false;
        }
        let r = self.filtered_routes.remove(i);
        let mut j: usize = 0;
        let ghost routes0 = self.routes@;
        while j < self.routes.len()
            invariant
                j <= self.routes@.len(),
                self.routes@ == routes0,
                routes0 == old(self).routes@,
                first_index_of(routes0, r) == first_index_from(routes0, r, j as int),
                i < old(self).filtered_routes@.len(),
                i == old(self).selected_route,
                old(self).filtered_routes@[i as int].framework@ == "custom"@,
                r == old(self).filtered_routes@[i as int],
                self.filtered_routes@ == old(self).filtered_routes@.remove(i as int),
                *self == (App { routes: self.routes, filtered_routes: self.filtered_routes, ..*old(self) }),
            decreases self.routes@.len() - j,
        {
            if same_route(&self.routes[j], &r) {
                self.routes.remove(j);
                proof {
                    assert(first_index_of(routes0, r) == Some(j as int));
                }
                return true;
            }
            j += 1;
        }
        proof {
            assert(first_index_of(routes0, r) is None);
        }
        true
    }

    /// Reports an attempt to copy the response to the clipboard.
    pub fn finish_copy(&mut self, copied: bool)
        ensures
            app_wf(*old(self)) ==> app_wf(*final(self)),
            final(self).status_message@ == copy_message(copied),
            *final(self) == (App { status_message: final(self).status_message, ..*old(self) }),
    {
        self.status_message = if copied {
            string_from("Copied response to clipboard")
        } else {
            string_from("Nothing to copy")
        };
    }

    /// Handles a key while the view picker is open.
    fn picker_key(&mut self, key: Key) -> (e: Effect)
        ensures
            picker_outcome(*old(self), key, *final(self), e),
    {
        match key {
            Key::Esc | Key::Char('q') => {
                self.view_picker_open = false;
                Effect::Nothing
            },
            Key::Char('1') => {
                self.select_view(ResponseView::Auto);
                Effect::Rerender
            },
            Key::Char('2') => {
                self.select_view(ResponseView::Json);
                Effect::Rerender
            },
            Key::Char('3') => {
                self.select_view(ResponseView::Html);
                Effect::Rerender
            },
            Key::Char('4') => {
                self.select_view(ResponseView::Text);
                Effect::Rerender
            },
            Key::Char('5') => {
                self.select_view(ResponseView::Raw);
                Effect::Rerender
            },
            Key::Char('k') | Key::Down => {
                self.response.view = self.response.view.next();
                Effect::Nothing
            },
            Key::Char('j') | Key::Up => {
                self.response.view = self.response.view.prev();
                Effect::Nothing
            },
            Key::Enter => {
                let v = self.response.view;
                self.select_view(v);
                Effect::Rerender
            },
            _ => Effect::Nothing,
        }
    }

    /// Handles a key while the custom-route dialog is open.
    fn dialog_key(&mut self, key: Key)
        requires
            old(self).custom_route_dialog is Some,
            app_wf(*old(self)),
            app_room(*old(self)),
        ensures
            dialog_outcome(*old(self), old(self).custom_route_dialog->Some_0, key, *final(self)),
            app_wf(*final(self)),
    {
        let ghost a = *self;
        let mut d = self.custom_route_dialog.take().unwrap();
        match d.active_field {
            CustomRouteField::Method => {
                match key {
                    Key::Left | Key::Char('h') => {
                        d.method = d.method.cycle_prev();
                        self.custom_route_dialog = Some(d);
                    },
                    Key::Right | Key::Char('l') => {
                        d.method = d.method.cycle_next();
                        self.custom_route_dialog = Some(d);
                    },
                    Key::Tab | Key::Enter => {
                        d.active_field = CustomRouteField::Path;
                        self.custom_route_dialog = Some(d);
                    },
                    Key::Esc => {},
                    _ => {
                        self.custom_route_dialog = Some(d);
                    },
                }
            },
            CustomRouteField::Path => {
                let op = match key {
                    Key::Char(c) => Some(BufferOp::Insert(c)),
                    Key::Backspace => Some(BufferOp::Backspace),
                    Key::Left => Some(BufferOp::Left),
                    Key::Right => Some(BufferOp::Right),
                    Key::Home => Some(BufferOp::Home),
                    Key::End => Some(BufferOp::End),
                    _ => None,
                };
                match op {
                    Some(op) => {
                        let ghost p0 = d.path;
                        d.path.apply(op);
                        proof {
                            assert(buffer_op_done(op, p0, d.path));
                        }
                        self.custom_route_dialog = Some(d);
                    },
                    None => {
                        self.custom_route_dialog = Some(d);
                        if key == Key::Enter {
                            self.confirm_custom_route();
                        } else if key == Key::Esc {
                            self.custom_route_dialog = None;
                        }
                    },
                }
            },
        }
    }

    /// Handles a key while the body-type selector has the focus.
    fn body_type_key(&mut self, key: Key)
        requires
            app_wf(*old(self)),
        ensures
            body_type_outcome(*old(self), key, *final(self)),
            app_wf(*final(self)),
    {
        let bt = self.current_body_type_value();
        if key == Key::Left || key == Key::Char('h') {
            if bt == BodyType::NoBody {
                self.body_type_focused = false;
                self.editor_tab = EditorTab::Auth;
            } else {
                self.set_body_type(bt.prev());
            }
        } else if key == Key::Right || key == Key::Char('l') {
            self.set_body_type(bt.next());
        } else if key == Key::Esc || key == Key::Up || key == Key::Char('k') {
            self.body_type_focused = false;
            self.editor_tab = EditorTab::Auth;
        } else if key == Key::Char('i') {
            if bt != BodyType::NoBody {
                self.body_type_focused = false;
                self.start_editing(InputTarget::Tab(EditorTab::Body));
            }
        }
    }
}


impl App {
    /// Handles a key in navigation mode.
    fn normal_key(&mut self, key: Key) -> (e: Effect)
        requires
            app_wf(*old(self)),
        ensures
            normal_outcome(*old(self), key, *final(self), e),
            app_wf(*final(self)),
    {
        let ghost a = *self;
        let f = self.focus;
        let tab = self.editor_tab;
        if key == Key::Char('q') {
            self.should_quit = true;
            Effect::Nothing
        } else if key == Key::Tab {
            self.focus_next();
            Effect::Nothing
        } else if key == Key::BackTab {
            self.focus_prev();
            Effect::Nothing
        } else if (key == Key::Char('k') || key == Key::Down) && f == FocusPane::Explorer {
            self.move_explorer_selection(true);
            Effect::Nothing
        } else if (key == Key::Char('j') || key == Key::Up) && f == FocusPane::Explorer {
            self.move_explorer_selection(false);
            Effect::Nothing
        } else if key == Key::Char('d') && f == FocusPane::Explorer {
            if self.delete_selected_custom_route() {
                Effect::SaveCustomRoutes
            } else {
                Effect::Nothing
            }
        } else if (key == Key::Char('k') || key == Key::Down) && f == FocusPane::Viewer {
            self.scroll_viewer(false);
            Effect::Nothing
        } else if (key == Key::Char('j') || key == Key::Up) && f == FocusPane::Viewer {
            self.scroll_viewer(true);
            Effect::Nothing
        } else if key == Key::PageDown && f == FocusPane::Viewer {
            self.scroll_viewer_page(false);
            Effect::Nothing
        } else if key == Key::PageUp && f == FocusPane::Viewer {
            self.scroll_viewer_page(true);
            Effect::Nothing
        } else if key == Key::Home && f == FocusPane::Viewer {
            self.viewer_scroll = 0;
            Effect::Nothing
        } else if key == Key::End && f == FocusPane::Viewer {
            self.viewer_scroll = u16::MAX;
            Effect::Nothing
        } else if key == Key::Char('/') && f == FocusPane::Viewer {
            self.open_view_picker();
            Effect::Nothing
        } else if key == Key::Char('[') && f == FocusPane::Viewer {
            self.cycle_response_view(false);
            Effect::Rerender
        } else if key == Key::Char(']') && f == FocusPane::Viewer {
            self.cycle_response_view(true);
            Effect::Rerender
        } else if (key == Key::Char('y') || key == Key::Char('c')) && f == FocusPane::Viewer {
            if self.response.body.as_str().is_empty() {
                self.finish_copy(false);
                Effect::Nothing
            } else {
                Effect::Copy(self.response.body.clone())
            }
        } else if (key == Key::Char('h') || key == Key::Left) && f == FocusPane::Editor {
            if tab == EditorTab::Body {
                self.body_type_focused = true;
            } else {
                self.editor_tab = tab.prev();
            }
            Effect::Nothing
        } else if (key == Key::Char('l') || key == Key::Right) && f == FocusPane::Editor {
            if tab == EditorTab::Body {
                self.body_type_focused = true;
            } else {
                self.editor_tab = tab.next();
            }
            Effect::Nothing
        } else if key == Key::Char('u') {
            self.start_editing(InputTarget::BaseUrl);
            Effect::Nothing
        } else if key == Key::Char('i') && f == FocusPane::Editor {
            if tab == EditorTab::Body {
                if self.current_body_type_value() != BodyType::NoBody {
                    self.start_editing(InputTarget::Tab(EditorTab::Body));
                } else {
                    self.body_type_focused = true;
                }
            } else {
                self.start_editing(InputTarget::Tab(tab));
            }
            Effect::Nothing
        } else if key == Key::Char('n') && f == FocusPane::Editor && tab != EditorTab::Body {
            self.add_kv_row();
            Effect::Nothing
        } else if key == Key::Char('r') {
            match self.execute_current_request() {
                Some((route, draft)) => Effect::Execute(route, draft),
                None => Effect::Nothing,
            }
        } else if key == Key::Enter && f == FocusPane::Explorer {
            if self.selected_is_add_custom() {
                self.open_custom_route_dialog();
            } else {
                self.focus = FocusPane::Editor;
            }
            Effect::Nothing
        } else if key == Key::Char('1') {
            self.editor_tab = EditorTab::Headers;
            Effect::Nothing
        } else if key == Key::Char('2') {
            self.editor_tab = EditorTab::Body;
            Effect::Nothing
        } else if key == Key::Char('3') {
            self.editor_tab = EditorTab::Params;
            Effect::Nothing
        } else if key == Key::Char('4') {
            self.editor_tab = EditorTab::Auth;
            Effect::Nothing
        } else {
            Effect::Nothing
        }
    }

    /// Handles a key: the view picker, the custom-route dialog, text input
    /// and the body-type selector take keys first, in that order; otherwise
    /// the key navigates. Returns what the program around the state has to
    /// do next.
    pub fn handle_key(&mut self, key: Key) -> (e: Effect)
        requires
            app_wf(*old(self)),
            app_room(*old(self)),
        ensures
            key_outcome(*old(self), key, *final(self), e),
            app_wf(*final(self)),
    {
        if self.view_picker_open {
            self.picker_key(key)
        } else if self.custom_route_dialog.is_some() {
            self.dialog_key(key);
            Effect::Nothing
        } else if self.input_mode {
            self.input_key(key);
            Effect::Nothing
        } else if self.body_type_focused {
            self.body_type_key(key);
            Effect::Nothing
        } else {
            self.normal_key(key)
        }
    }
}

} // verus!
