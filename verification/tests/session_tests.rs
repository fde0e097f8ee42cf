use volt::app::{BodyType, EditorTab, FocusPane, HttpMethod, InputTarget};
use volt::config::AppConfig;
use volt::highlight::ResponseView;
use volt::http::HttpResponse;
use volt::keyed::KeyedList;
use volt::keys::{Effect, Key};
use volt::scanner::{RouteInfo, ScannerReport};
use volt::session::{App, ClickLayout, CustomRouteField};

fn route(method: HttpMethod, path: &str) -> RouteInfo {
    RouteInfo {
        method,
        path: path.to_string(),
        framework: "axum".to_string(),
        source: "src/main.rs".to_string(),
        line: 3,
    }
}

fn app_with(base_url: &str) -> App {
    let report = ScannerReport {
        routes: vec![route(HttpMethod::Get, "/users"), route(HttpMethod::Post, "/users")],
        persisted_base_urls: KeyedList::new(),
        is_too_broad: false,
    };
    let mut config = AppConfig::default();
    config.base_url = base_url.to_string();
    App::new(report, &config, KeyedList::new())
}

fn press(app: &mut App, key: Key) -> Effect {
    assert!(app.has_room());
    app.handle_key(key)
}

fn type_text(app: &mut App, text: &str) {
    for c in text.chars() {
        press(app, Key::Char(c));
    }
}

#[test]
fn new_app_starts_in_explorer() {
    let app = app_with("http://localhost:3000");
    assert_eq!(app.url_history, vec!["http://localhost:3000".to_string()]);
    assert_eq!(app.status_message, "Ready");
    assert_eq!(app.focus, FocusPane::Explorer);
    assert_eq!(app.editor_tab, EditorTab::Params);
    assert_eq!(app.routes.len(), 2);
    let app = app_with("http://api.internal:8080");
    assert_eq!(app.url_history, vec!["http://api.internal:8080".to_string(), "http://localhost:3000".to_string()]);
}

#[test]
fn drafts_are_kept_per_route() {
    let mut app = app_with("http://localhost:3000");
    press(&mut app, Key::Char('u'));
    assert!(app.input_mode);
    assert_eq!(app.input_target, InputTarget::BaseUrl);
    type_text(&mut app, "/v2");
    press(&mut app, Key::Esc);
    assert!(!app.input_mode);
    assert_eq!(app.current_draft().base_url.text, "http://localhost:3000/v2");
    assert_eq!(app.url_history[0], "http://localhost:3000/v2");
    app.selected_route = 1;
    assert_eq!(app.current_draft().base_url.text, "http://localhost:3000");
    app.selected_route = 0;
    assert_eq!(app.current_draft().base_url.text, "http://localhost:3000/v2");
}

#[test]
fn editing_key_value_rows() {
    let mut app = app_with("http://localhost:3000");
    press(&mut app, Key::Tab);
    assert_eq!(app.focus, FocusPane::Editor);
    press(&mut app, Key::Char('i'));
    assert_eq!(app.input_target, InputTarget::Tab(EditorTab::Params));
    type_text(&mut app, "page");
    press(&mut app, Key::Right);
    type_text(&mut app, "2");
    press(&mut app, Key::Enter);
    assert_eq!(app.current_draft().active_row, 1);
    assert_eq!(app.current_draft().active_col, 1);
    press(&mut app, Key::Tab);
    type_text(&mut app, "limit");
    press(&mut app, Key::Tab);
    type_text(&mut app, "10");
    let d = app.current_draft();
    assert_eq!(d.params.len(), 2);
    assert_eq!(d.params[0].key.text, "page");
    assert_eq!(d.params[0].value.text, "2");
    assert_eq!(d.params[1].key.text, "limit");
    assert_eq!(d.params[1].value.text, "10");
    press(&mut app, Key::Backspace);
    press(&mut app, Key::Backspace);
    assert_eq!(app.current_draft().active_col, 1);
    press(&mut app, Key::Backspace);
    assert_eq!(app.current_draft().active_col, 0);
    press(&mut app, Key::Up);
    assert_eq!(app.current_draft().active_row, 0);
}

#[test]
fn left_at_value_start_moves_to_key_end() {
    let mut app = app_with("http://localhost:3000");
    app.focus = FocusPane::Editor;
    press(&mut app, Key::Char('i'));
    type_text(&mut app, "ab");
    press(&mut app, Key::Tab);
    press(&mut app, Key::Left);
    let d = app.current_draft();
    assert_eq!(d.active_col, 0);
    assert_eq!(d.params[0].key.cursor, 2);
}

#[test]
fn body_type_selector() {
    let mut app = app_with("http://localhost:3000");
    app.focus = FocusPane::Editor;
    app.editor_tab = EditorTab::Body;
    press(&mut app, Key::Char('i'));
    assert!(app.body_type_focused);
    press(&mut app, Key::Right);
    assert_eq!(app.current_draft().body_type, BodyType::Json);
    press(&mut app, Key::Char('i'));
    assert!(!app.body_type_focused);
    assert_eq!(app.input_target, InputTarget::Tab(EditorTab::Body));
    type_text(&mut app, "{}");
    press(&mut app, Key::Enter);
    assert_eq!(app.current_draft().body.text, "{}\n");
}

#[test]
fn run_gives_the_request_to_send() {
    let mut app = app_with("http://localhost:3000");
    match press(&mut app, Key::Char('r')) {
        Effect::Execute(route, draft) => {
            assert_eq!(route.path, "/users");
            assert_eq!(draft.base_url.text, "http://localhost:3000");
        }
        _ => panic!("r executes the selected route"),
    }
    assert!(app.pending_request);
    app.tick_loader();
    assert_eq!(app.loader_tick, 1);
    app.apply_http_result(Ok(HttpResponse {
        status_code: 200,
        latency_ms: 12,
        size_bytes: 2,
        content_type: "application/json".to_string(),
        body: "{}".to_string(),
    }));
    assert!(!app.pending_request);
    assert_eq!(app.status_message, "200 in 12ms");
    assert_eq!(app.response.status_code, Some(200));
    app.apply_http_result(Err("Execution error: Request timed out".to_string()));
    assert_eq!(app.status_message, "Error: Execution error: Request timed out");
}

#[test]
fn custom_route_dialog() {
    let mut app = app_with("http://localhost:3000");
    app.selected_route = 2;
    assert!(app.selected_is_add_custom());
    press(&mut app, Key::Enter);
    assert!(app.custom_route_dialog.is_some());
    press(&mut app, Key::Right);
    assert_eq!(app.custom_route_dialog.as_ref().unwrap().method, HttpMethod::Post);
    press(&mut app, Key::Tab);
    assert_eq!(app.custom_route_dialog.as_ref().unwrap().active_field, CustomRouteField::Path);
    type_text(&mut app, "orders");
    press(&mut app, Key::Enter);
    assert!(app.custom_route_dialog.is_none());
    assert_eq!(app.routes.len(), 3);
    assert_eq!(app.routes[2].path, "/orders");
    assert_eq!(app.routes[2].framework, "custom");
    assert_eq!(app.selected_route, 2);
    app.focus = FocusPane::Explorer;
    assert!(matches!(press(&mut app, Key::Char('d')), Effect::SaveCustomRoutes));
    assert_eq!(app.routes.len(), 2);
    assert_eq!(app.filtered_routes.len(), 2);
}

#[test]
fn view_picker_and_viewer_keys() {
    let mut app = app_with("http://localhost:3000");
    app.focus = FocusPane::Viewer;
    press(&mut app, Key::Char('/'));
    assert!(app.view_picker_open);
    assert!(matches!(press(&mut app, Key::Char('3')), Effect::Rerender));
    assert_eq!(app.response.view, ResponseView::Html);
    assert!(!app.view_picker_open);
    assert!(matches!(press(&mut app, Key::Char(']')), Effect::Rerender));
    assert_eq!(app.response.view, ResponseView::Text);
    press(&mut app, Key::Down);
    press(&mut app, Key::PageDown);
    assert_eq!(app.viewer_scroll, 11);
    press(&mut app, Key::Home);
    assert_eq!(app.viewer_scroll, 0);
    press(&mut app, Key::Up);
    assert_eq!(app.viewer_scroll, 0);
    press(&mut app, Key::Char('y'));
    assert_eq!(app.status_message, "Nothing to copy");
    app.response.body = "{}".to_string();
    match press(&mut app, Key::Char('y')) {
        Effect::Copy(t) => assert_eq!(t, "{}"),
        _ => panic!("y copies the body"),
    }
    app.finish_copy(true);
    assert_eq!(app.status_message, "Copied response to clipboard");
    press(&mut app, Key::Char('q'));
    assert!(app.should_quit);
}

#[test]
fn url_history_cycles() {
    let mut app = app_with("http://api.internal:8080");
    press(&mut app, Key::Char('u'));
    press(&mut app, Key::Up);
    assert_eq!(app.current_draft().base_url.text, "http://api.internal:8080");
    press(&mut app, Key::Up);
    assert_eq!(app.current_draft().base_url.text, "http://localhost:3000");
    press(&mut app, Key::Down);
    assert_eq!(app.current_draft().base_url.text, "http://api.internal:8080");
}

#[test]
fn mouse_clicks() {
    let mut app = app_with("http://localhost:3000");
    let layout = ClickLayout { explorer_width: 25, editor_width: 35, key_end: 21 };
    app.handle_mouse_click(5, 3, layout);
    assert_eq!(app.focus, FocusPane::Explorer);
    assert_eq!(app.selected_route, 1);
    app.handle_mouse_click(35, 5, layout);
    assert_eq!(app.focus, FocusPane::Editor);
    assert_eq!(app.editor_tab, EditorTab::Headers);
    app.handle_mouse_click(27, 9, layout);
    assert!(!app.current_draft().headers[0].enabled);
    app.handle_mouse_click(40, 10, layout);
    assert!(app.input_mode);
    assert_eq!(app.current_draft().active_row, 1);
    assert_eq!(app.current_draft().active_col, 0);
    app.handle_mouse_click(80, 10, layout);
    assert_eq!(app.focus, FocusPane::Viewer);
}

#[test]
fn digit_keys_jump_to_editor_tabs() {
    let mut app = app_with("http://localhost:3000");
    assert_eq!(app.editor_tab, EditorTab::Params);
    press(&mut app, Key::Char('1'));
    assert_eq!(app.editor_tab, EditorTab::Headers);
    press(&mut app, Key::Char('2'));
    assert_eq!(app.editor_tab, EditorTab::Body);
    press(&mut app, Key::Char('3'));
    assert_eq!(app.editor_tab, EditorTab::Params);
    press(&mut app, Key::Char('4'));
    assert_eq!(app.editor_tab, EditorTab::Auth);
    assert_eq!(app.focus, FocusPane::Explorer);
}

#[test]
fn c_copies_the_response_like_y() {
    let mut app = app_with("http://localhost:3000");
    press(&mut app, Key::Tab);
    press(&mut app, Key::Tab);
    assert_eq!(app.focus, FocusPane::Viewer);
    press(&mut app, Key::Char('c'));
    assert_eq!(app.status_message, "Nothing to copy");
    app.response.body = "{\"ok\":true}".to_string();
    match press(&mut app, Key::Char('c')) {
        Effect::Copy(t) => assert_eq!(t, "{\"ok\":true}"),
        _ => panic!("c copies the body"),
    }
}
