use volt::app::{BodyType, EditorTab, HttpMethod, TextBuffer};
use volt::keyed::KeyedList;

#[test]
fn method_cycle_round_trip() {
    for m in [
        HttpMethod::Get,
        HttpMethod::Post,
        HttpMethod::Put,
        HttpMethod::Patch,
        HttpMethod::Delete,
        HttpMethod::Options,
        HttpMethod::Head,
    ] {
        assert_eq!(m.cycle_next().cycle_prev(), m);
        assert_eq!(m.cycle_prev().cycle_next(), m);
        let mut x = m;
        for _ in 0..7 {
            x = x.cycle_next();
        }
        assert_eq!(x, m);
        assert_eq!(HttpMethod::try_from(m.as_str()), Ok(m));
    }
    assert_eq!(HttpMethod::try_from("pAtCh"), Ok(HttpMethod::Patch));
    assert_eq!(HttpMethod::try_from("FETCH"), Err(()));
}

#[test]
fn tab_and_body_type_round_trip() {
    for t in [EditorTab::Params, EditorTab::Headers, EditorTab::Auth, EditorTab::Body] {
        assert_eq!(t.next().prev(), t);
        assert_eq!(t.prev().next(), t);
    }
    for b in [BodyType::NoBody, BodyType::Json, BodyType::Text, BodyType::FormUrlEncoded] {
        assert_eq!(b.next().prev(), b);
        assert_eq!(b.prev().next(), b);
    }
}

#[test]
fn insert_then_backspace_restores() {
    let mut b = TextBuffer::new("héllo");
    b.move_left();
    b.move_left();
    let before = (b.text.clone(), b.cursor);
    b.insert_char('ß');
    assert_eq!(b.text, "hélßlo");
    b.backspace();
    assert_eq!((b.text.clone(), b.cursor), before);
}

#[test]
fn right_then_left_restores() {
    let mut b = TextBuffer::new("añb");
    b.move_home();
    b.move_right();
    let c = b.cursor;
    b.move_right();
    assert_eq!(b.cursor, 3);
    b.move_left();
    assert_eq!(b.cursor, c);
}

#[test]
fn keyed_read_after_write() {
    let mut m = KeyedList::new();
    m.insert("a".to_string(), 1);
    m.insert("b".to_string(), 2);
    m.insert("a".to_string(), 3);
    assert_eq!(m.get("a"), Some(&3));
    assert_eq!(m.get("b"), Some(&2));
    assert!(m.get("c").is_none());
    assert!(m.contains_key("b"));
    *m.get_mut("b") = 5;
    assert_eq!(m.get("b"), Some(&5));
}

fn sample_routes() -> Vec<volt::scanner::RouteInfo> {
    let mk = |m: HttpMethod, p: &str, s: &str, l: usize| volt::scanner::RouteInfo {
        method: m,
        path: p.to_string(),
        framework: "axum".to_string(),
        source: s.to_string(),
        line: l,
    };
    vec![
        mk(HttpMethod::Delete, "/users/:id", "src/main.rs", 9),
        mk(HttpMethod::Get, "/users", "src/main.rs", 3),
        mk(HttpMethod::Get, "/users", "src//main.rs", 3),
        mk(HttpMethod::Get, "/health", "src/routes/mod.rs", 1),
        mk(HttpMethod::Get, "/health", "src/routes.rs", 1),
    ]
}

#[test]
fn law_listing_determined_on_values() {
    let items = sample_routes();
    let a = volt::scanner::listing::list_routes(&items);
    let b = volt::scanner::listing::list_routes(&items);
    assert_eq!(a, b);
    assert_eq!(a.len(), 4);
}

#[test]
fn law_listing_settled_on_values() {
    let items = sample_routes();
    let a = volt::scanner::listing::list_routes(&items);
    let again = volt::scanner::listing::list_routes(&a);
    assert_eq!(again, a);
}
