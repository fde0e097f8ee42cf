use volt::highlight::{detect, map_color, normalized_json, render_plan, BodyFormat, Palette, RenderPlan, ResponseView};
use volt::theme::{method_color, method_pill_color, truncate, Theme, Tint};

#[test]
fn response_views_cycle() {
    assert_eq!(ResponseView::default(), ResponseView::Auto);
    assert_eq!(ResponseView::Auto.label(), "Auto");
    assert_eq!(ResponseView::Json.label(), "JSON");
    assert_eq!(ResponseView::Raw.next(), ResponseView::Auto);
    assert_eq!(ResponseView::Auto.prev(), ResponseView::Raw);
    assert_eq!(ResponseView::Html.next().prev(), ResponseView::Html);
}

#[test]
fn content_type_detection() {
    assert_eq!(detect("application/json; charset=utf-8"), BodyFormat::Json);
    assert_eq!(detect("text/html"), BodyFormat::Html);
    assert_eq!(detect("application/xml"), BodyFormat::Xml);
    assert_eq!(detect("text/plain"), BodyFormat::Text);
}

#[test]
fn render_plans() {
    assert!(matches!(render_plan("application/json", "", ResponseView::Auto), RenderPlan::NoBody));
    assert!(matches!(render_plan("text/plain", "hello", ResponseView::Auto), RenderPlan::Plain));
    assert!(matches!(render_plan("application/json", "{}", ResponseView::Raw), RenderPlan::Plain));
    let big = "x".repeat(200 * 1024 + 1);
    assert!(matches!(render_plan("text/html", &big, ResponseView::Auto), RenderPlan::Plain));
    match render_plan("application/json", "{\"a\":1}", ResponseView::Auto) {
        RenderPlan::Highlight(BodyFormat::Json, t) => assert_eq!(t, "{\n  \"a\": 1\n}"),
        _ => panic!("small JSON is pretty-printed and highlighted"),
    }
    match render_plan("text/plain", "not json", ResponseView::Json) {
        RenderPlan::Highlight(BodyFormat::Json, t) => assert_eq!(t, "not json"),
        _ => panic!("text that is not JSON is highlighted as it is"),
    }
    match render_plan("application/json", "<p>hi</p>", ResponseView::Html) {
        RenderPlan::Highlight(BodyFormat::Html, t) => assert_eq!(t, "<p>hi</p>"),
        _ => panic!("HTML view"),
    }
}

#[test]
fn json_normalization() {
    assert_eq!(normalized_json("raw", None), "raw");
    assert_eq!(normalized_json("raw", Some("pretty".to_string())), "pretty");
}

#[test]
fn palette_mapping() {
    assert_eq!(map_color(10, 10, 10), Palette::Comment);
    assert_eq!(map_color(200, 200, 190), Palette::Fg);
    assert_eq!(map_color(250, 120, 60), Palette::Orange);
    assert_eq!(map_color(250, 60, 120), Palette::Pink);
    assert_eq!(map_color(120, 250, 60), Palette::Yellow);
    assert_eq!(map_color(60, 120, 250), Palette::Teal);
    assert_eq!(map_color(120, 60, 250), Palette::Blue);
    assert_eq!(Palette::Fg.rgb(), (0xcc, 0xc9, 0xc2));
}

#[test]
fn themes() {
    assert_eq!(Theme::get("Dracula").primary, (0x8b, 0xe9, 0xfd));
    assert_eq!(Theme::get("gruvbox").fg, (0xeb, 0xdb, 0xb2));
    assert_eq!(Theme::get("TOKYO-NIGHT").blue, (0x7a, 0xa2, 0xf7));
    assert_eq!(Theme::get("catppuccin").teal, (0x94, 0xe2, 0xd5));
    assert_eq!(Theme::get("vesper").primary, (0x5c, 0xb8, 0xb2));
    assert_eq!(Theme::get("unknown").comment, (0x4d, 0x4d, 0x4d));
}

#[test]
fn method_tints() {
    assert_eq!(method_color("GET"), Tint::Green);
    assert_eq!(method_color("DELETE"), Tint::Red);
    assert_eq!(method_color("HEAD"), Tint::ThemeTeal);
    assert_eq!(method_pill_color("HEAD"), Tint::Indexed(208));
    assert_eq!(method_pill_color("PATCH"), Tint::ThemePink);
}

#[test]
fn truncation() {
    assert_eq!(truncate("/users/profile", 6), "/users");
    assert_eq!(truncate("/a", 19), "/a");
}
