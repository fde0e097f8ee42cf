use std::collections::BTreeSet;
use std::path::PathBuf;

use volt::app::HttpMethod;
use volt::scanner::listing::{build_report, list_routes, route_key_of};
use volt::scanner::{PersistedRoute, RouteInfo};

type StdKey = (HttpMethod, String, String, PathBuf, usize);

fn route(method: HttpMethod, path: &str, framework: &str, source: &str, line: usize) -> RouteInfo {
    RouteInfo {
        method,
        path: path.to_string(),
        framework: framework.to_string(),
        source: source.to_string(),
        line,
    }
}

/// What a `BTreeSet` keyed by the route's fields, with the source as a
/// `PathBuf`, lists for the same items.
fn std_listing(items: &[RouteInfo]) -> Vec<RouteInfo> {
    let mut set: BTreeSet<StdKey> = BTreeSet::new();
    for r in items {
        set.insert((r.method, r.path.clone(), r.framework.clone(), PathBuf::from(&r.source), r.line));
    }
    set.into_iter()
        .map(|k| RouteInfo { method: k.0, path: k.1, framework: k.2, source: k.3.display().to_string(), line: k.4 })
        .collect()
}

fn same(a: &[RouteInfo], b: &[RouteInfo]) -> bool {
    a.len() == b.len()
        && a.iter().zip(b.iter()).all(|(x, y)| {
            x.method == y.method && x.path == y.path && x.framework == y.framework && x.source == y.source && x.line == y.line
        })
}

#[test]
fn listing_orders_by_method_then_path() {
    let items = vec![
        route(HttpMethod::Post, "/a", "axum", "src/main.rs", 3),
        route(HttpMethod::Get, "/b", "axum", "src/main.rs", 2),
        route(HttpMethod::Get, "/a", "axum", "src/main.rs", 1),
    ];
    let out = list_routes(&items);
    assert_eq!(out.len(), 3);
    assert_eq!(out[0].path, "/a");
    assert_eq!(out[0].method, HttpMethod::Get);
    assert_eq!(out[1].path, "/b");
    assert_eq!(out[2].method, HttpMethod::Post);
}

#[test]
fn listing_keeps_each_route_once() {
    let items = vec![
        route(HttpMethod::Get, "/a", "axum", "src/main.rs", 1),
        route(HttpMethod::Get, "/a", "axum", "src/main.rs", 1),
    ];
    assert_eq!(list_routes(&items).len(), 1);
}

#[test]
fn listing_compares_sources_as_paths() {
    // component by component "routes" < "routes.rs", though "/" > "." as characters
    let items = vec![
        route(HttpMethod::Get, "/a", "axum", "src/routes.rs", 1),
        route(HttpMethod::Get, "/a", "axum", "src/routes/mod.rs", 1),
    ];
    let out = list_routes(&items);
    assert_eq!(out[0].source, "src/routes/mod.rs");
    assert_eq!(out[1].source, "src/routes.rs");
    // repeated separators and "." pieces make the same path: the first met stays
    let items = vec![
        route(HttpMethod::Get, "/a", "axum", "src//x/./y.rs", 1),
        route(HttpMethod::Get, "/a", "axum", "src/x/y.rs", 1),
    ];
    let out = list_routes(&items);
    assert_eq!(out.len(), 1);
    assert_eq!(out[0].source, "src//x/./y.rs");
}

#[test]
fn listing_agrees_with_path_order_on_many_pairs() {
    let pieces = ["", ".", "..", "a", "b", "a.b", "a-b", "ab", "a b", "é", "a/", "/a", "./a"];
    let mut paths: Vec<String> = Vec::new();
    for x in pieces.iter() {
        for y in pieces.iter() {
            for sep in ["/", "//", "/./"] {
                paths.push(format!("{}{}{}", x, sep, y));
            }
            paths.push(format!("{}{}", x, y));
        }
    }
    for p in paths.iter() {
        for q in paths.iter() {
            let items = vec![
                route(HttpMethod::Get, "/", "x", p, 0),
                route(HttpMethod::Get, "/", "x", q, 0),
            ];
            let ours = list_routes(&items);
            let theirs = std_listing(&items);
            assert!(same(&ours, &theirs), "sources {:?} and {:?}", p, q);
        }
    }
}

#[test]
fn listing_agrees_with_ordered_set_on_random_routes() {
    let methods = [
        HttpMethod::Get,
        HttpMethod::Post,
        HttpMethod::Put,
        HttpMethod::Patch,
        HttpMethod::Delete,
        HttpMethod::Options,
        HttpMethod::Head,
    ];
    let texts = ["", "/", "/a", "/a/b", "/ab", "/a-b", "ä", "custom", "axum", "ax"];
    let sources = ["", "/", ".", "./a", "a", "a/b", "a//b", "a/./b", "a/b/", "a/../b", "/a", "a.b/c", "a/b.c", "..", "../a"];
    let mut seed: u64 = 0x2545_F491_4F6C_DD1D;
    let mut next = move |n: usize| -> usize {
        seed ^= seed << 13;
        seed ^= seed >> 7;
        seed ^= seed << 17;
        (seed % n as u64) as usize
    };
    for _ in 0..300 {
        let count = next(40);
        let mut items: Vec<RouteInfo> = Vec::new();
        for _ in 0..count {
            items.push(route(
                methods[next(methods.len())],
                texts[next(texts.len())],
                texts[next(texts.len())],
                sources[next(sources.len())],
                next(3),
            ));
        }
        let ours = list_routes(&items);
        let theirs = std_listing(&items);
        assert!(same(&ours, &theirs));
    }
}

#[test]
fn route_keys_follow_the_fields() {
    let a = route(HttpMethod::Get, "/a", "axum", "m.rs", 7);
    let k = route_key_of(&a);
    // method, "/a" + 0, "axum" + 0, "m.rs" as a named piece + 0, then the line
    assert_eq!(k[0], 0);
    assert_eq!(&k[1..4], &[('/' as u64) + 1, ('a' as u64) + 1, 0]);
    assert_eq!(*k.last().unwrap(), 7);
    let b = route(HttpMethod::Head, "/a", "axum", "/m.rs", 7);
    let kb = route_key_of(&b);
    assert_eq!(kb[0], 6);
}

#[test]
fn report_lists_found_and_saved_routes() {
    let found = vec![
        route(HttpMethod::Post, "/users", "axum", "src/main.rs", 4),
        route(HttpMethod::Get, "/users", "axum", "src/main.rs", 3),
    ];
    let saved = vec![
        PersistedRoute {
            route: route(HttpMethod::Get, "/health", "custom", "custom", 0),
            base_url: "http://a".to_string(),
        },
        PersistedRoute {
            route: route(HttpMethod::Get, "/health", "custom", "custom", 0),
            base_url: "http://b".to_string(),
        },
    ];
    let report = build_report(found, &saved, false);
    assert!(!report.is_too_broad);
    assert_eq!(report.routes.len(), 3);
    assert_eq!(report.routes[0].path, "/health");
    assert_eq!(report.routes[1].path, "/users");
    assert_eq!(report.routes[1].method, HttpMethod::Get);
    assert_eq!(report.routes[2].method, HttpMethod::Post);
    let id = report.routes[0].id();
    assert_eq!(report.persisted_base_urls.get(&id).map(|s| s.as_str()), Some("http://b"));
    let empty = build_report(Vec::new(), &Vec::new(), true);
    assert!(empty.is_too_broad);
    assert!(empty.routes.is_empty());
    assert!(empty.persisted_base_urls.is_empty());
}
