//! Route extraction for each supported framework.
use vstd::prelude::*;
use vstd::utf8::*;
use crate::app::{parse_method, HttpMethod};
use crate::pattern::{captures_view, find_matches, match_wf, matches_of, matches_wf, replace_matches, replaced, Captures, GroupView};
use crate::scanner::{
    lemma_opt_flat_map_none, lemma_opt_flat_map_take, object_route_fn, object_routes, opt_flat_map,
    window, window_of, route_at,
    extend_routes, flat_map, group_at, group_of, lemma_flat_map_all, lemma_flat_map_take,
    line_at, line_number, make_route, method_routes, routes_for_methods, routes_from_captures,
    routes_view, routes_with_path, fixed_path_routes, simple_routes, RouteInfo, RouteView,
};
use crate::scanner::paths::{extension, file_name, path_extension, path_file_name};
use crate::scanner::route_paths::{
    normalise_django_path, nextjs_app_path, nextjs_pages_path, nuxt_method_from_filename,
    nuxt_route_path, spec_nextjs_app_path, spec_nextjs_pages_path, spec_normalise_django_path,
    spec_nuxt_method_from_filename, spec_nuxt_route_path, spec_sveltekit_route_path,
    sveltekit_route_path,
};
use crate::text::{chars_of, contains, equals, seq_contains, string_from};

verus! {

pub const AXUM_ROUTE_RE: &'static str = r#"\.route\(\s*\"([^\"]+)\"\s*,\s*([^;\n]+)"#;
pub const AXUM_METHOD_RE: &'static str = r#"\b(get|post|put|patch|delete|options|head)\b"#;
pub const ACTIX_ATTR_RE: &'static str = r#"#\[(get|post|put|patch|delete|head|options)\(\"([^\"]+)\""#;
pub const ACTIX_ROUTE_RE: &'static str = r#"\.route\(\s*\"([^\"]+)\"\s*,\s*web::(get|post|put|patch|delete|head|options)\(\)"#;
pub const EXPRESS_RE: &'static str = r#"\b(?:app|router|server|fastify)\.(get|post|put|patch|delete|options|head)\(\s*[\"']([^\"']+)[\"']"#;
pub const FASTAPI_RE: &'static str = r#"@(app|router)\.(get|post|put|patch|delete|options|head)\(\s*[\"']([^\"']+)[\"']"#;
pub const EXPORTED_METHOD_RE: &'static str = r#"export\s+(?:async\s+)?function\s+(GET|POST|PUT|PATCH|DELETE|HEAD|OPTIONS)"#;
pub const NEXT_API_RE: &'static str = r#"export\s+(?:default\s+)?(?:async\s+)?function\s+handler"#;
pub const NEXT_REQ_METHOD_RE: &'static str = r#"req\.method\s*[=!]=\s*['"](GET|POST|PUT|PATCH|DELETE|HEAD|OPTIONS)['"]"#;
pub const GIN_RE: &'static str = r#"\w+\.(GET|POST|PUT|PATCH|DELETE|OPTIONS|HEAD)\(\s*"([^"]+)""#;
pub const DJANGO_PATH_RE: &'static str = r#"(?:re_path|path)\(\s*r?["']([^"']+)["']"#;
pub const DJANGO_URL_RE: &'static str = r#"\burl\(\s*r?["']([^"']+)["']"#;
pub const FLASK_ROUTE_RE: &'static str = r#"@\w+\.route\(\s*["']([^"']+)["'](?:[^)]*methods\s*=\s*\[([^\]]*)\])?"#;
pub const FLASK_METHOD_RE: &'static str = r#"["'](GET|POST|PUT|PATCH|DELETE|HEAD|OPTIONS)["']"#;
pub const NUXT_EXPORT_RE: &'static str = r#"export\s+(?:default\s+)?defineEventHandler|export\s+default\s+eventHandler"#;
pub const AZURE_DEFAULT_RE: &'static str = r#"\[HttpTrigger\(AuthorizationLevel\.(\w+)(?:\s*,\s*"(\w+)")?(?:\s*,\s*Route\s*=\s*"([^"]*)")?\s*\)\]"#;
pub const AZURE_METHODS_RE: &'static str = r#"\[HttpTrigger\(AuthorizationLevel\.(\w+)\s*,\s*((?:"[^"]+"\s*,?\s*)+)(?:,?\s*Route\s*=\s*"([^"]*)")?\s*\)\]"#;
pub const REACT_JSX_RE: &'static str = r#"<Route[^>]+path=["']([^"']+)["']"#;
pub const REACT_FACTORY_RE: &'static str = r#"create(?:Browser|Hash|Memory)Router\s*\(\s*\["#;
pub const OBJECT_PATH_RE: &'static str = r#"\bpath:\s*["']([^"']+)["']"#;
pub const VUE_ANCHOR_RE: &'static str = r#"(?:routes\s*:\s*\[|(?:const|let|var)\s+routes\s*=\s*\[)"#;
pub const ANGULAR_ANCHOR_RE: &'static str = r#"(?:const|let|var)\s+\w+\s*:\s*Routes\s*=\s*\["#;
pub const ANGULAR_FALLBACK_RE: &'static str = r#"(?:forRoot|forChild)\s*\(\s*\["#;
pub const ANGULAR_PATH_RE: &'static str = r#"\bpath:\s*['"]([^'"]+)['"]"#;
pub const SPRING_SHORTHAND_RE: &'static str = r#"@(Get|Post|Put|Patch|Delete)Mapping\(\s*(?:value\s*=\s*)?\{?\s*["']([^"']+)["']"#;
pub const SPRING_REQUEST_MAPPING_RE: &'static str = r#"@RequestMapping\(([^)]{0,512})\)"#;
pub const SPRING_VALUE_RE: &'static str = r#"value\s*=\s*[{"']([^"'}]+)[}'"]"#;
pub const SPRING_METHOD_RE: &'static str = r#"method\s*=\s*RequestMethod\.(\w+)"#;
pub const JAXRS_PATH_RE: &'static str = r#"@Path\(\s*"([^"]+)"\s*\)"#;
pub const JAXRS_VERB_RE: &'static str = r#"@(GET|POST|PUT|PATCH|DELETE|HEAD|OPTIONS)\b"#;
pub const ASPNET_MINIMAL_RE: &'static str = r#"\.Map(Get|Post|Put|Patch|Delete)\(\s*["']([^"']+)["']"#;
pub const ASPNET_ATTR_PATH_RE: &'static str = r#"\[Http(Get|Post|Put|Patch|Delete)\(\s*["']([^"']+)["']\s*\)\]"#;
pub const ASPNET_ATTR_BARE_RE: &'static str = r#"\[Http(Get|Post|Put|Patch|Delete)\]"#;
pub const ASPNET_ROUTE_ATTR_RE: &'static str = r#"\[Route\(\s*["']([^"']+)["']\s*\)\]"#;
pub const ASPNET_PARAM_RE: &'static str = r#"\{(\w+)(?::[^}]*)?\}"#;
pub const AZURE_METHOD_ITEM_RE: &'static str = r#""([^"]+)""#;

/// The text of a group, or `dflt` where it did not take part.
pub open spec fn group_text_or(c: Seq<Option<GroupView>>, k: int, dflt: Seq<char>) -> Seq<char> {
    match group_at(c, k) {
        Some(g) => g.text,
        None => dflt,
    }
}

/// The start of the whole match (0 where absent).
pub open spec fn match_start(c: Seq<Option<GroupView>>) -> int {
    match group_at(c, 0) {
        Some(g) => g.start,
        None => 0,
    }
}

fn text_or<'a>(c: &'a Captures, k: usize, dflt: &'a str) -> (r: &'a str)
    ensures
        r@ == group_text_or(c@, k as int, dflt@),
{
    match group_of(c, k) {
        Some(g) => g.text.as_str(),
        None => dflt,
    }
}

fn start_of(c: &Captures) -> (r: usize)
    ensures
        r == match_start(c@),
{
    match group_of(c, 0) {
        Some(g) => g.start,
        None => 0,
    }
}

/// The extension of a path is `ext`.
fn has_extension(path: &str, ext: &str) -> (b: bool)
    ensures
        b == (path_extension(path@) == Some(ext@)),
{
    let p = chars_of(path);
    match extension(p.as_slice()) {
        Some(e) => equals(e.as_slice(), ext),
        None => false,
    }
}

/// The start of the whole match lies within the content on a character boundary.
proof fn lemma_match_start(content: Seq<char>, c: Seq<Option<GroupView>>)
    requires
        match_wf(content, c),
    ensures
        0 <= match_start(c) <= crate::utf8len::utf8_len(content),
        is_char_boundary(encode_utf8(content), match_start(c)),
{
    assert(c[0] is Some);
}

// ---------------------------------------------------------------------------
// axum
// ---------------------------------------------------------------------------

/// The routes of one `.route("path", handlers)` match: one per method
/// function named in the handler expression.
pub open spec fn axum_match(source: Seq<char>, content: Seq<char>, c: Seq<Option<GroupView>>) -> Seq<RouteView> {
    method_routes(
        source,
        matches_of(AXUM_METHOD_RE@, group_text_or(c, 2, ""@)),
        1,
        group_text_or(c, 1, ""@),
        "axum"@,
        line_at(content, match_start(c)),
        false,
    )
}

pub open spec fn axum_match_fn(source: Seq<char>, content: Seq<char>) -> spec_fn(Seq<Option<GroupView>>) -> Seq<RouteView> {
    |c: Seq<Option<GroupView>>| axum_match(source, content, c)
}

/// axum routes: none unless the file mentions `axum` or `Router::new`.
pub open spec fn spec_extract_axum(source: Seq<char>, content: Seq<char>) -> Seq<RouteView> {
    if !seq_contains(content, "axum"@) && !seq_contains(content, "Router::new"@) {
        Seq::empty()
    } else {
        flat_map(matches_of(AXUM_ROUTE_RE@, content), axum_match_fn(source, content))
    }
}

/// The routes of a list of `.route(...)` matches.
pub fn axum_routes(source: &str, content: &str, caps: &[Captures]) -> (r: Vec<RouteInfo>)
    requires
        matches_wf(content@, captures_view(caps@)),
    ensures
        routes_view(r@) == flat_map(captures_view(caps@), axum_match_fn(source@, content@)),
{
    let ghost cv = captures_view(caps@);
    let ghost f = axum_match_fn(source@, content@);
    let mut out: Vec<RouteInfo> = Vec::new();
    let mut i: usize = 0;
    while i < caps.len()
        invariant
            i <= caps.len(),
            cv == captures_view(caps@),
            matches_wf(content@, cv),
            f == axum_match_fn(source@, content@),
            routes_view(out@) == flat_map(cv.take(i as int), f),
        decreases caps.len() - i,
    {
        proof {
            lemma_flat_map_take(cv, f, i as int);
            assert(cv[i as int] == caps@[i as int]@);
            lemma_match_start(content@, cv[i as int]);
        }
        let c = &caps[i];
        let path_value = text_or(c, 1, "");
        let handler = text_or(c, 2, "");
        let line = line_number(content, start_of(c));
        let inner = find_matches(AXUM_METHOD_RE, handler);
        let found = routes_for_methods(source, inner.as_slice(), 1, path_value, "axum", line, false);
        extend_routes(&mut out, found);
        i += 1;
    }
    proof {
        lemma_flat_map_all(cv, f);
    }
    out
}

pub fn extract_axum(path: &str, content: &str) -> (r: Vec<RouteInfo>)
    ensures
        routes_view(r@) == spec_extract_axum(path@, content@),
{
    if !contains(content, "axum") && !contains(content, "Router::new") {
        return Vec::new();
    }
    let caps = find_matches(AXUM_ROUTE_RE, content);
    axum_routes(path, content, caps.as_slice())
}

// ---------------------------------------------------------------------------
// actix-web
// ---------------------------------------------------------------------------

/// actix-web routes: attribute macros `#[get("/path")]`, then
/// `.route("/path", web::get())` calls; none unless the file mentions
/// `actix_web` or `web::`.
pub open spec fn spec_extract_actix(source: Seq<char>, content: Seq<char>) -> Seq<RouteView> {
    if !seq_contains(content, "actix_web"@) && !seq_contains(content, "web::"@) {
        Seq::empty()
    } else {
        simple_routes(source, content, matches_of(ACTIX_ATTR_RE@, content), 1, 2, "actix-web"@, false)
            + simple_routes(source, content, matches_of(ACTIX_ROUTE_RE@, content), 2, 1, "actix-web"@, false)
    }
}

pub fn extract_actix(path: &str, content: &str) -> (r: Vec<RouteInfo>)
    ensures
        routes_view(r@) == spec_extract_actix(path@, content@),
{
    if !contains(content, "actix_web") && !contains(content, "web::") {
        return Vec::new();
    }
    let attrs = find_matches(ACTIX_ATTR_RE, content);
    let mut routes = routes_from_captures(path, content, attrs.as_slice(), 1, 2, "actix-web", false);
    let calls = find_matches(ACTIX_ROUTE_RE, content);
    let more = routes_from_captures(path, content, calls.as_slice(), 2, 1, "actix-web", false);
    extend_routes(&mut routes, more);
    routes
}

// ---------------------------------------------------------------------------
// express / fastify
// ---------------------------------------------------------------------------

/// express and fastify routes: `app.get("/path", ...)` and the like; the
/// framework is fastify when the file mentions it.
pub open spec fn spec_extract_express(source: Seq<char>, content: Seq<char>) -> Seq<RouteView> {
    if !seq_contains(content, "express"@) && !seq_contains(content, "fastify"@) && !seq_contains(content, "router."@)
        && !seq_contains(content, "app."@) {
        Seq::empty()
    } else {
        let framework = if seq_contains(content, "fastify"@) { "fastify"@ } else { "express"@ };
        simple_routes(source, content, matches_of(EXPRESS_RE@, content), 1, 2, framework, false)
    }
}

pub fn extract_express(path: &str, content: &str) -> (r: Vec<RouteInfo>)
    ensures
        routes_view(r@) == spec_extract_express(path@, content@),
{
    if !contains(content, "express") && !contains(content, "fastify") && !contains(content, "router.")
        && !contains(content, "app.") {
        return Vec::new();
    }
    let framework = if contains(content, "fastify") { "fastify" } else { "express" };
    let caps = find_matches(EXPRESS_RE, content);
    routes_from_captures(path, content, caps.as_slice(), 1, 2, framework, false)
}

// ---------------------------------------------------------------------------
// FastAPI
// ---------------------------------------------------------------------------

/// FastAPI routes: `@app.get("/path")` and `@router.get("/path")` decorators.
pub open spec fn spec_extract_fastapi(source: Seq<char>, content: Seq<char>) -> Seq<RouteView> {
    if !seq_contains(content, "FastAPI"@) && !seq_contains(content, "@app."@) && !seq_contains(content, "@router."@) {
        Seq::empty()
    } else {
        simple_routes(source, content, matches_of(FASTAPI_RE@, content), 2, 3, "fastapi"@, false)
    }
}

pub fn extract_fastapi(path: &str, content: &str) -> (r: Vec<RouteInfo>)
    ensures
        routes_view(r@) == spec_extract_fastapi(path@, content@),
{
    if !contains(content, "FastAPI") && !contains(content, "@app.") && !contains(content, "@router.") {
        return Vec::new();
    }
    let caps = find_matches(FASTAPI_RE, content);
    routes_from_captures(path, content, caps.as_slice(), 2, 3, "fastapi", false)
}

// ---------------------------------------------------------------------------
// Gin
// ---------------------------------------------------------------------------

/// Gin routes: `r.GET("/path", ...)` calls on any variable, in `.go` files
/// that use gin.
pub open spec fn spec_extract_gin(source: Seq<char>, content: Seq<char>) -> Seq<RouteView> {
    if path_extension(source) != Some("go"@) {
        Seq::empty()
    } else if !seq_contains(content, "gin-gonic/gin"@) && !seq_contains(content, "gin.Default"@)
        && !seq_contains(content, "gin.New"@) {
        Seq::empty()
    } else {
        simple_routes(source, content, matches_of(GIN_RE@, content), 1, 2, "gin"@, true)
    }
}

pub fn extract_gin(path: &str, content: &str) -> (r: Vec<RouteInfo>)
    ensures
        routes_view(r@) == spec_extract_gin(path@, content@),
{
    if !has_extension(path, "go") {
        return Vec::new();
    }
    if !contains(content, "gin-gonic/gin") && !contains(content, "gin.Default") && !contains(content, "gin.New") {
        return Vec::new();
    }
    let caps = find_matches(GIN_RE, content);
    routes_from_captures(path, content, caps.as_slice(), 1, 2, "gin", true)
}


// ---------------------------------------------------------------------------
// Django
// ---------------------------------------------------------------------------

/// The GET route of one Django `path(...)` / `url(...)` match.
pub open spec fn django_match(source: Seq<char>, content: Seq<char>, c: Seq<Option<GroupView>>) -> Seq<RouteView> {
    match (group_at(c, 0), group_at(c, 1)) {
        (Some(w), Some(g)) => seq![
            RouteView {
                method: HttpMethod::Get,
                path: spec_normalise_django_path(g.text),
                framework: "django"@,
                source,
                line: line_at(content, w.start),
            },
        ],
        _ => Seq::empty(),
    }
}

pub open spec fn django_match_fn(source: Seq<char>, content: Seq<char>) -> spec_fn(Seq<Option<GroupView>>) -> Seq<RouteView> {
    |c: Seq<Option<GroupView>>| django_match(source, content, c)
}

/// Django routes: `path(...)`/`re_path(...)` entries, then legacy `url(...)`
/// entries, of a `.py` urls module that is not a FastAPI file.
pub open spec fn spec_extract_django(source: Seq<char>, content: Seq<char>) -> Seq<RouteView> {
    if path_extension(source) != Some("py"@) {
        Seq::empty()
    } else if !seq_contains(content, "urlpatterns"@) {
        Seq::empty()
    } else if !seq_contains(content, "path("@) && !seq_contains(content, "re_path("@) && !seq_contains(content, "url("@) {
        Seq::empty()
    } else if seq_contains(content, "FastAPI"@) || seq_contains(content, "@app."@) || seq_contains(content, "@router."@) {
        Seq::empty()
    } else {
        flat_map(matches_of(DJANGO_PATH_RE@, content), django_match_fn(source, content))
            + flat_map(matches_of(DJANGO_URL_RE@, content), django_match_fn(source, content))
    }
}

/// The routes of a list of Django URL-pattern matches.
pub fn django_routes(source: &str, content: &str, caps: &[Captures]) -> (r: Vec<RouteInfo>)
    requires
        matches_wf(content@, captures_view(caps@)),
    ensures
        routes_view(r@) == flat_map(captures_view(caps@), django_match_fn(source@, content@)),
{
    let ghost cv = captures_view(caps@);
    let ghost f = django_match_fn(source@, content@);
    let mut out: Vec<RouteInfo> = Vec::new();
    let mut i: usize = 0;
    while i < caps.len()
        invariant
            i <= caps.len(),
            cv == captures_view(caps@),
            matches_wf(content@, cv),
            f == django_match_fn(source@, content@),
            routes_view(out@) == flat_map(cv.take(i as int), f),
        decreases caps.len() - i,
    {
        proof {
            lemma_flat_map_take(cv, f, i as int);
            assert(cv[i as int] == caps@[i as int]@);
            assert(match_wf(content@, cv[i as int]));
        }
        let c = &caps[i];
        let ghost before = routes_view(out@);
        match (group_of(c, 0), group_of(c, 1)) {
            (Some(w), Some(g)) => {
                proof {
                    assert(c@[0] == Some(w@));
                }
                let route_path = normalise_django_path(g.text.as_str());
                let line = line_number(content, w.start);
                let r = make_route(HttpMethod::Get, route_path.as_str(), "django", source, line);
                out.push(r);
                assert(routes_view(out@) =~= before.push(r@));
            },
            _ => {},
        }
        assert(routes_view(out@) =~= flat_map(cv.take(i as int), f) + f(cv[i as int]));
        i += 1;
    }
    proof {
        lemma_flat_map_all(cv, f);
    }
    out
}

pub fn extract_django(path: &str, content: &str) -> (r: Vec<RouteInfo>)
    ensures
        routes_view(r@) == spec_extract_django(path@, content@),
{
    if !has_extension(path, "py") {
        return Vec::new();
    }
    if !contains(content, "urlpatterns") {
        return Vec::new();
    }
    if !contains(content, "path(") && !contains(content, "re_path(") && !contains(content, "url(") {
        return Vec::new();
    }
    if contains(content, "FastAPI") || contains(content, "@app.") || contains(content, "@router.") {
        return Vec::new();
    }
    let a = find_matches(DJANGO_PATH_RE, content);
    let mut routes = django_routes(path, content, a.as_slice());
    let b = find_matches(DJANGO_URL_RE, content);
    let more = django_routes(path, content, b.as_slice());
    extend_routes(&mut routes, more);
    routes
}

// ---------------------------------------------------------------------------
// Flask
// ---------------------------------------------------------------------------

/// The routes of one `@x.route("/path", methods=[...])` match: one per
/// listed method, GET when no method is listed or none is recognised.
pub open spec fn flask_match(source: Seq<char>, content: Seq<char>, c: Seq<Option<GroupView>>) -> Seq<RouteView> {
    match (group_at(c, 0), group_at(c, 1)) {
        (Some(w), Some(p)) => {
            let line = line_at(content, w.start);
            let get = seq![RouteView { method: HttpMethod::Get, path: p.text, framework: "flask"@, source, line }];
            match group_at(c, 2) {
                Some(ms) => {
                    let rs = method_routes(source, matches_of(FLASK_METHOD_RE@, ms.text), 1, p.text, "flask"@, line, true);
                    if rs.len() > 0 { rs } else { get }
                },
                None => get,
            }
        },
        _ => Seq::empty(),
    }
}

pub open spec fn flask_match_fn(source: Seq<char>, content: Seq<char>) -> spec_fn(Seq<Option<GroupView>>) -> Seq<RouteView> {
    |c: Seq<Option<GroupView>>| flask_match(source, content, c)
}

/// Flask routes of a `.py` file that mentions flask and uses `.route(`.
pub open spec fn spec_extract_flask(source: Seq<char>, content: Seq<char>) -> Seq<RouteView> {
    if path_extension(source) != Some("py"@) {
        Seq::empty()
    } else if !seq_contains(content, "flask"@) && !seq_contains(content, "Flask"@) {
        Seq::empty()
    } else if !seq_contains(content, ".route("@) {
        Seq::empty()
    } else {
        flat_map(matches_of(FLASK_ROUTE_RE@, content), flask_match_fn(source, content))
    }
}

/// The routes of a list of Flask `.route(...)` matches.
pub fn flask_routes(source: &str, content: &str, caps: &[Captures]) -> (r: Vec<RouteInfo>)
    requires
        matches_wf(content@, captures_view(caps@)),
    ensures
        routes_view(r@) == flat_map(captures_view(caps@), flask_match_fn(source@, content@)),
{
    let ghost cv = captures_view(caps@);
    let ghost f = flask_match_fn(source@, content@);
    let mut out: Vec<RouteInfo> = Vec::new();
    let mut i: usize = 0;
    while i < caps.len()
        invariant
            i <= caps.len(),
            cv == captures_view(caps@),
            matches_wf(content@, cv),
            f == flask_match_fn(source@, content@),
            routes_view(out@) == flat_map(cv.take(i as int), f),
        decreases caps.len() - i,
    {
        proof {
            lemma_flat_map_take(cv, f, i as int);
            assert(cv[i as int] == caps@[i as int]@);
            assert(match_wf(content@, cv[i as int]));
        }
        let c = &caps[i];
        let ghost before = routes_view(out@);
        match (group_of(c, 0), group_of(c, 1)) {
            (Some(w), Some(p)) => {
                proof {
                    assert(c@[0] == Some(w@));
                }
                let line = line_number(content, w.start);
                let listed = match group_of(c, 2) {
                    Some(ms) => {
                        let inner = find_matches(FLASK_METHOD_RE, ms.text.as_str());
                        routes_for_methods(source, inner.as_slice(), 1, p.text.as_str(), "flask", line, true)
                    },
                    None => Vec::new(),
                };
                if listed.len() > 0 {
                    extend_routes(&mut out, listed);
                } else {
                    let r = make_route(HttpMethod::Get, p.text.as_str(), "flask", source, line);
                    out.push(r);
                    assert(routes_view(out@) =~= before.push(r@));
                }
            },
            _ => {},
        }
        assert(routes_view(out@) =~= flat_map(cv.take(i as int), f) + f(cv[i as int]));
        i += 1;
    }
    proof {
        lemma_flat_map_all(cv, f);
    }
    out
}

pub fn extract_flask(path: &str, content: &str) -> (r: Vec<RouteInfo>)
    ensures
        routes_view(r@) == spec_extract_flask(path@, content@),
{
    if !has_extension(path, "py") {
        return Vec::new();
    }
    if !contains(content, "flask") && !contains(content, "Flask") {
        return Vec::new();
    }
    if !contains(content, ".route(") {
        return Vec::new();
    }
    let caps = find_matches(FLASK_ROUTE_RE, content);
    flask_routes(path, content, caps.as_slice())
}

// ---------------------------------------------------------------------------
// Azure Functions
// ---------------------------------------------------------------------------

/// `/` followed by the route text of group 3 (empty where absent).
pub open spec fn azure_path(c: Seq<Option<GroupView>>) -> Seq<char> {
    "/"@ + group_text_or(c, 3, ""@)
}

/// The route of an `[HttpTrigger(AuthorizationLevel.X, "method", Route = "...")]`
/// match; the method is GET where none is given.
pub open spec fn azure_default_match(source: Seq<char>, content: Seq<char>, c: Seq<Option<GroupView>>) -> Seq<RouteView> {
    match parse_method(group_text_or(c, 2, "get"@)) {
        Some(m) => seq![
            RouteView { method: m, path: azure_path(c), framework: "azurefunction"@, source, line: line_at(content, match_start(c)) },
        ],
        None => Seq::empty(),
    }
}

pub open spec fn azure_default_match_fn(source: Seq<char>, content: Seq<char>) -> spec_fn(Seq<Option<GroupView>>) -> Seq<RouteView> {
    |c: Seq<Option<GroupView>>| azure_default_match(source, content, c)
}

/// The routes of an `[HttpTrigger(AuthorizationLevel.X, "get", "post", ...)]`
/// match: one per quoted method.
pub open spec fn azure_methods_match(source: Seq<char>, content: Seq<char>, c: Seq<Option<GroupView>>) -> Seq<RouteView> {
    match group_at(c, 2) {
        Some(blob) => method_routes(
            source,
            matches_of(AZURE_METHOD_ITEM_RE@, blob.text),
            1,
            azure_path(c),
            "azurefunction"@,
            line_at(content, match_start(c)),
            false,
        ),
        None => Seq::empty(),
    }
}

pub open spec fn azure_methods_match_fn(source: Seq<char>, content: Seq<char>) -> spec_fn(Seq<Option<GroupView>>) -> Seq<RouteView> {
    |c: Seq<Option<GroupView>>| azure_methods_match(source, content, c)
}

/// Azure Functions routes of a `.cs` file with `[HttpTrigger(` attributes.
pub open spec fn spec_extract_azurefunction(source: Seq<char>, content: Seq<char>) -> Seq<RouteView> {
    if path_extension(source) != Some("cs"@) {
        Seq::empty()
    } else if !seq_contains(content, "[HttpTrigger("@) {
        Seq::empty()
    } else {
        flat_map(matches_of(AZURE_DEFAULT_RE@, content), azure_default_match_fn(source, content))
            + flat_map(matches_of(AZURE_METHODS_RE@, content), azure_methods_match_fn(source, content))
    }
}

fn concat_slash(t: &str) -> (r: String)
    ensures
        r@ == "/"@ + t@,
{
    crate::text::concat("/", t)
}

/// The routes of a list of single-method `[HttpTrigger(...)]` matches.
pub fn azure_default_routes(source: &str, content: &str, caps: &[Captures]) -> (r: Vec<RouteInfo>)
    requires
        matches_wf(content@, captures_view(caps@)),
    ensures
        routes_view(r@) == flat_map(captures_view(caps@), azure_default_match_fn(source@, content@)),
{
    let ghost cv = captures_view(caps@);
    let ghost f = azure_default_match_fn(source@, content@);
    let mut out: Vec<RouteInfo> = Vec::new();
    let mut i: usize = 0;
    while i < caps.len()
        invariant
            i <= caps.len(),
            cv == captures_view(caps@),
            matches_wf(content@, cv),
            f == azure_default_match_fn(source@, content@),
            routes_view(out@) == flat_map(cv.take(i as int), f),
        decreases caps.len() - i,
    {
        proof {
            lemma_flat_map_take(cv, f, i as int);
            assert(cv[i as int] == caps@[i as int]@);
            lemma_match_start(content@, cv[i as int]);
        }
        let c = &caps[i];
        let ghost before = routes_view(out@);
        let offset = start_of(c);
        let method = text_or(c, 2, "get");
        let route = text_or(c, 3, "");
        match HttpMethod::try_from(method) {
            Ok(m) => {
                let p = concat_slash(route);
                let line = line_number(content, offset);
                let r = make_route(m, p.as_str(), "azurefunction", source, line);
                out.push(r);
                assert(routes_view(out@) =~= before.push(r@));
            },
            Err(_) => {},
        }
        assert(routes_view(out@) =~= flat_map(cv.take(i as int), f) + f(cv[i as int]));
        i += 1;
    }
    proof {
        lemma_flat_map_all(cv, f);
    }
    out
}

/// The routes of a list of multi-method `[HttpTrigger(...)]` matches.
pub fn azure_methods_routes(source: &str, content: &str, caps: &[Captures]) -> (r: Vec<RouteInfo>)
    requires
        matches_wf(content@, captures_view(caps@)),
    ensures
        routes_view(r@) == flat_map(captures_view(caps@), azure_methods_match_fn(source@, content@)),
{
    let ghost cv = captures_view(caps@);
    let ghost f = azure_methods_match_fn(source@, content@);
    let mut out: Vec<RouteInfo> = Vec::new();
    let mut i: usize = 0;
    while i < caps.len()
        invariant
            i <= caps.len(),
            cv == captures_view(caps@),
            matches_wf(content@, cv),
            f == azure_methods_match_fn(source@, content@),
            routes_view(out@) == flat_map(cv.take(i as int), f),
        decreases caps.len() - i,
    {
        proof {
            lemma_flat_map_take(cv, f, i as int);
            assert(cv[i as int] == caps@[i as int]@);
            lemma_match_start(content@, cv[i as int]);
        }
        let c = &caps[i];
        let offset = start_of(c);
        let route = text_or(c, 3, "");
        match group_of(c, 2) {
            Some(blob) => {
                let p = concat_slash(route);
                let line = line_number(content, offset);
                let inner = find_matches(AZURE_METHOD_ITEM_RE, blob.text.as_str());
                let found = routes_for_methods(source, inner.as_slice(), 1, p.as_str(), "azurefunction", line, false);
                extend_routes(&mut out, found);
            },
            None => {},
        }
        assert(routes_view(out@) =~= flat_map(cv.take(i as int), f) + f(cv[i as int]));
        i += 1;
    }
    proof {
        lemma_flat_map_all(cv, f);
    }
    out
}

pub fn extract_azurefunction(path: &str, content: &str) -> (r: Vec<RouteInfo>)
    ensures
        routes_view(r@) == spec_extract_azurefunction(path@, content@),
{
    if !has_extension(path, "cs") {
        return Vec::new();
    }
    if !contains(content, "[HttpTrigger(") {
        return Vec::new();
    }
    let a = find_matches(AZURE_DEFAULT_RE, content);
    let mut routes = azure_default_routes(path, content, a.as_slice());
    let b = find_matches(AZURE_METHODS_RE, content);
    let more = azure_methods_routes(path, content, b.as_slice());
    extend_routes(&mut routes, more);
    routes
}

// ---------------------------------------------------------------------------
// Nuxt
// ---------------------------------------------------------------------------

/// Whether a path lies below `server/api/`.
pub open spec fn nuxt_in_api(p: Seq<char>) -> bool {
    seq_contains(p, "/server/api/"@) || seq_contains(p, "\\server\\api\\"@)
}

/// Whether a path lies below `server/routes/`.
pub open spec fn nuxt_in_routes(p: Seq<char>) -> bool {
    seq_contains(p, "/server/routes/"@) || seq_contains(p, "\\server\\routes\\"@)
}

/// The Nuxt route of a JS/TS server file that exports an event handler.
pub open spec fn spec_extract_nuxt(source: Seq<char>, content: Seq<char>) -> Seq<RouteView> {
    let in_api = nuxt_in_api(source);
    if !in_api && !nuxt_in_routes(source) {
        Seq::empty()
    } else {
        match path_extension(source) {
            Some(e) => if e == "js"@ || e == "ts"@ || e == "mjs"@ || e == "mts"@ {
                if matches_of(NUXT_EXPORT_RE@, content).len() > 0 {
                    seq![
                        RouteView {
                            method: spec_nuxt_method_from_filename(source),
                            path: spec_nuxt_route_path(source, in_api),
                            framework: "nuxt"@,
                            source,
                            line: 1,
                        },
                    ]
                } else {
                    Seq::empty()
                }
            } else {
                Seq::empty()
            },
            None => Seq::empty(),
        }
    }
}

pub fn extract_nuxt(path: &str, content: &str) -> (r: Vec<RouteInfo>)
    ensures
        routes_view(r@) == spec_extract_nuxt(path@, content@),
{
    let in_api = contains(path, "/server/api/") || contains(path, "\\server\\api\\");
    let in_routes = contains(path, "/server/routes/") || contains(path, "\\server\\routes\\");
    if !in_api && !in_routes {
        return Vec::new();
    }
    let p = chars_of(path);
    match extension(p.as_slice()) {
        Some(e) => {
            let e = e.as_slice();
            if !(equals(e, "js") || equals(e, "ts") || equals(e, "mjs") || equals(e, "mts")) {
                return Vec::new();
            }
        },
        None => return Vec::new(),
    }
    let route_path = nuxt_route_path(path, in_api);
    let method = nuxt_method_from_filename(path);
    let found = find_matches(NUXT_EXPORT_RE, content);
    let mut out: Vec<RouteInfo> = Vec::new();
    if found.len() > 0 {
        let r = make_route(method, route_path.as_str(), "nuxt", path, 1);
        out.push(r);
        assert(routes_view(out@) =~= seq![r@]);
    } else {
        assert(routes_view(out@) =~= Seq::<RouteView>::empty());
    }
    out
}


// ---------------------------------------------------------------------------
// SvelteKit
// ---------------------------------------------------------------------------

/// The file name of a path, or the empty text.
pub open spec fn file_name_or_empty(p: Seq<char>) -> Seq<char> {
    match path_file_name(p) {
        Some(n) => n,
        None => ""@,
    }
}

fn file_name_text(path: &str) -> (r: String)
    ensures
        r@ == file_name_or_empty(path@),
{
    let p = chars_of(path);
    match file_name(p.as_slice()) {
        Some(n) => crate::text::string_of(n.as_slice()),
        None => string_from(""),
    }
}

/// A single GET route found at line 1.
pub open spec fn get_route_line_one(source: Seq<char>, path: Seq<char>, framework: Seq<char>) -> Seq<RouteView> {
    seq![RouteView { method: HttpMethod::Get, path, framework, source, line: 1 }]
}

/// SvelteKit routes of a file below `routes/`: `+page` files are GET
/// pages, `+server` files give one route per exported method handler.
pub open spec fn spec_extract_svelte_kit(source: Seq<char>, content: Seq<char>) -> Seq<RouteView> {
    let filename = file_name_or_empty(source);
    if !seq_contains(source, "/routes/"@) && !seq_contains(source, "\\routes\\"@) {
        Seq::empty()
    } else {
        let route_path = match spec_sveltekit_route_path(source) {
            Some(r) => r,
            None => "/"@,
        };
        if filename == "+page.svelte"@ || filename == "+page.ts"@ || filename == "+page.js"@ {
            get_route_line_one(source, route_path, "sveltekit"@)
        } else if filename == "+server.ts"@ || filename == "+server.js"@ {
            fixed_path_routes(source, content, matches_of(EXPORTED_METHOD_RE@, content), 1, route_path, "sveltekit"@, true)
        } else {
            Seq::empty()
        }
    }
}

pub fn extract_svelte_kit(path: &str, content: &str) -> (r: Vec<RouteInfo>)
    ensures
        routes_view(r@) == spec_extract_svelte_kit(path@, content@),
{
    let filename = file_name_text(path);
    let filename = filename.as_str();
    if !contains(path, "/routes/") && !contains(path, "\\routes\\") {
        return Vec::new();
    }
    let route_path = match sveltekit_route_path(path) {
        Some(r) => r,
        None => string_from("/"),
    };
    let fv = chars_of(filename);
    let fv = fv.as_slice();
    if equals(fv, "+page.svelte") || equals(fv, "+page.ts") || equals(fv, "+page.js") {
        let mut out: Vec<RouteInfo> = Vec::new();
        let r = make_route(HttpMethod::Get, route_path.as_str(), "sveltekit", path, 1);
        out.push(r);
        assert(routes_view(out@) =~= seq![r@]);
        out
    } else if equals(fv, "+server.ts") || equals(fv, "+server.js") {
        let caps = find_matches(EXPORTED_METHOD_RE, content);
        routes_with_path(path, content, caps.as_slice(), 1, route_path.as_str(), "sveltekit", true)
    } else {
        let out: Vec<RouteInfo> = Vec::new();
        assert(routes_view(out@) =~= Seq::<RouteView>::empty());
        out
    }
}

// ---------------------------------------------------------------------------
// Next.js
// ---------------------------------------------------------------------------

/// Whether a file name is a Next.js App Router page file.
pub open spec fn is_next_page_file(f: Seq<char>) -> bool {
    f == "page.tsx"@ || f == "page.jsx"@ || f == "page.ts"@ || f == "page.js"@
}

/// Whether a file name is a Next.js App Router route-handler file.
pub open spec fn is_next_route_file(f: Seq<char>) -> bool {
    f == "route.ts"@ || f == "route.js"@ || f == "route.tsx"@ || f == "route.jsx"@
}

/// Whether a file name is one of the special Pages Router files.
pub open spec fn is_next_special_file(f: Seq<char>) -> bool {
    f == "_app.tsx"@ || f == "_app.jsx"@ || f == "_app.js"@ || f == "_app.ts"@ || f == "_document.tsx"@
        || f == "_document.jsx"@ || f == "_document.js"@ || f == "_document.ts"@ || f == "_error.tsx"@
        || f == "_error.jsx"@ || f == "_error.js"@ || f == "_error.ts"@
}

/// Routes of the given matches, or the single GET route at line 1 when they give none.
pub open spec fn or_get(routes: Seq<RouteView>, source: Seq<char>, path: Seq<char>) -> Seq<RouteView> {
    if routes.len() > 0 {
        routes
    } else {
        get_route_line_one(source, path, "next.js"@)
    }
}

/// Routes of an App Router page file: one per exported method handler, a
/// GET page when there is none.
pub open spec fn next_page_routes(source: Seq<char>, content: Seq<char>) -> Seq<RouteView> {
    if is_next_page_file(file_name_or_empty(source)) {
        match spec_nextjs_app_path(source) {
            Some(rp) => or_get(
                fixed_path_routes(source, content, matches_of(EXPORTED_METHOD_RE@, content), 1, rp, "next.js"@, true),
                source,
                rp,
            ),
            None => Seq::empty(),
        }
    } else {
        Seq::empty()
    }
}

/// Routes of an App Router route-handler file: one per exported method handler.
pub open spec fn next_handler_routes(source: Seq<char>, content: Seq<char>) -> Seq<RouteView> {
    if is_next_route_file(file_name_or_empty(source)) {
        match spec_nextjs_app_path(source) {
            Some(rp) => fixed_path_routes(source, content, matches_of(EXPORTED_METHOD_RE@, content), 1, rp, "next.js"@, true),
            None => Seq::empty(),
        }
    } else {
        Seq::empty()
    }
}

/// Routes of a Pages Router file: for an API `handler`, one per
/// `req.method` comparison (GET when there is none); otherwise a GET page.
pub open spec fn next_pages_routes(source: Seq<char>, content: Seq<char>) -> Seq<RouteView> {
    if seq_contains(source, "/pages/"@) || seq_contains(source, "\\pages\\"@) {
        if !is_next_special_file(file_name_or_empty(source)) {
            match spec_nextjs_pages_path(source) {
                Some(rp) => if matches_of(NEXT_API_RE@, content).len() > 0 {
                    or_get(
                        fixed_path_routes(source, content, matches_of(NEXT_REQ_METHOD_RE@, content), 1, rp, "next.js"@, true),
                        source,
                        rp,
                    )
                } else {
                    get_route_line_one(source, rp, "next.js"@)
                },
                None => Seq::empty(),
            }
        } else {
            Seq::empty()
        }
    } else {
        Seq::empty()
    }
}

/// Next.js routes: App Router pages, then App Router handlers, then Pages Router files.
pub open spec fn spec_extract_nextjs(source: Seq<char>, content: Seq<char>) -> Seq<RouteView> {
    next_page_routes(source, content) + next_handler_routes(source, content) + next_pages_routes(source, content)
}

fn single_get(source: &str, path: &str, framework: &str) -> (r: Vec<RouteInfo>)
    ensures
        routes_view(r@) == get_route_line_one(source@, path@, framework@),
{
    let mut out: Vec<RouteInfo> = Vec::new();
    let r = make_route(HttpMethod::Get, path, framework, source, 1);
    out.push(r);
    assert(routes_view(out@) =~= seq![r@]);
    out
}

fn empty_routes() -> (r: Vec<RouteInfo>)
    ensures
        routes_view(r@) == Seq::<RouteView>::empty(),
{
    let out: Vec<RouteInfo> = Vec::new();
    assert(routes_view(out@) =~= Seq::<RouteView>::empty());
    out
}

pub fn extract_nextjs(path: &str, content: &str) -> (r: Vec<RouteInfo>)
    ensures
        routes_view(r@) == spec_extract_nextjs(path@, content@),
{
    let filename = file_name_text(path);
    let fv = chars_of(filename.as_str());
    let fv = fv.as_slice();
    let mut routes = empty_routes();

    if equals(fv, "page.tsx") || equals(fv, "page.jsx") || equals(fv, "page.ts") || equals(fv, "page.js") {
        if let Some(rp) = nextjs_app_path(path) {
            let caps = find_matches(EXPORTED_METHOD_RE, content);
            let found = routes_with_path(path, content, caps.as_slice(), 1, rp.as_str(), "next.js", true);
            if found.len() > 0 {
                extend_routes(&mut routes, found);
            } else {
                extend_routes(&mut routes, single_get(path, rp.as_str(), "next.js"));
            }
        }
    }
    assert(routes_view(routes@) =~= next_page_routes(path@, content@));

    if equals(fv, "route.ts") || equals(fv, "route.js") || equals(fv, "route.tsx") || equals(fv, "route.jsx") {
        if let Some(rp) = nextjs_app_path(path) {
            let caps = find_matches(EXPORTED_METHOD_RE, content);
            let found = routes_with_path(path, content, caps.as_slice(), 1, rp.as_str(), "next.js", true);
            extend_routes(&mut routes, found);
        }
    }
    assert(routes_view(routes@) =~= next_page_routes(path@, content@) + next_handler_routes(path@, content@));

    if contains(path, "/pages/") || contains(path, "\\pages\\") {
        if !(equals(fv, "_app.tsx") || equals(fv, "_app.jsx") || equals(fv, "_app.js") || equals(fv, "_app.ts")
            || equals(fv, "_document.tsx") || equals(fv, "_document.jsx") || equals(fv, "_document.js")
            || equals(fv, "_document.ts") || equals(fv, "_error.tsx") || equals(fv, "_error.jsx")
            || equals(fv, "_error.js") || equals(fv, "_error.ts")) {
            if let Some(rp) = nextjs_pages_path(path) {
                let api = find_matches(NEXT_API_RE, content);
                if api.len() > 0 {
                    let caps = find_matches(NEXT_REQ_METHOD_RE, content);
                    let found = routes_with_path(path, content, caps.as_slice(), 1, rp.as_str(), "next.js", true);
                    if found.len() > 0 {
                        extend_routes(&mut routes, found);
                    } else {
                        extend_routes(&mut routes, single_get(path, rp.as_str(), "next.js"));
                    }
                } else {
                    extend_routes(&mut routes, single_get(path, rp.as_str(), "next.js"));
                }
            }
        }
    }
    routes
}


/// The end of the whole match (0 where absent).
pub open spec fn match_end(c: Seq<Option<GroupView>>) -> int {
    match group_at(c, 0) {
        Some(g) => g.end,
        None => 0,
    }
}

fn end_of(c: &Captures) -> (r: usize)
    ensures
        r == match_end(c@),
{
    match group_of(c, 0) {
        Some(g) => g.end,
        None => 0,
    }
}

/// The end of the whole match lies within the content on a character boundary.
proof fn lemma_match_end(content: Seq<char>, c: Seq<Option<GroupView>>)
    requires
        match_wf(content, c),
    ensures
        0 <= match_start(c) <= match_end(c) <= crate::utf8len::utf8_len(content),
        is_char_boundary(encode_utf8(content), match_end(c)),
{
    assert(c[0] is Some);
}

/// The GET routes of the object-literal `path:` entries in the block of
/// `span` bytes after an anchor match; `None` where the block or a line
/// offset ends inside a character.
pub open spec fn anchored_routes(
    source: Seq<char>,
    content: Seq<char>,
    anchor: Seq<Option<GroupView>>,
    span: int,
    path_re: Seq<char>,
    framework: Seq<char>,
    angular: bool,
) -> Option<Seq<RouteView>> {
    match window(content, match_end(anchor), span) {
        None => None,
        Some(block) => opt_flat_map(
            matches_of(path_re, block),
            object_route_fn(source, content, match_start(anchor), framework, angular),
        ),
    }
}

fn anchored_routes_exec(
    source: &str,
    content: &str,
    anchor: &Captures,
    span: usize,
    path_re: &str,
    framework: &str,
    angular: bool,
) -> (r: Option<Vec<RouteInfo>>)
    requires
        match_wf(content@, anchor@),
        span <= 65536,
    ensures
        r matches Some(v) ==> anchored_routes(source@, content@, anchor@, span as int, path_re@, framework@, angular) == Some(routes_view(v@)),
        r is None ==> anchored_routes(source@, content@, anchor@, span as int, path_re@, framework@, angular) is None,
{
    proof {
        lemma_match_end(content@, anchor@);
    }
    let block = match window_of(content, end_of(anchor), span) {
        Some(b) => b,
        None => return None,
    };
    let caps = find_matches(path_re, block);
    object_routes(source, content, start_of(anchor), caps.as_slice(), framework, angular)
}

/// The GET route of a JSX `<Route path="...">` match.
pub open spec fn jsx_routes(source: Seq<char>, content: Seq<char>) -> Seq<RouteView> {
    fixed_method_routes(source, content, matches_of(REACT_JSX_RE@, content), "react-router"@)
}

/// GET routes whose path is group 1, found at the match start.
pub open spec fn fixed_method_routes(
    source: Seq<char>,
    content: Seq<char>,
    caps: Seq<Seq<Option<GroupView>>>,
    framework: Seq<char>,
) -> Seq<RouteView> {
    flat_map(caps, get_path_route_fn(source, content, framework))
}

pub open spec fn get_path_route(source: Seq<char>, content: Seq<char>, c: Seq<Option<GroupView>>, framework: Seq<char>) -> Seq<RouteView> {
    match (group_at(c, 0), group_at(c, 1)) {
        (Some(w), Some(g)) => seq![route_at(source, content, HttpMethod::Get, g.text, framework, w.start)],
        _ => Seq::empty(),
    }
}

pub open spec fn get_path_route_fn(source: Seq<char>, content: Seq<char>, framework: Seq<char>) -> spec_fn(Seq<Option<GroupView>>) -> Seq<RouteView> {
    |c: Seq<Option<GroupView>>| get_path_route(source, content, c, framework)
}

/// GET routes whose path is group 1 of each match.
pub fn get_path_routes(source: &str, content: &str, caps: &[Captures], framework: &str) -> (r: Vec<RouteInfo>)
    requires
        matches_wf(content@, captures_view(caps@)),
    ensures
        routes_view(r@) == fixed_method_routes(source@, content@, captures_view(caps@), framework@),
{
    let ghost cv = captures_view(caps@);
    let ghost f = get_path_route_fn(source@, content@, framework@);
    let mut out: Vec<RouteInfo> = Vec::new();
    let mut i: usize = 0;
    while i < caps.len()
        invariant
            i <= caps.len(),
            cv == captures_view(caps@),
            matches_wf(content@, cv),
            f == get_path_route_fn(source@, content@, framework@),
            routes_view(out@) == flat_map(cv.take(i as int), f),
        decreases caps.len() - i,
    {
        proof {
            lemma_flat_map_take(cv, f, i as int);
            assert(cv[i as int] == caps@[i as int]@);
            assert(match_wf(content@, cv[i as int]));
        }
        let c = &caps[i];
        let ghost before = routes_view(out@);
        match (group_of(c, 0), group_of(c, 1)) {
            (Some(w), Some(g)) => {
                proof {
                    assert(c@[0] == Some(w@));
                }
                let line = line_number(content, w.start);
                let r = make_route(HttpMethod::Get, g.text.as_str(), framework, source, line);
                out.push(r);
                assert(routes_view(out@) =~= before.push(r@));
            },
            _ => {},
        }
        assert(routes_view(out@) =~= flat_map(cv.take(i as int), f) + f(cv[i as int]));
        i += 1;
    }
    proof {
        lemma_flat_map_all(cv, f);
    }
    out
}

// ---------------------------------------------------------------------------
// react-router
// ---------------------------------------------------------------------------

/// react-router routes: JSX `<Route path=...>` elements, then object
/// `path:` entries within 8192 bytes after the first
/// `create...Router([`; `None` where that byte window would end inside
/// a character.
pub open spec fn spec_extract_react_router(source: Seq<char>, content: Seq<char>) -> Option<Seq<RouteView>> {
    if !seq_contains(content, "react-router"@) && !seq_contains(content, "react-router-dom"@) {
        Some(Seq::empty())
    } else {
        let jsx = jsx_routes(source, content);
        let factory = matches_of(REACT_FACTORY_RE@, content);
        if factory.len() == 0 {
            Some(jsx)
        } else {
            match anchored_routes(source, content, factory[0], 8192, OBJECT_PATH_RE@, "react-router"@, false) {
                None => None,
                Some(objs) => Some(jsx + objs),
            }
        }
    }
}

pub fn extract_react_router(path: &str, content: &str) -> (r: Option<Vec<RouteInfo>>)
    ensures
        r matches Some(v) ==> spec_extract_react_router(path@, content@) == Some(routes_view(v@)),
        r is None ==> spec_extract_react_router(path@, content@) is None,
{
    if !contains(content, "react-router") && !contains(content, "react-router-dom") {
        return Some(empty_routes());
    }
    let jsx = find_matches(REACT_JSX_RE, content);
    let mut routes = get_path_routes(path, content, jsx.as_slice(), "react-router");
    let factory = find_matches(REACT_FACTORY_RE, content);
    if factory.len() == 0 {
        return Some(routes);
    }
    proof {
        assert(captures_view(factory@)[0] == factory@[0]@);
    }
    match anchored_routes_exec(path, content, &factory[0], 8192, OBJECT_PATH_RE, "react-router", false) {
        Some(objs) => {
            extend_routes(&mut routes, objs);
            Some(routes)
        },
        None => None,
    }
}

// ---------------------------------------------------------------------------
// vue-router
// ---------------------------------------------------------------------------

/// vue-router routes: object `path:` entries within 16384 bytes after the
/// first routes array; `None` where that byte window would end inside
/// a character.
pub open spec fn spec_extract_vue_router(source: Seq<char>, content: Seq<char>) -> Option<Seq<RouteView>> {
    if !seq_contains(content, "vue-router"@) && !seq_contains(content, "createRouter"@) && !seq_contains(content, "VueRouter"@) {
        Some(Seq::empty())
    } else {
        let anchors = matches_of(VUE_ANCHOR_RE@, content);
        if anchors.len() == 0 {
            Some(Seq::empty())
        } else {
            anchored_routes(source, content, anchors[0], 16384, OBJECT_PATH_RE@, "vue-router"@, false)
        }
    }
}

pub fn extract_vue_router(path: &str, content: &str) -> (r: Option<Vec<RouteInfo>>)
    ensures
        r matches Some(v) ==> spec_extract_vue_router(path@, content@) == Some(routes_view(v@)),
        r is None ==> spec_extract_vue_router(path@, content@) is None,
{
    if !contains(content, "vue-router") && !contains(content, "createRouter") && !contains(content, "VueRouter") {
        return Some(empty_routes());
    }
    let anchors = find_matches(VUE_ANCHOR_RE, content);
    if anchors.len() == 0 {
        return Some(empty_routes());
    }
    proof {
        assert(captures_view(anchors@)[0] == anchors@[0]@);
    }
    anchored_routes_exec(path, content, &anchors[0], 16384, OBJECT_PATH_RE, "vue-router", false)
}

// ---------------------------------------------------------------------------
// Angular
// ---------------------------------------------------------------------------

/// Angular routes: `path:` entries within 16384 bytes after a typed
/// `Routes` array (else a `forRoot`/`forChild` call), `**` skipped and every
/// path rooted with `/`.
pub open spec fn spec_extract_angular(source: Seq<char>, content: Seq<char>) -> Option<Seq<RouteView>> {
    if !seq_contains(content, "RouterModule"@) && !seq_contains(content, "Routes"@) && !seq_contains(content, "provideRouter"@) {
        Some(Seq::empty())
    } else {
        let typed = matches_of(ANGULAR_ANCHOR_RE@, content);
        let fallback = matches_of(ANGULAR_FALLBACK_RE@, content);
        if typed.len() > 0 {
            anchored_routes(source, content, typed[0], 16384, ANGULAR_PATH_RE@, "angular"@, true)
        } else if fallback.len() > 0 {
            anchored_routes(source, content, fallback[0], 16384, ANGULAR_PATH_RE@, "angular"@, true)
        } else {
            Some(Seq::empty())
        }
    }
}

pub fn extract_angular(path: &str, content: &str) -> (r: Option<Vec<RouteInfo>>)
    ensures
        r matches Some(v) ==> spec_extract_angular(path@, content@) == Some(routes_view(v@)),
        r is None ==> spec_extract_angular(path@, content@) is None,
{
    if !contains(content, "RouterModule") && !contains(content, "Routes") && !contains(content, "provideRouter") {
        return Some(empty_routes());
    }
    let typed = find_matches(ANGULAR_ANCHOR_RE, content);
    if typed.len() > 0 {
        proof {
            assert(captures_view(typed@)[0] == typed@[0]@);
        }
        return anchored_routes_exec(path, content, &typed[0], 16384, ANGULAR_PATH_RE, "angular", true);
    }
    let fallback = find_matches(ANGULAR_FALLBACK_RE, content);
    if fallback.len() > 0 {
        proof {
            assert(captures_view(fallback@)[0] == fallback@[0]@);
        }
        return anchored_routes_exec(path, content, &fallback[0], 16384, ANGULAR_PATH_RE, "angular", true);
    }
    Some(empty_routes())
}


// ---------------------------------------------------------------------------
// Spring / JAX-RS
// ---------------------------------------------------------------------------

/// The route of one `@RequestMapping(...)` match: the path is the first
/// `value = "..."` inside it, the method the first `RequestMethod.X` (GET
/// where none is given); none without a value.
pub open spec fn request_mapping_match(source: Seq<char>, content: Seq<char>, c: Seq<Option<GroupView>>) -> Seq<RouteView> {
    match (group_at(c, 0), group_at(c, 1)) {
        (Some(w), Some(b)) => {
            let values = matches_of(SPRING_VALUE_RE@, b.text);
            if values.len() == 0 {
                Seq::empty()
            } else {
                match group_at(values[0], 1) {
                    None => Seq::empty(),
                    Some(v) => {
                        let methods = matches_of(SPRING_METHOD_RE@, b.text);
                        if methods.len() > 0 {
                            match group_at(methods[0], 1) {
                                Some(m) => match crate::scanner::method_of(m.text, true) {
                                    Some(mm) => seq![route_at(source, content, mm, v.text, "spring"@, w.start)],
                                    None => Seq::empty(),
                                },
                                None => Seq::empty(),
                            }
                        } else {
                            seq![route_at(source, content, HttpMethod::Get, v.text, "spring"@, w.start)]
                        }
                    },
                }
            }
        },
        _ => Seq::empty(),
    }
}

pub open spec fn request_mapping_match_fn(source: Seq<char>, content: Seq<char>) -> spec_fn(Seq<Option<GroupView>>) -> Seq<RouteView> {
    |c: Seq<Option<GroupView>>| request_mapping_match(source, content, c)
}

/// The route of one JAX-RS `@Path("...")` match: the method is the first
/// `@GET`-style annotation within 500 bytes after it; `None` where that
/// window ends inside a character.
pub open spec fn jaxrs_match(source: Seq<char>, content: Seq<char>, c: Seq<Option<GroupView>>) -> Option<Seq<RouteView>> {
    match group_at(c, 1) {
        None => Some(Seq::empty()),
        Some(p) => match window(content, match_end(c), 500) {
            None => None,
            Some(w) => {
                let verbs = matches_of(JAXRS_VERB_RE@, w);
                if verbs.len() > 0 {
                    match group_at(verbs[0], 1) {
                        Some(v) => match crate::scanner::method_of(v.text, true) {
                            Some(m) => Some(seq![route_at(source, content, m, p.text, "spring"@, match_start(c))]),
                            None => Some(Seq::empty()),
                        },
                        None => Some(Seq::empty()),
                    }
                } else {
                    Some(Seq::empty())
                }
            },
        },
    }
}

pub open spec fn jaxrs_match_fn(source: Seq<char>, content: Seq<char>) -> spec_fn(Seq<Option<GroupView>>) -> Option<Seq<RouteView>> {
    |c: Seq<Option<GroupView>>| jaxrs_match(source, content, c)
}

/// Spring routes of a `.java` file: shorthand mappings, then
/// `@RequestMapping`s, then JAX-RS `@Path` + verb pairs.
pub open spec fn spec_extract_spring(source: Seq<char>, content: Seq<char>) -> Option<Seq<RouteView>> {
    if path_extension(source) != Some("java"@) {
        Some(Seq::empty())
    } else if !(seq_contains(content, "Mapping("@) || seq_contains(content, "RequestMapping"@)) && !(seq_contains(
        content,
        "@GET"@,
    ) || seq_contains(content, "@POST"@) || seq_contains(content, "@Path"@)) {
        Some(Seq::empty())
    } else {
        let shorthand = simple_routes(source, content, matches_of(SPRING_SHORTHAND_RE@, content), 1, 2, "spring"@, true);
        let mapped = flat_map(matches_of(SPRING_REQUEST_MAPPING_RE@, content), request_mapping_match_fn(source, content));
        match opt_flat_map(matches_of(JAXRS_PATH_RE@, content), jaxrs_match_fn(source, content)) {
            None => None,
            Some(j) => Some(shorthand + mapped + j),
        }
    }
}

/// The routes of a list of `@RequestMapping(...)` matches.
pub fn request_mapping_routes(source: &str, content: &str, caps: &[Captures]) -> (r: Vec<RouteInfo>)
    requires
        matches_wf(content@, captures_view(caps@)),
    ensures
        routes_view(r@) == flat_map(captures_view(caps@), request_mapping_match_fn(source@, content@)),
{
    let ghost cv = captures_view(caps@);
    let ghost f = request_mapping_match_fn(source@, content@);
    let mut out: Vec<RouteInfo> = Vec::new();
    let mut i: usize = 0;
    while i < caps.len()
        invariant
            i <= caps.len(),
            cv == captures_view(caps@),
            matches_wf(content@, cv),
            f == request_mapping_match_fn(source@, content@),
            routes_view(out@) == flat_map(cv.take(i as int), f),
        decreases caps.len() - i,
    {
        proof {
            lemma_flat_map_take(cv, f, i as int);
            assert(cv[i as int] == caps@[i as int]@);
            assert(match_wf(content@, cv[i as int]));
        }
        let c = &caps[i];
        let ghost before = routes_view(out@);
        match (group_of(c, 0), group_of(c, 1)) {
            (Some(w), Some(b)) => {
                proof {
                    assert(c@[0] == Some(w@));
                }
                let values = find_matches(SPRING_VALUE_RE, b.text.as_str());
                if values.len() > 0 {
                    proof {
                        assert(captures_view(values@)[0] == values@[0]@);
                    }
                    match group_of(&values[0], 1) {
                        Some(v) => {
                            let methods = find_matches(SPRING_METHOD_RE, b.text.as_str());
                            if methods.len() > 0 {
                                proof {
                                    assert(captures_view(methods@)[0] == methods@[0]@);
                                }
                                match group_of(&methods[0], 1) {
                                    Some(m) => match crate::scanner::method_from_text(m.text.as_str(), true) {
                                        Some(mm) => {
                                            let line = line_number(content, w.start);
                                            let r = make_route(mm, v.text.as_str(), "spring", source, line);
                                            out.push(r);
                                            assert(routes_view(out@) =~= before.push(r@));
                                        },
                                        None => {},
                                    },
                                    None => {},
                                }
                            } else {
                                let line = line_number(content, w.start);
                                let r = make_route(HttpMethod::Get, v.text.as_str(), "spring", source, line);
                                out.push(r);
                                assert(routes_view(out@) =~= before.push(r@));
                            }
                        },
                        None => {},
                    }
                }
            },
            _ => {},
        }
        assert(routes_view(out@) =~= flat_map(cv.take(i as int), f) + f(cv[i as int]));
        i += 1;
    }
    proof {
        lemma_flat_map_all(cv, f);
    }
    out
}

/// The routes of a list of JAX-RS `@Path("...")` matches.
pub fn jaxrs_routes(source: &str, content: &str, caps: &[Captures]) -> (r: Option<Vec<RouteInfo>>)
    requires
        matches_wf(content@, captures_view(caps@)),
    ensures
        r matches Some(v) ==> opt_flat_map(captures_view(caps@), jaxrs_match_fn(source@, content@)) == Some(routes_view(v@)),
        r is None ==> opt_flat_map(captures_view(caps@), jaxrs_match_fn(source@, content@)) is None,
{
    let ghost cv = captures_view(caps@);
    let ghost f = jaxrs_match_fn(source@, content@);
    let mut out: Vec<RouteInfo> = Vec::new();
    let mut i: usize = 0;
    while i < caps.len()
        invariant
            i <= caps.len(),
            cv == captures_view(caps@),
            matches_wf(content@, cv),
            f == jaxrs_match_fn(source@, content@),
            opt_flat_map(cv.take(i as int), f) == Some(routes_view(out@)),
        decreases caps.len() - i,
    {
        proof {
            lemma_opt_flat_map_take(cv, f, i as int);
            assert(cv[i as int] == caps@[i as int]@);
            lemma_match_end(content@, cv[i as int]);
        }
        let c = &caps[i];
        let ghost before = routes_view(out@);
        match group_of(c, 1) {
            None => {},
            Some(p) => {
                match window_of(content, end_of(c), 500) {
                    None => {
                        proof {
                            lemma_opt_flat_map_none(cv, f, i + 1, cv.len() as int);
                            assert(cv.take(cv.len() as int) =~= cv);
                        }
                        return None;
                    },
                    Some(w) => {
                        let verbs = find_matches(JAXRS_VERB_RE, w);
                        if verbs.len() > 0 {
                            proof {
                                assert(captures_view(verbs@)[0] == verbs@[0]@);
                            }
                            match group_of(&verbs[0], 1) {
                                Some(v) => match crate::scanner::method_from_text(v.text.as_str(), true) {
                                    Some(m) => {
                                        let line = line_number(content, start_of(c));
                                        let r = make_route(m, p.text.as_str(), "spring", source, line);
                                        out.push(r);
                                        assert(routes_view(out@) =~= before.push(r@));
                                    },
                                    None => {},
                                },
                                None => {},
                            }
                        }
                    },
                }
            },
        }
        assert(opt_flat_map(cv.take(i + 1), f) == Some(routes_view(out@)));
        i += 1;
    }
    assert(cv.take(cv.len() as int) =~= cv);
    Some(out)
}

pub fn extract_spring(path: &str, content: &str) -> (r: Option<Vec<RouteInfo>>)
    ensures
        r matches Some(v) ==> spec_extract_spring(path@, content@) == Some(routes_view(v@)),
        r is None ==> spec_extract_spring(path@, content@) is None,
{
    if !has_extension(path, "java") {
        return Some(empty_routes());
    }
    let has_spring = contains(content, "Mapping(") || contains(content, "RequestMapping");
    let has_jaxrs = contains(content, "@GET") || contains(content, "@POST") || contains(content, "@Path");
    if !has_spring && !has_jaxrs {
        return Some(empty_routes());
    }
    let a = find_matches(SPRING_SHORTHAND_RE, content);
    let mut routes = routes_from_captures(path, content, a.as_slice(), 1, 2, "spring", true);
    let b = find_matches(SPRING_REQUEST_MAPPING_RE, content);
    let mapped = request_mapping_routes(path, content, b.as_slice());
    extend_routes(&mut routes, mapped);
    let c = find_matches(JAXRS_PATH_RE, content);
    match jaxrs_routes(path, content, c.as_slice()) {
        Some(j) => {
            extend_routes(&mut routes, j);
            Some(routes)
        },
        None => None,
    }
}

// ---------------------------------------------------------------------------
// ASP.NET Core
// ---------------------------------------------------------------------------

/// `{param}` and `{param:constraint}` written as `:param`.
pub open spec fn aspnet_params(p: Seq<char>) -> Seq<char> {
    replaced(ASPNET_PARAM_RE@, p, ":$1"@)
}

/// The route of a bare `[HttpGet]`-style attribute: the path is the last
/// `[Route("...")]` within the 2000 bytes before it (none without one);
/// `None` where that window starts inside a character.
pub open spec fn aspnet_bare_match(source: Seq<char>, content: Seq<char>, c: Seq<Option<GroupView>>) -> Option<Seq<RouteView>> {
    let offset = match_start(c);
    let look_start = if offset >= 2000 { offset - 2000 } else { 0 };
    if !is_char_boundary(encode_utf8(content), look_start) {
        None
    } else {
        let w = crate::utf8len::byte_text(content, look_start, offset);
        let attrs = matches_of(ASPNET_ROUTE_ATTR_RE@, w);
        if attrs.len() == 0 {
            Some(Seq::empty())
        } else {
            match (group_at(attrs.last(), 1), group_at(c, 1)) {
                (Some(rp), Some(m)) => match crate::scanner::method_of(m.text, true) {
                    Some(mm) => {
                        let p = aspnet_params(rp.text);
                        let p = if crate::text::has_prefix(p, "/"@) { p } else { "/"@ + p };
                        Some(seq![route_at(source, content, mm, p, "aspnet"@, offset)])
                    },
                    None => Some(Seq::empty()),
                },
                _ => Some(Seq::empty()),
            }
        }
    }
}

pub open spec fn aspnet_bare_match_fn(source: Seq<char>, content: Seq<char>) -> spec_fn(Seq<Option<GroupView>>) -> Option<Seq<RouteView>> {
    |c: Seq<Option<GroupView>>| aspnet_bare_match(source, content, c)
}

/// A route with its path rewritten by `aspnet_params`.
pub open spec fn with_aspnet_params(r: RouteView) -> RouteView {
    RouteView { path: aspnet_params(r.path), ..r }
}

/// ASP.NET routes of a `.cs` file: minimal API `MapGet(...)` calls,
/// `[HttpGet("...")]` attributes, then bare attributes; every path then has
/// its `{param}`s written as `:param`.
pub open spec fn spec_extract_aspnet(source: Seq<char>, content: Seq<char>) -> Option<Seq<RouteView>> {
    if path_extension(source) != Some("cs"@) {
        Some(Seq::empty())
    } else if !(seq_contains(content, "MapGet("@) || seq_contains(content, "MapPost("@) || seq_contains(content, "MapPut("@)
        || seq_contains(content, "MapPatch("@) || seq_contains(content, "MapDelete("@)) && !(seq_contains(
        content,
        "[HttpGet"@,
    ) || seq_contains(content, "[HttpPost"@) || seq_contains(content, "[HttpPut"@) || seq_contains(content, "[HttpPatch"@)
        || seq_contains(content, "[HttpDelete"@)) {
        Some(Seq::empty())
    } else {
        let minimal = simple_routes(source, content, matches_of(ASPNET_MINIMAL_RE@, content), 1, 2, "aspnet"@, true);
        let attrs = simple_routes(source, content, matches_of(ASPNET_ATTR_PATH_RE@, content), 1, 2, "aspnet"@, true);
        match opt_flat_map(matches_of(ASPNET_ATTR_BARE_RE@, content), aspnet_bare_match_fn(source, content)) {
            None => None,
            Some(b) => Some((minimal + attrs + b).map_values(|r: RouteView| with_aspnet_params(r))),
        }
    }
}

/// The routes of a list of bare `[HttpGet]`-style attribute matches.
pub fn aspnet_bare_routes(source: &str, content: &str, caps: &[Captures]) -> (r: Option<Vec<RouteInfo>>)
    requires
        matches_wf(content@, captures_view(caps@)),
    ensures
        r matches Some(v) ==> opt_flat_map(captures_view(caps@), aspnet_bare_match_fn(source@, content@)) == Some(routes_view(v@)),
        r is None ==> opt_flat_map(captures_view(caps@), aspnet_bare_match_fn(source@, content@)) is None,
{
    let ghost cv = captures_view(caps@);
    let ghost f = aspnet_bare_match_fn(source@, content@);
    let mut out: Vec<RouteInfo> = Vec::new();
    let mut i: usize = 0;
    while i < caps.len()
        invariant
            i <= caps.len(),
            cv == captures_view(caps@),
            matches_wf(content@, cv),
            f == aspnet_bare_match_fn(source@, content@),
            opt_flat_map(cv.take(i as int), f) == Some(routes_view(out@)),
        decreases caps.len() - i,
    {
        proof {
            lemma_opt_flat_map_take(cv, f, i as int);
            assert(cv[i as int] == caps@[i as int]@);
            lemma_match_start(content@, cv[i as int]);
        }
        let c = &caps[i];
        let ghost before = routes_view(out@);
        let offset = start_of(c);
        let look_start = if offset >= 2000 { offset - 2000 } else { 0 };
        if !content.is_char_boundary(look_start) {
            proof {
                lemma_opt_flat_map_none(cv, f, i + 1, cv.len() as int);
                assert(cv.take(cv.len() as int) =~= cv);
            }
            return None;
        }
        let w = crate::utf8len::byte_slice(content, look_start, offset);
        let attrs = find_matches(ASPNET_ROUTE_ATTR_RE, w);
        if attrs.len() > 0 {
            proof {
                assert(captures_view(attrs@).last() == attrs@[attrs@.len() - 1]@);
            }
            match (group_of(&attrs[attrs.len() - 1], 1), group_of(c, 1)) {
                (Some(rp), Some(m)) => match crate::scanner::method_from_text(m.text.as_str(), true) {
                    Some(mm) => {
                        let p = replace_matches(ASPNET_PARAM_RE, rp.text.as_str(), ":$1");
                        let pv = chars_of(p.as_str());
                        let slash = chars_of("/");
                        let p = if crate::text::starts_with(pv.as_slice(), slash.as_slice()) {
                            p
                        } else {
                            crate::text::concat("/", p.as_str())
                        };
                        let line = line_number(content, offset);
                        let r = make_route(mm, p.as_str(), "aspnet", source, line);
                        out.push(r);
                        assert(routes_view(out@) =~= before.push(r@));
                    },
                    None => {},
                },
                _ => {},
            }
        }
        assert(opt_flat_map(cv.take(i + 1), f) == Some(routes_view(out@)));
        i += 1;
    }
    assert(cv.take(cv.len() as int) =~= cv);
    Some(out)
}

/// Every route's path rewritten by `aspnet_params`.
pub fn rewrite_aspnet_params(routes: Vec<RouteInfo>) -> (r: Vec<RouteInfo>)
    ensures
        routes_view(r@) == routes_view(routes@).map_values(|x: RouteView| with_aspnet_params(x)),
{
    let mut out: Vec<RouteInfo> = Vec::new();
    let mut i: usize = 0;
    while i < routes.len()
        invariant
            i <= routes.len(),
            routes_view(out@) == routes_view(routes@).take(i as int).map_values(|x: RouteView| with_aspnet_params(x)),
        decreases routes.len() - i,
    {
        let r = &routes[i];
        let p = replace_matches(ASPNET_PARAM_RE, r.path.as_str(), ":$1");
        let n = make_route(r.method, p.as_str(), r.framework.as_str(), r.source.as_str(), r.line);
        assert(n@ == with_aspnet_params(routes@[i as int]@));
        let ghost before = routes_view(out@);
        out.push(n);
        assert(routes_view(out@) =~= before.push(n@));
        assert(routes_view(routes@).take(i + 1) =~= routes_view(routes@).take(i as int).push(routes@[i as int]@));
        assert(routes_view(out@) =~= routes_view(routes@).take(i + 1).map_values(|x: RouteView| with_aspnet_params(x)));
        i += 1;
    }
    assert(routes_view(routes@).take(routes.len() as int) =~= routes_view(routes@));
    out
}

pub fn extract_aspnet(path: &str, content: &str) -> (r: Option<Vec<RouteInfo>>)
    ensures
        r matches Some(v) ==> spec_extract_aspnet(path@, content@) == Some(routes_view(v@)),
        r is None ==> spec_extract_aspnet(path@, content@) is None,
{
    if !has_extension(path, "cs") {
        return Some(empty_routes());
    }
    let has_minimal = contains(content, "MapGet(") || contains(content, "MapPost(") || contains(content, "MapPut(")
        || contains(content, "MapPatch(") || contains(content, "MapDelete(");
    let has_attr = contains(content, "[HttpGet") || contains(content, "[HttpPost") || contains(content, "[HttpPut")
        || contains(content, "[HttpPatch") || contains(content, "[HttpDelete");
    if !has_minimal && !has_attr {
        return Some(empty_routes());
    }
    let a = find_matches(ASPNET_MINIMAL_RE, content);
    let mut routes = routes_from_captures(path, content, a.as_slice(), 1, 2, "aspnet", true);
    let b = find_matches(ASPNET_ATTR_PATH_RE, content);
    let attrs = routes_from_captures(path, content, b.as_slice(), 1, 2, "aspnet", true);
    extend_routes(&mut routes, attrs);
    let c = find_matches(ASPNET_ATTR_BARE_RE, content);
    match aspnet_bare_routes(path, content, c.as_slice()) {
        Some(bare) => {
            extend_routes(&mut routes, bare);
            Some(rewrite_aspnet_params(routes))
        },
        None => None,
    }
}


// ---------------------------------------------------------------------------
// All frameworks
// ---------------------------------------------------------------------------

/// The routes of every framework in one file, in the order axum, actix-web,
/// express/fastify, FastAPI, Next.js, react-router, vue-router, SvelteKit,
/// Angular, Gin, Spring, Django, Flask, Nuxt, ASP.NET, Azure Functions;
/// `None` where one of the windowed extractors would slice inside a character.
pub open spec fn spec_extract_routes(source: Seq<char>, content: Seq<char>) -> Option<Seq<RouteView>> {
    match (
        spec_extract_react_router(source, content),
        spec_extract_vue_router(source, content),
        spec_extract_angular(source, content),
        spec_extract_spring(source, content),
        spec_extract_aspnet(source, content),
    ) {
        (Some(react), Some(vue), Some(angular), Some(spring), Some(aspnet)) => Some(
            spec_extract_axum(source, content) + spec_extract_actix(source, content) + spec_extract_express(
                source,
                content,
            ) + spec_extract_fastapi(source, content) + spec_extract_nextjs(source, content) + react + vue
                + spec_extract_svelte_kit(source, content) + angular + spec_extract_gin(source, content) + spring
                + spec_extract_django(source, content) + spec_extract_flask(source, content) + spec_extract_nuxt(
                source,
                content,
            ) + aspnet + spec_extract_azurefunction(source, content),
        ),
        _ => None,
    }
}

pub fn extract_routes(path: &str, content: &str) -> (r: Option<Vec<RouteInfo>>)
    ensures
        r matches Some(v) ==> spec_extract_routes(path@, content@) == Some(routes_view(v@)),
        r is None ==> spec_extract_routes(path@, content@) is None,
{
    let mut routes = extract_axum(path, content);
    extend_routes(&mut routes, extract_actix(path, content));
    extend_routes(&mut routes, extract_express(path, content));
    extend_routes(&mut routes, extract_fastapi(path, content));
    extend_routes(&mut routes, extract_nextjs(path, content));
    let react = extract_react_router(path, content);
    let vue = extract_vue_router(path, content);
    let angular = extract_angular(path, content);
    let spring = extract_spring(path, content);
    let aspnet = extract_aspnet(path, content);
    match (react, vue, angular, spring, aspnet) {
        (Some(react), Some(vue), Some(angular), Some(spring), Some(aspnet)) => {
            extend_routes(&mut routes, react);
            extend_routes(&mut routes, vue);
            extend_routes(&mut routes, extract_svelte_kit(path, content));
            extend_routes(&mut routes, angular);
            extend_routes(&mut routes, extract_gin(path, content));
            extend_routes(&mut routes, spring);
            extend_routes(&mut routes, extract_django(path, content));
            extend_routes(&mut routes, extract_flask(path, content));
            extend_routes(&mut routes, extract_nuxt(path, content));
            extend_routes(&mut routes, aspnet);
            extend_routes(&mut routes, extract_azurefunction(path, content));
            Some(routes)
        },
        _ => None,
    }
}

} // verus!
