//! Route discovery in source files.
pub mod paths;
pub mod route_paths;
pub mod frameworks;
pub mod listing;

use vstd::prelude::*;
use vstd::utf8::*;
use crate::app::{parse_method, method_name, HttpMethod};
use crate::keyed::KeyedList;
use crate::pattern::{captures_view, match_wf, matches_wf, Captures, Group, GroupView};
use crate::text::{chars_of, concat, string_from, to_lowercase, unicode_lowercase};
use crate::utf8len::{str_byte_len, utf8_len};

verus! {

/// A route found in a source file.
#[derive(Debug, Clone, PartialEq, Eq, PartialOrd, Ord)]
pub struct RouteInfo {
    pub method: HttpMethod,
    pub path: String,
    pub framework: String,
    pub source: String,
    pub line: usize,
}

/// The mathematical value of a `RouteInfo`.
pub ghost struct RouteView {
    pub method: HttpMethod,
    pub path: Seq<char>,
    pub framework: Seq<char>,
    pub source: Seq<char>,
    pub line: int,
}

impl View for RouteInfo {
    type V = RouteView;

    open spec fn view(&self) -> RouteView {
        RouteView {
            method: self.method,
            path: self.path@,
            framework: self.framework@,
            source: self.source@,
            line: self.line as int,
        }
    }
}

/// The view of a list of routes.
pub open spec fn routes_view(v: Seq<RouteInfo>) -> Seq<RouteView> {
    v.map_values(|r: RouteInfo| r@)
}

/// `f` applied to every element, the results concatenated in order.
pub open spec fn flat_map<A, B>(s: Seq<A>, f: spec_fn(A) -> Seq<B>) -> Seq<B>
    decreases s.len(),
{
    if s.len() == 0 {
        Seq::empty()
    } else {
        flat_map(s.drop_last(), f) + f(s.last())
    }
}

/// `flat_map` over a prefix extended by one element.
pub proof fn lemma_flat_map_take<A, B>(s: Seq<A>, f: spec_fn(A) -> Seq<B>, i: int)
    requires
        0 <= i < s.len(),
    ensures
        flat_map(s.take(i + 1), f) == flat_map(s.take(i), f) + f(s[i]),
{
    assert(s.take(i + 1).drop_last() =~= s.take(i));
}

/// `flat_map` over a whole sequence.
pub proof fn lemma_flat_map_all<A, B>(s: Seq<A>, f: spec_fn(A) -> Seq<B>)
    ensures
        flat_map(s.take(s.len() as int), f) == flat_map(s, f),
{
    assert(s.take(s.len() as int) =~= s);
}

/// Identifier of a route: framework, method, path and source, joined by `:`.
pub open spec fn route_id(r: RouteView) -> Seq<char> {
    r.framework + ":"@ + method_name(r.method) + ":"@ + r.path + ":"@ + r.source
}

/// A route created by hand, as it is saved with the base URL of its draft.
#[derive(Debug)]
pub struct PersistedRoute {
    pub route: RouteInfo,
    pub base_url: String,
}

/// What a scan of a project found.
#[derive(Debug)]
pub struct ScannerReport {
    pub routes: Vec<RouteInfo>,
    /// Saved base URLs of hand-made routes, by route id.
    pub persisted_base_urls: KeyedList<String>,
    /// The scanned directory was a home or root directory, so the recursive
    /// scan was skipped.
    pub is_too_broad: bool,
}

impl RouteInfo {
    /// A copy of this route.
    pub fn duplicate(&self) -> (r: RouteInfo)
        ensures
            r == *self,
    {
        RouteInfo {
            method: self.method,
            path: self.path.clone(),
            framework: self.framework.clone(),
            source: self.source.clone(),
            line: self.line,
        }
    }

    /// The key under which the route's draft is kept:
    /// `framework:METHOD:path:source`.
    pub fn id(&self) -> (s: String)
        ensures
            s@ == route_id(self@),
    {
        let a = concat(self.framework.as_str(), ":");
        let b = concat(a.as_str(), self.method.as_str());
        let c = concat(b.as_str(), ":");
        let d = concat(c.as_str(), self.path.as_str());
        let e = concat(d.as_str(), ":");
        concat(e.as_str(), self.source.as_str())
    }
}

/// Number of line-feed bytes.
pub open spec fn count_newlines(b: Seq<u8>) -> int
    decreases b.len(),
{
    if b.len() == 0 {
        0
    } else {
        count_newlines(b.drop_last()) + if b.last() == 10u8 { 1int } else { 0int }
    }
}

/// One-based number of the line holding the byte at `offset` of `content`.
pub open spec fn line_at(content: Seq<char>, offset: int) -> int {
    count_newlines(encode_utf8(content).take(offset)) + 1
}

/// One-based number of the line holding the byte at `byte_offset`.
pub fn line_number(content: &str, byte_offset: usize) -> (n: usize)
    requires
        byte_offset <= utf8_len(content@),
        is_char_boundary(encode_utf8(content@), byte_offset as int),
    ensures
        n == line_at(content@, byte_offset as int),
{
    let len = str_byte_len(content);
    let bytes = content.as_bytes();
    let mut count: usize = 0;
    let mut i: usize = 0;
    while i < byte_offset
        invariant
            i <= byte_offset <= bytes@.len(),
            bytes@ == encode_utf8(content@),
            bytes@.len() <= isize::MAX,
            count <= i,
            count == count_newlines(bytes@.take(i as int)),
        decreases byte_offset - i,
    {
        assert(bytes@.take(i + 1).drop_last() =~= bytes@.take(i as int));
        if bytes[i] == 10u8 {
            count = count + 1;
        }
        i += 1;
    }
    count + 1
}

/// The line number of a byte offset, or `None` where the offset is past the
/// end or inside a character.
pub fn line_number_checked(content: &str, byte_offset: usize) -> (r: Option<usize>)
    ensures
        r matches Some(n) ==> byte_offset <= utf8_len(content@) && is_char_boundary(encode_utf8(content@), byte_offset as int) && n == line_at(content@, byte_offset as int),
        r is None ==> !(byte_offset <= utf8_len(content@) && is_char_boundary(encode_utf8(content@), byte_offset as int)),
{
    let len = str_byte_len(content);
    if byte_offset > len {
        return None;
    }
    if !content.is_char_boundary(byte_offset) {
        return None;
    }
    Some(line_number(content, byte_offset))
}


/// Group `k` of a match, `None` where it did not take part or does not exist.
pub open spec fn group_at(c: Seq<Option<GroupView>>, k: int) -> Option<GroupView> {
    if 0 <= k < c.len() {
        c[k]
    } else {
        None
    }
}

/// Group `k` of a match.
pub fn group_of(c: &Captures, k: usize) -> (r: Option<&Group>)
    ensures
        r matches Some(g) ==> group_at(c@, k as int) == Some(g@),
        r is None ==> group_at(c@, k as int) is None,
{
    if k >= c.groups.len() {
        return None;
    }
    match &c.groups[k] {
        Some(g) => Some(g),
        None => None,
    }
}

/// The method a matched text names, after Unicode lower-casing when `lower` is set.
pub open spec fn method_of(text: Seq<char>, lower: bool) -> Option<HttpMethod> {
    parse_method(if lower { unicode_lowercase(text) } else { text })
}

/// The method a matched text names.
pub fn method_from_text(text: &str, lower: bool) -> (r: Option<HttpMethod>)
    ensures
        r == method_of(text@, lower),
{
    let m = if lower {
        let l = to_lowercase(text);
        HttpMethod::try_from(l.as_str())
    } else {
        HttpMethod::try_from(text)
    };
    match m {
        Ok(m) => Some(m),
        Err(_) => None,
    }
}

/// A route of `framework` at path `path` with `method`, found at byte `offset`.
pub open spec fn route_at(
    source: Seq<char>,
    content: Seq<char>,
    method: HttpMethod,
    path: Seq<char>,
    framework: Seq<char>,
    offset: int,
) -> RouteView {
    RouteView { method, path, framework, source, line: line_at(content, offset) }
}

/// The route a match gives when group `mg` names the method and group `pg`
/// holds the path: none where a group is missing or the method is unknown.
pub open spec fn simple_route(
    source: Seq<char>,
    content: Seq<char>,
    c: Seq<Option<GroupView>>,
    mg: int,
    pg: int,
    framework: Seq<char>,
    lower: bool,
) -> Seq<RouteView> {
    match (group_at(c, 0), group_at(c, mg), group_at(c, pg)) {
        (Some(whole), Some(m), Some(p)) => match method_of(m.text, lower) {
            Some(method) => seq![route_at(source, content, method, p.text, framework, whole.start)],
            None => Seq::empty(),
        },
        _ => Seq::empty(),
    }
}

/// `simple_route` as a function of the match.
pub open spec fn simple_route_fn(
    source: Seq<char>,
    content: Seq<char>,
    mg: int,
    pg: int,
    framework: Seq<char>,
    lower: bool,
) -> spec_fn(Seq<Option<GroupView>>) -> Seq<RouteView> {
    |c: Seq<Option<GroupView>>| simple_route(source, content, c, mg, pg, framework, lower)
}

/// The routes all matches give, each as `simple_route` says.
pub open spec fn simple_routes(
    source: Seq<char>,
    content: Seq<char>,
    caps: Seq<Seq<Option<GroupView>>>,
    mg: int,
    pg: int,
    framework: Seq<char>,
    lower: bool,
) -> Seq<RouteView> {
    flat_map(caps, simple_route_fn(source, content, mg, pg, framework, lower))
}

/// A route value built from its parts.
pub fn make_route(method: HttpMethod, path: &str, framework: &str, source: &str, line: usize) -> (r: RouteInfo)
    ensures
        r@ == (RouteView { method, path: path@, framework: framework@, source: source@, line: line as int }),
{
    RouteInfo {
        method,
        path: string_from(path),
        framework: string_from(framework),
        source: string_from(source),
        line,
    }
}

/// The routes that a list of matches gives when group `mg` names the method
/// and group `pg` holds the path.
pub fn routes_from_captures(
    source: &str,
    content: &str,
    caps: &[Captures],
    mg: usize,
    pg: usize,
    framework: &str,
    lower: bool,
) -> (r: Vec<RouteInfo>)
    requires
        matches_wf(content@, captures_view(caps@)),
    ensures
        routes_view(r@) == simple_routes(source@, content@, captures_view(caps@), mg as int, pg as int, framework@, lower),
{
    let ghost cv = captures_view(caps@);
    let ghost f = simple_route_fn(source@, content@, mg as int, pg as int, framework@, lower);
    let mut out: Vec<RouteInfo> = Vec::new();
    let mut i: usize = 0;
    while i < caps.len()
        invariant
            i <= caps.len(),
            cv == captures_view(caps@),
            matches_wf(content@, cv),
            f == simple_route_fn(source@, content@, mg as int, pg as int, framework@, lower),
            routes_view(out@) == flat_map(cv.take(i as int), f),
        decreases caps.len() - i,
    {
        proof {
            lemma_flat_map_take(cv, f, i as int);
            assert(cv[i as int] == caps@[i as int]@);
            assert(match_wf(content@, cv[i as int]));
        }
        let c = &caps[i];
        let ghost before = routes_view(out@);
        match (group_of(c, 0), group_of(c, mg), group_of(c, pg)) {
            (Some(whole), Some(m), Some(p)) => {
                match method_from_text(m.text.as_str(), lower) {
                    Some(method) => {
                        proof {
                            assert(c@[0] == Some(whole@));
                        }
                        let line = line_number(content, whole.start);
                        let r = make_route(method, p.text.as_str(), framework, source, line);
                        out.push(r);
                        assert(routes_view(out@) =~= before.push(r@));
                    },
                    None => {},
                }
            },
            _ => {},
        }
        assert(routes_view(out@) =~= flat_map(cv.take(i as int), f) + f(cv[i as int]));
        i += 1;
    }
    proof {
        lemma_flat_map_all(cv, f);
    }
    out
}


/// The route a match gives when group `mg` names the method and the path is
/// fixed: none where a group is missing or the method is unknown.
pub open spec fn fixed_path_route(
    source: Seq<char>,
    content: Seq<char>,
    c: Seq<Option<GroupView>>,
    mg: int,
    path: Seq<char>,
    framework: Seq<char>,
    lower: bool,
) -> Seq<RouteView> {
    match (group_at(c, 0), group_at(c, mg)) {
        (Some(whole), Some(m)) => match method_of(m.text, lower) {
            Some(method) => seq![route_at(source, content, method, path, framework, whole.start)],
            None => Seq::empty(),
        },
        _ => Seq::empty(),
    }
}

/// `fixed_path_route` as a function of the match.
pub open spec fn fixed_path_route_fn(
    source: Seq<char>,
    content: Seq<char>,
    mg: int,
    path: Seq<char>,
    framework: Seq<char>,
    lower: bool,
) -> spec_fn(Seq<Option<GroupView>>) -> Seq<RouteView> {
    |c: Seq<Option<GroupView>>| fixed_path_route(source, content, c, mg, path, framework, lower)
}

/// The routes all matches give, each as `fixed_path_route` says.
pub open spec fn fixed_path_routes(
    source: Seq<char>,
    content: Seq<char>,
    caps: Seq<Seq<Option<GroupView>>>,
    mg: int,
    path: Seq<char>,
    framework: Seq<char>,
    lower: bool,
) -> Seq<RouteView> {
    flat_map(caps, fixed_path_route_fn(source, content, mg, path, framework, lower))
}

/// The routes that a list of matches gives when group `mg` names the method
/// and every route has the path `path`.
pub fn routes_with_path(
    source: &str,
    content: &str,
    caps: &[Captures],
    mg: usize,
    path: &str,
    framework: &str,
    lower: bool,
) -> (r: Vec<RouteInfo>)
    requires
        matches_wf(content@, captures_view(caps@)),
    ensures
        routes_view(r@) == fixed_path_routes(source@, content@, captures_view(caps@), mg as int, path@, framework@, lower),
{
    let ghost cv = captures_view(caps@);
    let ghost f = fixed_path_route_fn(source@, content@, mg as int, path@, framework@, lower);
    let mut out: Vec<RouteInfo> = Vec::new();
    let mut i: usize = 0;
    while i < caps.len()
        invariant
            i <= caps.len(),
            cv == captures_view(caps@),
            matches_wf(content@, cv),
            f == fixed_path_route_fn(source@, content@, mg as int, path@, framework@, lower),
            routes_view(out@) == flat_map(cv.take(i as int), f),
        decreases caps.len() - i,
    {
        proof {
            lemma_flat_map_take(cv, f, i as int);
            assert(cv[i as int] == caps@[i as int]@);
            assert(match_wf(content@, cv[i as int]));
        }
        let c = &caps[i];
        let ghost before = routes_view(out@);
        match (group_of(c, 0), group_of(c, mg)) {
            (Some(whole), Some(m)) => {
                match method_from_text(m.text.as_str(), lower) {
                    Some(method) => {
                        proof {
                            assert(c@[0] == Some(whole@));
                        }
                        let line = line_number(content, whole.start);
                        let r = make_route(method, path, framework, source, line);
                        out.push(r);
                        assert(routes_view(out@) =~= before.push(r@));
                    },
                    None => {},
                }
            },
            _ => {},
        }
        assert(routes_view(out@) =~= flat_map(cv.take(i as int), f) + f(cv[i as int]));
        i += 1;
    }
    proof {
        lemma_flat_map_all(cv, f);
    }
    out
}

/// The route a match gives when group `mg` names the method and the path and
/// line are fixed.
pub open spec fn method_route(
    source: Seq<char>,
    c: Seq<Option<GroupView>>,
    mg: int,
    path: Seq<char>,
    framework: Seq<char>,
    line: int,
    lower: bool,
) -> Seq<RouteView> {
    match group_at(c, mg) {
        Some(m) => match method_of(m.text, lower) {
            Some(method) => seq![RouteView { method, path, framework, source, line }],
            None => Seq::empty(),
        },
        None => Seq::empty(),
    }
}

/// `method_route` as a function of the match.
pub open spec fn method_route_fn(
    source: Seq<char>,
    mg: int,
    path: Seq<char>,
    framework: Seq<char>,
    line: int,
    lower: bool,
) -> spec_fn(Seq<Option<GroupView>>) -> Seq<RouteView> {
    |c: Seq<Option<GroupView>>| method_route(source, c, mg, path, framework, line, lower)
}

/// The routes all matches give, each as `method_route` says.
pub open spec fn method_routes(
    source: Seq<char>,
    caps: Seq<Seq<Option<GroupView>>>,
    mg: int,
    path: Seq<char>,
    framework: Seq<char>,
    line: int,
    lower: bool,
) -> Seq<RouteView> {
    flat_map(caps, method_route_fn(source, mg, path, framework, line, lower))
}

/// The routes that a list of matches gives when group `mg` names the method
/// and every route has the path `path` and the line `line`.
pub fn routes_for_methods(
    source: &str,
    caps: &[Captures],
    mg: usize,
    path: &str,
    framework: &str,
    line: usize,
    lower: bool,
) -> (r: Vec<RouteInfo>)
    ensures
        routes_view(r@) == method_routes(source@, captures_view(caps@), mg as int, path@, framework@, line as int, lower),
{
    let ghost cv = captures_view(caps@);
    let ghost f = method_route_fn(source@, mg as int, path@, framework@, line as int, lower);
    let mut out: Vec<RouteInfo> = Vec::new();
    let mut i: usize = 0;
    while i < caps.len()
        invariant
            i <= caps.len(),
            cv == captures_view(caps@),
            f == method_route_fn(source@, mg as int, path@, framework@, line as int, lower),
            routes_view(out@) == flat_map(cv.take(i as int), f),
        decreases caps.len() - i,
    {
        proof {
            lemma_flat_map_take(cv, f, i as int);
            assert(cv[i as int] == caps@[i as int]@);
        }
        let c = &caps[i];
        let ghost before = routes_view(out@);
        match group_of(c, mg) {
            Some(m) => {
                match method_from_text(m.text.as_str(), lower) {
                    Some(method) => {
                        let r = make_route(method, path, framework, source, line);
                        out.push(r);
                        assert(routes_view(out@) =~= before.push(r@));
                    },
                    None => {},
                }
            },
            None => {},
        }
        assert(routes_view(out@) =~= flat_map(cv.take(i as int), f) + f(cv[i as int]));
        i += 1;
    }
    proof {
        lemma_flat_map_all(cv, f);
    }
    out
}

/// `routes` extended by `more`.
pub fn extend_routes(routes: &mut Vec<RouteInfo>, more: Vec<RouteInfo>)
    ensures
        routes_view(final(routes)@) == routes_view(old(routes)@) + routes_view(more@),
{
    let mut more = more;
    let ghost m = more@;
    routes.append(&mut more);
    assert(routes_view(routes@) =~= routes_view(old(routes)@) + routes_view(m));
}


/// `f` applied to every element, the results concatenated in order; `None`
/// as soon as any application gives `None`.
pub open spec fn opt_flat_map<A, B>(s: Seq<A>, f: spec_fn(A) -> Option<Seq<B>>) -> Option<Seq<B>>
    decreases s.len(),
{
    if s.len() == 0 {
        Some(Seq::empty())
    } else {
        match opt_flat_map(s.drop_last(), f) {
            None => None,
            Some(r) => match f(s.last()) {
                None => None,
                Some(x) => Some(r + x),
            },
        }
    }
}

/// `opt_flat_map` over a prefix extended by one element.
pub proof fn lemma_opt_flat_map_take<A, B>(s: Seq<A>, f: spec_fn(A) -> Option<Seq<B>>, i: int)
    requires
        0 <= i < s.len(),
    ensures
        opt_flat_map(s.take(i + 1), f) == match opt_flat_map(s.take(i), f) {
            None => None,
            Some(r) => match f(s[i]) {
                None => None,
                Some(x) => Some(r + x),
            },
        },
{
    assert(s.take(i + 1).drop_last() =~= s.take(i));
}

/// Once a prefix fails, every longer prefix fails.
pub proof fn lemma_opt_flat_map_none<A, B>(s: Seq<A>, f: spec_fn(A) -> Option<Seq<B>>, j: int, k: int)
    requires
        0 <= j <= k <= s.len(),
        opt_flat_map(s.take(j), f) is None,
    ensures
        opt_flat_map(s.take(k), f) is None,
    decreases k - j,
{
    if j < k {
        lemma_opt_flat_map_take(s, f, j);
        lemma_opt_flat_map_none(s, f, j + 1, k);
    }
}

/// The text between byte `start` and `start + span` (or the end, if
/// nearer); `None` where that end falls inside a character.
pub open spec fn window(content: Seq<char>, start: int, span: int) -> Option<Seq<char>> {
    let len = utf8_len(content);
    let end = if len - start > span { start + span } else { len };
    if is_char_boundary(encode_utf8(content), end) {
        Some(crate::utf8len::byte_text(content, start, end))
    } else {
        None
    }
}

/// The text between byte `start` and `start + span` (or the end, if nearer).
pub fn window_of(content: &str, start: usize, span: usize) -> (r: Option<&str>)
    requires
        start <= utf8_len(content@),
        is_char_boundary(encode_utf8(content@), start as int),
        span <= 65536,
    ensures
        r matches Some(t) ==> window(content@, start as int, span as int) == Some(t@),
        r is None ==> window(content@, start as int, span as int) is None,
{
    let len = str_byte_len(content);
    let end = if len - start > span { start + span } else { len };
    if !content.is_char_boundary(end) {
        return None;
    }
    Some(crate::utf8len::byte_slice(content, start, end))
}

/// The GET route of an object-literal `path: "..."` match found in a block
/// that starts `base` bytes into the content; its line is taken at `base`
/// plus the match start, and `None` marks an offset inside a character.
/// Angular style skips `**`, and roots the path with `/`.
pub open spec fn object_route(
    source: Seq<char>,
    content: Seq<char>,
    base: int,
    c: Seq<Option<GroupView>>,
    framework: Seq<char>,
    angular: bool,
) -> Option<Seq<RouteView>> {
    match (group_at(c, 0), group_at(c, 1)) {
        (Some(w), Some(g)) => if angular && g.text == "**"@ {
            Some(Seq::empty())
        } else {
            let path = if angular { crate::scanner::route_paths::rooted(g.text) } else { g.text };
            let off = base + w.start;
            if off <= utf8_len(content) && is_char_boundary(encode_utf8(content), off) {
                Some(seq![route_at(source, content, HttpMethod::Get, path, framework, off)])
            } else {
                None
            }
        },
        _ => Some(Seq::empty()),
    }
}

pub open spec fn object_route_fn(
    source: Seq<char>,
    content: Seq<char>,
    base: int,
    framework: Seq<char>,
    angular: bool,
) -> spec_fn(Seq<Option<GroupView>>) -> Option<Seq<RouteView>> {
    |c: Seq<Option<GroupView>>| object_route(source, content, base, c, framework, angular)
}

/// The GET routes of object-literal `path:` matches found in a block that
/// starts `base` bytes into the content.
pub fn object_routes(
    source: &str,
    content: &str,
    base: usize,
    caps: &[Captures],
    framework: &str,
    angular: bool,
) -> (r: Option<Vec<RouteInfo>>)
    requires
        base <= utf8_len(content@),
    ensures
        r matches Some(v) ==> opt_flat_map(captures_view(caps@), object_route_fn(source@, content@, base as int, framework@, angular)) == Some(routes_view(v@)),
        r is None ==> opt_flat_map(captures_view(caps@), object_route_fn(source@, content@, base as int, framework@, angular)) is None,
{
    let ghost cv = captures_view(caps@);
    let ghost f = object_route_fn(source@, content@, base as int, framework@, angular);
    let len = str_byte_len(content);
    let mut out: Vec<RouteInfo> = Vec::new();
    let mut i: usize = 0;
    while i < caps.len()
        invariant
            i <= caps.len(),
            cv == captures_view(caps@),
            len == utf8_len(content@),
            base <= len,
            f == object_route_fn(source@, content@, base as int, framework@, angular),
            opt_flat_map(cv.take(i as int), f) == Some(routes_view(out@)),
        decreases caps.len() - i,
    {
        proof {
            lemma_opt_flat_map_take(cv, f, i as int);
            assert(cv[i as int] == caps@[i as int]@);
        }
        let c = &caps[i];
        let ghost before = routes_view(out@);
        match (group_of(c, 0), group_of(c, 1)) {
            (Some(w), Some(g)) => {
                let skip = angular && crate::text::equals(chars_of(g.text.as_str()).as_slice(), "**");
                if !skip {
                    let path = if angular {
                        let v = chars_of(g.text.as_str());
                        let mut r = chars_of("/");
                        if v.len() > 0 {
                            crate::text::append_chars(&mut r, v.as_slice());
                        }
                        crate::text::string_of(r.as_slice())
                    } else {
                        string_from(g.text.as_str())
                    };
                    if w.start > len - base {
                        proof {
                            lemma_opt_flat_map_none(cv, f, i + 1, cv.len() as int);
                            assert(cv.take(cv.len() as int) =~= cv);
                        }
                        return None;
                    }
                    let off = base + w.start;
                    match line_number_checked(content, off) {
                        Some(line) => {
                            let r = make_route(HttpMethod::Get, path.as_str(), framework, source, line);
                            out.push(r);
                            assert(routes_view(out@) =~= before.push(r@));
                        },
                        None => {
                            proof {
                                lemma_opt_flat_map_none(cv, f, i + 1, cv.len() as int);
                                assert(cv.take(cv.len() as int) =~= cv);
                            }
                            return None;
                        },
                    }
                }
            },
            _ => {},
        }
        assert(opt_flat_map(cv.take(i + 1), f) == Some(routes_view(out@)));
        i += 1;
    }
    assert(cv.take(cv.len() as int) =~= cv);
    Some(out)
}


// ---------------------------------------------------------------------------
// Hand-made routes and the scan's scope
// ---------------------------------------------------------------------------

/// The base URL saved with a hand-made route: its entry in `base_urls`, or
/// the empty text.
pub open spec fn saved_base_url(base_urls: Map<Seq<char>, String>, r: RouteView) -> Seq<char> {
    if base_urls.contains_key(route_id(r)) {
        base_urls[route_id(r)]@
    } else {
        Seq::empty()
    }
}

/// The routes that are saved, with their base URLs: the hand-made ones
/// (framework "custom"), in order.
pub open spec fn persisted_view(routes: Seq<RouteInfo>, base_urls: Map<Seq<char>, String>) -> Seq<(RouteView, Seq<char>)>
    decreases routes.len(),
{
    if routes.len() == 0 {
        Seq::empty()
    } else {
        let rest = persisted_view(routes.drop_last(), base_urls);
        let r = routes.last();
        if r.framework@ == "custom"@ {
            rest.push((r@, saved_base_url(base_urls, r@)))
        } else {
            rest
        }
    }
}

/// The view of a list of saved routes.
pub open spec fn persisted_routes_view(v: Seq<PersistedRoute>) -> Seq<(RouteView, Seq<char>)> {
    v.map_values(|p: PersistedRoute| (p.route@, p.base_url@))
}

/// The hand-made routes to save, each with the base URL kept for it.
pub fn custom_routes_to_persist(routes: &Vec<RouteInfo>, base_urls: &KeyedList<String>) -> (v: Vec<PersistedRoute>)
    ensures
        persisted_routes_view(v@) == persisted_view(routes@, base_urls@),
{
    let mut v: Vec<PersistedRoute> = Vec::new();
    let mut i: usize = 0;
    while i < routes.len()
        invariant
            i <= routes.len(),
            persisted_routes_view(v@) == persisted_view(routes@.take(i as int), base_urls@),
        decreases routes.len() - i,
    {
        let r = &routes[i];
        proof {
            assert(routes@.take(i + 1).drop_last() =~= routes@.take(i as int));
        }
        if crate::text::str_eq(r.framework.as_str(), "custom") {
            let id = r.id();
            let base_url = match base_urls.get(id.as_str()) {
                Some(b) => b.clone(),
                None => String::new(),
            };
            let ghost before = v@;
            v.push(PersistedRoute { route: r.duplicate(), base_url });
            proof {
                assert(persisted_routes_view(v@) =~= persisted_routes_view(before).push((r@, saved_base_url(base_urls@, r@))));
            }
        }
        i += 1;
    }
    assert(routes@.take(routes.len() as int) =~= routes@);
    v
}

/// Number of occurrences of `c` in `s`.
pub open spec fn count_char(s: Seq<char>, c: char) -> int
    decreases s.len(),
{
    if s.len() == 0 {
        0
    } else {
        count_char(s.drop_last(), c) + if s.last() == c { 1int } else { 0 }
    }
}

/// A directory too broad to scan: the home directory, a root directory, or
/// a directory right under `/home`.
pub open spec fn too_broad_spec(is_home: bool, is_root: bool, path: Seq<char>) -> bool {
    is_home || is_root || (crate::text::has_prefix(path, "/home/"@) && count_char(path, '/') + 1 <= 3)
}

/// Whether a directory is too broad to scan, given whether it is the home
/// directory and whether it has no parent.
pub fn is_too_broad_dir(is_home: bool, is_root: bool, path: &str) -> (b: bool)
    ensures
        b == too_broad_spec(is_home, is_root, path@),
{
    if is_home || is_root {
        return true;
    }
    let v = chars_of(path);
    let prefix = chars_of("/home/");
    if !crate::text::starts_with(v.as_slice(), prefix.as_slice()) {
        return false;
    }
    let mut n: usize = 0;
    let mut i: usize = 0;
    while i < v.len()
        invariant
            i <= v.len(),
            n as int == count_char(v@.take(i as int), '/'),
            n <= i,
        decreases v.len() - i,
    {
        assert(v@.take(i + 1).drop_last() =~= v@.take(i as int));
        if v[i] == '/' {
            n += 1;
        }
        i += 1;
    }
    assert(v@.take(v.len() as int) =~= v@);
    n <= 2
}

} // verus!
