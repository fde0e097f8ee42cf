//! Route paths derived from file locations and from framework route patterns.
use vstd::prelude::*;
use crate::app::{parse_method, HttpMethod};
use crate::pattern::{replace_matches, replaced};
use crate::scanner::paths::{
    after_marker, extension, file_stem, parent, path_extension, path_file_stem, path_parent,
    text_after,
};
use crate::text::{
    append_chars, chars_of, equals, find_first, last_char_index, lemma_first_occurrence,
    replace_char, replace_chars, rfind_char, seq_contains, slice_from, slice_range, string_of,
    trim_end_char, trim_end_chars, trim_start_char, trim_start_chars,
};

verus! {

/// Regular expression of SvelteKit `(group)` segments, which the URL does not show.
pub const SVELTE_GROUP_RE: &'static str = r"\([^)]+\)/?";

/// Regular expression of Django typed converters such as `<int:pk>`.
pub const DJANGO_TYPED_RE: &'static str = r#"<\w+:(\w+)>"#;

/// Regular expression of Django plain parameters such as `<pk>`.
pub const DJANGO_PLAIN_RE: &'static str = r#"<(\w+)>"#;

/// Regular expression of named regex groups such as `(?P<slug>[a-z]+)`.
pub const DJANGO_NAMED_RE: &'static str = r#"\(\?P<(\w+)>[^)]+\)"#;

/// `[param]` written as `:param`.
pub open spec fn bracket_params(s: Seq<char>) -> Seq<char> {
    replace_char(replace_char(s, '[', ":"@), ']', ""@)
}

/// Backslashes written as slashes.
pub open spec fn forward_slashes(s: Seq<char>) -> Seq<char> {
    replace_char(s, '\\', "/"@)
}

/// `s` with leading and trailing `/` removed.
pub open spec fn trim_slashes(s: Seq<char>) -> Seq<char> {
    trim_start_char(trim_end_char(s, '/'), '/')
}

/// `/` followed by `s`, or `/` alone for an empty `s`.
pub open spec fn rooted(s: Seq<char>) -> Seq<char> {
    if s.len() == 0 {
        "/"@
    } else {
        "/"@ + s
    }
}

/// The first of two markers that occurs in `p`.
pub open spec fn pick_marker(p: Seq<char>, unix: Seq<char>, windows: Seq<char>) -> Option<Seq<char>> {
    if seq_contains(p, unix) {
        Some(unix)
    } else if seq_contains(p, windows) {
        Some(windows)
    } else {
        None
    }
}

/// The route of a Next.js App Router file: the directory below `app/`.
pub open spec fn spec_nextjs_app_path(p: Seq<char>) -> Option<Seq<char>> {
    match pick_marker(p, "/app/"@, "\\app\\"@) {
        None => None,
        Some(m) => match after_marker(p, m) {
            None => None,
            Some(after) => match path_parent(after) {
                None => None,
                Some(dir) => Some(rooted(trim_start_char(forward_slashes(bracket_params(dir)), '/'))),
            },
        },
    }
}

/// The route of a Next.js Pages Router file: its path below `pages/`, an
/// `index` file standing for its directory.
pub open spec fn spec_nextjs_pages_path(p: Seq<char>) -> Option<Seq<char>> {
    match pick_marker(p, "/pages/"@, "\\pages\\"@) {
        None => None,
        Some(m) => match after_marker(p, m) {
            None => None,
            Some(after) => match path_file_stem(after) {
                None => None,
                Some(stem) => {
                    let par = match path_parent(after) {
                        Some(d) => forward_slashes(d),
                        None => Seq::empty(),
                    };
                    if stem == "index"@ {
                        Some(rooted(par))
                    } else {
                        let base = if par.len() == 0 { stem } else { par + "/"@ + stem };
                        Some("/"@ + bracket_params(base))
                    }
                },
            },
        },
    }
}

/// The route of a SvelteKit file: its directory below `routes/`, without
/// `(group)` segments.
pub open spec fn spec_sveltekit_route_path(p: Seq<char>) -> Option<Seq<char>> {
    let marker = if seq_contains(p, "/routes/"@) { "/routes/"@ } else { "\\routes\\"@ };
    match after_marker(p, marker) {
        None => None,
        Some(after) => match path_parent(after) {
            None => None,
            Some(dir) => {
                let r = replaced(SVELTE_GROUP_RE@, forward_slashes(dir), ""@);
                Some(rooted(trim_slashes(bracket_params(r))))
            },
        },
    }
}

/// A Django URL pattern as a route: anchors dropped, parameters written
/// `:name`, a leading `/`, no trailing `/` except for the root.
pub open spec fn spec_normalise_django_path(raw: Seq<char>) -> Seq<char> {
    let s = trim_end_char(trim_start_char(raw, '^'), '$');
    let s = replaced(DJANGO_TYPED_RE@, s, ":$1"@);
    let s = replaced(DJANGO_NAMED_RE@, s, ":$1"@);
    let s = replaced(DJANGO_PLAIN_RE@, s, ":$1"@);
    let s = if s.len() > 0 && s[0] == '/' { s } else { "/"@ + s };
    if s.len() > 1 && s.last() == '/' {
        trim_end_char(s, '/')
    } else {
        s
    }
}

/// Whether a suffix is one of the lower-case method names that Nuxt file
/// names may end with.
pub open spec fn is_nuxt_method_suffix(s: Seq<char>) -> bool {
    s == "get"@ || s == "post"@ || s == "put"@ || s == "patch"@ || s == "delete"@ || s == "head"@
        || s == "options"@
}

/// The directory marker of a Nuxt server file: `server/api/` for API
/// routes, `server/routes/` otherwise, with `/` separators when the path
/// has them, else `\`.
pub open spec fn nuxt_marker(p: Seq<char>, in_api: bool) -> Seq<char> {
    if in_api {
        if seq_contains(p, "/server/api/"@) { "/server/api/"@ } else { "\\server\\api\\"@ }
    } else {
        if seq_contains(p, "/server/routes/"@) { "/server/routes/"@ } else { "\\server\\routes\\"@ }
    }
}

/// The route of a Nuxt server file: `/api/...` below `server/api/`, `/...`
/// below `server/routes/`, the method suffix and `index` dropped.
pub open spec fn spec_nuxt_route_path(p: Seq<char>, in_api: bool) -> Seq<char> {
    let marker = nuxt_marker(p, in_api);
    match after_marker(p, marker) {
        None => "/"@,
        Some(after) => {
            let stem0 = match path_file_stem(after) {
                Some(st) => st,
                None => "index"@,
            };
            let stem = match last_char_index(stem0, '.') {
                Some(pos) => if is_nuxt_method_suffix(stem0.skip(pos + 1)) { stem0.take(pos) } else { stem0 },
                None => stem0,
            };
            let par = match path_parent(after) {
                Some(d) => forward_slashes(d),
                None => Seq::empty(),
            };
            let combined = if stem == "index"@ {
                par
            } else if par.len() == 0 {
                stem
            } else {
                par + "/"@ + stem
            };
            let combined = trim_slashes(bracket_params(combined));
            if combined.len() == 0 {
                if in_api { "/api"@ } else { "/"@ }
            } else {
                (if in_api { "/api"@ } else { ""@ }) + "/"@ + combined
            }
        },
    }
}

/// The method a Nuxt file name carries after its last `.` (before the
/// extension); GET when there is none.
pub open spec fn spec_nuxt_method_from_filename(p: Seq<char>) -> HttpMethod {
    let stem = match path_file_stem(p) {
        Some(st) => st,
        None => ""@,
    };
    match last_char_index(stem, '.') {
        Some(pos) => match parse_method(stem.skip(pos + 1)) {
            Some(m) => m,
            None => HttpMethod::Get,
        },
        None => HttpMethod::Get,
    }
}

/// Whether a file's extension is one route discovery reads.
pub open spec fn spec_is_supported(p: Seq<char>) -> bool {
    match path_extension(p) {
        Some(e) => e == "rs"@ || e == "js"@ || e == "ts"@ || e == "py"@ || e == "jsx"@ || e == "tsx"@
            || e == "vue"@ || e == "svelte"@ || e == "go"@ || e == "java"@ || e == "cs"@,
        None => false,
    }
}

fn bracket_params_exec(v: &[char]) -> (r: Vec<char>)
    ensures
        r@ == bracket_params(v@),
{
    let colon = chars_of(":");
    let nothing = chars_of("");
    let a = replace_chars(v, '[', colon.as_slice());
    replace_chars(a.as_slice(), ']', nothing.as_slice())
}

fn forward_slashes_exec(v: &[char]) -> (r: Vec<char>)
    ensures
        r@ == forward_slashes(v@),
{
    let slash = chars_of("/");
    replace_chars(v, '\\', slash.as_slice())
}

fn trim_slashes_exec(v: &[char]) -> (r: Vec<char>)
    ensures
        r@ == trim_slashes(v@),
{
    let a = trim_end_chars(v, '/');
    trim_start_chars(a.as_slice(), '/')
}

fn rooted_exec(v: &[char]) -> (r: Vec<char>)
    ensures
        r@ == rooted(v@),
{
    let mut r = chars_of("/");
    if v.len() > 0 {
        append_chars(&mut r, v);
    }
    r
}

fn pick_marker_exec(p: &[char], unix: &str, windows: &str) -> (r: Option<Vec<char>>)
    ensures
        r matches Some(m) ==> pick_marker(p@, unix@, windows@) == Some(m@),
        r is None ==> pick_marker(p@, unix@, windows@) is None,
{
    let u = chars_of(unix);
    let w = chars_of(windows);
    proof {
        lemma_first_occurrence(p@, u@);
        lemma_first_occurrence(p@, w@);
    }
    if find_first(p, u.as_slice()).is_some() {
        Some(u)
    } else if find_first(p, w.as_slice()).is_some() {
        Some(w)
    } else {
        None
    }
}

/// The route of a Next.js App Router file.
pub fn nextjs_app_path(path: &str) -> (r: Option<String>)
    ensures
        r matches Some(s) ==> spec_nextjs_app_path(path@) == Some(s@),
        r is None ==> spec_nextjs_app_path(path@) is None,
{
    let p = chars_of(path);
    let m = match pick_marker_exec(p.as_slice(), "/app/", "\\app\\") {
        Some(m) => m,
        None => return None,
    };
    let after = match text_after(p.as_slice(), m.as_slice()) {
        Some(a) => a,
        None => return None,
    };
    let dir = match parent(after.as_slice()) {
        Some(d) => d,
        None => return None,
    };
    let a = bracket_params_exec(dir.as_slice());
    let b = forward_slashes_exec(a.as_slice());
    let c = trim_start_chars(b.as_slice(), '/');
    let d = rooted_exec(c.as_slice());
    Some(string_of(d.as_slice()))
}

/// The route of a Next.js Pages Router file.
pub fn nextjs_pages_path(path: &str) -> (r: Option<String>)
    ensures
        r matches Some(s) ==> spec_nextjs_pages_path(path@) == Some(s@),
        r is None ==> spec_nextjs_pages_path(path@) is None,
{
    let p = chars_of(path);
    let m = match pick_marker_exec(p.as_slice(), "/pages/", "\\pages\\") {
        Some(m) => m,
        None => return None,
    };
    let after = match text_after(p.as_slice(), m.as_slice()) {
        Some(a) => a,
        None => return None,
    };
    let stem = match file_stem(after.as_slice()) {
        Some(s) => s,
        None => return None,
    };
    let par = match parent(after.as_slice()) {
        Some(d) => forward_slashes_exec(d.as_slice()),
        None => Vec::new(),
    };
    if equals(stem.as_slice(), "index") {
        let r = rooted_exec(par.as_slice());
        Some(string_of(r.as_slice()))
    } else {
        let base = if par.len() == 0 {
            stem
        } else {
            let mut b = par;
            b.push('/');
            append_chars(&mut b, stem.as_slice());
            proof {
                reveal_strlit("/");
                assert(b@ =~= par@ + "/"@ + stem@);
            }
            b
        };
        let mut r = chars_of("/");
        let bp = bracket_params_exec(base.as_slice());
        append_chars(&mut r, bp.as_slice());
        Some(string_of(r.as_slice()))
    }
}

/// The route of a SvelteKit file.
pub fn sveltekit_route_path(path: &str) -> (r: Option<String>)
    ensures
        r matches Some(s) ==> spec_sveltekit_route_path(path@) == Some(s@),
        r is None ==> spec_sveltekit_route_path(path@) is None,
{
    let p = chars_of(path);
    let unix = chars_of("/routes/");
    proof {
        lemma_first_occurrence(p@, unix@);
    }
    let marker = if find_first(p.as_slice(), unix.as_slice()).is_some() { unix } else { chars_of("\\routes\\") };
    let after = match text_after(p.as_slice(), marker.as_slice()) {
        Some(a) => a,
        None => return None,
    };
    let dir = match parent(after.as_slice()) {
        Some(d) => d,
        None => return None,
    };
    let route = forward_slashes_exec(dir.as_slice());
    let route = string_of(route.as_slice());
    let route = replace_matches(SVELTE_GROUP_RE, route.as_str(), "");
    let route = chars_of(route.as_str());
    let route = bracket_params_exec(route.as_slice());
    let route = trim_slashes_exec(route.as_slice());
    let route = rooted_exec(route.as_slice());
    Some(string_of(route.as_slice()))
}

/// A Django URL pattern as a route.
pub fn normalise_django_path(raw: &str) -> (r: String)
    ensures
        r@ == spec_normalise_django_path(raw@),
{
    let v = chars_of(raw);
    let a = trim_start_chars(v.as_slice(), '^');
    let b = trim_end_chars(a.as_slice(), '$');
    let s = string_of(b.as_slice());
    let s = replace_matches(DJANGO_TYPED_RE, s.as_str(), ":$1");
    let s = replace_matches(DJANGO_NAMED_RE, s.as_str(), ":$1");
    let s = replace_matches(DJANGO_PLAIN_RE, s.as_str(), ":$1");
    let v = chars_of(s.as_str());
    let v = if v.len() > 0 && v[0] == '/' {
        v
    } else {
        let mut r = chars_of("/");
        append_chars(&mut r, v.as_slice());
        r
    };
    if v.len() > 1 && v[v.len() - 1] == '/' {
        let t = trim_end_chars(v.as_slice(), '/');
        string_of(t.as_slice())
    } else {
        string_of(v.as_slice())
    }
}

fn is_nuxt_method_suffix_exec(s: &[char]) -> (b: bool)
    ensures
        b == is_nuxt_method_suffix(s@),
{
    equals(s, "get") || equals(s, "post") || equals(s, "put") || equals(s, "patch") || equals(s, "delete")
        || equals(s, "head") || equals(s, "options")
}

/// The route of a Nuxt server file.
pub fn nuxt_route_path(path: &str, in_api: bool) -> (r: String)
    ensures
        r@ == spec_nuxt_route_path(path@, in_api),
{
    let p = chars_of(path);
    let marker = if in_api {
        let u = chars_of("/server/api/");
        proof {
            lemma_first_occurrence(p@, u@);
        }
        if find_first(p.as_slice(), u.as_slice()).is_some() { u } else { chars_of("\\server\\api\\") }
    } else {
        let u = chars_of("/server/routes/");
        proof {
            lemma_first_occurrence(p@, u@);
        }
        if find_first(p.as_slice(), u.as_slice()).is_some() { u } else { chars_of("\\server\\routes\\") }
    };
    let after = match text_after(p.as_slice(), marker.as_slice()) {
        Some(a) => a,
        None => return string_of(chars_of("/").as_slice()),
    };
    let stem0 = match file_stem(after.as_slice()) {
        Some(s) => s,
        None => chars_of("index"),
    };
    let stem = match rfind_char(stem0.as_slice(), '.') {
        Some(pos) => {
            let suffix = slice_from(stem0.as_slice(), pos + 1);
            if is_nuxt_method_suffix_exec(suffix.as_slice()) {
                let t = slice_range(stem0.as_slice(), 0, pos);
                assert(t@ =~= stem0@.take(pos as int));
                t
            } else {
                stem0
            }
        },
        None => stem0,
    };
    let par = match parent(after.as_slice()) {
        Some(d) => forward_slashes_exec(d.as_slice()),
        None => Vec::new(),
    };
    let combined = if equals(stem.as_slice(), "index") {
        par
    } else if par.len() == 0 {
        stem
    } else {
        let mut b = par;
        b.push('/');
        append_chars(&mut b, stem.as_slice());
        proof {
            reveal_strlit("/");
            assert(b@ =~= par@ + "/"@ + stem@);
        }
        b
    };
    let combined = bracket_params_exec(combined.as_slice());
    let combined = trim_slashes_exec(combined.as_slice());
    if combined.len() == 0 {
        if in_api {
            string_of(chars_of("/api").as_slice())
        } else {
            string_of(chars_of("/").as_slice())
        }
    } else {
        let pre = if in_api { chars_of("/api") } else { chars_of("") };
        let mut r = pre;
        r.push('/');
        append_chars(&mut r, combined.as_slice());
        proof {
            reveal_strlit("/");
            assert(r@ =~= pre@ + "/"@ + combined@);
        }
        string_of(r.as_slice())
    }
}

/// The method a Nuxt file name carries.
pub fn nuxt_method_from_filename(path: &str) -> (m: HttpMethod)
    ensures
        m == spec_nuxt_method_from_filename(path@),
{
    let p = chars_of(path);
    let stem = match file_stem(p.as_slice()) {
        Some(s) => s,
        None => chars_of(""),
    };
    match rfind_char(stem.as_slice(), '.') {
        Some(pos) => {
            let suffix = slice_from(stem.as_slice(), pos + 1);
            let s = string_of(suffix.as_slice());
            match HttpMethod::try_from(s.as_str()) {
                Ok(m) => m,
                Err(_) => HttpMethod::Get,
            }
        },
        None => HttpMethod::Get,
    }
}

/// Whether a file's extension is one route discovery reads.
pub fn is_supported(path: &str) -> (b: bool)
    ensures
        b == spec_is_supported(path@),
{
    let p = chars_of(path);
    match extension(p.as_slice()) {
        Some(e) => {
            let e = e.as_slice();
            equals(e, "rs") || equals(e, "js") || equals(e, "ts") || equals(e, "py") || equals(e, "jsx")
                || equals(e, "tsx") || equals(e, "vue") || equals(e, "svelte") || equals(e, "go")
                || equals(e, "java") || equals(e, "cs")
        },
        None => false,
    }
}

} // verus!
