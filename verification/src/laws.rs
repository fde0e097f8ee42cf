//! Properties that hold across the library's operations.
use vstd::prelude::*;
use crate::app::{
    body_type_at, body_type_index, buffer_op_done, method_at, method_index, method_name,
    method_next, method_prev, parse_method, tab_at, tab_index, BodyType, BufferOp, EditorTab,
    HttpMethod, KVRow, TextBuffer,
};
use crate::executor::{spec_is_permanent, spec_is_retryable, ExecutorError};
use crate::highlight::{view_at, view_index, ResponseView};
use crate::http::active_pairs;
use crate::keyed::entries_map;
use crate::keys::{key_outcome, scrolled, Effect, Key};
use crate::pattern::{matches_of, GroupView};
use crate::scanner::frameworks::{spec_extract_express, EXPRESS_RE};
use crate::scanner::{flat_map, group_at, line_at, RouteView};
use crate::text::{replace_char, seq_contains, trim_start_char};
use crate::scanner::count_char;
use crate::scanner::paths::{after_marker, path_parent};
use crate::scanner::route_paths::{
    bracket_params, forward_slashes, is_nuxt_method_suffix, nuxt_marker, pick_marker, rooted,
    spec_nextjs_app_path, spec_nextjs_pages_path, spec_nuxt_route_path, trim_slashes,
};
use crate::scanner::paths::path_file_stem;
use crate::text::last_char_index;
use crate::remote::ssh_arg_list;
use crate::remote::SshConfig;
use crate::scanner::listing::{
    in_route_order, key_listed, lemma_first_met_unique, lemma_lex_asymmetric, lemma_ordered_same_keys,
    lists_routes, met_first_within, route_key,
};
use crate::scanner::RouteInfo;
use crate::session::{
    current_replaced, draft_key, editing_stopped, history_target, string_texts,
    with_history_index, App,
};
use crate::utf8len::{char_len, lemma_utf8_len_push, utf8_len};

verus! {

/// Cycling a method forward and then back (or back and then forward)
/// gives the method again.
pub proof fn law_method_cycle_round_trip(m: HttpMethod)
    ensures
        method_prev(method_next(m)) == m,
        method_next(method_prev(m)) == m,
{
}

/// Cycling a method forward seven times comes back to it: the cycle visits
/// all seven methods.
pub proof fn law_method_cycle_period(m: HttpMethod)
    ensures
        method_next(method_next(method_next(method_next(method_next(method_next(method_next(m))))))) == m,
{
}

/// The wire name of every method parses back to that method.
pub proof fn law_method_name_parses(m: HttpMethod)
    ensures
        parse_method(method_name(m)) == Some(m),
{
    reveal_strlit("GET");
    reveal_strlit("POST");
    reveal_strlit("PUT");
    reveal_strlit("PATCH");
    reveal_strlit("DELETE");
    reveal_strlit("OPTIONS");
    reveal_strlit("HEAD");
    reveal_strlit("get");
    reveal_strlit("post");
    reveal_strlit("put");
    reveal_strlit("patch");
    reveal_strlit("delete");
    reveal_strlit("options");
    reveal_strlit("head");
    let l = crate::text::ascii_lowercase(method_name(m));
    assert("get"@.len() == 3 && "post"@.len() == 4 && "put"@.len() == 3 && "patch"@.len() == 5);
    assert("delete"@.len() == 6 && "options"@.len() == 7 && "head"@.len() == 4);
    assert("get"@[0] == 'g' && "put"@[0] == 'p' && "post"@[0] == 'p' && "head"@[0] == 'h');
    match m {
        HttpMethod::Get => assert(l =~= "get"@),
        HttpMethod::Post => assert(l =~= "post"@),
        HttpMethod::Put => {
            assert(l =~= "put"@);
            assert(l[0] != "get"@[0]);
        },
        HttpMethod::Patch => assert(l =~= "patch"@),
        HttpMethod::Delete => assert(l =~= "delete"@),
        HttpMethod::Options => assert(l =~= "options"@),
        HttpMethod::Head => {
            assert(l =~= "head"@);
            assert(l[0] != "post"@[0]);
        },
    }
}

/// Moving to the next editor tab and back (or back and forward) returns to
/// the tab.
pub proof fn law_tab_round_trip(t: EditorTab)
    ensures
        tab_at(tab_index(tab_at(tab_index(t) + 1)) + 3) == t,
        tab_at(tab_index(tab_at(tab_index(t) + 3)) + 1) == t,
{
}

/// Moving to the next body type and back (or back and forward) returns to
/// the body type.
pub proof fn law_body_type_round_trip(b: BodyType)
    ensures
        body_type_at(body_type_index(body_type_at(body_type_index(b) + 1)) + 3) == b,
        body_type_at(body_type_index(body_type_at(body_type_index(b) + 3)) + 1) == b,
{
}

/// Moving to the next response view and back (or back and forward)
/// returns to the view.
pub proof fn law_view_round_trip(v: ResponseView)
    ensures
        view_at((view_index(view_at((view_index(v) + 1) % 5)) + 4) % 5) == v,
        view_at((view_index(view_at((view_index(v) + 4) % 5)) + 1) % 5) == v,
{
}

/// Typing a character and then deleting backwards restores the text and
/// the cursor.
pub proof fn law_insert_then_backspace(b0: TextBuffer, c: char, b1: TextBuffer, b2: TextBuffer)
    requires
        b0.wf(),
        buffer_op_done(BufferOp::Insert(c), b0, b1),
        buffer_op_done(BufferOp::Backspace, b1, b2),
    ensures
        b2.text@ == b0.text@,
        b2.cursor == b0.cursor,
{
    let k = b0.cursor_index();
    let s = b0.text@;
    let t = b1.text@;
    assert(b1.cursor != 0) by {
        crate::utf8len::lemma_encode_single(c);
    }
    assert(t.take(k) =~= s.take(k));
    assert(t.skip(k + 1) =~= s.skip(k));
    assert(b2.text@ =~= s.take(k) + s.skip(k));
    assert(s =~= s.take(k) + s.skip(k));
    let j = choose|j: int| crate::app::cursor_at(s, b0.cursor as int, j);
    crate::app::lemma_cursor_at_unique(s, b0.cursor as int, j, k);
}

/// Moving the cursor right and then left, away from the end of the text,
/// returns it to where it was.
pub proof fn law_right_then_left(b0: TextBuffer, b1: TextBuffer, b2: TextBuffer)
    requires
        b0.wf(),
        b0.cursor_index() < b0.text@.len(),
        buffer_op_done(BufferOp::Right, b0, b1),
        buffer_op_done(BufferOp::Left, b1, b2),
    ensures
        b2.text == b0.text,
        b2.cursor == b0.cursor,
{
    let k = b0.cursor_index();
    let j = choose|j: int| crate::app::cursor_at(b0.text@, b0.cursor as int, j);
    crate::app::lemma_cursor_at_unique(b0.text@, b0.cursor as int, j, k);
}

/// Moving the focus to the next pane and back (or back and forward)
/// returns it to the pane; three moves forward go all the way round.
pub proof fn law_focus_round_trip(f: crate::app::FocusPane)
    ensures
        crate::session::prev_pane(crate::session::next_pane(f)) == f,
        crate::session::next_pane(crate::session::prev_pane(f)) == f,
        crate::session::next_pane(crate::session::next_pane(crate::session::next_pane(f))) == f,
{
}

/// Every executor error is either worth another attempt or permanent,
/// never both.
pub proof fn law_error_classes_partition(e: ExecutorError)
    ensures
        spec_is_retryable(e) != spec_is_permanent(e),
{
}

/// Reading a key right after writing it gives the written value; other
/// keys keep their values.
pub proof fn law_keyed_read_after_write<V>(e: Seq<(String, V)>, key: String, v: V, other: Seq<char>)
    ensures
        entries_map(e.push((key, v))).contains_key(key@),
        entries_map(e.push((key, v)))[key@] == v,
        other != key@ ==> entries_map(e.push((key, v))).contains_key(other) == entries_map(e).contains_key(other),
        other != key@ && entries_map(e).contains_key(other) ==> entries_map(e.push((key, v)))[other] == entries_map(e)[other],
{
    assert(e.push((key, v)).drop_last() =~= e);
}

/// Editing the selected route's draft leaves the drafts of every other
/// route as they were.
pub proof fn law_other_drafts_kept(a: App, b: App, d1: crate::app::RequestDraft, k: Seq<char>)
    requires
        current_replaced(a, b, d1),
        k != draft_key(a),
    ensures
        b.drafts@.contains_key(k) == a.drafts@.contains_key(k),
        a.drafts@.contains_key(k) ==> b.drafts@[k] == a.drafts@[k],
{
}

/// A sequence without repeated entries.
pub open spec fn no_repeats(s: Seq<Seq<char>>) -> bool {
    forall|i: int, j: int| 0 <= i < j < s.len() ==> s[i] != s[j]
}

/// Ending input keeps the URL history free of repeated entries, and keeps
/// every entry it had, behind the one it may add in front.
pub proof fn law_history_stays_unique(a: App, b: App)
    requires
        editing_stopped(a, b),
        no_repeats(string_texts(a.url_history@)),
    ensures
        no_repeats(string_texts(b.url_history@)),
        string_texts(b.url_history@).len() >= string_texts(a.url_history@).len(),
        string_texts(b.url_history@).skip(string_texts(b.url_history@).len() - string_texts(a.url_history@).len())
            == string_texts(a.url_history@),
{
    let h = string_texts(a.url_history@);
    let n = string_texts(b.url_history@);
    if n.len() > h.len() {
        assert(n.skip(1) =~= h);
        assert forall|i: int, j: int| 0 <= i < j < n.len() implies n[i] != n[j] by {
            if i == 0 {
                assert(n[j] == h[j - 1]);
                assert(h.contains(h[j - 1]));
            } else {
                assert(n[i] == h[i - 1]);
                assert(n[j] == h[j - 1]);
            }
        }
    } else {
        assert(n.skip(0) =~= n);
    }
}

/// Cycling the URL history one way and then the other returns to the entry
/// it was on.
pub proof fn law_history_cycle_back(a: App, up: bool)
    requires
        a.url_history@.len() > 0,
        a.url_history_index matches Some(i) && i < a.url_history@.len(),
    ensures
        history_target(with_history_index(a, history_target(a, up)), !up) == a.url_history_index->Some_0,
{
    let len = a.url_history@.len() as int;
    assert(a.url_history@.len() == a.url_history.len());
    let i = a.url_history_index->Some_0 as int;
    let t = history_target(a, up);
    assert(0 <= t < len) by (nonlinear_arith)
        requires
            t == (if up { (i + 1) % len } else { (i + len - 1) % len }),
            0 <= i < len,
    ;
    let mid = with_history_index(a, t);
    assert(mid.url_history_index == Some(t as usize));
    assert((t as usize) as int == t);
    assert(mid.url_history@.len() == len);
    if up {
        if i + 1 < len {
            assert((i + 1) % len == i + 1) by (nonlinear_arith) requires 0 <= i + 1 < len;
            assert((i + 1 + len - 1) % len == i) by (nonlinear_arith) requires 0 <= i < len;
        } else {
            assert((i + 1) % len == 0) by (nonlinear_arith) requires i + 1 == len, len > 0;
            assert((0 + len - 1) % len == i) by (nonlinear_arith) requires i == len - 1, len > 0;
        }
    } else {
        if i > 0 {
            assert((i + len - 1) % len == i - 1) by (nonlinear_arith) requires 0 < i < len;
            assert((i - 1 + 1) % len == i) by (nonlinear_arith) requires 0 < i < len;
        } else {
            assert((i + len - 1) % len == len - 1) by (nonlinear_arith) requires i == 0, len > 0;
            assert((len - 1 + 1) % len == 0) by (nonlinear_arith) requires len > 0;
        }
    }
}

/// Scrolling the viewer down one line and back up (away from the largest
/// offset), or up and back down (away from the top), returns to the offset.
pub proof fn law_scroll_round_trip(s: u16)
    ensures
        s < u16::MAX ==> scrolled(scrolled(s, 1), -1) == s,
        s > 0 ==> scrolled(scrolled(s, -1), 1) == s,
{
}

/// Every header or parameter sent comes from an enabled row with a
/// non-empty key, with that row's value.
pub proof fn law_only_active_rows_sent(rows: Seq<KVRow>, i: int)
    requires
        0 <= i < active_pairs(rows).len(),
    ensures
        exists|j: int| {
            &&& 0 <= j < rows.len()
            &&& (#[trigger] rows[j]).enabled
            &&& rows[j].key.text@.len() > 0
            &&& active_pairs(rows)[i] == (rows[j].key.text@, rows[j].value.text@)
        },
    decreases rows.len(),
{
    let rest = rows.drop_last();
    if i < active_pairs(rest).len() {
        law_only_active_rows_sent(rest, i);
        let j = choose|j: int| {
            &&& 0 <= j < rest.len()
            &&& (#[trigger] rest[j]).enabled
            &&& rest[j].key.text@.len() > 0
            &&& active_pairs(rest)[i] == (rest[j].key.text@, rest[j].value.text@)
        };
        assert(rows[j] == rest[j]);
    } else {
        let j = rows.len() - 1;
        assert(rows[j] == rows.last());
    }
}

/// The `ssh` command gets a `-p` flag, right after the host-key options,
/// exactly when the port is not 22.
pub proof fn law_port_flag(c: SshConfig)
    ensures
        (ssh_arg_list(c)[4] == "-p"@) <==> c.port != 22,
{
    reveal_strlit("-p");
    reveal_strlit("-i");
    reveal_strlit("@");
    if c.port == 22 {
        match c.identity {
            Some(i) => {
                assert(ssh_arg_list(c)[4] == "-i"@);
                assert("-i"@[1] != "-p"@[1]);
            },
            None => {
                let d = crate::remote::ssh_destination(c);
                assert(ssh_arg_list(c)[4] == d);
                if d == "-p"@ {
                    assert(d.len() == c.user@.len() + 1 + c.host@.len());
                    if c.user@.len() == 0 {
                        assert(d[0] == '@');
                    } else {
                        assert(c.user@.len() == 1 && c.host@.len() == 0);
                        assert(d[1] == '@');
                    }
                }
            },
        }
    }
}

/// A scan's listing is determined by the routes it was given: two listings
/// of the same items (in route order, each the first item met with its key,
/// every item's key listed) are the same.
pub proof fn law_listing_determined(items: Seq<RouteInfo>, o1: Seq<RouteInfo>, o2: Seq<RouteInfo>)
    requires
        lists_routes(o1, items),
        lists_routes(o2, items),
    ensures
        o1 == o2,
{
    let n = items.len() as int;
    assert forall|i: int| 0 <= i < o1.len() implies key_listed(o2, route_key(#[trigger] o1[i])) by {
        assert(met_first_within(items, o1[i], n));
        let k = choose|k: int|
            0 <= k < n && #[trigger] items[k] == o1[i] && forall|j: int|
                0 <= j < k ==> route_key(#[trigger] items[j]) != route_key(o1[i]);
        assert(key_listed(o2, route_key(items[k])));
    }
    assert forall|i: int| 0 <= i < o2.len() implies key_listed(o1, route_key(#[trigger] o2[i])) by {
        assert(met_first_within(items, o2[i], n));
        let k = choose|k: int|
            0 <= k < n && #[trigger] items[k] == o2[i] && forall|j: int|
                0 <= j < k ==> route_key(#[trigger] items[j]) != route_key(o2[i]);
        assert(key_listed(o1, route_key(items[k])));
    }
    lemma_ordered_same_keys(o1, o2);
    assert forall|i: int| 0 <= i < o1.len() implies #[trigger] o1[i] == o2[i] by {
        lemma_first_met_unique(items, o1[i], o2[i], n);
    }
    assert(o1 =~= o2);
}

/// Listing routes that are already listed gives them back unchanged.
pub proof fn law_listing_settled(items: Seq<RouteInfo>, o: Seq<RouteInfo>, o2: Seq<RouteInfo>)
    requires
        lists_routes(o, items),
        lists_routes(o2, o),
    ensures
        o2 == o,
{
    let n = o.len() as int;
    assert forall|i: int| 0 <= i < o.len() implies met_first_within(o, #[trigger] o[i], n) by {
        assert forall|j: int| 0 <= j < i implies route_key(#[trigger] o[j]) != route_key(o[i]) by {
            lemma_lex_asymmetric(route_key(o[j]), route_key(o[i]));
        }
        assert(o[i] == o[i]);
    }
    assert forall|k: int| 0 <= k < o.len() implies key_listed(o, route_key(#[trigger] o[k])) by {
        assert(route_key(o[k]) == route_key(o[k]));
    }
    assert(in_route_order(o));
    law_listing_determined(o, o, o2);
}

/// Every method's wire name is its standard token: ASCII capital letters
/// only, and it names the method back.
pub proof fn law_method_names_are_upper_case(m: HttpMethod)
    ensures
        method_name(m).len() > 0,
        forall|i: int| 0 <= i < method_name(m).len() ==> 'A' <= #[trigger] method_name(m)[i] <= 'Z',
        parse_method(method_name(m)) == Some(m),
{
    reveal_strlit("GET");
    reveal_strlit("POST");
    reveal_strlit("PUT");
    reveal_strlit("PATCH");
    reveal_strlit("DELETE");
    reveal_strlit("OPTIONS");
    reveal_strlit("HEAD");
    law_method_name_parses(m);
}

/// In the viewer, outside any dialog or input, the scroll keys move the
/// offset and change nothing else: PageUp ten lines up and PageDown ten
/// down, Up/`j` one up and Down/`k` one down, stopping at 0 and at the
/// largest offset; Home goes to the top and End to the largest offset.
pub proof fn law_viewer_scroll_keys(a: App, k: Key, b: App, e: Effect)
    requires
        !a.view_picker_open,
        a.custom_route_dialog is None,
        !a.input_mode,
        !a.body_type_focused,
        a.focus == crate::app::FocusPane::Viewer,
        key_outcome(a, k, b, e),
    ensures
        k == Key::PageUp ==> e is Nothing && b == (App {
            viewer_scroll: if a.viewer_scroll >= 10 { (a.viewer_scroll - 10) as u16 } else { 0 },
            ..a
        }),
        k == Key::PageDown ==> e is Nothing && b == (App {
            viewer_scroll: if a.viewer_scroll <= 65525 { (a.viewer_scroll + 10) as u16 } else { 65535 },
            ..a
        }),
        (k == Key::Up || k == Key::Char('j')) ==> e is Nothing && b == (App {
            viewer_scroll: if a.viewer_scroll >= 1 { (a.viewer_scroll - 1) as u16 } else { 0 },
            ..a
        }),
        (k == Key::Down || k == Key::Char('k')) ==> e is Nothing && b == (App {
            viewer_scroll: if a.viewer_scroll <= 65534 { (a.viewer_scroll + 1) as u16 } else { 65535 },
            ..a
        }),
        k == Key::Home ==> e is Nothing && b == (App { viewer_scroll: 0, ..a }),
        k == Key::End ==> e is Nothing && b == (App { viewer_scroll: 65535, ..a }),
{
}

/// `flat_map` holds every element that `f` gives for an element of `s`.
proof fn lemma_flat_map_has<A, B>(s: Seq<A>, f: spec_fn(A) -> Seq<B>, i: int, j: int)
    requires
        0 <= i < s.len(),
        0 <= j < f(s[i]).len(),
    ensures
        flat_map(s, f).contains(f(s[i])[j]),
    decreases s.len(),
{
    let rest = flat_map(s.drop_last(), f);
    let last = f(s.last());
    assert(flat_map(s, f) == rest + last);
    if i == s.len() - 1 {
        assert((rest + last)[rest.len() + j] == last[j]);
    } else {
        lemma_flat_map_has(s.drop_last(), f, i, j);
        let k = choose|k: int| 0 <= k < rest.len() && rest[k] == f(s[i])[j];
        assert((rest + last)[k] == rest[k]);
    }
}

/// In a file that mentions express or fastify (or `app.` / `router.`),
/// every match of `app.<method>('<path>'` gives a route whose method is the
/// one named before the parenthesis, whose path is the quoted text, whose
/// line is the line of the match, and whose framework is fastify when the
/// file mentions it and express otherwise.
pub proof fn law_express_routes_follow_matches(source: Seq<char>, content: Seq<char>, i: int, m: HttpMethod)
    requires
        seq_contains(content, "express"@) || seq_contains(content, "fastify"@) || seq_contains(content, "router."@)
            || seq_contains(content, "app."@),
        0 <= i < matches_of(EXPRESS_RE@, content).len(),
        group_at(matches_of(EXPRESS_RE@, content)[i], 0) is Some,
        group_at(matches_of(EXPRESS_RE@, content)[i], 2) is Some,
        group_at(matches_of(EXPRESS_RE@, content)[i], 1) matches Some(g) && parse_method(g.text) == Some(m),
    ensures
        spec_extract_express(source, content).contains(
            RouteView {
                method: m,
                path: group_at(matches_of(EXPRESS_RE@, content)[i], 2)->Some_0.text,
                framework: if seq_contains(content, "fastify"@) { "fastify"@ } else { "express"@ },
                source,
                line: line_at(content, group_at(matches_of(EXPRESS_RE@, content)[i], 0)->Some_0.start),
            },
        ),
{
    let caps = matches_of(EXPRESS_RE@, content);
    let fw = if seq_contains(content, "fastify"@) { "fastify"@ } else { "express"@ };
    let f = crate::scanner::simple_route_fn(source, content, 1, 2, fw, false);
    assert(f(caps[i]).len() == 1);
    lemma_flat_map_has(caps, f, i, 0);
}

proof fn lemma_count_concat(a: Seq<char>, b: Seq<char>, x: char)
    ensures
        count_char(a + b, x) == count_char(a, x) + count_char(b, x),
    decreases b.len(),
{
    if b.len() == 0 {
        assert(a + b =~= a);
    } else {
        assert((a + b).drop_last() =~= a + b.drop_last());
        lemma_count_concat(a, b.drop_last(), x);
    }
}

proof fn lemma_count_single(c: char, x: char)
    ensures
        count_char(seq![c], x) == if c == x { 1int } else { 0 },
{
    assert(seq![c].drop_last() =~= Seq::<char>::empty());
    assert(seq![c].last() == c);
    assert(count_char(Seq::<char>::empty(), x) == 0);
}

proof fn lemma_count_first(s: Seq<char>, x: char)
    requires
        s.len() > 0,
    ensures
        count_char(s, x) == count_char(s.drop_first(), x) + if s[0] == x { 1int } else { 0 },
{
    assert(s =~= seq![s[0]] + s.drop_first());
    lemma_count_concat(seq![s[0]], s.drop_first(), x);
    lemma_count_single(s[0], x);
}

proof fn lemma_count_replace(s: Seq<char>, c: char, r: Seq<char>, x: char)
    ensures
        count_char(replace_char(s, c, r), x) == count_char(s, x) - (if x == c { count_char(s, c) } else { 0 })
            + count_char(s, c) * count_char(r, x),
    decreases s.len(),
{
    if s.len() > 0 {
        lemma_count_replace(s.drop_last(), c, r, x);
        let piece = if s.last() == c { r } else { seq![s.last()] };
        lemma_count_concat(replace_char(s.drop_last(), c, r), piece, x);
        lemma_count_single(s.last(), x);
        lemma_count_single(s.last(), c);
        assert(replace_char(s, c, r) == replace_char(s.drop_last(), c, r) + piece);
        let n = count_char(s.drop_last(), c);
        let k = count_char(r, x);
        assert((n + 1) * k == n * k + k) by (nonlinear_arith);
    }
}

proof fn lemma_count_trim_start(s: Seq<char>, c: char, x: char)
    requires
        x != c,
    ensures
        count_char(trim_start_char(s, c), x) == count_char(s, x),
    decreases s.len(),
{
    if s.len() > 0 && s[0] == c {
        lemma_count_first(s, x);
        lemma_count_trim_start(s.drop_first(), c, x);
    }
}

proof fn lemma_count_rooted(s: Seq<char>, x: char)
    requires
        x != '/',
    ensures
        count_char(rooted(s), x) == count_char(s, x),
        rooted(s).len() > 0 && rooted(s)[0] == '/',
{
    reveal_strlit("/");
    assert("/"@ =~= seq!['/']);
    lemma_count_single('/', x);
    if s.len() > 0 {
        lemma_count_concat("/"@, s, x);
    }
}

/// How often a character other than `/` occurs in the App Router route of
/// a directory.
proof fn lemma_count_app_route(d: Seq<char>, x: char)
    requires
        x != '/',
    ensures
        count_char(rooted(trim_start_char(forward_slashes(bracket_params(d)), '/')), x) == count_char(d, x)
            - (if x == '[' || x == ']' || x == '\\' { count_char(d, x) } else { 0 })
            + (if x == ':' { count_char(d, '[') } else { 0 }),
{
    reveal_strlit(":");
    reveal_strlit("");
    reveal_strlit("/");
    assert(":"@ =~= seq![':']);
    assert("/"@ =~= seq!['/']);
    assert(""@ =~= Seq::<char>::empty());
    lemma_count_single(':', x);
    lemma_count_single('/', x);
    assert(count_char(Seq::<char>::empty(), x) == 0);
    let b1 = replace_char(d, '[', ":"@);
    let b2 = replace_char(b1, ']', ""@);
    let f = replace_char(b2, '\\', "/"@);
    let t = trim_start_char(f, '/');
    lemma_count_replace(d, '[', ":"@, x);
    lemma_count_replace(b1, ']', ""@, x);
    lemma_count_replace(b2, '\\', "/"@, x);
    lemma_count_trim_start(f, '/', x);
    lemma_count_rooted(t, x);
    let n1 = count_char(d, '[');
    let n2 = count_char(b1, ']');
    let n3 = count_char(b2, '\\');
    assert(n1 * 0 == 0 && n2 * 0 == 0 && n3 * 0 == 0 && n1 * 1 == n1) by (nonlinear_arith);
    if x == ']' {
        lemma_count_replace(d, '[', ":"@, ']');
    }
    if x == '\\' {
        lemma_count_replace(d, '[', ":"@, '\\');
        lemma_count_replace(b1, ']', ""@, '\\');
    }
}

/// The route of a Next.js App Router file starts at `/` and holds no `[`,
/// `]` or backslash: every `[name]` segment of its directory shows as
/// `:name`, so it has one `:` for each `:` or `[` of the directory.
pub proof fn law_nextjs_app_params(p: Seq<char>, m: Seq<char>, a: Seq<char>, d: Seq<char>, r: Seq<char>)
    requires
        pick_marker(p, "/app/"@, "\\app\\"@) == Some(m),
        after_marker(p, m) == Some(a),
        path_parent(a) == Some(d),
        spec_nextjs_app_path(p) == Some(r),
    ensures
        r.len() > 0 && r[0] == '/',
        count_char(r, '[') == 0,
        count_char(r, ']') == 0,
        count_char(r, '\\') == 0,
        count_char(r, ':') == count_char(d, ':') + count_char(d, '['),
{
    let t = trim_start_char(forward_slashes(bracket_params(d)), '/');
    assert(r == rooted(t));
    lemma_count_app_route(d, '[');
    lemma_count_app_route(d, ']');
    lemma_count_app_route(d, '\\');
    lemma_count_app_route(d, ':');
    lemma_count_rooted(t, ':');
}

proof fn lemma_last_char_none(s: Seq<char>, c: char)
    requires
        forall|j: int| 0 <= j < s.len() ==> s[j] != c,
    ensures
        last_char_index(s, c) is None,
    decreases s.len(),
{
    if s.len() > 0 {
        lemma_last_char_none(s.drop_last(), c);
    }
}

proof fn lemma_last_char_at(s: Seq<char>, c: char, k: int)
    requires
        0 <= k < s.len(),
        s[k] == c,
        forall|j: int| k < j < s.len() ==> s[j] != c,
    ensures
        last_char_index(s, c) == Some(k),
    decreases s.len(),
{
    if k < s.len() - 1 {
        lemma_last_char_at(s.drop_last(), c, k);
    }
}

proof fn lemma_replace_absent(s: Seq<char>, c: char, r: Seq<char>)
    requires
        forall|j: int| 0 <= j < s.len() ==> s[j] != c,
    ensures
        replace_char(s, c, r) == s,
    decreases s.len(),
{
    if s.len() > 0 {
        lemma_replace_absent(s.drop_last(), c, r);
        assert(s.drop_last() + seq![s.last()] =~= s);
    }
}

proof fn lemma_method_suffix_has_no_dot(suf: Seq<char>)
    requires
        is_nuxt_method_suffix(suf),
    ensures
        forall|k: int| 0 <= k < suf.len() ==> suf[k] != '.',
{
    reveal_strlit("get");
    reveal_strlit("post");
    reveal_strlit("put");
    reveal_strlit("patch");
    reveal_strlit("delete");
    reveal_strlit("head");
    reveal_strlit("options");
}

/// A Nuxt file stem that stands for its directory: `index`, alone or with a
/// method suffix such as `index.get`.
pub open spec fn is_nuxt_index_stem(st: Seq<char>) -> bool {
    st == "index"@ || (st.len() > 6 && st.take(6) == "index."@ && is_nuxt_method_suffix(st.skip(6)))
}

/// A Nuxt `index` file (with or without a method suffix) has the route of
/// its directory: `/api` (under `server/api/`) or nothing, then the
/// directory below the marker; `/api` or `/` alone for the marker's own
/// directory.  The route never gains an `index` segment for such a file.
pub proof fn law_nuxt_index_is_directory(p: Seq<char>, in_api: bool, a: Seq<char>, st: Seq<char>, d: Seq<char>)
    requires
        after_marker(p, nuxt_marker(p, in_api)) == Some(a),
        path_file_stem(a) == Some(st),
        is_nuxt_index_stem(st),
        path_parent(a) == Some(d),
        forall|j: int| 0 <= j < d.len() ==> d[j] != '[' && d[j] != ']' && d[j] != '\\',
    ensures
        spec_nuxt_route_path(p, in_api) == if trim_slashes(d).len() == 0 {
            if in_api { "/api"@ } else { "/"@ }
        } else {
            (if in_api { "/api"@ } else { ""@ }) + "/"@ + trim_slashes(d)
        },
{
    reveal_strlit("index");
    reveal_strlit("index.");
    reveal_strlit("get");
    reveal_strlit("post");
    reveal_strlit("put");
    reveal_strlit("patch");
    reveal_strlit("delete");
    reveal_strlit("head");
    reveal_strlit("options");
    reveal_strlit(":");
    reveal_strlit("");
    reveal_strlit("/");
    if st == "index"@ {
        lemma_last_char_none(st, '.');
    } else {
        let suf = st.skip(6);
        assert(st.take(6)[5] == st[5]);
        assert("index."@[5] == '.');
        lemma_method_suffix_has_no_dot(suf);
        assert forall|j: int| 5 < j < st.len() implies st[j] != '.' by {
            assert(st[j] == suf[j - 6]);
        }
        lemma_last_char_at(st, '.', 5);
        assert(st.take(5) =~= "index"@);
    }
    let par = forward_slashes(d);
    lemma_replace_absent(d, '\\', "/"@);
    assert(par == d);
    lemma_replace_absent(d, '[', ":"@);
    lemma_replace_absent(d, ']', ""@);
    assert(bracket_params(d) == d);
}

proof fn lemma_count_bracket(s: Seq<char>, x: char)
    ensures
        count_char(bracket_params(s), x) == count_char(s, x)
            - (if x == '[' || x == ']' { count_char(s, x) } else { 0 })
            + (if x == ':' { count_char(s, '[') } else { 0 }),
{
    reveal_strlit(":");
    reveal_strlit("");
    assert(":"@ =~= seq![':']);
    assert(""@ =~= Seq::<char>::empty());
    lemma_count_single(':', x);
    assert(count_char(Seq::<char>::empty(), x) == 0);
    let b1 = replace_char(s, '[', ":"@);
    lemma_count_replace(s, '[', ":"@, x);
    lemma_count_replace(b1, ']', ""@, x);
    let n1 = count_char(s, '[');
    let n2 = count_char(b1, ']');
    assert(n1 * 0 == 0 && n2 * 0 == 0 && n1 * 1 == n1) by (nonlinear_arith);
    if x == ']' {
        lemma_count_replace(s, '[', ":"@, ']');
    }
}

proof fn lemma_count_forward(s: Seq<char>, x: char)
    requires
        x != '\\',
        x != '/',
    ensures
        count_char(forward_slashes(s), x) == count_char(s, x),
{
    reveal_strlit("/");
    assert("/"@ =~= seq!['/']);
    lemma_count_single('/', x);
    lemma_count_replace(s, '\\', "/"@, x);
    let n = count_char(s, '\\');
    assert(n * 0 == 0) by (nonlinear_arith);
}

/// The route of a Next.js Pages Router file that is not an `index` file
/// starts at `/` and holds no `[` or `]`: every `[name]` of its directory
/// and file stem shows as `:name`, one `:` for each `:` or `[` there.
pub proof fn law_nextjs_pages_params(p: Seq<char>, m: Seq<char>, a: Seq<char>, st: Seq<char>, r: Seq<char>)
    requires
        pick_marker(p, "/pages/"@, "\\pages\\"@) == Some(m),
        after_marker(p, m) == Some(a),
        path_file_stem(a) == Some(st),
        st != "index"@,
        spec_nextjs_pages_path(p) == Some(r),
    ensures
        r.len() > 0 && r[0] == '/',
        count_char(r, '[') == 0,
        count_char(r, ']') == 0,
        count_char(r, ':') == count_char(st, ':') + count_char(st, '[') + match path_parent(a) {
            Some(d) => count_char(d, ':') + count_char(d, '['),
            None => 0,
        },
{
    reveal_strlit("/");
    assert("/"@ =~= seq!['/']);
    let par = match path_parent(a) {
        Some(d) => forward_slashes(d),
        None => Seq::empty(),
    };
    let base = if par.len() == 0 { st } else { par + "/"@ + st };
    assert(r == "/"@ + bracket_params(base));
    let xs = seq!['[', ']', ':'];
    assert forall|j: int| 0 <= j < 3 implies {
        let x = #[trigger] xs[j];
        &&& count_char(par, x) == match path_parent(a) {
            Some(d) => count_char(d, x),
            None => 0,
        }
        &&& count_char(base, x) == count_char(par, x) + count_char(st, x)
        &&& count_char(r, x) == count_char(bracket_params(base), x)
    } by {
        let x = xs[j];
        lemma_count_single('/', x);
        assert(count_char(Seq::<char>::empty(), x) == 0);
        match path_parent(a) {
            Some(d) => lemma_count_forward(d, x),
            None => {},
        }
        if par.len() > 0 {
            lemma_count_concat(par, "/"@, x);
            lemma_count_concat(par + "/"@, st, x);
        } else {
            assert(count_char(par, x) == 0);
        }
        lemma_count_concat("/"@, bracket_params(base), x);
    }
    assert(xs[0] == '[' && xs[1] == ']' && xs[2] == ':');
    lemma_count_bracket(base, '[');
    lemma_count_bracket(base, ']');
    lemma_count_bracket(base, ':');
}

} // verus!
