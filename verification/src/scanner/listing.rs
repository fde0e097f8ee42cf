//! The order in which a scan lists its routes, and the listing itself.
//!
//! Routes are ordered by method (in declaration order), then path, then
//! framework, then source file, then line.  Texts are compared character by
//! character, a proper prefix first.  A source file is compared as a path,
//! component by component: a leading `/` is a root component and a leading
//! `.` (alone or before a `/`) a current-directory component; empty and `.`
//! pieces between separators count for nothing, `..` is a parent component,
//! and root < current < parent < any named component.
//!
//! Each route is encoded as a sequence of numbers whose lexicographic order is
//! that order: a text becomes its character codes raised by one and closed by
//! a zero, so that no encoding is a proper prefix of another.
use vstd::prelude::*;
use crate::app::{method_index, HttpMethod};
use crate::keyed::KeyedList;
use crate::text::{chars_of, slice_range};
use super::{route_id, PersistedRoute, RouteInfo, ScannerReport};

verus! {

// ---------------------------------------------------------------------------
// Lexicographic order on number sequences
// ---------------------------------------------------------------------------

/// `a` comes before `b` in lexicographic order, a proper prefix first.
pub open spec fn lex_less(a: Seq<u64>, b: Seq<u64>) -> bool
    decreases a.len(),
{
    if b.len() == 0 {
        false
    } else if a.len() == 0 {
        true
    } else if a[0] != b[0] {
        a[0] < b[0]
    } else {
        lex_less(a.drop_first(), b.drop_first())
    }
}

/// No sequence comes before itself.
pub proof fn lemma_lex_irreflexive(a: Seq<u64>)
    ensures
        !lex_less(a, a),
    decreases a.len(),
{
    if a.len() > 0 {
        lemma_lex_irreflexive(a.drop_first());
    }
}

/// The order is transitive.
pub proof fn lemma_lex_transitive(a: Seq<u64>, b: Seq<u64>, c: Seq<u64>)
    requires
        lex_less(a, b),
        lex_less(b, c),
    ensures
        lex_less(a, c),
    decreases a.len(),
{
    if a.len() > 0 && a[0] == b[0] && b[0] == c[0] {
        lemma_lex_transitive(a.drop_first(), b.drop_first(), c.drop_first());
    }
}

/// Of two different sequences, one comes before the other.
pub proof fn lemma_lex_total(a: Seq<u64>, b: Seq<u64>)
    ensures
        lex_less(a, b) || lex_less(b, a) || a == b,
    decreases a.len(),
{
    if a.len() > 0 && b.len() > 0 && a[0] == b[0] {
        lemma_lex_total(a.drop_first(), b.drop_first());
        if a.drop_first() == b.drop_first() {
            assert(a =~= seq![a[0]] + a.drop_first());
            assert(b =~= seq![b[0]] + b.drop_first());
        }
    } else if a.len() == 0 && b.len() == 0 {
        assert(a =~= b);
    }
}

/// A sequence before another is not after it, and differs from it.
pub proof fn lemma_lex_asymmetric(a: Seq<u64>, b: Seq<u64>)
    requires
        lex_less(a, b),
    ensures
        !lex_less(b, a),
        a != b,
{
    lemma_lex_irreflexive(a);
    if lex_less(b, a) {
        lemma_lex_transitive(a, b, a);
    }
}

/// Comparing two sequences with a common prefix is comparing what follows it.
proof fn lemma_lex_skip(a: Seq<u64>, b: Seq<u64>, i: int)
    requires
        0 <= i <= a.len(),
        i <= b.len(),
        a.take(i) == b.take(i),
    ensures
        lex_less(a, b) == lex_less(a.skip(i), b.skip(i)),
    decreases i,
{
    if i == 0 {
        assert(a.skip(0) =~= a);
        assert(b.skip(0) =~= b);
    } else {
        assert(a[0] == a.take(i)[0]);
        assert(b[0] == b.take(i)[0]);
        assert(a.drop_first().take(i - 1) =~= a.take(i).drop_first());
        assert(b.drop_first().take(i - 1) =~= b.take(i).drop_first());
        lemma_lex_skip(a.drop_first(), b.drop_first(), i - 1);
        assert(a.drop_first().skip(i - 1) =~= a.skip(i));
        assert(b.drop_first().skip(i - 1) =~= b.skip(i));
    }
}

/// Compares two sequences: negative when `a` comes first, zero when they are
/// equal, positive when `b` comes first.
pub fn lex_compare(a: &Vec<u64>, b: &Vec<u64>) -> (c: i8)
    ensures
        (c < 0) == lex_less(a@, b@),
        (c == 0) == (a@ == b@),
        (c > 0) == lex_less(b@, a@),
{
    let mut i: usize = 0;
    while i < a.len() && i < b.len()
        invariant
            i <= a@.len(),
            i <= b@.len(),
            a@.take(i as int) == b@.take(i as int),
        decreases a.len() - i,
    {
        if a[i] != b[i] {
            proof {
                lemma_lex_skip(a@, b@, i as int);
                lemma_lex_skip(b@, a@, i as int);
                assert(a@.skip(i as int)[0] == a@[i as int]);
                assert(b@.skip(i as int)[0] == b@[i as int]);
            }
            if a[i] < b[i] {
                return -1;
            } else {
                return 1;
            }
        }
        proof {
            assert(a@.take(i + 1) =~= a@.take(i as int).push(a@[i as int]));
            assert(b@.take(i + 1) =~= b@.take(i as int).push(b@[i as int]));
        }
        i += 1;
    }
    proof {
        lemma_lex_skip(a@, b@, i as int);
        lemma_lex_skip(b@, a@, i as int);
    }
    if a.len() == b.len() {
        proof {
            assert(a@ =~= a@.take(i as int));
            assert(b@ =~= b@.take(i as int));
            lemma_lex_irreflexive(a@);
        }
        0
    } else if a.len() < b.len() {
        -1
    } else {
        1
    }
}

// ---------------------------------------------------------------------------
// Route keys
// ---------------------------------------------------------------------------

/// The number that stands for a character in a key: its code raised by one.
pub open spec fn char_code(c: char) -> u64 {
    ((c as u32) as u64 + 1) as u64
}

/// A text as a key: its character codes raised by one, closed by 0.
pub open spec fn text_key(s: Seq<char>) -> Seq<u64> {
    s.map_values(|c: char| char_code(c)).push(0)
}

/// The `/`-separated pieces of a text, empty ones included (a text without
/// `/` is one piece).
pub open spec fn slash_pieces(s: Seq<char>) -> Seq<Seq<char>>
    decreases s.len(),
{
    if s.len() == 0 {
        seq![Seq::<char>::empty()]
    } else {
        let init = slash_pieces(s.drop_last());
        if s.last() == '/' {
            init.push(Seq::<char>::empty())
        } else {
            init.update(init.len() - 1, init.last().push(s.last()))
        }
    }
}

/// The key of one piece of a path: nothing for an empty or `.` piece, 3 for
/// `..`, else 4 followed by the piece as a text key.
pub open spec fn piece_key(p: Seq<char>) -> Seq<u64> {
    if p.len() == 0 || p == seq!['.'] {
        Seq::empty()
    } else if p == seq!['.', '.'] {
        seq![3u64]
    } else {
        seq![4u64] + text_key(p)
    }
}

/// The keys of a list of pieces, one after the other.
pub open spec fn pieces_key(ps: Seq<Seq<char>>) -> Seq<u64>
    decreases ps.len(),
{
    if ps.len() == 0 {
        Seq::empty()
    } else {
        pieces_key(ps.drop_last()) + piece_key(ps.last())
    }
}

/// The path starts at the root.
pub open spec fn path_has_root(s: Seq<char>) -> bool {
    s.len() > 0 && s[0] == '/'
}

/// The path starts with a current-directory component.
pub open spec fn path_has_cur_dir(s: Seq<char>) -> bool {
    s.len() > 0 && s[0] == '.' && (s.len() == 1 || s[1] == '/')
}

/// A source path as a key: 1 for a root, 2 for a leading current directory,
/// then the keys of the pieces that follow, closed by 0.
pub open spec fn path_key(s: Seq<char>) -> Seq<u64> {
    if path_has_root(s) {
        seq![1u64] + pieces_key(slash_pieces(s.skip(1))) + seq![0u64]
    } else if path_has_cur_dir(s) {
        seq![2u64] + pieces_key(slash_pieces(s.skip(1))) + seq![0u64]
    } else {
        pieces_key(slash_pieces(s)) + seq![0u64]
    }
}

/// A route as a key: method, path, framework, source file, line.
pub open spec fn route_key(r: RouteInfo) -> Seq<u64> {
    seq![method_index(r.method) as u64] + text_key(r.path@) + text_key(r.framework@) + path_key(
        r.source@,
    ) + seq![r.line as u64]
}

proof fn lemma_pieces_nonempty(s: Seq<char>)
    ensures
        slash_pieces(s).len() >= 1,
    decreases s.len(),
{
    if s.len() > 0 {
        lemma_pieces_nonempty(s.drop_last());
    }
}

fn char_code_of(c: char) -> (n: u64)
    ensures
        n == char_code(c),
{
    (c as u32) as u64 + 1
}

fn method_rank(m: HttpMethod) -> (n: u64)
    ensures
        n == method_index(m) as u64,
{
    match m {
        HttpMethod::Get => 0,
        HttpMethod::Post => 1,
        HttpMethod::Put => 2,
        HttpMethod::Patch => 3,
        HttpMethod::Delete => 4,
        HttpMethod::Options => 5,
        HttpMethod::Head => 6,
    }
}

fn push_text_key(k: &mut Vec<u64>, v: &[char])
    ensures
        final(k)@ == old(k)@ + text_key(v@),
{
    let ghost k0 = k@;
    let mut i: usize = 0;
    while i < v.len()
        invariant
            i <= v@.len(),
            k@ == k0 + v@.take(i as int).map_values(|c: char| char_code(c)),
        decreases v.len() - i,
    {
        let n = char_code_of(v[i]);
        k.push(n);
        proof {
            assert(v@.take(i + 1).map_values(|c: char| char_code(c)) =~= v@.take(i as int).map_values(
                |c: char| char_code(c),
            ).push(char_code(v@[i as int])));
        }
        i += 1;
    }
    k.push(0);
    proof {
        assert(v@.take(v@.len() as int) =~= v@);
        assert(k@ =~= k0 + text_key(v@));
    }
}

fn push_piece_key(k: &mut Vec<u64>, v: &[char], a: usize, b: usize)
    requires
        a <= b <= v@.len(),
    ensures
        final(k)@ == old(k)@ + piece_key(v@.subrange(a as int, b as int)),
{
    let ghost p = v@.subrange(a as int, b as int);
    if b == a {
        assert(k@ =~= k@ + piece_key(p));
        return;
    }
    if b - a == 1 && v[a] == '.' {
        assert(p =~= seq!['.']);
        assert(k@ =~= k@ + piece_key(p));
        return;
    }
    if b - a == 2 && v[a] == '.' && v[a + 1] == '.' {
        assert(p =~= seq!['.', '.']);
        k.push(3);
        return;
    }
    proof {
        if p == seq!['.'] {
            assert(p[0] == '.');
        }
        if p == seq!['.', '.'] {
            assert(p[0] == '.' && p[1] == '.');
        }
    }
    k.push(4);
    let piece = slice_range(v, a, b);
    push_text_key(k, piece.as_slice());
}

fn push_path_key(k: &mut Vec<u64>, s: &str)
    ensures
        final(k)@ == old(k)@ + path_key(s@),
{
    let v = chars_of(s);
    let n = v.len();
    let ghost k0 = k@;
    let start: usize = if n > 0 && v[0] == '/' {
        k.push(1);
        1
    } else if n > 0 && v[0] == '.' && (n == 1 || v[1] == '/') {
        k.push(2);
        1
    } else {
        0
    };
    let ghost head = k@.skip(k0.len() as int);
    proof {
        assert(k@ =~= k0 + head);
        assert(v@.subrange(start as int, start as int) =~= Seq::<char>::empty());
        assert(slash_pieces(v@.subrange(start as int, start as int)).drop_last() =~= Seq::<Seq<char>>::empty());
    }
    let mut seg: usize = start;
    let mut i: usize = start;
    while i < n
        invariant
            start <= seg <= i <= n,
            n == v@.len(),
            k@ == k0 + head + pieces_key(slash_pieces(v@.subrange(start as int, i as int)).drop_last()),
            slash_pieces(v@.subrange(start as int, i as int)).last() == v@.subrange(seg as int, i as int),
        decreases n - i,
    {
        let ghost t = v@.subrange(start as int, i as int);
        let ghost t2 = v@.subrange(start as int, i + 1);
        proof {
            assert(t2.drop_last() =~= t);
            lemma_pieces_nonempty(t);
        }
        if v[i] == '/' {
            push_piece_key(k, v.as_slice(), seg, i);
            seg = i + 1;
            proof {
                let ps = slash_pieces(t);
                assert(slash_pieces(t2) == ps.push(Seq::<char>::empty()));
                assert(slash_pieces(t2).drop_last() =~= ps);
                assert(ps.drop_last().push(ps.last()) =~= ps);
                assert(pieces_key(ps) == pieces_key(ps.drop_last()) + piece_key(ps.last()));
                assert(v@.subrange(seg as int, i + 1) =~= Seq::<char>::empty());
            }
        } else {
            proof {
                let ps = slash_pieces(t);
                assert(slash_pieces(t2) == ps.update(ps.len() - 1, ps.last().push(v@[i as int])));
                assert(slash_pieces(t2).drop_last() =~= ps.drop_last());
                assert(v@.subrange(seg as int, i + 1) =~= v@.subrange(seg as int, i as int).push(v@[i as int]));
            }
        }
        i += 1;
    }
    push_piece_key(k, v.as_slice(), seg, n);
    k.push(0);
    proof {
        let rest = v@.subrange(start as int, n as int);
        let ps = slash_pieces(rest);
        lemma_pieces_nonempty(rest);
        assert(ps.drop_last().push(ps.last()) =~= ps);
        assert(pieces_key(ps) == pieces_key(ps.drop_last()) + piece_key(ps.last()));
        assert(rest =~= s@.skip(start as int));
        if start == 0 {
            assert(rest =~= s@);
            assert(head =~= Seq::<u64>::empty());
        } else if path_has_root(s@) {
            assert(head =~= seq![1u64]);
        } else {
            assert(head =~= seq![2u64]);
        }
        assert(k@ =~= k0 + path_key(s@));
    }
}

/// The key of a route.
pub fn route_key_of(r: &RouteInfo) -> (k: Vec<u64>)
    ensures
        k@ == route_key(*r),
{
    let mut k: Vec<u64> = Vec::new();
    let m = method_rank(r.method);
    k.push(m);
    let p = chars_of(r.path.as_str());
    push_text_key(&mut k, p.as_slice());
    let f = chars_of(r.framework.as_str());
    push_text_key(&mut k, f.as_slice());
    push_path_key(&mut k, r.source.as_str());
    let line = r.line as u64;
    k.push(line);
    proof {
        assert(k@ =~= route_key(*r));
    }
    k
}

// ---------------------------------------------------------------------------
// The listing
// ---------------------------------------------------------------------------

/// The routes are in strictly increasing route order.
pub open spec fn in_route_order(out: Seq<RouteInfo>) -> bool {
    forall|i: int, j: int|
        0 <= i < j < out.len() ==> lex_less(#[trigger] route_key(out[i]), #[trigger] route_key(out[j]))
}

/// `r` is among the first `m` items, and no item before it has its key.
pub open spec fn met_first_within(items: Seq<RouteInfo>, r: RouteInfo, m: int) -> bool {
    exists|k: int|
        0 <= k < m && #[trigger] items[k] == r && forall|j: int|
            0 <= j < k ==> route_key(#[trigger] items[j]) != route_key(r)
}

/// Some listed route has the key.
pub open spec fn key_listed(out: Seq<RouteInfo>, key: Seq<u64>) -> bool {
    exists|i: int| 0 <= i < out.len() && route_key(#[trigger] out[i]) == key
}

/// `out` lists `items`: in route order, each route the first item met with
/// its key, and every item's key listed.  (Items with equal keys are listed
/// once.)
pub open spec fn lists_routes(out: Seq<RouteInfo>, items: Seq<RouteInfo>) -> bool {
    &&& in_route_order(out)
    &&& forall|i: int| 0 <= i < out.len() ==> met_first_within(items, #[trigger] out[i], items.len() as int)
    &&& forall|k: int| 0 <= k < items.len() ==> key_listed(out, route_key(#[trigger] items[k]))
}

/// Where a key goes among sorted keys: after every key before it.
fn insertion_point(keys: &Vec<Vec<u64>>, k: &Vec<u64>) -> (p: usize)
    ensures
        p <= keys@.len(),
        forall|i: int| 0 <= i < p ==> lex_less((#[trigger] keys@[i])@, k@),
        p < keys@.len() ==> !lex_less(keys@[p as int]@, k@),
{
    let mut p: usize = 0;
    while p < keys.len()
        invariant
            p <= keys@.len(),
            forall|i: int| 0 <= i < p ==> lex_less((#[trigger] keys@[i])@, k@),
        decreases keys.len() - p,
    {
        if lex_compare(&keys[p], k) >= 0 {
            return p;
        }
        p += 1;
    }
    p
}

/// Lists routes in route order, each key once, keeping the first route met
/// with it.
pub fn list_routes(items: &Vec<RouteInfo>) -> (out: Vec<RouteInfo>)
    ensures
        lists_routes(out@, items@),
{
    let mut out: Vec<RouteInfo> = Vec::new();
    let mut keys: Vec<Vec<u64>> = Vec::new();
    // the item each listed route was taken from
    let ghost mut from: Seq<int> = Seq::empty();
    // the listed route that has each item's key
    let ghost mut at: Seq<int> = Seq::empty();
    let mut m: usize = 0;
    while m < items.len()
        invariant
            m <= items@.len(),
            keys@.len() == out@.len(),
            from.len() == out@.len(),
            at.len() == m,
            forall|i: int| 0 <= i < keys@.len() ==> (#[trigger] keys@[i])@ == route_key(out@[i]),
            in_route_order(out@),
            forall|i: int|
                0 <= i < out@.len() ==> {
                    &&& 0 <= #[trigger] from[i] < m
                    &&& items@[from[i]] == out@[i]
                    &&& forall|j: int| 0 <= j < from[i] ==> route_key(#[trigger] items@[j]) != route_key(out@[i])
                },
            forall|k: int|
                0 <= k < m ==> 0 <= #[trigger] at[k] < out@.len() && route_key(out@[at[k]]) == route_key(items@[k]),
        decreases items.len() - m,
    {
        let x = &items[m];
        let kx = route_key_of(x);
        let p = insertion_point(&keys, &kx);
        let present = p < keys.len() && lex_compare(&keys[p], &kx) == 0;
        if present {
            proof {
                at = at.push(p as int);
            }
        } else {
            proof {
                // every listed key differs from the new one
                assert forall|i: int| 0 <= i < out@.len() implies route_key(#[trigger] out@[i]) != kx@ by {
                    if i < p {
                        assert(keys@[i]@ == route_key(out@[i]));
                        lemma_lex_asymmetric(route_key(out@[i]), kx@);
                    } else {
                        assert(keys@[p as int]@ == route_key(out@[p as int]));
                        lemma_lex_total(route_key(out@[p as int]), kx@);
                        if i > p {
                            assert(lex_less(route_key(out@[p as int]), route_key(out@[i])));
                            lemma_lex_transitive(kx@, route_key(out@[p as int]), route_key(out@[i]));
                            lemma_lex_asymmetric(kx@, route_key(out@[i]));
                        } else {
                            lemma_lex_asymmetric(kx@, route_key(out@[i]));
                        }
                    }
                }
                assert forall|i: int| p <= i < out@.len() implies lex_less(kx@, route_key(#[trigger] out@[i])) by {
                    assert(keys@[p as int]@ == route_key(out@[p as int]));
                    lemma_lex_total(route_key(out@[p as int]), kx@);
                    if i > p {
                        assert(lex_less(route_key(out@[p as int]), route_key(out@[i])));
                        lemma_lex_transitive(kx@, route_key(out@[p as int]), route_key(out@[i]));
                    }
                }
                assert forall|i: int| 0 <= i < p implies lex_less(route_key(#[trigger] out@[i]), kx@) by {
                    assert(keys@[i]@ == route_key(out@[i]));
                }
            }
            let ghost o = out@;
            let y = x.duplicate();
            out.insert(p, y);
            keys.insert(p, kx);
            proof {
                let o2 = out@;
                assert(o2 == o.insert(p as int, *x));
                assert forall|i: int, j: int| 0 <= i < j < o2.len() implies lex_less(
                    #[trigger] route_key(o2[i]),
                    #[trigger] route_key(o2[j]),
                ) by {
                    if j < p {
                        assert(o2[i] == o[i] && o2[j] == o[j]);
                    } else if j == p {
                        assert(o2[i] == o[i]);
                    } else if i < p {
                        assert(o2[i] == o[i] && o2[j] == o[j - 1]);
                        lemma_lex_transitive(route_key(o[i]), kx@, route_key(o[j - 1]));
                    } else if i == p {
                        assert(o2[j] == o[j - 1]);
                    } else {
                        assert(o2[i] == o[i - 1] && o2[j] == o[j - 1]);
                    }
                }
                assert forall|j: int| 0 <= j < m implies route_key(#[trigger] items@[j]) != kx@ by {
                    assert(route_key(o[at[j]]) == route_key(items@[j]));
                }
                let from0 = from;
                from = from.insert(p as int, m as int);
                assert forall|i: int| 0 <= i < o2.len() implies {
                    &&& 0 <= #[trigger] from[i] < m + 1
                    &&& items@[from[i]] == o2[i]
                    &&& forall|j: int| 0 <= j < from[i] ==> route_key(#[trigger] items@[j]) != route_key(o2[i])
                } by {
                    if i < p {
                        assert(from[i] == from0[i] && o2[i] == o[i]);
                    } else if i == p {
                        assert(from[i] == m && o2[i] == *x);
                    } else {
                        assert(from[i] == from0[i - 1] && o2[i] == o[i - 1]);
                    }
                }
                at = Seq::new(at.len(), |k: int| if at[k] >= p { at[k] + 1 } else { at[k] }).push(p as int);
            }
        }
        proof {
            assert forall|i: int| 0 <= i < keys@.len() implies (#[trigger] keys@[i])@ == route_key(out@[i]) by {}
        }
        m += 1;
    }
    proof {
        assert forall|i: int| 0 <= i < out@.len() implies met_first_within(items@, #[trigger] out@[i], items@.len() as int) by {
            let k = from[i];
            assert(items@[k] == out@[i]);
        }
        assert forall|k: int| 0 <= k < items@.len() implies key_listed(out@, route_key(#[trigger] items@[k])) by {
            let i = at[k];
            assert(route_key(out@[i]) == route_key(items@[k]));
        }
    }
    out
}

// ---------------------------------------------------------------------------
// The report of a scan
// ---------------------------------------------------------------------------

/// The routes of saved hand-made routes, in order.
pub open spec fn saved_routes(saved: Seq<PersistedRoute>) -> Seq<RouteInfo> {
    saved.map_values(|p: PersistedRoute| p.route)
}

/// The base URLs of saved hand-made routes by route id, a later one winning.
pub open spec fn saved_base_urls(saved: Seq<PersistedRoute>) -> Map<Seq<char>, String>
    decreases saved.len(),
{
    if saved.len() == 0 {
        Map::empty()
    } else {
        saved_base_urls(saved.drop_last()).insert(route_id(saved.last().route@), saved.last().base_url)
    }
}

/// The report of a scan, from the routes found in the files (in the order
/// met) and the saved hand-made routes: all of them listed in route order,
/// each once, and the saved base URLs by route id.
pub fn build_report(found: Vec<RouteInfo>, saved: &Vec<PersistedRoute>, is_too_broad: bool) -> (r: ScannerReport)
    ensures
        lists_routes(r.routes@, found@ + saved_routes(saved@)),
        r.persisted_base_urls@ == saved_base_urls(saved@),
        r.is_too_broad == is_too_broad,
{
    let mut items = found;
    let mut base_urls: KeyedList<String> = KeyedList::new();
    let ghost found0 = items@;
    let mut i: usize = 0;
    while i < saved.len()
        invariant
            i <= saved@.len(),
            items@ == found0 + saved_routes(saved@.take(i as int)),
            base_urls@ == saved_base_urls(saved@.take(i as int)),
        decreases saved.len() - i,
    {
        let p = &saved[i];
        items.push(p.route.duplicate());
        let id = p.route.id();
        base_urls.insert(id, p.base_url.clone());
        proof {
            assert(saved@.take(i + 1).drop_last() =~= saved@.take(i as int));
            assert(saved_routes(saved@.take(i + 1)) =~= saved_routes(saved@.take(i as int)).push(saved@[i as int].route));
        }
        i += 1;
    }
    proof {
        assert(saved@.take(saved@.len() as int) =~= saved@);
    }
    let routes = list_routes(&items);
    ScannerReport { routes, persisted_base_urls: base_urls, is_too_broad }
}

// ---------------------------------------------------------------------------
// A listing is determined by its items
// ---------------------------------------------------------------------------

/// Two routes that are each the first met with a key, for the same key, are
/// the same route.
pub proof fn lemma_first_met_unique(items: Seq<RouteInfo>, r1: RouteInfo, r2: RouteInfo, n: int)
    requires
        met_first_within(items, r1, n),
        met_first_within(items, r2, n),
        route_key(r1) == route_key(r2),
    ensures
        r1 == r2,
{
    let k1 = choose|k: int|
        0 <= k < n && #[trigger] items[k] == r1 && forall|j: int|
            0 <= j < k ==> route_key(#[trigger] items[j]) != route_key(r1);
    let k2 = choose|k: int|
        0 <= k < n && #[trigger] items[k] == r2 && forall|j: int|
            0 <= j < k ==> route_key(#[trigger] items[j]) != route_key(r2);
    if k1 < k2 {
        assert(route_key(items[k1]) != route_key(r2));
    } else if k2 < k1 {
        assert(route_key(items[k2]) != route_key(r1));
    }
}

/// Two sequences in route order that list the same keys have the same keys
/// at the same places.
pub proof fn lemma_ordered_same_keys(o1: Seq<RouteInfo>, o2: Seq<RouteInfo>)
    requires
        in_route_order(o1),
        in_route_order(o2),
        forall|i: int| 0 <= i < o1.len() ==> key_listed(o2, route_key(#[trigger] o1[i])),
        forall|i: int| 0 <= i < o2.len() ==> key_listed(o1, route_key(#[trigger] o2[i])),
    ensures
        o1.len() == o2.len(),
        forall|i: int| 0 <= i < o1.len() ==> route_key(#[trigger] o1[i]) == route_key(o2[i]),
    decreases o1.len(),
{
    if o1.len() == 0 {
        if o2.len() > 0 {
            assert(key_listed(o1, route_key(o2[0])));
        }
    } else if o2.len() == 0 {
        assert(key_listed(o2, route_key(o1[0])));
    } else {
        // the least keys agree
        assert(key_listed(o2, route_key(o1[0])));
        let j = choose|j: int| 0 <= j < o2.len() && route_key(#[trigger] o2[j]) == route_key(o1[0]);
        assert(key_listed(o1, route_key(o2[0])));
        let i = choose|i: int| 0 <= i < o1.len() && route_key(#[trigger] o1[i]) == route_key(o2[0]);
        if j > 0 {
            assert(lex_less(route_key(o2[0]), route_key(o2[j])));
            if i > 0 {
                assert(lex_less(route_key(o1[0]), route_key(o1[i])));
                lemma_lex_asymmetric(route_key(o1[0]), route_key(o1[i]));
            } else {
                lemma_lex_irreflexive(route_key(o1[0]));
            }
        }
        assert(route_key(o1[0]) == route_key(o2[0]));
        let t1 = o1.drop_first();
        let t2 = o2.drop_first();
        assert forall|a: int| 0 <= a < t1.len() implies key_listed(t2, route_key(#[trigger] t1[a])) by {
            assert(t1[a] == o1[a + 1]);
            assert(key_listed(o2, route_key(o1[a + 1])));
            let b = choose|b: int| 0 <= b < o2.len() && route_key(#[trigger] o2[b]) == route_key(o1[a + 1]);
            assert(lex_less(route_key(o1[0]), route_key(o1[a + 1])));
            if b == 0 {
                lemma_lex_irreflexive(route_key(o1[0]));
            }
            assert(t2[b - 1] == o2[b]);
        }
        assert forall|a: int| 0 <= a < t2.len() implies key_listed(t1, route_key(#[trigger] t2[a])) by {
            assert(t2[a] == o2[a + 1]);
            assert(key_listed(o1, route_key(o2[a + 1])));
            let b = choose|b: int| 0 <= b < o1.len() && route_key(#[trigger] o1[b]) == route_key(o2[a + 1]);
            assert(lex_less(route_key(o2[0]), route_key(o2[a + 1])));
            if b == 0 {
                lemma_lex_irreflexive(route_key(o2[0]));
            }
            assert(t1[b - 1] == o1[b]);
        }
        assert forall|a: int, b: int| 0 <= a < b < t1.len() implies lex_less(
            #[trigger] route_key(t1[a]),
            #[trigger] route_key(t1[b]),
        ) by {
            assert(t1[a] == o1[a + 1] && t1[b] == o1[b + 1]);
        }
        assert forall|a: int, b: int| 0 <= a < b < t2.len() implies lex_less(
            #[trigger] route_key(t2[a]),
            #[trigger] route_key(t2[b]),
        ) by {
            assert(t2[a] == o2[a + 1] && t2[b] == o2[b + 1]);
        }
        lemma_ordered_same_keys(t1, t2);
        assert forall|a: int| 0 <= a < o1.len() implies route_key(#[trigger] o1[a]) == route_key(o2[a]) by {
            if a > 0 {
                assert(o1[a] == t1[a - 1] && o2[a] == t2[a - 1]);
            }
        }
    }
}

} // verus!
