//! Character-level text utilities with their specifications.
use vstd::prelude::*;

verus! {

/// `n` occurs in `h` starting at position `i`.
pub open spec fn occurs_at(h: Seq<char>, n: Seq<char>, i: int) -> bool {
    0 <= i && i + n.len() <= h.len() && h.subrange(i, i + n.len() as int) == n
}

/// `n` occurs somewhere in `h`.
pub open spec fn seq_contains(h: Seq<char>, n: Seq<char>) -> bool {
    exists|i: int| occurs_at(h, n, i)
}

/// `n` is a prefix of `h`.
pub open spec fn has_prefix(h: Seq<char>, n: Seq<char>) -> bool {
    occurs_at(h, n, 0)
}

/// `n` is a suffix of `h`.
pub open spec fn has_suffix(h: Seq<char>, n: Seq<char>) -> bool {
    n.len() <= h.len() && occurs_at(h, n, h.len() - n.len())
}

/// Position of the first occurrence of `n` in `h` at or after `i`, if any.
pub open spec fn first_occurrence_from(h: Seq<char>, n: Seq<char>, i: int) -> Option<int>
    decreases h.len() + 1 - i,
{
    if i < 0 || i + n.len() > h.len() {
        None
    } else if occurs_at(h, n, i) {
        Some(i)
    } else {
        first_occurrence_from(h, n, i + 1)
    }
}

/// Position of the first occurrence of `n` in `h`, if any.
pub open spec fn first_occurrence(h: Seq<char>, n: Seq<char>) -> Option<int> {
    first_occurrence_from(h, n, 0)
}

/// What `first_occurrence_from` finds: the leftmost occurrence at or after `i`.
pub proof fn lemma_first_occurrence_from(h: Seq<char>, n: Seq<char>, i: int)
    requires
        0 <= i,
    ensures
        first_occurrence_from(h, n, i) matches Some(k) ==> i <= k && occurs_at(h, n, k)
            && forall|j: int| i <= j < k ==> !occurs_at(h, n, j),
        first_occurrence_from(h, n, i) is None ==> forall|j: int| i <= j ==> !occurs_at(h, n, j),
    decreases h.len() + 1 - i,
{
    if i + n.len() > h.len() {
    } else if occurs_at(h, n, i) {
    } else {
        lemma_first_occurrence_from(h, n, i + 1);
    }
}

/// The leftmost occurrence of `n` in `h`, or the absence of any.
pub proof fn lemma_first_occurrence(h: Seq<char>, n: Seq<char>)
    ensures
        first_occurrence(h, n) matches Some(k) ==> occurs_at(h, n, k)
            && forall|j: int| 0 <= j < k ==> !occurs_at(h, n, j),
        first_occurrence(h, n) is None <==> !seq_contains(h, n),
{
    lemma_first_occurrence_from(h, n, 0);
}

/// Position of the last occurrence of the character `c` in `s`, if any.
pub open spec fn last_char_index(s: Seq<char>, c: char) -> Option<int>
    decreases s.len(),
{
    if s.len() == 0 {
        None
    } else if s.last() == c {
        Some(s.len() - 1)
    } else {
        last_char_index(s.drop_last(), c)
    }
}

/// `s` with every leading `c` removed.
pub open spec fn trim_start_char(s: Seq<char>, c: char) -> Seq<char>
    decreases s.len(),
{
    if s.len() > 0 && s[0] == c {
        trim_start_char(s.drop_first(), c)
    } else {
        s
    }
}

/// `s` with every trailing `c` removed.
pub open spec fn trim_end_char(s: Seq<char>, c: char) -> Seq<char>
    decreases s.len(),
{
    if s.len() > 0 && s.last() == c {
        trim_end_char(s.drop_last(), c)
    } else {
        s
    }
}

/// `s` with every occurrence of `c` replaced by the text `r`.
pub open spec fn replace_char(s: Seq<char>, c: char, r: Seq<char>) -> Seq<char>
    decreases s.len(),
{
    if s.len() == 0 {
        s
    } else {
        replace_char(s.drop_last(), c, r) + (if s.last() == c { r } else { seq![s.last()] })
    }
}

/// ASCII lower-casing of one character; other characters are unchanged.
pub open spec fn ascii_lower(c: char) -> char {
    if 'A' <= c && c <= 'Z' {
        ((c as u32) + 32) as char
    } else {
        c
    }
}

/// ASCII lower-casing of a text.
pub open spec fn ascii_lowercase(s: Seq<char>) -> Seq<char> {
    s.map_values(|c: char| ascii_lower(c))
}

/// The characters of a string slice, in order.
pub fn chars_of(s: &str) -> (v: Vec<char>)
    ensures
        v@ == s@,
{
    let mut v: Vec<char> = Vec::new();
    for c in it: s.chars()
        invariant
            v@ == it.seq().take(it.index() as int),
            it.seq() == s@,
    {
        v.push(c);
    }
    v
}

/// Appends one character to a `String` (std's `String::push`).
#[verifier::external_body]
pub(crate) fn push_char(s: &mut String, c: char)
    ensures
        final(s)@ == old(s)@.push(c),
{
    s.push(c);
}

/// The `String` made of the given characters.
pub fn string_of(v: &[char]) -> (s: String)
    ensures
        s@ == v@,
{
    let mut s = String::new();
    let mut i: usize = 0;
    while i < v.len()
        invariant
            i <= v.len(),
            s@ == v@.take(i as int),
        decreases v.len() - i,
    {
        push_char(&mut s, v[i]);
        assert(v@.take(i as int + 1) =~= v@.take(i as int).push(v@[i as int]));
        i += 1;
    }
    assert(v@.take(v.len() as int) =~= v@);
    s
}

/// The `String` holding a copy of a string slice.
pub fn string_from(s: &str) -> (r: String)
    ensures
        r@ == s@,
{
    let v = chars_of(s);
    string_of(v.as_slice())
}

/// Concatenation of two texts.
pub fn concat(a: &str, b: &str) -> (r: String)
    ensures
        r@ == a@ + b@,
{
    let mut v = chars_of(a);
    let w = chars_of(b);
    let mut i: usize = 0;
    while i < w.len()
        invariant
            i <= w.len(),
            v@ == a@ + w@.take(i as int),
        decreases w.len() - i,
    {
        v.push(w[i]);
        assert(w@.take(i as int + 1) =~= w@.take(i as int).push(w@[i as int]));
        i += 1;
    }
    assert(w@.take(w.len() as int) =~= w@);
    string_of(v.as_slice())
}

/// Whether `n` occurs in `h` at position `i`.
pub fn occurs_at_exec(h: &[char], n: &[char], i: usize) -> (b: bool)
    ensures
        b == occurs_at(h@, n@, i as int),
{
    if i > h.len() || n.len() > h.len() - i {
        return false;
    }
    let mut k: usize = 0;
    while k < n.len()
        invariant
            i + n.len() <= h.len(),
            k <= n.len(),
            forall|j: int| 0 <= j < k ==> h@[i + j] == n@[j],
        decreases n.len() - k,
    {
        if h[i + k] != n[k] {
            assert(h@.subrange(i as int, i + n.len())[k as int] != n@[k as int]);
            return false;
        }
        k += 1;
    }
    assert(h@.subrange(i as int, i + n.len()) =~= n@);
    true
}

/// Position of the first occurrence of `n` in `h`.
pub fn find_first(h: &[char], n: &[char]) -> (r: Option<usize>)
    ensures
        r matches Some(i) ==> first_occurrence(h@, n@) == Some(i as int) && i + n.len() <= h.len(),
        r is None ==> first_occurrence(h@, n@) is None,
{
    if n.len() > h.len() {
        return None;
    }
    let last = h.len() - n.len();
    let mut i: usize = 0;
    loop
        invariant
            n.len() <= h.len(),
            last == h.len() - n.len(),
            i <= last,
            first_occurrence(h@, n@) == first_occurrence_from(h@, n@, i as int),
        decreases last - i,
    {
        if occurs_at_exec(h, n, i) {
            return Some(i);
        }
        if i == last {
            assert(first_occurrence_from(h@, n@, i + 1) is None);
            return None;
        }
        i += 1;
    }
}

/// Whether `n` occurs in `h` (std's `str::contains` with a text pattern).
pub fn contains(h: &str, n: &str) -> (b: bool)
    ensures
        b == seq_contains(h@, n@),
{
    let hv = chars_of(h);
    let nv = chars_of(n);
    proof {
        lemma_first_occurrence(hv@, nv@);
    }
    find_first(hv.as_slice(), nv.as_slice()).is_some()
}


/// Whether `h` begins with `n`.
pub fn starts_with(h: &[char], n: &[char]) -> (b: bool)
    ensures
        b == has_prefix(h@, n@),
{
    occurs_at_exec(h, n, 0)
}

/// Whether `h` ends with `n`.
pub fn ends_with(h: &[char], n: &[char]) -> (b: bool)
    ensures
        b == has_suffix(h@, n@),
{
    if n.len() > h.len() {
        false
    } else {
        occurs_at_exec(h, n, h.len() - n.len())
    }
}

/// Leading `c`s removed from a text whose first `k` characters are all `c`.
pub proof fn lemma_trim_start_char(s: Seq<char>, c: char, k: int)
    requires
        0 <= k <= s.len(),
        forall|j: int| 0 <= j < k ==> s[j] == c,
        k == s.len() || s[k] != c,
    ensures
        trim_start_char(s, c) == s.skip(k),
    decreases k,
{
    if k == 0 {
        assert(s.skip(0) =~= s);
    } else {
        lemma_trim_start_char(s.drop_first(), c, k - 1);
        assert(s.drop_first().skip(k - 1) =~= s.skip(k));
    }
}

/// Trailing `c`s removed from a text whose characters from `k` on are all `c`.
pub proof fn lemma_trim_end_char(s: Seq<char>, c: char, k: int)
    requires
        0 <= k <= s.len(),
        forall|j: int| k <= j < s.len() ==> s[j] == c,
        k == 0 || s[k - 1] != c,
    ensures
        trim_end_char(s, c) == s.take(k),
    decreases s.len() - k,
{
    if k == s.len() {
        assert(s.take(k) =~= s);
    } else {
        lemma_trim_end_char(s.drop_last(), c, k);
        assert(s.drop_last().take(k) =~= s.take(k));
    }
}

/// `v` without its leading `c`s.
pub fn trim_start_chars(v: &[char], c: char) -> (r: Vec<char>)
    ensures
        r@ == trim_start_char(v@, c),
{
    let mut k: usize = 0;
    while k < v.len() && v[k] == c
        invariant
            k <= v.len(),
            forall|j: int| 0 <= j < k ==> v@[j] == c,
        decreases v.len() - k,
    {
        k += 1;
    }
    proof {
        lemma_trim_start_char(v@, c, k as int);
    }
    slice_from(v, k)
}

/// `v` without its trailing `c`s.
pub fn trim_end_chars(v: &[char], c: char) -> (r: Vec<char>)
    ensures
        r@ == trim_end_char(v@, c),
{
    let mut k: usize = v.len();
    while k > 0 && v[k - 1] == c
        invariant
            k <= v.len(),
            forall|j: int| k <= j < v.len() ==> v@[j] == c,
        decreases k,
    {
        k -= 1;
    }
    proof {
        lemma_trim_end_char(v@, c, k as int);
    }
    slice_range(v, 0, k)
}

/// The characters of `v` from position `a` on.
pub fn slice_from(v: &[char], a: usize) -> (r: Vec<char>)
    requires
        a <= v.len(),
    ensures
        r@ == v@.skip(a as int),
{
    slice_range(v, a, v.len())
}

/// The characters of `v` at positions `a` up to (not including) `b`.
pub fn slice_range(v: &[char], a: usize, b: usize) -> (r: Vec<char>)
    requires
        a <= b <= v.len(),
    ensures
        r@ == v@.subrange(a as int, b as int),
{
    let mut r: Vec<char> = Vec::new();
    let mut i = a;
    while i < b
        invariant
            a <= i <= b <= v.len(),
            r@ == v@.subrange(a as int, i as int),
        decreases b - i,
    {
        r.push(v[i]);
        assert(v@.subrange(a as int, i + 1) =~= v@.subrange(a as int, i as int).push(v@[i as int]));
        i += 1;
    }
    r
}

/// `v` followed by `w`.
pub fn append_chars(v: &mut Vec<char>, w: &[char])
    ensures
        final(v)@ == old(v)@ + w@,
{
    let mut i: usize = 0;
    while i < w.len()
        invariant
            i <= w.len(),
            v@ == old(v)@ + w@.take(i as int),
        decreases w.len() - i,
    {
        v.push(w[i]);
        assert(w@.take(i as int + 1) =~= w@.take(i as int).push(w@[i as int]));
        i += 1;
    }
    assert(w@.take(w.len() as int) =~= w@);
}

/// `replace_char` on a prefix extended by one character.
pub proof fn lemma_replace_char_push(s: Seq<char>, c: char, r: Seq<char>, i: int)
    requires
        0 <= i < s.len(),
    ensures
        replace_char(s.take(i + 1), c, r) == replace_char(s.take(i), c, r)
            + (if s[i] == c { r } else { seq![s[i]] }),
{
    assert(s.take(i + 1).drop_last() =~= s.take(i));
}

/// Every `c` of `v` replaced by the text `r`.
pub fn replace_chars(v: &[char], c: char, r: &[char]) -> (out: Vec<char>)
    ensures
        out@ == replace_char(v@, c, r@),
{
    let mut out: Vec<char> = Vec::new();
    let mut i: usize = 0;
    while i < v.len()
        invariant
            i <= v.len(),
            out@ == replace_char(v@.take(i as int), c, r@),
        decreases v.len() - i,
    {
        proof {
            lemma_replace_char_push(v@, c, r@, i as int);
        }
        if v[i] == c {
            append_chars(&mut out, r);
        } else {
            out.push(v[i]);
        }
        i += 1;
    }
    assert(v@.take(v.len() as int) =~= v@);
    out
}

/// What `last_char_index` finds: the rightmost `c`.
pub proof fn lemma_last_char_index(s: Seq<char>, c: char)
    ensures
        last_char_index(s, c) matches Some(k) ==> 0 <= k < s.len() && s[k] == c
            && forall|j: int| k < j < s.len() ==> s[j] != c,
        last_char_index(s, c) is None ==> forall|j: int| 0 <= j < s.len() ==> s[j] != c,
    decreases s.len(),
{
    if s.len() > 0 && s.last() != c {
        lemma_last_char_index(s.drop_last(), c);
        assert forall|j: int| 0 <= j < s.len() - 1 implies s.drop_last()[j] == s[j] by {}
        if last_char_index(s, c) is None {
            assert forall|j: int| 0 <= j < s.len() implies s[j] != c by {
                if j < s.len() - 1 {
                    assert(s.drop_last()[j] == s[j]);
                }
            }
        }
    }
}

/// Position of the last `c` in `v` (std's `rfind` with a character).
pub fn rfind_char(v: &[char], c: char) -> (r: Option<usize>)
    ensures
        r matches Some(k) ==> last_char_index(v@, c) == Some(k as int) && k < v.len() && v@[k as int] == c,
        r is None ==> last_char_index(v@, c) is None,
{
    let mut k: usize = v.len();
    assert(v@.take(k as int) =~= v@);
    while k > 0
        invariant
            k <= v.len(),
            last_char_index(v@, c) == last_char_index(v@.take(k as int), c),
        decreases k,
    {
        assert(v@.take(k as int).drop_last() =~= v@.take(k - 1));
        if v[k - 1] == c {
            return Some(k - 1);
        }
        k -= 1;
    }
    None
}

/// ASCII lower-casing of one character.
pub fn ascii_lower_char(c: char) -> (r: char)
    ensures
        r == ascii_lower(c),
{
    if 'A' <= c && c <= 'Z' {
        let u = (c as u32) + 32;
        assert(0x61 <= u <= 0x7a);
        char_from_ascii(u)
    } else {
        c
    }
}

/// The character with an ASCII code point.
#[verifier::external_body]
pub(crate) fn char_from_ascii(u: u32) -> (c: char)
    requires
        u < 0x80,
    ensures
        c == u as char,
{
    char::from_u32(u).unwrap()
}

/// ASCII lower-casing of a text (std's `to_ascii_lowercase`).
pub fn ascii_lowercase_chars(v: &[char]) -> (r: Vec<char>)
    ensures
        r@ == ascii_lowercase(v@),
{
    let mut r: Vec<char> = Vec::new();
    let mut i: usize = 0;
    while i < v.len()
        invariant
            i <= v.len(),
            r@ == ascii_lowercase(v@.take(i as int)),
        decreases v.len() - i,
    {
        let l = ascii_lower_char(v[i]);
        r.push(l);
        assert(ascii_lowercase(v@.take(i as int + 1)) =~= ascii_lowercase(v@.take(i as int)).push(l));
        i += 1;
    }
    assert(v@.take(v.len() as int) =~= v@);
    r
}


/// Whether `v` holds exactly the text `s`.
pub fn equals(v: &[char], s: &str) -> (b: bool)
    ensures
        b == (v@ == s@),
{
    let w = chars_of(s);
    if v.len() != w.len() {
        return false;
    }
    let b = occurs_at_exec(v, w.as_slice(), 0);
    proof {
        if b {
            assert(v@ =~= v@.subrange(0, w@.len() as int));
        } else {
            assert(v@.subrange(0, w@.len() as int) =~= v@);
        }
    }
    b
}

/// Whether two string slices hold the same text.
pub fn str_eq(a: &str, b: &str) -> (r: bool)
    ensures
        r == (a@ == b@),
{
    let v = chars_of(a);
    equals(v.as_slice(), b)
}


/// The Unicode lower-case form of a text, as std's `str::to_lowercase` gives it.
pub uninterp spec fn unicode_lowercase(s: Seq<char>) -> Seq<char>;

/// Unicode lower-casing (`str::to_lowercase`).
#[verifier::external_body]
pub(crate) fn to_lowercase(s: &str) -> (r: String)
    ensures
        r@ == unicode_lowercase(s@),
{
    s.to_lowercase()
}


/// The decimal digit character of a number below ten.
pub open spec fn digit_char(d: nat) -> char {
    ((d + 48) as u32) as char
}

/// The decimal representation of a number, without leading zeros.
pub open spec fn decimal(n: nat) -> Seq<char>
    decreases n,
{
    if n < 10 {
        seq![digit_char(n)]
    } else {
        decimal(n / 10).push(digit_char(n % 10))
    }
}

/// The decimal representation of a number (std's `to_string` on integers).
pub fn decimal_string(n: u128) -> (s: String)
    ensures
        s@ == decimal(n as nat),
    decreases n,
{
    let d = (n % 10) as u32;
    let c = char_from_ascii(d + 48);
    if n < 10 {
        let mut s = String::new();
        push_char(&mut s, c);
        assert(s@ =~= seq![digit_char(n as nat)]);
        s
    } else {
        let mut s = decimal_string(n / 10);
        push_char(&mut s, c);
        s
    }
}

} // verus!
