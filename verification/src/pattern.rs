//! Regular-expression matching, provided by the `regex` crate.
//!
//! Everything here rests on the `regex` crate: a `Pattern` is a compiled
//! regular expression together with the text it was compiled from, and the
//! results of matching are handed back as plain values (byte offsets and the
//! matched texts).
use vstd::prelude::*;
use vstd::utf8::*;

verus! {

#[verifier::external_type_specification]
#[verifier::external_body]
pub struct ExRegex(regex::Regex);

/// One participating capture group: its byte range in the haystack and its text.
pub struct Group {
    pub start: usize,
    pub end: usize,
    pub text: String,
}

/// The mathematical value of a `Group`.
pub ghost struct GroupView {
    pub start: int,
    pub end: int,
    pub text: Seq<char>,
}

impl View for Group {
    type V = GroupView;

    open spec fn view(&self) -> GroupView {
        GroupView { start: self.start as int, end: self.end as int, text: self.text@ }
    }
}

/// The groups of one match; position 0 is the whole match, `None` marks a
/// group that did not take part in the match.
pub struct Captures {
    pub groups: Vec<Option<Group>>,
}

/// The view of an optional group.
pub open spec fn opt_group_view(g: Option<Group>) -> Option<GroupView> {
    match g {
        Some(x) => Some(x@),
        None => None,
    }
}

impl View for Captures {
    type V = Seq<Option<GroupView>>;

    open spec fn view(&self) -> Seq<Option<GroupView>> {
        self.groups@.map_values(|g: Option<Group>| opt_group_view(g))
    }
}

/// The view of a list of matches.
pub open spec fn captures_view(v: Seq<Captures>) -> Seq<Seq<Option<GroupView>>> {
    v.map_values(|c: Captures| c@)
}

/// Whether the `regex` crate accepts `pattern` as a regular expression.
pub uninterp spec fn regex_compiles(pattern: Seq<char>) -> bool;

/// The successive non-overlapping matches, left to right, that the `regex`
/// crate finds for `pattern` in `haystack`, each with all its groups.
pub uninterp spec fn regex_captures(pattern: Seq<char>, haystack: Seq<char>) -> Seq<Seq<Option<GroupView>>>;

/// The text that the `regex` crate makes of `haystack` by replacing every
/// match of `pattern` with `replacement` (with `$name` expansion).
pub uninterp spec fn regex_replace_all(pattern: Seq<char>, haystack: Seq<char>, replacement: Seq<char>) -> Seq<char>;

/// A group lies within the haystack, on character boundaries, and holds
/// exactly the text found there.
pub open spec fn group_wf(haystack: Seq<char>, g: GroupView) -> bool {
    let bytes = encode_utf8(haystack);
    &&& 0 <= g.start <= g.end <= bytes.len()
    &&& is_char_boundary(bytes, g.start)
    &&& is_char_boundary(bytes, g.end)
    &&& encode_utf8(g.text) == bytes.subrange(g.start, g.end)
}

/// One match: the whole match is present and every group is well formed.
pub open spec fn match_wf(haystack: Seq<char>, c: Seq<Option<GroupView>>) -> bool {
    &&& c.len() >= 1
    &&& c[0] is Some
    &&& forall|k: int| 0 <= k < c.len() && (#[trigger] c[k]) is Some ==> group_wf(haystack, c[k]->0)
}

/// Every match in a list is well formed.
pub open spec fn matches_wf(haystack: Seq<char>, caps: Seq<Seq<Option<GroupView>>>) -> bool {
    forall|i: int| 0 <= i < caps.len() ==> match_wf(haystack, #[trigger] caps[i])
}

/// A compiled regular expression and the text it was compiled from.
///
/// The fields are private and `Pattern::new` is the only way to build one, so
/// `compiled` is always the compilation of `source`.
pub struct Pattern {
    source: String,
    compiled: regex::Regex,
}

impl Pattern {
    /// The text the pattern was compiled from.
    pub closed spec fn source(&self) -> Seq<char> {
        self.source@
    }

    /// Compiles `pattern` with `regex::Regex::new`; `None` where the crate
    /// refuses it.
    #[verifier::external_body]
    pub(crate) fn new(pattern: &str) -> (r: Option<Pattern>)
        ensures
            r is Some <==> regex_compiles(pattern@),
            r matches Some(p) ==> p.source() == pattern@,
    {
        regex::Regex::new(pattern).ok().map(|compiled| Pattern { source: pattern.to_string(), compiled })
    }

    /// All matches of the pattern in `haystack`, with their groups
    /// (`regex::Regex::captures_iter`).  Besides naming the result, the
    /// contract states what the crate documents of every match: the whole
    /// match is group 0, and every group's offsets lie within the haystack on
    /// UTF-8 boundaries with the group's text being the text between them.
    #[verifier::external_body]
    pub(crate) fn captures_all(&self, haystack: &str) -> (r: Vec<Captures>)
        ensures
            captures_view(r@) == regex_captures(self.source(), haystack@),
            matches_wf(haystack@, captures_view(r@)),
    {
        self.compiled.captures_iter(haystack).map(|c| Captures {
            groups: c.iter().map(|g| g.map(|m| Group { start: m.start(), end: m.end(), text: m.as_str().to_string() })).collect(),
        }).collect()
    }

    /// The haystack with every match replaced by `replacement`
    /// (`regex::Regex::replace_all`, `$1`-style group references expanded).
    #[verifier::external_body]
    pub(crate) fn replace_all(&self, haystack: &str, replacement: &str) -> (r: String)
        ensures
            r@ == regex_replace_all(self.source(), haystack@, replacement@),
    {
        self.compiled.replace_all(haystack, replacement).into_owned()
    }
}


/// The matches of `pattern` in `haystack`, or none where the pattern does not compile.
pub open spec fn matches_of(pattern: Seq<char>, haystack: Seq<char>) -> Seq<Seq<Option<GroupView>>> {
    if regex_compiles(pattern) {
        regex_captures(pattern, haystack)
    } else {
        Seq::empty()
    }
}

/// `haystack` with every match of `pattern` replaced by `replacement`; the
/// haystack unchanged where the pattern does not compile.
pub open spec fn replaced(pattern: Seq<char>, haystack: Seq<char>, replacement: Seq<char>) -> Seq<char> {
    if regex_compiles(pattern) {
        regex_replace_all(pattern, haystack, replacement)
    } else {
        haystack
    }
}

/// All matches of `pattern` in `haystack`.
pub fn find_matches(pattern: &str, haystack: &str) -> (r: Vec<Captures>)
    ensures
        captures_view(r@) == matches_of(pattern@, haystack@),
        matches_wf(haystack@, captures_view(r@)),
{
    match Pattern::new(pattern) {
        Some(p) => p.captures_all(haystack),
        None => {
            let v: Vec<Captures> = Vec::new();
            assert(captures_view(v@) =~= Seq::<Seq<Option<GroupView>>>::empty());
            v
        },
    }
}

/// Every match of `pattern` in `haystack` replaced by `replacement`.
pub fn replace_matches(pattern: &str, haystack: &str, replacement: &str) -> (r: String)
    ensures
        r@ == replaced(pattern@, haystack@, replacement@),
{
    match Pattern::new(pattern) {
        Some(p) => p.replace_all(haystack, replacement),
        None => crate::text::string_from(haystack),
    }
}

} // verus!
