use vstd::prelude::*;
use vstd::utf8::*;
use crate::text::{
    chars_of, char_from_ascii, concat, decimal, decimal_string, digit_char, equals, push_char,
    slice_from, slice_range, string_from, string_of,
};
use vstd::arithmetic::power2::{
    lemma2_to64, lemma_pow2_pos, lemma_pow2_strictly_increases, lemma_pow2_unfold, pow2,
};
use crate::utf8len::{
    char_width, str_byte_len, lemma_encode_split, lemma_encode_utf8_injective, lemma_take_is_char_boundary,
    lemma_utf8_len_empty, lemma_utf8_len_push, lemma_utf8_len_take_mono, lemma_utf8_len_take_step,
};
use crate::utf8len::{char_len, utf8_len};

verus! {

/// The HTTP methods a route can carry.
#[derive(Debug, Clone, Copy, PartialEq, Eq, Structural, PartialOrd, Ord, Hash)]
pub enum HttpMethod {
    Get,
    Post,
    Put,
    Patch,
    Delete,
    Options,
    Head,
}

/// Position of a method in the cycling order Get, Post, Put, Patch, Delete, Options, Head.
pub open spec fn method_index(m: HttpMethod) -> int {
    match m {
        HttpMethod::Get => 0,
        HttpMethod::Post => 1,
        HttpMethod::Put => 2,
        HttpMethod::Patch => 3,
        HttpMethod::Delete => 4,
        HttpMethod::Options => 5,
        HttpMethod::Head => 6,
    }
}

/// The method at a position of the cycling order (positions taken modulo seven).
pub open spec fn method_at(i: int) -> HttpMethod {
    let k = i % 7;
    if k == 0 { HttpMethod::Get }
    else if k == 1 { HttpMethod::Post }
    else if k == 2 { HttpMethod::Put }
    else if k == 3 { HttpMethod::Patch }
    else if k == 4 { HttpMethod::Delete }
    else if k == 5 { HttpMethod::Options }
    else { HttpMethod::Head }
}

/// The method after `m` in the cycling order.
pub open spec fn method_next(m: HttpMethod) -> HttpMethod {
    method_at(method_index(m) + 1)
}

/// The method before `m` in the cycling order.
pub open spec fn method_prev(m: HttpMethod) -> HttpMethod {
    method_at(method_index(m) + 6)
}

/// The method a text names, compared without regard to ASCII case.
pub open spec fn parse_method(s: Seq<char>) -> Option<HttpMethod> {
    let l = crate::text::ascii_lowercase(s);
    if l == "get"@ {
        Some(HttpMethod::Get)
    } else if l == "post"@ {
        Some(HttpMethod::Post)
    } else if l == "put"@ {
        Some(HttpMethod::Put)
    } else if l == "patch"@ {
        Some(HttpMethod::Patch)
    } else if l == "delete"@ {
        Some(HttpMethod::Delete)
    } else if l == "options"@ {
        Some(HttpMethod::Options)
    } else if l == "head"@ {
        Some(HttpMethod::Head)
    } else {
        None
    }
}

/// Upper-case wire name of a method.
pub open spec fn method_name(m: HttpMethod) -> Seq<char> {
    match m {
        HttpMethod::Get => "GET"@,
        HttpMethod::Post => "POST"@,
        HttpMethod::Put => "PUT"@,
        HttpMethod::Patch => "PATCH"@,
        HttpMethod::Delete => "DELETE"@,
        HttpMethod::Options => "OPTIONS"@,
        HttpMethod::Head => "HEAD"@,
    }
}

impl HttpMethod {
    pub fn as_str(self) -> (s: &'static str)
        ensures
            s@ == method_name(self),
    {
        match self {
            HttpMethod::Get => "GET",
            HttpMethod::Post => "POST",
            HttpMethod::Put => "PUT",
            HttpMethod::Patch => "PATCH",
            HttpMethod::Delete => "DELETE",
            HttpMethod::Options => "OPTIONS",
            HttpMethod::Head => "HEAD",
        }
    }

    pub fn cycle_next(self) -> (m: HttpMethod)
        ensures
            m == method_next(self),
    {
        match self {
            HttpMethod::Get => HttpMethod::Post,
            HttpMethod::Post => HttpMethod::Put,
            HttpMethod::Put => HttpMethod::Patch,
            HttpMethod::Patch => HttpMethod::Delete,
            HttpMethod::Delete => HttpMethod::Options,
            HttpMethod::Options => HttpMethod::Head,
            HttpMethod::Head => HttpMethod::Get,
        }
    }

    pub fn cycle_prev(self) -> (m: HttpMethod)
        ensures
            m == method_prev(self),
    {
        match self {
            HttpMethod::Get => HttpMethod::Head,
            HttpMethod::Post => HttpMethod::Get,
            HttpMethod::Put => HttpMethod::Post,
            HttpMethod::Patch => HttpMethod::Put,
            HttpMethod::Delete => HttpMethod::Patch,
            HttpMethod::Options => HttpMethod::Delete,
            HttpMethod::Head => HttpMethod::Options,
        }
    }

    /// The method a text names, compared without regard to ASCII case; `Err`
    /// for any other text.
    pub fn try_from(value: &str) -> (r: Result<HttpMethod, ()>)
        ensures
            r matches Ok(m) ==> parse_method(value@) == Some(m),
            r is Err ==> parse_method(value@) is None,
    {
        let v = chars_of(value);
        let l = crate::text::ascii_lowercase_chars(v.as_slice());
        let l = l.as_slice();
        if equals(l, "get") {
            Ok(HttpMethod::Get)
        } else if equals(l, "post") {
            Ok(HttpMethod::Post)
        } else if equals(l, "put") {
            Ok(HttpMethod::Put)
        } else if equals(l, "patch") {
            Ok(HttpMethod::Patch)
        } else if equals(l, "delete") {
            Ok(HttpMethod::Delete)
        } else if equals(l, "options") {
            Ok(HttpMethod::Options)
        } else if equals(l, "head") {
            Ok(HttpMethod::Head)
        } else {
            Err(())
        }
    }
}


// ---------------------------------------------------------------------------
// TextBuffer
// ---------------------------------------------------------------------------

/// `cursor` is the byte offset just before character `k` of `s`.
pub open spec fn cursor_at(s: Seq<char>, cursor: int, k: int) -> bool {
    0 <= k <= s.len() && utf8_len(s.take(k)) == cursor
}

/// At most one character position has a given byte offset.
pub proof fn lemma_cursor_at_unique(s: Seq<char>, cursor: int, j: int, k: int)
    requires
        cursor_at(s, cursor, j),
        cursor_at(s, cursor, k),
    ensures
        j == k,
{
    if j < k {
        lemma_utf8_len_take_mono(s, j, k);
    } else if k < j {
        lemma_utf8_len_take_mono(s, k, j);
    }
}

/// An editable line of text with a cursor, kept as a byte offset into the text.
#[derive(Debug, Clone)]
pub struct TextBuffer {
    pub text: String,
    pub cursor: usize,
}

/// The character position just before a byte offset that is a character boundary.
fn locate(v: &[char], cursor: usize) -> (k: usize)
    requires
        exists|k: int| cursor_at(v@, cursor as int, k),
    ensures
        cursor_at(v@, cursor as int, k as int),
{
    let ghost target = choose|k: int| cursor_at(v@, cursor as int, k);
    let mut i: usize = 0;
    let mut acc: usize = 0;
    proof {
        lemma_utf8_len_empty(v@);
    }
    while acc < cursor
        invariant
            cursor_at(v@, cursor as int, target),
            0 <= i <= target,
            acc == utf8_len(v@.take(i as int)),
        decreases target - i,
    {
        proof {
            if i == target {
                assert(false);
            }
            lemma_utf8_len_take_step(v@, i as int);
            lemma_utf8_len_take_mono(v@, i + 1, target);
        }
        acc = acc + char_width(v[i]);
        i += 1;
    }
    proof {
        if i < target {
            lemma_utf8_len_take_mono(v@, i + 1, target);
            lemma_utf8_len_take_step(v@, i as int);
        }
    }
    i
}

/// The byte offset just before character `k`.
fn offset_of(v: &[char], k: usize) -> (b: usize)
    requires
        k <= v.len(),
        utf8_len(v@) <= usize::MAX,
    ensures
        b == utf8_len(v@.take(k as int)),
{
    let mut i: usize = 0;
    let mut acc: usize = 0;
    proof {
        lemma_utf8_len_empty(v@);
    }
    while i < k
        invariant
            i <= k <= v.len(),
            utf8_len(v@) <= usize::MAX,
            acc == utf8_len(v@.take(i as int)),
        decreases k - i,
    {
        proof {
            lemma_utf8_len_take_step(v@, i as int);
            lemma_utf8_len_take_mono(v@, i + 1, v.len() as int);
            assert(v@.take(v.len() as int) =~= v@);
        }
        acc = acc + char_width(v[i]);
        i += 1;
    }
    acc
}

impl TextBuffer {
    /// The cursor sits on a character boundary of the text.
    pub open spec fn wf(&self) -> bool {
        &&& exists|k: int| cursor_at(self.text@, self.cursor as int, k)
        &&& utf8_len(self.text@) <= usize::MAX
    }

    /// Number of characters before the cursor.
    pub open spec fn cursor_index(&self) -> int {
        choose|k: int| cursor_at(self.text@, self.cursor as int, k)
    }

    /// Byte length of the text.
    pub open spec fn byte_len(&self) -> int {
        utf8_len(self.text@)
    }

    /// A buffer holding `text` with the cursor at its end.
    pub fn new(text: &str) -> (b: TextBuffer)
        ensures
            b.text@ == text@,
            b.cursor == utf8_len(text@),
            b.wf(),
            b.cursor_index() == text@.len(),
    {
        let t = string_from(text);
        let cursor = str_byte_len(text);
        proof {
            assert(text@.take(text@.len() as int) =~= text@);
            assert(cursor_at(t@, cursor as int, text@.len() as int));
            let k = choose|k: int| cursor_at(t@, cursor as int, k);
            lemma_cursor_at_unique(t@, cursor as int, k, text@.len() as int);
        }
        let b = TextBuffer { text: t, cursor };
        assert(utf8_len(b.text@) <= usize::MAX);
        assert(cursor_at(b.text@, b.cursor as int, text@.len() as int));
        assert(b.wf());
        b
    }

    /// A copy of this buffer.
    pub fn duplicate(&self) -> (b: TextBuffer)
        ensures
            b == *self,
    {
        TextBuffer { text: self.text.clone(), cursor: self.cursor }
    }

    /// An empty buffer.
    pub fn empty() -> (b: TextBuffer)
        ensures
            b.text@ == Seq::<char>::empty(),
            b.cursor == 0,
            b.wf(),
            b.cursor_index() == 0,
    {
        let b = TextBuffer { text: String::new(), cursor: 0 };
        proof {
            assert(b.text@ == Seq::<char>::empty());
            lemma_utf8_len_empty(b.text@);
            crate::utf8len::lemma_utf8_len_nil();
            assert(cursor_at(b.text@, 0, 0));
            assert(cursor_at(b.text@, b.cursor as int, 0));
            assert(utf8_len(b.text@) <= usize::MAX);
            let k = choose|k: int| cursor_at(b.text@, 0, k);
            lemma_cursor_at_unique(b.text@, 0, k, 0);
        }
        b
    }

    /// Inserts `ch` at the cursor and moves the cursor past it.
    pub fn insert_char(&mut self, ch: char)
        requires
            old(self).wf(),
            old(self).byte_len() + 4 <= usize::MAX,
        ensures
            final(self).text@ == old(self).text@.take(old(self).cursor_index()).push(ch)
                + old(self).text@.skip(old(self).cursor_index()),
            final(self).cursor == old(self).cursor + char_len(ch),
            final(self).wf(),
            final(self).cursor_index() == old(self).cursor_index() + 1,
    {
        let ghost s = self.text@;
        let v = chars_of(self.text.as_str());
        let k = locate(v.as_slice(), self.cursor);
        proof {
            let k0 = choose|j: int| cursor_at(s, self.cursor as int, j);
            lemma_cursor_at_unique(s, self.cursor as int, k0, k as int);
            lemma_utf8_len_take_mono(s, k as int, s.len() as int);
            assert(s.take(s.len() as int) =~= s);
            crate::utf8len::lemma_encode_single(ch);
        }
        let mut w = slice_range(v.as_slice(), 0, k);
        w.push(ch);
        let rest = slice_from(v.as_slice(), k);
        crate::text::append_chars(&mut w, rest.as_slice());
        let width = char_width(ch);
        self.text = string_of(w.as_slice());
        self.cursor = self.cursor + width;
        proof {
            let n = self.text@;
            assert(n.take(k + 1) =~= s.take(k as int).push(ch));
            lemma_utf8_len_push(s.take(k as int), ch);
            crate::utf8len::lemma_utf8_len_insert(s, k as int, ch);
            assert(cursor_at(n, self.cursor as int, k + 1));
            let k1 = choose|j: int| cursor_at(n, self.cursor as int, j);
            lemma_cursor_at_unique(n, self.cursor as int, k1, k + 1);
        }
    }

    /// Inserts a line break at the cursor.
    pub fn insert_newline(&mut self)
        requires
            old(self).wf(),
            old(self).byte_len() + 4 <= usize::MAX,
        ensures
            final(self).text@ == old(self).text@.take(old(self).cursor_index()).push('\n')
                + old(self).text@.skip(old(self).cursor_index()),
            final(self).cursor == old(self).cursor + 1,
            final(self).wf(),
            final(self).cursor_index() == old(self).cursor_index() + 1,
    {
        self.insert_char('\n');
    }

    /// Removes the character before the cursor, if any.
    pub fn backspace(&mut self)
        requires
            old(self).wf(),
        ensures
            final(self).wf(),
            old(self).cursor == 0 ==> *final(self) == *old(self),
            old(self).cursor != 0 ==> {
                let k = old(self).cursor_index();
                &&& final(self).text@ == old(self).text@.take(k - 1) + old(self).text@.skip(k)
                &&& final(self).cursor == utf8_len(old(self).text@.take(k - 1))
                &&& final(self).cursor_index() == k - 1
            },
    {
        if self.cursor == 0 {
            return;
        }
        let ghost s = self.text@;
        let v = chars_of(self.text.as_str());
        let k = locate(v.as_slice(), self.cursor);
        proof {
            let k0 = choose|j: int| cursor_at(s, self.cursor as int, j);
            lemma_cursor_at_unique(s, self.cursor as int, k0, k as int);
            if k == 0 {
                lemma_utf8_len_empty(s);
            }
            lemma_utf8_len_take_mono(s, k as int, s.len() as int);
            assert(s.take(s.len() as int) =~= s);
        }
        let mut w = slice_range(v.as_slice(), 0, k - 1);
        let rest = slice_from(v.as_slice(), k);
        crate::text::append_chars(&mut w, rest.as_slice());
        let c = offset_of(v.as_slice(), k - 1);
        self.text = string_of(w.as_slice());
        self.cursor = c;
        proof {
            let n = self.text@;
            assert(n.take(k - 1) =~= s.take(k - 1));
            crate::utf8len::lemma_utf8_len_remove(s, k - 1);
            assert(s.skip(k - 1 + 1) =~= s.skip(k as int));
            assert(n =~= s.take(k - 1) + s.skip(k as int));
            assert(utf8_len(n) <= usize::MAX);
            assert(cursor_at(n, c as int, k - 1));
            assert(cursor_at(self.text@, self.cursor as int, k - 1));
            let k1 = choose|j: int| cursor_at(n, c as int, j);
            lemma_cursor_at_unique(n, c as int, k1, k - 1);
        }
    }

    /// Removes the character after the cursor, if any.
    pub fn delete(&mut self)
        requires
            old(self).wf(),
        ensures
            final(self).wf(),
            final(self).cursor == old(self).cursor,
            old(self).cursor_index() == old(self).text@.len() ==> *final(self) == *old(self),
            old(self).cursor_index() < old(self).text@.len() ==> {
                let k = old(self).cursor_index();
                &&& final(self).text@ == old(self).text@.take(k) + old(self).text@.skip(k + 1)
                &&& final(self).cursor_index() == k
            },
    {
        let ghost s = self.text@;
        let v = chars_of(self.text.as_str());
        let k = locate(v.as_slice(), self.cursor);
        proof {
            let k0 = choose|j: int| cursor_at(s, self.cursor as int, j);
            lemma_cursor_at_unique(s, self.cursor as int, k0, k as int);
        }
        if k >= v.len() {
            return;
        }
        let mut w = slice_range(v.as_slice(), 0, k);
        let rest = slice_from(v.as_slice(), k + 1);
        crate::text::append_chars(&mut w, rest.as_slice());
        self.text = string_of(w.as_slice());
        proof {
            let n = self.text@;
            assert(n.take(k as int) =~= s.take(k as int));
            crate::utf8len::lemma_utf8_len_remove(s, k as int);
            assert(cursor_at(n, self.cursor as int, k as int));
            let k1 = choose|j: int| cursor_at(n, self.cursor as int, j);
            lemma_cursor_at_unique(n, self.cursor as int, k1, k as int);
        }
    }

    /// Moves the cursor one character to the left, if possible.
    pub fn move_left(&mut self)
        requires
            old(self).wf(),
        ensures
            final(self).wf(),
            final(self).text == old(self).text,
            old(self).cursor_index() == 0 ==> final(self).cursor == old(self).cursor,
            old(self).cursor_index() > 0 ==> final(self).cursor == utf8_len(
                old(self).text@.take(old(self).cursor_index() - 1),
            ) && final(self).cursor_index() == old(self).cursor_index() - 1,
    {
        let ghost s = self.text@;
        let v = chars_of(self.text.as_str());
        let k = locate(v.as_slice(), self.cursor);
        proof {
            let k0 = choose|j: int| cursor_at(s, self.cursor as int, j);
            lemma_cursor_at_unique(s, self.cursor as int, k0, k as int);
            lemma_utf8_len_take_mono(s, k as int, s.len() as int);
            assert(s.take(s.len() as int) =~= s);
        }
        if k > 0 {
            let c = offset_of(v.as_slice(), k - 1);
            self.cursor = c;
            proof {
                assert(self.text@ == s);
                assert(cursor_at(s, c as int, k - 1));
                assert(utf8_len(self.text@) <= usize::MAX);
                assert(cursor_at(self.text@, self.cursor as int, k - 1));
                let k1 = choose|j: int| cursor_at(s, c as int, j);
                lemma_cursor_at_unique(s, c as int, k1, k - 1);
            }
        }
    }

    /// Moves the cursor one character to the right, if possible.
    pub fn move_right(&mut self)
        requires
            old(self).wf(),
        ensures
            final(self).wf(),
            final(self).text == old(self).text,
            old(self).cursor_index() == old(self).text@.len() ==> final(self).cursor == old(self).cursor,
            old(self).cursor_index() < old(self).text@.len() ==> final(self).cursor == utf8_len(
                old(self).text@.take(old(self).cursor_index() + 1),
            ) && final(self).cursor_index() == old(self).cursor_index() + 1,
    {
        let ghost s = self.text@;
        let v = chars_of(self.text.as_str());
        let k = locate(v.as_slice(), self.cursor);
        proof {
            let k0 = choose|j: int| cursor_at(s, self.cursor as int, j);
            lemma_cursor_at_unique(s, self.cursor as int, k0, k as int);
            assert(s.take(s.len() as int) =~= s);
        }
        if k < v.len() {
            let c = offset_of(v.as_slice(), k + 1);
            self.cursor = c;
            proof {
                assert(self.text@ == s);
                assert(cursor_at(s, c as int, k + 1));
                assert(utf8_len(self.text@) <= usize::MAX);
                assert(cursor_at(self.text@, self.cursor as int, k + 1));
                let k1 = choose|j: int| cursor_at(s, c as int, j);
                lemma_cursor_at_unique(s, c as int, k1, k + 1);
            }
        }
    }

    /// Moves the cursor to the start of the text.
    pub fn move_home(&mut self)
        ensures
            final(self).text == old(self).text,
            final(self).cursor == 0,
            final(self).wf(),
            final(self).cursor_index() == 0,
    {
        let _ = str_byte_len(self.text.as_str());
        self.cursor = 0;
        proof {
            lemma_utf8_len_empty(self.text@);
            assert(cursor_at(self.text@, 0, 0));
            assert(cursor_at(self.text@, self.cursor as int, 0));
            let k1 = choose|j: int| cursor_at(self.text@, 0, j);
            lemma_cursor_at_unique(self.text@, 0, k1, 0);
        }
    }

    /// Moves the cursor to the end of the text.
    pub fn move_end(&mut self)
        ensures
            final(self).text == old(self).text,
            final(self).cursor == utf8_len(old(self).text@),
            final(self).wf(),
            final(self).cursor_index() == old(self).text@.len(),
    {
        let len = str_byte_len(self.text.as_str());
        self.cursor = len;
        proof {
            let s = self.text@;
            assert(s.take(s.len() as int) =~= s);
            assert(cursor_at(s, len as int, s.len() as int));
            assert(cursor_at(self.text@, self.cursor as int, s.len() as int));
            let k1 = choose|j: int| cursor_at(s, len as int, j);
            lemma_cursor_at_unique(s, len as int, k1, s.len() as int);
        }
    }

    /// Empties the buffer.
    pub fn clear(&mut self)
        ensures
            final(self).text@ == Seq::<char>::empty(),
            final(self).cursor == 0,
            final(self).wf(),
            final(self).cursor_index() == 0,
    {
        *self = TextBuffer::empty();
    }

    /// The text before the cursor, the character under it (a space at the end
    /// of the text), and the text after that character.
    pub fn split_at_cursor(&self) -> (r: (&str, &str, &str))
        requires
            self.wf(),
        ensures
            self.cursor_index() == self.text@.len() ==> r.0@ == self.text@ && r.1@ == " "@ && r.2@ == ""@,
            self.cursor_index() < self.text@.len() ==> {
                let k = self.cursor_index();
                &&& r.0@ == self.text@.take(k)
                &&& r.1@ == seq![self.text@[k]]
                &&& r.2@ == self.text@.skip(k + 1)
            },
    {
        let ghost s = self.text@;
        let t = self.text.as_str();
        let v = chars_of(t);
        let k = locate(v.as_slice(), self.cursor);
        proof {
            let k0 = choose|j: int| cursor_at(s, self.cursor as int, j);
            lemma_cursor_at_unique(s, self.cursor as int, k0, k as int);
        }
        if k >= v.len() {
            return (t, " ", "");
        }
        proof {
            lemma_take_is_char_boundary(s, k as int);
            lemma_encode_split(s, k as int);
        }
        let (before, rest) = t.split_at(self.cursor);
        proof {
            lemma_encode_utf8_injective(before@, s.take(k as int));
            lemma_encode_utf8_injective(rest@, s.skip(k as int));
        }
        let w = char_width(v[k]);
        proof {
            let r = s.skip(k as int);
            assert(r.take(1) =~= seq![s[k as int]]);
            crate::utf8len::lemma_encode_single(s[k as int]);
            lemma_take_is_char_boundary(r, 1);
            lemma_encode_split(r, 1);
        }
        let (at, after) = rest.split_at(w);
        proof {
            let r = s.skip(k as int);
            lemma_encode_utf8_injective(at@, r.take(1));
            lemma_encode_utf8_injective(after@, r.skip(1));
            assert(r.skip(1) =~= s.skip(k + 1));
        }
        (before, at, after)
    }
}


impl Default for TextBuffer {
    fn default() -> (b: TextBuffer)
        ensures
            b.text@ == Seq::<char>::empty(),
            b.cursor == 0,
            b.wf(),
    {
        TextBuffer::empty()
    }
}

// ---------------------------------------------------------------------------
// UI state enums
// ---------------------------------------------------------------------------

/// The pane that has keyboard focus.
#[derive(Debug, Clone, Copy, PartialEq, Eq, Structural)]
pub enum FocusPane {
    Explorer,
    Editor,
    Viewer,
}

/// The tabs of the request editor.
#[derive(Debug, Clone, Copy, PartialEq, Eq, Structural, Hash)]
pub enum EditorTab {
    Params,
    Headers,
    Auth,
    Body,
}

/// Position of a tab in the order Params, Headers, Auth, Body.
pub open spec fn tab_index(t: EditorTab) -> int {
    match t {
        EditorTab::Params => 0,
        EditorTab::Headers => 1,
        EditorTab::Auth => 2,
        EditorTab::Body => 3,
    }
}

/// The tab at a position of that order (positions taken modulo four).
pub open spec fn tab_at(i: int) -> EditorTab {
    let k = i % 4;
    if k == 0 {
        EditorTab::Params
    } else if k == 1 {
        EditorTab::Headers
    } else if k == 2 {
        EditorTab::Auth
    } else {
        EditorTab::Body
    }
}

/// Title shown for a tab.
pub open spec fn tab_title(t: EditorTab) -> Seq<char> {
    match t {
        EditorTab::Params => "Params"@,
        EditorTab::Headers => "Headers"@,
        EditorTab::Auth => "Auth"@,
        EditorTab::Body => "Body"@,
    }
}

impl EditorTab {
    pub fn title(self) -> (s: &'static str)
        ensures
            s@ == tab_title(self),
    {
        match self {
            EditorTab::Params => "Params",
            EditorTab::Headers => "Headers",
            EditorTab::Auth => "Auth",
            EditorTab::Body => "Body",
        }
    }

    pub fn next(self) -> (t: EditorTab)
        ensures
            t == tab_at(tab_index(self) + 1),
    {
        match self {
            EditorTab::Params => EditorTab::Headers,
            EditorTab::Headers => EditorTab::Auth,
            EditorTab::Auth => EditorTab::Body,
            EditorTab::Body => EditorTab::Params,
        }
    }

    pub fn prev(self) -> (t: EditorTab)
        ensures
            t == tab_at(tab_index(self) + 3),
    {
        match self {
            EditorTab::Params => EditorTab::Body,
            EditorTab::Headers => EditorTab::Params,
            EditorTab::Auth => EditorTab::Headers,
            EditorTab::Body => EditorTab::Auth,
        }
    }
}

/// What text input edits: the base URL or the active field of a tab.
#[derive(Debug, Clone, Copy, PartialEq, Eq, Structural)]
pub enum InputTarget {
    BaseUrl,
    Tab(EditorTab),
}

// ---------------------------------------------------------------------------
// KVRow / BodyType / RequestDraft
// ---------------------------------------------------------------------------

/// A key/value row of the params, headers or auth table.
#[derive(Debug, Clone)]
pub struct KVRow {
    pub key: TextBuffer,
    pub value: TextBuffer,
    pub enabled: bool,
}

/// An empty, enabled row.
pub open spec fn kv_fresh(r: KVRow) -> bool {
    &&& r.key.text@ == Seq::<char>::empty()
    &&& r.key.cursor == 0
    &&& r.value.text@ == Seq::<char>::empty()
    &&& r.value.cursor == 0
    &&& r.enabled
}

impl KVRow {
    pub fn new() -> (r: KVRow)
        ensures
            kv_fresh(r),
            r.key.wf(),
            r.value.wf(),
    {
        KVRow { key: TextBuffer::empty(), value: TextBuffer::empty(), enabled: true }
    }

    /// A copy of this row.
    pub fn duplicate(&self) -> (r: KVRow)
        ensures
            r == *self,
    {
        KVRow { key: self.key.duplicate(), value: self.value.duplicate(), enabled: self.enabled }
    }
}

/// How the request body is sent.
#[derive(Debug, Clone, Copy, PartialEq, Eq, Structural)]
pub enum BodyType {
    Json,
    Text,
    FormUrlEncoded,
    NoBody,
}

/// Position of a body type in the order None, Json, Text, FormUrlEncoded.
pub open spec fn body_type_index(b: BodyType) -> int {
    match b {
        BodyType::NoBody => 0,
        BodyType::Json => 1,
        BodyType::Text => 2,
        BodyType::FormUrlEncoded => 3,
    }
}

/// The body type at a position of that order (positions taken modulo four).
pub open spec fn body_type_at(i: int) -> BodyType {
    let k = i % 4;
    if k == 0 {
        BodyType::NoBody
    } else if k == 1 {
        BodyType::Json
    } else if k == 2 {
        BodyType::Text
    } else {
        BodyType::FormUrlEncoded
    }
}

/// Label shown for a body type.
pub open spec fn body_type_label(b: BodyType) -> Seq<char> {
    match b {
        BodyType::Json => "JSON"@,
        BodyType::Text => "Text"@,
        BodyType::FormUrlEncoded => "Form"@,
        BodyType::NoBody => "None"@,
    }
}

impl BodyType {
    pub fn label(self) -> (s: &'static str)
        ensures
            s@ == body_type_label(self),
    {
        match self {
            BodyType::Json => "JSON",
            BodyType::Text => "Text",
            BodyType::FormUrlEncoded => "Form",
            BodyType::NoBody => "None",
        }
    }

    pub fn next(self) -> (b: BodyType)
        ensures
            b == body_type_at(body_type_index(self) + 1),
    {
        match self {
            BodyType::NoBody => BodyType::Json,
            BodyType::Json => BodyType::Text,
            BodyType::Text => BodyType::FormUrlEncoded,
            BodyType::FormUrlEncoded => BodyType::NoBody,
        }
    }

    pub fn prev(self) -> (b: BodyType)
        ensures
            b == body_type_at(body_type_index(self) + 3),
    {
        match self {
            BodyType::NoBody => BodyType::FormUrlEncoded,
            BodyType::Json => BodyType::NoBody,
            BodyType::Text => BodyType::Json,
            BodyType::FormUrlEncoded => BodyType::Text,
        }
    }
}

/// The editable state of one request.
#[derive(Debug, Clone)]
pub struct RequestDraft {
    pub base_url: TextBuffer,
    pub headers: Vec<KVRow>,
    pub body: TextBuffer,
    pub body_type: BodyType,
    pub params: Vec<KVRow>,
    pub auth: Vec<KVRow>,
    pub active_row: usize,
    pub active_col: usize,
}

/// Two drafts hold the same values.
pub open spec fn same_draft(a: RequestDraft, b: RequestDraft) -> bool {
    &&& a.base_url == b.base_url
    &&& a.headers@ == b.headers@
    &&& a.body == b.body
    &&& a.body_type == b.body_type
    &&& a.params@ == b.params@
    &&& a.auth@ == b.auth@
    &&& a.active_row == b.active_row
    &&& a.active_col == b.active_col
}

/// The row list of a key/value tab.
pub open spec fn tab_rows(d: RequestDraft, tab: EditorTab) -> Seq<KVRow> {
    match tab {
        EditorTab::Headers => d.headers@,
        EditorTab::Params => d.params@,
        EditorTab::Auth => d.auth@,
        EditorTab::Body => Seq::empty(),
    }
}

/// The draft `d1` is `d0` after the buffer that input edits for `target`
/// went from `b0` to `b1`: the base URL, the body, or the key (column 0) or
/// value (other columns) of the active row of a key/value tab, whose rows
/// were first extended with fresh rows until the active row existed.
pub open spec fn buffer_edit(d0: RequestDraft, target: InputTarget, b0: TextBuffer, b1: TextBuffer, d1: RequestDraft) -> bool {
    match target {
        InputTarget::BaseUrl => b0 == d0.base_url && d1 == (RequestDraft { base_url: b1, ..d0 }),
        InputTarget::Tab(EditorTab::Body) => b0 == d0.body && d1 == (RequestDraft { body: b1, ..d0 }),
        InputTarget::Tab(tab) => {
            let row = d0.active_row as int;
            let col = d0.active_col;
            &&& exists|p: Seq<KVRow>| {
                &&& padded_rows(tab_rows(d0, tab), p, row)
                &&& b0 == row_buffer(#[trigger] p[row], col)
                &&& tab_rows(d1, tab) == p.update(row, row_with_buffer(p[row], col, b1))
            }
            &&& forall|t: EditorTab| t != tab ==> tab_rows(d1, t) == tab_rows(d0, t)
            &&& d1.base_url == d0.base_url
            &&& d1.body == d0.body
            &&& d1.body_type == d0.body_type
            &&& d1.active_row == d0.active_row
            &&& d1.active_col == d0.active_col
        },
    }
}

/// `new` is `old` extended with fresh rows until it has more than `row` rows.
pub open spec fn padded_rows(old: Seq<KVRow>, new: Seq<KVRow>, row: int) -> bool {
    &&& new.len() == if old.len() > row { old.len() as int } else { row + 1 }
    &&& forall|i: int| 0 <= i < old.len() ==> new[i] == old[i]
    &&& forall|i: int| old.len() <= i < new.len() ==> kv_fresh(#[trigger] new[i])
}

/// The buffer of a row that a column selects: the key for column 0, the value otherwise.
pub open spec fn row_buffer(r: KVRow, col: usize) -> TextBuffer {
    if col == 0 {
        r.key
    } else {
        r.value
    }
}

/// A row with the buffer that a column selects replaced by `b`.
pub open spec fn row_with_buffer(r: KVRow, col: usize, b: TextBuffer) -> KVRow {
    if col == 0 {
        KVRow { key: b, ..r }
    } else {
        KVRow { value: b, ..r }
    }
}

/// A copy of a list of rows.
fn duplicate_rows(rows: &Vec<KVRow>) -> (r: Vec<KVRow>)
    ensures
        r@ == rows@,
{
    let mut r: Vec<KVRow> = Vec::new();
    let mut i: usize = 0;
    while i < rows.len()
        invariant
            i <= rows.len(),
            r@ == rows@.take(i as int),
        decreases rows.len() - i,
    {
        r.push(rows[i].duplicate());
        assert(rows@.take(i + 1) =~= rows@.take(i as int).push(rows@[i as int]));
        i += 1;
    }
    assert(rows@.take(rows.len() as int) =~= rows@);
    r
}

/// Appends fresh rows until `rows` has more than `row` rows.
fn pad_rows(rows: &mut Vec<KVRow>, row: usize)
    requires
        row < usize::MAX,
    ensures
        padded_rows(old(rows)@, final(rows)@, row as int),
{
    let ghost orig = rows@;
    while rows.len() <= row
        invariant
            row < usize::MAX,
            orig.len() <= rows@.len(),
            rows@.len() <= if orig.len() > row { orig.len() as int } else { row + 1 },
            forall|i: int| 0 <= i < orig.len() ==> rows@[i] == orig[i],
            forall|i: int| orig.len() <= i < rows@.len() ==> kv_fresh(#[trigger] rows@[i]),
        decreases row + 1 - rows.len(),
    {
        rows.push(KVRow::new());
    }
}

impl RequestDraft {
    pub fn new(base_url: &str) -> (d: RequestDraft)
        ensures
            d.base_url.text@ == base_url@,
            d.base_url.cursor == utf8_len(base_url@),
            d.base_url.wf(),
            d.headers@.len() == 1 && kv_fresh(d.headers@[0]),
            d.params@.len() == 1 && kv_fresh(d.params@[0]),
            d.auth@.len() == 1 && kv_fresh(d.auth@[0]),
            d.body.text@ == Seq::<char>::empty(),
            d.body.cursor == 0,
            d.body_type == BodyType::NoBody,
            d.active_row == 0,
            d.active_col == 0,
    {
        let mut headers = Vec::new();
        headers.push(KVRow::new());
        let mut params = Vec::new();
        params.push(KVRow::new());
        let mut auth = Vec::new();
        auth.push(KVRow::new());
        RequestDraft {
            base_url: TextBuffer::new(base_url),
            headers,
            body: TextBuffer::empty(),
            body_type: BodyType::NoBody,
            params,
            auth,
            active_row: 0,
            active_col: 0,
        }
    }

    /// A copy of this draft.
    pub fn duplicate(&self) -> (d: RequestDraft)
        ensures
            same_draft(d, *self),
    {
        RequestDraft {
            base_url: self.base_url.duplicate(),
            headers: duplicate_rows(&self.headers),
            body: self.body.duplicate(),
            body_type: self.body_type,
            params: duplicate_rows(&self.params),
            auth: duplicate_rows(&self.auth),
            active_row: self.active_row,
            active_col: self.active_col,
        }
    }

    /// The text buffer that input edits for `target`: the base URL, the body,
    /// or the key (column 0) or value (other columns) of the active row of a
    /// key/value tab, whose rows are first extended with fresh rows until the
    /// active row exists.
    pub fn active_buffer_mut(&mut self, target: InputTarget) -> (b: &mut TextBuffer)
        requires
            old(self).active_row < usize::MAX,
        ensures
            buffer_edit(*old(self), target, *b, *final(b), *final(self)),
    {
        match target {
            InputTarget::BaseUrl => &mut self.base_url,
            InputTarget::Tab(EditorTab::Body) => &mut self.body,
            InputTarget::Tab(tab) => {
                let row = self.active_row;
                let rows = match tab {
                    EditorTab::Headers => &mut self.headers,
                    EditorTab::Params => &mut self.params,
                    _ => &mut self.auth,
                };
                pad_rows(rows, row);
                if self.active_col == 0 {
                    &mut rows[row].key
                } else {
                    &mut rows[row].value
                }
            },
        }
    }

    /// Appends a fresh row to a key/value tab and makes it the active row,
    /// key column; the body tab has no rows and is left unchanged.
    pub fn add_row(&mut self, tab: EditorTab)
        ensures
            tab == EditorTab::Body ==> *final(self) == *old(self),
            tab != EditorTab::Body ==> {
                &&& tab_rows(*final(self), tab).len() == tab_rows(*old(self), tab).len() + 1
                &&& tab_rows(*final(self), tab).drop_last() == tab_rows(*old(self), tab)
                &&& kv_fresh(tab_rows(*final(self), tab).last())
                &&& final(self).active_row == tab_rows(*old(self), tab).len()
                &&& final(self).active_col == 0
                &&& forall|t: EditorTab| t != tab ==> tab_rows(*final(self), t) == tab_rows(*old(self), t)
                &&& final(self).base_url == old(self).base_url
                &&& final(self).body == old(self).body
                &&& final(self).body_type == old(self).body_type
            },
    {
        let len = match tab {
            EditorTab::Headers => {
                self.headers.push(KVRow::new());
                self.headers.len()
            },
            EditorTab::Params => {
                self.params.push(KVRow::new());
                self.params.len()
            },
            EditorTab::Auth => {
                self.auth.push(KVRow::new());
                self.auth.len()
            },
            EditorTab::Body => return,
        };
        self.active_row = len - 1;
        self.active_col = 0;
        proof {
            assert(tab_rows(*self, tab).drop_last() =~= tab_rows(*old(self), tab));
        }
    }
}


// ---------------------------------------------------------------------------
// Editing the active buffer of a draft
// ---------------------------------------------------------------------------

/// An editing operation on a text buffer.
#[derive(Debug, Clone, Copy, PartialEq, Eq, Structural)]
pub enum BufferOp {
    Insert(char),
    Newline,
    Backspace,
    Delete,
    Left,
    Right,
    Home,
    End,
}

/// `b1` is `b0` after `op`, as the buffer's operations state it.
pub open spec fn buffer_op_done(op: BufferOp, b0: TextBuffer, b1: TextBuffer) -> bool {
    let k = b0.cursor_index();
    &&& b1.wf()
    &&& match op {
        BufferOp::Insert(c) => {
            &&& b1.text@ == b0.text@.take(k).push(c) + b0.text@.skip(k)
            &&& b1.cursor == b0.cursor + char_len(c)
            &&& b1.cursor_index() == k + 1
        },
        BufferOp::Newline => {
            &&& b1.text@ == b0.text@.take(k).push('\n') + b0.text@.skip(k)
            &&& b1.cursor == b0.cursor + 1
            &&& b1.cursor_index() == k + 1
        },
        BufferOp::Backspace => if b0.cursor == 0 {
            b1 == b0
        } else {
            &&& b1.text@ == b0.text@.take(k - 1) + b0.text@.skip(k)
            &&& b1.cursor == utf8_len(b0.text@.take(k - 1))
            &&& b1.cursor_index() == k - 1
        },
        BufferOp::Delete => if k == b0.text@.len() {
            b1 == b0
        } else {
            &&& b1.text@ == b0.text@.take(k) + b0.text@.skip(k + 1)
            &&& b1.cursor == b0.cursor
            &&& b1.cursor_index() == k
        },
        BufferOp::Left => {
            &&& b1.text == b0.text
            &&& k == 0 ==> b1.cursor == b0.cursor
            &&& k > 0 ==> b1.cursor == utf8_len(b0.text@.take(k - 1)) && b1.cursor_index() == k - 1
        },
        BufferOp::Right => {
            &&& b1.text == b0.text
            &&& k == b0.text@.len() ==> b1.cursor == b0.cursor
            &&& k < b0.text@.len() ==> b1.cursor == utf8_len(b0.text@.take(k + 1)) && b1.cursor_index() == k + 1
        },
        BufferOp::Home => {
            &&& b1.text == b0.text
            &&& b1.cursor == 0
            &&& b1.cursor_index() == 0
        },
        BufferOp::End => {
            &&& b1.text == b0.text
            &&& b1.cursor == utf8_len(b0.text@)
            &&& b1.cursor_index() == b0.text@.len()
        },
    }
}

/// The buffer has room for one more character.
pub open spec fn buffer_room(b: TextBuffer) -> bool {
    b.byte_len() + 4 <= usize::MAX
}

impl TextBuffer {
    /// Applies an editing operation.
    pub fn apply(&mut self, op: BufferOp)
        requires
            old(self).wf(),
            buffer_room(*old(self)),
        ensures
            buffer_op_done(op, *old(self), *final(self)),
    {
        match op {
            BufferOp::Insert(c) => self.insert_char(c),
            BufferOp::Newline => self.insert_newline(),
            BufferOp::Backspace => self.backspace(),
            BufferOp::Delete => self.delete(),
            BufferOp::Left => self.move_left(),
            BufferOp::Right => self.move_right(),
            BufferOp::Home => self.move_home(),
            BufferOp::End => self.move_end(),
        }
    }
}

/// Every buffer of a list of rows is well formed and has room.
pub open spec fn rows_ok(rows: Seq<KVRow>) -> bool {
    forall|i: int| 0 <= i < rows.len() ==> {
        &&& (#[trigger] rows[i]).key.wf()
        &&& rows[i].value.wf()
        &&& buffer_room(rows[i].key)
        &&& buffer_room(rows[i].value)
    }
}

/// Every buffer of a draft is well formed and has room for one more
/// character, and its active row leaves room for one more row.
pub open spec fn draft_ok(d: RequestDraft) -> bool {
    &&& d.base_url.wf()
    &&& d.body.wf()
    &&& buffer_room(d.base_url)
    &&& buffer_room(d.body)
    &&& rows_ok(d.headers@)
    &&& rows_ok(d.params@)
    &&& rows_ok(d.auth@)
    &&& d.active_row < usize::MAX - 1
}

/// Every buffer of a draft is well formed.
pub open spec fn draft_wf(d: RequestDraft) -> bool {
    &&& d.base_url.wf()
    &&& d.body.wf()
    &&& forall|i: int| 0 <= i < d.headers@.len() ==> (#[trigger] d.headers@[i]).key.wf() && d.headers@[i].value.wf()
    &&& forall|i: int| 0 <= i < d.params@.len() ==> (#[trigger] d.params@[i]).key.wf() && d.params@[i].value.wf()
    &&& forall|i: int| 0 <= i < d.auth@.len() ==> (#[trigger] d.auth@[i]).key.wf() && d.auth@[i].value.wf()
}

/// An empty buffer with the cursor at 0 is well formed and has room.
pub proof fn lemma_empty_buffer_ok(b: TextBuffer)
    requires
        b.text@ == Seq::<char>::empty(),
        b.cursor == 0,
    ensures
        b.wf(),
        buffer_room(b),
        b.cursor_index() == 0,
{
    crate::utf8len::lemma_utf8_len_nil();
    lemma_utf8_len_empty(b.text@);
    assert(cursor_at(b.text@, 0, 0));
    let k = choose|k: int| cursor_at(b.text@, b.cursor as int, k);
    lemma_cursor_at_unique(b.text@, 0, k, 0);
}

/// The rows of a tab that editing padded keep every buffer ok but the one
/// edited, which is well formed.
pub proof fn lemma_padded_rows_ok(old_rows: Seq<KVRow>, p: Seq<KVRow>, row: int)
    requires
        rows_ok(old_rows),
        padded_rows(old_rows, p, row),
    ensures
        rows_ok(p),
{
    assert forall|i: int| 0 <= i < p.len() implies {
        &&& (#[trigger] p[i]).key.wf()
        &&& p[i].value.wf()
        &&& buffer_room(p[i].key)
        &&& buffer_room(p[i].value)
    } by {
        if i >= old_rows.len() {
            lemma_empty_buffer_ok(p[i].key);
            lemma_empty_buffer_ok(p[i].value);
        }
    }
}

/// Rows whose buffers are ok, one buffer of one row replaced by a well
/// formed buffer, keep every buffer well formed.
proof fn lemma_rows_wf_after_edit(p: Seq<KVRow>, row: int, col: usize, b1: TextBuffer)
    requires
        rows_ok(p),
        0 <= row < p.len(),
        b1.wf(),
    ensures
        forall|i: int| 0 <= i < p.len() ==> (#[trigger] p.update(row, row_with_buffer(p[row], col, b1))[i]).key.wf()
            && p.update(row, row_with_buffer(p[row], col, b1))[i].value.wf(),
{
}

/// A draft whose buffers are all ok is well formed.
pub proof fn lemma_ok_rows_wf(rows: Seq<KVRow>)
    requires
        rows_ok(rows),
    ensures
        forall|i: int| 0 <= i < rows.len() ==> (#[trigger] rows[i]).key.wf() && rows[i].value.wf(),
{
}

impl RequestDraft {
    /// Applies an editing operation to the buffer that input edits for `target`.
    pub fn edit(&mut self, target: InputTarget, op: BufferOp)
        requires
            draft_ok(*old(self)),
        ensures
            exists|b0: TextBuffer, b1: TextBuffer| {
                &&& #[trigger] buffer_edit(*old(self), target, b0, b1, *final(self))
                &&& buffer_op_done(op, b0, b1)
            },
            draft_wf(*final(self)),
    {
        let ghost d0 = *self;
        let b = self.active_buffer_mut(target);
        let ghost b0 = *b;
        proof {
            match target {
                InputTarget::BaseUrl => {},
                InputTarget::Tab(EditorTab::Body) => {},
                InputTarget::Tab(tab) => {
                    let p = choose|p: Seq<KVRow>| {
                        &&& padded_rows(tab_rows(d0, tab), p, d0.active_row as int)
                        &&& b0 == row_buffer(#[trigger] p[d0.active_row as int], d0.active_col)
                    };
                    lemma_padded_rows_ok(tab_rows(d0, tab), p, d0.active_row as int);
                },
            }
        }
        b.apply(op);
        let ghost b1 = *b;
        proof {
            assert(buffer_edit(d0, target, b0, b1, *self));
            lemma_ok_rows_wf(d0.headers@);
            lemma_ok_rows_wf(d0.params@);
            lemma_ok_rows_wf(d0.auth@);
            match target {
                InputTarget::BaseUrl => {},
                InputTarget::Tab(EditorTab::Body) => {},
                InputTarget::Tab(tab) => {
                    let row = d0.active_row as int;
                    let p = choose|p: Seq<KVRow>| {
                        &&& padded_rows(tab_rows(d0, tab), p, row)
                        &&& b0 == row_buffer(#[trigger] p[row], d0.active_col)
                        &&& tab_rows(*self, tab) == p.update(row, row_with_buffer(p[row], d0.active_col, b1))
                    };
                    lemma_padded_rows_ok(tab_rows(d0, tab), p, row);
                    lemma_rows_wf_after_edit(p, row, d0.active_col, b1);
                    assert(tab_rows(*self, EditorTab::Headers) == tab_rows(d0, EditorTab::Headers) || tab == EditorTab::Headers);
                    assert(tab_rows(*self, EditorTab::Params) == tab_rows(d0, EditorTab::Params) || tab == EditorTab::Params);
                    assert(tab_rows(*self, EditorTab::Auth) == tab_rows(d0, EditorTab::Auth) || tab == EditorTab::Auth);
                },
            }
        }
    }
}


/// `d1` is `d0` with its active row moved one up (stopping at the first
/// row) or one down, the rows of `tab` then extended with fresh rows until
/// the new active row exists.
pub open spec fn row_stepped(d0: RequestDraft, tab: EditorTab, up: bool, d1: RequestDraft) -> bool {
    if up {
        d1 == (RequestDraft { active_row: if d0.active_row > 0 { (d0.active_row - 1) as usize } else { 0 }, ..d0 })
    } else {
        &&& d1.active_row == d0.active_row + 1
        &&& padded_rows(tab_rows(d0, tab), tab_rows(d1, tab), d1.active_row as int)
        &&& forall|t: EditorTab| t != tab ==> tab_rows(d1, t) == tab_rows(d0, t)
        &&& d1.base_url == d0.base_url
        &&& d1.body == d0.body
        &&& d1.body_type == d0.body_type
        &&& d1.active_col == d0.active_col
    }
}

/// `d1` is `d0` with row `idx` of `tab` switched on or off, when that row exists.
pub open spec fn row_toggled(d0: RequestDraft, tab: EditorTab, idx: int, d1: RequestDraft) -> bool {
    let rows = tab_rows(d0, tab);
    &&& tab_rows(d1, tab) == if 0 <= idx < rows.len() {
        rows.update(idx, KVRow { enabled: !rows[idx].enabled, ..rows[idx] })
    } else {
        rows
    }
    &&& forall|t: EditorTab| t != tab ==> tab_rows(d1, t) == tab_rows(d0, t)
    &&& d1.base_url == d0.base_url
    &&& d1.body == d0.body
    &&& d1.body_type == d0.body_type
    &&& d1.active_row == d0.active_row
    &&& d1.active_col == d0.active_col
}

impl RequestDraft {
    /// Moves the active row of a key/value tab one up or down.
    pub fn step_row(&mut self, tab: EditorTab, up: bool)
        requires
            tab != EditorTab::Body,
            !up ==> old(self).active_row < usize::MAX - 1,
        ensures
            row_stepped(*old(self), tab, up, *final(self)),
    {
        if up {
            self.active_row = self.active_row.saturating_sub(1);
        } else {
            self.active_row = self.active_row + 1;
            let row = self.active_row;
            match tab {
                EditorTab::Headers => pad_rows(&mut self.headers, row),
                EditorTab::Params => pad_rows(&mut self.params, row),
                _ => pad_rows(&mut self.auth, row),
            }
        }
    }

    /// Switches row `idx` of a key/value tab on or off; nothing happens when
    /// the row does not exist.
    pub fn toggle_row(&mut self, tab: EditorTab, idx: usize)
        requires
            tab != EditorTab::Body,
        ensures
            row_toggled(*old(self), tab, idx as int, *final(self)),
    {
        let rows = match tab {
            EditorTab::Headers => &mut self.headers,
            EditorTab::Params => &mut self.params,
            _ => &mut self.auth,
        };
        if idx < rows.len() {
            let enabled = rows[idx].enabled;
            rows[idx].enabled = !enabled;
        }
    }
}


/// Every buffer of a list of rows is well formed.
pub open spec fn rows_wf(rows: Seq<KVRow>) -> bool {
    forall|i: int| 0 <= i < rows.len() ==> (#[trigger] rows[i]).key.wf() && rows[i].value.wf()
}

/// Padding well-formed rows with fresh rows keeps them well formed.
pub proof fn lemma_padded_rows_wf(old_rows: Seq<KVRow>, p: Seq<KVRow>, row: int)
    requires
        rows_wf(old_rows),
        padded_rows(old_rows, p, row),
    ensures
        rows_wf(p),
{
    assert forall|i: int| 0 <= i < p.len() implies (#[trigger] p[i]).key.wf() && p[i].value.wf() by {
        if i >= old_rows.len() {
            lemma_empty_buffer_ok(p[i].key);
            lemma_empty_buffer_ok(p[i].value);
        }
    }
}

/// A draft is well formed exactly when its two buffers and its rows are.
pub proof fn lemma_draft_wf_rows(d: RequestDraft)
    ensures
        draft_wf(d) <==> (d.base_url.wf() && d.body.wf() && rows_wf(d.headers@) && rows_wf(d.params@) && rows_wf(d.auth@)),
{
}

/// Looking at the buffer that input edits, without changing it, keeps a
/// draft ok.
pub proof fn lemma_probe_ok(d0: RequestDraft, t: InputTarget, bb: TextBuffer, dm: RequestDraft)
    requires
        draft_ok(d0),
        buffer_edit(d0, t, bb, bb, dm),
    ensures
        draft_ok(dm),
        dm.active_row == d0.active_row,
        dm.active_col == d0.active_col,
        dm.body_type == d0.body_type,
{
    match t {
        InputTarget::BaseUrl => {},
        InputTarget::Tab(EditorTab::Body) => {},
        InputTarget::Tab(tab) => {
            let row = d0.active_row as int;
            let p = choose|p: Seq<KVRow>| {
                &&& padded_rows(tab_rows(d0, tab), p, row)
                &&& bb == row_buffer(#[trigger] p[row], d0.active_col)
                &&& tab_rows(dm, tab) == p.update(row, row_with_buffer(p[row], d0.active_col, bb))
            };
            lemma_padded_rows_ok(tab_rows(d0, tab), p, row);
            assert(row_with_buffer(p[row], d0.active_col, bb) == p[row]);
            assert(tab_rows(dm, tab) =~= p);
            assert(tab_rows(dm, EditorTab::Headers) == tab_rows(d0, EditorTab::Headers) || tab == EditorTab::Headers);
            assert(tab_rows(dm, EditorTab::Params) == tab_rows(d0, EditorTab::Params) || tab == EditorTab::Params);
            assert(tab_rows(dm, EditorTab::Auth) == tab_rows(d0, EditorTab::Auth) || tab == EditorTab::Auth);
        },
    }
}

/// Moving the active row keeps a draft well formed.
pub proof fn lemma_row_stepped_wf(d0: RequestDraft, tab: EditorTab, up: bool, d1: RequestDraft)
    requires
        draft_wf(d0),
        tab != EditorTab::Body,
        row_stepped(d0, tab, up, d1),
    ensures
        draft_wf(d1),
{
    lemma_draft_wf_rows(d0);
    lemma_draft_wf_rows(d1);
    if !up {
        lemma_padded_rows_wf(tab_rows(d0, tab), tab_rows(d1, tab), d1.active_row as int);
        assert(tab_rows(d1, EditorTab::Headers) == tab_rows(d0, EditorTab::Headers) || tab == EditorTab::Headers);
        assert(tab_rows(d1, EditorTab::Params) == tab_rows(d0, EditorTab::Params) || tab == EditorTab::Params);
        assert(tab_rows(d1, EditorTab::Auth) == tab_rows(d0, EditorTab::Auth) || tab == EditorTab::Auth);
    }
}

/// The number of binary digits of `n` (zero has none).
pub open spec fn bit_length(n: nat) -> nat
    decreases n,
{
    if n == 0 {
        0
    } else {
        1 + bit_length(n / 2)
    }
}

/// The value that the integer `n` takes as a double-precision float: `n` itself when it
/// fits in 53 significant bits, else the nearest multiple of the weight of the 53rd bit,
/// ties going to an even mantissa.
pub open spec fn nearest_double(n: nat) -> nat {
    if bit_length(n) <= 53 {
        n
    } else {
        let unit = pow2((bit_length(n) - 53) as nat);
        let m = n / unit;
        let r = n % unit;
        let m2 = if 2 * r > unit || (2 * r == unit && m % 2 == 1) {
            m + 1
        } else {
            m
        };
        m2 * unit
    }
}

/// `v / 1024` counted in tenths, rounded to the nearest tenth, ties to an even last digit.
pub open spec fn kib_tenths(v: nat) -> nat {
    let t = v * 10;
    let q = t / 1024;
    let r = t % 1024;
    if r > 512 || (r == 512 && q % 2 == 1) {
        q + 1
    } else {
        q
    }
}

/// A byte count for display: whole bytes below 1024, else kibibytes with one decimal,
/// computed from the count as a double-precision float.
pub open spec fn human_bytes_text(size: nat) -> Seq<char> {
    if size < 1024 {
        decimal(size) + " B"@
    } else {
        let q = kib_tenths(nearest_double(size));
        decimal(q / 10) + seq!['.', digit_char(q % 10)] + " KB"@
    }
}

proof fn lemma_bit_length_below(n: nat, b: nat)
    requires
        n < pow2(b),
    ensures
        bit_length(n) <= b,
    decreases b,
{
    if n > 0 {
        if b == 0 {
            lemma2_to64();
        } else {
            lemma_pow2_unfold(b);
            lemma_bit_length_below(n / 2, (b - 1) as nat);
        }
    }
}

/// Formats a byte count for the response status line.
pub fn human_bytes(size: usize) -> (s: String)
    ensures
        s@ == human_bytes_text(size as nat),
{
    if size < 1024 {
        let digits = decimal_string(size as u128);
        return concat(digits.as_str(), " B");
    }
    let n: u128 = size as u128;
    proof {
        lemma2_to64();
        lemma_bit_length_below(n as nat, 64);
    }
    let mut bits: u32 = 0;
    let mut rest: u128 = n;
    while rest > 0
        invariant
            bits + bit_length(rest as nat) == bit_length(n as nat),
            bit_length(n as nat) <= 64,
        decreases rest,
    {
        rest = rest / 2;
        bits = bits + 1;
    }
    let v: u128 = if bits <= 53 {
        n
    } else {
        let shift: u32 = bits - 53;
        let mut unit: u128 = 1;
        let mut i: u32 = 0;
        while i < shift
            invariant
                i <= shift <= 11,
                unit == pow2(i as nat),
            decreases shift - i,
        {
            proof {
                lemma_pow2_unfold((i + 1) as nat);
                lemma_pow2_strictly_increases((i + 1) as nat, 12);
                lemma2_to64();
            }
            unit = unit * 2;
            i = i + 1;
        }
        let m = n / unit;
        let r = n % unit;
        let m2 = if 2 * r > unit || (2 * r == unit && m % 2 == 1) {
            m + 1
        } else {
            m
        };
        proof {
            lemma_pow2_pos(i as nat);
            assert(m * unit <= n) by (nonlinear_arith)
                requires
                    m == n / unit,
                    unit > 0,
            ;
            assert(m2 * unit <= n + unit) by (nonlinear_arith)
                requires
                    m * unit <= n,
                    m2 <= m + 1,
            ;
        }
        m2 * unit
    };
    let t = v * 10;
    let q = t / 1024;
    let r = t % 1024;
    let q2 = if r > 512 || (r == 512 && q % 2 == 1) {
        q + 1
    } else {
        q
    };
    let whole = decimal_string(q2 / 10);
    let mut out = concat(whole.as_str(), ".");
    push_char(&mut out, char_from_ascii(((q2 % 10) as u32) + 48));
    let out2 = concat(out.as_str(), " KB");
    proof {
        reveal_strlit(".");
    }
    out2
}

} // verus!
