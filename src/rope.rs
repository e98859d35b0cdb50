//! A character-indexed text rope over `ropey::Rope`, and the text buffer built on it.
use vstd::prelude::*;
use crate::error::TuiError;
use ropey::Rope as TextRope;

verus! {

#[verifier::external_type_specification]
#[verifier::external_body]
pub struct ExRope(TextRope);

/// The characters a `ropey::Rope` holds, in order.
pub uninterp spec fn rope_chars(r: TextRope) -> Seq<char>;

/// The lines of a `ropey::Rope`, each with its line break, as ropey splits them.
pub uninterp spec fn rope_lines(r: TextRope) -> Seq<Seq<char>>;

/// Relies on `ropey::Rope::new`: an empty rope.
#[verifier::external_body]
fn rope_new() -> (r: TextRope)
    ensures
        rope_chars(r) == Seq::<char>::empty(),
{
    TextRope::new()
}

/// Relies on `ropey::Rope::from_str`: a rope holding the characters of `s`.
#[verifier::external_body]
fn rope_from_str(s: &str) -> (r: TextRope)
    ensures
        rope_chars(r) == s@,
{
    TextRope::from_str(s)
}

/// Relies on `ropey::Rope::len_chars`: the number of characters.
#[verifier::external_body]
fn rope_len_chars(r: &TextRope) -> (n: usize)
    ensures
        n == rope_chars(*r).len(),
{
    r.len_chars()
}

/// Relies on `ropey::Rope::insert`: `text` goes in before character `idx`; it panics
/// only past the end.
#[verifier::external_body]
fn rope_insert(r: &mut TextRope, idx: usize, text: &str)
    requires
        idx <= rope_chars(*old(r)).len(),
    ensures
        rope_chars(*final(r)) == rope_chars(*old(r)).subrange(0, idx as int) + text@ + rope_chars(
            *old(r),
        ).subrange(idx as int, rope_chars(*old(r)).len() as int),
{
    r.insert(idx, text)
}

/// Relies on `ropey::Rope::remove`: characters `[start, end)` are removed; it panics only
/// on a reversed or out-of-bounds range.
#[verifier::external_body]
fn rope_remove(r: &mut TextRope, start: usize, end: usize)
    requires
        start <= end <= rope_chars(*old(r)).len(),
    ensures
        rope_chars(*final(r)) == rope_chars(*old(r)).subrange(0, start as int) + rope_chars(
            *old(r),
        ).subrange(end as int, rope_chars(*old(r)).len() as int),
{
    r.remove(start..end)
}

/// Relies on `ropey::Rope::slice` and its `Display`: characters `[start, end)` as a string.
#[verifier::external_body]
fn rope_slice_string(r: &TextRope, start: usize, end: usize) -> (s: String)
    requires
        start <= end <= rope_chars(*r).len(),
    ensures
        s@ == rope_chars(*r).subrange(start as int, end as int),
{
    r.slice(start..end).to_string()
}

/// Relies on `ropey::Rope::char`: the character at `idx`; it panics only past the end.
#[verifier::external_body]
fn rope_char(r: &TextRope, idx: usize) -> (c: char)
    requires
        idx < rope_chars(*r).len(),
    ensures
        c == rope_chars(*r)[idx as int],
{
    r.char(idx)
}

/// Relies on the `Display` of `ropey::Rope`: all its characters as a string.
#[verifier::external_body]
fn rope_to_string(r: &TextRope) -> (s: String)
    ensures
        s@ == rope_chars(*r),
{
    r.to_string()
}

/// Relies on `ropey::Rope::len_lines`: the number of lines.
#[verifier::external_body]
fn rope_len_lines(r: &TextRope) -> (n: usize)
    ensures
        n == rope_lines(*r).len(),
{
    r.len_lines()
}

/// Relies on `ropey::Rope::line` and its `Display`: line `idx` as a string; it panics
/// only past the last line.
#[verifier::external_body]
fn rope_line_string(r: &TextRope, idx: usize) -> (s: String)
    requires
        idx < rope_lines(*r).len(),
    ensures
        s@ == rope_lines(*r)[idx as int],
{
    r.line(idx).to_string()
}

/// Text addressed by character index.
pub struct Rope {
    inner: TextRope,
}

impl View for Rope {
    type V = Seq<char>;

    closed spec fn view(&self) -> Seq<char> {
        rope_chars(self.inner)
    }
}

impl Rope {
    pub fn new() -> (r: Rope)
        ensures
            r@ == Seq::<char>::empty(),
    {
        Rope { inner: rope_new() }
    }

    pub fn from_str(s: &str) -> (r: Rope)
        ensures
            r@ == s@,
    {
        Rope { inner: rope_from_str(s) }
    }

    /// The number of characters.
    pub fn count(&self) -> (r: usize)
        ensures
            r == self@.len(),
    {
        rope_len_chars(&self.inner)
    }

    /// Inserts `s` before character `char_index`; an index past the end changes nothing.
    pub fn insert(&mut self, char_index: usize, s: &str)
        ensures
            char_index <= old(self)@.len() ==> final(self)@ == old(self)@.subrange(0, char_index as int)
                + s@ + old(self)@.subrange(char_index as int, old(self)@.len() as int),
            char_index > old(self)@.len() ==> final(self)@ == old(self)@,
    {
        if char_index > rope_len_chars(&self.inner) {
            return;
        }
        rope_insert(&mut self.inner, char_index, s);
    }

    /// Deletes characters `[start, end)`; an empty or out-of-bounds range changes nothing.
    pub fn delete_range(&mut self, start: usize, end: usize)
        ensures
            start < end <= old(self)@.len() ==> final(self)@ == old(self)@.subrange(0, start as int)
                + old(self)@.subrange(end as int, old(self)@.len() as int),
            !(start < end <= old(self)@.len()) ==> final(self)@ == old(self)@,
    {
        if start >= end || end > rope_len_chars(&self.inner) {
            return;
        }
        rope_remove(&mut self.inner, start, end);
    }

    /// Characters `[start, end)` with both ends clamped to the length; empty when the
    /// clamped range is.
    pub fn slice(&self, start: usize, end: usize) -> (r: String)
        ensures
            ({
                let len = self@.len();
                let s = if start <= len { start as int } else { len as int };
                let e = if end <= len { end as int } else { len as int };
                r@ == if s < e { self@.subrange(s, e) } else { Seq::empty() }
            }),
    {
        let len = rope_len_chars(&self.inner);
        let s = if start <= len { start } else { len };
        let e = if end <= len { end } else { len };
        if s >= e {
            return String::new();
        }
        rope_slice_string(&self.inner, s, e)
    }

    /// The character at `char_index` as a string, if there is one.
    pub fn get(&self, char_index: usize) -> (r: Option<String>)
        ensures
            r is Some <==> char_index < self@.len(),
            r is Some ==> r->0@ == seq![self@[char_index as int]],
    {
        if char_index >= rope_len_chars(&self.inner) {
            return None;
        }
        let c = rope_char(&self.inner, char_index);
        let mut s = String::new();
        crate::text::push_char(&mut s, c);
        assert(s@ =~= seq![self@[char_index as int]]);
        Some(s)
    }

    /// The whole text.
    pub fn to_string(&self) -> (r: String)
        ensures
            r@ == self@,
    {
        rope_to_string(&self.inner)
    }
}

/// An editable document backed by a rope.
pub struct TextBuffer {
    rope: TextRope,
}

impl View for TextBuffer {
    type V = Seq<char>;

    closed spec fn view(&self) -> Seq<char> {
        rope_chars(self.rope)
    }
}

impl TextBuffer {
    /// The lines of the document, as the rope splits them.
    pub closed spec fn lines(&self) -> Seq<Seq<char>> {
        rope_lines(self.rope)
    }

    /// A document holding `text`, or empty.
    pub fn new(text: Option<&str>) -> (r: TextBuffer)
        ensures
            r@ == match text {
                Some(t) => t@,
                None => Seq::<char>::empty(),
            },
    {
        let rope = match text {
            Some(t) => rope_from_str(t),
            None => rope_new(),
        };
        TextBuffer { rope }
    }

    /// Inserts `text` before character `idx`; fails with `Bounds` past the end.
    pub fn insert(&mut self, idx: usize, text: &str) -> (r: Result<(), TuiError>)
        ensures
            r is Ok <==> idx <= old(self)@.len(),
            r is Err ==> r == Err::<(), TuiError>(TuiError::Bounds) && final(self)@ == old(self)@,
            r is Ok ==> final(self)@ == old(self)@.subrange(0, idx as int) + text@ + old(
                self,
            )@.subrange(idx as int, old(self)@.len() as int),
    {
        if idx <= rope_len_chars(&self.rope) {
            rope_insert(&mut self.rope, idx, text);
            Ok(())
        } else {
            Err(TuiError::Bounds)
        }
    }

    /// Deletes characters `[start, end)`; fails with `Bounds` on a reversed or
    /// out-of-bounds range.
    pub fn delete(&mut self, start: usize, end: usize) -> (r: Result<(), TuiError>)
        ensures
            r is Ok <==> start <= end <= old(self)@.len(),
            r is Err ==> r == Err::<(), TuiError>(TuiError::Bounds) && final(self)@ == old(self)@,
            r is Ok ==> final(self)@ == old(self)@.subrange(0, start as int) + old(
                self,
            )@.subrange(end as int, old(self)@.len() as int),
    {
        if start <= end && end <= rope_len_chars(&self.rope) {
            rope_remove(&mut self.rope, start, end);
            Ok(())
        } else {
            Err(TuiError::Bounds)
        }
    }

    pub fn to_string(&self) -> (r: String)
        ensures
            r@ == self@,
    {
        rope_to_string(&self.rope)
    }

    pub fn len_chars(&self) -> (r: usize)
        ensures
            r == self@.len(),
    {
        rope_len_chars(&self.rope)
    }

    pub fn len_lines(&self) -> (r: usize)
        ensures
            r == self.lines().len(),
    {
        rope_len_lines(&self.rope)
    }

    /// Line `line_idx`, with its line break; fails with `Bounds` past the last line.
    pub fn line(&self, line_idx: usize) -> (r: Result<String, TuiError>)
        ensures
            r is Ok <==> line_idx < self.lines().len(),
            r is Err ==> r == Err::<String, TuiError>(TuiError::Bounds),
            r is Ok ==> r->Ok_0@ == self.lines()[line_idx as int],
    {
        if line_idx < rope_len_lines(&self.rope) {
            Ok(rope_line_string(&self.rope, line_idx))
        } else {
            Err(TuiError::Bounds)
        }
    }
}

impl Default for Rope {
    fn default() -> (r: Rope)
        ensures
            r@ == Seq::<char>::empty(),
    {
        Rope::new()
    }
}

} // verus!
