//! Strings: the compact string that string values hold, and helpers on
//! `str`.

use smartstring::{LazyCompact, SmartString};
use vstd::prelude::*;

verus! {

/// A string that is stored inline while it is short. String values hold
/// one.
#[verifier::external_body]
#[derive(Debug, PartialEq, Eq, Hash)]
pub struct Text {
    inner: SmartString<LazyCompact>,
}

/// The characters of a [`Text`], in order.
pub uninterp spec fn text_of(t: Text) -> Seq<char>;

impl View for Text {
    type V = Seq<char>;

    open spec fn view(&self) -> Seq<char> {
        text_of(*self)
    }
}

/// `SmartString::clone`: the copy holds the same characters.
#[verifier::external_body]
fn smart_clone(t: &Text) -> (r: Text)
    ensures
        text_of(r) == text_of(*t),
{
    Text { inner: t.inner.clone() }
}

impl Clone for Text {
    fn clone(&self) -> (r: Text)
        ensures
            r@ == self@,
    {
        smart_clone(self)
    }
}

/// `SmartString::new`: a string without characters.
#[verifier::external_body]
fn smart_new() -> (r: Text)
    ensures
        text_of(r) == Seq::<char>::empty(),
{
    Text { inner: SmartString::new() }
}

/// `SmartString::push`: the character is added at the end.
#[verifier::external_body]
fn smart_push(t: &mut Text, c: char)
    ensures
        text_of(*final(t)) == text_of(*old(t)).push(c),
{
    t.inner.push(c)
}

/// `SmartString::push_str`: the characters of `s` are added at the end.
#[verifier::external_body]
fn smart_push_str(t: &mut Text, s: &str)
    ensures
        text_of(*final(t)) == text_of(*old(t)) + s@,
{
    t.inner.push_str(s)
}

/// `SmartString::as_str`: the same characters as a string slice.
#[verifier::external_body]
fn smart_as_str(t: &Text) -> (r: &str)
    ensures
        r@ == text_of(*t),
{
    t.inner.as_str()
}

impl Text {
    /// The empty text.
    pub fn new() -> (r: Text)
        ensures
            r@ == Seq::<char>::empty(),
    {
        smart_new()
    }

    /// Adds one character at the end.
    pub fn push(&mut self, c: char)
        ensures
            final(self)@ == old(self)@.push(c),
    {
        smart_push(self, c)
    }

    /// Adds the characters of `s` at the end.
    pub fn push_str(&mut self, s: &str)
        ensures
            final(self)@ == old(self)@ + s@,
    {
        smart_push_str(self, s)
    }

    /// The text with the characters of `s`.
    pub fn from_str(s: &str) -> (r: Text)
        ensures
            r@ == s@,
    {
        let mut t = smart_new();
        smart_push_str(&mut t, s);
        assert(Seq::<char>::empty() + s@ =~= s@);
        t
    }

    /// The characters as a string slice.
    pub fn as_str(&self) -> (r: &str)
        ensures
            r@ == self@,
    {
        smart_as_str(self)
    }
}

/// The characters of `s` as a vector.
pub fn chars_of(s: &str) -> (r: Vec<char>)
    ensures
        r@ == s@,
{
    broadcast use vstd::string::group_string_axioms;

    let mut v: Vec<char> = Vec::new();
    for c in it: s.chars()
        invariant
            it.seq() == s@,
            v@ == it.seq().take(it.index()),
    {
        assert(it.seq().take(it.index() + 1) =~= it.seq().take(it.index()).push(c));
        v.push(c);
    }
    assert(s@.take(s@.len() as int) =~= s@);
    v
}

/// Whether two strings hold the same characters.
pub fn same_text(a: &str, b: &str) -> (r: bool)
    ensures
        r == (a@ == b@),
{
    let x: String = a.to_owned();
    let y: String = b.to_owned();
    x == y
}

} // verus!
