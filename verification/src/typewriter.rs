//! A typewriter text: reveals its text one step at a time, where the number
//! of steps is the text's length in bytes and each step shows that many
//! characters at most.
use vstd::prelude::*;
use vstd::utf8::{encode_scalar, encode_utf8};
use crate::text::{chars_of, first_chars, take_chars};

verus! {

/// The length in bytes of the UTF-8 encoding of `s`, which `String::len`
/// gives.
pub open spec fn byte_len(s: Seq<char>) -> nat {
    encode_utf8(s).len()
}

/// A text is at least as long in bytes as in characters.
pub proof fn lemma_byte_len_ge_char_len(s: Seq<char>)
    ensures
        byte_len(s) >= s.len(),
    decreases s.len(),
{
    if s.len() > 0 {
        lemma_byte_len_ge_char_len(s.drop_first());
        assert(encode_scalar(s[0] as u32).len() >= 1);
    }
}

/// The length in bytes of a string.
/// Trusted: the body calls `String::len`, documented to return the length of
/// the string in bytes, which is the length of its UTF-8 encoding.
#[verifier::external_body]
pub(crate) fn utf8_len(s: &String) -> (n: usize)
    ensures
        n == byte_len(s@),
{
    s.len()
}

/// A typewriter text and how far it has been revealed.
#[derive(Debug)]
pub struct TypewriterText {
    pub full_text: String,
    pub current_length: usize,
    pub is_finished: bool,
    /// Milliseconds between two steps.
    pub speed_ms: u64,
}

/// What one step of the typewriter did.
#[derive(Debug)]
pub struct TypewriterStep {
    /// The character at the new length's last position, where there is one.
    pub shown: Option<char>,
    /// The text now shown, where the step moved on.
    pub text: Option<String>,
    /// Whether this step finished the text.
    pub finished: bool,
}

impl TypewriterText {
    /// A typewriter at the start of `text`, stepping every `speed_ms`
    /// milliseconds.
    pub fn new(text: String, speed_ms: u64) -> (t: Self)
        ensures
            t.full_text == text,
            t.current_length == 0,
            !t.is_finished,
            t.speed_ms == speed_ms,
    {
        Self { full_text: text, current_length: 0, is_finished: false, speed_ms }
    }

    /// Starts over with `text`.
    pub fn set_text(&mut self, text: String)
        ensures
            final(self).full_text == text,
            final(self).current_length == 0,
            !final(self).is_finished,
            final(self).speed_ms == old(self).speed_ms,
    {
        self.full_text = text;
        self.current_length = 0;
        self.is_finished = false;
    }

    /// Reveals the whole text at once: the length becomes the text's length
    /// in bytes.
    pub fn skip_to_end(&mut self)
        ensures
            final(self).full_text == old(self).full_text,
            final(self).current_length == byte_len(old(self).full_text@),
            final(self).is_finished,
            final(self).speed_ms == old(self).speed_ms,
    {
        self.current_length = utf8_len(&self.full_text);
        self.is_finished = true;
    }

    /// Whether the whole text has been revealed.
    pub fn is_finished(&self) -> (r: bool)
        ensures
            r == self.is_finished,
    {
        self.is_finished
    }

    /// The part of the text revealed so far: its first `current_length`
    /// characters.
    pub fn get_current_text(&self) -> (r: String)
        ensures
            r@ == first_chars(self.full_text@, self.current_length as int),
    {
        take_chars(self.full_text.as_str(), self.current_length)
    }

    /// One step, taken when the step timer of an unfinished typewriter
    /// fires: below the text's length in bytes the length grows by one, the
    /// text shown is updated, and reaching that length finishes the text.
    pub fn step(&mut self) -> (r: TypewriterStep)
        requires
            !old(self).is_finished,
        ensures
            final(self).full_text == old(self).full_text,
            final(self).speed_ms == old(self).speed_ms,
            old(self).current_length < byte_len(old(self).full_text@) ==> {
                &&& final(self).current_length == old(self).current_length + 1
                &&& r.shown == (if final(self).current_length <= old(self).full_text@.len() {
                    Some(old(self).full_text@[final(self).current_length - 1])
                } else {
                    None
                })
                &&& r.text matches Some(t) && t@ == first_chars(
                    old(self).full_text@,
                    final(self).current_length as int,
                )
                &&& final(self).is_finished == (final(self).current_length >= byte_len(
                    old(self).full_text@,
                ))
                &&& r.finished == final(self).is_finished
            },
            old(self).current_length >= byte_len(old(self).full_text@) ==> {
                &&& final(self).current_length == old(self).current_length
                &&& !final(self).is_finished
                &&& r.shown is None
                &&& r.text is None
                &&& !r.finished
            },
    {
        let len = utf8_len(&self.full_text);
        if self.current_length < len {
            self.current_length = self.current_length + 1;
            let chars = chars_of(self.full_text.as_str());
            let shown = if self.current_length <= chars.len() {
                Some(chars[self.current_length - 1])
            } else {
                None
            };
            let text = self.get_current_text();
            let finished = self.current_length >= len;
            if finished {
                self.is_finished = true;
            }
            TypewriterStep { shown, text: Some(text), finished }
        } else {
            TypewriterStep { shown: None, text: None, finished: false }
        }
    }
}

/// Skipping reveals the whole text: the text shown is the full text.
pub proof fn law_skip_shows_full_text(full: Seq<char>)
    ensures
        first_chars(full, byte_len(full) as int) == full,
{
    lemma_byte_len_ge_char_len(full);
}

} // verus!
