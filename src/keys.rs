//! Key-event plans: what a command types, as data that a key-injection backend replays.
use vstd::prelude::*;
use vstd::string::StrSliceExecFns;

verus! {

/// Whether a character has the Unicode `Uppercase` property.
pub uninterp spec fn uppercase_char(c: char) -> bool;

/// Relies on char::is_uppercase: the Unicode `Uppercase` property of `c`.
#[verifier::external_body]
fn is_uppercase(c: char) -> (r: bool)
    ensures
        r == uppercase_char(c),
{
    c.is_uppercase()
}

/// Symbols that sit on the shifted layer of a US keyboard.
pub open spec fn shifted_symbol(c: char) -> bool {
    c == '!' || c == '@' || c == '#' || c == '$' || c == '%' || c == '^' || c == '&' || c == '*'
        || c == '(' || c == ')' || c == '_' || c == '+' || c == '{' || c == '}' || c == '|'
        || c == ':' || c == '"' || c == '<' || c == '>' || c == '?' || c == '~'
}

/// Whether typing `c` needs shift held.
pub open spec fn needs_shift(c: char) -> bool {
    uppercase_char(c) || shifted_symbol(c)
}

/// One character to type: held shift if needed, key press, a pause, key release.
#[derive(Clone, Copy, Debug, PartialEq, Eq)]
pub struct KeyStroke {
    pub c: char,
    pub shift: bool,
    pub delay_ms: u64,
}

pub open spec fn stroke_of(c: char, delay_ms: u64) -> KeyStroke {
    KeyStroke { c, shift: needs_shift(c), delay_ms }
}

/// The strokes that type `s`, one per character, in order.
pub open spec fn strokes_of(s: Seq<char>, delay_ms: u64) -> Seq<KeyStroke> {
    s.map_values(|c: char| stroke_of(c, delay_ms))
}

fn is_shifted_symbol(c: char) -> (r: bool)
    ensures
        r == shifted_symbol(c),
{
    match c {
        '!' | '@' | '#' | '$' | '%' | '^' | '&' | '*' | '(' | ')' | '_' | '+' | '{' | '}' | '|'
        | ':' | '"' | '<' | '>' | '?' | '~' => true,
        _ => false,
    }
}

/// A string to type character by character with a configurable pause.
pub struct KeySequence<'a>(pub &'a str);

impl<'a> KeySequence<'a> {
    /// The strokes that type the sequence, each holding its key down for `delay_ms`.
    /// Characters that the backend has no key for are skipped when replayed.
    pub fn send(&self, delay_ms: u64) -> (r: Vec<KeyStroke>)
        ensures
            r@ == strokes_of(self.0@, delay_ms),
    {
        let s = self.0;
        let n = s.unicode_len();
        let mut out: Vec<KeyStroke> = Vec::new();
        let mut i: usize = 0;
        while i < n
            invariant
                n == s@.len(),
                s == self.0,
                i <= n,
                out@ == strokes_of(s@.subrange(0, i as int), delay_ms),
            decreases n - i,
        {
            let c = s.get_char(i);
            let shift = is_uppercase(c) || is_shifted_symbol(c);
            out.push(KeyStroke { c, shift, delay_ms });
            assert(s@.subrange(0, i + 1) == s@.subrange(0, i as int).push(c));
            i = i + 1;
        }
        assert(s@.subrange(0, n as int) == s@);
        out
    }
}

/// A step of a command's key plan.
#[derive(Clone, Debug, PartialEq, Eq)]
pub enum KeyAction {
    /// Hold a modifier key, named as in the profile.
    PressModifier(String),
    /// Type one character.
    Type(KeyStroke),
    /// Let go of a modifier key.
    ReleaseModifier(String),
}

} // verus!
