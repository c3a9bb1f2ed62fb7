//! Text normalization shared by command names and transcripts.
use vstd::prelude::*;
use vstd::string::StrSliceExecFns;

verus! {

/// Whether a character belongs to the Unicode word class (`\w` of the regex engine).
pub uninterp spec fn word_char(c: char) -> bool;

/// What `str::to_lowercase` yields for a string.
pub uninterp spec fn lower_of(s: Seq<char>) -> Seq<char>;

/// ASCII letters, digits and underscore.
pub open spec fn ascii_word(c: char) -> bool {
    ('a' <= c && c <= 'z') || ('A' <= c && c <= 'Z') || ('0' <= c && c <= '9') || c == '_'
}

/// Whether some character of `s` is an ASCII letter, digit or underscore.
pub open spec fn has_ascii_word_char(s: Seq<char>) -> bool
    decreases s.len(),
{
    s.len() > 0 && (ascii_word(s.last()) || has_ascii_word_char(s.drop_last()))
}

/// Relies on regex_syntax::is_word_character: the Unicode word class that `\w`
/// denotes in the regex engine, which takes every ASCII letter, digit and
/// underscore before it consults its table.
#[verifier::external_body]
fn is_word_char(c: char) -> (r: bool)
    ensures
        r == word_char(c),
        ascii_word(c) ==> r,
{
    regex_syntax::is_word_character(c)
}

/// Relies on str::to_lowercase: the result depends on the characters alone; each
/// character maps to one or more characters, so the result is empty exactly when
/// the input is.
#[verifier::external_body]
fn lowercase(s: &str) -> (r: String)
    ensures
        r@ == lower_of(s@),
        r@.len() == 0 <==> s@.len() == 0,
{
    s.to_lowercase()
}

/// The characters of `s` that are word characters, in order.
pub open spec fn word_chars(s: Seq<char>) -> Seq<char> {
    s.filter(|c: char| word_char(c))
}

/// The normal form of a text: its word characters, lowercased.
pub open spec fn normalized(s: Seq<char>) -> Seq<char> {
    lower_of(word_chars(s))
}

/// Drops every run of non-word characters from `s`.
pub fn strip_non_word(s: &str) -> (r: String)
    ensures
        r@ == word_chars(s@),
        has_ascii_word_char(s@) ==> r@.len() > 0,
{
    let n = s.unicode_len();
    let mut out = String::new();
    let mut i: usize = 0;
    while i < n
        invariant
            n == s@.len(),
            i <= n,
            out@ == word_chars(s@.subrange(0, i as int)),
            has_ascii_word_char(s@.subrange(0, i as int)) ==> out@.len() > 0,
        decreases n - i,
    {
        let c = s.get_char(i);
        proof {
            let pre = s@.subrange(0, i as int);
            assert(s@.subrange(0, i + 1).drop_last() == pre);
            reveal_with_fuel(Seq::filter, 1);
        }
        if is_word_char(c) {
            out.append(s.substring_char(i, i + 1));
        }
        i = i + 1;
    }
    assert(s@.subrange(0, n as int) == s@);
    out
}

/// Normalizes a command name or a transcript: word characters only, lowercased.
pub fn normalize(s: &str) -> (r: String)
    ensures
        r@ == normalized(s@),
        r@.len() == 0 <==> word_chars(s@).len() == 0,
        has_ascii_word_char(s@) ==> r@.len() > 0,
{
    let stripped = strip_non_word(s);
    lowercase(stripped.as_str())
}

/// Dropping non-word characters twice drops nothing more than doing it once.
pub proof fn lemma_strip_idempotent(s: Seq<char>)
    ensures
        word_chars(word_chars(s)) == word_chars(s),
    decreases s.len(),
{
    reveal_with_fuel(Seq::filter, 1);
    if s.len() > 0 {
        lemma_strip_idempotent(s.drop_last());
        let p = word_chars(s.drop_last());
        if word_char(s.last()) {
            assert(p.push(s.last()).drop_last() == p);
        }
    }
}

/// Normalizing twice equals normalizing once for every text whose stripped form
/// lowercases to word characters only and is not changed by a second lowercasing.
pub proof fn lemma_normalize_idempotent_when_case_is_stable(s: Seq<char>)
    requires
        word_chars(lower_of(word_chars(s))) == lower_of(word_chars(s)),
        lower_of(lower_of(word_chars(s))) == lower_of(word_chars(s)),
    ensures
        normalized(normalized(s)) == normalized(s),
{
}

/// `s` with every maximal run of line feeds replaced by one space.
pub open spec fn collapse_newlines(s: Seq<char>) -> Seq<char>
    decreases s.len(),
{
    if s.len() == 0 {
        s
    } else {
        let p = collapse_newlines(s.drop_last());
        if s.last() != '\n' {
            p.push(s.last())
        } else if s.len() >= 2 && s[s.len() - 2] == '\n' {
            p
        } else {
            p.push(' ')
        }
    }
}

/// Joins the lines of a prompt: every run of line feeds becomes one space.
pub fn join_lines(s: &str) -> (r: String)
    ensures
        r@ == collapse_newlines(s@),
{
    let n = s.unicode_len();
    let mut out = String::new();
    let mut i: usize = 0;
    let mut after_newline = false;
    while i < n
        invariant
            n == s@.len(),
            i <= n,
            out@ == collapse_newlines(s@.subrange(0, i as int)),
            after_newline == (i > 0 && s@[i - 1] == '\n'),
        decreases n - i,
    {
        let c = s.get_char(i);
        proof {
            let cur = s@.subrange(0, i + 1);
            assert(cur.drop_last() == s@.subrange(0, i as int));
            assert(cur.last() == c);
            if i > 0 {
                assert(cur[cur.len() - 2] == s@[i - 1]);
            }
        }
        let ghost before = out@;
        if c != '\n' {
            out.append(s.substring_char(i, i + 1));
            assert(out@ == before.push(c));
        } else if !after_newline {
            out.append(" ");
            proof {
                reveal_strlit(" ");
            }
            assert(out@ == before.push(' '));
        }
        after_newline = c == '\n';
        i = i + 1;
    }
    assert(s@.subrange(0, n as int) == s@);
    out
}

} // verus!
