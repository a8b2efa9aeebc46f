//! The identifier sanitizer: turns arbitrary human-readable text (a case
//! name, a file name) into a bare identifier.

use vstd::prelude::*;
use vstd::string::*;

verus! {

/// True for the ASCII digits.
pub open spec fn is_digit(c: char) -> bool {
    '0' <= c && c <= '9'
}

/// True for the ASCII letters and digits.
pub open spec fn is_alnum(c: char) -> bool {
    ('a' <= c && c <= 'z') || ('A' <= c && c <= 'Z') || is_digit(c)
}

/// The lowercase form of an ASCII uppercase letter; any other character is
/// left unchanged.
pub open spec fn lower_char(c: char) -> char {
    if 'A' <= c && c <= 'Z' {
        ((c as u32) + 32) as char
    } else {
        c
    }
}

/// What one character of the input contributes to the sanitized identifier:
/// letters are lowercased, digits kept, everything else becomes `_`.
pub open spec fn slug_char(c: char) -> char {
    if is_alnum(c) {
        lower_char(c)
    } else {
        '_'
    }
}

/// The sanitized text before the leading-digit guard.
pub open spec fn slug_body(s: Seq<char>) -> Seq<char> {
    s.map_values(|c: char| slug_char(c))
}

/// The sanitized identifier for a piece of text: each character mapped by
/// [`slug_char`], with a `_` prepended when the result would start with a
/// digit.
pub open spec fn slug_of(s: Seq<char>) -> Seq<char> {
    let b = slug_body(s);
    if b.len() > 0 && is_digit(b[0]) {
        seq!['_'] + b
    } else {
        b
    }
}

/// Relies on `String::push`: appends exactly the given character at the end.
#[verifier::external_body]
fn push_char(s: &mut String, c: char)
    ensures
        final(s)@ == old(s)@.push(c),
{
    s.push(c);
}

fn lower_char_exec(c: char) -> (r: char)
    ensures
        r == lower_char(c),
{
    if 'A' <= c && c <= 'Z' {
        let b = c as u8;
        (b + 32) as char
    } else {
        c
    }
}

fn is_digit_exec(c: char) -> (r: bool)
    ensures
        r == is_digit(c),
{
    '0' <= c && c <= '9'
}

fn slug_char_exec(c: char) -> (r: char)
    ensures
        r == slug_char(c),
{
    let alnum = ('a' <= c && c <= 'z') || ('A' <= c && c <= 'Z') || ('0' <= c && c <= '9');
    if alnum {
        lower_char_exec(c)
    } else {
        '_'
    }
}

/// Sanitize a piece of text into a bare identifier: lowercase the letters,
/// replace every character that is not an ASCII letter or digit with `_`,
/// and prepend `_` when the result would otherwise start with a digit.
pub fn slugify_path(p: &str) -> (r: String)
    ensures
        r@ == slug_of(p@),
{
    let n = p.unicode_len();
    let mut body = String::new();
    let mut i: usize = 0;
    while i < n
        invariant
            n == p@.len(),
            i <= n,
            body@ == slug_body(p@).subrange(0, i as int),
        decreases n - i,
    {
        let c = p.get_char(i);
        let sc = slug_char_exec(c);
        push_char(&mut body, sc);
        i = i + 1;
        proof {
            assert(body@ =~= slug_body(p@).subrange(0, i as int));
        }
    }
    proof {
        assert(body@ =~= slug_body(p@));
    }
    if n > 0 {
        let c0 = body.as_str().get_char(0);
        if is_digit_exec(c0) {
            let mut out = String::from_str("_");
            out.append(body.as_str());
            proof {
                reveal_strlit("_");
                assert(out@ =~= slug_of(p@));
            }
            return out;
        }
    }
    body
}

/// Sanitizer totality: a non-empty text never sanitizes to the empty
/// identifier, and the sanitized identifier never starts with a digit.
pub proof fn lemma_slug_total(s: Seq<char>)
    ensures
        s.len() > 0 ==> slug_of(s).len() > 0,
        slug_of(s).len() > 0 ==> !is_digit(slug_of(s)[0]),
{
    assert forall|c: char| #[trigger] slug_char(c) == '_' || is_alnum(c) by {}
    if slug_of(s).len() > 0 {
        let b = slug_body(s);
        if b.len() > 0 && is_digit(b[0]) {
            assert(slug_of(s)[0] == '_');
        }
    }
}

/// Sanitizer stability: sanitizing an already sanitized identifier changes
/// nothing.
pub proof fn lemma_slug_idempotent(s: Seq<char>)
    ensures
        slug_of(slug_of(s)) == slug_of(s),
{
    let t = slug_of(s);
    let b = slug_body(s);
    assert forall|i: int| 0 <= i < t.len() implies #[trigger] slug_char(t[i]) == t[i] by {
        if b.len() > 0 && is_digit(b[0]) {
            if i == 0 {
                assert(t[i] == '_');
            } else {
                assert(t[i] == slug_char(s[i - 1]));
            }
        } else {
            assert(t[i] == slug_char(s[i]));
        }
    }
    assert(slug_body(t) =~= t);
    lemma_slug_total(s);
}

} // verus!
