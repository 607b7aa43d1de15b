use vstd::prelude::*;
use vstd::string::StrSliceExecFns;

use crate::random::{random_ascii, random_index};

verus! {

/// A character of the printable ASCII generation range: space through `~`
/// (code points 32 to 126 inclusive; DEL at 127 is left out).
pub open spec fn printable(c: char) -> bool {
    32 <= c as u32 && c as u32 <= 126
}

/// Every character of `s` lies in the printable ASCII generation range.
pub open spec fn all_printable(s: Seq<char>) -> bool {
    forall|i: int| 0 <= i < s.len() ==> printable(#[trigger] s[i])
}

/// No character of `s` is a member of the exclusion set `e`.
pub open spec fn avoids(s: Seq<char>, e: Seq<char>) -> bool {
    forall|i: int| 0 <= i < s.len() ==> !e.contains(#[trigger] s[i])
}

/// The exclusion set `e` covers the whole generation range, leaving no
/// printable character to draw. On such a set the classic draw-and-retry
/// strategy could never finish, so the generator rejects it up front.
pub open spec fn covers_range(e: Seq<char>) -> bool {
    forall|c: char| printable(c) ==> e.contains(c)
}

/// How a sanitized password `out` relates to the raw password `orig` under
/// the exclusion set `e`: same length, free of excluded characters,
/// characters that were already allowed are kept in place, and every
/// replacement is again a printable character.
pub open spec fn sanitized_from(orig: Seq<char>, out: Seq<char>, e: Seq<char>) -> bool {
    &&& out.len() == orig.len()
    &&& avoids(out, e)
    &&& forall|i: int| 0 <= i < orig.len() && !e.contains(#[trigger] orig[i]) ==> out[i]
        == orig[i]
    &&& forall|i: int| 0 <= i < orig.len() && e.contains(#[trigger] orig[i]) ==> printable(
        out[i],
    )
}

/// Converts a code point of the generation range to its character.
fn ascii_char(code: u32) -> (c: char)
    requires
        32 <= code <= 126,
    ensures
        c as u32 == code,
        printable(c),
{
    (code as u8) as char
}

/// Builds a `String` from a vector of characters.
///
/// Relies on `String: FromIterator<char>`: collecting characters yields the
/// string of exactly those characters, in order.
#[verifier::external_body]
fn string_from_chars(chars: &Vec<char>) -> (s: String)
    ensures
        s@ == chars@,
{
    chars.iter().collect()
}

/// Whether the character `c` occurs in `s`.
fn contains_char(s: &str, c: char) -> (b: bool)
    ensures
        b == s@.contains(c),
{
    let n = s.unicode_len();
    let mut i: usize = 0;
    while i < n
        invariant
            i <= n,
            n == s@.len(),
            forall|j: int| 0 <= j < i ==> s@[j] != c,
        decreases n - i,
    {
        if s.get_char(i) == c {
            assert(s@.contains(c));
            return true;
        }
        i += 1;
    }
    false
}

/// Collects the printable characters that are not members of the exclusion
/// set, in code point order: the alphabet that replacements are drawn from.
fn allowed_chars(exclude: &str) -> (r: Vec<char>)
    ensures
        forall|i: int|
            0 <= i < r@.len() ==> printable(#[trigger] r@[i]) && !exclude@.contains(r@[i]),
        forall|c: char| printable(c) && !exclude@.contains(c) ==> r@.contains(c),
{
    let mut r: Vec<char> = Vec::new();
    let mut code: u32 = 32;
    while code <= 126
        invariant
            32 <= code <= 127,
            forall|i: int|
                0 <= i < r@.len() ==> printable(#[trigger] r@[i]) && !exclude@.contains(r@[i]),
            forall|c: char|
                printable(c) && (c as u32) < code && !exclude@.contains(c) ==> r@.contains(c),
        decreases 127 - code,
    {
        let ch = ascii_char(code);
        let ghost prev = r@;
        if !contains_char(exclude, ch) {
            r.push(ch);
        }
        proof {
            assert forall|c: char|
                printable(c) && (c as u32) < code + 1 && !exclude@.contains(c) implies r@.contains(
                c,
            ) by {
                if (c as u32) < code {
                    let k = choose|k: int| 0 <= k < prev.len() && prev[k] == c;
                    assert(r@[k] == c);
                } else {
                    vstd::utf8::char_u32_cast(c, code);
                    vstd::utf8::char_u32_cast(ch, code);
                    assert(c == ch);
                    assert(r@.last() == c);
                }
            }
        }
        code = code + 1;
    }
    r
}

/// Replaces every character of `password` that is a member of
/// `exclude_chars` with a freshly drawn printable character that is not a
/// member; all other characters are kept in place.
///
/// Replacements are drawn uniformly from the allowed alphabet — the
/// generation range minus the exclusion set — which gives each replacement
/// the same distribution as drawing from the whole range and retrying on an
/// excluded character, but always finishes. An exclusion set that covers the
/// whole generation range leaves nothing to draw, so such a set is ruled out
/// up front unless the password needs no replacement at all.
pub fn sanitize_password(password: String, exclude_chars: String) -> (r: String)
    requires
        covers_range(exclude_chars@) ==> avoids(password@, exclude_chars@),
    ensures
        sanitized_from(password@, r@, exclude_chars@),
{
    let allowed = allowed_chars(exclude_chars.as_str());
    let n = password.as_str().unicode_len();
    let mut out: Vec<char> = Vec::new();
    let mut i: usize = 0;
    while i < n
        invariant
            i <= n,
            n == password@.len(),
            out@.len() == i,
            covers_range(exclude_chars@) ==> avoids(password@, exclude_chars@),
            forall|k: int|
                0 <= k < allowed@.len() ==> printable(#[trigger] allowed@[k])
                    && !exclude_chars@.contains(allowed@[k]),
            forall|c: char|
                printable(c) && !exclude_chars@.contains(c) ==> allowed@.contains(c),
            avoids(out@, exclude_chars@),
            forall|k: int|
                0 <= k < i && !exclude_chars@.contains(#[trigger] password@[k]) ==> out@[k]
                    == password@[k],
            forall|k: int|
                0 <= k < i && exclude_chars@.contains(#[trigger] password@[k]) ==> printable(
                    out@[k],
                ),
        decreases n - i,
    {
        let mut c = password.as_str().get_char(i);
        if contains_char(exclude_chars.as_str(), c) {
            proof {
                if allowed@.len() == 0 {
                    assert(covers_range(exclude_chars@)) by {
                        assert forall|x: char| printable(x) implies exclude_chars@.contains(
                            x,
                        ) by {
                            if !exclude_chars@.contains(x) {
                                assert(allowed@.contains(x));
                            }
                        }
                    }
                    assert(!exclude_chars@.contains(password@[i as int]));
                }
            }
            let j = random_index(allowed.len());
            c = allowed[j];
        }
        out.push(c);
        i += 1;
    }
    string_from_chars(&out)
}

/// Builds a password of exactly `length` characters, each drawn from the
/// printable ASCII generation range, and — when an exclusion set is supplied,
/// even an empty one — runs the sanitize pass so that no excluded character
/// remains.
///
/// An exclusion set that covers the whole generation range is ruled out for
/// a positive `length`: no password could avoid it.
pub fn generate_password(length: u8, exclude_chars: Option<String>) -> (r: String)
    requires
        exclude_chars matches Some(e) ==> (length > 0 ==> !covers_range(e@)),
    ensures
        r@.len() == length as nat,
        all_printable(r@),
        exclude_chars matches Some(e) ==> avoids(r@, e@),
        length == 0 ==> r@ == Seq::<char>::empty(),
{
    let mut chars: Vec<char> = Vec::new();
    let mut i: u8 = 0;
    while i < length
        invariant
            i <= length,
            chars@.len() == i as nat,
            all_printable(chars@),
        decreases length - i,
    {
        chars.push(ascii_char(random_ascii()));
        i = i + 1;
    }
    let mut password = string_from_chars(&chars);
    proof {
        if length == 0 {
            assert(password@ =~= Seq::<char>::empty());
        }
    }
    if let Some(exclude_chars) = exclude_chars {
        let ghost pre = password@;
        let ghost ev = exclude_chars@;
        proof {
            if covers_range(ev) {
                assert(password@.len() == 0);
            }
        }
        password = sanitize_password(password, exclude_chars);
        proof {
            assert forall|k: int| 0 <= k < password@.len() implies printable(
                #[trigger] password@[k],
            ) by {
                if !ev.contains(pre[k]) {
                    assert(password@[k] == pre[k]);
                }
            }
        }
    }
    password
}

/// A delimiter of the raw exclusion string: a space or a comma.
pub open spec fn is_delimiter(c: char) -> bool {
    c == ' ' || c == ','
}

/// The characters of `s` that remain once every delimiter is stripped, in
/// their original order.
pub open spec fn strip_delimiters(s: Seq<char>) -> Seq<char> {
    s.filter(|c: char| !is_delimiter(c))
}

/// Turns the raw comma- or space-separated exclusion string into the list of
/// excluded characters: delimiters are dropped, everything else is kept, in
/// the order first encountered.
pub fn parse_exclude_chars(ec: String) -> (r: Vec<char>)
    ensures
        r@ == strip_delimiters(ec@),
{
    let n = ec.as_str().unicode_len();
    let mut char_arr: Vec<char> = Vec::new();
    let mut i: usize = 0;
    while i < n
        invariant
            i <= n,
            n == ec@.len(),
            char_arr@ == strip_delimiters(ec@.take(i as int)),
        decreases n - i,
    {
        let c = ec.as_str().get_char(i);
        proof {
            reveal(Seq::filter);
            assert(ec@.take(i + 1).drop_last() =~= ec@.take(i as int));
            assert(ec@.take(i + 1).last() == c);
        }
        if !(c == ' ' || c == ',') {
            char_arr.push(c);
        }
        i = i + 1;
    }
    proof {
        assert(ec@.take(n as int) =~= ec@);
    }
    char_arr
}

/// Whether the exclusion set covers the whole printable generation range —
/// the one input on which no password of positive length can be generated.
/// A caller checks this before asking for a password.
pub fn excludes_whole_range(exclude: &str) -> (b: bool)
    ensures
        b == covers_range(exclude@),
{
    let mut code: u32 = 32;
    while code <= 126
        invariant
            32 <= code <= 127,
            forall|c: char|
                printable(c) && (c as u32) < code ==> exclude@.contains(c),
        decreases 127 - code,
    {
        let ch = ascii_char(code);
        if !contains_char(exclude, ch) {
            proof {
                if covers_range(exclude@) {
                    assert(exclude@.contains(ch));
                }
            }
            return false;
        }
        proof {
            assert forall|c: char|
                printable(c) && (c as u32) < code + 1 implies exclude@.contains(c) by {
                if (c as u32) == code {
                    vstd::utf8::char_u32_cast(c, code);
                    vstd::utf8::char_u32_cast(ch, code);
                }
            }
        }
        code = code + 1;
    }
    true
}

/// Law: the sanitize pass is idempotent. A password that already avoids the
/// exclusion set — such as the output of an earlier sanitize pass under the
/// same set — comes back unchanged: same length, same characters, and still
/// free of excluded characters.
pub proof fn lemma_sanitize_idempotent(orig: Seq<char>, out: Seq<char>, e: Seq<char>)
    requires
        avoids(orig, e),
        sanitized_from(orig, out, e),
    ensures
        out == orig,
        out.len() == orig.len(),
        avoids(out, e),
{
    assert forall|i: int| 0 <= i < orig.len() implies out[i] == orig[i] by {
        assert(!e.contains(orig[i]));
    }
    assert(out =~= orig);
}

} // verus!
