//! Text policy: HTML escaping, profanity filtering, case-insensitive
//! comparison and display-name validation.
use vstd::prelude::*;

verus! {

/// The replacement that HTML escaping gives one character.
pub open spec fn escape_char(c: char) -> Seq<char> {
    if c == '"' {
        seq!['&', 'q', 'u', 'o', 't', ';']
    } else if c == '&' {
        seq!['&', 'a', 'm', 'p', ';']
    } else if c == '\'' {
        seq!['&', '#', 'x', '2', '7', ';']
    } else if c == '/' {
        seq!['&', '#', 'x', '2', 'f', ';']
    } else if c == '<' {
        seq!['&', 'l', 't', ';']
    } else if c == '>' {
        seq!['&', 'g', 't', ';']
    } else {
        seq![c]
    }
}

/// Whether HTML escaping rewrites `c`.
pub open spec fn is_html_special(c: char) -> bool {
    c == '"' || c == '&' || c == '\'' || c == '/' || c == '<' || c == '>'
}

/// The HTML-escaped form of `s`: each character replaced by `escape_char`.
pub open spec fn html_escaped(s: Seq<char>) -> Seq<char>
    decreases s.len(),
{
    if s.len() == 0 {
        Seq::empty()
    } else {
        html_escaped(s.drop_last()) + escape_char(s.last())
    }
}

/// What the standard profanity filter makes of a text.
pub uninterp spec fn censored_standard(s: Seq<char>) -> Seq<char>;

/// Relies on `v_htmlescape::escape_string`, which appends to the buffer the
/// input with each of `" & ' / < >` replaced by its entity and every other
/// character kept.
#[verifier::external_body]
fn html_escape(s: &str) -> (r: String)
    ensures
        r@ == html_escaped(s@),
{
    let mut out = String::new();
    v_htmlescape::escape_string(s, &mut out);
    out
}

/// Relies on `censor::Censor::Standard.censor`, which maps each character of
/// the text either to itself or to `*`, so the length is kept.
#[verifier::external_body]
fn censor_standard(s: &str) -> (r: String)
    ensures
        r@ == censored_standard(s@),
        r@.len() == s@.len(),
{
    censor::Censor::Standard.censor(s)
}

/// Escaping never shortens a text.
pub proof fn lemma_escape_len(s: Seq<char>)
    ensures
        html_escaped(s).len() >= s.len(),
        (exists|i: int| 0 <= i < s.len() && is_html_special(#[trigger] s[i])) ==> html_escaped(s).len()
            > s.len(),
    decreases s.len(),
{
    if s.len() > 0 {
        let t = s.drop_last();
        lemma_escape_len(t);
        if exists|i: int| 0 <= i < s.len() && is_html_special(#[trigger] s[i]) {
            let i = choose|i: int| 0 <= i < s.len() && is_html_special(#[trigger] s[i]);
            if i < t.len() {
                assert(is_html_special(t[i]));
            }
        }
    }
}

/// A text as it may be shown to other players: escaped, then filtered.
pub open spec fn sanitized(s: Seq<char>) -> Seq<char> {
    censored_standard(html_escaped(s))
}

/// Escapes `s` for HTML and then applies the standard profanity filter.
pub fn sanitize(s: &str) -> (r: String)
    ensures
        r@ == sanitized(s@),
{
    let escaped = html_escape(s);
    censor_standard(escaped.as_str())
}

/// Whether `c` is `u` or, for an uppercase ASCII letter `u`, its lowercase form.
pub open spec fn upper_matches(c: char, u: char) -> bool {
    c == u || ('A' <= u && u <= 'Z' && c as u32 == u as u32 + 32)
}

/// Whether the ASCII-uppercase form of `s` is `upper`, which holds no
/// lowercase ASCII letter.
pub open spec fn eq_upper(s: Seq<char>, upper: Seq<char>) -> bool {
    &&& s.len() == upper.len()
    &&& forall|i: int| 0 <= i < s.len() ==> upper_matches(#[trigger] s[i], upper[i])
}

/// Compares `s`, with its ASCII letters uppercased, to `upper`.
pub fn eq_ignore_ascii_case(s: &str, upper: &str) -> (r: bool)
    ensures
        r == eq_upper(s@, upper@),
{
    let n = s.unicode_len();
    if n != upper.unicode_len() {
        return false;
    }
    let mut i: usize = 0;
    while i < n
        invariant
            n == s@.len(),
            n == upper@.len(),
            i <= n,
            forall|j: int| 0 <= j < i ==> upper_matches(#[trigger] s@[j], upper@[j]),
        decreases n - i,
    {
        let c = s.get_char(i);
        let u = upper.get_char(i);
        let lower_of_u = 'A' <= u && u <= 'Z' && (c as u32) == (u as u32) + 32;
        if !(c == u || lower_of_u) {
            return false;
        }
        i = i + 1;
    }
    true
}

/// The reserved display name, in uppercase.
pub open spec fn reserved_name() -> Seq<char> {
    seq!['S', 'E', 'R', 'V', 'E', 'R']
}

/// A display name is valid when it has 3 to 14 characters, is not the
/// reserved name in any case, and sanitizing leaves it unchanged.
pub open spec fn name_valid(name: Seq<char>) -> bool {
    &&& 3 <= name.len() <= 14
    &&& !eq_upper(name, reserved_name())
    &&& sanitized(name) == name
}

/// Decides whether `name` may be used as a display name.
pub fn is_name_valid(name: &str) -> (r: bool)
    ensures
        r == name_valid(name@),
        r ==> forall|i: int| 0 <= i < name@.len() ==> !is_html_special(#[trigger] name@[i]),
{
    let n = name.unicode_len();
    if n < 3 || n > 14 {
        return false;
    }
    let reserved = "SERVER";
    proof {
        reveal_strlit("SERVER");
        assert(reserved@ =~= reserved_name());
    }
    if eq_ignore_ascii_case(name, reserved) {
        return false;
    }
    let escaped = html_escape(name);
    let clean = censor_standard(escaped.as_str());
    proof {
        lemma_escape_len(name@);
    }
    let original = name.to_owned();
    clean == original
}

} // verus!
