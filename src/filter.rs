use vstd::prelude::*;
use vstd::string::StrSliceExecFns;

verus! {

/// What `str::trim` leaves of a text.
pub uninterp spec fn trimmed_of(s: Seq<char>) -> Seq<char>;

/// Whether a character has the Unicode `Alphabetic` property.
pub uninterp spec fn alphabetic(c: char) -> bool;

/// Relies on `str::trim`: the text without leading and trailing whitespace.
#[verifier::external_body]
fn trim_text(s: &str) -> (r: &str)
    ensures
        r@ == trimmed_of(s@),
{
    s.trim()
}

/// Relies on `char::is_alphabetic`.
#[verifier::external_body]
fn is_letter(c: char) -> (r: bool)
    ensures
        r == alphabetic(c),
{
    c.is_alphabetic()
}

/// Phrases that speech recognisers tend to produce from silence.
pub open spec fn boilerplate() -> Seq<Seq<char>> {
    seq![
        "Thank you for watching!"@,
        "Thank you for watching"@,
        "\u{3054}\u{8996}\u{8074}\u{3042}\u{308a}\u{304c}\u{3068}\u{3046}\u{3054}\u{3056}\u{3044}\u{307e}\u{3057}\u{305f}"@,
        "\u{3054}\u{8996}\u{8074}\u{3042}\u{308a}\u{304c}\u{3068}\u{3046}\u{3054}\u{3056}\u{3044}\u{307e}\u{3057}\u{305f}\u{3002}"@,
        "\u{a1}Gracias por ver!"@,
        "\u{c2dc}\u{ccad}\u{d574}\u{c8fc}\u{c154}\u{c11c} \u{ac10}\u{c0ac}\u{d569}\u{b2c8}\u{b2e4}"@,
        "\u{c2dc}\u{ccad}\u{d574}\u{c8fc}\u{c154}\u{c11c} \u{ac10}\u{c0ac}\u{d569}\u{b2c8}\u{b2e4}!"@,
    ]
}

fn boilerplate_phrase(k: usize) -> (r: &'static str)
    requires
        k < 7,
    ensures
        r@ == boilerplate()[k as int],
{
    if k == 0 {
        "Thank you for watching!"
    } else if k == 1 {
        "Thank you for watching"
    } else if k == 2 {
        "\u{3054}\u{8996}\u{8074}\u{3042}\u{308a}\u{304c}\u{3068}\u{3046}\u{3054}\u{3056}\u{3044}\u{307e}\u{3057}\u{305f}"
    } else if k == 3 {
        "\u{3054}\u{8996}\u{8074}\u{3042}\u{308a}\u{304c}\u{3068}\u{3046}\u{3054}\u{3056}\u{3044}\u{307e}\u{3057}\u{305f}\u{3002}"
    } else if k == 4 {
        "\u{a1}Gracias por ver!"
    } else if k == 5 {
        "\u{c2dc}\u{ccad}\u{d574}\u{c8fc}\u{c154}\u{c11c} \u{ac10}\u{c0ac}\u{d569}\u{b2c8}\u{b2e4}"
    } else {
        "\u{c2dc}\u{ccad}\u{d574}\u{c8fc}\u{c154}\u{c11c} \u{ac10}\u{c0ac}\u{d569}\u{b2c8}\u{b2e4}!"
    }
}

pub open spec fn is_ascii_upper(c: char) -> bool {
    65 <= c as u32 <= 90
}

/// Two characters are equal once ASCII capitals are lowered.
pub open spec fn same_ignoring_ascii_case(a: char, b: char) -> bool {
    a == b || (is_ascii_upper(a) && a as u32 + 32 == b as u32) || (is_ascii_upper(b) && b as u32
        + 32 == a as u32)
}

/// Two texts are equal up to the case of ASCII letters.
pub open spec fn eq_ignoring_ascii_case(a: Seq<char>, b: Seq<char>) -> bool {
    a.len() == b.len() && forall|i: int| 0 <= i < a.len() ==> same_ignoring_ascii_case(a[i], b[i])
}

/// The text is one of the boilerplate phrases, up to ASCII case.
pub open spec fn is_boilerplate(t: Seq<char>) -> bool {
    exists|k: int| 0 <= k < boilerplate().len() && eq_ignoring_ascii_case(t, #[trigger] boilerplate()[k])
}

/// A trimmed transcription is kept when it has at least three characters,
/// at least one of them alphabetic, and is no boilerplate phrase.
pub open spec fn keeps(t: Seq<char>) -> bool {
    t.len() >= 3 && (exists|i: int| 0 <= i < t.len() && alphabetic(#[trigger] t[i])) && !is_boilerplate(t)
}

fn chars_match(a: char, b: char) -> (r: bool)
    ensures
        r == same_ignoring_ascii_case(a, b),
{
    let x = a as u32;
    let y = b as u32;
    x == y || (65 <= x && x <= 90 && x + 32 == y) || (65 <= y && y <= 90 && y + 32 == x)
}

/// Whether two texts are equal up to the case of ASCII letters.
pub fn eq_ignore_ascii_case(a: &str, b: &str) -> (r: bool)
    ensures
        r == eq_ignoring_ascii_case(a@, b@),
{
    let n = a.unicode_len();
    if n != b.unicode_len() {
        return false;
    }
    let mut i: usize = 0;
    while i < n
        invariant
            n == a@.len() == b@.len(),
            i <= n,
            forall|j: int| 0 <= j < i ==> same_ignoring_ascii_case(a@[j], b@[j]),
        decreases n - i,
    {
        if !chars_match(a.get_char(i), b.get_char(i)) {
            return false;
        }
        i = i + 1;
    }
    true
}

/// Whether some character of the text is alphabetic.
pub fn has_letter(t: &str) -> (r: bool)
    ensures
        r == exists|i: int| 0 <= i < t@.len() && alphabetic(#[trigger] t@[i]),
{
    let n = t.unicode_len();
    let mut i: usize = 0;
    while i < n
        invariant
            n == t@.len(),
            i <= n,
            forall|j: int| 0 <= j < i ==> !alphabetic(#[trigger] t@[j]),
        decreases n - i,
    {
        if is_letter(t.get_char(i)) {
            return true;
        }
        i = i + 1;
    }
    false
}

/// Whether the text is one of the boilerplate phrases, up to ASCII case.
pub fn matches_boilerplate(t: &str) -> (r: bool)
    ensures
        r == is_boilerplate(t@),
{
    let mut k: usize = 0;
    while k < 7
        invariant
            k <= 7,
            boilerplate().len() == 7,
            forall|j: int| 0 <= j < k ==> !eq_ignoring_ascii_case(t@, #[trigger] boilerplate()[j]),
        decreases 7 - k,
    {
        if eq_ignore_ascii_case(t, boilerplate_phrase(k)) {
            return true;
        }
        k = k + 1;
    }
    false
}

/// The decision on an already trimmed transcription: the text itself when
/// it is kept, `None` when it is discarded.
pub fn filter_trimmed(t: &str) -> (r: Option<String>)
    ensures
        match r {
            Some(x) => keeps(t@) && x@ == t@,
            None => !keeps(t@),
        },
{
    if t.unicode_len() < 3 {
        return None;
    }
    if !has_letter(t) {
        return None;
    }
    if matches_boilerplate(t) {
        return None;
    }
    Some(t.to_string())
}

/// Post-filter of a transcription: trims it, then discards it when it is
/// too short, has no alphabetic character, or is a boilerplate phrase.
pub fn filter_transcription(transcription: &str) -> (r: Option<String>)
    ensures
        match r {
            Some(x) => keeps(trimmed_of(transcription@)) && x@ == trimmed_of(transcription@),
            None => !keeps(trimmed_of(transcription@)),
        },
{
    filter_trimmed(trim_text(transcription))
}

} // verus!
