//! Short, filesystem-safe names derived from free text.

use vstd::prelude::*;
use crate::text::{
    ascii_lower, chars_of, is_ascii_alnum, is_ascii_alphanumeric, string_of, to_ascii_lower,
};

verus! {

/// The longest slug, in characters.
pub const SLUG_MAX_LEN: usize = 32;

/// The slug of a text that contributes nothing.
pub open spec fn fallback_slug() -> Seq<char> {
    "run"@
}

/// The character that stands in a slug for a run of characters that are
/// neither ASCII letters nor ASCII digits.
pub open spec fn separator() -> char {
    '_'
}

/// What the character at position `i` of `s` contributes to a slug: an
/// ASCII letter or digit contributes itself in lower case; of every other
/// character only the first of its run contributes, and what it
/// contributes is the separator.
pub open spec fn slug_part(s: Seq<char>, i: int) -> Option<char> {
    if is_ascii_alnum(s[i]) {
        Some(ascii_lower(s[i]))
    } else if i == 0 || is_ascii_alnum(s[i - 1]) {
        Some(separator())
    } else {
        None
    }
}

/// The contributions of all characters of `s`, in order: its letters and
/// digits in lower case, with one separator for every maximal run of
/// other characters.
pub open spec fn slug_chars(s: Seq<char>) -> Seq<char>
    decreases s.len(),
{
    if s.len() == 0 {
        Seq::empty()
    } else {
        match slug_part(s, s.len() - 1) {
            Some(c) => slug_chars(s.drop_last()).push(c),
            None => slug_chars(s.drop_last()),
        }
    }
}

/// The slug of `s`: the first `SLUG_MAX_LEN` characters that `s` contributes,
/// or the fallback where it contributes none.
pub open spec fn slug_of(s: Seq<char>) -> Seq<char> {
    let all = slug_chars(s);
    if all.len() == 0 {
        fallback_slug()
    } else if all.len() <= SLUG_MAX_LEN {
        all
    } else {
        all.take(SLUG_MAX_LEN as int)
    }
}

/// A character that may stand in a slug: a lower-case ASCII letter, an
/// ASCII digit, or the separator.
pub open spec fn is_slug_char(c: char) -> bool {
    ('a' <= c && c <= 'z') || ('0' <= c && c <= '9') || c == separator()
}

/// Reading more input only ever extends what has been contributed.
pub proof fn lemma_slug_chars_prefix(s: Seq<char>, k: int)
    requires
        0 <= k <= s.len(),
    ensures
        slug_chars(s.take(k)).is_prefix_of(slug_chars(s)),
    decreases s.len() - k,
{
    if k == s.len() {
        assert(s.take(k) == s);
    } else {
        lemma_slug_chars_prefix(s, k + 1);
        let t = s.take(k + 1);
        assert(t.drop_last() == s.take(k));
    }
}

/// Every contributed character may stand in a slug.
pub proof fn lemma_slug_chars_safe(s: Seq<char>)
    ensures
        forall|i: int| 0 <= i < slug_chars(s).len() ==> is_slug_char(#[trigger] slug_chars(s)[i]),
    decreases s.len(),
{
    if s.len() > 0 {
        lemma_slug_chars_safe(s.drop_last());
        let prev = slug_chars(s.drop_last());
        let all = slug_chars(s);
        assert forall|i: int| 0 <= i < all.len() implies is_slug_char(#[trigger] all[i]) by {
            if i < prev.len() {
                assert(all[i] == prev[i]);
            }
        }
    }
}

/// Runs are collapsed: what a text contributes never holds two separators
/// side by side, and it ends in a separator exactly when the text ends in
/// a character that is neither letter nor digit.
pub proof fn lemma_separators_stand_alone(s: Seq<char>)
    ensures
        forall|i: int|
            0 <= i && i + 1 < slug_chars(s).len() ==> !(#[trigger] slug_chars(s)[i] == separator()
                && slug_chars(s)[i + 1] == separator()),
        s.len() > 0 ==> slug_chars(s).len() > 0 && (slug_chars(s).last() == separator()
            <==> !is_ascii_alnum(s.last())),
    decreases s.len(),
{
    if s.len() > 0 {
        let init = s.drop_last();
        lemma_separators_stand_alone(init);
        let prev = slug_chars(init);
        let all = slug_chars(s);
        if init.len() > 0 {
            assert(init.last() == s[s.len() - 2]);
        }
        assert forall|i: int| 0 <= i && i + 1 < all.len() implies !(#[trigger] all[i] == separator()
            && all[i + 1] == separator()) by {
            if i + 1 < prev.len() {
                assert(all[i] == prev[i] && all[i + 1] == prev[i + 1]);
            } else if i < prev.len() {
                assert(all[i] == prev[i]);
            }
        }
    }
}

/// A slug is never empty, never longer than `SLUG_MAX_LEN`, made only of
/// lower-case ASCII letters, digits and the separator, and never holds two
/// separators side by side.
pub proof fn lemma_slug_is_safe(s: Seq<char>)
    ensures
        1 <= slug_of(s).len() <= SLUG_MAX_LEN,
        forall|i: int| 0 <= i < slug_of(s).len() ==> is_slug_char(#[trigger] slug_of(s)[i]),
        forall|i: int|
            0 <= i && i + 1 < slug_of(s).len() ==> !(#[trigger] slug_of(s)[i] == separator()
                && slug_of(s)[i + 1] == separator()),
{
    lemma_slug_chars_safe(s);
    lemma_separators_stand_alone(s);
    reveal_strlit("run");
}

/// Derives a filesystem-safe slug from free text: letters and digits in
/// lower case, every run of other characters collapsed to one separator,
/// cut at `SLUG_MAX_LEN` characters; `run` for a text that is empty.
pub fn sanitize_slug(input: &str) -> (slug: String)
    ensures
        slug@ == slug_of(input@),
{
    let chars = chars_of(input);
    let mut out: Vec<char> = Vec::new();
    let mut i: usize = 0;
    let mut run_may_start = true;
    while i < chars.len() && out.len() < SLUG_MAX_LEN
        invariant
            i <= chars.len(),
            chars@ == input@,
            out@ == slug_chars(chars@.take(i as int)),
            out.len() <= SLUG_MAX_LEN,
            run_may_start == (i == 0 || is_ascii_alnum(chars@[i - 1])),
        decreases chars.len() - i,
    {
        let c = chars[i];
        proof {
            let t = chars@.take(i + 1);
            assert(t.drop_last() == chars@.take(i as int));
            assert(t[i as int] == c);
            if i > 0 {
                assert(t[i - 1] == chars@[i - 1]);
            }
        }
        if is_ascii_alphanumeric(c) {
            out.push(to_ascii_lower(c));
            run_may_start = true;
        } else {
            if run_may_start {
                out.push('_');
            }
            run_may_start = false;
        }
        i += 1;
    }
    proof {
        lemma_slug_chars_prefix(chars@, i as int);
        if i == chars.len() {
            assert(chars@.take(i as int) == chars@);
        } else {
            assert(out@ == slug_chars(chars@).take(SLUG_MAX_LEN as int));
        }
    }
    if out.len() == 0 {
        "run".to_owned()
    } else {
        string_of(&out)
    }
}

} // verus!
