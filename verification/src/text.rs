//! Text predicates shared by the validators.

use vstd::prelude::*;

verus! {

/// The Unicode `White_Space` property, the notion of whitespace that
/// `char::is_whitespace` and `str::trim` use.
pub open spec fn is_unicode_whitespace(c: char) -> bool {
    ||| ('\u{9}' <= c && c <= '\u{d}')
    ||| c == ' '
    ||| c == '\u{85}'
    ||| c == '\u{a0}'
    ||| c == '\u{1680}'
    ||| ('\u{2000}' <= c && c <= '\u{200a}')
    ||| c == '\u{2028}'
    ||| c == '\u{2029}'
    ||| c == '\u{202f}'
    ||| c == '\u{205f}'
    ||| c == '\u{3000}'
}

/// A text is blank when every one of its characters is whitespace (the empty
/// text included).
pub open spec fn is_blank_text(s: Seq<char>) -> bool {
    forall|i: int| 0 <= i < s.len() ==> is_unicode_whitespace(#[trigger] s[i])
}

/// `r` is what remains of `s` once all leading and all trailing whitespace
/// has been removed.
pub open spec fn is_trim_of(s: Seq<char>, r: Seq<char>) -> bool {
    exists|a: int, b: int|
        {
            &&& 0 <= a <= b <= s.len()
            &&& r == s.subrange(a, b)
            &&& forall|i: int| 0 <= i < a ==> is_unicode_whitespace(#[trigger] s[i])
            &&& forall|i: int| b <= i < s.len() ==> is_unicode_whitespace(#[trigger] s[i])
            &&& r.len() > 0 ==> !is_unicode_whitespace(r[0]) && !is_unicode_whitespace(
                r[r.len() - 1],
            )
        }
}

/// Calls `str::trim`. Its documentation: it returns the slice of `s` with
/// leading and trailing whitespace removed, whitespace being the Unicode
/// `White_Space` property. The contract states exactly that: the result is a
/// contiguous part of `s`, everything cut off is whitespace, and a non-empty
/// result neither starts nor ends with whitespace.
#[verifier::external_body]
fn str_trim(s: &str) -> (r: &str)
    ensures
        is_trim_of(s@, r@),
{
    s.trim()
}

proof fn lemma_trim_empty_iff_blank(s: Seq<char>, r: Seq<char>)
    requires
        is_trim_of(s, r),
    ensures
        r.len() == 0 <==> is_blank_text(s),
{
    let (a, b) = choose|a: int, b: int|
        {
            &&& 0 <= a <= b <= s.len()
            &&& r == s.subrange(a, b)
            &&& forall|i: int| 0 <= i < a ==> is_unicode_whitespace(#[trigger] s[i])
            &&& forall|i: int| b <= i < s.len() ==> is_unicode_whitespace(#[trigger] s[i])
            &&& r.len() > 0 ==> !is_unicode_whitespace(r[0]) && !is_unicode_whitespace(
                r[r.len() - 1],
            )
        };
    if r.len() == 0 {
        assert forall|i: int| 0 <= i < s.len() implies is_unicode_whitespace(#[trigger] s[i]) by {
            if i < a {
            } else {
                assert(b <= i);
            }
        }
    } else {
        assert(s[a] == r[0]);
    }
}

/// Whether `s` is empty or made of whitespace only, as `s.trim().is_empty()`
/// decides it.
pub fn is_blank(s: &str) -> (b: bool)
    ensures
        b == is_blank_text(s@),
{
    let t = str_trim(s);
    proof {
        lemma_trim_empty_iff_blank(s@, t@);
    }
    t.is_empty()
}

} // verus!
