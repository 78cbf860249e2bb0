use vstd::prelude::*;

use crate::settings::text_eq;

verus! {

/// The shopping platforms a link may come from.
#[derive(Clone, Copy, Debug, PartialEq, Eq, Structural)]
pub enum Platform {
    /// Pinduoduo.
    Pdd,
    /// A platform with no translator.
    Unknown,
}

/// `needle` occurs in `s` as a contiguous run of characters.
pub open spec fn has_substring(s: Seq<char>, needle: Seq<char>) -> bool {
    exists|i: int| 0 <= i && i + needle.len() <= s.len() && #[trigger] s.subrange(i, i + needle.len()) == needle
}

/// Whether `needle` occurs in `s`.
pub fn contains_text(s: &str, needle: &str) -> (r: bool)
    ensures
        r == has_substring(s@, needle@),
{
    let n = s.unicode_len();
    let m = needle.unicode_len();
    if m > n {
        assert forall|i: int| 0 <= i && i + needle@.len() <= s@.len() implies #[trigger] s@.subrange(i, i + needle@.len()) != needle@ by {}
        return false;
    }
    let last = n - m;
    let mut i: usize = 0;
    while i < last
        invariant
            n == s@.len(),
            m == needle@.len(),
            last == n - m,
            i <= last,
            forall|k: int| 0 <= k < i ==> #[trigger] s@.subrange(k, k + m) != needle@,
        decreases last - i,
    {
        let part = s.substring_char(i, i + m);
        if text_eq(part, needle) {
            assert(s@.subrange(i as int, i + needle@.len()) == needle@);
            return true;
        }
        i = i + 1;
    }
    let part = s.substring_char(last, n);
    if text_eq(part, needle) {
        assert(s@.subrange(last as int, last + needle@.len()) == needle@);
        return true;
    }
    assert(s@.subrange(last as int, last + m) != needle@);
    assert forall|k: int| 0 <= k && k + needle@.len() <= s@.len() implies #[trigger] s@.subrange(k, k + needle@.len()) != needle@ by {
        assert(k <= last);
    }
    false
}

/// The links of Pinduoduo: they name one of its three domains.
pub open spec fn is_pdd_link(url: Seq<char>) -> bool {
    has_substring(url, "pinduoduo.com"@) || has_substring(url, "yangkeduo.com"@) || has_substring(
        url,
        "pdd.com"@,
    )
}

/// The platform a link belongs to, if one is supported.
pub fn identify_platform(url: &str) -> (r: Option<Platform>)
    ensures
        r == (if is_pdd_link(url@) {
            Some(Platform::Pdd)
        } else {
            None::<Platform>
        }),
{
    if contains_text(url, "pinduoduo.com") || contains_text(url, "yangkeduo.com") || contains_text(
        url,
        "pdd.com",
    ) {
        Some(Platform::Pdd)
    } else {
        None
    }
}

} // verus!
