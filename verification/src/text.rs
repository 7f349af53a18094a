//! Character-level helpers on strings.
use vstd::prelude::*;

verus! {

/// `s` ends with `suffix`.
pub open spec fn ends_with_spec(s: Seq<char>, suffix: Seq<char>) -> bool {
    s.len() >= suffix.len() && s.subrange(s.len() - suffix.len(), s.len() as int) == suffix
}

/// A sequence ends with `suffix` exactly when it is some sequence followed
/// by `suffix`.
pub proof fn law_ends_with_means_suffix(s: Seq<char>, suffix: Seq<char>)
    ensures
        ends_with_spec(s, suffix) <==> exists|prefix: Seq<char>| s == prefix + suffix,
{
    if ends_with_spec(s, suffix) {
        let prefix = s.subrange(0, s.len() - suffix.len());
        assert(s =~= prefix + suffix);
    }
    if exists|prefix: Seq<char>| s == prefix + suffix {
        let prefix = choose|prefix: Seq<char>| s == prefix + suffix;
        assert(s.subrange(s.len() - suffix.len(), s.len() as int) =~= suffix);
    }
}

/// The characters of `text`.
pub fn chars_of(text: &str) -> (r: Vec<char>)
    ensures
        r@ == text@,
{
    let n = text.unicode_len();
    let mut r: Vec<char> = Vec::new();
    let mut i: usize = 0;
    while i < n
        invariant
            n == text@.len(),
            i <= n,
            r@ == text@.subrange(0, i as int),
        decreases n - i,
    {
        let c = text.get_char(i);
        r.push(c);
        i = i + 1;
        assert(r@ =~= text@.subrange(0, i as int));
    }
    assert(r@ =~= text@);
    r
}

/// `chars` ends with `suffix`, as `str::ends_with` checks.
pub fn ends_with(chars: &Vec<char>, suffix: &[char]) -> (r: bool)
    ensures
        r == ends_with_spec(chars@, suffix@),
        r == (exists|prefix: Seq<char>| chars@ == prefix + suffix@),
        r == (chars@.len() >= suffix@.len() && forall|k: int|
            0 <= k < suffix@.len() ==> chars@[chars@.len() - suffix@.len() + k] == suffix@[k]),
{
    proof {
        law_ends_with_means_suffix(chars@, suffix@);
    }
    if chars.len() < suffix.len() {
        return false;
    }
    let offset = chars.len() - suffix.len();
    let mut i: usize = 0;
    while i < suffix.len()
        invariant
            offset == chars@.len() - suffix@.len(),
            offset + suffix@.len() == chars.len(),
            i <= suffix@.len(),
            forall|k: int| 0 <= k < i ==> chars@[offset + k] == suffix@[k],
        decreases suffix@.len() - i,
    {
        if chars[offset + i] != suffix[i] {
            proof {
                assert(chars@.subrange(offset as int, chars@.len() as int)[i as int] != suffix@[i as int]);
                assert(chars@[chars@.len() - suffix@.len() + i] != suffix@[i as int]);
            }
            return false;
        }
        i = i + 1;
    }
    assert(chars@.subrange(offset as int, chars@.len() as int) =~= suffix@);
    assert forall|k: int| 0 <= k < suffix@.len() implies chars@[chars@.len() - suffix@.len() + k] == suffix@[k] by {
        assert(chars@[offset + k] == suffix@[k]);
    }
    true
}

} // verus!
