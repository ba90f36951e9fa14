//! Command-line completion: how a typed name matches a candidate by vim's
//! rules.

use vstd::prelude::*;
use vstd::string::StrSliceExecFns;

verus! {

/// What std's `str::to_lowercase` makes of a text: its full Unicode
/// lowercase mapping, a final sigma taking its word-final form.
pub uninterp spec fn lowercased(s: Seq<char>) -> Seq<char>;

/// `s` lowercased by std's `str::to_lowercase`, which maps each character
/// to its Unicode lowercase form (a capital sigma by where it stands in its
/// word); the result depends on `s` alone.
#[verifier::external_body]
fn lowercase(s: &str) -> (r: String)
    ensures
        r@ == lowercased(s@),
{
    s.to_lowercase()
}

/// Whether `p` begins `s`.
fn starts_with(s: &str, p: &str) -> (r: bool)
    ensures
        r == p@.is_prefix_of(s@),
{
    let n = s.unicode_len();
    let m = p.unicode_len();
    if m > n {
        return false;
    }
    let mut i: usize = 0;
    while i < m
        invariant
            i <= m <= n,
            n == s@.len(),
            m == p@.len(),
            forall|k: int| 0 <= k < i ==> p@[k] == s@[k],
        decreases m - i,
    {
        if p.get_char(i) != s.get_char(i) {
            return false;
        }
        i = i + 1;
    }
    true
}

/// Whether a candidate matches what was typed by vim's rules: a prefix
/// match, case-folded when vim `wildignorecase` asks for it.
pub fn wild_prefix_match(candidate: &str, pattern: &str, ignorecase: bool) -> (r: bool)
    ensures
        r == (if ignorecase {
            lowercased(pattern@).is_prefix_of(lowercased(candidate@))
        } else {
            pattern@.is_prefix_of(candidate@)
        }),
{
    if ignorecase {
        let c = lowercase(candidate);
        let p = lowercase(pattern);
        starts_with(c.as_str(), p.as_str())
    } else {
        starts_with(candidate, pattern)
    }
}

} // verus!
