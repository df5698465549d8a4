//! Text helpers for rendering: case mapping and left-aligned padding.

use vstd::prelude::*;
use vstd::string::StrSliceExecFns;
use vstd::string::StringExecFns;

verus! {

/// The Unicode uppercase mapping of a character sequence, as
/// str::to_uppercase computes it.
pub uninterp spec fn upper_of(s: Seq<char>) -> Seq<char>;

/// The Unicode lowercase mapping of a character sequence, as
/// str::to_lowercase computes it.
pub uninterp spec fn lower_of(s: Seq<char>) -> Seq<char>;

/// Relies on str::to_uppercase: the uppercase equivalent of the slice, a
/// function of its characters alone.
#[verifier::external_body]
pub fn to_upper(s: &str) -> (r: String)
    ensures
        r@ == upper_of(s@),
{
    s.to_uppercase()
}

/// Relies on str::to_lowercase: the lowercase equivalent of the slice, a
/// function of its characters alone.
#[verifier::external_body]
pub fn to_lower(s: &str) -> (r: String)
    ensures
        r@ == lower_of(s@),
{
    s.to_lowercase()
}

/// `n` spaces.
pub open spec fn spec_spaces(n: nat) -> Seq<char> {
    Seq::new(n, |i: int| ' ')
}

/// `s` left-aligned in a field of width `w`: the text itself, then spaces up
/// to the width; text longer than the width is kept whole.
pub open spec fn spec_pad(s: Seq<char>, w: int) -> Seq<char> {
    if s.len() >= w {
        s
    } else {
        s + spec_spaces((w - s.len()) as nat)
    }
}

/// A padded field is never narrower than the requested width, and never
/// loses text: its length is the larger of the two.
pub proof fn lemma_pad_len(s: Seq<char>, w: int)
    ensures
        spec_pad(s, w).len() == if s.len() >= w {
            s.len() as int
        } else {
            w
        },
        spec_pad(s, w).len() >= w,
        spec_pad(s, w).len() >= s.len(),
{
}

/// Left-aligns `s` in a field of width `w`.
pub fn pad(s: &str, w: usize) -> (r: String)
    ensures
        r@ == spec_pad(s@, w as int),
{
    let mut r = String::from_str(s);
    let mut len: usize = s.unicode_len();
    proof {
        reveal_strlit(" ");
        assert(r@ =~= s@ + spec_spaces((len - s@.len()) as nat));
    }
    while len < w
        invariant
            s@.len() <= len,
            len == r@.len(),
            len <= w || len == s@.len(),
            r@ == s@ + spec_spaces((len - s@.len()) as nat),
            " "@ =~= seq![' '],
        decreases w - len,
    {
        r.append(" ");
        len = len + 1;
        proof {
            assert(r@ =~= s@ + spec_spaces((len - s@.len()) as nat));
        }
    }
    proof {
        if s@.len() >= w {
            assert(r@ =~= s@);
        }
    }
    r
}

} // verus!
