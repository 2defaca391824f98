//! Unicode normalization of file names, so that differently encoded but
//! visually identical names compare, sort and rename identically.

use vstd::prelude::*;
use unicode_normalization::UnicodeNormalization;

verus! {

/// The NFKC normalization (compatibility decomposition followed by canonical
/// composition) of a character sequence, as the unicode-normalization crate
/// computes it: a function of the characters alone.
pub uninterp spec fn nfkc_of(s: Seq<char>) -> Seq<char>;

/// The NFKD normalization (compatibility decomposition) of a character
/// sequence, as the unicode-normalization crate computes it: a function of the
/// characters alone.
pub uninterp spec fn nfkd_of(s: Seq<char>) -> Seq<char>;

/// Whether the Unicode general category of `c` is NonspacingMark, as the
/// unicode-general-category crate assigns it: a function of the character
/// alone.
pub uninterp spec fn is_nonspacing_mark(c: char) -> bool;

/// Relies on unicode_normalization's `UnicodeNormalization::nfkc` on `&str`:
/// the result is the text in Unicode Normalization Form KC, a function of the
/// input characters alone.
#[verifier::external_body]
fn nfkc_str(s: &str) -> (r: String)
    ensures
        r@ == nfkc_of(s@),
{
    s.nfkc().collect()
}

/// Relies on unicode_normalization's `UnicodeNormalization::nfkd` on `&str`:
/// the result is the text in Unicode Normalization Form KD, a function of the
/// input characters alone.
#[verifier::external_body]
fn nfkd_str(s: &str) -> (r: String)
    ensures
        r@ == nfkd_of(s@),
{
    s.nfkd().collect()
}

/// Relies on unicode_general_category's `get_general_category`: the category
/// is a function of the character alone; this reports whether it is
/// `NonspacingMark`.
#[verifier::external_body]
fn char_is_nonspacing_mark(c: char) -> (r: bool)
    ensures
        r == is_nonspacing_mark(c),
{
    matches!(
        unicode_general_category::get_general_category(c),
        unicode_general_category::GeneralCategory::NonspacingMark
    )
}

/// Normalizes the textual representation of a path to NFKC.
pub fn normalize_path(path: &str) -> (r: String)
    ensures
        r@ == nfkc_of(path@),
{
    nfkc_str(path)
}

/// `s` with its nonspacing marks (diacritics) removed.
pub open spec fn without_nonspacing_marks(s: Seq<char>) -> Seq<char> {
    s.filter(|c: char| !is_nonspacing_mark(c))
}

/// Decomposes `input` to NFKD and drops the nonspacing marks, leaving the base
/// characters.
pub fn normalize_unicode(input: &str) -> (r: String)
    ensures
        r@ == without_nonspacing_marks(nfkd_of(input@)),
{
    let decomposed = nfkd_str(input);
    let d = decomposed.as_str();
    let ghost pred = |c: char| !is_nonspacing_mark(c);
    let n = d.unicode_len();
    let mut out = String::new();
    assert(d@.take(0).filter(pred) =~= Seq::<char>::empty()) by {
        reveal(Seq::filter);
    }
    let mut i: usize = 0;
    while i < n
        invariant
            0 <= i <= n,
            n == d@.len(),
            out@ == d@.take(i as int).filter(pred),
            pred == (|c: char| !is_nonspacing_mark(c)),
        decreases n - i,
    {
        let c = d.get_char(i);
        proof {
            assert(d@.take(i as int + 1).drop_last() =~= d@.take(i as int));
            assert(d@.take(i as int + 1).last() == d@[i as int]);
            reveal(Seq::filter);
        }
        if !char_is_nonspacing_mark(c) {
            let piece = d.substring_char(i, i + 1);
            assert(piece@ =~= seq![d@[i as int]]);
            out.append(piece);
            assert(out@ =~= d@.take(i as int + 1).filter(pred));
        } else {
            assert(out@ =~= d@.take(i as int + 1).filter(pred));
        }
        i = i + 1;
    }
    assert(d@.take(n as int) =~= d@);
    out
}

} // verus!
