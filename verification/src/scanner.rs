//! The scanner itself: a single left-to-right pass over the characters
//! of the input, with one error kind per distinguishable failure cause.

use vstd::prelude::*;

verus! {

/// The type tag that follows the marker: `d` declares a number argument,
/// `s` a text argument.
#[derive(Clone, Copy, Debug, PartialEq, Eq, Structural)]
pub enum TypeTag {
    Number,
    Text,
}

/// Why a scan failed.
#[derive(Clone, Copy, Debug, PartialEq, Eq)]
pub enum ScanError {
    /// No character precedes the marker: the input begins with `%`.
    EmptyPrefix,
    /// The input holds no `%` marker at all.
    MarkerNotFound,
    /// The input ends immediately after the marker, so no tag follows.
    UnexpectedEnd,
    /// The character after the marker is not a recognized tag.
    UnrecognizedTag { found: char },
}

/// The index of the first `%` marker in `s`, or `s.len()` when `s` holds
/// none.
pub open spec fn marker_pos(s: Seq<char>) -> int
    decreases s.len(),
{
    if s.len() == 0 {
        0
    } else if s[0] == '%' {
        0
    } else {
        1 + marker_pos(s.subrange(1, s.len() as int))
    }
}

/// `marker_pos` points at the first marker: every character before it is
/// not `%`, and the character at it (when inside the input) is `%`.
pub proof fn lemma_marker_pos(s: Seq<char>)
    ensures
        0 <= marker_pos(s) <= s.len(),
        marker_pos(s) < s.len() ==> s[marker_pos(s)] == '%',
        forall|i: int| 0 <= i < marker_pos(s) ==> s[i] != '%',
    decreases s.len(),
{
    if s.len() == 0 {
    } else if s[0] == '%' {
    } else {
        let t = s.subrange(1, s.len() as int);
        lemma_marker_pos(t);
        assert forall|i: int| 0 <= i < marker_pos(s) implies s[i] != '%' by {
            if i > 0 {
                assert(s[i] == t[i - 1]);
            }
        }
    }
}

/// What a scan of the character sequence `s` yields: on success the
/// remaining input after the tag, paired with the literal prefix and the
/// tag; otherwise the error for the first step that cannot proceed.
pub open spec fn scan_spec(s: Seq<char>) -> Result<(Seq<char>, (Seq<char>, TypeTag)), ScanError> {
    let p = marker_pos(s);
    if p == s.len() {
        Err(ScanError::MarkerNotFound)
    } else if p == 0 {
        Err(ScanError::EmptyPrefix)
    } else if p + 1 == s.len() {
        Err(ScanError::UnexpectedEnd)
    } else if s[p + 1] == 's' {
        Ok((s.subrange(p + 2, s.len() as int), (s.subrange(0, p), TypeTag::Text)))
    } else if s[p + 1] == 'd' {
        Ok((s.subrange(p + 2, s.len() as int), (s.subrange(0, p), TypeTag::Number)))
    } else {
        Err(ScanError::UnrecognizedTag { found: s[p + 1] })
    }
}

/// The mathematical value of a scan result: each borrowed fragment as
/// its character sequence.
pub open spec fn result_view(r: Result<(&str, (&str, TypeTag)), ScanError>) -> Result<
    (Seq<char>, (Seq<char>, TypeTag)),
    ScanError,
> {
    match r {
        Ok((remaining, (prefix, tag))) => Ok((remaining@, (prefix@, tag))),
        Err(e) => Err(e),
    }
}

/// Splits `input` into the literal prefix before the first `%`, the type
/// tag after it, and the remaining input after the tag.
pub fn scan<'a>(input: &'a str) -> (r: Result<(&'a str, (&'a str, TypeTag)), ScanError>)
    ensures
        result_view(r) == scan_spec(input@),
{
    let len: usize = input.unicode_len();
    let mut i: usize = 0;
    while i < len && input.get_char(i) != '%'
        invariant
            len == input@.len(),
            i <= len,
            forall|j: int| 0 <= j < i ==> input@[j] != '%',
        decreases len - i,
    {
        i = i + 1;
    }
    proof {
        lemma_marker_pos(input@);
        assert(marker_pos(input@) == i);
    }
    if i == len {
        return Err(ScanError::MarkerNotFound);
    }
    if i == 0 {
        return Err(ScanError::EmptyPrefix);
    }
    if i + 1 == len {
        return Err(ScanError::UnexpectedEnd);
    }
    let tag_char: char = input.get_char(i + 1);
    let tag = if tag_char == 's' {
        TypeTag::Text
    } else if tag_char == 'd' {
        TypeTag::Number
    } else {
        return Err(ScanError::UnrecognizedTag { found: tag_char });
    };
    let prefix = input.substring_char(0, i);
    let remaining = input.substring_char(i + 2, len);
    Ok((remaining, (prefix, tag)))
}

/// A well-formed input — a non-empty prefix without markers, then the
/// marker, a recognized tag and an arbitrary rest — scans to exactly
/// those parts: the prefix, the tag's meaning, and the rest left over.
pub proof fn lemma_scan_well_formed(prefix: Seq<char>, tag: char, rest: Seq<char>)
    requires
        prefix.len() > 0,
        forall|i: int| 0 <= i < prefix.len() ==> prefix[i] != '%',
        tag == 's' || tag == 'd',
    ensures
        scan_spec(prefix + seq!['%', tag] + rest) == Ok::<(Seq<char>, (Seq<char>, TypeTag)), ScanError>(
            (rest, (prefix, if tag == 's' { TypeTag::Text } else { TypeTag::Number })),
        ),
{
    let s = prefix + seq!['%', tag] + rest;
    lemma_marker_pos(s);
    let p = marker_pos(s);
    assert(s[prefix.len() as int] == '%');
    assert(p <= prefix.len()) by {
        if p > prefix.len() {
            assert(s[prefix.len() as int] != '%');
        }
    }
    assert(p == prefix.len()) by {
        if p < prefix.len() {
            assert(s[p] == prefix[p]);
        }
    }
    assert(s[p + 1] == tag);
    assert(s.subrange(0, p) =~= prefix);
    assert(s.subrange(p + 2, s.len() as int) =~= rest);
}

/// An input that begins with the marker scans to `EmptyPrefix`.
pub proof fn lemma_scan_empty_prefix(s: Seq<char>)
    requires
        s.len() > 0,
        s[0] == '%',
    ensures
        scan_spec(s) == Err::<(Seq<char>, (Seq<char>, TypeTag)), ScanError>(ScanError::EmptyPrefix),
{
}

/// An input that holds no marker at all scans to `MarkerNotFound`.
pub proof fn lemma_scan_marker_not_found(s: Seq<char>)
    requires
        forall|i: int| 0 <= i < s.len() ==> s[i] != '%',
    ensures
        scan_spec(s) == Err::<(Seq<char>, (Seq<char>, TypeTag)), ScanError>(
            ScanError::MarkerNotFound,
        ),
{
    lemma_marker_pos(s);
}

/// When a marker follows a non-empty prefix but the character right
/// after it is not a recognized tag, the scan fails with that character;
/// when the input ends at the marker, it fails with `UnexpectedEnd`.
pub proof fn lemma_scan_unrecognized_tag(s: Seq<char>, p: int)
    requires
        0 < p < s.len(),
        s[p] == '%',
        forall|i: int| 0 <= i < p ==> s[i] != '%',
        p + 1 < s.len() ==> s[p + 1] != 's' && s[p + 1] != 'd',
    ensures
        p + 1 == s.len() ==> scan_spec(s) == Err::<(Seq<char>, (Seq<char>, TypeTag)), ScanError>(
            ScanError::UnexpectedEnd,
        ),
        p + 1 < s.len() ==> scan_spec(s) == Err::<(Seq<char>, (Seq<char>, TypeTag)), ScanError>(
            ScanError::UnrecognizedTag { found: s[p + 1] },
        ),
{
    lemma_marker_pos(s);
    assert(marker_pos(s) == p) by {
        if marker_pos(s) < p {
            assert(s[marker_pos(s)] != '%');
        }
        if marker_pos(s) > p {
            assert(s[p] != '%');
        }
    }
}

/// Scanning is a pure function of the input: two scan results pinned to
/// the same input's outcome are equal, so repeated calls of `scan` on
/// one input yield identical results.
pub proof fn lemma_scan_deterministic(
    s: Seq<char>,
    r1: Result<(&str, (&str, TypeTag)), ScanError>,
    r2: Result<(&str, (&str, TypeTag)), ScanError>,
)
    requires
        result_view(r1) == scan_spec(s),
        result_view(r2) == scan_spec(s),
    ensures
        result_view(r1) == result_view(r2),
{
}

} // verus!
