//! The delimited-field extractor: the one place where the tagged storage
//! format is parsed.  A field is the text strictly between a prefix marker at
//! the very start of a buffer and the first occurrence of a suffix marker
//! anywhere in the buffer.

use vstd::prelude::*;
use vstd::string::*;

verus! {

/// The pattern occurs in `text` starting at position `i`.
pub open spec fn occurs_at(text: Seq<char>, pattern: Seq<char>, i: int) -> bool {
    &&& 0 <= i
    &&& i + pattern.len() <= text.len()
    &&& text.subrange(i, i + pattern.len() as int) == pattern
}

/// The position of the first occurrence of `pattern` in `text`, if any.
pub open spec fn first_occurrence(text: Seq<char>, pattern: Seq<char>) -> Option<int>
    decreases text.len(),
{
    if occurs_at(text, pattern, 0) {
        Some(0)
    } else if text.len() == 0 {
        None
    } else {
        match first_occurrence(text.skip(1), pattern) {
            Some(i) => Some(i + 1),
            None => None,
        }
    }
}

/// The field delimited by `prefix` and `suffix` in `buffer`: present exactly
/// when `buffer` starts with `prefix` and the first occurrence of `suffix`
/// does not start before `prefix` ends.  Extra prefix characters before the
/// first suffix stay in the field; suffix repetitions after it stay in the
/// remaining payload.
pub open spec fn extracted_field(
    buffer: Seq<char>,
    prefix: Seq<char>,
    suffix: Seq<char>,
) -> Option<Seq<char>> {
    if !occurs_at(buffer, prefix, 0) {
        None
    } else {
        match first_occurrence(buffer, suffix) {
            Some(pos) => if pos < prefix.len() {
                None
            } else {
                Some(buffer.subrange(prefix.len() as int, pos))
            },
            None => None,
        }
    }
}

/// `first_occurrence` returns the least position at which the pattern
/// occurs, and `None` exactly when it occurs nowhere.
pub proof fn lemma_first_occurrence_correct(text: Seq<char>, pattern: Seq<char>)
    ensures
        match first_occurrence(text, pattern) {
            Some(i) => occurs_at(text, pattern, i) && (forall|j: int|
                0 <= j < i ==> !occurs_at(text, pattern, j)),
            None => forall|j: int| !occurs_at(text, pattern, j),
        },
    decreases text.len(),
{
    if occurs_at(text, pattern, 0) {
    } else if text.len() == 0 {
        assert forall|j: int| !occurs_at(text, pattern, j) by {
            if occurs_at(text, pattern, j) {
                assert(j == 0);
            }
        }
    } else {
        lemma_first_occurrence_correct(text.skip(1), pattern);
        assert forall|j: int| 1 <= j implies (occurs_at(text, pattern, j) == occurs_at(
            text.skip(1),
            pattern,
            j - 1,
        )) by {
            if 1 <= j && j + pattern.len() <= text.len() {
                assert(text.skip(1).subrange(j - 1, j - 1 + pattern.len() as int) =~= text.subrange(
                    j,
                    j + pattern.len() as int,
                ));
            }
        }
    }
}

/// When a field is extracted, the buffer splits into the prefix, the field,
/// the first suffix occurrence, and the remaining payload.
pub proof fn lemma_extracted_field_structure(
    buffer: Seq<char>,
    prefix: Seq<char>,
    suffix: Seq<char>,
)
    ensures
        match extracted_field(buffer, prefix, suffix) {
            Some(field) => {
                &&& occurs_at(buffer, prefix, 0)
                &&& occurs_at(buffer, suffix, prefix.len() + field.len() as int)
                &&& prefix.len() + field.len() + suffix.len() <= buffer.len()
                &&& field == buffer.subrange(
                    prefix.len() as int,
                    prefix.len() + field.len() as int,
                )
                &&& forall|j: int| 0 <= j < prefix.len() + field.len()
                    ==> !occurs_at(buffer, suffix, j)
            },
            None => true,
        },
{
    lemma_first_occurrence_correct(buffer, suffix);
}

/// Law: extraction is absent whenever the buffer does not start with the
/// prefix marker.
pub proof fn lemma_no_prefix_no_field(buffer: Seq<char>, prefix: Seq<char>, suffix: Seq<char>)
    requires
        !occurs_at(buffer, prefix, 0),
    ensures
        extracted_field(buffer, prefix, suffix) is None,
{
}

/// Law: extraction is absent whenever the suffix marker occurs nowhere in
/// the buffer, even if the buffer starts with the prefix marker.
pub proof fn lemma_no_suffix_no_field(buffer: Seq<char>, prefix: Seq<char>, suffix: Seq<char>)
    requires
        occurs_at(buffer, prefix, 0),
        forall|j: int| !occurs_at(buffer, suffix, j),
    ensures
        extracted_field(buffer, prefix, suffix) is None,
{
    lemma_first_occurrence_correct(buffer, suffix);
}

/// Law: wrapping a field between the markers and extracting it again gives
/// the field back, and the payload after the suffix is untouched, provided
/// the suffix marker does not occur in the wrapped header before its own
/// position.
pub proof fn lemma_wrapped_field_round_trip(
    prefix: Seq<char>,
    field: Seq<char>,
    suffix: Seq<char>,
    payload: Seq<char>,
)
    requires
        forall|j: int| 0 <= j < prefix.len() + field.len() ==> !occurs_at(
            prefix + field + suffix,
            suffix,
            j,
        ),
    ensures
        extracted_field(prefix + field + suffix + payload, prefix, suffix) == Some(field),
        (prefix + field + suffix + payload).skip(
            (prefix.len() + field.len() + suffix.len()) as int,
        ) == payload,
{
    let buffer = prefix + field + suffix + payload;
    let pf = (prefix.len() + field.len()) as int;
    assert(buffer.subrange(0, prefix.len() as int) =~= prefix);
    assert(occurs_at(buffer, prefix, 0));
    assert(buffer.subrange(pf, pf + suffix.len() as int) =~= suffix);
    assert(occurs_at(buffer, suffix, pf));
    assert forall|j: int| 0 <= j < pf implies !occurs_at(buffer, suffix, j) by {
        if occurs_at(buffer, suffix, j) {
            let header = prefix + field + suffix;
            assert(buffer.subrange(j, j + suffix.len() as int) =~= header.subrange(
                j,
                j + suffix.len() as int,
            ));
            assert(occurs_at(header, suffix, j));
        }
    }
    lemma_first_occurrence_correct(buffer, suffix);
    match first_occurrence(buffer, suffix) {
        Some(k) => {
            assert(k == pf);
        },
        None => {
            assert(false);
        },
    }
    assert(buffer.subrange(prefix.len() as int, pf) =~= field);
    assert(buffer.skip((prefix.len() + field.len() + suffix.len()) as int) =~= payload);
}

/// Does `pattern` occur in `text` at position `start`?
pub(crate) fn pattern_at(text: &str, pattern: &str, start: usize) -> (r: bool)
    requires
        start <= text@.len(),
    ensures
        r == occurs_at(text@, pattern@, start as int),
{
    let text_len: usize = text.unicode_len();
    let pattern_len: usize = pattern.unicode_len();
    if pattern_len > text_len - start {
        return false;
    }
    let mut k: usize = 0;
    while k < pattern_len
        invariant
            start + pattern_len <= text_len,
            text_len == text@.len(),
            pattern_len == pattern@.len(),
            0 <= k <= pattern_len,
            forall|j: int| 0 <= j < k ==> text@[start + j] == pattern@[j],
        decreases pattern_len - k,
    {
        if text.get_char(start + k) != pattern.get_char(k) {
            assert(!occurs_at(text@, pattern@, start as int)) by {
                if occurs_at(text@, pattern@, start as int) {
                    assert(text@.subrange(
                        start as int,
                        start + pattern@.len() as int,
                    )[k as int] == pattern@[k as int]);
                }
            }
            return false;
        }
        k = k + 1;
    }
    assert(text@.subrange(start as int, start + pattern@.len() as int) =~= pattern@);
    true
}

/// The position of the first occurrence of `pattern` in `text`, if any.
pub fn find_first(text: &str, pattern: &str) -> (r: Option<usize>)
    ensures
        match r {
            Some(i) => first_occurrence(text@, pattern@) == Some(i as int),
            None => first_occurrence(text@, pattern@) is None,
        },
{
    let text_len: usize = text.unicode_len();
    let mut i: usize = 0;
    loop
        invariant
            text_len == text@.len(),
            0 <= i <= text_len,
            forall|j: int| 0 <= j < i ==> !occurs_at(text@, pattern@, j),
        decreases text_len - i,
    {
        if pattern_at(text, pattern, i) {
            proof {
                lemma_first_occurrence_correct(text@, pattern@);
            }
            return Some(i);
        }
        if i == text_len {
            proof {
                lemma_first_occurrence_correct(text@, pattern@);
                assert forall|j: int| !occurs_at(text@, pattern@, j) by {
                    if occurs_at(text@, pattern@, j) {
                        assert(0 <= j <= text@.len());
                    }
                }
            }
            return None;
        }
        i = i + 1;
    }
}

/// Extracts the field delimited by `prefix` and `suffix` from `buffer`,
/// following the first-suffix-wins rule of the storage format.
pub fn extract_field(buffer: &str, prefix: &str, suffix: &str) -> (r: Option<String>)
    ensures
        r is Some <==> extracted_field(buffer@, prefix@, suffix@) is Some,
        r matches Some(s) ==> extracted_field(buffer@, prefix@, suffix@) == Some(s@),
{
    if !pattern_at(buffer, prefix, 0) {
        return None;
    }
    let prefix_len: usize = prefix.unicode_len();
    match find_first(buffer, suffix) {
        None => None,
        Some(pos) => {
            if pos < prefix_len {
                None
            } else {
                proof {
                    lemma_first_occurrence_correct(buffer@, suffix@);
                }
                Some(String::from_str(buffer.substring_char(prefix_len, pos)))
            }
        },
    }
}

} // verus!
