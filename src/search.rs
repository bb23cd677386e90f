use vstd::prelude::*;

verus! {

/// `needle` occurs in `haystack` at index `i`.
pub open spec fn occurs_at(haystack: Seq<u8>, needle: Seq<u8>, i: int) -> bool {
    0 <= i && i + needle.len() <= haystack.len() && haystack.subrange(i, i + needle.len())
        == needle
}

/// Does `needle` occur in `haystack` at index `i`?
fn matches_at(haystack: &[u8], needle: &[u8], i: usize) -> (r: bool)
    requires
        i + needle@.len() <= haystack@.len(),
    ensures
        r == occurs_at(haystack@, needle@, i as int),
{
    let len: usize = haystack.len();
    let mut j: usize = 0;
    while j < needle.len()
        invariant
            len == haystack@.len(),
            i + needle@.len() <= haystack@.len(),
            j <= needle@.len(),
            forall|k: int| 0 <= k < j ==> haystack@[i + k] == needle@[k],
        decreases needle@.len() - j,
    {
        if haystack[i + j] != needle[j] {
            assert(haystack@.subrange(i as int, i + needle@.len())[j as int] != needle@[j as int]);
            return false;
        }
        j = j + 1;
    }
    assert(haystack@.subrange(i as int, i + needle@.len()) =~= needle@);
    true
}

/// Lowest index at which `needle` occurs in `haystack`, or `None` where it
/// occurs nowhere. An empty needle occurs at index 0.
pub fn find_sequence(haystack: &[u8], needle: &[u8]) -> (r: Option<usize>)
    ensures
        match r {
            Some(i) => occurs_at(haystack@, needle@, i as int) && forall|j: int|
                0 <= j < i ==> !occurs_at(haystack@, needle@, j),
            None => forall|j: int| !occurs_at(haystack@, needle@, j),
        },
{
    if needle.len() > haystack.len() {
        return None;
    }
    let last: usize = haystack.len() - needle.len();
    let mut i: usize = 0;
    loop
        invariant
            last == haystack@.len() - needle@.len(),
            i <= last,
            forall|j: int| 0 <= j < i ==> !occurs_at(haystack@, needle@, j),
        decreases last - i,
    {
        if matches_at(haystack, needle, i) {
            return Some(i);
        }
        if i == last {
            return None;
        }
        i = i + 1;
    }
}

} // verus!
