//! Searching and trimming byte strings.
use vstd::prelude::*;
use vstd::slice::slice_subrange;

verus! {

/// `needle` occurs in `hay` at offset `i`.
pub open spec fn matches_at(hay: Seq<u8>, needle: Seq<u8>, i: int) -> bool {
    &&& 0 <= i
    &&& i + needle.len() <= hay.len()
    &&& forall|k: int| 0 <= k < needle.len() ==> hay[i + k] == #[trigger] needle[k]
}

/// The offset of the first occurrence of `needle` in `hay` at or after `from`.
pub open spec fn next_match(hay: Seq<u8>, needle: Seq<u8>, from: int) -> Option<int>
    decreases hay.len() - from,
{
    if from < 0 || from + needle.len() > hay.len() {
        None
    } else if matches_at(hay, needle, from) {
        Some(from)
    } else {
        next_match(hay, needle, from + 1)
    }
}

/// `needle` occurs somewhere in `hay`.
pub open spec fn occurs_in(hay: Seq<u8>, needle: Seq<u8>) -> bool {
    next_match(hay, needle, 0) is Some
}

/// The part of `hay` before the first occurrence of `needle`, or all of it.
pub open spec fn before_first(hay: Seq<u8>, needle: Seq<u8>) -> Seq<u8> {
    match next_match(hay, needle, 0) {
        Some(i) => hay.subrange(0, i),
        None => hay,
    }
}

/// The bytes that count as blank at either end of a field.
pub open spec fn is_blank(b: u8) -> bool {
    b == 32 || (9 <= b && b <= 13)
}

/// `s` without its leading blanks.
pub open spec fn trim_start(s: Seq<u8>) -> Seq<u8>
    decreases s.len(),
{
    if s.len() > 0 && is_blank(s.first()) {
        trim_start(s.drop_first())
    } else {
        s
    }
}

/// `s` without its trailing blanks.
pub open spec fn trim_end(s: Seq<u8>) -> Seq<u8>
    decreases s.len(),
{
    if s.len() > 0 && is_blank(s.last()) {
        trim_end(s.drop_last())
    } else {
        s
    }
}

/// `s` without its leading and trailing blanks.
pub open spec fn trim(s: Seq<u8>) -> Seq<u8> {
    trim_end(trim_start(s))
}

/// What a list of byte strings holds.
pub open spec fn line_texts(lines: Seq<Vec<u8>>) -> Seq<Seq<u8>> {
    lines.map_values(|l: Vec<u8>| l@)
}

/// What `next_match` finds is an occurrence, and the earliest one.
pub proof fn lemma_next_match_is_first(hay: Seq<u8>, needle: Seq<u8>, from: int)
    requires
        0 <= from,
    ensures
        match next_match(hay, needle, from) {
            Some(i) => from <= i && matches_at(hay, needle, i) && forall|j: int|
                from <= j < i ==> !matches_at(hay, needle, j),
            None => forall|j: int| from <= j ==> !matches_at(hay, needle, j),
        },
    decreases hay.len() - from,
{
    if from + needle.len() > hay.len() {
    } else if matches_at(hay, needle, from) {
    } else {
        lemma_next_match_is_first(hay, needle, from + 1);
    }
}

/// Whether `needle` occurs in `hay` at offset `i`.
pub fn is_match_at(hay: &[u8], needle: &[u8], i: usize) -> (r: bool)
    ensures
        r == matches_at(hay@, needle@, i as int),
{
    if needle.len() > hay.len() || i > hay.len() - needle.len() {
        return false;
    }
    let mut k: usize = 0;
    while k < needle.len()
        invariant
            i + needle.len() <= hay.len(),
            k <= needle.len(),
            forall|j: int| 0 <= j < k ==> hay@[i + j] == #[trigger] needle@[j],
        decreases needle.len() - k,
    {
        if hay[i + k] != needle[k] {
            return false;
        }
        k += 1;
    }
    true
}

/// The first occurrence of `needle` in `hay` at or after `from`.
pub fn find_from(hay: &[u8], needle: &[u8], from: usize) -> (r: Option<usize>)
    ensures
        match r {
            Some(i) => next_match(hay@, needle@, from as int) == Some(i as int) && from <= i && i
                + needle@.len() <= hay@.len(),
            None => next_match(hay@, needle@, from as int) is None,
        },
{
    if needle.len() > hay.len() || from > hay.len() - needle.len() {
        return None;
    }
    let last: usize = hay.len() - needle.len();
    let mut i: usize = from;
    while i <= last
        invariant
            last == hay.len() - needle.len(),
            from <= i <= last + 1,
            next_match(hay@, needle@, from as int) == next_match(hay@, needle@, i as int),
        decreases last + 1 - i,
    {
        if is_match_at(hay, needle, i) {
            return Some(i);
        }
        i += 1;
    }
    None
}

/// The first occurrence of `needle` in `hay`.
pub fn find(hay: &[u8], needle: &[u8]) -> (r: Option<usize>)
    ensures
        match r {
            Some(i) => next_match(hay@, needle@, 0) == Some(i as int) && i + needle@.len()
                <= hay@.len(),
            None => next_match(hay@, needle@, 0) is None,
        },
{
    find_from(hay, needle, 0)
}

/// Whether `needle` occurs somewhere in `hay`.
pub fn contains(hay: &[u8], needle: &[u8]) -> (r: bool)
    ensures
        r == occurs_in(hay@, needle@),
{
    find(hay, needle).is_some()
}

/// The part of `hay` before the first occurrence of `needle`, or all of it.
pub fn take_before<'a>(hay: &'a [u8], needle: &[u8]) -> (r: &'a [u8])
    ensures
        r@ == before_first(hay@, needle@),
{
    match find(hay, needle) {
        Some(i) => slice_subrange(hay, 0, i),
        None => {
            assert(hay@.subrange(0, hay@.len() as int) =~= hay@);
            slice_subrange(hay, 0, hay.len())
        },
    }
}

/// The offset just behind an occurrence of `needle` at `i`.
pub fn match_end(hay: &[u8], needle: &[u8], i: usize) -> (e: usize)
    requires
        i + needle@.len() <= hay@.len(),
    ensures
        e == i + needle@.len(),
{
    let total: usize = hay.len();
    assert(i + needle@.len() <= total);
    i + needle.len()
}

/// The part of `hay` from offset `from` on.
pub fn tail_from<'a>(hay: &'a [u8], from: usize) -> (r: &'a [u8])
    requires
        from <= hay@.len(),
    ensures
        r@ == hay@.subrange(from as int, hay@.len() as int),
{
    slice_subrange(hay, from, hay.len())
}

/// `a` and `b` hold the same bytes.
pub fn same_bytes(a: &[u8], b: &[u8]) -> (r: bool)
    ensures
        r == (a@ == b@),
{
    if a.len() != b.len() {
        return false;
    }
    let mut i: usize = 0;
    while i < a.len()
        invariant
            a.len() == b.len(),
            i <= a.len(),
            forall|j: int| 0 <= j < i ==> a@[j] == b@[j],
        decreases a.len() - i,
    {
        if a[i] != b[i] {
            return false;
        }
        i += 1;
    }
    proof {
        assert(a@ =~= b@);
    }
    true
}

/// Whether `b` is a blank.
pub fn is_blank_byte(b: u8) -> (r: bool)
    ensures
        r == is_blank(b),
{
    b == 32 || (9 <= b && b <= 13)
}

/// `s` without its leading and trailing blanks.
pub fn trim_bytes<'a>(s: &'a [u8]) -> (r: &'a [u8])
    ensures
        r@ == trim(s@),
{
    let mut lo: usize = 0;
    proof {
        assert(s@.subrange(0, s@.len() as int) =~= s@);
    }
    while lo < s.len() && is_blank_byte(s[lo])
        invariant
            lo <= s.len(),
            trim_start(s@) == trim_start(s@.subrange(lo as int, s@.len() as int)),
        decreases s.len() - lo,
    {
        proof {
            let cur = s@.subrange(lo as int, s@.len() as int);
            assert(cur.drop_first() =~= s@.subrange(lo + 1, s@.len() as int));
        }
        lo += 1;
    }
    let mut hi: usize = s.len();
    while hi > lo && is_blank_byte(s[hi - 1])
        invariant
            lo <= hi <= s.len(),
            trim_start(s@) == s@.subrange(lo as int, s@.len() as int),
            trim(s@) == trim_end(s@.subrange(lo as int, hi as int)),
        decreases hi - lo,
    {
        proof {
            let cur = s@.subrange(lo as int, hi as int);
            assert(cur.drop_last() =~= s@.subrange(lo as int, hi - 1));
        }
        hi -= 1;
    }
    slice_subrange(s, lo, hi)
}

} // verus!
