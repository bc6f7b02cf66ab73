//! Byte-level helpers for the CSV front end: searching, trimming,
//! splitting and comparing runs of bytes, each proved against a
//! specification over byte sequences.

use vstd::prelude::*;

verus! {

/// The index of the first occurrence of `b` in `s`, or `-1` if there is
/// none.
pub open spec fn first_byte(s: Seq<u8>, b: u8) -> int
    decreases s.len(),
{
    if s.len() == 0 {
        -1
    } else if s[0] == b {
        0
    } else {
        let rest = first_byte(s.subrange(1, s.len() as int), b);
        if rest == -1 {
            -1
        } else {
            rest + 1
        }
    }
}

/// `first_byte` names the first occurrence: the byte is there and no
/// earlier byte matches.
pub proof fn lemma_first_byte_found(s: Seq<u8>, b: u8, i: int)
    requires
        0 <= i < s.len(),
        s[i] == b,
        forall|j: int| 0 <= j < i ==> #[trigger] s[j] != b,
    ensures
        first_byte(s, b) == i,
    decreases i,
{
    if i > 0 {
        let rest = s.subrange(1, s.len() as int);
        assert(rest[i - 1] == s[i]);
        assert(forall|j: int| 0 <= j < i - 1 ==> #[trigger] rest[j] == s[j + 1]);
        lemma_first_byte_found(rest, b, i - 1);
    }
}

/// A sequence without any occurrence has no first occurrence.
pub proof fn lemma_first_byte_missing(s: Seq<u8>, b: u8)
    requires
        forall|j: int| 0 <= j < s.len() ==> #[trigger] s[j] != b,
    ensures
        first_byte(s, b) == -1,
    decreases s.len(),
{
    if s.len() > 0 {
        let rest = s.subrange(1, s.len() as int);
        assert(forall|j: int| 0 <= j < rest.len() ==> #[trigger] rest[j] == s[j + 1]);
        lemma_first_byte_missing(rest, b);
    }
}

/// Whether `b` is blank for the purposes of the CSV front end: a space, a
/// tab or a carriage return.
pub open spec fn is_ws(b: u8) -> bool {
    b == 32 || b == 9 || b == 13
}

/// `s` without its leading blanks.
pub open spec fn trim_front(s: Seq<u8>) -> Seq<u8>
    decreases s.len(),
{
    if s.len() > 0 && is_ws(s[0]) {
        trim_front(s.subrange(1, s.len() as int))
    } else {
        s
    }
}

/// `s` without its trailing blanks.
pub open spec fn trim_back(s: Seq<u8>) -> Seq<u8>
    decreases s.len(),
{
    if s.len() > 0 && is_ws(s.last()) {
        trim_back(s.drop_last())
    } else {
        s
    }
}

/// `s` without its leading and trailing blanks.
pub open spec fn trim(s: Seq<u8>) -> Seq<u8> {
    trim_back(trim_front(s))
}

proof fn lemma_trim_front_range(s: Seq<u8>, i: int)
    requires
        0 <= i <= s.len(),
        forall|j: int| 0 <= j < i ==> is_ws(#[trigger] s[j]),
        i == s.len() || !is_ws(s[i]),
    ensures
        trim_front(s) =~= s.subrange(i, s.len() as int),
    decreases i,
{
    if i == 0 {
        assert(s.subrange(0, s.len() as int) =~= s);
    } else {
        let rest = s.subrange(1, s.len() as int);
        assert(forall|j: int| 0 <= j < rest.len() ==> #[trigger] rest[j] == s[j + 1]);
        lemma_trim_front_range(rest, i - 1);
        assert(rest.subrange(i - 1, rest.len() as int) =~= s.subrange(i, s.len() as int));
    }
}

proof fn lemma_trim_back_range(s: Seq<u8>, j: int)
    requires
        0 <= j <= s.len(),
        forall|k: int| j <= k < s.len() ==> is_ws(#[trigger] s[k]),
        j == 0 || !is_ws(s[j - 1]),
    ensures
        trim_back(s) =~= s.subrange(0, j),
    decreases s.len() - j,
{
    if j == s.len() {
        if s.len() > 0 && is_ws(s.last()) {
            assert(!is_ws(s[j - 1]));
            assert(false);
        }
        assert(s.subrange(0, s.len() as int) =~= s);
    } else {
        let rest = s.drop_last();
        assert(forall|k: int| j <= k < rest.len() ==> #[trigger] rest[k] == s[k]);
        assert(rest[j - 1] == s[j - 1] || j == 0);
        lemma_trim_back_range(rest, j);
        assert(rest.subrange(0, j) =~= s.subrange(0, j));
    }
}

/// The bytes of `s` with leading and trailing blanks removed, exactly as
/// [`trim`] says.
pub fn trim_slice<'a>(s: &'a [u8]) -> (result: &'a [u8])
    ensures
        result@ == trim(s@),
{
    let mut lo: usize = 0;
    while lo < s.len() && (s[lo] == 32 || s[lo] == 9 || s[lo] == 13)
        invariant
            0 <= lo <= s@.len(),
            forall|j: int| 0 <= j < lo ==> is_ws(#[trigger] s@[j]),
        decreases s@.len() - lo,
    {
        lo = lo + 1;
    }
    let mut hi: usize = s.len();
    while hi > lo && (s[hi - 1] == 32 || s[hi - 1] == 9 || s[hi - 1] == 13)
        invariant
            lo <= hi <= s@.len(),
            forall|j: int| 0 <= j < lo ==> is_ws(#[trigger] s@[j]),
            forall|k: int| hi <= k < s@.len() ==> is_ws(#[trigger] s@[k]),
        decreases hi,
    {
        hi = hi - 1;
    }
    proof {
        lemma_trim_front_range(s@, lo as int);
        let front = s@.subrange(lo as int, s@.len() as int);
        assert(forall|k: int|
            hi - lo <= k < front.len() ==> is_ws(#[trigger] front[k]));
        if hi > lo {
            assert(front[hi - lo - 1] == s@[hi - 1]);
        }
        lemma_trim_back_range(front, hi - lo);
        assert(front.subrange(0, hi - lo) =~= s@.subrange(lo as int, hi as int));
    }
    vstd::slice::slice_subrange(s, lo, hi)
}

/// The pieces of `s` between occurrences of `sep`: splitting keeps empty
/// pieces, and a sequence without any separator is one piece (so the empty
/// sequence is one empty piece).
pub open spec fn spec_split(s: Seq<u8>, sep: u8) -> Seq<Seq<u8>>
    decreases s.len(),
{
    let c = first_byte(s, sep);
    if c < 0 || c >= s.len() {
        seq![s]
    } else {
        seq![s.subrange(0, c)] + spec_split(s.subrange(c + 1, s.len() as int), sep)
    }
}

/// Splits `s` at every occurrence of `sep`, exactly as [`spec_split`]
/// says.
pub fn split_bytes(s: &[u8], sep: u8) -> (result: Vec<Vec<u8>>)
    ensures
        result.deep_view() == spec_split(s@, sep),
{
    let mut result: Vec<Vec<u8>> = Vec::new();
    let mut start: usize = 0;
    let mut i: usize = 0;
    proof {
        assert(s@.subrange(0, s@.len() as int) =~= s@);
        assert(result.deep_view() + spec_split(s@, sep) =~~= spec_split(s@, sep));
    }
    while i < s.len()
        invariant
            0 <= start <= i <= s@.len(),
            forall|j: int| start <= j < i ==> #[trigger] s@[j] != sep,
            spec_split(s@, sep) =~~= result.deep_view() + spec_split(
                s@.subrange(start as int, s@.len() as int),
                sep,
            ),
        decreases s@.len() - i,
    {
        if s[i] == sep {
            let piece = vstd::slice::slice_to_vec(vstd::slice::slice_subrange(s, start, i));
            let ghost pre_deep = result.deep_view();
            proof {
                let remaining = s@.subrange(start as int, s@.len() as int);
                assert(remaining[i - start] == s@[i as int]);
                assert(forall|j: int|
                    0 <= j < i - start ==> #[trigger] remaining[j] == s@[j + start]);
                lemma_first_byte_found(remaining, sep, i - start);
                assert(remaining.subrange(0, i - start) =~= s@.subrange(
                    start as int,
                    i as int,
                ));
                assert(remaining.subrange(i - start + 1, remaining.len() as int)
                    =~= s@.subrange(i + 1, s@.len() as int));
                assert(spec_split(remaining, sep) == seq![piece@] + spec_split(
                    s@.subrange(i + 1, s@.len() as int),
                    sep,
                ));
            }
            result.push(piece);
            proof {
                assert(result.deep_view() =~~= pre_deep + seq![piece@]);
                assert(spec_split(s@, sep) =~~= result.deep_view() + spec_split(
                    s@.subrange(i + 1, s@.len() as int),
                    sep,
                ));
            }
            start = i + 1;
        }
        i = i + 1;
    }
    let last_piece = vstd::slice::slice_to_vec(vstd::slice::slice_subrange(s, start, s.len()));
    proof {
        let remaining = s@.subrange(start as int, s@.len() as int);
        assert(forall|j: int|
            0 <= j < remaining.len() ==> #[trigger] remaining[j] == s@[j + start]);
        lemma_first_byte_missing(remaining, sep);
        assert(spec_split(remaining, sep) == seq![remaining]);
    }
    let ghost pre_deep = result.deep_view();
    result.push(last_piece);
    proof {
        assert(result.deep_view() =~~= pre_deep + seq![last_piece@]);
        assert(result.deep_view() =~~= spec_split(s@, sep));
    }
    result
}

/// Whether two runs of bytes hold the same bytes.
pub fn eq_bytes(a: &[u8], b: &[u8]) -> (result: bool)
    ensures
        result == (a@ == b@),
{
    if a.len() != b.len() {
        proof {
            assert(a@ != b@);
        }
        return false;
    }
    let mut i: usize = 0;
    while i < a.len()
        invariant
            0 <= i <= a@.len(),
            a@.len() == b@.len(),
            forall|j: int| 0 <= j < i ==> #[trigger] a@[j] == b@[j],
        decreases a@.len() - i,
    {
        if a[i] != b[i] {
            proof {
                assert(a@[i as int] != b@[i as int]);
            }
            return false;
        }
        i = i + 1;
    }
    proof {
        assert(a@ =~= b@);
    }
    true
}

} // verus!
