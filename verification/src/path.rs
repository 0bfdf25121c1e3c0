use vstd::prelude::*;
use crate::errors::KeyError;

verus! {

/// One step of a derivation path: a child index below the hardened flag,
/// and whether the step is hardened.
#[derive(Clone, Copy, Debug, PartialEq, Eq, Structural)]
pub struct PathSegment {
    pub index: u32,
    pub hardened: bool,
}

/// A segment index leaves room for the hardened flag.
pub open spec fn segment_wf(s: PathSegment) -> bool {
    s.index < 0x8000_0000
}

/// Every segment of a path leaves room for the hardened flag.
pub open spec fn path_wf(segs: Seq<PathSegment>) -> bool {
    forall|i: int| 0 <= i < segs.len() ==> segment_wf(#[trigger] segs[i])
}

/// An ordered sequence of path segments, immutable once parsed.
#[derive(Debug, PartialEq, Eq)]
pub struct DerivationPath {
    pub segments: Vec<PathSegment>,
}

impl View for DerivationPath {
    type V = Seq<PathSegment>;

    open spec fn view(&self) -> Seq<PathSegment> {
        self.segments@
    }
}

/// An ASCII decimal digit.
pub open spec fn is_digit(b: u8) -> bool {
    0x30 <= b <= 0x39
}

/// Whether every byte is an ASCII decimal digit.
pub open spec fn all_digits(s: Seq<u8>) -> bool {
    forall|i: int| 0 <= i < s.len() ==> is_digit(#[trigger] s[i])
}

/// The number the ASCII digits spell out.
pub open spec fn digits_val(s: Seq<u8>) -> int
    decreases s.len(),
{
    if s.len() == 0 {
        0
    } else {
        digits_val(s.drop_last()) * 10 + s.last() - 0x30
    }
}

/// The position of the first `/`, or the length when there is none.
pub open spec fn first_slash(s: Seq<u8>) -> int
    decreases s.len(),
{
    if s.len() == 0 {
        0
    } else if s[0] == 0x2F {
        0
    } else {
        1 + first_slash(s.subrange(1, s.len() as int))
    }
}

/// What one `/`-free piece of a path means: digits, an optional trailing
/// apostrophe for a hardened step, and an index below the hardened flag.
pub open spec fn spec_parse_segment(s: Seq<u8>) -> Result<PathSegment, KeyError> {
    let hardened = s.len() > 0 && s.last() == 0x27;
    let digits = if hardened {
        s.drop_last()
    } else {
        s
    };
    if digits.len() == 0 || !all_digits(digits) {
        Err(KeyError::InvalidPath)
    } else if digits_val(digits) >= 0x8000_0000 {
        Err(KeyError::InvalidPath)
    } else {
        Ok(PathSegment { index: digits_val(digits) as u32, hardened })
    }
}

/// What the text after `m/` means: `/`-separated segments, none empty.
pub open spec fn spec_parse_segments(s: Seq<u8>) -> Result<Seq<PathSegment>, KeyError>
    decreases s.len(),
    via spec_parse_segments_decreases
{
    let cut = first_slash(s);
    match spec_parse_segment(s.subrange(0, cut)) {
        Err(e) => Err(e),
        Ok(seg) => if cut == s.len() {
            Ok(seq![seg])
        } else {
            match spec_parse_segments(s.subrange(cut + 1, s.len() as int)) {
                Ok(rest) => Ok(seq![seg] + rest),
                Err(e) => Err(e),
            }
        },
    }
}

#[via_fn]
proof fn spec_parse_segments_decreases(s: Seq<u8>) {
    lemma_first_slash_bounds(s);
}

/// What a path string means: `m` alone is the empty path, otherwise `m/`
/// followed by segments.
pub open spec fn spec_parse_path(s: Seq<u8>) -> Result<Seq<PathSegment>, KeyError> {
    if s.len() == 0 || s[0] != 0x6D {
        Err(KeyError::InvalidPath)
    } else if s.len() == 1 {
        Ok(Seq::empty())
    } else if s[1] != 0x2F {
        Err(KeyError::InvalidPath)
    } else {
        spec_parse_segments(s.subrange(2, s.len() as int))
    }
}

proof fn lemma_first_slash_bounds(s: Seq<u8>)
    ensures
        0 <= first_slash(s) <= s.len(),
        first_slash(s) < s.len() ==> s[first_slash(s)] == 0x2F,
        forall|i: int| 0 <= i < first_slash(s) ==> s[i] != 0x2F,
    decreases s.len(),
{
    if s.len() == 0 {
    } else if s[0] == 0x2F {
    } else {
        let tail = s.subrange(1, s.len() as int);
        lemma_first_slash_bounds(tail);
        assert forall|i: int| 0 <= i < first_slash(s) implies s[i] != 0x2F by {
            if i > 0 {
                assert(s[i] == tail[i - 1]);
            }
        }
    }
}

proof fn lemma_first_slash_at(s: Seq<u8>, j: int)
    requires
        0 <= j <= s.len(),
        j < s.len() ==> s[j] == 0x2F,
        forall|i: int| 0 <= i < j ==> s[i] != 0x2F,
    ensures
        first_slash(s) == j,
    decreases s.len(),
{
    if s.len() == 0 {
    } else if s[0] == 0x2F {
        assert(j == 0);
    } else {
        let tail = s.subrange(1, s.len() as int);
        assert(j >= 1);
        assert(j - 1 < tail.len() ==> tail[j - 1] == 0x2F);
        assert forall|i: int| 0 <= i < j - 1 implies tail[i] != 0x2F by {
            assert(tail[i] == s[i + 1]);
        }
        lemma_first_slash_at(tail, j - 1);
    }
}

proof fn lemma_digits_val_nonneg(s: Seq<u8>)
    requires
        all_digits(s),
    ensures
        digits_val(s) >= 0,
    decreases s.len(),
{
    if s.len() > 0 {
        assert(all_digits(s.drop_last()));
        lemma_digits_val_nonneg(s.drop_last());
    }
}

/// Reading more digits can only grow the number.
proof fn lemma_digits_val_prefix(s: Seq<u8>, i: int)
    requires
        all_digits(s),
        0 <= i <= s.len(),
    ensures
        digits_val(s.subrange(0, i)) <= digits_val(s),
    decreases s.len(),
{
    if i == s.len() {
        assert(s.subrange(0, i) =~= s);
    } else {
        let front = s.drop_last();
        assert(all_digits(front));
        assert(s.subrange(0, i) =~= front.subrange(0, i));
        lemma_digits_val_prefix(front, i);
        lemma_digits_val_nonneg(front);
    }
}

/// Reads one `/`-free piece of a path.
#[verifier::loop_isolation(false)]
fn parse_segment(text: &[u8], start: usize, end: usize) -> (r: Result<PathSegment, KeyError>)
    requires
        start <= end <= text@.len(),
    ensures
        (match r {
            Ok(seg) => spec_parse_segment(text@.subrange(start as int, end as int)) == Ok::<PathSegment, KeyError>(seg)
                && segment_wf(seg),
            Err(e) => spec_parse_segment(text@.subrange(start as int, end as int)) == Err::<
                PathSegment,
                KeyError,
            >(e),
        }),
{
    let ghost s = text@.subrange(start as int, end as int);
    if start == end {
        return Err(KeyError::InvalidPath);
    }
    let hardened = text[end - 1] == 0x27;
    let dend = if hardened {
        end - 1
    } else {
        end
    };
    let ghost digits = text@.subrange(start as int, dend as int);
    proof {
        assert(s.last() == text@[end - 1]);
        if hardened {
            assert(digits =~= s.drop_last());
        } else {
            assert(digits =~= s);
        }
    }
    if dend == start {
        return Err(KeyError::InvalidPath);
    }
    let mut acc: u64 = 0;
    let mut i: usize = start;
    proof {
        assert(text@.subrange(start as int, start as int) =~= Seq::<u8>::empty());
    }
    while i < dend
        invariant
            start <= i <= dend <= text@.len(),
            digits == text@.subrange(start as int, dend as int),
            all_digits(text@.subrange(start as int, i as int)),
            acc == digits_val(text@.subrange(start as int, i as int)),
            acc < 0x8000_0000,
        decreases dend - i,
    {
        let ghost seen = text@.subrange(start as int, i as int);
        let b = text[i];
        proof {
            assert(digits[i - start] == b);
        }
        if b < 0x30 || b > 0x39 {
            proof {
                assert(!is_digit(digits[i - start]));
            }
            return Err(KeyError::InvalidPath);
        }
        acc = acc * 10 + ((b - 0x30) as u64);
        i = i + 1;
        proof {
            let seen2 = text@.subrange(start as int, i as int);
            assert(seen2.drop_last() =~= seen);
            assert(seen2.last() == b);
            assert(acc == digits_val(seen2));
        }
        if acc >= 0x8000_0000 {
            proof {
                if all_digits(digits) {
                    lemma_digits_val_prefix(digits, i - start);
                    assert(text@.subrange(start as int, i as int) =~= digits.subrange(
                        0,
                        i - start,
                    ));
                }
            }
            return Err(KeyError::InvalidPath);
        }
    }
    proof {
        assert(text@.subrange(start as int, i as int) =~= digits);
    }
    Ok(PathSegment { index: acc as u32, hardened })
}

/// Reads the `/`-separated segments after `m/`.
#[verifier::loop_isolation(false)]
fn parse_segments(text: &[u8], cur: usize) -> (r: Result<Vec<PathSegment>, KeyError>)
    requires
        cur <= text@.len(),
    ensures
        (match r {
            Ok(v) => spec_parse_segments(text@.subrange(cur as int, text@.len() as int)) == Ok::<Seq<PathSegment>, KeyError>(v@)
                && path_wf(v@),
            Err(e) => spec_parse_segments(text@.subrange(cur as int, text@.len() as int)) == Err::<
                Seq<PathSegment>,
                KeyError,
            >(e),
        }),
    decreases text@.len() - cur,
{
    let ghost s = text@.subrange(cur as int, text@.len() as int);
    let mut j: usize = cur;
    while j < text.len() && text[j] != 0x2F
        invariant
            cur <= j <= text@.len(),
            forall|i: int| cur <= i < j ==> text@[i] != 0x2F,
        decreases text@.len() - j,
    {
        j = j + 1;
    }
    proof {
        assert forall|i: int| 0 <= i < j - cur implies s[i] != 0x2F by {
            assert(s[i] == text@[cur + i]);
        }
        assert(j < text@.len() ==> s[j - cur] == text@[j as int]);
        lemma_first_slash_at(s, j - cur);
        assert(s.subrange(0, j - cur) =~= text@.subrange(cur as int, j as int));
    }
    let seg = match parse_segment(text, cur, j) {
        Ok(seg) => seg,
        Err(e) => {
            return Err(e);
        },
    };
    if j == text.len() {
        let mut v: Vec<PathSegment> = Vec::new();
        v.push(seg);
        proof {
            assert(v@ =~= seq![seg]);
        }
        Ok(v)
    } else {
        proof {
            assert(s.subrange(j - cur + 1, s.len() as int) =~= text@.subrange(
                j + 1,
                text@.len() as int,
            ));
        }
        match parse_segments(text, j + 1) {
            Ok(mut rest) => {
                let ghost before = rest@;
                rest.insert(0, seg);
                proof {
                    assert(rest@ =~= seq![seg] + before);
                    assert forall|k: int| 0 <= k < rest@.len() implies segment_wf(
                        #[trigger] rest@[k],
                    ) by {
                        if k > 0 {
                            assert(rest@[k] == before[k - 1]);
                        }
                    }
                }
                Ok(rest)
            },
            Err(e) => Err(e),
        }
    }
}

/// Parses the textual form `m/i'/j/...` of a derivation path.
pub fn parse_derivation_path(text: &[u8]) -> (r: Result<DerivationPath, KeyError>)
    ensures
        (match r {
            Ok(p) => spec_parse_path(text@) == Ok::<Seq<PathSegment>, KeyError>(p@) && path_wf(p@),
            Err(e) => spec_parse_path(text@) == Err::<Seq<PathSegment>, KeyError>(e),
        }),
{
    if text.len() == 0 || text[0] != 0x6D {
        return Err(KeyError::InvalidPath);
    }
    if text.len() == 1 {
        return Ok(DerivationPath { segments: Vec::new() });
    }
    if text[1] != 0x2F {
        return Err(KeyError::InvalidPath);
    }
    match parse_segments(text, 2) {
        Ok(v) => Ok(DerivationPath { segments: v }),
        Err(e) => Err(e),
    }
}

} // verus!
