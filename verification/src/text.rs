use vstd::prelude::*;

verus! {

/// Index of the first occurrence of `sep` in `bs`, or -1.
pub open spec fn spec_find(bs: Seq<u8>, sep: u8) -> int
    decreases bs.len(),
{
    if bs.len() == 0 {
        -1
    } else if bs[0] == sep {
        0
    } else {
        let r = spec_find(bs.drop_first(), sep);
        if r < 0 {
            -1
        } else {
            r + 1
        }
    }
}

/// The first occurrence found is an occurrence, nothing before it is
/// one, and -1 means there is none.
pub proof fn lemma_spec_find(bs: Seq<u8>, sep: u8)
    ensures
        spec_find(bs, sep) >= 0 ==> {
            &&& spec_find(bs, sep) < bs.len()
            &&& bs[spec_find(bs, sep)] == sep
            &&& forall|k: int| 0 <= k < spec_find(bs, sep) ==> bs[k] != sep
        },
        spec_find(bs, sep) < 0 ==> forall|k: int| 0 <= k < bs.len() ==> bs[k] != sep,
    decreases bs.len(),
{
    if bs.len() > 0 && bs[0] != sep {
        let tail = bs.drop_first();
        lemma_spec_find(tail, sep);
        assert(forall|k: int| 0 <= k < tail.len() ==> #[trigger] tail[k] == bs[k + 1]);
        let r = spec_find(tail, sep);
        if r >= 0 {
            assert(spec_find(bs, sep) == r + 1);
            assert(bs[r + 1] == tail[r]);
            assert forall|k: int| 0 <= k < r + 1 implies bs[k] != sep by {
                if k > 0 {
                    assert(bs[k] == tail[k - 1]);
                }
            }
        } else {
            assert forall|k: int| 0 <= k < bs.len() implies bs[k] != sep by {
                if k > 0 {
                    assert(bs[k] == tail[k - 1]);
                }
            }
        }
    }
}

/// `bs` split at every occurrence of `sep`: the runs between the
/// separators, in order, empties included.
pub open spec fn spec_split(bs: Seq<u8>, sep: u8) -> Seq<Seq<u8>>
    decreases bs.len(),
{
    let i = spec_find(bs, sep);
    if 0 <= i < bs.len() {
        seq![bs.take(i)] + spec_split(bs.skip(i + 1), sep)
    } else {
        seq![bs]
    }
}

/// A split has at least one part.
pub proof fn lemma_spec_split_len(bs: Seq<u8>, sep: u8)
    ensures
        spec_split(bs, sep).len() >= 1,
    decreases bs.len(),
{
    let i = spec_find(bs, sep);
    if i >= 0 {
        lemma_spec_find(bs, sep);
        lemma_spec_split_len(bs.skip(i + 1), sep);
    }
}

/// Whether a byte is ASCII whitespace, as trimming treats it.
pub open spec fn spec_is_space(b: u8) -> bool {
    b == 32 || b == 9 || b == 10 || b == 13 || b == 11 || b == 12
}

/// `bs` with leading and trailing ASCII whitespace removed.
pub open spec fn spec_trim(bs: Seq<u8>) -> Seq<u8>
    decreases bs.len(),
{
    if bs.len() == 0 {
        bs
    } else if spec_is_space(bs[0]) {
        spec_trim(bs.drop_first())
    } else if spec_is_space(bs[bs.len() - 1]) {
        spec_trim(bs.drop_last())
    } else {
        bs
    }
}

/// `bs` without one leading ASCII plus sign, as numeric parsing
/// tolerates it.
pub open spec fn spec_strip_plus(bs: Seq<u8>) -> Seq<u8> {
    if bs.len() >= 1 && bs[0] == 43 {
        bs.drop_first()
    } else {
        bs
    }
}

/// One byte lowered: ASCII capitals gain 0x20, all else is kept.
pub open spec fn spec_lower_byte(b: u8) -> u8 {
    if 65 <= b <= 90 {
        (b + 32) as u8
    } else {
        b
    }
}

/// `bs` with every ASCII capital lowered.
pub open spec fn spec_lower(bs: Seq<u8>) -> Seq<u8> {
    bs.map(|i: int, b: u8| spec_lower_byte(b))
}

/// Find the first occurrence of `sep` in `bs` at or after `from`.
pub fn find_byte(bs: &[u8], from: usize, sep: u8) -> (r: Option<usize>)
    requires
        from <= bs@.len(),
    ensures
        ({
            let f = spec_find(bs@.skip(from as int), sep);
            match r {
                Some(j) => from <= j < bs@.len() && f == j - from,
                None => f < 0,
            }
        }),
{
    let ghost suffix = bs@.skip(from as int);
    let mut j: usize = from;
    while j < bs.len()
        invariant
            from <= j <= bs@.len(),
            suffix == bs@.skip(from as int),
            forall|k: int| 0 <= k < j - from ==> suffix[k] != sep,
        decreases bs@.len() - j,
    {
        if bs[j] == sep {
            proof {
                lemma_find_at(suffix, sep, j - from);
            }
            return Some(j);
        }
        j = j + 1;
    }
    proof {
        lemma_find_none(suffix, sep);
    }
    None
}

/// When nothing before `k` matches and `k` does, the first match is `k`.
proof fn lemma_find_at(bs: Seq<u8>, sep: u8, k: int)
    requires
        0 <= k < bs.len(),
        bs[k] == sep,
        forall|j: int| 0 <= j < k ==> bs[j] != sep,
    ensures
        spec_find(bs, sep) == k,
    decreases k,
{
    if k > 0 {
        assert forall|j: int| 0 <= j < k - 1 implies bs.drop_first()[j] != sep by {
            assert(bs.drop_first()[j] == bs[j + 1]);
        }
        assert(bs.drop_first()[k - 1] == bs[k]);
        lemma_find_at(bs.drop_first(), sep, k - 1);
    }
}

/// When nothing matches, the first match is absent.
proof fn lemma_find_none(bs: Seq<u8>, sep: u8)
    requires
        forall|j: int| 0 <= j < bs.len() ==> bs[j] != sep,
    ensures
        spec_find(bs, sep) < 0,
    decreases bs.len(),
{
    if bs.len() > 0 {
        assert forall|j: int| 0 <= j < bs.drop_first().len() implies bs.drop_first()[j] != sep by {
            assert(bs.drop_first()[j] == bs[j + 1]);
        }
        lemma_find_none(bs.drop_first(), sep);
    }
}

/// The bytes of `bs` between `lo` and `hi`.
pub fn sub_bytes(bs: &[u8], lo: usize, hi: usize) -> (r: Vec<u8>)
    requires
        lo <= hi <= bs@.len(),
    ensures
        r@ == bs@.subrange(lo as int, hi as int),
{
    let mut out: Vec<u8> = Vec::new();
    let mut i: usize = lo;
    while i < hi
        invariant
            lo <= i <= hi <= bs@.len(),
            out@ =~= bs@.subrange(lo as int, i as int),
        decreases hi - i,
    {
        out.push(bs[i]);
        i = i + 1;
    }
    proof {
        assert(out@ =~= bs@.subrange(lo as int, hi as int));
    }
    out
}

/// Split `bs` at every `sep`, empties included.
pub fn split_bytes(bs: &[u8], sep: u8) -> (r: Vec<Vec<u8>>)
    ensures
        r@.map(|i: int, t: Vec<u8>| t@) == spec_split(bs@, sep),
{
    let mut out: Vec<Vec<u8>> = Vec::new();
    let mut pos: usize = 0;
    let n: usize = bs.len();
    let ghost whole = spec_split(bs@, sep);
    proof {
        assert(bs@.skip(0) =~= bs@);
        assert(out@.map(|i: int, t: Vec<u8>| t@) =~= Seq::<Seq<u8>>::empty());
        assert(whole =~= out@.map(|i: int, t: Vec<u8>| t@) + spec_split(bs@.skip(0), sep));
    }
    loop
        invariant
            pos <= bs@.len(),
            n == bs@.len(),
            whole == spec_split(bs@, sep),
            whole =~= out@.map(|i: int, t: Vec<u8>| t@) + spec_split(bs@.skip(pos as int), sep),
        decreases bs@.len() - pos,
    {
        match find_byte(bs, pos, sep) {
            Some(j) => {
                let tok = sub_bytes(bs, pos, j);
                out.push(tok);
                proof {
                    let rest = bs@.skip(pos as int);
                    assert(spec_find(rest, sep) == j - pos);
                    assert(rest.take(j - pos) =~= bs@.subrange(pos as int, j as int));
                    assert(rest.skip(j - pos + 1) =~= bs@.skip(j + 1));
                    assert(spec_split(rest, sep) == seq![rest.take(j - pos)] + spec_split(
                        bs@.skip(j + 1),
                        sep,
                    ));
                    assert(whole =~= out@.map(|i: int, t: Vec<u8>| t@) + spec_split(
                        bs@.skip(j + 1),
                        sep,
                    ));
                }
                pos = j + 1;
            },
            None => {
                let tok = sub_bytes(bs, pos, bs.len());
                out.push(tok);
                proof {
                    let rest = bs@.skip(pos as int);
                    assert(spec_find(rest, sep) < 0);
                    assert(spec_split(rest, sep) == seq![rest]);
                    assert(rest =~= bs@.subrange(pos as int, bs@.len() as int));
                    assert(out@.map(|i: int, t: Vec<u8>| t@) =~= whole);
                }
                return out;
            },
        }
    }
}

/// `bs` with leading and trailing ASCII whitespace removed.
pub fn trim_bytes(bs: &[u8]) -> (r: Vec<u8>)
    ensures
        r@ == spec_trim(bs@),
{
    let mut lo: usize = 0;
    let mut hi: usize = bs.len();
    proof {
        assert(bs@.subrange(0, bs@.len() as int) =~= bs@);
    }
    while lo < hi && is_space(bs[lo])
        invariant
            lo <= hi <= bs@.len(),
            spec_trim(bs@) == spec_trim(bs@.subrange(lo as int, hi as int)),
            hi == bs@.len(),
        decreases hi - lo,
    {
        proof {
            let cur = bs@.subrange(lo as int, hi as int);
            assert(cur.drop_first() =~= bs@.subrange(lo + 1, hi as int));
        }
        lo = lo + 1;
    }
    while lo < hi && is_space(bs[hi - 1])
        invariant
            lo <= hi <= bs@.len(),
            spec_trim(bs@) == spec_trim(bs@.subrange(lo as int, hi as int)),
            lo < hi ==> !spec_is_space(bs@[lo as int]),
        decreases hi - lo,
    {
        proof {
            let cur = bs@.subrange(lo as int, hi as int);
            assert(cur.drop_last() =~= bs@.subrange(lo as int, hi - 1));
        }
        hi = hi - 1;
    }
    proof {
        let cur = bs@.subrange(lo as int, hi as int);
        assert(spec_trim(cur) == cur);
    }
    sub_bytes(bs, lo, hi)
}

/// Whether a byte is ASCII whitespace.
pub fn is_space(b: u8) -> (r: bool)
    ensures
        r == spec_is_space(b),
{
    b == 32 || b == 9 || b == 10 || b == 13 || b == 11 || b == 12
}

/// `bs` with every ASCII capital lowered.
pub fn lower_bytes(bs: &[u8]) -> (r: Vec<u8>)
    ensures
        r@ == spec_lower(bs@),
{
    let mut out: Vec<u8> = Vec::new();
    let mut i: usize = 0;
    while i < bs.len()
        invariant
            i <= bs@.len(),
            out@.len() == i as int,
            forall|j: int| 0 <= j < i as int ==> out@[j] == spec_lower_byte(bs@[j]),
        decreases bs@.len() - i,
    {
        let b = bs[i];
        if 65 <= b && b <= 90 {
            out.push(b + 32);
        } else {
            out.push(b);
        }
        i = i + 1;
    }
    proof {
        assert(out@ =~= spec_lower(bs@));
    }
    out
}

/// Whether two byte strings are equal.
pub fn bytes_eq(a: &[u8], b: &[u8]) -> (r: bool)
    ensures
        r == (a@ == b@),
{
    if a.len() != b.len() {
        proof {
            assert(a@.len() != b@.len());
        }
        return false;
    }
    let mut i: usize = 0;
    while i < a.len()
        invariant
            i <= a@.len(),
            a@.len() == b@.len(),
            forall|j: int| 0 <= j < i as int ==> a@[j] == b@[j],
        decreases a@.len() - i,
    {
        if a[i] != b[i] {
            return false;
        }
        i = i + 1;
    }
    proof {
        assert(a@ =~= b@);
    }
    true
}

} // verus!
