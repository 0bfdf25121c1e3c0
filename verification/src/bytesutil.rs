use vstd::prelude::*;

verus! {

/// The value of a byte sequence read as a big-endian number.
pub open spec fn be_nat(s: Seq<u8>) -> nat
    decreases s.len(),
{
    if s.len() == 0 {
        0
    } else {
        be_nat(s.drop_last()) * 256 + s.last() as nat
    }
}

/// The `len`-byte big-endian encoding of `n` (low bytes of `n` if it is too wide).
pub open spec fn nat_to_be_bytes(n: nat, len: nat) -> Seq<u8>
    decreases len,
{
    if len == 0 {
        Seq::empty()
    } else {
        nat_to_be_bytes(n / 256, (len - 1) as nat).push((n % 256) as u8)
    }
}

/// Powers of 256: the count of byte strings of a given length.
pub open spec fn pow256(len: nat) -> nat
    decreases len,
{
    if len == 0 {
        1
    } else {
        256 * pow256((len - 1) as nat)
    }
}

/// A big-endian encoding has as many bytes as asked for.
pub proof fn lemma_nat_to_be_bytes_len(n: nat, len: nat)
    ensures
        nat_to_be_bytes(n, len).len() == len,
    decreases len,
{
    if len > 0 {
        lemma_nat_to_be_bytes_len(n / 256, (len - 1) as nat);
    }
}

/// Reading back a big-endian encoding returns the encoded value.
pub proof fn lemma_be_nat_of_nat_to_be_bytes(n: nat, len: nat)
    requires
        n < pow256(len),
    ensures
        be_nat(nat_to_be_bytes(n, len)) == n,
    decreases len,
{
    if len == 0 {
    } else {
        let prefix = nat_to_be_bytes(n / 256, (len - 1) as nat);
        let whole = nat_to_be_bytes(n, len);
        assert(n / 256 < pow256((len - 1) as nat)) by (nonlinear_arith)
            requires
                n < pow256(len),
                pow256(len) == 256 * pow256((len - 1) as nat),
        ;
        lemma_be_nat_of_nat_to_be_bytes(n / 256, (len - 1) as nat);
        assert(whole.drop_last() =~= prefix);
        assert(be_nat(whole) == be_nat(prefix) * 256 + (n % 256));
        assert(n == (n / 256) * 256 + n % 256) by (nonlinear_arith);
    }
}

/// The four-byte big-endian encoding of an integer, written out.
pub open spec fn be32_bytes(n: nat) -> Seq<u8> {
    seq![
        ((n / 0x100_0000) % 0x100) as u8,
        ((n / 0x1_0000) % 0x100) as u8,
        ((n / 0x100) % 0x100) as u8,
        (n % 0x100) as u8,
    ]
}

/// The value of a four-byte big-endian field.
pub open spec fn be_u32_of(s: Seq<u8>) -> nat {
    s[0] as nat * 0x100_0000 + s[1] as nat * 0x1_0000 + s[2] as nat * 0x100 + s[3] as nat
}

/// Reads a four-byte big-endian integer.
pub fn read_be_u32(b0: u8, b1: u8, b2: u8, b3: u8) -> (r: u32)
    ensures
        r == b0 * 0x100_0000 + b1 * 0x1_0000 + b2 * 0x100 + b3,
{
    (b0 as u32) * 0x100_0000 + (b1 as u32) * 0x1_0000 + (b2 as u32) * 0x100 + (b3 as u32)
}

/// Writes an integer as four big-endian bytes.
pub fn write_be_u32(x: u32) -> (r: Vec<u8>)
    ensures
        r@.len() == 4,
        r@[0] == x / 0x100_0000,
        r@[1] == (x / 0x1_0000) % 0x100,
        r@[2] == (x / 0x100) % 0x100,
        r@[3] == x % 0x100,
        be_u32_of(r@) == x,
        r@ == be32_bytes(x as nat),
{
    let b0 = (x / 0x100_0000) as u8;
    let b1 = ((x / 0x1_0000) % 0x100) as u8;
    let b2 = ((x / 0x100) % 0x100) as u8;
    let b3 = (x % 0x100) as u8;
    let mut r: Vec<u8> = Vec::new();
    r.push(b0);
    r.push(b1);
    r.push(b2);
    r.push(b3);
    proof {
        lemma_be_u32_split(x as nat);
        assert(r@ =~= be32_bytes(x as nat));
    }
    r
}

/// Copies the bytes of `b` between two offsets into a fresh vector.
pub fn copy_range(b: &[u8], start: usize, end: usize) -> (r: Vec<u8>)
    requires
        start <= end <= b@.len(),
    ensures
        r@ == b@.subrange(start as int, end as int),
{
    let mut r: Vec<u8> = Vec::new();
    let mut i: usize = start;
    proof {
        assert(r@ =~= b@.subrange(start as int, start as int));
    }
    while i < end
        invariant
            start <= i <= end <= b@.len(),
            r@ == b@.subrange(start as int, i as int),
        decreases end - i,
    {
        r.push(b[i]);
        i = i + 1;
        proof {
            assert(r@ =~= b@.subrange(start as int, i as int));
        }
    }
    r
}

/// Whether two byte strings hold the same bytes.
pub fn bytes_eq(a: &[u8], b: &[u8]) -> (r: bool)
    ensures
        r == (a@ == b@),
{
    if a.len() != b.len() {
        return false;
    }
    let mut i: usize = 0;
    while i < a.len()
        invariant
            i <= a@.len(),
            a@.len() == b@.len(),
            forall|j: int| 0 <= j < i ==> a@[j] == b@[j],
        decreases a@.len() - i,
    {
        if a[i] != b[i] {
            return false;
        }
        i = i + 1;
    }
    proof {
        assert(a@ =~= b@);
    }
    true
}

/// An equal copy of a byte vector.
pub fn clone_bytes(v: &Vec<u8>) -> (r: Vec<u8>)
    ensures
        r@ == v@,
{
    let r = copy_range(v.as_slice(), 0, v.len());
    proof {
        assert(v@.subrange(0, v@.len() as int) =~= v@);
    }
    r
}

/// Appends the bytes of a slice to a vector.
pub fn append_bytes(dst: &mut Vec<u8>, src: &[u8])
    ensures
        final(dst)@ == old(dst)@ + src@,
{
    let mut i: usize = 0;
    proof {
        assert(dst@ =~= old(dst)@ + src@.subrange(0, 0));
    }
    while i < src.len()
        invariant
            i <= src@.len(),
            dst@ == old(dst)@ + src@.subrange(0, i as int),
        decreases src@.len() - i,
    {
        dst.push(src[i]);
        i = i + 1;
        proof {
            assert(dst@ =~= old(dst)@ + src@.subrange(0, i as int));
        }
    }
    proof {
        assert(dst@ =~= old(dst)@ + src@);
    }
}

/// A four-byte big-endian field carries exactly the integer it was written from.
pub proof fn lemma_be_u32_split(x: nat)
    requires
        x < 0x1_0000_0000,
    ensures
        (x / 0x100_0000) * 0x100_0000 + ((x / 0x1_0000) % 0x100) * 0x1_0000 + ((x / 0x100)
            % 0x100) * 0x100 + x % 0x100 == x,
{
    assert((x / 0x100_0000) * 0x100_0000 + ((x / 0x1_0000) % 0x100) * 0x1_0000 + ((x / 0x100)
        % 0x100) * 0x100 + x % 0x100 == x) by (nonlinear_arith)
        requires
            x < 0x1_0000_0000,
    ;
}

} // verus!
