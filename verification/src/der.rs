//! Just enough DER to move between a full encoding and its contents: the
//! trust store keeps names and keys without their outer SEQUENCE header,
//! while a parsed certificate hands them out with it.
use vstd::prelude::*;

verus! {

/// The big-endian bytes of `n` without leading zero bytes (empty for 0).
pub open spec fn be_bytes(n: nat) -> Seq<u8>
    decreases n,
{
    if n == 0 {
        seq![]
    } else {
        be_bytes(n / 256).push((n % 256) as u8)
    }
}

/// The number that the big-endian bytes `b` write.
pub open spec fn be_value(b: Seq<u8>) -> nat
    decreases b.len(),
{
    if b.len() == 0 {
        0
    } else {
        (be_value(b.drop_last()) * 256 + b.last()) as nat
    }
}

/// The DER encoding of a length: one byte below 128, otherwise `0x80`
/// plus the count of the big-endian bytes that follow, without leading
/// zeros.
pub open spec fn der_length(n: nat) -> Seq<u8> {
    if n < 128 {
        seq![n as u8]
    } else {
        seq![(0x80 + be_bytes(n).len()) as u8] + be_bytes(n)
    }
}

/// A DER SEQUENCE (tag `0x30`) holding `content`.
pub open spec fn der_sequence(content: Seq<u8>) -> Seq<u8> {
    seq![0x30u8] + der_length(content.len()) + content
}

/// The contents of a single DER element that fills all of `d`: one tag
/// byte, then a length in its shortest (DER) form of at most 8 bytes, then
/// exactly that many bytes. `None` for anything else.
pub open spec fn der_contents(d: Seq<u8>) -> Option<Seq<u8>> {
    if d.len() < 2 {
        None
    } else if d[1] < 128 {
        if d.len() == 2 + d[1] {
            Some(d.skip(2))
        } else {
            None
        }
    } else {
        let k = d[1] - 128;
        let v = be_value(d.subrange(2, 2 + k));
        if 1 <= k <= 8 && d.len() >= 2 + k && d[2] != 0 && v >= 128 && d.len() == 2 + k + v {
            Some(d.skip(2 + k))
        } else {
            None
        }
    }
}

proof fn lemma_be_roundtrip(n: nat)
    ensures
        be_value(be_bytes(n)) == n,
        n > 0 ==> be_bytes(n).len() > 0 && be_bytes(n)[0] != 0,
        n < 256 ==> be_bytes(n).len() <= 1,
    decreases n,
{
    if n > 0 {
        lemma_be_roundtrip(n / 256);
        let p = be_bytes(n / 256);
        let s = p.push((n % 256) as u8);
        assert(s.drop_last() =~= p);
        assert(n == (n / 256) * 256 + n % 256) by (nonlinear_arith);
        if n / 256 == 0 {
            assert(p.len() == 0);
            assert(s[0] == (n % 256) as u8);
        } else {
            assert(s[0] == p[0]);
        }
    }
}

proof fn lemma_be_len(n: nat, k: nat)
    requires
        n < pow256(k),
    ensures
        be_bytes(n).len() <= k,
    decreases n,
{
    if n > 0 {
        assert(k > 0);
        assert(n / 256 < pow256((k - 1) as nat)) by {
            assert(pow256(k) == 256 * pow256((k - 1) as nat));
            assert(n < 256 * pow256((k - 1) as nat));
            lemma_div_bound(n, pow256((k - 1) as nat));
        }
        lemma_be_len(n / 256, (k - 1) as nat);
    }
}

proof fn lemma_div_bound(n: nat, p: nat)
    requires
        n < 256 * p,
    ensures
        n / 256 < p,
{
    assert(n / 256 < p) by (nonlinear_arith)
        requires
            n < 256 * p,
    ;
}

pub open spec fn pow256(k: nat) -> nat
    decreases k,
{
    if k == 0 {
        1
    } else {
        256 * pow256((k - 1) as nat)
    }
}

/// Big-endian bytes without a leading zero are the shortest writing of
/// their value.
proof fn lemma_be_canonical(b: Seq<u8>)
    requires
        b.len() == 0 || b[0] != 0,
    ensures
        be_bytes(be_value(b)) == b,
    decreases b.len(),
{
    if b.len() > 0 {
        let p = b.drop_last();
        if p.len() > 0 {
            assert(p[0] == b[0]);
        }
        lemma_be_canonical(p);
        lemma_be_value_pos(b);
        let v = be_value(b);
        assert(v / 256 == be_value(p) && v % 256 == b.last()) by (nonlinear_arith)
            requires
                v == be_value(p) * 256 + b.last(),
                0 <= b.last() < 256,
        ;
        assert(be_bytes(v) =~= p.push(b.last()));
        assert(b =~= p.push(b.last()));
    }
}

proof fn lemma_be_value_pos(b: Seq<u8>)
    requires
        b.len() > 0,
        b[0] != 0,
    ensures
        be_value(b) > 0,
    decreases b.len(),
{
    if b.len() > 1 {
        let p = b.drop_last();
        assert(p[0] == b[0]);
        lemma_be_value_pos(p);
    }
}

/// The contents of a SEQUENCE built by `der_sequence` come back out.
pub proof fn law_der_sequence_contents_round_trip(content: Seq<u8>)
    requires
        content.len() <= u64::MAX,
    ensures
        der_contents(der_sequence(content)) == Some(content),
{
    let n = content.len();
    let d = der_sequence(content);
    if n < 128 {
        assert(d.skip(2) =~= content);
    } else {
        let b = be_bytes(n);
        lemma_be_roundtrip(n);
        lemma_pow256_8();
        lemma_be_len(n, 8);
        let k = b.len() as int;
        assert(d[1] == 0x80 + k);
        assert(d.subrange(2, 2 + k) =~= b);
        assert(d[2] == b[0]);
        assert(d.skip(2 + k) =~= content);
    }
}

/// A SEQUENCE whose contents read back is exactly the one `der_sequence`
/// builds from those contents: the encoding is canonical.
pub proof fn law_der_contents_canonical(d: Seq<u8>, content: Seq<u8>)
    requires
        der_contents(d) == Some(content),
        d[0] == 0x30,
    ensures
        der_sequence(content) == d,
{
    if d[1] < 128 {
        assert(der_sequence(content) =~= d);
    } else {
        let k = (d[1] - 128) as int;
        let b = d.subrange(2, 2 + k);
        lemma_be_canonical(b);
        assert(content.len() == be_value(b));
        assert(be_bytes(content.len()) == b);
        assert(der_sequence(content) =~= d);
    }
}

fn push_be(out: &mut Vec<u8>, n: u64)
    ensures
        final(out)@ == old(out)@ + be_bytes(n as nat),
    decreases n,
{
    if n > 0 {
        push_be(out, n / 256);
        out.push((n % 256) as u8);
        assert(be_bytes(n as nat) == be_bytes((n / 256) as nat).push((n % 256) as u8));
    }
}

/// Wraps `content` in a DER SEQUENCE header.
pub fn wrap_der_sequence(content: &[u8]) -> (res: Vec<u8>)
    ensures
        res@ == der_sequence(content@),
{
    let n = content.len() as u64;
    let mut out: Vec<u8> = Vec::new();
    out.push(0x30);
    if n < 128 {
        out.push(n as u8);
    } else {
        let mut len_bytes: Vec<u8> = Vec::new();
        push_be(&mut len_bytes, n);
        proof {
            lemma_be_roundtrip(n as nat);
            lemma_pow256_8();
            lemma_be_len(n as nat, 8);
        }
        out.push(0x80 + len_bytes.len() as u8);
        let mut j: usize = 0;
        let ghost head = out@;
        while j < len_bytes.len()
            invariant
                0 <= j <= len_bytes@.len(),
                out@ == head + len_bytes@.take(j as int),
            decreases len_bytes@.len() - j,
        {
            out.push(len_bytes[j]);
            assert(len_bytes@.take(j + 1) =~= len_bytes@.take(j as int).push(len_bytes@[j as int]));
            j += 1;
        }
        assert(len_bytes@.take(j as int) =~= len_bytes@);
    }
    let ghost head = out@;
    assert(head =~= seq![0x30u8] + der_length(content@.len()));
    let mut i: usize = 0;
    while i < content.len()
        invariant
            0 <= i <= content@.len(),
            out@ == head + content@.take(i as int),
        decreases content@.len() - i,
    {
        out.push(content[i]);
        assert(content@.take(i + 1) =~= content@.take(i as int).push(content@[i as int]));
        i += 1;
    }
    assert(content@.take(i as int) =~= content@);
    out
}

/// The contents of the single DER element `der` (see [`der_contents`]).
pub fn der_value(der: &[u8]) -> (res: Option<Vec<u8>>)
    ensures
        match res {
            Some(v) => der_contents(der@) == Some(v@),
            None => der_contents(der@) is None,
        },
{
    let n = der.len();
    if n < 2 {
        return None;
    }
    let first = der[1];
    let start: usize;
    if first < 128 {
        if n - 2 != first as usize {
            return None;
        }
        start = 2;
    } else {
        let k = (first - 128) as usize;
        if k < 1 || k > 8 || n - 2 < k || der[2] == 0 {
            return None;
        }
        let mut v: u64 = 0;
        let mut j: usize = 0;
        while j < k
            invariant
                1 <= k <= 8,
                2 + k <= n == der@.len(),
                0 <= j <= k,
                v as nat == be_value(der@.subrange(2, 2 + j)),
                v < pow256(j as nat),
            decreases k - j,
        {
            proof {
                assert(der@.subrange(2, 2 + j + 1).drop_last() =~= der@.subrange(2, 2 + j));
                assert(v * 256 + der@[2 + j] < pow256((j + 1) as nat)) by (nonlinear_arith)
                    requires
                        v < pow256(j as nat),
                        pow256((j + 1) as nat) == 256 * pow256(j as nat),
                        der@[2 + j] < 256,
                ;
                lemma_pow256_8();
                lemma_pow256_mono((j + 1) as nat, 8);
            }
            v = v * 256 + der[2 + j] as u64;
            j += 1;
        }
        if v < 128 || (n - 2 - k) as u64 != v {
            return None;
        }
        start = 2 + k;
    }
    let mut out: Vec<u8> = Vec::new();
    let mut i = start;
    while i < n
        invariant
            2 <= start <= i <= n == der@.len(),
            out@ == der@.subrange(start as int, i as int),
        decreases n - i,
    {
        out.push(der[i]);
        assert(der@.subrange(start as int, i + 1) =~= der@.subrange(start as int, i as int).push(
            der@[i as int],
        ));
        i += 1;
    }
    assert(der@.subrange(start as int, n as int) =~= der@.skip(start as int));
    Some(out)
}

proof fn lemma_pow256_8()
    ensures
        pow256(8) == 0x1_0000_0000_0000_0000,
{
    reveal_with_fuel(pow256, 9);
}

proof fn lemma_pow256_mono(a: nat, b: nat)
    requires
        a <= b,
    ensures
        pow256(a) <= pow256(b),
    decreases b - a,
{
    if a < b {
        lemma_pow256_mono(a, (b - 1) as nat);
    }
}

} // verus!
