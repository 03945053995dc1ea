use vstd::prelude::*;
use vstd::utf8::encode_utf8;

verus! {

broadcast use vstd::layout::layout_of_primitives;

/// The architecture tag of a buffer: it selects the on-wire byte width of
/// every size-prefixed field in the buffer.
#[derive(Clone, Copy, PartialEq, Eq, Debug, Structural)]
pub enum Arch {
    /// Sizes are encoded in 4 bytes.
    A32,
    /// Sizes are encoded in 8 bytes.
    A64,
}

/// The single header byte that stands for an architecture.
pub open spec fn arch_tag(a: Arch) -> u8 {
    match a {
        Arch::A32 => 0,
        Arch::A64 => 1,
    }
}

/// How many bytes a size value occupies under an architecture.
pub open spec fn size_width(a: Arch) -> nat {
    match a {
        Arch::A32 => 4,
        Arch::A64 => 8,
    }
}

/// The architecture matching this platform's pointer width.
pub open spec fn spec_native_arch() -> Arch {
    if usize::BITS == 32 {
        Arch::A32
    } else {
        Arch::A64
    }
}

/// The architecture tag an encoder derives from the platform it runs on.
pub fn native_arch() -> (r: Arch)
    ensures
        r == spec_native_arch(),
{
    if core::mem::size_of::<usize>() == 4 {
        Arch::A32
    } else {
        Arch::A64
    }
}

impl Arch {
    /// The header byte for this architecture.
    pub fn tag(&self) -> (r: u8)
        ensures
            r == arch_tag(*self),
    {
        match self {
            Arch::A32 => 0,
            Arch::A64 => 1,
        }
    }

    /// The byte width of a size value under this architecture.
    pub fn width(&self) -> (r: usize)
        ensures
            r == size_width(*self),
    {
        match self {
            Arch::A32 => 4,
            Arch::A64 => 8,
        }
    }
}

/// Little-endian encoding of `v` into exactly `w` bytes; the value is taken
/// modulo `256^w`.
pub open spec fn le_bytes(v: nat, w: nat) -> Seq<u8>
    decreases w,
{
    if w == 0 {
        Seq::empty()
    } else {
        seq![(v % 256) as u8] + le_bytes(v / 256, (w - 1) as nat)
    }
}

/// The value of a little-endian byte sequence.
pub open spec fn le_value(b: Seq<u8>) -> nat
    decreases b.len(),
{
    if b.len() == 0 {
        0
    } else {
        (b[0] + 256 * le_value(b.drop_first())) as nat
    }
}

/// `256^w`, the number of values a `w`-byte field can hold.
pub open spec fn pow256(w: nat) -> nat
    decreases w,
{
    if w == 0 {
        1
    } else {
        256 * pow256((w - 1) as nat)
    }
}

pub broadcast proof fn lemma_le_bytes_len(v: nat, w: nat)
    ensures
        #[trigger] le_bytes(v, w).len() == w,
    decreases w,
{
    if w > 0 {
        lemma_le_bytes_len(v / 256, (w - 1) as nat);
    }
}

/// Decoding inverts encoding.
pub proof fn lemma_le_value_of_le_bytes(v: nat, w: nat)
    requires
        v < pow256(w),
    ensures
        le_value(le_bytes(v, w)) == v,
    decreases w,
{
    if w > 0 {
        lemma_le_bytes_len(v / 256, (w - 1) as nat);
        assert(le_bytes(v, w).drop_first() =~= le_bytes(v / 256, (w - 1) as nat));
        lemma_le_value_of_le_bytes(v / 256, (w - 1) as nat);
    }
}

/// The value of a `w`-byte field is below `256^w`.
pub proof fn lemma_le_value_bound(b: Seq<u8>)
    ensures
        le_value(b) < pow256(b.len()),
    decreases b.len(),
{
    if b.len() > 0 {
        lemma_le_value_bound(b.drop_first());
    }
}

/// Unfolded values of `pow256` at the widths the wire format uses.
pub proof fn lemma_pow256_widths()
    ensures
        pow256(1) == 0x100,
        pow256(2) == 0x10000,
        pow256(4) == 0x100000000,
        pow256(8) == 0x10000000000000000,
        pow256(16) == 0x100000000000000000000000000000000,
{
    reveal_with_fuel(pow256, 17);
}

/// The wire form of a size value: the count, little-endian, in the byte
/// width that the architecture selects.
pub open spec fn size_wire(n: nat, a: Arch) -> Seq<u8> {
    le_bytes(n, size_width(a))
}

/// Whether a count can be carried by a size field of the given architecture.
pub open spec fn size_fits(n: nat, a: Arch) -> bool {
    n < pow256(size_width(a))
}

/// True when no byte of the sequence is zero.
pub open spec fn nul_free(b: Seq<u8>) -> bool {
    forall|i: int| 0 <= i < b.len() ==> b[i] != 0
}

/// The wire form of a string: its UTF-8 bytes followed by a single zero
/// terminator.
pub open spec fn str_wire(s: Seq<char>) -> Seq<u8> {
    encode_utf8(s) + seq![0u8]
}

/// A string is encodable exactly when its UTF-8 bytes contain no zero byte,
/// since a zero would be read back as the terminator.
pub open spec fn str_ok(s: Seq<char>) -> bool {
    nul_free(encode_utf8(s))
}

/// Index of the first zero byte of the sequence, or `-1` if there is none.
pub open spec fn first_zero(b: Seq<u8>) -> int
    decreases b.len(),
{
    if b.len() == 0 {
        -1
    } else if b[0] == 0 {
        0
    } else {
        let r = first_zero(b.drop_first());
        if r < 0 {
            -1
        } else {
            r + 1
        }
    }
}

/// What `first_zero` means, position by position.
pub proof fn lemma_first_zero(b: Seq<u8>)
    ensures
        first_zero(b) == -1 <==> nul_free(b),
        first_zero(b) >= 0 ==> first_zero(b) < b.len() && b[first_zero(b)] == 0 && nul_free(
            b.take(first_zero(b)),
        ),
    decreases b.len(),
{
    if b.len() > 0 && b[0] != 0 {
        lemma_first_zero(b.drop_first());
        let r = first_zero(b.drop_first());
        if r == -1 {
            assert forall|i: int| 0 <= i < b.len() implies b[i] != 0 by {
                if i >= 1 {
                    assert(b[i] == b.drop_first()[i - 1]);
                }
            }
        } else {
            assert(b[r + 1] == b.drop_first()[r]);
            assert forall|i: int| 0 <= i < r + 1 implies #[trigger] b.take(r + 1)[i] != 0 by {
                if i >= 1 {
                    assert(b.take(r + 1)[i] == b.drop_first().take(r)[i - 1]);
                }
            }
        }
    }
}

/// A single byte is its own little-endian value.
pub proof fn lemma_le_value_singleton(t: u8)
    ensures
        le_value(seq![t]) == t,
        le_bytes(t as nat, 1) == seq![t],
{
    assert(seq![t].len() == 1);
    assert(seq![t][0] == t);
    assert(seq![t].drop_first() =~= Seq::<u8>::empty());
    assert(le_value(seq![t].drop_first()) == 0);
    assert(le_bytes(t as nat, 1) == seq![((t as nat) % 256) as u8] + le_bytes((t as nat) / 256, 0));
    assert(le_bytes((t as nat) / 256, 0) =~= Seq::<u8>::empty());
    assert(le_bytes(t as nat, 1) =~= seq![t]);
}

/// `pow256` grows with the width.
pub proof fn lemma_pow256_mono(a: nat, b: nat)
    requires
        a <= b,
    ensures
        pow256(a) <= pow256(b),
    decreases b,
{
    if a < b && b > 0 {
        lemma_pow256_mono(a, (b - 1) as nat);
    }
}

/// Appends the little-endian encoding of `v` in exactly `w` bytes.
pub fn le_encode(v: u128, w: usize, out: &mut Vec<u8>)
    ensures
        final(out)@ == old(out)@ + le_bytes(v as nat, w as nat),
{
    let ghost base = out@;
    let mut x: u128 = v;
    let mut i: usize = 0;
    proof {
        assert(le_bytes(v as nat, w as nat) =~= Seq::empty() + le_bytes(x as nat, (w - i) as nat));
    }
    while i < w
        invariant
            i <= w,
            out@ == base + out@.skip(base.len() as int),
            le_bytes(v as nat, w as nat) == out@.skip(base.len() as int) + le_bytes(
                x as nat,
                (w - i) as nat,
            ),
        decreases w - i,
    {
        let ghost acc = out@.skip(base.len() as int);
        let b: u8 = (x % 256) as u8;
        out.push(b);
        proof {
            assert(out@.skip(base.len() as int) =~= acc + seq![b]);
            assert(le_bytes(x as nat, (w - i) as nat) == seq![b] + le_bytes(
                (x / 256) as nat,
                (w - i - 1) as nat,
            ));
            assert(acc + (seq![b] + le_bytes((x / 256) as nat, (w - i - 1) as nat)) =~= (acc
                + seq![b]) + le_bytes((x / 256) as nat, (w - i - 1) as nat));
        }
        x = x / 256;
        i = i + 1;
    }
    proof {
        assert(le_bytes(x as nat, 0) =~= Seq::<u8>::empty());
        assert(out@ =~= base + le_bytes(v as nat, w as nat));
    }
}

/// The value of a little-endian byte sequence of at most 16 bytes.
pub fn le_decode(b: &Vec<u8>) -> (r: u128)
    requires
        b@.len() <= 16,
    ensures
        r as nat == le_value(b@),
{
    let mut r: u128 = 0;
    let mut i: usize = b.len();
    proof {
        assert(b@.skip(b@.len() as int) =~= Seq::<u8>::empty());
    }
    while i > 0
        invariant
            i <= b@.len() <= 16,
            r as nat == le_value(b@.skip(i as int)),
        decreases i,
    {
        proof {
            lemma_le_value_bound(b@.skip(i as int));
            lemma_pow256_mono(b@.skip(i as int).len() as nat, 15);
            lemma_pow256_widths();
            assert(b@.skip(i - 1).drop_first() =~= b@.skip(i as int));
        }
        i = i - 1;
        r = r * 256 + (b[i] as u128);
    }
    proof {
        assert(b@.skip(0) =~= b@);
    }
    r
}

/// A zero-free prefix followed by a zero byte fixes `first_zero`.
pub proof fn lemma_first_zero_at(b: Seq<u8>, k: int)
    requires
        0 <= k < b.len(),
        b[k] == 0,
        nul_free(b.take(k)),
    ensures
        first_zero(b) == k,
    decreases b.len(),
{
    if k > 0 {
        assert(b[0] == b.take(k)[0]);
        assert(b.drop_first()[k - 1] == 0);
        assert(b.drop_first().take(k - 1) =~= b.take(k).drop_first());
        lemma_first_zero_at(b.drop_first(), k - 1);
    }
}

} // verus!
