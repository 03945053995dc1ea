use vstd::prelude::*;

use crate::binary::spec_deserialize;
use crate::deserialize::{
    spec_init, spec_read_field, spec_read_fields, spec_read_le, spec_read_size, spec_read_str,
    spec_read_struct, spec_read_structs, spec_read_vec,
};
use crate::error::Error;
use crate::modbuild::{
    spec_modbuild_magic, BuildType, ExcludePair, ExcludePairView, ExcludeType, ModBuild,
    ModBuildView,
    MODBUILD_VERSION,
};
use crate::types::{seq_wire, seq_wire_ok, Deserializable, Serializable, SpecField, SpecValue};
use crate::wire::{
    arch_tag, le_bytes, le_value, lemma_first_zero_at, lemma_le_bytes_len,
    lemma_le_value_of_le_bytes, lemma_le_value_singleton, lemma_pow256_widths, pow256, size_fits,
    size_wire, size_width, str_ok, str_wire, Arch,
};
use vstd::utf8::{encode_utf8, encode_utf8_decode_utf8, encode_utf8_valid_utf8};

verus! {

/// A fixed-width field reads back the value it was written from, and
/// consumes exactly its own bytes.
pub proof fn lemma_read_le_of_wire(v: nat, w: nat, rest: Seq<u8>)
    requires
        v < pow256(w),
    ensures
        spec_read_le(le_bytes(v, w) + rest, w) == Ok::<(nat, Seq<u8>), Error>((v, rest)),
{
    lemma_le_bytes_len(v, w);
    let b = le_bytes(v, w) + rest;
    assert(b.take(w as int) =~= le_bytes(v, w));
    assert(b.skip(w as int) =~= rest);
    lemma_le_value_of_le_bytes(v, w);
}

/// A string whose bytes are free of zero reads back exactly, and the read
/// stops at its terminator.
pub proof fn lemma_read_str_of_wire(s: Seq<char>, rest: Seq<u8>)
    requires
        str_ok(s),
    ensures
        spec_read_str(str_wire(s) + rest) == Ok::<(Seq<char>, Seq<u8>), Error>((s, rest)),
{
    let enc = encode_utf8(s);
    let b = str_wire(s) + rest;
    let k = enc.len() as int;
    assert(b[k] == 0);
    assert(b.take(k) =~= enc);
    lemma_first_zero_at(b, k);
    encode_utf8_valid_utf8(s);
    encode_utf8_decode_utf8(s);
    assert(b.skip(k + 1) =~= rest);
}

/// A size written under an architecture reads back under the same
/// architecture byte, consuming exactly the width that the tag selects:
/// four bytes under tag 0, eight under tag 1, whatever the platform that
/// reads it.
pub proof fn lemma_read_size_of_wire(n: nat, a: Arch, rest: Seq<u8>)
    requires
        size_fits(n, a),
        n <= usize::MAX as nat,
    ensures
        size_wire(n, a).len() == size_width(a),
        spec_read_size(size_wire(n, a) + rest, Some(arch_tag(a))) == Ok::<(nat, Seq<u8>), Error>(
            (n, rest),
        ),
{
    lemma_le_bytes_len(n, size_width(a));
    lemma_read_le_of_wire(n, size_width(a), rest);
}

/// A buffer that begins with the magic tag, the expected version and an
/// architecture byte passes the header step, yielding that byte and the
/// bytes after it.
pub proof fn lemma_init_of_wire(magic: Seq<u8>, version: u16, t: u8, rest: Seq<u8>)
    ensures
        spec_init(magic + le_bytes(version as nat, 2) + seq![t] + rest, magic, version) == Ok::<
            (Seq<u8>, u8),
            Error,
        >((rest, t)),
{
    let b = magic + le_bytes(version as nat, 2) + seq![t] + rest;
    lemma_le_bytes_len(version as nat, 2);
    assert(b.take(magic.len() as int) =~= magic);
    let b1 = b.skip(magic.len() as int);
    assert(b1 =~= le_bytes(version as nat, 2) + (seq![t] + rest));
    lemma_pow256_widths();
    lemma_read_le_of_wire(version as nat, 2, seq![t] + rest);
    lemma_le_value_singleton(t);
    assert(seq![t] + rest =~= le_bytes(t as nat, 1) + rest);
    lemma_read_le_of_wire(t as nat, 1, rest);
}

/// An exclusion filter record reads back exactly through the schema-driven
/// reader, under any session architecture: its fields carry no size values.
pub proof fn lemma_read_excludepair_of_wire(p: ExcludePair, a: Arch, ab: Option<u8>, rest: Seq<u8>)
    requires
        p.wire_ok(a),
    ensures
        spec_read_struct::<ExcludePair>(p.wire(a) + rest, ab) == Ok::<
            (ExcludePairView, Seq<u8>),
            Error,
        >((p@, rest)),
{
    reveal_with_fuel(spec_read_fields, 3);
    reveal_with_fuel(spec_read_field, 2);
    let b = p.wire(a) + rest;
    let fs = ExcludePair::spec_structure();
    let tag = p.kind.spec_tag();
    let tail = str_wire(p.value@) + rest;
    lemma_le_value_singleton(tag);
    lemma_pow256_widths();
    assert(b =~= le_bytes(tag as nat, 1) + tail);
    lemma_read_le_of_wire(tag as nat, 1, tail);
    lemma_read_str_of_wire(p.value@, rest);
    assert(fs[0] == SpecField::U8);
    assert(fs.drop_first() =~= seq![SpecField::String]);
    assert(fs.drop_first()[0] == SpecField::String);
    assert(fs.drop_first().drop_first() =~= Seq::<SpecField>::empty());
    let vs = seq![SpecValue::U8(tag), SpecValue::Str(p.value@)];
    assert(spec_read_fields(rest, ab, Seq::<SpecField>::empty()) == Ok::<
        (Seq<SpecValue>, Seq<u8>),
        Error,
    >((Seq::empty(), rest)));
    assert(seq![SpecValue::Str(p.value@)] + Seq::<SpecValue>::empty() =~= seq![
        SpecValue::Str(p.value@),
    ]);
    assert(spec_read_fields(tail, ab, fs.drop_first()) == Ok::<(Seq<SpecValue>, Seq<u8>), Error>(
        (seq![SpecValue::Str(p.value@)], rest),
    ));
    assert(seq![SpecValue::U8(tag)] + seq![SpecValue::Str(p.value@)] =~= vs);
    assert(spec_read_fields(b, ab, fs) == Ok::<(Seq<SpecValue>, Seq<u8>), Error>((vs, rest)));
    assert(ExcludeType::spec_from(tag) == Ok::<ExcludeType, Error>(p.kind));
    assert(ExcludePair::spec_construct(vs) == Ok::<ExcludePairView, Error>(p@));
}

/// A sequence of exclusion filters reads back element by element, in order.
pub proof fn lemma_read_excludepairs_of_wire(
    s: Seq<ExcludePair>,
    a: Arch,
    ab: Option<u8>,
    rest: Seq<u8>,
)
    requires
        seq_wire_ok(s, a),
    ensures
        spec_read_structs::<ExcludePair>(seq_wire(s, a) + rest, ab, s.len()) == Ok::<
            (Seq<ExcludePairView>, Seq<u8>),
            Error,
        >((s.map_values(|p: ExcludePair| p@), rest)),
    decreases s.len(),
{
    if s.len() == 0 {
        assert(seq_wire(s, a) + rest =~= rest);
        assert(s.map_values(|p: ExcludePair| p@) =~= Seq::<ExcludePairView>::empty());
    } else {
        let tail = seq_wire(s.drop_first(), a) + rest;
        assert(seq_wire(s, a) + rest =~= s[0].wire(a) + tail);
        lemma_read_excludepair_of_wire(s[0], a, ab, tail);
        assert(seq_wire_ok(s.drop_first(), a)) by {
            assert(forall|i: int|
                0 <= i < s.drop_first().len() ==> #[trigger] s.drop_first()[i] == s[i + 1]);
        }
        lemma_read_excludepairs_of_wire(s.drop_first(), a, ab, rest);
        assert(seq![s[0]@] + s.drop_first().map_values(|p: ExcludePair| p@) =~= s.map_values(
            |p: ExcludePair| p@,
        ));
    }
}

/// A length-prefixed sequence of exclusion filters reads back with exactly
/// its original count and order.
pub proof fn lemma_read_exclude_vec_of_wire(x: Vec<ExcludePair>, a: Arch, rest: Seq<u8>)
    requires
        x.wire_ok(a),
    ensures
        spec_read_vec::<ExcludePair>(x.wire(a) + rest, Some(arch_tag(a))) == Ok::<
            (Seq<ExcludePairView>, Seq<u8>),
            Error,
        >((x@.map_values(|p: ExcludePair| p@), rest)),
{
    vstd::std_specs::vec::axiom_spec_len(&x);
    let tail = seq_wire(x@, a) + rest;
    assert(x.wire(a) + rest =~= size_wire(x@.len(), a) + tail);
    lemma_read_size_of_wire(x@.len(), a, tail);
    lemma_read_excludepairs_of_wire(x@, a, Some(arch_tag(a)), rest);
}

/// Sequence length fidelity: a sequence encoded with its count and
/// elements decodes to a list of exactly that count, elements in their
/// original order.
pub proof fn lemma_sequence_length_fidelity(x: Vec<ExcludePair>, a: Arch)
    requires
        x.wire_ok(a),
    ensures
        spec_read_vec::<ExcludePair>(x.wire(a), Some(arch_tag(a))) is Ok,
        spec_read_vec::<ExcludePair>(x.wire(a), Some(arch_tag(a)))->Ok_0.0.len() == x@.len(),
        forall|i: int|
            0 <= i < x@.len() ==> spec_read_vec::<ExcludePair>(
                x.wire(a),
                Some(arch_tag(a)),
            )->Ok_0.0[i] == x@[i]@,
{
    lemma_read_exclude_vec_of_wire(x, a, Seq::<u8>::empty());
    assert(x.wire(a) =~= x.wire(a) + Seq::<u8>::empty());
}

/// Round trip: decoding the bytes a record was encoded to yields that
/// record again, whichever architecture the buffer was built with. A record
/// is carried faithfully when its strings are free of zero bytes, its
/// filter count fits the size width, and it holds a custom command exactly
/// when its build type says so: the wire stores no presence flag for the
/// command, the build type's discriminant decides.
pub proof fn lemma_round_trip(m: ModBuild, a: Arch)
    requires
        m.wire_ok(a),
        m.build is Cmd <==> m.cmd is Some,
    ensures
        spec_deserialize(m.wire(a)) == Ok::<ModBuildView, Error>(m@),
{
    let t = arch_tag(a);
    let r8 = m.exclude.wire(a);
    let r7 = m.out.wire(a) + r8;
    let r6 = m.cmd.wire(a) + r7;
    let r5 = m.build.wire(a) + r6;
    let r4 = m.branch.wire(a) + r5;
    let r3 = m.git.wire(a) + r4;
    let r2 = m.name.wire(a) + r3;
    let r1 = m.id.wire(a) + r2;
    assert(m.wire(a) =~= spec_modbuild_magic() + le_bytes(MODBUILD_VERSION as nat, 2) + seq![t]
        + r1);
    lemma_init_of_wire(spec_modbuild_magic(), MODBUILD_VERSION, t, r1);
    lemma_read_str_of_wire(m.id@, r2);
    lemma_read_str_of_wire(m.name@, r3);
    lemma_read_str_of_wire(m.git@, r4);
    lemma_read_str_of_wire(m.branch@, r5);
    let tag = m.build.spec_tag();
    lemma_le_value_singleton(tag);
    assert(r5 =~= le_bytes(tag as nat, 1) + r6);
    lemma_pow256_widths();
    lemma_read_le_of_wire(tag as nat, 1, r6);
    assert(BuildType::spec_from(tag) == Ok::<BuildType, Error>(m.build));
    match m.cmd {
        Option::Some(c) => {
            assert(m.cmd.wire(a) == c.wire(a));
            lemma_read_str_of_wire(c@, r7);
        },
        Option::None => {
            assert(r6 =~= r7);
        },
    }
    lemma_read_str_of_wire(m.out@, r8);
    lemma_read_exclude_vec_of_wire(m.exclude, a, Seq::<u8>::empty());
    assert(r8 =~= m.exclude.wire(a) + Seq::<u8>::empty());
}

/// Header rejection: a buffer that does not begin with the exact magic tag
/// fails `InvalidHeader`, whatever follows.
pub proof fn lemma_header_rejection(b: Seq<u8>)
    requires
        !(b.len() >= spec_modbuild_magic().len() && b.take(spec_modbuild_magic().len() as int)
            == spec_modbuild_magic()),
    ensures
        spec_deserialize(b) == Err::<ModBuildView, Error>(Error::InvalidHeader),
{
}

/// Version rejection: a buffer with a valid magic tag but a version other
/// than the expected one fails `VersionMismatch`, whatever follows.
pub proof fn lemma_version_rejection(b: Seq<u8>)
    requires
        b.len() >= spec_modbuild_magic().len() + 2,
        b.take(spec_modbuild_magic().len() as int) == spec_modbuild_magic(),
        le_value(b.skip(spec_modbuild_magic().len() as int).take(2)) != MODBUILD_VERSION,
    ensures
        spec_deserialize(b) == Err::<ModBuildView, Error>(Error::VersionMismatch),
{
}

/// The errors that cutting a well-formed buffer short can surface once the
/// magic tag is intact.
pub open spec fn trunc_err(e: Error) -> bool {
    e == Error::TruncatedBuffer || e == Error::UnterminatedString
}

/// Cutting a fixed-width field short fails `TruncatedBuffer`; keeping it
/// whole reads the original value.
pub proof fn lemma_read_le_truncated(v: nat, w: nat, rest: Seq<u8>, k: int)
    requires
        v < pow256(w),
        0 <= k <= w + rest.len(),
    ensures
        k < w ==> spec_read_le((le_bytes(v, w) + rest).take(k), w) == Err::<(nat, Seq<u8>), Error>(
            Error::TruncatedBuffer,
        ),
        k >= w ==> spec_read_le((le_bytes(v, w) + rest).take(k), w) == Ok::<(nat, Seq<u8>), Error>(
            (v, rest.take(k - w)),
        ),
{
    lemma_le_bytes_len(v, w);
    let tb = (le_bytes(v, w) + rest).take(k);
    if k >= w {
        assert(tb.take(w as int) =~= le_bytes(v, w));
        assert(tb.skip(w as int) =~= rest.take(k - w));
        lemma_le_value_of_le_bytes(v, w);
    }
}

/// Cutting a string field short of its terminator fails
/// `UnterminatedString`; keeping the terminator reads the original string.
pub proof fn lemma_read_str_truncated(s: Seq<char>, rest: Seq<u8>, k: int)
    requires
        str_ok(s),
        0 <= k <= str_wire(s).len() + rest.len(),
    ensures
        k <= encode_utf8(s).len() ==> spec_read_str((str_wire(s) + rest).take(k)) == Err::<
            (Seq<char>, Seq<u8>),
            Error,
        >(Error::UnterminatedString),
        k > encode_utf8(s).len() ==> spec_read_str((str_wire(s) + rest).take(k)) == Ok::<
            (Seq<char>, Seq<u8>),
            Error,
        >((s, rest.take(k - encode_utf8(s).len() - 1))),
{
    let enc = encode_utf8(s);
    let e = enc.len() as int;
    let tb = (str_wire(s) + rest).take(k);
    if k <= e {
        assert(tb =~= enc.take(k));
        crate::wire::lemma_first_zero(tb);
        assert(forall|i: int| 0 <= i < tb.len() ==> tb[i] == enc[i]);
    } else {
        assert(tb[e] == 0);
        assert(tb.take(e) =~= enc);
        lemma_first_zero_at(tb, e);
        encode_utf8_valid_utf8(s);
        encode_utf8_decode_utf8(s);
        assert(tb.skip(e + 1) =~= rest.take(k - e - 1));
    }
}

/// Cutting a size field short fails `TruncatedBuffer`; keeping it whole
/// reads the original count.
pub proof fn lemma_read_size_truncated(n: nat, a: Arch, rest: Seq<u8>, k: int)
    requires
        size_fits(n, a),
        n <= usize::MAX as nat,
        0 <= k <= size_width(a) + rest.len(),
    ensures
        k < size_width(a) ==> spec_read_size(
            (size_wire(n, a) + rest).take(k),
            Some(arch_tag(a)),
        ) == Err::<(nat, Seq<u8>), Error>(Error::TruncatedBuffer),
        k >= size_width(a) ==> spec_read_size(
            (size_wire(n, a) + rest).take(k),
            Some(arch_tag(a)),
        ) == Ok::<(nat, Seq<u8>), Error>((n, rest.take(k - size_width(a)))),
{
    lemma_read_le_truncated(n, size_width(a), rest, k);
}

/// Cutting the header short fails: inside the magic tag `InvalidHeader`,
/// after it `TruncatedBuffer`. A whole header passes and hands on the rest.
pub proof fn lemma_init_truncated(magic: Seq<u8>, version: u16, t: u8, rest: Seq<u8>, k: int)
    requires
        0 <= k <= magic.len() + 3 + rest.len(),
    ensures
        k < magic.len() ==> spec_init(
            (magic + le_bytes(version as nat, 2) + seq![t] + rest).take(k),
            magic,
            version,
        ) == Err::<(Seq<u8>, u8), Error>(Error::InvalidHeader),
        magic.len() <= k < magic.len() + 3 ==> spec_init(
            (magic + le_bytes(version as nat, 2) + seq![t] + rest).take(k),
            magic,
            version,
        ) == Err::<(Seq<u8>, u8), Error>(Error::TruncatedBuffer),
        k >= magic.len() + 3 ==> spec_init(
            (magic + le_bytes(version as nat, 2) + seq![t] + rest).take(k),
            magic,
            version,
        ) == Ok::<(Seq<u8>, u8), Error>((rest.take(k - magic.len() - 3), t)),
{
    let b = magic + le_bytes(version as nat, 2) + seq![t] + rest;
    lemma_le_bytes_len(version as nat, 2);
    let tb = b.take(k);
    let ml = magic.len() as int;
    if k < ml {
        assert(tb.len() < magic.len());
    } else {
        assert(tb.take(ml) =~= magic);
        assert(tb.skip(ml) =~= (le_bytes(version as nat, 2) + (seq![t] + rest)).take(k - ml));
        lemma_pow256_widths();
        lemma_read_le_truncated(version as nat, 2, seq![t] + rest, k - ml);
        if k - ml >= 2 {
            lemma_le_value_singleton(t);
            assert((seq![t] + rest).take(k - ml - 2) =~= (le_bytes(t as nat, 1) + rest).take(
                k - ml - 2,
            ));
            lemma_read_le_truncated(t as nat, 1, rest, k - ml - 2);
        }
    }
}

/// Cutting an exclusion filter record short fails with a truncation error;
/// keeping it whole reads the original record.
pub proof fn lemma_read_excludepair_truncated(
    p: ExcludePair,
    a: Arch,
    ab: Option<u8>,
    rest: Seq<u8>,
    k: int,
)
    requires
        p.wire_ok(a),
        0 <= k <= p.wire(a).len() + rest.len(),
    ensures
        k < p.wire(a).len() ==> spec_read_struct::<ExcludePair>((p.wire(a) + rest).take(k), ab)
            is Err && trunc_err(
            spec_read_struct::<ExcludePair>((p.wire(a) + rest).take(k), ab)->Err_0,
        ),
        k >= p.wire(a).len() ==> spec_read_struct::<ExcludePair>((p.wire(a) + rest).take(k), ab)
            == Ok::<(ExcludePairView, Seq<u8>), Error>((p@, rest.take(k - p.wire(a).len()))),
{
    reveal_with_fuel(spec_read_fields, 3);
    reveal_with_fuel(spec_read_field, 2);
    let tag = p.kind.spec_tag();
    let tail = str_wire(p.value@) + rest;
    let fs = ExcludePair::spec_structure();
    let tb = (p.wire(a) + rest).take(k);
    lemma_le_value_singleton(tag);
    lemma_pow256_widths();
    assert(tb =~= (le_bytes(tag as nat, 1) + tail).take(k));
    lemma_read_le_truncated(tag as nat, 1, tail, k);
    assert(fs[0] == SpecField::U8);
    assert(fs.drop_first() =~= seq![SpecField::String]);
    assert(fs.drop_first()[0] == SpecField::String);
    assert(fs.drop_first().drop_first() =~= Seq::<SpecField>::empty());
    if k >= 1 {
        assert(tail.take(k - 1) =~= (str_wire(p.value@) + rest).take(k - 1));
        lemma_read_str_truncated(p.value@, rest, k - 1);
        let e = encode_utf8(p.value@).len() as int;
        if k - 1 > e {
            let after = rest.take(k - 1 - e - 1);
            assert(spec_read_fields(after, ab, Seq::<SpecField>::empty()) == Ok::<
                (Seq<SpecValue>, Seq<u8>),
                Error,
            >((Seq::empty(), after)));
            assert(seq![SpecValue::Str(p.value@)] + Seq::<SpecValue>::empty() =~= seq![
                SpecValue::Str(p.value@),
            ]);
            let vs = seq![SpecValue::U8(tag), SpecValue::Str(p.value@)];
            assert(seq![SpecValue::U8(tag)] + seq![SpecValue::Str(p.value@)] =~= vs);
            assert(spec_read_fields(tb, ab, fs) == Ok::<(Seq<SpecValue>, Seq<u8>), Error>(
                (vs, after),
            ));
            assert(ExcludeType::spec_from(tag) == Ok::<ExcludeType, Error>(p.kind));
            assert(ExcludePair::spec_construct(vs) == Ok::<ExcludePairView, Error>(p@));
        }
    }
}

/// Cutting a run of exclusion filter records short fails with a truncation
/// error; keeping them whole reads them all, in order.
pub proof fn lemma_read_excludepairs_truncated(
    s: Seq<ExcludePair>,
    a: Arch,
    ab: Option<u8>,
    rest: Seq<u8>,
    k: int,
)
    requires
        seq_wire_ok(s, a),
        0 <= k <= seq_wire(s, a).len() + rest.len(),
    ensures
        k < seq_wire(s, a).len() ==> spec_read_structs::<ExcludePair>(
            (seq_wire(s, a) + rest).take(k),
            ab,
            s.len(),
        ) is Err && trunc_err(
            spec_read_structs::<ExcludePair>((seq_wire(s, a) + rest).take(k), ab, s.len())->Err_0,
        ),
        k >= seq_wire(s, a).len() ==> spec_read_structs::<ExcludePair>(
            (seq_wire(s, a) + rest).take(k),
            ab,
            s.len(),
        ) == Ok::<(Seq<ExcludePairView>, Seq<u8>), Error>(
            (s.map_values(|p: ExcludePair| p@), rest.take(k - seq_wire(s, a).len())),
        ),
    decreases s.len(),
{
    let tb = (seq_wire(s, a) + rest).take(k);
    if s.len() == 0 {
        assert(tb =~= rest.take(k));
        assert(s.map_values(|p: ExcludePair| p@) =~= Seq::<ExcludePairView>::empty());
    } else {
        let tail = seq_wire(s.drop_first(), a) + rest;
        let w0 = s[0].wire(a).len() as int;
        assert(tb =~= (s[0].wire(a) + tail).take(k));
        lemma_read_excludepair_truncated(s[0], a, ab, tail, k);
        assert(seq_wire_ok(s.drop_first(), a)) by {
            assert(forall|i: int|
                0 <= i < s.drop_first().len() ==> #[trigger] s.drop_first()[i] == s[i + 1]);
        }
        if k >= w0 {
            assert(tail.take(k - w0) =~= (seq_wire(s.drop_first(), a) + rest).take(k - w0));
            lemma_read_excludepairs_truncated(s.drop_first(), a, ab, rest, k - w0);
            if k - w0 >= seq_wire(s.drop_first(), a).len() {
                assert(seq![s[0]@] + s.drop_first().map_values(|p: ExcludePair| p@)
                    =~= s.map_values(|p: ExcludePair| p@));
            }
        }
    }
}

/// Cutting a length-prefixed filter sequence short fails with a truncation
/// error; keeping it whole reads it all.
pub proof fn lemma_read_exclude_vec_truncated(x: Vec<ExcludePair>, a: Arch, rest: Seq<u8>, k: int)
    requires
        x.wire_ok(a),
        0 <= k <= x.wire(a).len() + rest.len(),
    ensures
        k < x.wire(a).len() ==> spec_read_vec::<ExcludePair>(
            (x.wire(a) + rest).take(k),
            Some(arch_tag(a)),
        ) is Err && trunc_err(
            spec_read_vec::<ExcludePair>((x.wire(a) + rest).take(k), Some(arch_tag(a)))->Err_0,
        ),
        k >= x.wire(a).len() ==> spec_read_vec::<ExcludePair>(
            (x.wire(a) + rest).take(k),
            Some(arch_tag(a)),
        ) == Ok::<(Seq<ExcludePairView>, Seq<u8>), Error>(
            (x@.map_values(|p: ExcludePair| p@), rest.take(k - x.wire(a).len())),
        ),
{
    vstd::std_specs::vec::axiom_spec_len(&x);
    let tail = seq_wire(x@, a) + rest;
    let w = size_width(a) as int;
    let tb = (x.wire(a) + rest).take(k);
    lemma_le_bytes_len(x@.len(), size_width(a));
    assert(tb =~= (size_wire(x@.len(), a) + tail).take(k));
    lemma_read_size_truncated(x@.len(), a, tail, k);
    if k >= w {
        assert(tail.take(k - w) =~= (seq_wire(x@, a) + rest).take(k - w));
        lemma_read_excludepairs_truncated(x@, a, Some(arch_tag(a)), rest, k - w);
    }
}

/// Truncation safety: a buffer that carries a whole record, cut at any
/// offset strictly before its end, fails to decode with a typed error and
/// never yields a record. Inside the magic tag the error is
/// `InvalidHeader`; from there on it is `TruncatedBuffer` or
/// `UnterminatedString`.
#[verifier::rlimit(100)]
pub proof fn lemma_truncation_safety(m: ModBuild, a: Arch, k: int)
    requires
        m.wire_ok(a),
        m.build is Cmd <==> m.cmd is Some,
        0 <= k < m.wire(a).len(),
    ensures
        spec_deserialize(m.wire(a).take(k)) is Err,
        k < spec_modbuild_magic().len() ==> spec_deserialize(m.wire(a).take(k))->Err_0
            == Error::InvalidHeader,
        k >= spec_modbuild_magic().len() ==> trunc_err(spec_deserialize(m.wire(a).take(k))->Err_0),
{
    let t = arch_tag(a);
    let r8 = m.exclude.wire(a);
    let r7 = m.out.wire(a) + r8;
    let r6 = m.cmd.wire(a) + r7;
    let r5 = m.build.wire(a) + r6;
    let r4 = m.branch.wire(a) + r5;
    let r3 = m.git.wire(a) + r4;
    let r2 = m.name.wire(a) + r3;
    let r1 = m.id.wire(a) + r2;
    let ml = spec_modbuild_magic().len() as int;
    lemma_le_bytes_len(MODBUILD_VERSION as nat, 2);
    assert(m.wire(a) =~= spec_modbuild_magic() + le_bytes(MODBUILD_VERSION as nat, 2) + seq![t]
        + r1);
    assert(m.wire(a).take(k) =~= (spec_modbuild_magic() + le_bytes(MODBUILD_VERSION as nat, 2)
        + seq![t] + r1).take(k));
    lemma_init_truncated(spec_modbuild_magic(), MODBUILD_VERSION, t, r1, k);
    if k >= ml + 3 {
        let k1 = k - ml - 3;
        assert(r1.take(k1) =~= (m.id.wire(a) + r2).take(k1));
        lemma_read_str_truncated(m.id@, r2, k1);
        let k2 = k1 - m.id.wire(a).len();
        if k2 >= 0 {
            assert(r2.take(k2) =~= (m.name.wire(a) + r3).take(k2));
            lemma_read_str_truncated(m.name@, r3, k2);
            let k3 = k2 - m.name.wire(a).len();
            if k3 >= 0 {
                assert(r3.take(k3) =~= (m.git.wire(a) + r4).take(k3));
                lemma_read_str_truncated(m.git@, r4, k3);
                let k4 = k3 - m.git.wire(a).len();
                if k4 >= 0 {
                    assert(r4.take(k4) =~= (m.branch.wire(a) + r5).take(k4));
                    lemma_read_str_truncated(m.branch@, r5, k4);
                    let k5 = k4 - m.branch.wire(a).len();
                    if k5 >= 0 {
                        let tag = m.build.spec_tag();
                        lemma_le_value_singleton(tag);
                        lemma_pow256_widths();
                        assert(r5.take(k5) =~= (le_bytes(tag as nat, 1) + r6).take(k5));
                        lemma_read_le_truncated(tag as nat, 1, r6, k5);
                        let k6 = k5 - 1;
                        if k6 >= 0 {
                            assert(BuildType::spec_from(tag) == Ok::<BuildType, Error>(m.build));
                            match m.cmd {
                                Option::Some(c) => {
                                    assert(m.cmd.wire(a) == c.wire(a));
                                    assert(r6.take(k6) =~= (c.wire(a) + r7).take(k6));
                                    lemma_read_str_truncated(c@, r7, k6);
                                },
                                Option::None => {
                                    assert(r6 =~= r7);
                                },
                            }
                            let k7 = k6 - m.cmd.wire(a).len();
                            if k7 >= 0 {
                                assert(r7.take(k7) =~= (m.out.wire(a) + r8).take(k7));
                                lemma_read_str_truncated(m.out@, r8, k7);
                                let k8 = k7 - m.out.wire(a).len();
                                if k8 >= 0 {
                                    assert(r8.take(k8) =~= (m.exclude.wire(a)
                                        + Seq::<u8>::empty()).take(k8));
                                    lemma_read_exclude_vec_truncated(
                                        m.exclude,
                                        a,
                                        Seq::<u8>::empty(),
                                        k8,
                                    );
                                    assert(k8 < m.exclude.wire(a).len());
                                }
                            }
                        }
                    }
                }
            }
        }
    }
}

} // verus!
