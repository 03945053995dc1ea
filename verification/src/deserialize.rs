use vstd::prelude::*;

use crate::error::Error;
use crate::types::{
    lemma_fields_model, lemma_values_model_push, values_model, Deserializable, Field, SpecField,
    SpecValue, Structure, Value,
};
use crate::wire::{first_zero, le_decode, le_value, lemma_first_zero, lemma_first_zero_at,
    lemma_le_value_bound, lemma_pow256_widths, nul_free};
use vstd::utf8::{decode_utf8, valid_utf8};

verus! {

/// Reads a fixed-width little-endian field: the value and the remaining
/// bytes, or `TruncatedBuffer` if fewer than `w` bytes remain.
pub open spec fn spec_read_le(b: Seq<u8>, w: nat) -> Result<(nat, Seq<u8>), Error> {
    if b.len() >= w {
        Ok((le_value(b.take(w as int)), b.skip(w as int)))
    } else {
        Err(Error::TruncatedBuffer)
    }
}

/// Reads a zero-terminated string: the characters before the first zero byte
/// and the bytes after it. No zero byte before the end of the buffer is
/// `UnterminatedString`; a prefix that is not valid UTF-8 is `InvalidString`.
pub open spec fn spec_read_str(b: Seq<u8>) -> Result<(Seq<char>, Seq<u8>), Error> {
    let k = first_zero(b);
    if k < 0 {
        Err(Error::UnterminatedString)
    } else if valid_utf8(b.take(k)) {
        Ok((decode_utf8(b.take(k)), b.skip(k + 1)))
    } else {
        Err(Error::InvalidString)
    }
}

/// Reads a size value under the session's architecture byte: 4 bytes when
/// the byte is 0, 8 when it is 1. Any other byte is
/// `InvalidArchitectureTag`; no byte at all is `ArchitectureNotSet`; a value
/// beyond this platform's native count range is `SizeOverflow`.
pub open spec fn spec_read_size(b: Seq<u8>, arch: Option<u8>) -> Result<(nat, Seq<u8>), Error> {
    match arch {
        Option::None => Err(Error::ArchitectureNotSet),
        Option::Some(t) => if t == 0 {
            spec_read_le(b, 4)
        } else if t == 1 {
            match spec_read_le(b, 8) {
                Ok((v, rest)) => if v <= usize::MAX as nat {
                    Ok((v, rest))
                } else {
                    Err(Error::SizeOverflow)
                },
                Err(e) => Err(e),
            }
        } else {
            Err(Error::InvalidArchitectureTag)
        },
    }
}

/// Validates the start of a top-level buffer: the magic tag byte for byte,
/// then a two-byte version that must equal `version`, then the architecture
/// byte. Returns the remaining bytes and that byte.
pub open spec fn spec_init(b: Seq<u8>, header: Seq<u8>, version: u16) -> Result<
    (Seq<u8>, u8),
    Error,
> {
    if !(b.len() >= header.len() && b.take(header.len() as int) == header) {
        Err(Error::InvalidHeader)
    } else {
        let b1 = b.skip(header.len() as int);
        match spec_read_le(b1, 2) {
            Err(e) => Err(e),
            Ok((v, b2)) => if v != version {
                Err(Error::VersionMismatch)
            } else {
                match spec_read_le(b2, 1) {
                    Err(e) => Err(e),
                    Ok((t, b3)) => Ok((b3, t as u8)),
                }
            },
        }
    }
}

/// Prefixes `acc` to the values of a successful read; an error passes
/// through.
pub open spec fn prepend_read<V>(acc: Seq<V>, r: Result<(Seq<V>, Seq<u8>), Error>) -> Result<
    (Seq<V>, Seq<u8>),
    Error,
> {
    match r {
        Ok((vs, rem)) => Ok((acc + vs, rem)),
        Err(e) => Err(e),
    }
}

/// Reads one field of the given kind.
pub open spec fn spec_read_field(b: Seq<u8>, arch: Option<u8>, f: SpecField) -> Result<
    (SpecValue, Seq<u8>),
    Error,
>
    decreases f, 0nat,
{
    match f {
        SpecField::String => match spec_read_str(b) {
            Ok((s, rem)) => Ok((SpecValue::Str(s), rem)),
            Err(e) => Err(e),
        },
        SpecField::U8 => match spec_read_le(b, 1) {
            Ok((v, rem)) => Ok((SpecValue::U8(v as u8), rem)),
            Err(e) => Err(e),
        },
        SpecField::U16 => match spec_read_le(b, 2) {
            Ok((v, rem)) => Ok((SpecValue::U16(v as u16), rem)),
            Err(e) => Err(e),
        },
        SpecField::U32 => match spec_read_le(b, 4) {
            Ok((v, rem)) => Ok((SpecValue::U32(v as u32), rem)),
            Err(e) => Err(e),
        },
        SpecField::U64 => match spec_read_le(b, 8) {
            Ok((v, rem)) => Ok((SpecValue::U64(v as u64), rem)),
            Err(e) => Err(e),
        },
        SpecField::U128 => match spec_read_le(b, 16) {
            Ok((v, rem)) => Ok((SpecValue::U128(v as u128), rem)),
            Err(e) => Err(e),
        },
        SpecField::Struct(fs) => match spec_read_fields(b, arch, fs) {
            Ok((vs, rem)) => Ok((SpecValue::Record(vs), rem)),
            Err(e) => Err(e),
        },
        SpecField::Vector(fs) => match spec_read_size(b, arch) {
            Ok((n, b1)) => match spec_read_elems(b1, arch, fs, n) {
                Ok((vs, rem)) => Ok((SpecValue::Sequence(vs), rem)),
                Err(e) => Err(e),
            },
            Err(e) => Err(e),
        },
    }
}

/// Reads one value for each descriptor, in order.
pub open spec fn spec_read_fields(b: Seq<u8>, arch: Option<u8>, fs: Seq<SpecField>) -> Result<
    (Seq<SpecValue>, Seq<u8>),
    Error,
>
    decreases fs, 0nat,
{
    if fs.len() == 0 {
        Ok((Seq::empty(), b))
    } else {
        match spec_read_field(b, arch, fs[0]) {
            Ok((v, b1)) => prepend_read(seq![v], spec_read_fields(b1, arch, fs.drop_first())),
            Err(e) => Err(e),
        }
    }
}

/// Reads `n` records of shape `fs`, each decoded as a `Record` value.
pub open spec fn spec_read_elems(b: Seq<u8>, arch: Option<u8>, fs: Seq<SpecField>, n: nat) -> Result<
    (Seq<SpecValue>, Seq<u8>),
    Error,
>
    decreases fs, n,
{
    if n == 0 {
        Ok((Seq::empty(), b))
    } else {
        match spec_read_fields(b, arch, fs) {
            Ok((vs, b1)) => prepend_read(
                seq![SpecValue::Record(vs)],
                spec_read_elems(b1, arch, fs, (n - 1) as nat),
            ),
            Err(e) => Err(e),
        }
    }
}

/// Reads one record of type `T`: its fields by `T`'s descriptor list, then
/// `T`'s reconstruction step.
pub open spec fn spec_read_struct<T: Deserializable>(b: Seq<u8>, arch: Option<u8>) -> Result<
    (T::V, Seq<u8>),
    Error,
> {
    match spec_read_fields(b, arch, T::spec_structure()) {
        Ok((vs, rem)) => match T::spec_construct(vs) {
            Ok(v) => Ok((v, rem)),
            Err(e) => Err(e),
        },
        Err(e) => Err(e),
    }
}

/// Reads `n` records of type `T`.
pub open spec fn spec_read_structs<T: Deserializable>(
    b: Seq<u8>,
    arch: Option<u8>,
    n: nat,
) -> Result<(Seq<T::V>, Seq<u8>), Error>
    decreases n,
{
    if n == 0 {
        Ok((Seq::empty(), b))
    } else {
        match spec_read_struct::<T>(b, arch) {
            Ok((v, b1)) => prepend_read(
                seq![v],
                spec_read_structs::<T>(b1, arch, (n - 1) as nat),
            ),
            Err(e) => Err(e),
        }
    }
}

/// Reads a length-prefixed sequence of records of type `T`.
pub open spec fn spec_read_vec<T: Deserializable>(b: Seq<u8>, arch: Option<u8>) -> Result<
    (Seq<T::V>, Seq<u8>),
    Error,
> {
    match spec_read_size(b, arch) {
        Ok((n, b1)) => spec_read_structs::<T>(b1, arch, n),
        Err(e) => Err(e),
    }
}

/// Relies on core::str::from_utf8 and str::to_owned: the conversion succeeds
/// exactly on valid UTF-8, and returns the characters those bytes encode.
#[verifier::external_body]
fn bytes_to_string(b: &Vec<u8>) -> (r: Option<String>)
    ensures
        r is Some <==> valid_utf8(b@),
        r is Some ==> r->0@ == decode_utf8(b@),
{
    match core::str::from_utf8(b.as_slice()) {
        Ok(s) => Some(s.to_owned()),
        Err(_) => None,
    }
}

/// A positional reader over a borrowed byte buffer. Reads consume from the
/// front of `rest()`; the architecture byte is captured once from the header
/// and then governs every size read of the session.
pub struct Deserialize<'a> {
    buf: &'a [u8],
    pos: usize,
    arch: Option<u8>,
}

impl<'a> Deserialize<'a> {
    #[verifier::type_invariant]
    closed spec fn type_inv(&self) -> bool {
        self.pos <= self.buf@.len()
    }

    /// The bytes not yet consumed.
    pub closed spec fn rest(&self) -> Seq<u8> {
        self.buf@.skip(self.pos as int)
    }

    /// The session's architecture byte, once `read_arch` has run.
    pub closed spec fn arch_byte(&self) -> Option<u8> {
        self.arch
    }

    /// A reader over the whole of `buf`, with no architecture set.
    pub fn new(buf: &'a [u8]) -> (r: Self)
        ensures
            r.rest() == buf@,
            r.arch_byte() is None,
    {
        proof {
            assert(buf@.skip(0) =~= buf@);
        }
        Deserialize { buf, pos: 0, arch: None }
    }

    /// Takes the next `n` bytes, or `TruncatedBuffer` without consuming
    /// anything if fewer remain.
    pub fn read_bytes(&mut self, n: usize) -> (r: Result<Vec<u8>, Error>)
        ensures
            final(self).arch_byte() == old(self).arch_byte(),
            old(self).rest().len() >= n ==> r is Ok && r->Ok_0@ == old(self).rest().take(n as int)
                && final(self).rest() == old(self).rest().skip(n as int),
            old(self).rest().len() < n ==> r == Err::<Vec<u8>, Error>(Error::TruncatedBuffer)
                && final(self).rest() == old(self).rest(),
    {
        proof {
            use_type_invariant(&*self);
        }
        if self.buf.len() - self.pos < n {
            return Err(Error::TruncatedBuffer);
        }
        let out = vstd::slice::slice_to_vec(
            vstd::slice::slice_subrange(self.buf, self.pos, self.pos + n),
        );
        proof {
            assert(self.buf@.subrange(self.pos as int, self.pos + n) =~= self.rest().take(n as int));
            assert(self.buf@.skip(self.pos + n) =~= self.rest().skip(n as int));
        }
        self.pos = self.pos + n;
        Ok(out)
    }

    /// Reads one byte.
    pub fn read_u8(&mut self) -> (r: Result<u8, Error>)
        ensures
            final(self).arch_byte() == old(self).arch_byte(),
            match spec_read_le(old(self).rest(), 1) {
                Ok((v, rem)) => r is Ok && r->Ok_0 == v && final(self).rest() == rem,
                Err(e) => r == Err::<u8, Error>(e) && final(self).rest() == old(self).rest(),
            },
    {
        let bytes = self.read_bytes(1)?;
        proof {
            lemma_le_value_bound(bytes@);
            lemma_pow256_widths();
        }
        Ok(le_decode(&bytes) as u8)
    }

    /// Reads a two-byte little-endian value.
    pub fn read_u16(&mut self) -> (r: Result<u16, Error>)
        ensures
            final(self).arch_byte() == old(self).arch_byte(),
            match spec_read_le(old(self).rest(), 2) {
                Ok((v, rem)) => r is Ok && r->Ok_0 == v && final(self).rest() == rem,
                Err(e) => r == Err::<u16, Error>(e) && final(self).rest() == old(self).rest(),
            },
    {
        let bytes = self.read_bytes(2)?;
        proof {
            lemma_le_value_bound(bytes@);
            lemma_pow256_widths();
        }
        Ok(le_decode(&bytes) as u16)
    }

    /// Reads a four-byte little-endian value.
    pub fn read_u32(&mut self) -> (r: Result<u32, Error>)
        ensures
            final(self).arch_byte() == old(self).arch_byte(),
            match spec_read_le(old(self).rest(), 4) {
                Ok((v, rem)) => r is Ok && r->Ok_0 == v && final(self).rest() == rem,
                Err(e) => r == Err::<u32, Error>(e) && final(self).rest() == old(self).rest(),
            },
    {
        let bytes = self.read_bytes(4)?;
        proof {
            lemma_le_value_bound(bytes@);
            lemma_pow256_widths();
        }
        Ok(le_decode(&bytes) as u32)
    }

    /// Reads an eight-byte little-endian value.
    pub fn read_u64(&mut self) -> (r: Result<u64, Error>)
        ensures
            final(self).arch_byte() == old(self).arch_byte(),
            match spec_read_le(old(self).rest(), 8) {
                Ok((v, rem)) => r is Ok && r->Ok_0 == v && final(self).rest() == rem,
                Err(e) => r == Err::<u64, Error>(e) && final(self).rest() == old(self).rest(),
            },
    {
        let bytes = self.read_bytes(8)?;
        proof {
            lemma_le_value_bound(bytes@);
            lemma_pow256_widths();
        }
        Ok(le_decode(&bytes) as u64)
    }

    /// Reads a sixteen-byte little-endian value.
    pub fn read_u128(&mut self) -> (r: Result<u128, Error>)
        ensures
            final(self).arch_byte() == old(self).arch_byte(),
            match spec_read_le(old(self).rest(), 16) {
                Ok((v, rem)) => r is Ok && r->Ok_0 == v && final(self).rest() == rem,
                Err(e) => r == Err::<u128, Error>(e) && final(self).rest() == old(self).rest(),
            },
    {
        let bytes = self.read_bytes(16)?;
        proof {
            lemma_le_value_bound(bytes@);
            lemma_pow256_widths();
        }
        Ok(le_decode(&bytes))
    }

    /// Reads a zero-terminated string and consumes its terminator.
    pub fn read_string(&mut self) -> (r: Result<String, Error>)
        ensures
            final(self).arch_byte() == old(self).arch_byte(),
            match spec_read_str(old(self).rest()) {
                Ok((s, rem)) => r is Ok && r->Ok_0@ == s && final(self).rest() == rem,
                Err(e) => r == Err::<String, Error>(e) && final(self).rest() == old(self).rest(),
            },
    {
        proof {
            use_type_invariant(&*self);
            lemma_first_zero(self.rest());
        }
        let n = self.buf.len();
        let mut i: usize = self.pos;
        loop
            invariant
                self.pos <= i <= n == self.buf@.len(),
                forall|j: int| self.pos <= j < i ==> self.buf@[j] != 0,
            ensures
                self.pos <= i <= n == self.buf@.len(),
                i < n ==> self.buf@[i as int] == 0,
                forall|j: int| self.pos <= j < i ==> self.buf@[j] != 0,
            decreases n - i,
        {
            if i == n {
                break;
            }
            if self.buf[i] == 0 {
                break;
            }
            i = i + 1;
        }
        if i == n {
            proof {
                assert forall|j: int| 0 <= j < self.rest().len() implies self.rest()[j] != 0 by {
                    assert(self.rest()[j] == self.buf@[self.pos + j]);
                }
                assert(nul_free(self.rest()));
            }
            return Err(Error::UnterminatedString);
        }
        let ghost k = i - self.pos;
        proof {
            assert forall|j: int| 0 <= j < k implies #[trigger] self.rest().take(k)[j] != 0 by {
                assert(self.rest().take(k)[j] == self.buf@[self.pos + j]);
            }
            assert(self.rest()[k] == self.buf@[i as int]);
            lemma_first_zero_at(self.rest(), k);
        }
        let prefix = vstd::slice::slice_to_vec(
            vstd::slice::slice_subrange(self.buf, self.pos, i),
        );
        proof {
            assert(prefix@ =~= self.rest().take(k));
        }
        match bytes_to_string(&prefix) {
            Some(s) => {
                proof {
                    assert(self.buf@.skip(i + 1) =~= self.rest().skip(k + 1));
                }
                self.pos = i + 1;
                Ok(s)
            },
            None => Err(Error::InvalidString),
        }
    }

    /// Reads a size value whose width the session's architecture byte
    /// selects.
    pub fn read_usize(&mut self) -> (r: Result<usize, Error>)
        ensures
            final(self).arch_byte() == old(self).arch_byte(),
            match spec_read_size(old(self).rest(), old(self).arch_byte()) {
                Ok((v, rem)) => r is Ok && r->Ok_0 == v && final(self).rest() == rem,
                Err(e) => r == Err::<usize, Error>(e) && (if e == Error::SizeOverflow {
                    final(self).rest() == old(self).rest().skip(8)
                } else {
                    final(self).rest() == old(self).rest()
                }),
            },
    {
        let arch = match self.arch {
            Some(t) => t,
            None => {
                return Err(Error::ArchitectureNotSet);
            },
        };
        if arch == 0 {
            let bytes = self.read_bytes(4)?;
            proof {
                lemma_le_value_bound(bytes@);
                lemma_pow256_widths();
            }
            let v = le_decode(&bytes) as u32;
            Ok(v as usize)
        } else if arch == 1 {
            let bytes = self.read_bytes(8)?;
            proof {
                lemma_le_value_bound(bytes@);
                lemma_pow256_widths();
            }
            let v = le_decode(&bytes) as u64;
            if v <= usize::MAX as u64 {
                Ok(v as usize)
            } else {
                Err(Error::SizeOverflow)
            }
        } else {
            Err(Error::InvalidArchitectureTag)
        }
    }

    /// Demands that the buffer begins with the magic tag and consumes it.
    pub fn assert_header(&mut self, header: &[u8]) -> (r: Result<(), Error>)
        ensures
            final(self).arch_byte() == old(self).arch_byte(),
            if old(self).rest().len() >= header@.len() && old(self).rest().take(
                header@.len() as int,
            ) == header@ {
                r is Ok && final(self).rest() == old(self).rest().skip(header@.len() as int)
            } else {
                r == Err::<(), Error>(Error::InvalidHeader) && final(self).rest() == old(
                    self,
                ).rest()
            },
    {
        proof {
            use_type_invariant(&*self);
        }
        let n = header.len();
        if self.buf.len() - self.pos < n {
            return Err(Error::InvalidHeader);
        }
        let mut i: usize = 0;
        while i < n
            invariant
                i <= n == header@.len(),
                self.pos + n <= self.buf@.len() <= usize::MAX,
                forall|j: int| 0 <= j < i ==> self.buf@[self.pos + j] == header@[j],
            decreases n - i,
        {
            if self.buf[self.pos + i] != header[i] {
                proof {
                    assert(self.rest().take(header@.len() as int)[i as int] == self.buf@[self.pos
                        + i]);
                }
                return Err(Error::InvalidHeader);
            }
            i = i + 1;
        }
        proof {
            assert(self.rest().take(n as int) =~= header@);
            assert(self.buf@.skip(self.pos + n) =~= self.rest().skip(n as int));
        }
        self.pos = self.pos + n;
        Ok(())
    }

    /// Reads the two-byte version and demands that it equals `version`.
    pub fn assert_version(&mut self, version: u16) -> (r: Result<(), Error>)
        ensures
            final(self).arch_byte() == old(self).arch_byte(),
            match spec_read_le(old(self).rest(), 2) {
                Ok((v, rem)) => final(self).rest() == rem && (if v == version {
                    r is Ok
                } else {
                    r == Err::<(), Error>(Error::VersionMismatch)
                }),
                Err(e) => r == Err::<(), Error>(e) && final(self).rest() == old(self).rest(),
            },
    {
        let v = self.read_u16()?;
        if v != version {
            return Err(Error::VersionMismatch);
        }
        Ok(())
    }

    /// Captures the session's architecture byte from the buffer. The byte is
    /// validated when a size is first read, not here.
    pub fn read_arch(&mut self) -> (r: Result<(), Error>)
        ensures
            match spec_read_le(old(self).rest(), 1) {
                Ok((v, rem)) => r is Ok && final(self).rest() == rem && final(self).arch_byte()
                    == Some(v as u8),
                Err(e) => r == Err::<(), Error>(e) && final(self).rest() == old(self).rest()
                    && final(self).arch_byte() == old(self).arch_byte(),
            },
    {
        let b = self.read_u8()?;
        proof {
            use_type_invariant(&*self);
        }
        self.arch = Some(b);
        Ok(())
    }

    /// Reads `n` records of shape `sub`, each becoming one `Record` value of
    /// the sequence.
    #[verifier::loop_isolation(false)]
    fn read_elems(&mut self, sub: &Structure, n: usize) -> (r: Result<Vec<Value>, Error>)
        ensures
            final(self).arch_byte() == old(self).arch_byte(),
            match spec_read_elems(old(self).rest(), old(self).arch_byte(), sub@, n as nat) {
                Ok((vs, rem)) => r is Ok && values_model(r->Ok_0@) == vs && final(self).rest()
                    == rem,
                Err(e) => r is Err && r->Err_0 == e,
            },
        decreases *sub, 1nat, n as nat,
    {
        let ghost fsm = sub@;
        let ghost b1 = self.rest();
        let ghost arch0 = self.arch_byte();
        let mut elems: Vec<Value> = Vec::new();
        let mut j: usize = 0;
        while j < n
            invariant
                j <= n,
                self.arch_byte() == arch0,
                spec_read_elems(b1, arch0, fsm, n as nat) == prepend_read(
                    values_model(elems@),
                    spec_read_elems(self.rest(), arch0, fsm, (n - j) as nat),
                ),
            decreases n - j,
        {
            let ghost cur = self.rest();
            let ghost acc = values_model(elems@);
            match self.read_fields_from(sub, 0) {
                Ok(vals) => {
                    proof {
                        assert(sub@.skip(0) =~= sub@);
                    }
                    let ghost vsm = values_model(vals@);
                    proof {
                        lemma_values_model_push(elems@, Value::Record(vals));
                        assert(spec_read_fields(cur, arch0, fsm) == Ok::<
                            (Seq<SpecValue>, Seq<u8>),
                            Error,
                        >((vsm, self.rest())));
                        assert(spec_read_elems(cur, arch0, fsm, (n - j) as nat) == prepend_read(
                            seq![SpecValue::Record(vsm)],
                            spec_read_elems(self.rest(), arch0, fsm, (n - j - 1) as nat),
                        ));
                        assert(acc + seq![SpecValue::Record(vsm)] =~= values_model(
                            elems@.push(Value::Record(vals)),
                        ));
                        match spec_read_elems(self.rest(), arch0, fsm, (n - j - 1) as nat) {
                            Ok((vs2, rem2)) => {
                                assert(acc + (seq![SpecValue::Record(vsm)] + vs2) =~= (acc
                                    + seq![SpecValue::Record(vsm)]) + vs2);
                            },
                            Err(_) => {},
                        }
                    }
                    elems.push(Value::Record(vals));
                },
                Err(e) => {
                    proof {
                        assert(sub@.skip(0) =~= sub@);
                        assert(spec_read_elems(cur, arch0, fsm, (n - j) as nat) == Err::<
                            (Seq<SpecValue>, Seq<u8>),
                            Error,
                        >(e));
                    }
                    return Err(e);
                },
            }
            j = j + 1;
        }
        proof {
            assert(spec_read_elems(self.rest(), arch0, fsm, 0) == Ok::<
                (Seq<SpecValue>, Seq<u8>),
                Error,
            >((Seq::empty(), self.rest())));
            assert(values_model(elems@) + Seq::<SpecValue>::empty() =~= values_model(elems@));
        }
        Ok(elems)
    }

    /// Reads one value of the kind one descriptor names.
    fn read_field(&mut self, f: &Field) -> (r: Result<Value, Error>)
        ensures
            final(self).arch_byte() == old(self).arch_byte(),
            match spec_read_field(old(self).rest(), old(self).arch_byte(), f.model()) {
                Ok((v, rem)) => r is Ok && r->Ok_0.model() == v && final(self).rest() == rem,
                Err(e) => r is Err && r->Err_0 == e,
            },
        decreases *f, 2nat, 0nat,
    {
        match f {
            Field::String => match self.read_string() {
                Ok(x) => Ok(Value::Str(x)),
                Err(e) => Err(e),
            },
            Field::U8 => match self.read_u8() {
                Ok(x) => Ok(Value::U8(x)),
                Err(e) => Err(e),
            },
            Field::U16 => match self.read_u16() {
                Ok(x) => Ok(Value::U16(x)),
                Err(e) => Err(e),
            },
            Field::U32 => match self.read_u32() {
                Ok(x) => Ok(Value::U32(x)),
                Err(e) => Err(e),
            },
            Field::U64 => match self.read_u64() {
                Ok(x) => Ok(Value::U64(x)),
                Err(e) => Err(e),
            },
            Field::U128 => match self.read_u128() {
                Ok(x) => Ok(Value::U128(x)),
                Err(e) => Err(e),
            },
            Field::Struct(sub) => {
                proof {
                    assert((&**sub)@.skip(0) =~= (&**sub)@);
                }
                match self.read_fields_from(&**sub, 0) {
                    Ok(vals) => Ok(Value::Record(vals)),
                    Err(e) => Err(e),
                }
            },
            Field::Vector(sub) => {
                let n = match self.read_usize() {
                    Ok(n) => n,
                    Err(e) => {
                        return Err(e);
                    },
                };
                match self.read_elems(&**sub, n) {
                    Ok(elems) => Ok(Value::Sequence(elems)),
                    Err(e) => Err(e),
                }
            },
        }
    }

    /// Reads the fields of `s` from index `i` on, one decoded value per
    /// descriptor.
    #[verifier::loop_isolation(false)]
    #[verifier::rlimit(100)]
    fn read_fields_from(&mut self, s: &Structure, i: usize) -> (r: Result<Vec<Value>, Error>)
        requires
            i <= s.fields@.len(),
        ensures
            final(self).arch_byte() == old(self).arch_byte(),
            match spec_read_fields(old(self).rest(), old(self).arch_byte(), s@.skip(i as int)) {
                Ok((vs, rem)) => r is Ok && values_model(r->Ok_0@) == vs && final(self).rest()
                    == rem,
                Err(e) => r is Err && r->Err_0 == e,
            },
        decreases *s, 0nat, s.fields@.len() - i,
    {
        proof {
            lemma_fields_model(s.fields@);
        }
        let ghost fs = s@.skip(i as int);
        if i == s.fields.len() {
            proof {
                assert(fs =~= Seq::<SpecField>::empty());
                assert(values_model(Seq::<Value>::empty()) =~= Seq::<SpecValue>::empty());
            }
            return Ok(Vec::new());
        }
        proof {
            assert(fs[0] == s.fields@[i as int].model());
        }
        let v: Value = match self.read_field(&s.fields.as_slice()[i]) {
            Ok(v) => v,
            Err(e) => {
                return Err(e);
            },
        };
        let ghost mid = self.rest();
        proof {
            assert(spec_read_field(old(self).rest(), old(self).arch_byte(), fs[0]) == Ok::<
                (SpecValue, Seq<u8>),
                Error,
            >((v.model(), mid)));
        }
        proof {
            assert(s@.skip(i + 1) =~= fs.drop_first());
            assert(spec_read_fields(old(self).rest(), old(self).arch_byte(), fs) == prepend_read(
                seq![v.model()],
                spec_read_fields(mid, old(self).arch_byte(), fs.drop_first()),
            ));
        }
        match self.read_fields_from(s, i + 1) {
            Ok(rest_vals) => {
                let mut out: Vec<Value> = Vec::new();
                let ghost vm = v.model();
                out.push(v);
                let mut rest_vals = rest_vals;
                let ghost restv = rest_vals@;
                out.append(&mut rest_vals);
                proof {
                    assert(out@[0].model() == vm);
                    assert(out@.drop_first() =~= restv);
                    assert(values_model(out@) == seq![vm] + values_model(restv));
                }
                Ok(out)
            },
            Err(e) => Err(e),
        }
    }

    /// Reads one record of type `T`: decodes `T`'s descriptor list in order,
    /// then reconstructs the concrete record.
    pub fn read_struct<T: Deserializable>(&mut self) -> (r: Result<T, Error>)
        ensures
            final(self).arch_byte() == old(self).arch_byte(),
            match spec_read_struct::<T>(old(self).rest(), old(self).arch_byte()) {
                Ok((v, rem)) => r is Ok && r->Ok_0@ == v && final(self).rest() == rem,
                Err(e) => r is Err && r->Err_0 == e,
            },
    {
        let structure = T::get_structure();
        proof {
            assert(structure@.skip(0) =~= structure@);
        }
        match self.read_fields_from(&structure, 0) {
            Ok(fields) => T::construct(fields),
            Err(e) => Err(e),
        }
    }

    /// Reads a length-prefixed sequence of records of type `T`, preserving
    /// count and order.
    #[verifier::loop_isolation(false)]
    pub fn read_vec<T: Deserializable>(&mut self) -> (r: Result<Vec<T>, Error>)
        ensures
            final(self).arch_byte() == old(self).arch_byte(),
            match spec_read_vec::<T>(old(self).rest(), old(self).arch_byte()) {
                Ok((vs, rem)) => r is Ok && r->Ok_0@.map_values(|t: T| t@) == vs
                    && final(self).rest() == rem,
                Err(e) => r is Err && r->Err_0 == e,
            },
    {
        let n = match self.read_usize() {
            Ok(n) => n,
            Err(e) => {
                return Err(e);
            },
        };
        let ghost b1 = self.rest();
        let ghost arch0 = self.arch_byte();
        let mut out: Vec<T> = Vec::new();
        let mut j: usize = 0;
        while j < n
            invariant
                j <= n,
                self.arch_byte() == arch0,
                spec_read_structs::<T>(b1, arch0, n as nat) == prepend_read(
                    out@.map_values(|t: T| t@),
                    spec_read_structs::<T>(self.rest(), arch0, (n - j) as nat),
                ),
            decreases n - j,
        {
            let ghost cur = self.rest();
            let ghost acc = out@.map_values(|t: T| t@);
            match self.read_struct::<T>() {
                Ok(v) => {
                    let ghost vm = v@;
                    proof {
                        assert(spec_read_struct::<T>(cur, arch0) == Ok::<(T::V, Seq<u8>), Error>(
                            (vm, self.rest()),
                        ));
                        assert(spec_read_structs::<T>(cur, arch0, (n - j) as nat) == prepend_read(
                            seq![vm],
                            spec_read_structs::<T>(self.rest(), arch0, (n - j - 1) as nat),
                        ));
                        assert(acc + seq![vm] =~= out@.push(v).map_values(|t: T| t@));
                        match spec_read_structs::<T>(self.rest(), arch0, (n - j - 1) as nat) {
                            Ok((vs2, rem2)) => {
                                assert(acc + (seq![vm] + vs2) =~= (acc + seq![vm]) + vs2);
                            },
                            Err(_) => {},
                        }
                    }
                    out.push(v);
                },
                Err(e) => {
                    proof {
                        assert(spec_read_structs::<T>(cur, arch0, (n - j) as nat) == Err::<
                            (Seq<T::V>, Seq<u8>),
                            Error,
                        >(e));
                    }
                    return Err(e);
                },
            }
            j = j + 1;
        }
        proof {
            assert(spec_read_structs::<T>(self.rest(), arch0, 0) == Ok::<
                (Seq<T::V>, Seq<u8>),
                Error,
            >((Seq::empty(), self.rest())));
            assert(out@.map_values(|t: T| t@) + Seq::<T::V>::empty() =~= out@.map_values(
                |t: T| t@,
            ));
        }
        Ok(out)
    }

    /// Runs the whole header step: magic tag, version, architecture byte.
    pub fn init(self, header: &[u8], version: u16) -> (r: Result<Self, Error>)
        ensures
            match spec_init(self.rest(), header@, version) {
                Ok((rem, t)) => r is Ok && r->Ok_0.rest() == rem && r->Ok_0.arch_byte() == Some(t),
                Err(e) => r is Err && r->Err_0 == e,
            },
    {
        let mut this = self;
        this.assert_header(header)?;
        this.assert_version(version)?;
        this.read_arch()?;
        Ok(this)
    }
}

} // verus!
