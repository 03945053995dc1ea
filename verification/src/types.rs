use vstd::prelude::*;

use crate::error::{encode_error, Error};
use crate::wire::{
    le_bytes, le_encode, lemma_pow256_widths, size_fits, size_wire, str_ok, str_wire, Arch,
};
use vstd::string::StrSliceExecFns;

verus! {

/// How the next bytes of a buffer must be interpreted. `Struct` and `Vector`
/// carry the schema of the nested record or of the sequence's element record,
/// so that one table is the single source of truth for a record's layout.
pub enum Field {
    String,
    U8,
    U16,
    U32,
    U64,
    U128,
    Struct(Box<Structure>),
    Vector(Box<Structure>),
}

/// The ordered field descriptors of one record type. Its length and order
/// must equal the number and order of the fields the record's encoder emits;
/// the bytes themselves carry no field tags.
pub struct Structure {
    pub fields: Vec<Field>,
}

/// The mathematical form of a `Field`.
pub enum SpecField {
    String,
    U8,
    U16,
    U32,
    U64,
    U128,
    Struct(Seq<SpecField>),
    Vector(Seq<SpecField>),
}

impl Field {
    /// The mathematical form of this descriptor.
    pub open spec fn model(self) -> SpecField
        decreases self,
    {
        match self {
            Field::String => SpecField::String,
            Field::U8 => SpecField::U8,
            Field::U16 => SpecField::U16,
            Field::U32 => SpecField::U32,
            Field::U64 => SpecField::U64,
            Field::U128 => SpecField::U128,
            Field::Struct(s) => SpecField::Struct(fields_model(s.fields@)),
            Field::Vector(s) => SpecField::Vector(fields_model(s.fields@)),
        }
    }
}

/// The mathematical form of a descriptor list.
pub open spec fn fields_model(s: Seq<Field>) -> Seq<SpecField>
    decreases s,
{
    if s.len() == 0 {
        Seq::empty()
    } else {
        seq![s[0].model()] + fields_model(s.drop_first())
    }
}

pub broadcast proof fn lemma_fields_model(s: Seq<Field>)
    ensures
        #[trigger] fields_model(s).len() == s.len(),
        forall|i: int| 0 <= i < s.len() ==> fields_model(s)[i] == s[i].model(),
    decreases s,
{
    if s.len() > 0 {
        lemma_fields_model(s.drop_first());
    }
}

impl View for Structure {
    type V = Seq<SpecField>;

    open spec fn view(&self) -> Seq<SpecField> {
        fields_model(self.fields@)
    }
}

/// A decoded value whose kind is known from the descriptor that produced it.
/// Extraction is a checked match, never a cast that could miss.
pub enum Value {
    Str(String),
    U8(u8),
    U16(u16),
    U32(u32),
    U64(u64),
    U128(u128),
    Record(Vec<Value>),
    Sequence(Vec<Value>),
}

/// The mathematical form of a decoded value.
pub enum SpecValue {
    Str(Seq<char>),
    U8(u8),
    U16(u16),
    U32(u32),
    U64(u64),
    U128(u128),
    Record(Seq<SpecValue>),
    Sequence(Seq<SpecValue>),
}

impl Value {
    /// The mathematical form of this value.
    pub open spec fn model(self) -> SpecValue
        decreases self,
    {
        match self {
            Value::Str(s) => SpecValue::Str(s@),
            Value::U8(v) => SpecValue::U8(v),
            Value::U16(v) => SpecValue::U16(v),
            Value::U32(v) => SpecValue::U32(v),
            Value::U64(v) => SpecValue::U64(v),
            Value::U128(v) => SpecValue::U128(v),
            Value::Record(vs) => SpecValue::Record(values_model(vs@)),
            Value::Sequence(vs) => SpecValue::Sequence(values_model(vs@)),
        }
    }
}

impl View for Value {
    type V = SpecValue;

    open spec fn view(&self) -> SpecValue {
        self.model()
    }
}

/// The mathematical form of a list of decoded values.
pub open spec fn values_model(s: Seq<Value>) -> Seq<SpecValue>
    decreases s,
{
    if s.len() == 0 {
        Seq::empty()
    } else {
        seq![s[0].model()] + values_model(s.drop_first())
    }
}

pub broadcast proof fn lemma_values_model(s: Seq<Value>)
    ensures
        #[trigger] values_model(s).len() == s.len(),
        forall|i: int| 0 <= i < s.len() ==> values_model(s)[i] == s[i].model(),
    decreases s,
{
    if s.len() > 0 {
        lemma_values_model(s.drop_first());
    }
}

pub proof fn lemma_values_model_push(s: Seq<Value>, x: Value)
    ensures
        values_model(s.push(x)) == values_model(s) + seq![x.model()],
    decreases s.len(),
{
    if s.len() == 0 {
        assert(s.push(x)[0] == x);
        assert(s.push(x).drop_first() =~= Seq::<Value>::empty());
        assert(values_model(s.push(x)) == seq![x.model()] + values_model(Seq::<Value>::empty()));
        assert(values_model(s.push(x)) =~= values_model(s) + seq![x.model()]);
    } else {
        assert(s.push(x).drop_first() =~= s.drop_first().push(x));
        assert(s.push(x)[0] == s[0]);
        lemma_values_model_push(s.drop_first(), x);
        assert(values_model(s.push(x)) =~= values_model(s) + seq![x.model()]);
    }
}

/// A value that the binary format can carry. `wire` gives the exact bytes the
/// value contributes to a buffer whose size fields use architecture `a`.
pub trait Serializable {
    /// The bytes this value contributes to a buffer of architecture `a`.
    spec fn wire(&self, a: Arch) -> Seq<u8>;

    /// Whether the format can carry this value under `a`: strings must be
    /// free of zero bytes and sequence counts must fit the size width.
    spec fn wire_ok(&self, a: Arch) -> bool;

    /// Encode this value on its own.
    fn serialize(&self, a: Arch) -> (r: Result<Vec<u8>, Error>)
        ensures
            r is Ok <==> self.wire_ok(a),
            r is Ok ==> r->Ok_0@ == self.wire(a),
            r is Err ==> encode_error(r->Err_0),
    ;
}

/// The concatenated wire forms of a sequence's elements, in order.
pub open spec fn seq_wire<T: Serializable>(s: Seq<T>, a: Arch) -> Seq<u8>
    decreases s.len(),
{
    if s.len() == 0 {
        Seq::empty()
    } else {
        s[0].wire(a) + seq_wire(s.drop_first(), a)
    }
}

/// Whether every element of a sequence can be carried under `a`.
pub open spec fn seq_wire_ok<T: Serializable>(s: Seq<T>, a: Arch) -> bool {
    forall|i: int| 0 <= i < s.len() ==> s[i].wire_ok(a)
}

pub proof fn lemma_seq_wire_push<T: Serializable>(s: Seq<T>, a: Arch, x: T)
    ensures
        seq_wire(s.push(x), a) == seq_wire(s, a) + x.wire(a),
    decreases s.len(),
{
    if s.len() == 0 {
        assert(s.push(x)[0] == x);
        assert(s.push(x).drop_first() =~= Seq::<T>::empty());
        assert(seq_wire(s.push(x), a) == x.wire(a) + seq_wire(Seq::<T>::empty(), a));
        assert(seq_wire(Seq::<T>::empty(), a) == Seq::<u8>::empty());
        assert(seq_wire(s, a) == Seq::<u8>::empty());
        assert(seq_wire(s.push(x), a) =~= seq_wire(s, a) + x.wire(a));
    } else {
        assert(s.push(x).drop_first() =~= s.drop_first().push(x));
        assert(s.push(x)[0] == s[0]);
        lemma_seq_wire_push(s.drop_first(), a, x);
        assert(seq_wire(s.push(x), a) =~= seq_wire(s, a) + x.wire(a));
    }
}

impl Serializable for String {
    open spec fn wire(&self, a: Arch) -> Seq<u8> {
        str_wire(self@)
    }

    open spec fn wire_ok(&self, a: Arch) -> bool {
        str_ok(self@)
    }

    fn serialize(&self, a: Arch) -> (r: Result<Vec<u8>, Error>) {
        let mut bytes = self.as_str().as_bytes_vec();
        let n = bytes.len();
        let mut i: usize = 0;
        while i < n
            invariant
                n == bytes@.len(),
                i <= n,
                bytes@ == vstd::utf8::encode_utf8(self@),
                forall|j: int| 0 <= j < i ==> bytes@[j] != 0,
            decreases n - i,
        {
            if bytes[i] == 0 {
                return Err(Error::StringContainsNul);
            }
            i = i + 1;
        }
        bytes.push(0);
        proof {
            assert(bytes@ =~= str_wire(self@));
        }
        Ok(bytes)
    }
}

impl Serializable for u8 {
    open spec fn wire(&self, a: Arch) -> Seq<u8> {
        le_bytes(*self as nat, 1)
    }

    open spec fn wire_ok(&self, a: Arch) -> bool {
        true
    }

    fn serialize(&self, a: Arch) -> (r: Result<Vec<u8>, Error>) {
        let mut out: Vec<u8> = Vec::new();
        le_encode(*self as u128, 1, &mut out);
        Ok(out)
    }
}

impl Serializable for u16 {
    open spec fn wire(&self, a: Arch) -> Seq<u8> {
        le_bytes(*self as nat, 2)
    }

    open spec fn wire_ok(&self, a: Arch) -> bool {
        true
    }

    fn serialize(&self, a: Arch) -> (r: Result<Vec<u8>, Error>) {
        let mut out: Vec<u8> = Vec::new();
        le_encode(*self as u128, 2, &mut out);
        Ok(out)
    }
}

impl Serializable for u32 {
    open spec fn wire(&self, a: Arch) -> Seq<u8> {
        le_bytes(*self as nat, 4)
    }

    open spec fn wire_ok(&self, a: Arch) -> bool {
        true
    }

    fn serialize(&self, a: Arch) -> (r: Result<Vec<u8>, Error>) {
        let mut out: Vec<u8> = Vec::new();
        le_encode(*self as u128, 4, &mut out);
        Ok(out)
    }
}

impl Serializable for u64 {
    open spec fn wire(&self, a: Arch) -> Seq<u8> {
        le_bytes(*self as nat, 8)
    }

    open spec fn wire_ok(&self, a: Arch) -> bool {
        true
    }

    fn serialize(&self, a: Arch) -> (r: Result<Vec<u8>, Error>) {
        let mut out: Vec<u8> = Vec::new();
        le_encode(*self as u128, 8, &mut out);
        Ok(out)
    }
}

impl Serializable for u128 {
    open spec fn wire(&self, a: Arch) -> Seq<u8> {
        le_bytes(*self as nat, 16)
    }

    open spec fn wire_ok(&self, a: Arch) -> bool {
        true
    }

    fn serialize(&self, a: Arch) -> (r: Result<Vec<u8>, Error>) {
        let mut out: Vec<u8> = Vec::new();
        le_encode(*self, 16, &mut out);
        Ok(out)
    }
}

impl Serializable for usize {
    open spec fn wire(&self, a: Arch) -> Seq<u8> {
        size_wire(*self as nat, a)
    }

    open spec fn wire_ok(&self, a: Arch) -> bool {
        size_fits(*self as nat, a)
    }

    fn serialize(&self, a: Arch) -> (r: Result<Vec<u8>, Error>) {
        proof {
            lemma_pow256_widths();
        }
        match a {
            Arch::A32 => {
                if (*self as u64) >= 0x100000000u64 {
                    return Err(Error::SizeOverflow);
                }
                let mut out: Vec<u8> = Vec::new();
                le_encode(*self as u128, 4, &mut out);
                Ok(out)
            },
            Arch::A64 => {
                let mut out: Vec<u8> = Vec::new();
                le_encode(*self as u128, 8, &mut out);
                Ok(out)
            },
        }
    }
}

/// An already-encoded payload carried through verbatim: its wire form is its
/// own bytes, with no length prefix and no terminator.
#[derive(Debug, Clone, PartialEq)]
pub struct Bytes {
    pub bytes: Vec<u8>,
}

impl View for Bytes {
    type V = Seq<u8>;

    open spec fn view(&self) -> Seq<u8> {
        self.bytes@
    }
}

impl Serializable for Bytes {
    open spec fn wire(&self, a: Arch) -> Seq<u8> {
        self.bytes@
    }

    open spec fn wire_ok(&self, a: Arch) -> bool {
        true
    }

    fn serialize(&self, a: Arch) -> (r: Result<Vec<u8>, Error>) {
        Ok(vstd::slice::slice_to_vec(self.bytes.as_slice()))
    }
}

impl<T: Serializable> Serializable for Vec<T> {
    open spec fn wire(&self, a: Arch) -> Seq<u8> {
        size_wire(self@.len(), a) + seq_wire(self@, a)
    }

    open spec fn wire_ok(&self, a: Arch) -> bool {
        size_fits(self@.len(), a) && seq_wire_ok(self@, a)
    }

    fn serialize(&self, a: Arch) -> (r: Result<Vec<u8>, Error>) {
        proof {
            lemma_pow256_widths();
        }
        let n = self.len();
        if matches!(a, Arch::A32) && (n as u64) >= 0x100000000u64 {
            return Err(Error::SizeOverflow);
        }
        let mut out: Vec<u8> = Vec::new();
        le_encode(n as u128, a.width(), &mut out);
        let mut i: usize = 0;
        while i < n
            invariant
                n == self@.len(),
                i <= n,
                size_fits(self@.len(), a),
                out@ == size_wire(self@.len(), a) + seq_wire(self@.take(i as int), a),
                forall|j: int| 0 <= j < i ==> self@[j].wire_ok(a),
            decreases n - i,
        {
            match self[i].serialize(a) {
                Ok(mut piece) => {
                    proof {
                        lemma_seq_wire_push(self@.take(i as int), a, self@[i as int]);
                        assert(self@.take(i + 1) =~= self@.take(i as int).push(self@[i as int]));
                    }
                    out.append(&mut piece);
                },
                Err(e) => {
                    return Err(e);
                },
            }
            i = i + 1;
        }
        proof {
            assert(self@.take(n as int) =~= self@);
        }
        Ok(out)
    }
}

impl<T: Serializable> Serializable for Option<T> {
    open spec fn wire(&self, a: Arch) -> Seq<u8> {
        match self {
            Option::Some(v) => v.wire(a),
            Option::None => Seq::empty(),
        }
    }

    open spec fn wire_ok(&self, a: Arch) -> bool {
        match self {
            Option::Some(v) => v.wire_ok(a),
            Option::None => true,
        }
    }

    fn serialize(&self, a: Arch) -> (r: Result<Vec<u8>, Error>) {
        match self {
            Option::Some(v) => v.serialize(a),
            Option::None => Ok(Vec::new()),
        }
    }
}

/// A record type the schema-driven reader can reconstruct: a descriptor list
/// and a step that turns the decoded values back into a concrete instance.
pub trait Deserializable: View + Sized {
    /// The descriptor list of this record type, in field declaration order.
    spec fn spec_structure() -> Seq<SpecField>;

    /// What `construct` makes of a list of decoded values: the view of the
    /// rebuilt record, or the error the list forces.
    spec fn spec_construct(fields: Seq<SpecValue>) -> Result<Self::V, Error>;

    /// The descriptor list of this record type.
    fn get_structure() -> (r: Structure)
        ensures
            r@ == Self::spec_structure(),
    ;

    /// Rebuild a concrete record from decoded values, in field order. A value
    /// of the wrong kind is a `TypeMismatch` error, never a panic.
    fn construct(fields: Vec<Value>) -> (r: Result<Self, Error>)
        ensures
            r is Ok <==> Self::spec_construct(values_model(fields@)) is Ok,
            r is Ok ==> r->Ok_0@ == Self::spec_construct(values_model(fields@))->Ok_0,
            r is Err ==> r->Err_0 == Self::spec_construct(values_model(fields@))->Err_0,
    ;
}

} // verus!
