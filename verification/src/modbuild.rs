use vstd::prelude::*;

use crate::builder::BinaryBuilder;
use crate::error::Error;
use crate::types::{
    lemma_fields_model, lemma_values_model, Deserializable, Field, Serializable, SpecField,
    SpecValue, Structure, Value,
};
use crate::wire::{le_bytes, str_ok, Arch};

verus! {

/// The wire version of the mod-build format.
pub const MODBUILD_VERSION: u16 = 1;

/// The magic tag of a top-level mod-build buffer: the ASCII bytes of
/// "mcmodbuild".
pub open spec fn spec_modbuild_magic() -> Seq<u8> {
    seq![109u8, 99u8, 109u8, 111u8, 100u8, 98u8, 117u8, 105u8, 108u8, 100u8]
}

/// The magic tag of a top-level mod-build buffer.
pub fn modbuild_magic() -> (r: Vec<u8>)
    ensures
        r@ == spec_modbuild_magic(),
{
    let r: Vec<u8> = vec![109u8, 99u8, 109u8, 111u8, 100u8, 98u8, 117u8, 105u8, 108u8, 100u8];
    proof {
        assert(r@ =~= spec_modbuild_magic());
    }
    r
}

/// How a mod is built: a custom command, or the standard build invocation.
#[derive(Debug, Clone, Copy, PartialEq, Eq, Structural)]
pub enum BuildType {
    Cmd,
    Std,
}

impl BuildType {
    /// The single-byte discriminant this variant is encoded as.
    pub open spec fn spec_tag(self) -> u8 {
        match self {
            BuildType::Cmd => 0,
            BuildType::Std => 1,
        }
    }

    /// The variant a raw byte stands for; bytes outside {0, 1} are
    /// `InvalidDiscriminant`.
    pub open spec fn spec_from(v: u8) -> Result<BuildType, Error> {
        if v == 0 {
            Ok(BuildType::Cmd)
        } else if v == 1 {
            Ok(BuildType::Std)
        } else {
            Err(Error::InvalidDiscriminant)
        }
    }

    /// The single-byte discriminant this variant is encoded as.
    pub fn tag(&self) -> (r: u8)
        ensures
            r == self.spec_tag(),
    {
        match self {
            BuildType::Cmd => 0,
            BuildType::Std => 1,
        }
    }

    /// Decodes a raw discriminant byte.
    pub fn try_from(v: u8) -> (r: Result<BuildType, Error>)
        ensures
            r == BuildType::spec_from(v),
    {
        if v == 0 {
            Ok(BuildType::Cmd)
        } else if v == 1 {
            Ok(BuildType::Std)
        } else {
            Err(Error::InvalidDiscriminant)
        }
    }
}

impl Serializable for BuildType {
    open spec fn wire(&self, a: Arch) -> Seq<u8> {
        seq![self.spec_tag()]
    }

    open spec fn wire_ok(&self, a: Arch) -> bool {
        true
    }

    fn serialize(&self, a: Arch) -> (r: Result<Vec<u8>, Error>) {
        let r: Vec<u8> = vec![self.tag()];
        proof {
            assert(r@ =~= seq![self.spec_tag()]);
        }
        Ok(r)
    }
}

/// How a file name is matched against an exclusion filter.
#[derive(Debug, Clone, Copy, PartialEq, Eq, Structural)]
pub enum ExcludeType {
    Ends,
    Starts,
    Contains,
}

impl ExcludeType {
    /// The single-byte discriminant this variant is encoded as.
    pub open spec fn spec_tag(self) -> u8 {
        match self {
            ExcludeType::Ends => 0,
            ExcludeType::Starts => 1,
            ExcludeType::Contains => 2,
        }
    }

    /// The variant a raw byte stands for; bytes outside {0, 1, 2} are
    /// `InvalidDiscriminant`.
    pub open spec fn spec_from(v: u8) -> Result<ExcludeType, Error> {
        if v == 0 {
            Ok(ExcludeType::Ends)
        } else if v == 1 {
            Ok(ExcludeType::Starts)
        } else if v == 2 {
            Ok(ExcludeType::Contains)
        } else {
            Err(Error::InvalidDiscriminant)
        }
    }

    /// The single-byte discriminant this variant is encoded as.
    pub fn tag(&self) -> (r: u8)
        ensures
            r == self.spec_tag(),
    {
        match self {
            ExcludeType::Ends => 0,
            ExcludeType::Starts => 1,
            ExcludeType::Contains => 2,
        }
    }

    /// Decodes a raw discriminant byte.
    pub fn try_from(v: u8) -> (r: Result<ExcludeType, Error>)
        ensures
            r == ExcludeType::spec_from(v),
    {
        if v == 0 {
            Ok(ExcludeType::Ends)
        } else if v == 1 {
            Ok(ExcludeType::Starts)
        } else if v == 2 {
            Ok(ExcludeType::Contains)
        } else {
            Err(Error::InvalidDiscriminant)
        }
    }
}

impl Serializable for ExcludeType {
    open spec fn wire(&self, a: Arch) -> Seq<u8> {
        seq![self.spec_tag()]
    }

    open spec fn wire_ok(&self, a: Arch) -> bool {
        true
    }

    fn serialize(&self, a: Arch) -> (r: Result<Vec<u8>, Error>) {
        let r: Vec<u8> = vec![self.tag()];
        proof {
            assert(r@ =~= seq![self.spec_tag()]);
        }
        Ok(r)
    }
}

/// One exclusion filter: how to match, and the text to match with.
#[derive(Debug, Clone, PartialEq)]
pub struct ExcludePair {
    pub kind: ExcludeType,
    pub value: String,
}

/// The mathematical form of an `ExcludePair`.
pub struct ExcludePairView {
    pub kind: ExcludeType,
    pub value: Seq<char>,
}

impl View for ExcludePair {
    type V = ExcludePairView;

    open spec fn view(&self) -> ExcludePairView {
        ExcludePairView { kind: self.kind, value: self.value@ }
    }
}

impl Serializable for ExcludePair {
    open spec fn wire(&self, a: Arch) -> Seq<u8> {
        self.kind.wire(a) + self.value.wire(a)
    }

    open spec fn wire_ok(&self, a: Arch) -> bool {
        str_ok(self.value@)
    }

    fn serialize(&self, a: Arch) -> (r: Result<Vec<u8>, Error>) {
        let b = BinaryBuilder::new_no_meta_with_arch(a);
        let b = b.add(&self.kind)?;
        let b = b.add(&self.value)?;
        Ok(b.build())
    }
}

impl Deserializable for ExcludePair {
    open spec fn spec_structure() -> Seq<SpecField> {
        seq![SpecField::U8, SpecField::String]
    }

    open spec fn spec_construct(fields: Seq<SpecValue>) -> Result<ExcludePairView, Error> {
        if !(fields.len() >= 1 && fields[0] is U8) {
            Err(Error::TypeMismatch)
        } else {
            match ExcludeType::spec_from(fields[0]->U8_0) {
                Err(e) => Err(e),
                Ok(t) => if !(fields.len() >= 2 && fields[1] is Str) {
                    Err(Error::TypeMismatch)
                } else {
                    Ok(ExcludePairView { kind: t, value: fields[1]->Str_0 })
                },
            }
        }
    }

    fn get_structure() -> (r: Structure) {
        let fields: Vec<Field> = vec![Field::U8, Field::String];
        let r = Structure { fields };
        proof {
            lemma_fields_model(r.fields@);
            assert(r@ =~= Self::spec_structure());
        }
        r
    }

    fn construct(fields: Vec<Value>) -> (r: Result<Self, Error>) {
        proof {
            lemma_values_model(fields@);
        }
        let ghost orig = fields@;
        let mut fields = fields;
        if fields.len() == 0 {
            return Err(Error::TypeMismatch);
        }
        let f0 = fields.remove(0);
        let tag: u8 = match f0 {
            Value::U8(x) => x,
            _ => {
                return Err(Error::TypeMismatch);
            },
        };
        let kind = match ExcludeType::try_from(tag) {
            Ok(t) => t,
            Err(e) => {
                return Err(e);
            },
        };
        proof {
            lemma_values_model(fields@);
            assert(forall|i: int| 0 <= i < fields@.len() ==> fields@[i] == orig[i + 1]);
        }
        if fields.len() == 0 {
            return Err(Error::TypeMismatch);
        }
        let f1 = fields.remove(0);
        let value: String = match f1 {
            Value::Str(s) => s,
            _ => {
                return Err(Error::TypeMismatch);
            },
        };
        Ok(ExcludePair { kind, value })
    }
}

/// Everything needed to fetch, build and select the output of one mod.
#[derive(Debug, Clone, PartialEq)]
pub struct ModBuild {
    pub id: String,
    pub name: String,
    pub git: String,
    pub branch: String,
    pub build: BuildType,
    pub cmd: Option<String>,
    pub out: String,
    pub exclude: Vec<ExcludePair>,
}

/// The mathematical form of a `ModBuild`.
pub struct ModBuildView {
    pub id: Seq<char>,
    pub name: Seq<char>,
    pub git: Seq<char>,
    pub branch: Seq<char>,
    pub build: BuildType,
    pub cmd: Option<Seq<char>>,
    pub out: Seq<char>,
    pub exclude: Seq<ExcludePairView>,
}

impl View for ModBuild {
    type V = ModBuildView;

    open spec fn view(&self) -> ModBuildView {
        ModBuildView {
            id: self.id@,
            name: self.name@,
            git: self.git@,
            branch: self.branch@,
            build: self.build,
            cmd: match self.cmd {
                Option::Some(c) => Option::Some(c@),
                Option::None => Option::None,
            },
            out: self.out@,
            exclude: self.exclude@.map_values(|p: ExcludePair| p@),
        }
    }
}

impl Serializable for ModBuild {
    open spec fn wire(&self, a: Arch) -> Seq<u8> {
        spec_modbuild_magic() + le_bytes(MODBUILD_VERSION as nat, 2) + seq![
            crate::wire::arch_tag(a),
        ] + self.id.wire(a) + self.name.wire(a) + self.git.wire(a) + self.branch.wire(a)
            + self.build.wire(a) + self.cmd.wire(a) + self.out.wire(a) + self.exclude.wire(a)
    }

    open spec fn wire_ok(&self, a: Arch) -> bool {
        &&& self.id.wire_ok(a)
        &&& self.name.wire_ok(a)
        &&& self.git.wire_ok(a)
        &&& self.branch.wire_ok(a)
        &&& self.cmd.wire_ok(a)
        &&& self.out.wire_ok(a)
        &&& self.exclude.wire_ok(a)
    }

    fn serialize(&self, a: Arch) -> (r: Result<Vec<u8>, Error>) {
        let magic = modbuild_magic();
        let b = BinaryBuilder::new_with_arch(magic.as_slice(), MODBUILD_VERSION, a);
        let b = b.add(&self.id)?;
        let b = b.add(&self.name)?;
        let b = b.add(&self.git)?;
        let b = b.add(&self.branch)?;
        let b = b.add(&self.build)?;
        let b = b.add(&self.cmd)?;
        let b = b.add(&self.out)?;
        let b = b.add(&self.exclude)?;
        Ok(b.build())
    }
}

} // verus!
