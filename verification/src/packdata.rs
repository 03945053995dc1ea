use vstd::prelude::*;

use crate::builder::BinaryBuilder;
use crate::error::Error;
use crate::types::{Bytes, Serializable};
use crate::wire::{le_bytes, str_ok, Arch};
use vstd::string::StringExecFns;

verus! {

/// The wire version of the pack format.
pub const PACK_VERSION: u16 = 1;

/// The magic tag of a top-level pack buffer: the ASCII bytes of "rilipak".
pub open spec fn spec_pack_magic() -> Seq<u8> {
    seq![114u8, 105u8, 108u8, 105u8, 112u8, 97u8, 107u8]
}

/// The magic tag of a top-level pack buffer.
pub fn pack_magic() -> (r: Vec<u8>)
    ensures
        r@ == spec_pack_magic(),
{
    let r: Vec<u8> = vec![114u8, 105u8, 108u8, 105u8, 112u8, 97u8, 107u8];
    proof {
        assert(r@ =~= spec_pack_magic());
    }
    r
}

/// The mod loader a pack is built for.
#[derive(Debug, Clone, Copy, PartialEq, Eq, Structural)]
pub enum ModLoader {
    Fabric,
    Forge,
    Neoforge,
    Quilt,
}

impl ModLoader {
    /// The single-byte discriminant this variant is encoded as.
    pub open spec fn spec_tag(self) -> u8 {
        match self {
            ModLoader::Fabric => 0,
            ModLoader::Forge => 1,
            ModLoader::Neoforge => 2,
            ModLoader::Quilt => 3,
        }
    }

    /// The variant a raw byte stands for; bytes outside {0, 1, 2, 3} are
    /// `InvalidDiscriminant`.
    pub open spec fn spec_from(v: u8) -> Result<ModLoader, Error> {
        if v == 0 {
            Ok(ModLoader::Fabric)
        } else if v == 1 {
            Ok(ModLoader::Forge)
        } else if v == 2 {
            Ok(ModLoader::Neoforge)
        } else if v == 3 {
            Ok(ModLoader::Quilt)
        } else {
            Err(Error::InvalidDiscriminant)
        }
    }

    /// The single-byte discriminant this variant is encoded as.
    pub fn tag(&self) -> (r: u8)
        ensures
            r == self.spec_tag(),
    {
        match self {
            ModLoader::Fabric => 0,
            ModLoader::Forge => 1,
            ModLoader::Neoforge => 2,
            ModLoader::Quilt => 3,
        }
    }

    /// Decodes a raw discriminant byte.
    pub fn try_from(v: u8) -> (r: Result<ModLoader, Error>)
        ensures
            r == ModLoader::spec_from(v),
    {
        if v == 0 {
            Ok(ModLoader::Fabric)
        } else if v == 1 {
            Ok(ModLoader::Forge)
        } else if v == 2 {
            Ok(ModLoader::Neoforge)
        } else if v == 3 {
            Ok(ModLoader::Quilt)
        } else {
            Err(Error::InvalidDiscriminant)
        }
    }
}

impl Serializable for ModLoader {
    open spec fn wire(&self, a: Arch) -> Seq<u8> {
        seq![self.spec_tag()]
    }

    open spec fn wire_ok(&self, a: Arch) -> bool {
        true
    }

    fn serialize(&self, a: Arch) -> (r: Result<Vec<u8>, Error>) {
        let r: Vec<u8> = vec![self.tag()];
        proof {
            assert(r@ =~= seq![self.spec_tag()]);
        }
        Ok(r)
    }
}

/// Where a mod is fetched from.
#[derive(Debug, Clone, Copy, PartialEq, Eq, Structural)]
pub enum ModSource {
    Curseforge,
    Modrinth,
    Github,
}

impl ModSource {
    /// The single-byte discriminant this variant is encoded as.
    pub open spec fn spec_tag(self) -> u8 {
        match self {
            ModSource::Curseforge => 0,
            ModSource::Modrinth => 1,
            ModSource::Github => 2,
        }
    }

    /// The variant a raw byte stands for; bytes outside {0, 1, 2} are
    /// `InvalidDiscriminant`.
    pub open spec fn spec_from(v: u8) -> Result<ModSource, Error> {
        if v == 0 {
            Ok(ModSource::Curseforge)
        } else if v == 1 {
            Ok(ModSource::Modrinth)
        } else if v == 2 {
            Ok(ModSource::Github)
        } else {
            Err(Error::InvalidDiscriminant)
        }
    }

    /// The single-byte discriminant this variant is encoded as.
    pub fn tag(&self) -> (r: u8)
        ensures
            r == self.spec_tag(),
    {
        match self {
            ModSource::Curseforge => 0,
            ModSource::Modrinth => 1,
            ModSource::Github => 2,
        }
    }

    /// Decodes a raw discriminant byte.
    pub fn try_from(v: u8) -> (r: Result<ModSource, Error>)
        ensures
            r == ModSource::spec_from(v),
    {
        if v == 0 {
            Ok(ModSource::Curseforge)
        } else if v == 1 {
            Ok(ModSource::Modrinth)
        } else if v == 2 {
            Ok(ModSource::Github)
        } else {
            Err(Error::InvalidDiscriminant)
        }
    }
}

impl Serializable for ModSource {
    open spec fn wire(&self, a: Arch) -> Seq<u8> {
        seq![self.spec_tag()]
    }

    open spec fn wire_ok(&self, a: Arch) -> bool {
        true
    }

    fn serialize(&self, a: Arch) -> (r: Result<Vec<u8>, Error>) {
        let r: Vec<u8> = vec![self.tag()];
        proof {
            assert(r@ =~= seq![self.spec_tag()]);
        }
        Ok(r)
    }
}

/// Which side of the game a mod runs on.
#[derive(Debug, Clone, Copy, PartialEq, Eq, Structural)]
pub enum ModEnv {
    Server,
    Client,
    Common,
}

impl ModEnv {
    /// The single-byte discriminant this variant is encoded as.
    pub open spec fn spec_tag(self) -> u8 {
        match self {
            ModEnv::Server => 0,
            ModEnv::Client => 1,
            ModEnv::Common => 2,
        }
    }

    /// The variant a raw byte stands for; bytes outside {0, 1, 2} are
    /// `InvalidDiscriminant`.
    pub open spec fn spec_from(v: u8) -> Result<ModEnv, Error> {
        if v == 0 {
            Ok(ModEnv::Server)
        } else if v == 1 {
            Ok(ModEnv::Client)
        } else if v == 2 {
            Ok(ModEnv::Common)
        } else {
            Err(Error::InvalidDiscriminant)
        }
    }

    /// The single-byte discriminant this variant is encoded as.
    pub fn tag(&self) -> (r: u8)
        ensures
            r == self.spec_tag(),
    {
        match self {
            ModEnv::Server => 0,
            ModEnv::Client => 1,
            ModEnv::Common => 2,
        }
    }

    /// Decodes a raw discriminant byte.
    pub fn try_from(v: u8) -> (r: Result<ModEnv, Error>)
        ensures
            r == ModEnv::spec_from(v),
    {
        if v == 0 {
            Ok(ModEnv::Server)
        } else if v == 1 {
            Ok(ModEnv::Client)
        } else if v == 2 {
            Ok(ModEnv::Common)
        } else {
            Err(Error::InvalidDiscriminant)
        }
    }
}

impl Serializable for ModEnv {
    open spec fn wire(&self, a: Arch) -> Seq<u8> {
        seq![self.spec_tag()]
    }

    open spec fn wire_ok(&self, a: Arch) -> bool {
        true
    }

    fn serialize(&self, a: Arch) -> (r: Result<Vec<u8>, Error>) {
        let r: Vec<u8> = vec![self.tag()];
        proof {
            assert(r@ =~= seq![self.spec_tag()]);
        }
        Ok(r)
    }
}

/// One mod of a pack: where it comes from, its identifier, and where it
/// runs.
#[derive(Debug, Clone, PartialEq)]
pub struct Mod {
    pub source: ModSource,
    pub id: String,
    pub env: ModEnv,
}

/// The mathematical form of a `Mod`.
pub struct ModView {
    pub source: ModSource,
    pub id: Seq<char>,
    pub env: ModEnv,
}

impl View for Mod {
    type V = ModView;

    open spec fn view(&self) -> ModView {
        ModView { source: self.source, id: self.id@, env: self.env }
    }
}

impl Serializable for Mod {
    open spec fn wire(&self, a: Arch) -> Seq<u8> {
        self.source.wire(a) + self.id.wire(a) + self.env.wire(a)
    }

    open spec fn wire_ok(&self, a: Arch) -> bool {
        str_ok(self.id@)
    }

    fn serialize(&self, a: Arch) -> (r: Result<Vec<u8>, Error>) {
        let b = BinaryBuilder::new_no_meta_with_arch(a);
        let b = b.add(&self.source)?;
        let b = b.add(&self.id)?;
        let b = b.add(&self.env)?;
        Ok(b.build())
    }
}

/// The user-facing description of a pack, read from its configuration.
#[derive(Debug, Clone, PartialEq)]
pub struct PackConfig {
    pub id: String,
    pub name: String,
    pub author: String,
    pub version: String,
    pub loader: ModLoader,
    pub mods: Vec<Mod>,
}

/// The mathematical form of a `PackConfig`.
pub struct PackConfigView {
    pub id: Seq<char>,
    pub name: Seq<char>,
    pub author: Seq<char>,
    pub version: Seq<char>,
    pub loader: ModLoader,
    pub mods: Seq<ModView>,
}

impl View for PackConfig {
    type V = PackConfigView;

    open spec fn view(&self) -> PackConfigView {
        PackConfigView {
            id: self.id@,
            name: self.name@,
            author: self.author@,
            version: self.version@,
            loader: self.loader,
            mods: self.mods@.map_values(|m: Mod| m@),
        }
    }
}

impl Serializable for PackConfig {
    open spec fn wire(&self, a: Arch) -> Seq<u8> {
        self.id.wire(a) + self.name.wire(a) + self.author.wire(a) + self.version.wire(a)
            + self.loader.wire(a) + self.mods.wire(a)
    }

    open spec fn wire_ok(&self, a: Arch) -> bool {
        &&& self.id.wire_ok(a)
        &&& self.name.wire_ok(a)
        &&& self.author.wire_ok(a)
        &&& self.version.wire_ok(a)
        &&& self.mods.wire_ok(a)
    }

    fn serialize(&self, a: Arch) -> (r: Result<Vec<u8>, Error>) {
        let b = BinaryBuilder::new_no_meta_with_arch(a);
        let b = b.add(&self.id)?;
        let b = b.add(&self.name)?;
        let b = b.add(&self.author)?;
        let b = b.add(&self.version)?;
        let b = b.add(&self.loader)?;
        let b = b.add(&self.mods)?;
        Ok(b.build())
    }
}

impl Default for PackConfig {
    /// The configuration a freshly initialized pack starts from.
    fn default() -> (r: PackConfig)
        ensures
            r.id@ == "my_pack"@,
            r.name@ == "My Pack"@,
            r.author@ == "Me!"@,
            r.version@ == "1.0.0"@,
            r.loader == ModLoader::Fabric,
            r.mods@.len() == 0,
    {
        PackConfig {
            id: String::from_str("my_pack"),
            name: String::from_str("My Pack"),
            author: String::from_str("Me!"),
            version: String::from_str("1.0.0"),
            loader: ModLoader::Fabric,
            mods: Vec::new(),
        }
    }
}

/// The metadata block of a pack: its configuration and the already-encoded
/// mod-build payloads it bundles.
#[derive(Debug, Clone, PartialEq)]
pub struct PackMeta {
    pub config: PackConfig,
    pub modbuilds: Vec<Bytes>,
}

/// The mathematical form of a `PackMeta`.
pub struct PackMetaView {
    pub config: PackConfigView,
    pub modbuilds: Seq<Seq<u8>>,
}

impl View for PackMeta {
    type V = PackMetaView;

    open spec fn view(&self) -> PackMetaView {
        PackMetaView {
            config: self.config@,
            modbuilds: self.modbuilds@.map_values(|b: Bytes| b@),
        }
    }
}

impl Serializable for PackMeta {
    open spec fn wire(&self, a: Arch) -> Seq<u8> {
        self.config.wire(a) + self.modbuilds.wire(a)
    }

    open spec fn wire_ok(&self, a: Arch) -> bool {
        self.config.wire_ok(a) && self.modbuilds.wire_ok(a)
    }

    fn serialize(&self, a: Arch) -> (r: Result<Vec<u8>, Error>) {
        let b = BinaryBuilder::new_no_meta_with_arch(a);
        let b = b.add(&self.config)?;
        let b = b.add(&self.modbuilds)?;
        Ok(b.build())
    }
}

/// A whole pack: its metadata and the zipped directory payload, under the
/// pack header.
#[derive(Debug, Clone, PartialEq)]
pub struct Pack {
    pub meta: PackMeta,
    pub payload: Bytes,
}

/// The mathematical form of a `Pack`.
pub struct PackView {
    pub meta: PackMetaView,
    pub payload: Seq<u8>,
}

impl View for Pack {
    type V = PackView;

    open spec fn view(&self) -> PackView {
        PackView { meta: self.meta@, payload: self.payload@ }
    }
}

impl Serializable for Pack {
    open spec fn wire(&self, a: Arch) -> Seq<u8> {
        spec_pack_magic() + le_bytes(PACK_VERSION as nat, 2) + seq![crate::wire::arch_tag(a)]
            + self.meta.wire(a) + self.payload.wire(a)
    }

    open spec fn wire_ok(&self, a: Arch) -> bool {
        self.meta.wire_ok(a)
    }

    fn serialize(&self, a: Arch) -> (r: Result<Vec<u8>, Error>) {
        let magic = pack_magic();
        let b = BinaryBuilder::new_with_arch(magic.as_slice(), PACK_VERSION, a);
        let b = b.add(&self.meta)?;
        let b = b.add(&self.payload)?;
        Ok(b.build())
    }
}

} // verus!
