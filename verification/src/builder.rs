use vstd::prelude::*;

use crate::error::{encode_error, Error};
use crate::types::Serializable;
use crate::wire::{arch_tag, le_bytes, le_encode, native_arch, spec_native_arch, Arch};

verus! {

/// An append-only accumulator for one encoded buffer. `new` prefixes the
/// header (magic tag, version, architecture byte); `new_no_meta` starts
/// empty, for nested records, which never repeat the header.
pub struct BinaryBuilder {
    buf: Vec<u8>,
    arch: Arch,
}

impl BinaryBuilder {
    /// The bytes accumulated so far.
    pub closed spec fn bytes(&self) -> Seq<u8> {
        self.buf@
    }

    /// The architecture whose size width every added value uses.
    pub closed spec fn arch(&self) -> Arch {
        self.arch
    }

    /// A builder whose size fields use the width native to this platform,
    /// primed with the header: the magic tag, the version little-endian in
    /// two bytes, and the architecture byte.
    pub fn new(header: &[u8], version: u16) -> (r: Self)
        ensures
            r.arch() == spec_native_arch(),
            r.bytes() == header@ + le_bytes(version as nat, 2) + seq![arch_tag(r.arch())],
    {
        Self::new_with_arch(header, version, native_arch())
    }

    /// A builder primed with the header, for an explicitly chosen
    /// architecture.
    pub fn new_with_arch(header: &[u8], version: u16, arch: Arch) -> (r: Self)
        ensures
            r.arch() == arch,
            r.bytes() == header@ + le_bytes(version as nat, 2) + seq![arch_tag(arch)],
    {
        let mut buf = vstd::slice::slice_to_vec(header);
        le_encode(version as u128, 2, &mut buf);
        buf.push(arch.tag());
        proof {
            assert(buf@ =~= header@ + le_bytes(version as nat, 2) + seq![arch_tag(arch)]);
        }
        BinaryBuilder { buf, arch }
    }

    /// An empty builder with the platform's native size width, for nested
    /// records.
    pub fn new_no_meta() -> (r: Self)
        ensures
            r.arch() == spec_native_arch(),
            r.bytes() == Seq::<u8>::empty(),
    {
        BinaryBuilder { buf: Vec::new(), arch: native_arch() }
    }

    /// An empty builder for an explicitly chosen architecture.
    pub fn new_no_meta_with_arch(arch: Arch) -> (r: Self)
        ensures
            r.arch() == arch,
            r.bytes() == Seq::<u8>::empty(),
    {
        BinaryBuilder { buf: Vec::new(), arch }
    }

    /// Appends one value's encoding and hands the builder back for chaining;
    /// the first encoding failure aborts the chain.
    pub fn add<T: Serializable>(self, value: &T) -> (r: Result<Self, Error>)
        ensures
            r is Ok <==> value.wire_ok(self.arch()),
            r is Ok ==> r->Ok_0.bytes() == self.bytes() + value.wire(self.arch()) && r->Ok_0.arch()
                == self.arch(),
            r is Err ==> encode_error(r->Err_0),
    {
        let BinaryBuilder { mut buf, arch } = self;
        match value.serialize(arch) {
            Ok(mut piece) => {
                buf.append(&mut piece);
                Ok(BinaryBuilder { buf, arch })
            },
            Err(e) => Err(e),
        }
    }

    /// Finalizes and returns the accumulated bytes.
    pub fn build(self) -> (r: Vec<u8>)
        ensures
            r@ == self.bytes(),
    {
        self.buf
    }
}

} // verus!
