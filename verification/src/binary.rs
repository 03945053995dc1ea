use vstd::prelude::*;

use crate::deserialize::{
    spec_init, spec_read_le, spec_read_str, spec_read_vec, Deserialize,
};
use crate::error::Error;
use crate::modbuild::{
    modbuild_magic, spec_modbuild_magic, BuildType, ExcludePair, ExcludePairView, ModBuild,
    ModBuildView, MODBUILD_VERSION,
};

verus! {

/// What decoding a mod-build buffer yields: the record the bytes describe,
/// or the first error the bytes force. Bytes after the last field are
/// ignored.
pub open spec fn spec_deserialize(b: Seq<u8>) -> Result<ModBuildView, Error> {
    match spec_init(b, spec_modbuild_magic(), MODBUILD_VERSION) {
        Err(e) => Err(e),
        Ok((b0, t)) => match spec_read_str(b0) {
            Err(e) => Err(e),
            Ok((id, b1)) => match spec_read_str(b1) {
                Err(e) => Err(e),
                Ok((name, b2)) => match spec_read_str(b2) {
                    Err(e) => Err(e),
                    Ok((git, b3)) => match spec_read_str(b3) {
                        Err(e) => Err(e),
                        Ok((branch, b4)) => match spec_read_le(b4, 1) {
                            Err(e) => Err(e),
                            Ok((bi, b5)) => match BuildType::spec_from(bi as u8) {
                                Err(e) => Err(e),
                                Ok(build) => match (if build is Cmd {
                                    match spec_read_str(b5) {
                                        Ok((c, b6)) => Ok((Option::Some(c), b6)),
                                        Err(e) => Err(e),
                                    }
                                } else {
                                    Ok((Option::None, b5))
                                }) {
                                    Err(e) => Err(e),
                                    Ok((cmd, b6)) => match spec_read_str(b6) {
                                        Err(e) => Err(e),
                                        Ok((out, b7)) => match spec_read_vec::<ExcludePair>(
                                            b7,
                                            Some(t),
                                        ) {
                                            Err(e) => Err(e),
                                            Ok((exclude, b8)) => Ok(
                                                ModBuildView {
                                                    id,
                                                    name,
                                                    git,
                                                    branch,
                                                    build,
                                                    cmd,
                                                    out,
                                                    exclude,
                                                },
                                            ),
                                        },
                                    },
                                },
                            },
                        },
                    },
                },
            },
        },
    }
}

/// Decodes a top-level mod-build buffer: header, version and architecture
/// first, then the record's fields in declaration order.
pub fn deserialize(buf: &[u8]) -> (r: Result<ModBuild, Error>)
    ensures
        match spec_deserialize(buf@) {
            Ok(v) => r is Ok && r->Ok_0@ == v,
            Err(e) => r is Err && r->Err_0 == e,
        },
{
    let magic = modbuild_magic();
    let mut d = Deserialize::new(buf).init(magic.as_slice(), MODBUILD_VERSION)?;
    let id = d.read_string()?;
    let name = d.read_string()?;
    let git = d.read_string()?;
    let branch = d.read_string()?;
    let build_int = d.read_u8()?;
    let build = BuildType::try_from(build_int)?;
    let cmd = match build {
        BuildType::Cmd => Some(d.read_string()?),
        BuildType::Std => None,
    };
    let out = d.read_string()?;
    let exclude = d.read_vec()?;
    Ok(ModBuild { id, name, git, branch, build, cmd, out, exclude })
}

} // verus!
