use rilipak::binary::deserialize;
use rilipak::builder::BinaryBuilder;
use rilipak::deserialize::Deserialize;
use rilipak::error::Error;
use rilipak::modbuild::{BuildType, ExcludePair, ExcludeType, ModBuild};
use rilipak::types::{Deserializable, Serializable, Value};
use rilipak::wire::Arch;

fn sample_build() -> ModBuild {
    ModBuild {
        id: "m".into(),
        name: "M".into(),
        git: "g".into(),
        branch: "b".into(),
        build: BuildType::Std,
        cmd: None,
        out: "o".into(),
        exclude: vec![],
    }
}

/// A well-formed header followed by whatever `body` holds.
fn with_header(arch: u8, body: &[u8]) -> Vec<u8> {
    let mut buf = Vec::new();
    buf.extend_from_slice(b"mcmodbuild");
    buf.extend_from_slice(&[1, 0]);
    buf.push(arch);
    buf.extend_from_slice(body);
    buf
}

#[test]
fn wrong_magic_fails_invalid_header() {
    let r = deserialize(b"mcmodpuild\x01\x00\x01a\x00");
    assert_eq!(r.unwrap_err(), Error::InvalidHeader);
}

#[test]
fn short_buffer_fails_invalid_header() {
    assert_eq!(deserialize(b"mcmod").unwrap_err(), Error::InvalidHeader);
    assert_eq!(deserialize(b"").unwrap_err(), Error::InvalidHeader);
}

#[test]
fn wrong_version_fails_version_mismatch() {
    let mut buf = Vec::new();
    buf.extend_from_slice(b"mcmodbuild");
    buf.extend_from_slice(&[2, 0, 1]);
    buf.extend_from_slice(b"a\x00");
    assert_eq!(deserialize(&buf).unwrap_err(), Error::VersionMismatch);
}

#[test]
fn unterminated_string_fails() {
    // magic "mcmodbuild", version 1, arch 1, then a string with no zero
    let buf = with_header(1, b"abc");
    assert_eq!(deserialize(&buf).unwrap_err(), Error::UnterminatedString);
}

#[test]
fn invalid_utf8_before_terminator_fails() {
    let buf = with_header(1, &[0xff, 0x00]);
    assert_eq!(deserialize(&buf).unwrap_err(), Error::InvalidString);
}

#[test]
fn discriminant_outside_two_variant_domain_fails() {
    assert_eq!(BuildType::try_from(0).unwrap(), BuildType::Cmd);
    assert_eq!(BuildType::try_from(1).unwrap(), BuildType::Std);
    assert_eq!(BuildType::try_from(2).unwrap_err(), Error::InvalidDiscriminant);
    assert_eq!(ExcludeType::try_from(3).unwrap_err(), Error::InvalidDiscriminant);
}

#[test]
fn bad_build_discriminant_in_buffer_fails() {
    // four strings, then a build byte outside {0, 1}
    let buf = with_header(1, b"i\x00n\x00g\x00b\x00\x02");
    assert_eq!(deserialize(&buf).unwrap_err(), Error::InvalidDiscriminant);
}

#[test]
fn bad_architecture_byte_fails_at_first_size_read() {
    let good = sample_build().serialize(Arch::A64).unwrap();
    let mut bad = good.clone();
    bad[12] = 7; // the architecture byte, after the magic tag and version
    assert_eq!(deserialize(&bad).unwrap_err(), Error::InvalidArchitectureTag);
}

#[test]
fn size_read_before_architecture_fails() {
    let mut d = Deserialize::new(&[1, 2, 3, 4, 5, 6, 7, 8]);
    assert_eq!(d.read_usize().unwrap_err(), Error::ArchitectureNotSet);
}

#[test]
fn missing_bytes_fail_truncated_buffer() {
    let mut d = Deserialize::new(&[1, 2]);
    assert_eq!(d.read_u32().unwrap_err(), Error::TruncatedBuffer);
    let mut d = Deserialize::new(&[]);
    assert_eq!(d.read_u8().unwrap_err(), Error::TruncatedBuffer);
}

#[test]
fn oversized_count_fails_size_overflow_when_encoding_narrow() {
    let too_big: usize = 0x1_0000_0000;
    assert_eq!(
        too_big.serialize(Arch::A32).unwrap_err(),
        Error::SizeOverflow
    );
    assert!(too_big.serialize(Arch::A64).is_ok());
}

#[test]
fn embedded_zero_byte_fails_string_encoding() {
    let s: String = "a\0b".into();
    assert_eq!(s.serialize(Arch::A64).unwrap_err(), Error::StringContainsNul);
    let build = ModBuild {
        id: "a\0b".into(),
        ..sample_build()
    };
    assert_eq!(
        build.serialize(Arch::A64).unwrap_err(),
        Error::StringContainsNul
    );
}

#[test]
fn reconstruction_with_wrong_kind_fails_type_mismatch() {
    let r = ExcludePair::construct(vec![Value::Str("x".into()), Value::Str("y".into())]);
    assert_eq!(r.unwrap_err(), Error::TypeMismatch);
    let r = ExcludePair::construct(vec![]);
    assert_eq!(r.unwrap_err(), Error::TypeMismatch);
    let r = ExcludePair::construct(vec![Value::U8(0)]);
    assert_eq!(r.unwrap_err(), Error::TypeMismatch);
}

#[test]
fn reconstruction_with_bad_discriminant_fails() {
    let r = ExcludePair::construct(vec![Value::U8(9), Value::Str("y".into())]);
    assert_eq!(r.unwrap_err(), Error::InvalidDiscriminant);
}

#[test]
fn reconstruction_with_good_values_succeeds() {
    let p = ExcludePair::construct(vec![Value::U8(1), Value::Str("dev-".into())]).unwrap();
    assert_eq!(p.kind, ExcludeType::Starts);
    assert_eq!(p.value, "dev-");
}

#[test]
fn generic_reader_rebuilds_a_vector_of_records() {
    let pairs = vec![
        ExcludePair {
            kind: ExcludeType::Ends,
            value: "-source.jar".into(),
        },
        ExcludePair {
            kind: ExcludeType::Contains,
            value: "dbg".into(),
        },
    ];
    let buf = BinaryBuilder::new_with_arch(b"h", 3, Arch::A64)
        .add(&pairs)
        .unwrap()
        .build();
    let mut d = Deserialize::new(&buf).init(b"h", 3).unwrap();
    let back: Vec<ExcludePair> = d.read_vec().unwrap();
    assert_eq!(back, pairs);
}

#[test]
fn generic_reader_rebuilds_a_single_record() {
    let pair = ExcludePair {
        kind: ExcludeType::Ends,
        value: "-x".into(),
    };
    let buf = BinaryBuilder::new_no_meta()
        .add(&pair)
        .unwrap()
        .build();
    let mut d = Deserialize::new(&buf);
    let back: ExcludePair = d.read_struct().unwrap();
    assert_eq!(back, pair);
}
