use rilipak::binary::deserialize;
use rilipak::builder::BinaryBuilder;
use rilipak::deserialize::Deserialize;
use rilipak::modbuild::{BuildType, ExcludePair, ExcludeType, ModBuild};
use rilipak::types::Serializable;
use rilipak::wire::Arch;

fn sample_build() -> ModBuild {
    ModBuild {
        id: "testmod".into(),
        name: "Test mod".into(),
        git: "https://repo.git".into(),
        branch: "1.21.7".into(),
        build: BuildType::Cmd,
        cmd: Some("./gradlew build".into()),
        out: "@/target/".into(),
        exclude: vec![
            ExcludePair {
                kind: ExcludeType::Ends,
                value: "-source.jar".into(),
            },
            ExcludePair {
                kind: ExcludeType::Starts,
                value: "dev-".into(),
            },
        ],
    }
}

#[test]
fn roundtrip_serialize_deserialize() {
    let build = sample_build();

    let serialized = build.clone().serialize(Arch::A64).unwrap();
    println!("Serialized: {serialized:?}");
    let deserialized = deserialize(&serialized).unwrap();
    println!("Deserialized: {deserialized:?}");
    assert_eq!(build, deserialized);
}

#[test]
fn roundtrip_on_both_architectures() {
    let build = sample_build();
    for arch in [Arch::A32, Arch::A64] {
        let bytes = build.serialize(arch).unwrap();
        assert_eq!(deserialize(&bytes).unwrap(), build);
    }
}

#[test]
fn roundtrip_without_custom_command() {
    let build = ModBuild {
        id: "m".into(),
        name: "M".into(),
        git: "g".into(),
        branch: "b".into(),
        build: BuildType::Std,
        cmd: None,
        out: "dir:o".into(),
        exclude: vec![],
    };
    let bytes = build.serialize(Arch::A64).unwrap();
    assert_eq!(deserialize(&bytes).unwrap(), build);
}

#[test]
fn roundtrip_keeps_non_ascii_strings() {
    let build = ModBuild {
        id: "héllo-wörld".into(),
        name: "名前".into(),
        git: "g".into(),
        branch: "b".into(),
        build: BuildType::Std,
        cmd: None,
        out: "o".into(),
        exclude: vec![],
    };
    let bytes = build.serialize(Arch::A64).unwrap();
    assert_eq!(deserialize(&bytes).unwrap(), build);
}

#[test]
fn truncation_always_fails_with_an_error() {
    let build = sample_build();
    let bytes = build.serialize(Arch::A64).unwrap();
    for k in 0..bytes.len() {
        let r = deserialize(&bytes[..k]);
        assert!(r.is_err(), "truncation at {k} must fail");
    }
}

#[test]
fn sequence_length_and_order_survive_decoding() {
    let mut exclude = Vec::new();
    for i in 0..5u32 {
        exclude.push(ExcludePair {
            kind: ExcludeType::Contains,
            value: format!("piece-{i}"),
        });
    }
    let build = ModBuild {
        id: "m".into(),
        name: "M".into(),
        git: "g".into(),
        branch: "b".into(),
        build: BuildType::Std,
        cmd: None,
        out: "o".into(),
        exclude,
    };
    let bytes = build.serialize(Arch::A64).unwrap();
    let back = deserialize(&bytes).unwrap();
    assert_eq!(back.exclude.len(), 5);
    for i in 0..5usize {
        assert_eq!(back.exclude[i].value, format!("piece-{i}"));
    }
}

#[test]
fn architecture_tag_one_uses_eight_byte_counts() {
    let tags: Vec<String> = vec!["x".into(), "y".into()];
    let buf = BinaryBuilder::new_with_arch(b"hdr", 1, Arch::A64)
        .add(&tags)
        .unwrap()
        .add(&7u32)
        .unwrap()
        .build();
    // header(3) + version(2) + arch(1), then the count in exactly 8 bytes
    assert_eq!(buf[5], 1);
    assert_eq!(&buf[6..14], &[2, 0, 0, 0, 0, 0, 0, 0]);
    let mut d = Deserialize::new(&buf).init(b"hdr", 1).unwrap();
    assert_eq!(d.read_usize().unwrap(), 2);
    assert_eq!(d.read_string().unwrap(), "x");
    assert_eq!(d.read_string().unwrap(), "y");
    assert_eq!(d.read_u32().unwrap(), 7);
}

#[test]
fn architecture_tag_zero_uses_four_byte_counts() {
    let tags: Vec<String> = vec!["x".into(), "y".into()];
    let buf = BinaryBuilder::new_with_arch(b"hdr", 1, Arch::A32)
        .add(&tags)
        .unwrap()
        .build();
    assert_eq!(buf[5], 0);
    assert_eq!(&buf[6..10], &[2, 0, 0, 0]);
    let mut d = Deserialize::new(&buf).init(b"hdr", 1).unwrap();
    assert_eq!(d.read_usize().unwrap(), 2);
    assert_eq!(d.read_string().unwrap(), "x");
    assert_eq!(d.read_string().unwrap(), "y");
}

#[test]
fn small_record_with_tag_list_roundtrips() {
    let id: String = "a".into();
    let count: u8 = 2;
    let tags: Vec<String> = vec!["x".into(), "y".into()];
    let buf = BinaryBuilder::new_with_arch(b"rec", 1, Arch::A64)
        .add(&id)
        .unwrap()
        .add(&count)
        .unwrap()
        .add(&tags)
        .unwrap()
        .build();
    let mut d = Deserialize::new(&buf).init(b"rec", 1).unwrap();
    assert_eq!(d.read_string().unwrap(), "a");
    assert_eq!(d.read_u8().unwrap(), 2);
    let n = d.read_usize().unwrap();
    assert_eq!(n, 2);
    let mut back = Vec::new();
    for _ in 0..n {
        back.push(d.read_string().unwrap());
    }
    assert_eq!(back, tags);
}

#[test]
fn integer_fields_roundtrip_little_endian() {
    let buf = BinaryBuilder::new_no_meta()
        .add(&0x0102u16)
        .unwrap()
        .add(&0xdeadbeefu32)
        .unwrap()
        .add(&0x1122334455667788u64)
        .unwrap()
        .add(&0xaabbccddeeff00112233445566778899u128)
        .unwrap()
        .build();
    assert_eq!(&buf[0..2], &[0x02, 0x01]);
    assert_eq!(&buf[2..6], &[0xef, 0xbe, 0xad, 0xde]);
    let mut d = Deserialize::new(&buf);
    assert_eq!(d.read_u16().unwrap(), 0x0102);
    assert_eq!(d.read_u32().unwrap(), 0xdeadbeef);
    assert_eq!(d.read_u64().unwrap(), 0x1122334455667788);
    assert_eq!(d.read_u128().unwrap(), 0xaabbccddeeff00112233445566778899);
}
