use rilipak::check::{assert_valid_config, check_semver, ConfigError};
use rilipak::installer::{command_parts, Installer, InstallError, OutTarget};
use rilipak::modbuild::{BuildType, ExcludePair, ExcludeType, ModBuild};
use rilipak::packdata::{Mod, ModEnv, ModLoader, ModSource, Pack, PackConfig, PackMeta};
use rilipak::types::{Bytes, Serializable};
use rilipak::wire::Arch;

fn sample_build() -> ModBuild {
    ModBuild {
        id: "testmod".into(),
        name: "Test mod".into(),
        git: "https://repo.git".into(),
        branch: "1.21.7".into(),
        build: BuildType::Cmd,
        cmd: Some("./gradlew build".into()),
        out: "dir:@/target/".into(),
        exclude: vec![
            ExcludePair {
                kind: ExcludeType::Ends,
                value: "-source.jar".into(),
            },
            ExcludePair {
                kind: ExcludeType::Starts,
                value: "dev-".into(),
            },
        ],
    }
}

#[test]
fn exclusion_filters_match_as_the_kind_says() {
    let inst = Installer::new(sample_build()).unwrap();
    assert!(inst.should_exclude_file("mymod-source.jar"));
    assert!(inst.should_exclude_file("dev-mymod.jar"));
    assert!(!inst.should_exclude_file("mymod.jar"));
    assert!(!inst.should_exclude_file("source-mymod.jar"));
}

#[test]
fn contains_filter_matches_anywhere() {
    let mut b = sample_build();
    b.exclude = vec![ExcludePair {
        kind: ExcludeType::Contains,
        value: "dbg".into(),
    }];
    let inst = Installer::new(b).unwrap();
    assert!(inst.should_exclude_file("a-dbg-b.jar"));
    assert!(inst.should_exclude_file("dbg"));
    assert!(!inst.should_exclude_file("d-b-g"));
}

#[test]
fn install_paths_are_derived_from_id_and_branch() {
    let inst = Installer::new(sample_build()).unwrap();
    assert!(inst.build_path.starts_with(&inst.cache_dir));
    assert!(inst.build_path.ends_with("/testmod-1.21.7"));
}

#[test]
fn output_setting_resolves_at_signs_and_kind() {
    let inst = Installer::new(sample_build()).unwrap();
    match inst.get_built_files().unwrap() {
        OutTarget::Dir(p) => assert_eq!(p, format!("{}/target/", inst.build_path)),
        OutTarget::File(_) => panic!("expected a directory target"),
    }

    let mut b = sample_build();
    b.out = "file:@/out.jar".into();
    let inst = Installer::new(b).unwrap();
    match inst.get_built_files().unwrap() {
        OutTarget::File(p) => assert_eq!(p, format!("{}/out.jar", inst.build_path)),
        OutTarget::Dir(_) => panic!("expected a file target"),
    }

    let mut b = sample_build();
    b.out = "nonsense".into();
    let inst = Installer::new(b).unwrap();
    assert_eq!(
        inst.get_built_files().unwrap_err(),
        InstallError::InvalidOutputPath
    );
}

#[test]
fn exactly_one_surviving_file_is_picked() {
    let inst = Installer::new(sample_build()).unwrap();
    let names: Vec<String> = vec![
        "dev-mymod.jar".into(),
        "mymod.jar".into(),
        "mymod-source.jar".into(),
    ];
    assert_eq!(inst.pick_built_file(&names).unwrap(), "mymod.jar");

    let none: Vec<String> = vec!["dev-a.jar".into()];
    assert_eq!(
        inst.pick_built_file(&none).unwrap_err(),
        InstallError::NoUniqueOutput
    );

    let two: Vec<String> = vec!["a.jar".into(), "b.jar".into()];
    assert_eq!(
        inst.pick_built_file(&two).unwrap_err(),
        InstallError::NoUniqueOutput
    );
}

#[test]
fn build_command_splits_the_custom_command() {
    let inst = Installer::new(sample_build()).unwrap();
    let (program, args) = inst.build_command().unwrap();
    assert_eq!(program, "./gradlew");
    assert_eq!(args, vec!["build".to_string()]);
}

#[test]
fn build_command_without_custom_command_fails() {
    let mut b = sample_build();
    b.cmd = None;
    let inst = Installer::new(b).unwrap();
    assert_eq!(
        inst.build_command().unwrap_err(),
        InstallError::MissingCommand
    );
}

#[test]
fn standard_build_uses_the_gradle_invocation() {
    let mut b = sample_build();
    b.build = BuildType::Std;
    b.cmd = None;
    let inst = Installer::new(b).unwrap();
    let (program, args) = inst.build_command().unwrap();
    assert_eq!(program, "./gradlew");
    assert_eq!(args, vec!["build".to_string()]);
}

#[test]
fn empty_command_is_rejected() {
    assert_eq!(
        command_parts(vec![]).unwrap_err(),
        InstallError::EmptyCommand
    );
    let (p, a) = command_parts(vec!["make".into(), "-j".into(), "4".into()]).unwrap();
    assert_eq!(p, "make");
    assert_eq!(a, vec!["-j".to_string(), "4".to_string()]);
}

#[test]
fn git_invocations_carry_repository_branch_and_path() {
    let inst = Installer::new(sample_build()).unwrap();
    let (program, args) = inst.git_clone_command();
    assert_eq!(program, "git");
    assert_eq!(
        args,
        vec![
            "clone".to_string(),
            "https://repo.git".to_string(),
            inst.build_path.clone(),
            "-b".to_string(),
            "1.21.7".to_string(),
            "--depth".to_string(),
            "1".to_string(),
        ]
    );
    let (program, args) = inst.git_pull_command();
    assert_eq!(program, "git");
    assert_eq!(args, vec!["pull".to_string()]);
}

fn sample_config(version: &str) -> PackConfig {
    PackConfig {
        id: "my_pack".into(),
        name: "My Pack".into(),
        author: "Me!".into(),
        version: version.into(),
        loader: ModLoader::Fabric,
        mods: vec![Mod {
            source: ModSource::Modrinth,
            id: "sodium".into(),
            env: ModEnv::Client,
        }],
    }
}

#[test]
fn semver_versions_are_accepted_and_others_rejected() {
    assert!(check_semver(&sample_config("1.0.0")));
    assert!(check_semver(&sample_config("0.2.1")));
    assert!(!check_semver(&sample_config("not-a-version")));
    assert!(!check_semver(&sample_config("1.0")));
    assert!(assert_valid_config(&sample_config("1.2.3")).is_ok());
    assert_eq!(
        assert_valid_config(&sample_config("x")).unwrap_err(),
        ConfigError::InvalidVersion
    );
}

#[test]
fn default_config_holds_the_starting_values() {
    let c = PackConfig::default();
    assert_eq!(c.id, "my_pack");
    assert_eq!(c.name, "My Pack");
    assert_eq!(c.author, "Me!");
    assert_eq!(c.version, "1.0.0");
    assert_eq!(c.loader, ModLoader::Fabric);
    assert!(c.mods.is_empty());
}

#[test]
fn pack_serialization_starts_with_its_header() {
    let pack = Pack {
        meta: PackMeta {
            config: sample_config("1.0.0"),
            modbuilds: vec![Bytes {
                bytes: vec![1, 2, 3],
            }],
        },
        payload: Bytes {
            bytes: vec![9, 9],
        },
    };
    let bytes = pack.serialize(Arch::A64).unwrap();
    assert_eq!(&bytes[0..7], b"rilipak");
    assert_eq!(&bytes[7..9], &[1, 0]);
    assert_eq!(bytes[9], 1);
    // the configuration's first field follows as a zero-terminated string
    assert_eq!(&bytes[10..18], b"my_pack\x00");
    // the raw payload closes the buffer
    assert_eq!(&bytes[bytes.len() - 2..], &[9, 9]);
}

#[test]
fn loader_source_and_env_discriminants_are_checked() {
    assert_eq!(ModLoader::try_from(3).unwrap(), ModLoader::Quilt);
    assert!(ModLoader::try_from(4).is_err());
    assert_eq!(ModSource::try_from(2).unwrap(), ModSource::Github);
    assert!(ModSource::try_from(3).is_err());
    assert_eq!(ModEnv::try_from(0).unwrap(), ModEnv::Server);
    assert!(ModEnv::try_from(3).is_err());
}
