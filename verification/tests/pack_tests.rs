use athena::AthenaError;
use athena::Pack;
use athena::PackChannel;
use athena::PackEnv;
use athena::PackFile;
use athena::PackGame;
use athena::PackMetadata;
use athena::PackSource;
use athena::PackVersion;
use athena::StructuralKind;
use athena::VersionConstraint;

static PACK_HEADER: &str = r#"
        [modpack]
        name = "deadbeef"
        version = "0.1.0"
        summary = "Lorem ipsum dolor sit amet"
    "#;

/// Join the header and the body the way the original documents were written:
/// every line trimmed, one per line.
fn make_doc(ser: &str) -> String {
    [PACK_HEADER, ser]
        .iter()
        .map(|it| it.trim_start())
        .flat_map(|it| it.split('\n'))
        .map(str::trim)
        .fold(String::new(), |acc, it| format!("{}{}\n", acc, it))
}

fn default_metadata() -> PackMetadata {
    PackMetadata {
        name: String::from("deadbeef"),
        version: String::from("0.1.0"),
        summary: Some(String::from("Lorem ipsum dolor sit amet")),
    }
}

fn test_pack(ser: &str, de: Pack) {
    let pack_str = make_doc(ser);
    println!("{}", pack_str);
    let actual = Pack::parse(&pack_str).expect("the document must parse");
    assert_eq!(de, actual);
}

#[test]
fn vanilla() {
    const PACK: &str = r#"
            [game]
            minecraft = "1.17.1"
        "#;

    let expected = Pack {
        modpack: default_metadata(),
        game: PackGame::MinecraftVanilla {
            minecraft: String::from("1.17.1"),
        },
        sources: Vec::new(),
        files: Vec::new(),
    };

    test_pack(PACK, expected);
}

#[test]
fn pure_fabric() {
    const PACK: &str = r#"
            [game]
            minecraft = "1.17.1"
            fabric-loader = "0.9.0"
        "#;

    let expected = Pack {
        modpack: default_metadata(),
        game: PackGame::MinecraftFabric {
            minecraft: String::from("1.17.1"),
            fabric_loader: String::from("0.9.0"),
        },
        sources: Vec::new(),
        files: Vec::new(),
    };

    test_pack(PACK, expected);
}

#[test]
fn sodium_fabric() {
    const PACK: &str = r#"
            [game]
            minecraft = "1.17.1"
            fabric-loader = "0.9.0"

            [sources.modrinth]
            type = "labrinth.v1"
            url = "https://api.modrinth.com"

            [[files]]
            path = "mods/sodium.jar"
            sources = ["modrinth"]
            environment = "client"

            [files.version]
            type = "latest"
            channel = "release"
        "#;

    let expected = Pack {
        modpack: default_metadata(),
        game: PackGame::MinecraftFabric {
            minecraft: String::from("1.17.1"),
            fabric_loader: String::from("0.9.0"),
        },
        sources: vec![(
            String::from("modrinth"),
            PackSource::LabrinthV1 {
                url: String::from("https://api.modrinth.com"),
            },
        )],
        files: vec![PackFile {
            path: String::from("mods/sodium.jar"),
            sources: Some(vec![String::from("modrinth")]),
            version: PackVersion::Latest {
                channel: PackChannel::Release,
            },
            environment: Some(PackEnv::Client),
        }],
    };

    test_pack(PACK, expected);
}

#[test]
fn forge_pack() {
    const PACK: &str = r#"
            [game]
            minecraft = "1.12.2"
            forge = "14.23"
        "#;

    let expected = Pack {
        modpack: default_metadata(),
        game: PackGame::MinecraftForge {
            minecraft: String::from("1.12.2"),
            forge: String::from("14.23"),
        },
        sources: Vec::new(),
        files: Vec::new(),
    };

    test_pack(PACK, expected);
}

#[test]
fn fabric_scenario_without_summary() {
    let doc = "[modpack]\nname = \"deadbeef\"\nversion = \"0.1.0\"\n\
               [game]\nminecraft = \"1.17.1\"\nfabric-loader = \"0.9.0\"\n\
               [sources.modrinth]\ntype = \"labrinth.v1\"\nurl = \"https://api.modrinth.com\"\n\
               [[files]]\npath = \"mods/sodium.jar\"\nsources = [\"modrinth\"]\nenvironment = \"client\"\n\
               [files.version]\ntype = \"latest\"\nchannel = \"release\"\n";
    let pack = Pack::parse(doc).expect("the document must parse");
    assert_eq!(
        pack,
        Pack {
            modpack: PackMetadata {
                name: String::from("deadbeef"),
                version: String::from("0.1.0"),
                summary: None,
            },
            game: PackGame::MinecraftFabric {
                minecraft: String::from("1.17.1"),
                fabric_loader: String::from("0.9.0"),
            },
            sources: vec![(
                String::from("modrinth"),
                PackSource::LabrinthV1 { url: String::from("https://api.modrinth.com") },
            )],
            files: vec![PackFile {
                path: String::from("mods/sodium.jar"),
                sources: Some(vec![String::from("modrinth")]),
                version: PackVersion::Latest { channel: PackChannel::Release },
                environment: Some(PackEnv::Client),
            }],
        }
    );
}

#[test]
fn ambiguous_game_rejected() {
    const PACK: &str = r#"
            [game]
            minecraft = "1.17.1"
            fabric-loader = "0.9.0"
            forge = "14.23"
        "#;
    let err = Pack::parse(&make_doc(PACK)).unwrap_err();
    match err {
        AthenaError::Structure { kind, .. } => assert_eq!(kind, StructuralKind::AmbiguousGame),
        other => panic!("expected a structural error, got {:?}", other),
    }
}

#[test]
fn default_channel_is_release() {
    const PACK: &str = r#"
            [game]
            minecraft = "1.17.1"

            [[files]]
            path = "mods/a.jar"

            [files.version]
            type = "latest"
        "#;
    let pack = Pack::parse(&make_doc(PACK)).expect("the document must parse");
    assert_eq!(
        pack.files[0].version,
        PackVersion::Latest { channel: PackChannel::Release }
    );
}

#[test]
fn default_environment_is_both() {
    const PACK: &str = r#"
            [game]
            minecraft = "1.17.1"

            [[files]]
            path = "mods/a.jar"

            [files.version]
            type = "latest"
        "#;
    let pack = Pack::parse(&make_doc(PACK)).expect("the document must parse");
    assert_eq!(pack.files[0].environment, None);
    assert_eq!(pack.files[0].environment_or_default(), PackEnv::Both);
    assert_eq!(PackEnv::default(), PackEnv::Both);
    assert_eq!(PackChannel::default(), PackChannel::Release);
}

#[test]
fn unknown_source_tag_rejected() {
    const PACK: &str = r#"
            [game]
            minecraft = "1.17.1"

            [sources.other]
            type = "unknown.v1"
            url = "https://example.com"
        "#;
    let err = Pack::parse(&make_doc(PACK)).unwrap_err();
    match err {
        AthenaError::UnknownVariant { tag, .. } => assert_eq!(tag, "unknown.v1"),
        other => panic!("expected an unknown-variant error, got {:?}", other),
    }
}

#[test]
fn bad_semver_rejected() {
    const PACK: &str = r#"
            [game]
            minecraft = "1.17.1"

            [[files]]
            path = "mods/a.jar"

            [files.version]
            type = "semver"
            version = "not a range"
        "#;
    let err = Pack::parse(&make_doc(PACK)).unwrap_err();
    match err {
        AthenaError::ConstraintSyntax { text, detail, .. } => {
            assert_eq!(text, "not a range");
            assert!(!detail.is_empty());
        }
        other => panic!("expected a constraint-syntax error, got {:?}", other),
    }
}

#[test]
fn semver_strategy_accepted() {
    const PACK: &str = r#"
            [game]
            minecraft = "1.17.1"

            [[files]]
            path = "mods/a.jar"

            [files.version]
            type = "semver"
            version = ">=1.2, <2"
        "#;
    let pack = Pack::parse(&make_doc(PACK)).expect("the document must parse");
    match &pack.files[0].version {
        PackVersion::SemVer { version } => assert_eq!(version.as_text(), ">=1.2, <2"),
        other => panic!("expected a semver strategy, got {:?}", other),
    }
}

#[test]
fn exact_and_download_strategies() {
    const PACK: &str = r#"
            [game]
            minecraft = "1.17.1"

            [[files]]
            path = "mods/a.jar"

            [files.version]
            type = "exact"
            version = "1.2.3-build4"

            [[files]]
            path = "mods/b.jar"

            [files.version]
            type = "download"
            sources = ["https://b.example/2", "https://a.example/1"]
            sha1 = "aaaa"
        "#;
    let pack = Pack::parse(&make_doc(PACK)).expect("the document must parse");
    assert_eq!(
        pack.files[0].version,
        PackVersion::Exact { version: String::from("1.2.3-build4") }
    );
    // Download sources are a sequence: document order is preserved, unsorted.
    assert_eq!(
        pack.files[1].version,
        PackVersion::Download {
            sources: vec![
                String::from("https://b.example/2"),
                String::from("https://a.example/1"),
            ],
            sha1: Some(String::from("aaaa")),
        }
    );
}

#[test]
fn file_sources_deduplicate_and_sort() {
    const PACK: &str = r#"
            [game]
            minecraft = "1.17.1"

            [[files]]
            path = "mods/a.jar"
            sources = ["zeta", "alpha", "zeta"]

            [files.version]
            type = "latest"
        "#;
    let pack = Pack::parse(&make_doc(PACK)).expect("the document must parse");
    assert_eq!(
        pack.files[0].sources,
        Some(vec![String::from("alpha"), String::from("zeta")])
    );
}

#[test]
fn sources_table_sorts_by_name() {
    const PACK: &str = r#"
            [game]
            minecraft = "1.17.1"

            [sources.zeta]
            type = "labrinth.v1"
            url = "https://z.example"

            [sources.alpha]
            type = "labrinth.v1"
            url = "https://a.example"
        "#;
    let pack = Pack::parse(&make_doc(PACK)).expect("the document must parse");
    assert_eq!(pack.sources[0].0, "alpha");
    assert_eq!(pack.sources[1].0, "zeta");
}

#[test]
fn missing_required_fields_rejected() {
    // A modpack table without a version.
    let doc = "[modpack]\nname = \"x\"\n[game]\nminecraft = \"1.17.1\"\n";
    match Pack::parse(doc).unwrap_err() {
        AthenaError::Structure { kind, name, .. } => {
            assert_eq!(kind, StructuralKind::MissingField);
            assert_eq!(name, "version");
        }
        other => panic!("expected a structural error, got {:?}", other),
    }
    // No modpack table at all.
    match Pack::parse("[game]\nminecraft = \"1.17.1\"\n").unwrap_err() {
        AthenaError::Structure { kind, name, line } => {
            assert_eq!(kind, StructuralKind::MissingField);
            assert_eq!(name, "modpack");
            assert_eq!(line, 0);
        }
        other => panic!("expected a structural error, got {:?}", other),
    }
    // A file without a version table.
    let doc = "[modpack]\nname = \"x\"\nversion = \"1\"\n[game]\nminecraft = \"1.17.1\"\n\
               [[files]]\npath = \"mods/a.jar\"\n";
    match Pack::parse(doc).unwrap_err() {
        AthenaError::Structure { kind, name, .. } => {
            assert_eq!(kind, StructuralKind::MissingField);
            assert_eq!(name, "version");
        }
        other => panic!("expected a structural error, got {:?}", other),
    }
}

#[test]
fn structural_errors_have_positions() {
    // A malformed line.
    match Pack::parse("[modpack]\nname =\n").unwrap_err() {
        AthenaError::Structure { kind, line, .. } => {
            assert_eq!(kind, StructuralKind::MalformedLine);
            assert_eq!(line, 2);
        }
        other => panic!("expected a structural error, got {:?}", other),
    }
    // A key before any table.
    match Pack::parse("name = \"x\"\n").unwrap_err() {
        AthenaError::Structure { kind, line, name } => {
            assert_eq!(kind, StructuralKind::TopLevelKey);
            assert_eq!(line, 1);
            assert_eq!(name, "name");
        }
        other => panic!("expected a structural error, got {:?}", other),
    }
    // A key repeated within one table.
    match Pack::parse("[modpack]\nname = \"x\"\nname = \"y\"\n").unwrap_err() {
        AthenaError::Structure { kind, line, name } => {
            assert_eq!(kind, StructuralKind::DuplicateField);
            assert_eq!(line, 3);
            assert_eq!(name, "name");
        }
        other => panic!("expected a structural error, got {:?}", other),
    }
    // An array where a string is expected.
    match Pack::parse("[modpack]\nname = [\"x\"]\nversion = \"1\"\n[game]\nminecraft = \"1\"\n")
        .unwrap_err()
    {
        AthenaError::Structure { kind, line, name } => {
            assert_eq!(kind, StructuralKind::BadValue);
            assert_eq!(line, 2);
            assert_eq!(name, "name");
        }
        other => panic!("expected a structural error, got {:?}", other),
    }
    // A version table before any file.
    let doc = "[modpack]\nname = \"x\"\nversion = \"1\"\n[game]\nminecraft = \"1\"\n\
               [files.version]\ntype = \"latest\"\n";
    match Pack::parse(doc).unwrap_err() {
        AthenaError::Structure { kind, line, .. } => {
            assert_eq!(kind, StructuralKind::OrphanTable);
            assert_eq!(line, 6);
        }
        other => panic!("expected a structural error, got {:?}", other),
    }
    // A repeated modpack table.
    match Pack::parse("[modpack]\nname = \"x\"\nversion = \"1\"\n[modpack]\nname = \"y\"\n")
        .unwrap_err()
    {
        AthenaError::Structure { kind, line, .. } => {
            assert_eq!(kind, StructuralKind::DuplicateTable);
            assert_eq!(line, 4);
        }
        other => panic!("expected a structural error, got {:?}", other),
    }
    // An array-of-tables header for a single table.
    match Pack::parse("[[modpack]]\nname = \"x\"\n").unwrap_err() {
        AthenaError::Structure { kind, line, .. } => {
            assert_eq!(kind, StructuralKind::WrongTableKind);
            assert_eq!(line, 1);
        }
        other => panic!("expected a structural error, got {:?}", other),
    }
    // An unknown environment token.
    let doc = "[modpack]\nname = \"x\"\nversion = \"1\"\n[game]\nminecraft = \"1\"\n\
               [[files]]\npath = \"a\"\nenvironment = \"anywhere\"\n";
    match Pack::parse(doc).unwrap_err() {
        AthenaError::UnknownVariant { line, tag } => {
            assert_eq!(line, 8);
            assert_eq!(tag, "anywhere");
        }
        other => panic!("expected an unknown-variant error, got {:?}", other),
    }
}

#[test]
fn comments_blanks_and_unknown_tables_ignored() {
    let doc = "# a pack\n[modpack]\nname = \"x\"  # the name\nversion = \"1\"\n\n\
               [tooling]\nanything = \"here\"\n[game]\nminecraft = \"1.17.1\"\n";
    let pack = Pack::parse(doc).expect("the document must parse");
    assert_eq!(pack.modpack.name, "x");
    assert_eq!(
        pack.game,
        PackGame::MinecraftVanilla { minecraft: String::from("1.17.1") }
    );
}

#[test]
fn version_constraint_parse() {
    let a = VersionConstraint::parse("^1.0").expect("a valid range");
    let b = VersionConstraint::parse("^1.0").expect("a valid range");
    assert_eq!(a, b);
    assert_eq!(a.as_text(), "^1.0");
    match VersionConstraint::parse("not a range").unwrap_err() {
        AthenaError::ConstraintSyntax { line, text, detail } => {
            assert_eq!(line, 0);
            assert_eq!(text, "not a range");
            assert!(!detail.is_empty());
        }
        other => panic!("expected a constraint-syntax error, got {:?}", other),
    }
}
