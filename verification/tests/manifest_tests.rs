use athena::ManifestEnv;
use athena::ManifestFile;
use athena::ManifestHashes;
use athena::ManifestJson;
use serde_json::Number;
use serde_json::Value;

fn s(t: &str) -> String {
    String::from(t)
}

fn jstr(t: &str) -> Value {
    Value::String(s(t))
}

fn example_manifest() -> ManifestJson {
    ManifestJson {
        format_version: 1,
        game: s("minecraft"),
        version_id: s("deadbeef"),
        name: s("Example Modpack"),
        summary: Some(s("Lorem ipsum dolor sit amet")),
        files: vec![ManifestFile {
            path: s("mods/example.jar"),
            downloads: vec![s("https://example.com/example.jar")],
            hashes: ManifestHashes {
                sha1: s("aaaaaaaaaaaaaaaaaaaaaaaaaaaaaaaaaaaaaaaa"),
            },
            env: Some(ManifestEnv {
                client: s("required"),
                server: s("unsupported"),
            }),
        }],
        dependencies: vec![(s("minecraft"), s("1.17.1"))],
    }
}

fn expected_example_value() -> Value {
    let mut hashes = serde_json::Map::new();
    hashes.insert(s("sha1"), jstr("aaaaaaaaaaaaaaaaaaaaaaaaaaaaaaaaaaaaaaaa"));

    let mut env = serde_json::Map::new();
    env.insert(s("client"), jstr("required"));
    env.insert(s("server"), jstr("unsupported"));

    let mut file = serde_json::Map::new();
    file.insert(s("path"), jstr("mods/example.jar"));
    file.insert(
        s("downloads"),
        Value::Array(vec![jstr("https://example.com/example.jar")]),
    );
    file.insert(s("hashes"), Value::Object(hashes));
    file.insert(s("env"), Value::Object(env));

    let mut dependencies = serde_json::Map::new();
    dependencies.insert(s("minecraft"), jstr("1.17.1"));

    let mut root = serde_json::Map::new();
    root.insert(s("formatVersion"), Value::Number(Number::from(1u32)));
    root.insert(s("game"), jstr("minecraft"));
    root.insert(s("versionId"), jstr("deadbeef"));
    root.insert(s("name"), jstr("Example Modpack"));
    root.insert(s("summary"), jstr("Lorem ipsum dolor sit amet"));
    root.insert(s("files"), Value::Array(vec![Value::Object(file)]));
    root.insert(s("dependencies"), Value::Object(dependencies));
    Value::Object(root)
}

#[test]
fn serialize_json() {
    let expected = expected_example_value();
    let rendered = example_manifest().render();
    let actual: Value = serde_json::from_str(&rendered).expect("render must produce valid JSON");
    assert_eq!(
        expected,
        actual,
        "\nTried serializing {}\nGot {}",
        serde_json::to_string_pretty(&expected).unwrap(),
        serde_json::to_string_pretty(&actual).unwrap(),
    );
}

#[test]
fn exact_rendered_text() {
    let rendered = example_manifest().render();
    assert_eq!(
        rendered,
        "{\"formatVersion\":1,\"game\":\"minecraft\",\"versionId\":\"deadbeef\",\
         \"name\":\"Example Modpack\",\"summary\":\"Lorem ipsum dolor sit amet\",\
         \"files\":[{\"path\":\"mods/example.jar\",\
         \"hashes\":{\"sha1\":\"aaaaaaaaaaaaaaaaaaaaaaaaaaaaaaaaaaaaaaaa\"},\
         \"env\":{\"client\":\"required\",\"server\":\"unsupported\"},\
         \"downloads\":[\"https://example.com/example.jar\"]}],\
         \"dependencies\":{\"minecraft\":\"1.17.1\"}}"
    );
}

#[test]
fn absent_optionals_render_as_null() {
    let m = ManifestJson {
        format_version: 10,
        game: s("minecraft"),
        version_id: s("v"),
        name: s("n"),
        summary: None,
        files: vec![ManifestFile {
            path: s("a.jar"),
            downloads: vec![],
            hashes: ManifestHashes { sha1: s("00") },
            env: None,
        }],
        dependencies: vec![],
    };
    let rendered = m.render();
    assert_eq!(
        rendered,
        "{\"formatVersion\":10,\"game\":\"minecraft\",\"versionId\":\"v\",\"name\":\"n\",\
         \"summary\":null,\"files\":[{\"path\":\"a.jar\",\"hashes\":{\"sha1\":\"00\"},\
         \"env\":null,\"downloads\":[]}],\"dependencies\":{}}"
    );
    let v: Value = serde_json::from_str(&rendered).unwrap();
    assert_eq!(v["summary"], Value::Null);
    assert_eq!(v["files"][0]["env"], Value::Null);
}

#[test]
fn dependencies_render_sorted_and_downloads_keep_order() {
    let m = ManifestJson {
        format_version: 4294967295,
        game: s("minecraft"),
        version_id: s("v"),
        name: s("n"),
        summary: None,
        files: vec![ManifestFile {
            path: s("a.jar"),
            downloads: vec![s("https://z.example/2"), s("https://a.example/1")],
            hashes: ManifestHashes { sha1: s("00") },
            env: None,
        }],
        dependencies: vec![(s("zeta"), s("2")), (s("alpha"), s("1"))],
    };
    let rendered = m.render();
    let deps_start = rendered.find("\"dependencies\":{").unwrap();
    let alpha = rendered[deps_start..].find("\"alpha\"").unwrap();
    let zeta = rendered[deps_start..].find("\"zeta\"").unwrap();
    assert!(alpha < zeta, "dependencies must render sorted by key");
    let v: Value = serde_json::from_str(&rendered).unwrap();
    assert_eq!(v["formatVersion"], Value::Number(Number::from(4294967295u32)));
    assert_eq!(
        v["files"][0]["downloads"],
        Value::Array(vec![jstr("https://z.example/2"), jstr("https://a.example/1")])
    );
    assert_eq!(v["dependencies"]["alpha"], jstr("1"));
    assert_eq!(v["dependencies"]["zeta"], jstr("2"));
}

#[test]
fn strings_are_escaped() {
    let m = ManifestJson {
        format_version: 0,
        game: s("minecraft"),
        version_id: s("v"),
        name: s("a \"quoted\" name \\ with\nnewline\tand tab"),
        summary: None,
        files: vec![],
        dependencies: vec![],
    };
    let rendered = m.render();
    let v: Value = serde_json::from_str(&rendered).expect("escaped output must stay valid JSON");
    assert_eq!(v["name"], jstr("a \"quoted\" name \\ with\nnewline\tand tab"));
    assert_eq!(v["formatVersion"], Value::Number(Number::from(0u32)));
}

#[test]
fn round_trip_reproduces_value() {
    // Rendering then re-parsing reproduces the manifest: sequence fields in
    // order, the dependency mapping regardless of construction order.
    let a = ManifestJson {
        format_version: 7,
        game: s("minecraft"),
        version_id: s("build-42"),
        name: s("Pack"),
        summary: Some(s("text")),
        files: vec![ManifestFile {
            path: s("mods/a.jar"),
            downloads: vec![s("https://x/1"), s("https://y/2")],
            hashes: ManifestHashes { sha1: s("ff") },
            env: None,
        }],
        dependencies: vec![(s("minecraft"), s("1.17.1")), (s("fabric"), s("0.9"))],
    };
    let b = ManifestJson {
        dependencies: vec![(s("fabric"), s("0.9")), (s("minecraft"), s("1.17.1"))],
        ..a_clone(&a)
    };
    // Equal content renders to the same document, whatever order the mapping
    // was built in.
    assert_eq!(a.render(), b.render());
    // Re-parsing the document gives every field back.
    let v: Value = serde_json::from_str(&a.render()).unwrap();
    assert_eq!(v["formatVersion"], Value::Number(Number::from(7u32)));
    assert_eq!(v["game"], jstr("minecraft"));
    assert_eq!(v["versionId"], jstr("build-42"));
    assert_eq!(v["name"], jstr("Pack"));
    assert_eq!(v["summary"], jstr("text"));
    assert_eq!(v["files"][0]["path"], jstr("mods/a.jar"));
    assert_eq!(
        v["files"][0]["downloads"],
        Value::Array(vec![jstr("https://x/1"), jstr("https://y/2")])
    );
    assert_eq!(v["dependencies"]["minecraft"], jstr("1.17.1"));
    assert_eq!(v["dependencies"]["fabric"], jstr("0.9"));
}

fn a_clone(a: &ManifestJson) -> ManifestJson {
    ManifestJson {
        format_version: a.format_version,
        game: a.game.clone(),
        version_id: a.version_id.clone(),
        name: a.name.clone(),
        summary: a.summary.clone(),
        files: a
            .files
            .iter()
            .map(|f| ManifestFile {
                path: f.path.clone(),
                downloads: f.downloads.clone(),
                hashes: ManifestHashes { sha1: f.hashes.sha1.clone() },
                env: f.env.as_ref().map(|e| ManifestEnv {
                    client: e.client.clone(),
                    server: e.server.clone(),
                }),
            })
            .collect(),
        dependencies: a.dependencies.clone(),
    }
}
