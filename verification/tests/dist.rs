use artificial_will::dist::{
    dist_group, extension_artifacts, extension_artifacts_from_json, PackageMetadata,
    TargetMetadata, WorkspaceMetadata,
};
use artificial_will::paths::{
    extensions_dir, ExtensionsDir, DEV_TREE_EXTENSIONS, SHIPPED_EXTENSIONS,
};

fn package(group: Option<&str>) -> PackageMetadata {
    PackageMetadata {
        id: "\"example 0.1.0\"".to_owned(),
        name: Some("example".to_owned()),
        dist_group: group.map(str::to_owned),
        targets: Some(Vec::new()),
    }
}

#[test]
fn dist_group_accepts_the_two_shipped_directories() {
    for group in ["core", "levels"] {
        let package = package(Some(group));
        assert_eq!(dist_group(&package, "example"), Ok(group));
    }
}

#[test]
fn dist_group_rejects_missing_metadata() {
    assert_eq!(
        dist_group(&package(None), "example"),
        Err("extension package example has no dist-group".to_owned())
    );
}

#[test]
fn dist_group_rejects_unknown_directories() {
    let package = package(Some("extensions"));
    assert_eq!(
        dist_group(&package, "example"),
        Err("extension package example has unknown dist-group extensions".to_owned())
    );
}

fn target(name: &str, kinds: &[&str]) -> TargetMetadata {
    TargetMetadata {
        name: Some(name.to_owned()),
        crate_types: Some(kinds.iter().map(|kind| Some((*kind).to_owned())).collect()),
    }
}

fn extension(id: &str, name: &str, group: &str, targets: Vec<TargetMetadata>) -> PackageMetadata {
    PackageMetadata {
        id: id.to_owned(),
        name: Some(name.to_owned()),
        dist_group: Some(group.to_owned()),
        targets: Some(targets),
    }
}

fn workspace(members: &[&str], packages: Vec<PackageMetadata>) -> WorkspaceMetadata {
    WorkspaceMetadata {
        workspace_members: Some(members.iter().map(|m| (*m).to_owned()).collect()),
        packages: Some(packages),
    }
}

fn pair(group: &str, file: &str) -> (String, String) {
    (group.to_owned(), file.to_owned())
}

#[test]
fn artifacts_are_the_sorted_cdylibs_of_workspace_members() {
    let metadata = workspace(
        &["\"will\"", "\"menu\"", "\"level-two\""],
        vec![
            extension("\"will\"", "will", "core", vec![target("will", &["cdylib"])]),
            extension("\"level-two\"", "level-two", "levels", vec![target("level_two", &["cdylib"])]),
            extension("\"menu\"", "menu", "core", vec![
                target("menu", &["rlib", "cdylib"]),
                target("menu", &["cdylib"]),
                target("helper", &["bin"]),
            ]),
            extension("\"outside\"", "outside", "bogus", vec![target("outside", &["cdylib"])]),
            PackageMetadata {
                id: "\"messages\"".to_owned(),
                name: Some("game-messages".to_owned()),
                dist_group: None,
                targets: Some(vec![target("game_messages", &["lib"])]),
            },
        ],
    );
    assert_eq!(
        extension_artifacts(&metadata),
        Ok(vec![
            pair("core", "menu.wasm"),
            pair("core", "will.wasm"),
            pair("levels", "level_two.wasm"),
        ])
    );
}

#[test]
fn omissions_are_reported_in_walk_order() {
    let missing_members = WorkspaceMetadata {
        workspace_members: None,
        packages: Some(Vec::new()),
    };
    assert_eq!(
        extension_artifacts(&missing_members),
        Err("cargo metadata omitted workspace_members".to_owned())
    );
    let missing_packages = WorkspaceMetadata {
        workspace_members: Some(Vec::new()),
        packages: None,
    };
    assert_eq!(
        extension_artifacts(&missing_packages),
        Err("cargo metadata omitted packages".to_owned())
    );
    let mut nameless = extension("\"a\"", "a", "core", vec![target("a", &["cdylib"])]);
    nameless.name = None;
    assert_eq!(
        extension_artifacts(&workspace(&["\"a\""], vec![nameless])),
        Err("cargo metadata package omitted name".to_owned())
    );
    let mut no_targets = extension("\"a\"", "a", "core", Vec::new());
    no_targets.targets = None;
    assert_eq!(
        extension_artifacts(&workspace(&["\"a\""], vec![no_targets])),
        Err("cargo metadata package omitted targets".to_owned())
    );
    let untyped = TargetMetadata {
        name: Some("a".to_owned()),
        crate_types: None,
    };
    assert_eq!(
        extension_artifacts(&workspace(&["\"a\""], vec![extension("\"a\"", "a", "core", vec![untyped])])),
        Err("cargo metadata target omitted crate_types".to_owned())
    );
    let unnamed = TargetMetadata {
        name: None,
        crate_types: Some(vec![None, Some("cdylib".to_owned())]),
    };
    assert_eq!(
        extension_artifacts(&workspace(&["\"a\""], vec![extension("\"a\"", "a", "core", vec![unnamed])])),
        Err("cargo metadata target omitted name".to_owned())
    );
    assert_eq!(
        extension_artifacts(&workspace(&["\"a\""], vec![extension("\"a\"", "a", "misc", vec![target("a", &["cdylib"])])])),
        Err("extension package a has unknown dist-group misc".to_owned())
    );
    assert_eq!(
        extension_artifacts(&workspace(&["\"a\""], vec![extension("\"a\"", "a", "misc", vec![target("a", &["lib"])])])),
        Err("extension workspace contains no cdylib targets".to_owned())
    );
}

#[test]
fn shipped_builds_keep_extensions_next_to_the_executable() {
    assert_eq!(extensions_dir(true, false), ExtensionsDir::Shipped);
    assert_eq!(extensions_dir(false, true), ExtensionsDir::Shipped);
    assert_eq!(extensions_dir(true, true), ExtensionsDir::Shipped);
    assert_eq!(extensions_dir(false, false), ExtensionsDir::DevTree);
    assert_eq!(SHIPPED_EXTENSIONS, "extensions");
    assert_eq!(
        DEV_TREE_EXTENSIONS,
        "../../extensions/target/wasm32-wasip2/release"
    );
}

const METADATA: &[u8] = br#"{
    "packages": [
        {"id": "will 0.1.0", "name": "will",
         "metadata": {"artificial-will": {"dist-group": "core"}},
         "targets": [{"name": "will", "crate_types": ["cdylib"]}]},
        {"id": "level-two 0.1.0", "name": "level-two",
         "metadata": {"artificial-will": {"dist-group": "levels"}},
         "targets": [{"name": "level_two", "crate_types": [7, "rlib", "cdylib"]}]},
        {"id": "menu 0.1.0", "name": "menu",
         "metadata": {"artificial-will": {"dist-group": "core"}},
         "targets": [{"name": "menu", "crate_types": ["cdylib"]},
                     {"name": "menu", "crate_types": ["cdylib"]},
                     {"name": "helper", "crate_types": ["bin"]}]},
        {"id": "outside 0.1.0", "name": "outside", "metadata": null,
         "targets": [{"name": "outside", "crate_types": ["cdylib"]}]},
        {"id": "messages 0.1.0", "name": "game-messages", "metadata": null,
         "targets": [{"name": "game_messages", "crate_types": ["lib"]}]}
    ],
    "workspace_members": ["will 0.1.0", "menu 0.1.0", "level-two 0.1.0", "messages 0.1.0"],
    "version": 1
}"#;

#[test]
fn artifacts_are_read_from_cargo_metadata_json() {
    assert_eq!(
        extension_artifacts_from_json(METADATA),
        Ok(vec![
            pair("core", "menu.wasm"),
            pair("core", "will.wasm"),
            pair("levels", "level_two.wasm"),
        ])
    );
}

#[test]
fn json_dist_groups_are_read_from_package_metadata() {
    let missing = br#"{"workspace_members": ["a"], "packages": [
        {"id": "a", "name": "alpha", "metadata": {"artificial-will": {}},
         "targets": [{"name": "alpha", "crate_types": ["cdylib"]}]}]}"#;
    assert_eq!(
        extension_artifacts_from_json(missing),
        Err("extension package alpha has no dist-group".to_owned())
    );
    let unknown = br#"{"workspace_members": ["a"], "packages": [
        {"id": "a", "name": "alpha", "metadata": {"artificial-will": {"dist-group": "extras"}},
         "targets": [{"name": "alpha", "crate_types": ["cdylib"]}]}]}"#;
    assert_eq!(
        extension_artifacts_from_json(unknown),
        Err("extension package alpha has unknown dist-group extras".to_owned())
    );
    let not_a_string = br#"{"workspace_members": ["a"], "packages": [
        {"id": "a", "name": "alpha", "metadata": {"artificial-will": {"dist-group": 3}},
         "targets": [{"name": "alpha", "crate_types": ["cdylib"]}]}]}"#;
    assert_eq!(
        extension_artifacts_from_json(not_a_string),
        Err("extension package alpha has no dist-group".to_owned())
    );
}

#[test]
fn json_omissions_and_parse_errors_are_reported() {
    let broken = extension_artifacts_from_json(b"{\"packages\": [");
    assert!(broken.unwrap_err().starts_with("parsing metadata: "));
    assert_eq!(
        extension_artifacts_from_json(b"[1, 2]"),
        Err("cargo metadata omitted workspace_members".to_owned())
    );
    assert_eq!(
        extension_artifacts_from_json(br#"{"workspace_members": []}"#),
        Err("cargo metadata omitted packages".to_owned())
    );
    assert_eq!(
        extension_artifacts_from_json(br#"{"workspace_members": [], "packages": []}"#),
        Err("extension workspace contains no cdylib targets".to_owned())
    );
    let unnamed = br#"{"workspace_members": [1], "packages": [
        {"id": 1, "targets": []}]}"#;
    assert_eq!(
        extension_artifacts_from_json(unnamed),
        Err("cargo metadata package omitted name".to_owned())
    );
    let no_kinds = br#"{"workspace_members": [null], "packages": [
        {"name": "a", "targets": [{"name": "a"}]}]}"#;
    assert_eq!(
        extension_artifacts_from_json(no_kinds),
        Err("cargo metadata target omitted crate_types".to_owned())
    );
}
