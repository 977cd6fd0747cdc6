use rippkgs::registry::{normalize_registry, OneOrList, PackageInfo, PackageMeta};

fn empty_meta() -> PackageMeta {
    PackageMeta {
        available: None,
        broken: false,
        description: None,
        homepage: None,
        insecure: false,
        license: None,
        long_description: None,
        unfree: false,
        unsupported: false,
    }
}

fn bare_info() -> PackageInfo {
    PackageInfo { pname: None, version: None, meta: None, store_paths: None }
}

#[test]
fn one_or_list() {
    assert!(matches!(OneOrList::List(Vec::<String>::new()).into_scalar(), None));

    assert!(matches!(OneOrList::One(String::from("hi")).into_scalar(), Some(s) if s == "hi"));
}

#[test]
fn store_paths() {
    let raw: serde_json::Value = serde_json::from_str(r#"{"storePaths": {"out": "hi"}}"#).unwrap();
    let mut store_paths: Vec<(String, String)> = Vec::new();
    for (name, path) in raw["storePaths"].as_object().unwrap() {
        store_paths.push((name.clone(), path.as_str().unwrap().to_string()));
    }
    assert!(matches!(
        PackageInfo { store_paths: Some(store_paths), ..bare_info() },
        PackageInfo { store_paths: Some(store_paths), .. }
            if store_paths.len() == 1 && store_paths[0] == ("out".to_string(), "hi".to_string())
    ));
}

#[test]
fn one_or_list_takes_first_of_list() {
    let homepage = OneOrList::List(vec![
        String::from("https://example.test/a"),
        String::from("https://example.test/b"),
    ]);
    assert_eq!(homepage.into_scalar(), Some(String::from("https://example.test/a")));
}

#[test]
fn name_falls_back_to_attribute() {
    let p = bare_info().into_rippkgs_package(String::from("hello"));
    assert_eq!(p.name, Some(String::from("hello")));
    assert_eq!(p.attribute, "hello");

    let p = PackageInfo { pname: Some(String::new()), ..bare_info() }
        .into_rippkgs_package(String::from("hello"));
    assert_eq!(p.name, Some(String::from("hello")));

    let p = PackageInfo { pname: Some(String::from("GNU hello")), ..bare_info() }
        .into_rippkgs_package(String::from("hello"));
    assert_eq!(p.name, Some(String::from("GNU hello")));
}

#[test]
fn store_path_takes_the_out_output() {
    let info = PackageInfo {
        store_paths: Some(vec![
            (String::from("doc"), String::from("/nix/store/abc-doc")),
            (String::from("out"), String::from("/nix/store/abc")),
        ]),
        ..bare_info()
    };
    let p = info.into_rippkgs_package(String::from("abc"));
    assert_eq!(p.store_path, Some(String::from("/nix/store/abc")));

    let info = PackageInfo {
        store_paths: Some(vec![(String::from("doc"), String::from("/nix/store/abc-doc"))]),
        ..bare_info()
    };
    let p = info.into_rippkgs_package(String::from("abc"));
    assert_eq!(p.store_path, None);
}

#[test]
fn descriptions_copied_and_transients_unset() {
    let info = PackageInfo {
        pname: Some(String::from("zsh")),
        version: Some(String::from("5.9")),
        meta: Some(PackageMeta {
            description: Some(String::from("The Z shell")),
            long_description: Some(String::from("Zsh is a shell.")),
            ..empty_meta()
        }),
        store_paths: Some(vec![(String::from("out"), String::from("/nix/store/abc-zsh-5.9"))]),
    };
    let p = info.into_rippkgs_package(String::from("zsh"));
    assert_eq!(p.description, Some(String::from("The Z shell")));
    assert_eq!(p.long_description, Some(String::from("Zsh is a shell.")));
    assert_eq!(p.version, Some(String::from("5.9")));
    assert_eq!(p.score, None);
    assert_eq!(p.present, None);
}

#[test]
fn normalize_registry_skips_rows_without_out() {
    let entries = vec![
        (
            String::from("zsh"),
            PackageInfo {
                store_paths: Some(vec![(String::from("out"), String::from("/nix/store/a"))]),
                ..bare_info()
            },
        ),
        (String::from("stdenv"), PackageInfo { store_paths: Some(Vec::new()), ..bare_info() }),
        (
            String::from("bash"),
            PackageInfo {
                store_paths: Some(vec![(String::from("out"), String::from("/nix/store/b"))]),
                ..bare_info()
            },
        ),
    ];
    let records = normalize_registry(entries);
    assert_eq!(records.len(), 2);
    assert_eq!(records[0].attribute, "zsh");
    assert_eq!(records[1].attribute, "bash");
}
