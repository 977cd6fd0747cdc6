use rippkgs::errors::IndexError;
use rippkgs::exact;
use rippkgs::registry::{eval_args, select_source, RegistrySource};
use rippkgs::store::IndexStore;
use rippkgs::Package;

fn record(attribute: &str, store_path: Option<&str>) -> Package {
    Package {
        attribute: attribute.to_string(),
        name: Some(attribute.to_string()),
        version: Some("1.0".to_string()),
        store_path: store_path.map(|p| p.to_string()),
        description: Some(format!("the {attribute} package")),
        long_description: None,
        score: None,
        present: None,
    }
}

#[test]
fn exact_round_trips_a_stored_record() {
    let records = vec![
        record("zsh", Some("/nix/store/a")),
        record("bash", Some("/nix/store/b")),
    ];
    let store = IndexStore::build(records.clone()).unwrap();
    assert_eq!(exact::search("zsh", &store), Some(records[0].clone()));
    assert_eq!(exact::search("bash", &store), Some(records[1].clone()));
}

#[test]
fn exact_misses_unknown_attributes() {
    let store = IndexStore::build(vec![record("zsh", Some("/nix/store/a"))]).unwrap();
    assert_eq!(exact::search("fish", &store), None);
    assert_eq!(exact::search("", &store), None);
}

#[test]
fn exact_rejects_records_without_a_store_path() {
    let store = IndexStore::build(vec![
        record("stdenv", None),
        record("zsh", Some("/nix/store/a")),
    ])
    .unwrap();
    assert_eq!(exact::search("stdenv", &store), None);
    assert!(exact::search("zsh", &store).is_some());
}

#[test]
fn select_source_prefers_the_live_source() {
    assert_eq!(
        select_source(Some("nixpkgs".to_string()), Some("/tmp/reg.json".to_string())),
        Ok(RegistrySource::Evaluate {
            nixpkgs: "nixpkgs".to_string(),
            cache: Some("/tmp/reg.json".to_string()),
        })
    );
    assert_eq!(
        select_source(Some("nixpkgs".to_string()), None),
        Ok(RegistrySource::Evaluate { nixpkgs: "nixpkgs".to_string(), cache: None })
    );
    assert_eq!(
        select_source(None, Some("/tmp/reg.json".to_string())),
        Ok(RegistrySource::Cached { path: "/tmp/reg.json".to_string() })
    );
    assert_eq!(select_source(None, None), Err(IndexError::MissingSource));
}

#[test]
fn eval_args_select_json_output_and_apply_the_expression() {
    let args = eval_args("github:NixOS/nixpkgs", "genRegistryExpr", None);
    assert_eq!(args.len(), 9);
    assert_eq!(args[0], "eval");
    assert_eq!(args[1], "--impure");
    assert_eq!(args[2], "--json");
    assert_eq!(args[3], "-I");
    assert_eq!(args[4], "nixpkgs=github:NixOS/nixpkgs");
    assert_eq!(args[5], "--expr");
    assert_eq!(args[6], "genRegistryExpr");
    assert_eq!(args[7], "--apply");
    assert_eq!(
        args[8],
        "genRegistry:\n\nlet pkgs = import <nixpkgs> { config = {}; };\n    genRegistry' = genRegistry pkgs;\nin genRegistry' pkgs\n"
    );

    let args = eval_args("nixpkgs", "expr", Some("{ allowUnfree = true; }"));
    assert_eq!(
        args[8],
        "genRegistry:\n\nlet pkgs = import <nixpkgs> { config = { allowUnfree = true; }; };\n    genRegistry' = genRegistry pkgs;\nin genRegistry' pkgs\n"
    );
}
