use rippkgs::errors::IndexError;
use rippkgs::exact;
use rippkgs::store::IndexStore;
use rippkgs::Package;

fn record(attribute: &str, store_path: Option<&str>) -> Package {
    Package {
        attribute: attribute.to_string(),
        name: Some(attribute.to_string()),
        version: None,
        store_path: store_path.map(|p| p.to_string()),
        description: None,
        long_description: None,
        score: None,
        present: None,
    }
}

#[test]
fn build_keeps_every_record_in_order() {
    let records = vec![
        record("zsh", Some("/nix/store/a")),
        record("bash", Some("/nix/store/b")),
        record("stdenv", None),
    ];
    let store = IndexStore::build(records.clone()).unwrap();
    assert_eq!(store.records(), &records);
    assert_eq!(store.len(), 3);
}

#[test]
fn build_rejects_the_first_duplicate_attribute() {
    let records = vec![
        record("zsh", Some("/nix/store/a")),
        record("bash", Some("/nix/store/b")),
        record("zsh", Some("/nix/store/c")),
    ];
    let err = IndexStore::build(records).unwrap_err();
    assert_eq!(err, IndexError::RowInsertError { attribute: "zsh".to_string() });
}

#[test]
fn failed_build_leaves_the_old_index_intact() {
    let old = IndexStore::build(vec![record("zsh", Some("/nix/store/a"))]).unwrap();

    let next = vec![
        record("bash", Some("/nix/store/b")),
        record("bash", Some("/nix/store/c")),
    ];
    assert!(IndexStore::build(next).is_err());

    // The failed rebuild produced no store at all, so queries keep running
    // against the old one and observe none of the new rows.
    assert_eq!(exact::search("zsh", &old), Some(record("zsh", Some("/nix/store/a"))));
    assert_eq!(exact::search("bash", &old), None);
}

#[test]
fn error_messages_carry_provenance() {
    assert_eq!(
        IndexError::MissingSource.message(),
        "expected a registry source or a cached registry"
    );
    assert_eq!(
        IndexError::RowInsertError { attribute: "zsh".to_string() }.message(),
        "inserting a package into the index failed: zsh"
    );
    assert_eq!(
        IndexError::EvaluatorFailure { stderr: "boom".to_string() }.message(),
        "evaluating the registry failed: boom"
    );
    assert_eq!(
        IndexError::RegistryParseError { message: "bad json".to_string() }.message(),
        "reading the registry failed: bad json"
    );
    assert_eq!(
        IndexError::IndexCreationError { message: "denied".to_string() }.message(),
        "creating the index failed: denied"
    );
    assert_eq!(
        IndexError::QueryFailure { message: "io".to_string() }.message(),
        "executing the query failed: io"
    );
    assert_eq!(
        IndexError::RowDecodeError { message: "shape".to_string() }.message(),
        "decoding a stored row failed: shape"
    );
}
