use rippkgs::fuzzy::{self, scalar_fuzzy_score};
use rippkgs::registry::{normalize_registry, PackageInfo, PackageMeta};
use rippkgs::store::IndexStore;
use rippkgs::{exact, Package};

fn record(attribute: &str, name: &str, store_path: Option<&str>) -> Package {
    Package {
        attribute: attribute.to_string(),
        name: Some(name.to_string()),
        version: None,
        store_path: store_path.map(|p| p.to_string()),
        description: None,
        long_description: None,
        score: None,
        present: None,
    }
}

fn store_of(records: Vec<Package>) -> IndexStore {
    IndexStore::build(records).unwrap()
}

#[test]
fn example_scenario() {
    // The whole pipeline on a two-entry registry: only `zsh` has an `out`
    // output, so exactly one record is stored.
    let entries = vec![
        (
            "zsh".to_string(),
            PackageInfo {
                pname: Some("zsh".to_string()),
                version: Some("5.9".to_string()),
                meta: Some(PackageMeta {
                    available: None,
                    broken: false,
                    description: Some("The Z shell".to_string()),
                    homepage: None,
                    insecure: false,
                    license: None,
                    long_description: None,
                    unfree: false,
                    unsupported: false,
                }),
                store_paths: Some(vec![(
                    "out".to_string(),
                    "/nix/store/abc-zsh-5.9".to_string(),
                )]),
            },
        ),
        (
            "stdenv".to_string(),
            PackageInfo { pname: None, version: None, meta: None, store_paths: Some(Vec::new()) },
        ),
    ];
    let records = normalize_registry(entries);
    assert_eq!(records.len(), 1);
    assert_eq!(records[0].attribute, "zsh");

    let store = store_of(records);
    assert_eq!(exact::search("stdenv", &store), None);

    let present = std::path::Path::new("/nix/store/abc-zsh-5.9").exists();
    let results = fuzzy::search("zsh", &store, 10, false, &vec![present]);
    assert_eq!(results.len(), 1);
    assert_eq!(results[0].attribute, "zsh");
    assert_eq!(results[0].score, Some(i64::MAX));
    assert_eq!(results[0].present, Some(present));
}

#[test]
fn exact_match_ranks_first() {
    let store = store_of(vec![
        record("zsh-autosuggestions", "zsh-autosuggestions", Some("/nix/store/a")),
        record("zsh", "zsh", Some("/nix/store/b")),
        record("bash", "bash", Some("/nix/store/c")),
    ]);
    let flags = vec![false, false, false];
    let results = fuzzy::search("zsh", &store, 10, false, &flags);
    assert_eq!(results[0].attribute, "zsh");
    assert_eq!(results[0].score, Some(i64::MAX));
    assert!(results[1].score.unwrap() < i64::MAX);
}

#[test]
fn matching_is_case_insensitive() {
    let store = store_of(vec![
        record("zsh", "zsh", Some("/nix/store/a")),
        record("zsh-autosuggestions", "zsh-autosuggestions", Some("/nix/store/b")),
    ]);
    let flags = vec![true, true];
    let upper = fuzzy::search("Zsh", &store, 10, false, &flags);
    let lower = fuzzy::search("zsh", &store, 10, false, &flags);
    assert_eq!(upper[0], lower[0]);
    assert_eq!(upper[0].attribute, "zsh");
    assert_eq!(upper[0].score, Some(i64::MAX));
}

#[test]
fn limit_caps_after_filtering() {
    let store = store_of(vec![
        record("zsh", "zsh", Some("/nix/store/a")),
        record("stdenv", "stdenv", None),
        record("zsh-completions", "zsh-completions", Some("/nix/store/b")),
        record("zsh-autosuggestions", "zsh-autosuggestions", Some("/nix/store/c")),
    ]);
    let flags = vec![false, false, false, false];

    assert_eq!(fuzzy::search("zsh", &store, 0, false, &flags).len(), 0);

    let top1 = fuzzy::search("zsh", &store, 1, false, &flags);
    assert_eq!(top1.len(), 1);
    assert_eq!(top1[0].attribute, "zsh");

    // The record without a store path is excluded before the cap applies,
    // so a limit of three still comes back full.
    let top3 = fuzzy::search("zsh", &store, 3, false, &flags);
    assert_eq!(top3.len(), 3);
    assert!(top3.iter().all(|p| p.attribute != "stdenv"));

    let all = fuzzy::search("zsh", &store, 100, false, &flags);
    assert_eq!(all.len(), 3);
    for pair in all.windows(2) {
        assert!(pair[0].score.unwrap() >= pair[1].score.unwrap());
    }
}

#[test]
fn presence_filter_and_annotation() {
    let store = store_of(vec![
        record("zsh", "zsh", Some("/nix/store/a")),
        record("zsh-completions", "zsh-completions", Some("/nix/store/b")),
    ]);
    let flags = vec![true, false];

    // Filtering drops the absent row and leaves `present` unset.
    let filtered = fuzzy::search("zsh", &store, 10, true, &flags);
    assert_eq!(filtered.len(), 1);
    assert_eq!(filtered[0].attribute, "zsh");
    assert_eq!(filtered[0].present, None);

    // Without filtering every store-path-bearing row comes back, each
    // annotated with its own flag.
    let annotated = fuzzy::search("zsh", &store, 10, false, &flags);
    assert_eq!(annotated.len(), 2);
    assert_eq!(annotated[0].attribute, "zsh");
    assert_eq!(annotated[0].present, Some(true));
    assert_eq!(annotated[1].attribute, "zsh-completions");
    assert_eq!(annotated[1].present, Some(false));
}

#[test]
fn ties_break_by_row_order() {
    // Two distinct attributes whose names both equal the query: both get
    // the maximum score, and the earlier row wins.
    let store = store_of(vec![
        record("zsh-b", "zsh", Some("/nix/store/a")),
        record("zsh-a", "zsh", Some("/nix/store/b")),
    ]);
    let flags = vec![false, false];
    let results = fuzzy::search("zsh", &store, 10, false, &flags);
    assert_eq!(results[0].attribute, "zsh-b");
    assert_eq!(results[1].attribute, "zsh-a");
    assert_eq!(results[0].score, results[1].score);
}

#[test]
fn scoring_short_circuits_and_ranks_subsequences() {
    // An exact match short-circuits to the maximum, however the heuristic
    // would score it.
    assert_eq!(scalar_fuzzy_score("zsh", "zsh"), i64::MAX);
    assert_eq!(scalar_fuzzy_score("Zsh", "zsh"), i64::MAX);

    // A real subsequence match scores positive; a non-match scores zero.
    assert!(scalar_fuzzy_score("zsh-autosuggestions", "zsh") > 0);
    assert_eq!(scalar_fuzzy_score("bash", "zq"), 0);

    // The heuristic prefers the tighter match, so ranking reflects it.
    assert!(
        scalar_fuzzy_score("zshelly", "zsh") > scalar_fuzzy_score("z-s-h-far-apart", "zsh")
    );
}

#[test]
fn non_matches_are_kept_with_lowest_rank() {
    let store = store_of(vec![
        record("bash", "bash", Some("/nix/store/a")),
        record("zsh", "zsh", Some("/nix/store/b")),
    ]);
    let flags = vec![false, false];
    let results = fuzzy::search("zsh", &store, 10, false, &flags);
    assert_eq!(results.len(), 2);
    assert_eq!(results[0].attribute, "zsh");
    assert_eq!(results[1].attribute, "bash");
    assert_eq!(results[1].score, Some(0));
}
