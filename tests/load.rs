use advisory_import::discover::has_json_extension;
use advisory_import::normalize::{
    advisory_row, affected_rows, cwes_column, ecosystem_names, ecosystem_set, ecosystems_column,
    versions_column,
};
use advisory_import::osv::{
    Advisory, Affected, Ecosystem, Event, GitHubAdvisory, GitHubMetadata, Package, Range,
};
use advisory_import::pipeline::{into_batches, Batcher, ParseError, BATCH_SIZE};
use advisory_import::store::{BatchWriteError, MemStore};

fn entry(name: &str, ecosystem: Ecosystem) -> Affected {
    Affected {
        package: Package { ecosystem, name: name.to_string(), purl: None },
        versions: None,
        ranges: None,
        ecosystem_specific: None,
        database_specific: None,
    }
}

fn advisory(id: &str, affected: Option<Vec<Affected>>) -> GitHubAdvisory {
    Advisory {
        id: id.to_string(),
        modified: "2023-01-01T00:00:00Z".to_string(),
        published: None,
        withdrawn: None,
        aliases: None,
        related: None,
        summary: None,
        details: None,
        severity: None,
        affected,
        references: None,
        credits: None,
        database_specific: None,
    }
}

fn with_entries(id: &str, m: usize) -> GitHubAdvisory {
    let mut list = Vec::new();
    for k in 0..m {
        list.push(entry(&format!("pkg{}", k), Ecosystem::Npm));
    }
    advisory(id, Some(list))
}

#[test]
fn ecosystem_set_collapses_repeats() {
    let a = advisory(
        "GHSA-1",
        Some(vec![entry("a", Ecosystem::Npm), entry("b", Ecosystem::PyPi), entry("c", Ecosystem::Npm)]),
    );
    assert_eq!(ecosystem_set(&a), vec![Ecosystem::Npm, Ecosystem::PyPi]);
}

#[test]
fn ecosystem_set_ignores_entry_order() {
    let a = advisory(
        "GHSA-1",
        Some(vec![entry("a", Ecosystem::Npm), entry("b", Ecosystem::PyPi), entry("c", Ecosystem::Npm)]),
    );
    let b = advisory(
        "GHSA-1",
        Some(vec![entry("c", Ecosystem::Npm), entry("a", Ecosystem::Npm), entry("b", Ecosystem::PyPi)]),
    );
    let mut x = ecosystem_set(&a);
    let mut y = ecosystem_set(&b);
    x.sort_by_key(|e| e.name());
    y.sort_by_key(|e| e.name());
    assert_eq!(x, y);
    assert_eq!(x.len(), 2);
}

#[test]
fn ecosystem_set_empty_without_affected() {
    assert!(ecosystem_set(&advisory("GHSA-1", None)).is_empty());
    assert!(ecosystem_set(&advisory("GHSA-1", Some(vec![]))).is_empty());
}

#[test]
fn ecosystem_wire_names() {
    let names = ecosystem_names(&vec![
        Ecosystem::Npm,
        Ecosystem::PyPi,
        Ecosystem::CratesIo,
        Ecosystem::GitHubActions,
        Ecosystem::OssFuzz,
        Ecosystem::Go,
    ]);
    assert_eq!(names, vec!["npm", "PyPI", "crates.io", "GitHub Actions", "OSS-Fuzz", "Go"]);
}

#[test]
fn advisory_row_takes_first_alias_and_extension_fields() {
    let mut a = advisory("GHSA-xxxx", Some(vec![entry("left-pad", Ecosystem::Npm)]));
    a.aliases = Some(vec!["CVE-2020-1".to_string(), "CVE-2020-2".to_string()]);
    a.summary = Some("bad".to_string());
    a.database_specific = Some(GitHubMetadata {
        cwe_ids: Some(vec!["CWE-79".to_string()]),
        severity: Some("HIGH".to_string()),
        github_reviewed: Some(true),
    });
    let row = advisory_row(&a);
    assert_eq!(row.ghsa, "GHSA-xxxx");
    assert_eq!(row.modified, "2023-01-01T00:00:00Z");
    assert_eq!(row.cve.map(|s| s.as_str()), Some("CVE-2020-1"));
    assert_eq!(row.summary.as_deref(), Some("bad"));
    assert_eq!(row.severity.map(|s| s.as_str()), Some("HIGH"));
    assert_eq!(row.cwes.map(|c| c.len()), Some(1));
    assert_eq!(row.ecosystems, vec![Ecosystem::Npm]);
    assert_eq!(cwes_column(&row), Ok(Some("[\"CWE-79\"]".to_string())));
}

#[test]
fn advisory_row_without_optional_fields() {
    let mut a = advisory("GHSA-2", None);
    a.aliases = Some(vec![]);
    let row = advisory_row(&a);
    assert!(row.cve.is_none());
    assert!(row.severity.is_none());
    assert!(row.cwes.is_none());
    assert_eq!(cwes_column(&row), Ok(None));
    assert_eq!(ecosystems_column(&row), Ok("[]".to_string()));
}

#[test]
fn affected_rows_one_per_entry() {
    let mut a = advisory(
        "GHSA-3",
        Some(vec![entry("a", Ecosystem::Maven), entry("b", Ecosystem::Maven), entry("c", Ecosystem::Hex)]),
    );
    if let Some(list) = a.affected.as_mut() {
        list[0].versions = Some(vec!["1.0".to_string(), "1.1".to_string()]);
        list[0].ranges = Some(vec![Range::Semver {
            events: vec![Event::Introduced("0".to_string()), Event::Fixed("1.2".to_string())],
            repo: None,
            database_specific: None,
        }]);
    }
    let rows = affected_rows(&a);
    assert_eq!(rows.len(), 3);
    assert_eq!(rows[0].name, "a");
    assert_eq!(rows[2].name, "c");
    assert_eq!(rows[2].ecosystem, Ecosystem::Hex);
    assert!(rows.iter().all(|r| r.ghsa == "GHSA-3"));
    assert_eq!(rows[0].ranges.as_ref().map(|r| r.len()), Some(1));
    assert_eq!(versions_column(&rows[0]), Ok("[\"1.0\",\"1.1\"]".to_string()));
    assert_eq!(versions_column(&rows[1]), Ok("null".to_string()));
    assert!(affected_rows(&advisory("GHSA-4", None)).is_empty());
}

#[test]
fn ecosystems_column_is_json_array_of_names() {
    let a = advisory(
        "GHSA-5",
        Some(vec![entry("a", Ecosystem::Npm), entry("b", Ecosystem::PyPi), entry("c", Ecosystem::Npm)]),
    );
    let row = advisory_row(&a);
    assert_eq!(ecosystems_column(&row), Ok("[\"npm\",\"PyPI\"]".to_string()));
}

#[test]
fn batcher_hands_out_full_batches_and_drops_failures() {
    let mut b = Batcher::new(2);
    assert_eq!(b.batch_size(), 2);
    assert!(b.push(Ok(advisory("A", None))).is_none());
    assert!(b.push(Err(ParseError::new("bad.json".to_string(), "EOF".to_string()))).is_none());
    assert_eq!(b.dropped_count(), 1);
    let full = b.push(Ok(advisory("B", None))).expect("a full batch");
    assert_eq!(full.iter().map(|a| a.id.as_str()).collect::<Vec<_>>(), vec!["A", "B"]);
    assert_eq!(b.pending_count(), 0);
    assert!(b.push(Ok(advisory("C", None))).is_none());
    let last = b.finish().expect("a partial batch");
    assert_eq!(last.len(), 1);
    assert_eq!(last[0].id, "C");
}

#[test]
fn batcher_finish_empty() {
    let b = Batcher::new(BATCH_SIZE);
    assert_eq!(b.batch_size(), 1000);
    assert!(b.finish().is_none());
}

#[test]
fn store_persists_n_advisories_and_n_times_m_packages() {
    let batch: Vec<GitHubAdvisory> = (0..3).map(|i| with_entries(&format!("GHSA-{}", i), 2)).collect();
    let mut store = MemStore::new();
    assert!(store.write_batch(&batch).is_ok());
    assert_eq!(store.advisories().len(), 3);
    assert_eq!(store.affected_packages().len(), 6);
    assert!(store.contains_id(&"GHSA-2".to_string()));
    assert!(!store.contains_id(&"GHSA-9".to_string()));
}

#[test]
fn store_rolls_back_batch_with_committed_id() {
    let first: Vec<GitHubAdvisory> = vec![with_entries("GHSA-a", 1), with_entries("GHSA-b", 1)];
    let second: Vec<GitHubAdvisory> =
        vec![with_entries("GHSA-c", 2), with_entries("GHSA-a", 1), with_entries("GHSA-d", 1)];
    let mut store = MemStore::new();
    assert!(store.write_batch(&first).is_ok());
    match store.write_batch(&second) {
        Err(BatchWriteError::DuplicateId { ghsa }) => assert_eq!(ghsa, "GHSA-a"),
        Ok(()) => panic!("the batch should be rolled back"),
    }
    assert_eq!(store.advisories().len(), 2);
    assert_eq!(store.affected_packages().len(), 2);
    assert!(!store.contains_id(&"GHSA-c".to_string()));
    assert!(store.contains_id(&"GHSA-b".to_string()));
}

#[test]
fn store_rolls_back_batch_with_repeated_id() {
    let batch: Vec<GitHubAdvisory> = vec![with_entries("GHSA-x", 1), with_entries("GHSA-x", 1)];
    let mut store = MemStore::new();
    assert!(matches!(store.write_batch(&batch), Err(BatchWriteError::DuplicateId { .. })));
    assert!(store.advisories().is_empty());
    assert!(store.affected_packages().is_empty());
}

#[test]
fn three_files_end_to_end() {
    let outcomes: Vec<Result<GitHubAdvisory, ParseError>> = vec![
        Ok(advisory(
            "GHSA-one",
            Some(vec![entry("left-pad", Ecosystem::Npm), entry("requests", Ecosystem::PyPi)]),
        )),
        match serde_json::from_str::<serde_json::Value>("{\"id\": \"GHSA-bad\",") {
            Ok(_) => panic!("malformed JSON parsed"),
            Err(e) => Err(ParseError::new("bad.json".to_string(), e.to_string())),
        },
        Ok(advisory("GHSA-two", None)),
    ];
    let batches = into_batches(outcomes, BATCH_SIZE);
    assert_eq!(batches.len(), 1);
    assert_eq!(advisory_count(&batches), 2);
    let mut store = MemStore::new();
    for b in &batches {
        assert!(store.write_batch(b).is_ok());
    }
    assert_eq!(store.advisories().len(), 2);
    assert_eq!(store.affected_packages().len(), 2);
    let names: Vec<&str> = store.advisories()[0].ecosystems.iter().map(|e| e.name()).collect();
    assert_eq!(names, vec!["npm", "PyPI"]);
}

fn advisory_count(batches: &[Vec<GitHubAdvisory>]) -> usize {
    batches.iter().map(|b| b.len()).sum()
}

#[test]
fn json_extension_of_file_names() {
    assert!(has_json_extension("GHSA-1234.json"));
    assert!(has_json_extension("a..json"));
    assert!(!has_json_extension(".json"));
    assert!(!has_json_extension("notes.txt"));
    assert!(!has_json_extension("x.jsonl"));
    assert!(!has_json_extension("json"));
    assert!(!has_json_extension(""));
}

#[test]
fn into_batches_fills_each_batch_but_the_last() {
    let mut outcomes: Vec<Result<GitHubAdvisory, ParseError>> = Vec::new();
    for i in 0..7 {
        outcomes.push(Ok(advisory(&format!("GHSA-{}", i), None)));
        if i % 3 == 0 {
            outcomes.push(Err(ParseError::new(format!("bad{}.json", i), "missing field `id`".to_string())));
        }
    }
    let batches = into_batches(outcomes, 3);
    let sizes: Vec<usize> = batches.iter().map(|b| b.len()).collect();
    assert_eq!(sizes, vec![3, 3, 1]);
    let ids: Vec<&str> = batches.iter().flatten().map(|a| a.id.as_str()).collect();
    assert_eq!(ids, vec!["GHSA-0", "GHSA-1", "GHSA-2", "GHSA-3", "GHSA-4", "GHSA-5", "GHSA-6"]);
}

#[test]
fn into_batches_of_failures_only_is_empty() {
    let outcomes = vec![Err(ParseError::new("a.json".to_string(), "EOF".to_string()))];
    assert!(into_batches(outcomes, BATCH_SIZE).is_empty());
}

#[test]
fn ecosystem_names_read_back() {
    let all = [
        Ecosystem::Go,
        Ecosystem::Npm,
        Ecosystem::OssFuzz,
        Ecosystem::PyPi,
        Ecosystem::RubyGems,
        Ecosystem::CratesIo,
        Ecosystem::Packagist,
        Ecosystem::Maven,
        Ecosystem::NuGet,
        Ecosystem::Linux,
        Ecosystem::Debian,
        Ecosystem::Hex,
        Ecosystem::Android,
        Ecosystem::GitHubActions,
        Ecosystem::Pub,
    ];
    for e in all {
        assert_eq!(Ecosystem::from_name(e.name()), Some(e));
    }
    assert_eq!(Ecosystem::from_name("PyPI"), Some(Ecosystem::PyPi));
    assert_eq!(Ecosystem::from_name("GitHub Actions"), Some(Ecosystem::GitHubActions));
}

#[test]
fn unknown_ecosystem_name_is_rejected() {
    assert_eq!(Ecosystem::from_name("NPM"), None);
    assert_eq!(Ecosystem::from_name("cargo"), None);
    assert_eq!(Ecosystem::from_name(""), None);
    assert_eq!(Ecosystem::from_name("PyPi"), None);
}

#[test]
fn versions_column_escapes_like_json() {
    let mut a = advisory("GHSA-esc", Some(vec![entry("p", Ecosystem::Go)]));
    if let Some(list) = a.affected.as_mut() {
        list[0].versions = Some(vec![
            "a\"b".to_string(),
            "c\\d".to_string(),
            "\u{1}\u{8}\t\n\u{c}\r\u{1f}".to_string(),
            "é/ü".to_string(),
        ]);
    }
    let rows = affected_rows(&a);
    assert_eq!(
        versions_column(&rows[0]),
        Ok("[\"a\\\"b\",\"c\\\\d\",\"\\u0001\\b\\t\\n\\f\\r\\u001f\",\"é/ü\"]".to_string())
    );
}

#[test]
fn permuted_entries_give_the_same_package_rows() {
    let a = advisory(
        "GHSA-p",
        Some(vec![entry("a", Ecosystem::Npm), entry("b", Ecosystem::PyPi), entry("c", Ecosystem::Npm)]),
    );
    let b = advisory(
        "GHSA-p",
        Some(vec![entry("c", Ecosystem::Npm), entry("a", Ecosystem::Npm), entry("b", Ecosystem::PyPi)]),
    );
    let mut store_a = MemStore::new();
    let mut store_b = MemStore::new();
    let batch_a = vec![a];
    let batch_b = vec![b];
    assert!(store_a.write_batch(&batch_a).is_ok());
    assert!(store_b.write_batch(&batch_b).is_ok());
    let key = |s: &MemStore| {
        let mut k: Vec<(String, String, &'static str)> = s
            .affected_packages()
            .iter()
            .map(|r| (r.ghsa.clone(), r.name.clone(), r.ecosystem.name()))
            .collect();
        k.sort();
        k
    };
    assert_eq!(key(&store_a), key(&store_b));
    assert_eq!(key(&store_a).len(), 3);
}
