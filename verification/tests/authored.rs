use csharp_engine_services::authored::{
    admission_refusal, bounded_text, check_catalog_bounds, reported_diagnostics, resolve_refusal,
    AssetKind, AssetReferenceRow, AssetVersionReq, AuthoredCatalogs, AuthoredDiagnostic,
    CatalogAdmissionFailure, CatalogEntryRow, CatalogResolveFailure, CatalogRows,
    MAX_AUTHORED_DIAGNOSTICS, MAX_AUTHORED_TEXT, MAX_CATALOG_DEPENDENCIES, MAX_CATALOG_ENTRIES,
};

fn entry(id: &str, kind: AssetKind) -> CatalogEntryRow {
    CatalogEntryRow {
        id: id.to_owned(),
        kind,
        version: 2,
        hash: Some("aabb".to_owned()),
        source_path: None,
        label: Some("Test".to_owned()),
        dependencies: Vec::new(),
    }
}

fn reference(id: &str) -> AssetReferenceRow {
    AssetReferenceRow { id: id.to_owned(), version: AssetVersionReq::AtLeast(1), hash: None }
}

fn diagnostic(n: usize) -> AuthoredDiagnostic {
    AuthoredDiagnostic { code: format!("CODE_{n}"), message: format!("message {n}"), source: format!("path/{n}") }
}

#[test]
fn admits_typed_catalog_rows_and_refuses_material_entries() {
    check_catalog_bounds(1, 0).expect("within bounds");
    let mut rows = CatalogRows::new();
    rows.admit_entry(entry("scene/test", AssetKind::Scene)).expect("typed entry");
    let entries = rows.into_entries();
    assert_eq!(entries.len(), 1);
    assert_eq!(entries[0].id, "scene/test");
    assert_eq!(entries[0].version, 2);
    assert_eq!(entries[0].hash.as_deref(), Some("aabb"));
    assert_eq!(entries[0].label.as_deref(), Some("Test"));

    let mut catalogs = AuthoredCatalogs::new();
    let typed = catalogs.retain(entries).expect("typed catalog");
    assert_eq!(typed, 1);
    assert_eq!(catalogs.get(typed).expect("live catalog").len(), 1);
    assert!(catalogs.destroy(typed));

    let mut rows = CatalogRows::new();
    let refused = rows.admit_entry(entry("material/test", AssetKind::Material)).expect_err("material refused");
    assert_eq!(refused.code, "AUTHORED_CONTENT_INPUT");
    assert_eq!(refused.message, "material requires its payload and is not admitted by AuthoredContent base");
    assert_eq!(refused.source, "catalog");
    assert!(rows.into_entries().is_empty());
}

#[test]
fn catalog_requests_beyond_engine_bounds_are_refused() {
    check_catalog_bounds(MAX_CATALOG_ENTRIES, MAX_CATALOG_DEPENDENCIES).expect("at the bounds");
    let refused = check_catalog_bounds(MAX_CATALOG_ENTRIES + 1, 0).expect_err("too many entries");
    assert_eq!(refused.code, "AUTHORED_CONTENT_INPUT");
    assert_eq!(refused.message, "catalog input exceeds engine bounds");
    check_catalog_bounds(0, MAX_CATALOG_DEPENDENCIES + 1).expect_err("too many dependencies");
}

#[test]
fn text_fields_are_bounded_in_utf8_bytes() {
    let at_bound = "a".repeat(MAX_AUTHORED_TEXT);
    assert_eq!(bounded_text(&at_bound, "label").expect("at the bound"), at_bound);
    let refused = bounded_text(&"a".repeat(MAX_AUTHORED_TEXT + 1), "label").expect_err("too long");
    assert_eq!(refused.message, "label exceeds engine bound");
    assert_eq!(refused.code, "AUTHORED_CONTENT_INPUT");
    // Two UTF-8 bytes per character: half as many characters reach the bound.
    let wide = "é".repeat(MAX_AUTHORED_TEXT / 2 + 1);
    assert_eq!(bounded_text(&wide, "source path").expect_err("too many bytes").message, "source path exceeds engine bound");
    assert_eq!(bounded_text("", "label").expect("empty"), "");
}

#[test]
fn dependency_rows_attach_to_the_first_entry_with_their_id() {
    let mut rows = CatalogRows::new();
    rows.admit_entry(entry("scene/a", AssetKind::Scene)).unwrap();
    rows.admit_entry(entry("texture/b", AssetKind::Texture)).unwrap();
    rows.admit_entry(entry("scene/a", AssetKind::Scene)).unwrap();
    rows.attach_dependency(&"scene/a".to_owned(), reference("texture/b")).expect("first scene");
    rows.attach_dependency(&"texture/b".to_owned(), reference("font/c")).expect("texture");
    rows.attach_dependency(&"scene/a".to_owned(), reference("audio/d")).expect("first scene again");
    let refused = rows.attach_dependency(&"sprite/x".to_owned(), reference("texture/b")).expect_err("absent entry");
    assert_eq!(refused.code, "AUTHORED_CONTENT_INPUT");
    assert_eq!(refused.message, "dependency entry is absent from request");
    let entries = rows.into_entries();
    assert_eq!(entries.len(), 3);
    let ids = |e: &CatalogEntryRow| e.dependencies.iter().map(|d| d.id.clone()).collect::<Vec<_>>();
    assert_eq!(ids(&entries[0]), vec!["texture/b".to_owned(), "audio/d".to_owned()]);
    assert_eq!(ids(&entries[1]), vec!["font/c".to_owned()]);
    assert!(entries[2].dependencies.is_empty());
}

#[test]
fn refusals_report_at_most_the_first_bounded_diagnostics() {
    let report: Vec<_> = (0..MAX_AUTHORED_DIAGNOSTICS + 5).map(diagnostic).collect();
    let reported = reported_diagnostics(report);
    assert_eq!(reported.len(), MAX_AUTHORED_DIAGNOSTICS);
    assert_eq!(reported[0].code, "CODE_0");
    assert_eq!(reported[MAX_AUTHORED_DIAGNOSTICS - 1].code, format!("CODE_{}", MAX_AUTHORED_DIAGNOSTICS - 1));
    assert_eq!(reported_diagnostics(vec![diagnostic(7)]).len(), 1);

    let validation = admission_refusal(CatalogAdmissionFailure::Validation((0..3).map(diagnostic).collect()));
    assert_eq!(validation.len(), 3);
    assert_eq!(validation[2].source, "path/2");

    let codec = admission_refusal(CatalogAdmissionFailure::Codec {
        message: "expected object".to_owned(),
        path: "$.entries".to_owned(),
    });
    assert_eq!(codec.len(), 1);
    assert_eq!(codec[0].code, "AUTHORED_CONTENT_CODEC");
    assert_eq!(codec[0].message, "expected object");
    assert_eq!(codec[0].source, "$.entries");

    let exhausted = admission_refusal(CatalogAdmissionFailure::RevisionExhausted);
    assert_eq!(exhausted.len(), 1);
    assert_eq!(exhausted[0].code, "AUTHORED_CONTENT_INPUT");
    assert_eq!(exhausted[0].message, "catalog revision exhausted");
}

#[test]
fn unresolved_references_are_reported_against_their_id() {
    let missing = resolve_refusal(CatalogResolveFailure::Missing, "scene/test");
    assert_eq!(missing.code, "AUTHORED_CONTENT_REFERENCE_MISSING");
    assert_eq!(missing.message, "catalog reference is missing");
    assert_eq!(missing.source, "scene/test");
    let stale = resolve_refusal(CatalogResolveFailure::Stale, "scene/test");
    assert_eq!(stale.code, "AUTHORED_CONTENT_REFERENCE_STALE");
    assert_eq!(stale.message, "catalog reference is stale");
}

#[test]
fn catalog_handles_are_never_reused() {
    let mut catalogs: AuthoredCatalogs<&str> = AuthoredCatalogs::new();
    let first = catalogs.retain("first").unwrap();
    let second = catalogs.retain("second").unwrap();
    assert_eq!((first, second), (1, 2));
    assert!(catalogs.destroy(first));
    assert!(!catalogs.destroy(first));
    assert_eq!(catalogs.get(first).expect_err("disposed").message, "unknown catalog handle");
    assert_eq!(catalogs.retain("third").unwrap(), 3);
    assert_eq!(*catalogs.get(second).unwrap(), "second");
    assert!(!catalogs.destroy(0));
}
