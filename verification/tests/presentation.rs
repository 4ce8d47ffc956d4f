use csharp_engine_services::presentation::{
    GhostPlate, GhostPlateObservations, GhostPlateRegistry, PresentationDiagnostic, PresentationDiagnosticDomain,
    PresentationDiagnostics, PresentationOwners, MAX_PRESENTATION_DIAGNOSTICS,
};

fn diagnostic(domain: PresentationDiagnosticDomain, code: u8, sequence: u32) -> PresentationDiagnostic<u8> {
    PresentationDiagnostic { domain, code, sequence, logical_id: u64::from(code) }
}

#[test]
fn presentation_diagnostics_are_read_back_per_domain() {
    let mut log = PresentationDiagnostics::new();
    assert_eq!(log.count(PresentationDiagnosticDomain::Billboard), 0);
    assert_eq!(log.at(PresentationDiagnosticDomain::Billboard, 0), None);
    log.record(diagnostic(PresentationDiagnosticDomain::Billboard, 1, 10));
    log.record(diagnostic(PresentationDiagnosticDomain::Particle, 2, 11));
    log.record(diagnostic(PresentationDiagnosticDomain::Billboard, 3, 12));
    assert_eq!(log.count(PresentationDiagnosticDomain::Billboard), 2);
    assert_eq!(log.count(PresentationDiagnosticDomain::Particle), 1);
    assert_eq!(log.at(PresentationDiagnosticDomain::Billboard, 0), Some(diagnostic(PresentationDiagnosticDomain::Billboard, 1, 10)));
    assert_eq!(log.at(PresentationDiagnosticDomain::Billboard, 1), Some(diagnostic(PresentationDiagnosticDomain::Billboard, 3, 12)));
    assert_eq!(log.at(PresentationDiagnosticDomain::Billboard, 2), None);
    assert_eq!(log.at(PresentationDiagnosticDomain::Particle, 0), Some(diagnostic(PresentationDiagnosticDomain::Particle, 2, 11)));
}

#[test]
fn presentation_diagnostics_drop_the_oldest_beyond_the_bound() {
    let mut log = PresentationDiagnostics::new();
    log.record(diagnostic(PresentationDiagnosticDomain::Particle, 0, 0));
    for sequence in 1..MAX_PRESENTATION_DIAGNOSTICS as u32 {
        log.record(diagnostic(PresentationDiagnosticDomain::Billboard, 1, sequence));
    }
    assert_eq!(log.count(PresentationDiagnosticDomain::Particle), 1);
    assert_eq!(log.count(PresentationDiagnosticDomain::Billboard), 127);
    log.record(diagnostic(PresentationDiagnosticDomain::Billboard, 2, 500));
    assert_eq!(log.count(PresentationDiagnosticDomain::Particle), 0, "the oldest diagnostic was dropped");
    assert_eq!(log.count(PresentationDiagnosticDomain::Billboard), 128);
    assert_eq!(log.at(PresentationDiagnosticDomain::Billboard, 0).unwrap().sequence, 1);
    assert_eq!(log.at(PresentationDiagnosticDomain::Billboard, 127).unwrap().sequence, 500);
    log.record(diagnostic(PresentationDiagnosticDomain::Particle, 3, 501));
    assert_eq!(log.count(PresentationDiagnosticDomain::Billboard), 127);
    assert_eq!(log.at(PresentationDiagnosticDomain::Billboard, 0).unwrap().sequence, 2);
    assert_eq!(log.at(PresentationDiagnosticDomain::Particle, 0).unwrap().sequence, 501);
}

#[test]
fn ghost_plates_keep_their_source_objects() {
    let mut plates: GhostPlateRegistry<(f32, u32)> = GhostPlateRegistry::new();
    let first = plates.reserve().unwrap();
    assert_eq!(first, 1);
    plates.insert(first, GhostPlate { source_object_id: 40, presentation: (1.5, 8) });
    let second = plates.reserve().unwrap();
    plates.insert(second, GhostPlate { source_object_id: 41, presentation: (2.5, 4) });
    let mut sources = plates.sources();
    sources.sort();
    assert_eq!(sources, vec![40, 41]);
    plates.update(first, (3.0, 16)).unwrap();
    assert_eq!(plates.get(first).unwrap().source_object_id, 40);
    assert_eq!(plates.get(first).unwrap().presentation, (3.0, 16));
    assert_eq!(plates.update(9, (0.0, 1)).unwrap_err().code(), "CSHARP_GHOST_PLATE_HANDLE");
    assert_eq!(plates.remove(first).unwrap().source_object_id, 40);
    assert_eq!(plates.remove(first).unwrap_err().code(), "CSHARP_GHOST_PLATE_HANDLE");
    assert_eq!(plates.get(first).unwrap_err().code(), "CSHARP_GHOST_PLATE_HANDLE");
    assert_eq!(plates.sources(), vec![41]);
    assert_eq!(plates.reserve().unwrap(), 3, "handles are not reused");
}

#[test]
fn billboards_and_emitters_are_owned_by_nonzero_logical_ids() {
    let mut billboards = PresentationOwners::new(PresentationDiagnosticDomain::Billboard);
    let emitters = PresentationOwners::new(PresentationDiagnosticDomain::Particle);
    assert_eq!(
        billboards.check_new(0).unwrap_err().code(),
        "CSHARP_PRESENTATION_BILLBOARD"
    );
    assert_eq!(emitters.check_new(0).unwrap_err().code(), "CSHARP_PRESENTATION_PARTICLE");
    assert!(billboards.check_new(12).is_ok());
    billboards.insert(12);
    assert!(billboards.require_live(12).is_ok());
    assert_eq!(
        billboards.require_live(13).unwrap_err().code(),
        "CSHARP_PRESENTATION_BILLBOARD"
    );
    assert_eq!(emitters.require_live(12).unwrap_err().code(), "CSHARP_PRESENTATION_PARTICLE");
    billboards.remove(12);
    assert!(billboards.require_live(12).is_err());
}

/// A renderer observation of one ghost plate.
#[allow(dead_code)]
#[derive(Clone, Copy, Debug, PartialEq)]
struct GhostPlateRealizationFact {
    handle: u64,
    source_matches: bool,
    current_sector: u32,
    local_angular_offset_degrees: Option<f32>,
    fallback_active: bool,
    preparation_cpu_milliseconds: Option<f64>,
    capture_cpu_submission_milliseconds: Option<f64>,
    retained_sector_count: u32,
    retained_mesh_count: u32,
    retained_material_count: u32,
    retained_borrowed_texture_count: u32,
}

fn ingest(observations: &mut GhostPlateObservations<GhostPlateRealizationFact>, facts: Vec<GhostPlateRealizationFact>) {
    observations.ingest(facts.into_iter().map(|fact| (fact.handle, fact)).collect());
}

#[test]
fn ghost_plate_realization_snapshot_replaces_active_observations_with_empty() {
    let mut observations = GhostPlateObservations::new();
    ingest(
        &mut observations,
        vec![GhostPlateRealizationFact {
            handle: 9,
            source_matches: true,
            current_sector: 2,
            local_angular_offset_degrees: Some(12.0),
            fallback_active: false,
            preparation_cpu_milliseconds: Some(1.0),
            capture_cpu_submission_milliseconds: Some(2.0),
            retained_sector_count: 4,
            retained_mesh_count: 1,
            retained_material_count: 1,
            retained_borrowed_texture_count: 0,
        }],
    );
    assert!(observations.get(9).is_some());
    ingest(&mut observations, vec![]);
    assert_eq!(observations.len(), 0);
    assert!(observations.get(9).is_none());
}

#[test]
fn ghost_plate_snapshot_keeps_the_last_report_per_plate() {
    let mut observations = GhostPlateObservations::new();
    observations.ingest(vec![(4, "old"), (7, "other")]);
    observations.ingest(vec![(9, "first"), (3, "three"), (9, "last")]);
    assert_eq!(observations.len(), 2);
    assert_eq!(observations.get(9), Some(&"last"));
    assert_eq!(observations.get(3), Some(&"three"));
    assert_eq!(observations.get(4), None);
    observations.forget(9);
    assert_eq!(observations.get(9), None);
    assert_eq!(observations.len(), 1);
}
