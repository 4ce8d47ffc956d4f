use csharp_engine_services::light::LightRegistry;

#[derive(Debug, Clone, Copy, PartialEq)]
struct Spot {
    intensity: f32,
}

#[test]
fn logical_light_ids_are_owned_once() {
    let mut lights = LightRegistry::new();
    assert_eq!(lights.create(7, Spot { intensity: 1.0 }).unwrap(), 1);
    assert_eq!(lights.create(8, Spot { intensity: 2.0 }).unwrap(), 2);
    assert_eq!(
        lights.create(7, Spot { intensity: 3.0 }).unwrap_err().code(),
        "CSHARP_LIGHT_LOGICAL_ID"
    );
    assert_eq!(lights.len(), 2);
    assert_eq!(
        lights.update(2, 7, Spot { intensity: 4.0 }).unwrap_err().code(),
        "CSHARP_LIGHT_LOGICAL_ID"
    );
    assert_eq!(
        lights.update(9, 9, Spot { intensity: 4.0 }).unwrap_err().code(),
        "CSHARP_LIGHT_HANDLE"
    );
    lights.update(2, 8, Spot { intensity: 5.0 }).unwrap();
    assert_eq!(lights.read(2).unwrap().descriptor, Spot { intensity: 5.0 });
    lights.update(2, 9, Spot { intensity: 6.0 }).unwrap();
    assert_eq!(lights.read(2).unwrap().light_id, 9);
    let (handle, entry) = lights.light_at(0);
    assert_eq!((handle, entry.light_id), (1, 7));
    assert!(lights.destroy(1));
    assert!(!lights.destroy(1), "a tombstone is ignored");
    assert_eq!(lights.read(1).unwrap_err().code(), "CSHARP_LIGHT_HANDLE");
    assert_eq!(lights.create(7, Spot { intensity: 1.0 }).unwrap(), 3, "handles are not reused");
}
