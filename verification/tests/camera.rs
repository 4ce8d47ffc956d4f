use csharp_engine_services::camera::{
    CameraCompositionPresentation, CameraCompositionView, CameraRegistry,
};

#[derive(Clone, Copy, Debug, PartialEq)]
struct Viewport {
    x: f32,
    y: f32,
    width: f32,
    height: f32,
}

#[derive(Clone, Copy, Debug, PartialEq)]
struct Camera {
    position: [f32; 3],
    fov_y_degrees: f32,
    near: f32,
    far: f32,
}

#[derive(Clone, Copy, Debug, PartialEq)]
enum Sampling {
    Linear,
    Nearest,
}

#[derive(Clone, Copy, Debug, PartialEq)]
struct Target {
    width: u32,
    height: u32,
    sampling: Sampling,
}

fn viewport(x: f32, y: f32, width: f32, height: f32) -> Viewport {
    Viewport {
        x,
        y,
        width,
        height,
    }
}

fn camera_descriptor() -> Camera {
    Camera {
        position: [1.0, 2.0, 3.0],
        fov_y_degrees: 70.0,
        near: 0.1,
        far: 1_000.0,
    }
}

fn target_descriptor() -> Target {
    Target {
        width: 320,
        height: 180,
        sampling: Sampling::Linear,
    }
}

type Registry = CameraRegistry<Camera, Target, Viewport>;

#[test]
fn retained_multi_view_target_composition_reconstructs_and_reconciles_owners() {
    let mut registry = Registry::new();
    let front = registry
        .create(camera_descriptor(), viewport(0.0, 0.0, 0.5, 1.0))
        .expect("front camera");
    let rear = registry
        .create(camera_descriptor(), viewport(0.5, 0.0, 0.5, 1.0))
        .expect("rear camera");
    let target = registry
        .create_target(target_descriptor())
        .expect("offscreen target");
    let views = vec![
        CameraCompositionView {
            camera: front,
            target: 0,
            viewport: viewport(0.0, 0.0, 0.5, 1.0),
            order: 0,
        },
        CameraCompositionView {
            camera: rear,
            target,
            viewport: viewport(0.0, 0.0, 1.0, 1.0),
            order: 1,
        },
    ];
    let presentations = vec![CameraCompositionPresentation {
        source_target: target,
        destination: viewport(0.7, 0.7, 0.25, 0.25),
        order: 2,
    }];
    registry
        .set_composition(views, presentations)
        .expect("split and inset composition");
    let composition = registry.composition();
    assert_eq!(composition.cameras.len(), 2);
    assert_eq!(composition.targets.len(), 1);
    assert_eq!(composition.views.len(), 2);
    assert_eq!(composition.presentations.len(), 1);
    assert_eq!(composition.targets[0].1, 1);
    assert_eq!(format!("csharp-target-{}", composition.targets[0].0), "csharp-target-1");

    let baseline = registry.composition();
    assert_eq!(baseline.cameras, composition.cameras);
    assert_eq!(baseline.targets, composition.targets);
    assert_eq!(baseline.views.len(), composition.views.len());

    let mut updated = target_descriptor();
    updated.sampling = Sampling::Nearest;
    registry
        .update_target(target, updated)
        .expect("target update");
    assert_eq!(registry.composition().targets[0].1, 2);

    let replacement_camera = registry
        .replace(rear, camera_descriptor(), viewport(0.0, 0.0, 1.0, 1.0))
        .expect("camera replacement");
    let replacement_target = registry
        .replace_target(target, target_descriptor())
        .expect("target replacement");
    let composition = registry.composition();
    assert!(composition
        .views
        .iter()
        .any(|view| view.camera == replacement_camera));
    assert_eq!(composition.targets[0].0, replacement_target);

    registry
        .destroy_target(replacement_target)
        .expect("target destroys dependent composition facts");
    let composition = registry.composition();
    assert_eq!(composition.targets.len(), 0);
    assert_eq!(composition.presentations.len(), 0);
    assert_eq!(composition.views.len(), 1);
    assert_eq!(composition.views[0].camera, front);
}

#[test]
fn invalid_composition_is_fail_atomic_and_active_camera_uses_it_as_convenience() {
    let mut registry = Registry::new();
    let camera = registry
        .create(camera_descriptor(), viewport(0.0, 0.0, 1.0, 1.0))
        .expect("camera");
    registry.set_active(camera).expect("active convenience");
    assert_eq!(registry.composition().views.len(), 1);
    registry
        .update(camera, camera_descriptor(), viewport(0.25, 0.0, 0.75, 1.0))
        .expect("active camera update");
    assert_eq!(registry.composition().views[0].viewport.x, 0.25);
    let explicit = vec![CameraCompositionView {
        camera,
        target: 0,
        viewport: viewport(0.1, 0.2, 0.3, 0.4),
        order: 0,
    }];
    registry
        .set_composition(explicit, vec![])
        .expect("explicit composition");
    registry
        .update(camera, camera_descriptor(), viewport(0.0, 0.0, 1.0, 1.0))
        .expect("explicit camera update");
    assert_eq!(registry.composition().views[0].viewport.x, 0.1);
    assert_eq!(
        registry
            .destroy_target(0)
            .expect_err("primary is not an owned target")
            .code(),
        "CSHARP_CAMERA_TARGET_HANDLE"
    );
    let invalid = vec![CameraCompositionView {
        camera: 99,
        target: 0,
        viewport: viewport(0.0, 0.0, 1.0, 1.0),
        order: 0,
    }];
    assert_eq!(
        registry
            .set_composition(invalid, vec![])
            .expect_err("missing camera")
            .code(),
        "CSHARP_CAMERA_COMPOSITION_CAMERA"
    );
    assert_eq!(registry.composition().views[0].camera, camera);
}

#[test]
fn composition_refuses_dead_targets_and_presentations() {
    let mut registry = Registry::new();
    let camera = registry
        .create(camera_descriptor(), viewport(0.0, 0.0, 1.0, 1.0))
        .unwrap();
    let view_into = |target: u64| CameraCompositionView {
        camera,
        target,
        viewport: viewport(0.0, 0.0, 1.0, 1.0),
        order: 0,
    };
    assert_eq!(
        registry
            .set_composition(vec![view_into(5)], vec![])
            .unwrap_err()
            .code(),
        "CSHARP_CAMERA_COMPOSITION_TARGET"
    );
    assert_eq!(
        registry
            .set_composition(
                vec![view_into(0)],
                vec![CameraCompositionPresentation {
                    source_target: 0,
                    destination: viewport(0.0, 0.0, 1.0, 1.0),
                    order: 0,
                }],
            )
            .unwrap_err()
            .code(),
        "CSHARP_CAMERA_COMPOSITION_TARGET"
    );
    assert_eq!(registry.composition().views.len(), 0);
}

#[test]
fn destroying_cameras_and_handles_never_reused() {
    let mut registry = Registry::new();
    let a = registry
        .create(camera_descriptor(), viewport(0.0, 0.0, 1.0, 1.0))
        .unwrap();
    registry.set_active(a).unwrap();
    let b = registry
        .replace(a, camera_descriptor(), viewport(0.0, 0.0, 0.5, 0.5))
        .unwrap();
    assert_eq!((a, b), (1, 2));
    assert_eq!(registry.composition().views[0].camera, b);
    assert_eq!(registry.composition().views[0].viewport.width, 0.5);
    registry.destroy(a);
    assert_eq!(registry.composition().views.len(), 1);
    assert_eq!(
        registry.update(a, camera_descriptor(), viewport(0.0, 0.0, 1.0, 1.0)).unwrap_err().code(),
        "CSHARP_CAMERA_HANDLE"
    );
    registry.destroy(b);
    assert_eq!(registry.composition().views.len(), 0);
    assert_eq!(registry.set_active(b).unwrap_err().code(), "CSHARP_CAMERA_HANDLE");
    let c = registry
        .create(camera_descriptor(), viewport(0.0, 0.0, 1.0, 1.0))
        .unwrap();
    assert_eq!(c, 3);
    registry.set_active(c).unwrap();
    registry.clear_active();
    assert_eq!(registry.composition().views.len(), 0);
    assert_eq!(registry.set_sky(0).unwrap_err().code(), "CSHARP_SKY_TEXTURE");
    assert!(registry.set_sky(4).is_ok());
    registry.clear_sky();
}
