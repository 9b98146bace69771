use truck_brep::controls::{click_starts_pick, move_terms, MoveKeys, PickHit, Selection, SimControls, SpawnQueue};
use truck_brep::paths::{
    buffer_uri, choose_bin_path, glb_requested, is_bin_extension, is_glb_extension, plan_from_parts, plan_outputs,
};

#[test]
fn glb_extension_in_any_case() {
    assert!(is_glb_extension("glb"));
    assert!(is_glb_extension("GLB"));
    assert!(is_glb_extension("gLb"));
    assert!(!is_glb_extension("gltf"));
    assert!(!is_glb_extension("glbx"));
    assert!(!is_glb_extension("gl"));
    assert!(!glb_requested(None));
    assert!(glb_requested(Some("Glb")));
}

#[test]
fn buffer_uri_defaults() {
    assert_eq!(buffer_uri(Some("cube.bin")), "cube.bin");
    assert_eq!(buffer_uri(None), "buffer.bin");
}

#[test]
fn plan_for_glb_output() {
    let p = plan_outputs("output/cube.glb");
    assert!(p.write_glb);
    assert!(p.bin_path.is_none());
    assert!(p.buffer_uri.is_none());
    assert!(plan_outputs("output/CUBE.GLB").write_glb);
}

#[test]
fn plan_for_gltf_output() {
    let p = plan_outputs("output/cube.gltf");
    assert!(!p.write_glb);
    assert_eq!(p.bin_path.as_deref(), Some("output/cube.bin"));
    assert_eq!(p.buffer_uri.as_deref(), Some("cube.bin"));
    let p = plan_outputs("output/cube");
    assert!(!p.write_glb);
    assert_eq!(p.bin_path.as_deref(), Some("output/cube.bin"));
}

#[test]
fn plan_for_plain_names() {
    let p = plan_outputs("out.gltf");
    assert!(!p.write_glb);
    assert_eq!(p.bin_path.as_deref(), Some("out.bin"));
    assert_eq!(p.buffer_uri.as_deref(), Some("out.bin"));
    let p = plan_outputs("tri.glb");
    assert!(p.write_glb);
    assert!(p.bin_path.is_none() && p.buffer_uri.is_none());
    let p = plan_outputs("m.GLB");
    assert!(p.write_glb);
    let p = plan_outputs("a/b");
    assert_eq!(p.bin_path.as_deref(), Some("a/b.bin"));
    assert_eq!(p.buffer_uri.as_deref(), Some("b.bin"));
    let p = plan_outputs("archive.tar.gz");
    assert_eq!(p.bin_path.as_deref(), Some("archive.tar.bin"));
    let p = plan_outputs(".hidden");
    assert_eq!(p.bin_path.as_deref(), Some(".hidden.bin"));
}

#[test]
fn buffer_never_overwrites_a_bin_output() {
    let p = plan_outputs("m.bin");
    assert!(!p.write_glb);
    assert_eq!(p.bin_path.as_deref(), Some("m.bin.bin"));
    assert_eq!(p.buffer_uri.as_deref(), Some("m.bin.bin"));
    let p = plan_outputs("out/m.BIN");
    assert_eq!(p.bin_path.as_deref(), Some("out/m.BIN.bin"));
    assert_eq!(p.buffer_uri.as_deref(), Some("m.BIN.bin"));
    assert!(is_bin_extension("Bin"));
    assert!(!is_bin_extension("bim"));
}

#[test]
fn plan_from_given_parts() {
    let p = plan_from_parts(Some("gltf"), "a/b.bin".to_string(), None);
    assert!(!p.write_glb);
    assert_eq!(p.bin_path.as_deref(), Some("a/b.bin"));
    assert_eq!(p.buffer_uri.as_deref(), Some("buffer.bin"));
    let p = plan_from_parts(Some("GLB"), "a/b.bin".to_string(), Some("b.bin"));
    assert!(p.write_glb);
    assert!(p.bin_path.is_none());
}

#[test]
fn default_sim_controls() {
    let c = SimControls::default();
    assert!(c.physics_on && c.gravity_on && !c.debug_draw);
}

#[test]
fn spawn_queue_drains() {
    let mut q = SpawnQueue { cubes: 3, spheres: 1 };
    let batch = q.drain();
    assert_eq!(batch, SpawnQueue { cubes: 3, spheres: 1 });
    assert_eq!(q, SpawnQueue::default());
    assert_eq!(q.drain(), SpawnQueue { cubes: 0, spheres: 0 });
}

#[test]
fn picking_selects_or_clears() {
    let mut s = Selection { selected: None };
    assert!(s.apply_pick(Some(PickHit { entity: 42, selectable: true })));
    assert_eq!(s.selected, Some(42));
    assert!(!s.apply_pick(Some(PickHit { entity: 7, selectable: false })));
    assert_eq!(s.selected, None);
    s.selected = Some(3);
    assert!(!s.apply_pick(None));
    assert_eq!(s.selected, None);
}

fn no_keys() -> MoveKeys {
    MoveKeys {
        w: false,
        s: false,
        a: false,
        d: false,
        arrow_up: false,
        arrow_down: false,
        arrow_left: false,
        arrow_right: false,
        space: false,
        shift_left: false,
        shift_right: false,
    }
}

#[test]
fn movement_from_keys() {
    let t = move_terms(MoveKeys { w: true, arrow_left: true, space: true, shift_right: true, ..no_keys() });
    assert_eq!((t.forward, t.right, t.flat_forward, t.flat_right, t.up), (1, -1, 0, -1, 1));
    assert!(t.boost);
    let t = move_terms(MoveKeys { a: true, arrow_left: true, d: true, ..no_keys() });
    assert_eq!(t.right, 0);
    assert_eq!(t.flat_right, -1);
    let t = move_terms(MoveKeys { s: true, arrow_down: true, shift_left: true, ..no_keys() });
    assert_eq!((t.forward, t.flat_forward, t.up), (-1, -1, -1));
    assert!(!t.boost);
}

#[test]
fn plan_for_absolute_paths() {
    let p = plan_outputs("/tmp/model.glb");
    assert!(p.write_glb);
    assert!(p.bin_path.is_none());
    let p = plan_outputs("/tmp/m.gltf");
    assert_eq!(p.bin_path.as_deref(), Some("/tmp/m.bin"));
    assert_eq!(p.buffer_uri.as_deref(), Some("m.bin"));
    let p = plan_outputs("/tmp/m.bin");
    assert_eq!(p.bin_path.as_deref(), Some("/tmp/m.bin.bin"));
    assert_eq!(p.buffer_uri.as_deref(), Some("m.bin.bin"));
}

#[test]
fn bin_path_choice() {
    let a = || "m.bin.bin".to_string();
    let w = || "m.bin".to_string();
    assert_eq!(choose_bin_path(Some("bin"), a(), w()), "m.bin.bin");
    assert_eq!(choose_bin_path(Some("BiN"), a(), w()), "m.bin.bin");
    assert_eq!(choose_bin_path(Some("gltf"), a(), w()), "m.bin");
    assert_eq!(choose_bin_path(None, a(), w()), "m.bin");
}

#[test]
fn click_guard() {
    assert!(click_starts_pick(true, true));
    assert!(!click_starts_pick(true, false));
    assert!(!click_starts_pick(false, true));
    assert!(!click_starts_pick(false, false));
}
