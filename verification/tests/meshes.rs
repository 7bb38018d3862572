use rusterer::fx::FX_ONE;
use rusterer::geometry::{AnimatedMesh, Mesh};
use rusterer::texture::Texture;

fn tex() -> Texture {
    Texture { pixels: vec![0xff000000; 4], width: 2, height: 2 }
}

const QUAD_OBJ: &str = "vt 0 0\nvt 1 0\nvt 0 1\nv -1 -1 0\nv -1 1 0\nv 1 1 0\nv 1 -1 0\nf 1/1 2/2 3/3\nf 1/1 3/3 4/2\n";

#[test]
fn mesh_parses_vertices_and_faces() {
    let t = tex();
    let m = Mesh::new(&t, QUAD_OBJ.as_bytes()).expect("the model parses");
    assert_eq!(m.tris.len(), 2);
    let p = &m.tris[0].points;
    assert_eq!((p[0].x, p[0].y, p[0].z), (-FX_ONE, -FX_ONE, 0));
    assert_eq!((p[1].x, p[1].y, p[1].z), (-FX_ONE, FX_ONE, 0));
    assert_eq!((p[2].x, p[2].y, p[2].z), (FX_ONE, FX_ONE, 0));
    let q = &m.tris[0].texture_points;
    assert_eq!((q[0].u, q[0].v), (0, 0));
    assert_eq!((q[1].u, q[1].v), (FX_ONE, 0));
    assert_eq!((q[2].u, q[2].v), (0, FX_ONE));
    // every position carries the homogeneous one
    assert_eq!(p[0].w, FX_ONE);
}

#[test]
fn mesh_parses_decimal_coordinates() {
    let t = tex();
    let src = "v 1.5 -2.25 0.5\nv 0 0 0\nv 0 1 0\nvt 0 0\nf 1/1 2/1 3/1\n";
    let m = Mesh::new(&t, src.as_bytes()).expect("decimals parse");
    let p = m.tris[0].points[0];
    assert_eq!(p.x, 98304); // 1.5
    assert_eq!(p.y, -147456); // -2.25
    assert_eq!(p.z, 32768); // 0.5
}

#[test]
fn mesh_parsing_rejects_malformed_lines() {
    let t = tex();
    // a vertex coordinate that is not a number
    assert!(Mesh::new(&t, b"v 1 x 0\nvt 0 0\nf 1/1 1/1 1/1\n").is_none());
    // a face index out of range
    assert!(Mesh::new(&t, b"v 0 0 0\nvt 0 0\nf 1/1 2/1 1/1\n").is_none());
    // a face token without its texture index
    assert!(Mesh::new(&t, b"v 0 0 0\nvt 0 0\nf 1 1 1\n").is_none());
    // a vertex line with too few numbers
    assert!(Mesh::new(&t, b"v 1 2\n").is_none());
}

#[test]
fn mesh_ignores_unknown_lines() {
    let t = tex();
    let src = "# comment\no name\nv 0 0 0\nv 0 1 0\nv 1 0 0\nvt 0 0\ns off\nf 1/1 2/1 3/1\n";
    let m = Mesh::new(&t, src.as_bytes()).expect("unknown lines are ignored");
    assert_eq!(m.tris.len(), 1);
}

#[test]
fn load_appends_to_existing_triangles() {
    let t = tex();
    let mut m = Mesh::new(&t, QUAD_OBJ.as_bytes()).unwrap();
    assert!(m.load_from_object_file(QUAD_OBJ.as_bytes(), true));
    assert_eq!(m.tris.len(), 4);
    // a failed load leaves the mesh untouched
    assert!(!m.load_from_object_file(b"v zzz\n", true));
    assert_eq!(m.tris.len(), 4);
}

#[test]
fn load_without_texture_indices() {
    let t = tex();
    let mut m = Mesh::new(&t, QUAD_OBJ.as_bytes()).unwrap();
    m.tris.clear();
    assert!(m.load_from_object_file(b"v 0 0 0\nv 0 1 0\nv 1 0 0\nf 1 2 3\n", false));
    assert_eq!(m.tris.len(), 1);
    assert_eq!(m.tris[0].points[1].y, FX_ONE);
}

fn keyframes() -> (String, String) {
    let f1 = "vt 0 0\nv 0 0 0\nv 0 1 0\nv 1 0 0\nf 1/1 2/1 3/1\n".to_string();
    // the second keyframe moves the first vertex's X by 0.5
    let f2 = "vt 0 0\nv 0.5 0 0\nv 0 1 0\nv 1 0 0\nf 1/1 2/1 3/1\n".to_string();
    (f1, f2)
}

#[test]
fn animated_mesh_full_frame_step_moves_by_delta() {
    let t = tex();
    let (f1, f2) = keyframes();
    let files = vec![f1.into_bytes(), f2.into_bytes()];
    // 2 frames per second; advancing by exactly 1/fps = 0.5 s is one frame
    let mut am = AnimatedMesh::new(&t, files, 2 * FX_ONE, true).expect("keyframes load");
    assert_eq!(am.current_frame.tris[0].points[0].x, 0);
    am.tick(FX_ONE / 2);
    assert_eq!(am.current_frame.tris[0].points[0].x, FX_ONE / 2);
}

#[test]
fn animated_mesh_half_frame_step_moves_by_half_delta() {
    let t = tex();
    let (f1, f2) = keyframes();
    let files = vec![f1.into_bytes(), f2.into_bytes()];
    let mut am = AnimatedMesh::new(&t, files, 2 * FX_ONE, true).expect("keyframes load");
    // advancing by 0.5/fps = 0.25 s is half a frame: X moves by delta/2
    am.tick(FX_ONE / 4);
    assert_eq!(am.current_frame.tris[0].points[0].x, FX_ONE / 4);
}

#[test]
fn animated_mesh_not_running_stays_put() {
    let t = tex();
    let (f1, f2) = keyframes();
    let files = vec![f1.into_bytes(), f2.into_bytes()];
    let mut am = AnimatedMesh::new(&t, files, 2 * FX_ONE, false).unwrap();
    am.tick(FX_ONE);
    assert_eq!(am.current_frame.tris[0].points[0].x, 0);
}

#[test]
fn animated_mesh_rejects_bad_input() {
    let t = tex();
    // no keyframes at all
    assert!(AnimatedMesh::new(&t, Vec::new(), FX_ONE, true).is_none());
    // keyframes of different shapes
    let (f1, _) = keyframes();
    let other = "vt 0 0\nv 0 0 0\nv 0 1 0\nv 1 0 0\nf 1/1 2/1 3/1\nf 1/1 2/1 3/1\n".to_string();
    let files = vec![f1.into_bytes(), other.into_bytes()];
    assert!(AnimatedMesh::new(&t, files, FX_ONE, true).is_none());
}

#[test]
fn animated_mesh_wraps_modulo_the_keyframe_count() {
    let t = tex();
    let (f1, _) = keyframes();
    // one keyframe, rate 2.0, elapsed 0.75 s: position 1.5 wraps to 0.5
    let mut am = AnimatedMesh::new(&t, vec![f1.into_bytes()], 2 * FX_ONE, true).unwrap();
    am.tick(3 * FX_ONE / 4);
    assert_eq!(am.current_frame_numeric, FX_ONE / 2);
    // two keyframes, rate 2.0, elapsed 1.25 s: position 2.5 wraps to 0.5
    let (f1b, f2b) = keyframes();
    let mut am2 =
        AnimatedMesh::new(&t, vec![f1b.into_bytes(), f2b.into_bytes()], 2 * FX_ONE, true).unwrap();
    am2.tick(FX_ONE + FX_ONE / 4);
    assert_eq!(am2.current_frame_numeric, FX_ONE / 2);
    // halfway between keyframe 0 and keyframe 1 after the wrap
    assert_eq!(am2.current_frame.tris[0].points[0].x, FX_ONE / 4);
}
