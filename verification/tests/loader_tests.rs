use std::io::Write;
use gladius_slicer::error::SlicerErrors;
use gladius_slicer::loader::{
    get_transform_from_values, widen_f32_bits, InputObject, STLLoader, ThreeMFComponent, ThreeMFItem, ThreeMFLoader,
    ThreeMFMesh, ThreeMFModel, ThreeMFObject, ThreeMFTriangle, Transform, Vertex, ONE_BITS,
};

fn v(x: f64, y: f64, z: f64) -> Vertex {
    Vertex { x: x.to_bits(), y: y.to_bits(), z: z.to_bits() }
}

fn coords(p: Vertex) -> (f64, f64, f64) {
    (f64::from_bits(p.x), f64::from_bits(p.y), f64::from_bits(p.z))
}

fn less(a: Vertex, b: Vertex) -> bool {
    let (ax, ay, az) = coords(a);
    let (bx, by, bz) = coords(b);
    if az != bz {
        az < bz
    } else if ay != by {
        ay < by
    } else {
        ax < bx
    }
}

fn apply(t: Transform, p: Vertex) -> Vertex {
    let m = |r: usize, k: usize| f64::from_bits(t.0[r][k]);
    let (x, y, z) = coords(p);
    v(
        m(0, 0) * x + m(0, 1) * y + m(0, 2) * z + m(0, 3),
        m(1, 0) * x + m(1, 1) * y + m(1, 2) * z + m(1, 3),
        m(2, 0) * x + m(2, 1) * y + m(2, 2) * z + m(2, 3),
    )
}

fn values(text: &str) -> Vec<Option<u64>> {
    text.split(' ').map(|p| p.parse::<f64>().ok().map(f64::to_bits)).collect()
}

fn tri(v1: usize, v2: usize, v3: usize) -> ThreeMFTriangle {
    ThreeMFTriangle { v1, v2, v3 }
}

fn triangle_mesh() -> ThreeMFMesh {
    ThreeMFMesh {
        vertices: vec![v(0.0, 0.0, 1.0), v(0.0, 0.0, 0.0), v(1.0, 0.0, 0.0)],
        triangles: vec![tri(0, 1, 2)],
    }
}

#[test]
fn transform_values_are_read_by_column() {
    let t = get_transform_from_values(&values("1 2 3 4 5 6 7 8 9 10 11 12")).unwrap();
    let b = |x: f64| x.to_bits();
    assert_eq!(
        t.0,
        [
            [b(1.0), b(4.0), b(7.0), b(10.0)],
            [b(2.0), b(5.0), b(8.0), b(11.0)],
            [b(3.0), b(6.0), b(9.0), b(12.0)],
            [0, 0, 0, ONE_BITS],
        ]
    );
    assert_eq!(ONE_BITS, 1.0f64.to_bits());
}

#[test]
fn transform_needs_twelve_numbers() {
    assert_eq!(get_transform_from_values(&values("1 2 3")), Err(SlicerErrors::ThreemfLoadError));
    assert_eq!(
        get_transform_from_values(&values("1 2 3 4 5 6 7 8 9 10 11 x")),
        Err(SlicerErrors::ThreemfLoadError)
    );
}

#[test]
fn mesh_triangles_start_at_their_lowest_vertex() {
    let model = ThreeMFModel {
        objects: vec![ThreeMFObject { mesh: Some(triangle_mesh()), components: None, id: 1 }],
        items: vec![ThreeMFItem { objectid: 1, transform: None }],
    };
    let loaded = ThreeMFLoader {}.load(&model, &less, &apply).unwrap();
    assert_eq!(loaded.len(), 1);
    assert_eq!(loaded[0].0, triangle_mesh().vertices);
    // vertex 1 is the lowest: the triangle (0, 1, 2) turns to (1, 2, 0)
    assert_eq!(loaded[0].1.len(), 1);
    assert_eq!(loaded[0].1[0].verts, [1, 2, 0]);
}

#[test]
fn components_are_joined_with_moved_indices() {
    let model = ThreeMFModel {
        objects: vec![
            ThreeMFObject { mesh: Some(triangle_mesh()), components: None, id: 1 },
            ThreeMFObject {
                mesh: None,
                components: Some(vec![
                    ThreeMFComponent { objectid: 1, transform: None },
                    ThreeMFComponent { objectid: 1, transform: Some(values("1 0 0 0 1 0 0 0 1 5 0 0")) },
                ]),
                id: 2,
            },
        ],
        items: vec![ThreeMFItem { objectid: 2, transform: Some(values("1 0 0 0 1 0 0 0 1 0 0 10")) }],
    };
    let loaded = ThreeMFLoader {}.load(&model, &less, &apply).unwrap();
    assert_eq!(loaded.len(), 1);
    let (verts, tris) = &loaded[0];
    let got: Vec<(f64, f64, f64)> = verts.iter().map(|p| coords(*p)).collect();
    assert_eq!(
        got,
        vec![
            (0.0, 0.0, 11.0),
            (0.0, 0.0, 10.0),
            (1.0, 0.0, 10.0),
            (5.0, 0.0, 11.0),
            (5.0, 0.0, 10.0),
            (6.0, 0.0, 10.0),
        ]
    );
    let idx: Vec<[usize; 3]> = tris.iter().map(|t| t.verts).collect();
    assert_eq!(idx, vec![[1, 2, 0], [4, 5, 3]]);
}

#[test]
fn unknown_object_is_an_error() {
    let model = ThreeMFModel {
        objects: vec![ThreeMFObject { mesh: Some(triangle_mesh()), components: None, id: 1 }],
        items: vec![ThreeMFItem { objectid: 7, transform: None }],
    };
    assert_eq!(ThreeMFLoader {}.load(&model, &less, &apply), Err(SlicerErrors::ThreemfLoadError));
}

#[test]
fn object_without_mesh_or_components_is_an_error() {
    let model = ThreeMFModel {
        objects: vec![ThreeMFObject { mesh: None, components: None, id: 1 }],
        items: vec![ThreeMFItem { objectid: 1, transform: None }],
    };
    assert_eq!(ThreeMFLoader {}.load(&model, &less, &apply), Err(SlicerErrors::ThreemfLoadError));
}

#[test]
fn bad_item_transform_is_an_error() {
    let model = ThreeMFModel {
        objects: vec![ThreeMFObject { mesh: Some(triangle_mesh()), components: None, id: 1 }],
        items: vec![ThreeMFItem { objectid: 1, transform: Some(values("1 0 0")) }],
    };
    assert_eq!(ThreeMFLoader {}.load(&model, &less, &apply), Err(SlicerErrors::ThreemfLoadError));
}

#[test]
fn stl_mesh_keeps_vertices_and_triangles() {
    let verts: Vec<[u32; 3]> = vec![
        [0.0f32.to_bits(), 0.0f32.to_bits(), 0.0f32.to_bits()],
        [1.5f32.to_bits(), (-2.0f32).to_bits(), 0.25f32.to_bits()],
    ];
    let loaded = STLLoader.from_mesh(&verts, &vec![[0, 1, 1], [1, 0, 0]]);
    assert_eq!(loaded.len(), 1);
    assert_eq!(loaded[0].0, vec![v(0.0, 0.0, 0.0), v(1.5, -2.0, 0.25)]);
    let idx: Vec<[usize; 3]> = loaded[0].1.iter().map(|t| t.verts).collect();
    assert_eq!(idx, vec![[0, 1, 1], [1, 0, 0]]);
}

#[test]
fn stl_ascii_file_is_parsed() {
    let text = "solid t\nfacet normal 0 0 1\nouter loop\nvertex 0 0 0\nvertex 1 0 0\nvertex 0 2.5 0\nendloop\nendfacet\nendsolid t\n";
    let loaded = STLLoader.load(text.as_bytes()).unwrap();
    assert_eq!(loaded.len(), 1);
    assert_eq!(loaded[0].0, vec![v(0.0, 0.0, 0.0), v(1.0, 0.0, 0.0), v(0.0, 2.5, 0.0)]);
    let idx: Vec<[usize; 3]> = loaded[0].1.iter().map(|t| t.verts).collect();
    assert_eq!(idx, vec![[0, 1, 2]]);
}

#[test]
fn stl_garbage_is_an_error() {
    assert_eq!(STLLoader.load(b"hello"), Err(SlicerErrors::StlLoadError));
}

#[test]
fn widening_matches_f64_from() {
    let mut samples: Vec<u32> = (0..=u32::MAX).step_by(65521).collect();
    samples.extend([0, 0x8000_0000, 1, 0x8000_0001, 0x7F_FFFF, 0x80_0000, 0x7F7F_FFFF, 0x7F80_0000, 0xFF80_0000, 0x7FC0_0000, 0x7F80_0001, 0x3F80_0000]);
    for b in samples {
        let f = std::hint::black_box(f32::from_bits(b));
        assert_eq!(widen_f32_bits(b), f64::from(f).to_bits(), "pattern {:#x}", b);
    }
}

fn zip_of(entries: &[(&str, &str)]) -> Vec<u8> {
    let mut w = zip::ZipWriter::new(std::io::Cursor::new(Vec::new()));
    let opts = zip::write::SimpleFileOptions::default().compression_method(zip::CompressionMethod::Stored);
    for (name, text) in entries {
        w.start_file(*name, opts).unwrap();
        w.write_all(text.as_bytes()).unwrap();
    }
    w.finish().unwrap().into_inner()
}

#[test]
fn threemf_parts_are_read_from_the_archive() {
    let archive = zip_of(&[("_rels/.rels", "rels"), ("3D/3dmodel.model", "model")]);
    assert_eq!(ThreeMFLoader::relationships_part(&archive), Ok(b"rels".to_vec()));
    assert_eq!(ThreeMFLoader::model_part(&archive, "/3D/3dmodel.model"), Ok(b"model".to_vec()));
    assert_eq!(ThreeMFLoader::model_part(&archive, "/3D/other.model"), Err(SlicerErrors::ThreemfLoadError));
    assert_eq!(ThreeMFLoader::relationships_part(b"not a zip"), Err(SlicerErrors::ThreemfUnsupportedType));
}

#[test]
fn translation_transform_moves_a_point() {
    let t = Transform::new_translation_transform(1.5f64.to_bits(), (-2.0f64).to_bits(), 3.0f64.to_bits());
    assert_eq!(t.0[0], [ONE_BITS, 0, 0, 1.5f64.to_bits()]);
    assert_eq!(t.0[3], [0, 0, 0, ONE_BITS]);
    assert_eq!(coords(apply(t, v(1.0, 1.0, 1.0))), (2.5, -1.0, 4.0));
}

#[test]
fn model_path_of_each_input_kind() {
    let t = Transform::new_translation_transform(0, 0, 0);
    assert_eq!(InputObject::Raw(String::from("a.stl"), t).get_model_path(), "a.stl");
    assert_eq!(InputObject::Auto(String::from("b.3mf")).get_model_path(), "b.3mf");
    assert_eq!(InputObject::AutoTranslate(String::from("c.stl"), 0, 1).get_model_path(), "c.stl");
}

#[test]
fn cyclic_components_never_end() {
    let comp = |id: usize| ThreeMFComponent { objectid: id, transform: None };
    let model = ThreeMFModel {
        objects: vec![
            ThreeMFObject { mesh: None, components: Some(vec![comp(2)]), id: 1 },
            ThreeMFObject { mesh: None, components: Some(vec![comp(1)]), id: 2 },
        ],
        items: vec![ThreeMFItem { objectid: 1, transform: None }],
    };
    assert!(ThreeMFLoader {}.try_load(&model, &less, &apply).is_none());
}

#[test]
fn stl_shared_vertices_are_kept_once_in_first_seen_order() {
    let text = "solid t\nfacet normal 0 0 1\nouter loop\nvertex 0 0 0\nvertex 1 0 0\nvertex 0 1 0\nendloop\nendfacet\nfacet normal 0 0 1\nouter loop\nvertex 1 0 0\nvertex 1 1 0\nvertex 0 1 0\nendloop\nendfacet\nendsolid t\n";
    let loaded = STLLoader.load(text.as_bytes()).unwrap();
    assert_eq!(loaded[0].0, vec![v(0.0, 0.0, 0.0), v(1.0, 0.0, 0.0), v(0.0, 1.0, 0.0), v(1.0, 1.0, 0.0)]);
    let idx: Vec<[usize; 3]> = loaded[0].1.iter().map(|t| t.verts).collect();
    assert_eq!(idx, vec![[0, 1, 2], [1, 3, 2]]);
}
