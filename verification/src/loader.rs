//! Model loaders: turning what an STL or a 3MF file holds into lists of
//! vertices and indexed triangles.
//!
//! Reading the files (a zip archive and its XML parts for 3MF) happens
//! outside this crate; the structure of a 3MF model arrives here as plain
//! values. Coordinates are carried by their IEEE-754 bit patterns
//! (`f64::to_bits`); comparing two vertices and multiplying a vertex by a
//! transform are floating-point work that the caller hands in as functions.
use crate::error::SlicerErrors;
use crate::types::IndexedTriangle;
use vstd::prelude::*;
use vstd::string::StringSliceAdditionalSpecFns;

verus! {

/// A single 3D vertex, each coordinate by its bit pattern.
#[derive(Clone, Copy, Debug, PartialEq, Eq, Structural)]
pub struct Vertex {
    /// X coordinate
    pub x: u64,
    /// Y coordinate
    pub y: u64,
    /// Z coordinate
    pub z: u64,
}

/// A 4x4 matrix used to transform models, each entry by its bit pattern.
#[derive(Clone, Copy, Debug, PartialEq)]
pub struct Transform(pub [[u64; 4]; 4]);

/// The bit pattern of the floating-point number one.
pub const ONE_BITS: u64 = 0x3FF0_0000_0000_0000;

impl Transform {
    /// The transform that moves a model by `x`, `y` and `z`.
    pub fn new_translation_transform(x: u64, y: u64, z: u64) -> (t: Transform)
        ensures
            t == Transform([[ONE_BITS, 0, 0, x], [0, ONE_BITS, 0, y], [0, 0, ONE_BITS, z], [0, 0, 0, ONE_BITS]]),
    {
        Transform([[ONE_BITS, 0, 0, x], [0, ONE_BITS, 0, y], [0, 0, ONE_BITS, z], [0, 0, 0, ONE_BITS]])
    }
}

/// The different kinds of input model that the slicer takes.
#[derive(Clone, Debug)]
pub enum InputObject {
    /// The file of the model and the transform to apply to it
    Raw(String, Transform),
    /// The file of a model to center on the bed and put on it
    Auto(String),
    /// The file of a model to center on the bed, moved by `x` and `y`, and put on it
    AutoTranslate(String, u64, u64),
}

impl InputObject {
    /// The path of the model file.
    pub fn get_model_path(&self) -> (p: &str)
        ensures
            p@ == match *self {
                InputObject::Raw(s, _) => s@,
                InputObject::Auto(s) => s@,
                InputObject::AutoTranslate(s, _, _) => s@,
            },
    {
        match self {
            InputObject::Raw(s, _) => s.as_str(),
            InputObject::Auto(s) => s.as_str(),
            InputObject::AutoTranslate(s, _, _) => s.as_str(),
        }
    }
}

/// A triangle of a 3MF mesh, by the indices of its vertices.
#[derive(Clone, Copy, Debug, PartialEq, Eq, Structural)]
pub struct ThreeMFTriangle {
    pub v1: usize,
    pub v2: usize,
    pub v3: usize,
}

/// The mesh of a 3MF object.
#[derive(Clone, Debug)]
pub struct ThreeMFMesh {
    pub vertices: Vec<Vertex>,
    pub triangles: Vec<ThreeMFTriangle>,
}

/// A reference from one 3MF object to another. The transform is its text
/// split on spaces, each part read as a floating-point number (`None` for a
/// part that is not one).
#[derive(Clone, Debug)]
pub struct ThreeMFComponent {
    pub objectid: usize,
    pub transform: Option<Vec<Option<u64>>>,
}

/// An object of a 3MF model: a mesh, or a list of components.
#[derive(Clone, Debug)]
pub struct ThreeMFObject {
    pub mesh: Option<ThreeMFMesh>,
    pub components: Option<Vec<ThreeMFComponent>>,
    pub id: usize,
}

/// An item of the build: an object to print, with its transform given as for
/// a component.
#[derive(Clone, Debug)]
pub struct ThreeMFItem {
    pub objectid: usize,
    pub transform: Option<Vec<Option<u64>>>,
}

/// The resources and the build of a 3MF model.
#[derive(Clone, Debug)]
pub struct ThreeMFModel {
    pub objects: Vec<ThreeMFObject>,
    pub items: Vec<ThreeMFItem>,
}

/// What loading gives: the vertices and the triangles of each model, the
/// triangles by the index triples they hold.
pub type MeshSpec = (Seq<Vertex>, Seq<Seq<usize>>);

/// The index triples of a list of triangles.
pub open spec fn triangle_indices(ts: Seq<IndexedTriangle>) -> Seq<Seq<usize>> {
    Seq::new(ts.len(), |i: int| ts[i].verts@)
}

/// The transform that twelve numbers give, read column by column into the
/// first three rows, the last row being `0 0 0 1`; an error when a part is not
/// a number or there are not twelve of them.
pub open spec fn transform_from_values(values: Seq<Option<u64>>) -> Result<Transform, SlicerErrors> {
    if values.len() != 12 || exists|i: int| 0 <= i < values.len() && values[i] is None {
        Err(SlicerErrors::ThreemfLoadError)
    } else {
        let v = |i: int| values[i]->Some_0;
        Ok(
            Transform(
                [
                    [v(0), v(3), v(6), v(9)],
                    [v(1), v(4), v(7), v(10)],
                    [v(2), v(5), v(8), v(11)],
                    [0, 0, 0, ONE_BITS],
                ],
            ),
        )
    }
}

/// Reads a transform from the numbers of its text.
pub fn get_transform_from_values(values: &Vec<Option<u64>>) -> (r: Result<Transform, SlicerErrors>)
    ensures
        r == transform_from_values(values@),
{
    let mut nums: Vec<u64> = Vec::new();
    let mut i: usize = 0;
    while i < values.len()
        invariant
            i <= values@.len(),
            nums@.len() == i,
            forall|k: int| 0 <= k < i ==> values@[k] == Some(#[trigger] nums@[k]),
        decreases values@.len() - i,
    {
        match values[i] {
            Some(v) => {
                nums.push(v);
            },
            None => {
                assert(values@[i as int] is None);
                return Err(SlicerErrors::ThreemfLoadError);
            },
        }
        i = i + 1;
    }
    if nums.len() != 12 {
        return Err(SlicerErrors::ThreemfLoadError);
    }
    assert(forall|k: int| 0 <= k < 12 ==> values@[k]->Some_0 == #[trigger] nums@[k]);
    let t = Transform(
        [
            [nums[0], nums[3], nums[6], nums[9]],
            [nums[1], nums[4], nums[7], nums[10]],
            [nums[2], nums[5], nums[8], nums[11]],
            [0, 0, 0, ONE_BITS],
        ],
    );
    assert(t == transform_from_values(values@)->Ok_0);
    Ok(t)
}

/// A comparison of vertices made outside the crate: defined for every pair
/// and giving one answer for the same vertices.
pub open spec fn compares<L: Fn(Vertex, Vertex) -> bool>(less: &L) -> bool {
    &&& forall|a: Vertex, b: Vertex| less.requires((a, b))
    &&& forall|a: Vertex, b: Vertex, r1: bool, r2: bool|
        less.ensures((a, b), r1) && less.ensures((a, b), r2) ==> r1 == r2
}

/// The answer of a comparison of vertices.
pub open spec fn comparison<L: Fn(Vertex, Vertex) -> bool>(less: &L) -> spec_fn(Vertex, Vertex) -> bool {
    |a: Vertex, b: Vertex| less.ensures((a, b), true)
}

/// A transformation of vertices made outside the crate: defined everywhere
/// and giving one answer for the same arguments.
pub open spec fn transforms<A: Fn(Transform, Vertex) -> Vertex>(apply: &A) -> bool {
    &&& forall|t: Transform, v: Vertex| apply.requires((t, v))
    &&& forall|t: Transform, v: Vertex, r1: Vertex, r2: Vertex|
        apply.ensures((t, v), r1) && apply.ensures((t, v), r2) ==> r1 == r2
}

/// The answer of a transformation of vertices.
pub open spec fn transformation<A: Fn(Transform, Vertex) -> Vertex>(apply: &A) -> spec_fn(
    Transform,
    Vertex,
) -> Vertex {
    |t: Transform, v: Vertex| choose|r: Vertex| apply.ensures((t, v), r)
}

/// A triangle of a mesh with its lowest vertex first, the order around the
/// triangle kept: the first vertex when it is below both others, else the
/// second when it is below both others, else the third.
pub open spec fn rotated(t: ThreeMFTriangle, vs: Seq<Vertex>, lt: spec_fn(Vertex, Vertex) -> bool) -> Seq<
    usize,
> {
    let (a, b, c) = (t.v1, t.v2, t.v3);
    if lt(vs[a as int], vs[b as int]) && lt(vs[a as int], vs[c as int]) {
        seq![a, b, c]
    } else if lt(vs[b as int], vs[c as int]) && lt(vs[b as int], vs[a as int]) {
        seq![b, c, a]
    } else {
        seq![c, a, b]
    }
}

/// Whether every triangle of a mesh names vertices it has.
pub open spec fn mesh_in_range(mesh: ThreeMFMesh) -> bool {
    forall|i: int|
        0 <= i < mesh.triangles@.len() ==> {
            let t = #[trigger] mesh.triangles@[i];
            t.v1 < mesh.vertices@.len() && t.v2 < mesh.vertices@.len() && t.v3 < mesh.vertices@.len()
        }
}

/// What a mesh gives: its vertices, and its triangles each turned to start at
/// its lowest vertex.
pub open spec fn mesh_result(mesh: ThreeMFMesh, lt: spec_fn(Vertex, Vertex) -> bool) -> MeshSpec {
    (
        mesh.vertices@,
        Seq::new(mesh.triangles@.len(), |i: int| rotated(mesh.triangles@[i], mesh.vertices@, lt)),
    )
}

fn handle_mesh<L: Fn(Vertex, Vertex) -> bool>(mesh: &ThreeMFMesh, less: &L) -> (r: (
    Vec<Vertex>,
    Vec<IndexedTriangle>,
))
    requires
        compares(less),
        mesh_in_range(*mesh),
    ensures
        (r.0@, triangle_indices(r.1@)) == mesh_result(*mesh, comparison(less)),
{
    let ghost lt = comparison(less);
    let mut vertices: Vec<Vertex> = Vec::new();
    let mut i: usize = 0;
    while i < mesh.vertices.len()
        invariant
            i <= mesh.vertices@.len(),
            vertices@ == mesh.vertices@.take(i as int),
        decreases mesh.vertices@.len() - i,
    {
        vertices.push(mesh.vertices[i]);
        assert(mesh.vertices@.take(i + 1) == mesh.vertices@.take(i as int).push(mesh.vertices@[i as int]));
        i = i + 1;
    }
    assert(mesh.vertices@.take(mesh.vertices@.len() as int) == mesh.vertices@);
    let mut triangles: Vec<IndexedTriangle> = Vec::new();
    let mut j: usize = 0;
    while j < mesh.triangles.len()
        invariant
            compares(less),
            lt == comparison(less),
            mesh_in_range(*mesh),
            vertices@ == mesh.vertices@,
            j <= mesh.triangles@.len(),
            triangles@.len() == j,
            forall|k: int|
                0 <= k < j ==> (#[trigger] triangles@[k]).verts@ == rotated(
                    mesh.triangles@[k],
                    mesh.vertices@,
                    lt,
                ),
        decreases mesh.triangles@.len() - j,
    {
        let t = mesh.triangles[j];
        assert(mesh.triangles@[j as int] == t);
        let v0 = vertices[t.v1];
        let v1 = vertices[t.v2];
        let v2 = vertices[t.v3];
        let l01 = less(v0, v1);
        let l02 = less(v0, v2);
        let l12 = less(v1, v2);
        let l10 = less(v1, v0);
        assert(l01 == lt(v0, v1) && l02 == lt(v0, v2) && l12 == lt(v1, v2) && l10 == lt(v1, v0));
        let tri = if l01 && l02 {
            IndexedTriangle { verts: [t.v1, t.v2, t.v3] }
        } else if l12 && l10 {
            IndexedTriangle { verts: [t.v2, t.v3, t.v1] }
        } else {
            IndexedTriangle { verts: [t.v3, t.v1, t.v2] }
        };
        assert(tri.verts@ == rotated(t, mesh.vertices@, lt));
        triangles.push(tri);
        j = j + 1;
    }
    assert(triangle_indices(triangles@) == mesh_result(*mesh, lt).1);
    (vertices, triangles)
}

/// The position of the first object with the given id.
pub open spec fn find_object(objects: Seq<ThreeMFObject>, id: usize) -> Option<int>
    decreases objects.len(),
{
    if objects.len() == 0 {
        None
    } else {
        match find_object(objects.drop_last(), id) {
            Some(p) => Some(p),
            None => if objects.last().id == id {
                Some(objects.len() - 1)
            } else {
                None
            },
        }
    }
}

/// The index triples of `ts`, each index moved up by `by`.
pub open spec fn offset_triangles(ts: Seq<Seq<usize>>, by: nat) -> Seq<Seq<usize>> {
    Seq::new(
        ts.len(),
        |i: int| Seq::new(ts[i].len(), |k: int| (ts[i][k] + by) as usize),
    )
}

/// The vertices, each transformed by `t` when there is a transform.
pub open spec fn placed(
    vs: Seq<Vertex>,
    t: Option<Transform>,
    ap: spec_fn(Transform, Vertex) -> Vertex,
) -> Seq<Vertex> {
    match t {
        Some(t) => Seq::new(vs.len(), |i: int| ap(t, vs[i])),
        None => vs,
    }
}

/// The transform an optional transform text gives: none without a text.
pub open spec fn optional_transform(text: Option<Vec<Option<u64>>>) -> Result<
    Option<Transform>,
    SlicerErrors,
> {
    match text {
        None => Ok(None),
        Some(values) => match transform_from_values(values@) {
            Ok(t) => Ok(Some(t)),
            Err(e) => Err(e),
        },
    }
}

/// The vertices and triangles of the object with id `id`, or the error that
/// loading it gives. `None` when loading it does not come to an end: when
/// `fuel` levels of nested components are not enough to reach the meshes it
/// needs, or a mesh it reaches has a triangle that names a vertex the mesh
/// does not have.
pub open spec fn object_result(
    objects: Seq<ThreeMFObject>,
    id: usize,
    fuel: nat,
    lt: spec_fn(Vertex, Vertex) -> bool,
    ap: spec_fn(Transform, Vertex) -> Vertex,
) -> Option<Result<MeshSpec, SlicerErrors>>
    decreases fuel, 0nat,
{
    if fuel == 0 {
        None
    } else {
        match find_object(objects, id) {
            None => Some(Err(SlicerErrors::ThreemfLoadError)),
            Some(p) => {
                let o = objects[p];
                match o.mesh {
                    Some(mesh) => if mesh_in_range(mesh) {
                        Some(Ok(mesh_result(mesh, lt)))
                    } else {
                        None
                    },
                    None => match o.components {
                        Some(comps) => components_result(objects, comps@, (fuel - 1) as nat, lt, ap),
                        None => Some(Err(SlicerErrors::ThreemfLoadError)),
                    },
                }
            },
        }
    }
}

/// The components of an object put together in order: the vertices of each,
/// transformed, after those of the ones before it, and its triangles moved up
/// by the number of vertices before it. The first error stops.
pub open spec fn components_result(
    objects: Seq<ThreeMFObject>,
    comps: Seq<ThreeMFComponent>,
    fuel: nat,
    lt: spec_fn(Vertex, Vertex) -> bool,
    ap: spec_fn(Transform, Vertex) -> Vertex,
) -> Option<Result<MeshSpec, SlicerErrors>>
    decreases fuel, comps.len(),
{
    if comps.len() == 0 {
        Some(Ok((Seq::empty(), Seq::empty())))
    } else {
        match components_result(objects, comps.drop_last(), fuel, lt, ap) {
            None => None,
            Some(Err(e)) => Some(Err(e)),
            Some(Ok((v, t))) => match object_result(objects, comps.last().objectid, fuel, lt, ap) {
                None => None,
                Some(Err(e)) => Some(Err(e)),
                Some(Ok((cv, ct))) => match optional_transform(comps.last().transform) {
                    Err(e) => Some(Err(e)),
                    Ok(tr) => Some(Ok((v + placed(cv, tr, ap), t + offset_triangles(ct, v.len())))),
                },
            },
        }
    }
}

/// Whether every index triple names vertices of the list.
pub open spec fn indices_below(ts: Seq<Seq<usize>>, n: nat) -> bool {
    forall|i: int, k: int| 0 <= i < ts.len() && 0 <= k < ts[i].len() ==> #[trigger] ts[i][k] < n
}

proof fn lemma_find_object(objects: Seq<ThreeMFObject>, id: usize)
    ensures
        find_object(objects, id) matches Some(p) ==> 0 <= p < objects.len() && objects[p].id == id,
    decreases objects.len(),
{
    if objects.len() > 0 {
        lemma_find_object(objects.drop_last(), id);
    }
}

proof fn lemma_mesh_indices(mesh: ThreeMFMesh, lt: spec_fn(Vertex, Vertex) -> bool)
    requires
        mesh_in_range(mesh),
    ensures
        indices_below(mesh_result(mesh, lt).1, mesh.vertices@.len()),
        forall|i: int| 0 <= i < mesh_result(mesh, lt).1.len() ==> (#[trigger] mesh_result(mesh, lt).1[i]).len() == 3,
{
    let ts = mesh_result(mesh, lt).1;
    assert forall|i: int, k: int| 0 <= i < ts.len() && 0 <= k < ts[i].len() implies #[trigger] ts[i][k]
        < mesh.vertices@.len() by {
        assert(ts[i] == rotated(mesh.triangles@[i], mesh.vertices@, lt));
    }
}

/// Every triangle that loading an object gives has three indices, each of a
/// vertex that it gives.
proof fn lemma_object_indices(
    objects: Seq<ThreeMFObject>,
    id: usize,
    fuel: nat,
    lt: spec_fn(Vertex, Vertex) -> bool,
    ap: spec_fn(Transform, Vertex) -> Vertex,
)
    ensures
        object_result(objects, id, fuel, lt, ap) matches Some(Ok((v, t))) ==> indices_below(t, v.len())
            && forall|i: int| 0 <= i < t.len() ==> (#[trigger] t[i]).len() == 3,
    decreases fuel, 0nat,
{
    if fuel > 0 {
        lemma_find_object(objects, id);
        match find_object(objects, id) {
            None => {},
            Some(p) => {
                let o = objects[p];
                match o.mesh {
                    Some(mesh) => {
                        if mesh_in_range(mesh) {
                            lemma_mesh_indices(mesh, lt);
                        }
                    },
                    None => match o.components {
                        Some(comps) => {
                            lemma_components_indices(objects, comps@, (fuel - 1) as nat, lt, ap);
                        },
                        None => {},
                    },
                }
            },
        }
    }
}

proof fn lemma_components_indices(
    objects: Seq<ThreeMFObject>,
    comps: Seq<ThreeMFComponent>,
    fuel: nat,
    lt: spec_fn(Vertex, Vertex) -> bool,
    ap: spec_fn(Transform, Vertex) -> Vertex,
)
    ensures
        components_result(objects, comps, fuel, lt, ap) matches Some(Ok((v, t))) ==> indices_below(
            t,
            v.len(),
        ) && forall|i: int| 0 <= i < t.len() ==> (#[trigger] t[i]).len() == 3,
    decreases fuel, comps.len(),
{
    if comps.len() > 0 {
        lemma_components_indices(objects, comps.drop_last(), fuel, lt, ap);
        lemma_object_indices(objects, comps.last().objectid, fuel, lt, ap);
        match components_result(objects, comps.drop_last(), fuel, lt, ap) {
            Some(Ok((v, t))) => match object_result(objects, comps.last().objectid, fuel, lt, ap) {
                Some(Ok((cv, ct))) => match optional_transform(comps.last().transform) {
                    Ok(tr) => {
                        let nv = v + placed(cv, tr, ap);
                        let moved = offset_triangles(ct, v.len());
                        let nt = t + moved;
                        assert(placed(cv, tr, ap).len() == cv.len());
                        assert forall|i: int, k: int| 0 <= i < nt.len() && 0 <= k < nt[i].len() implies #[trigger] nt[i][k]
                            < nv.len() by {
                            if i >= t.len() {
                                let j = i - t.len();
                                assert(nt[i] == moved[j]);
                                assert(ct[j][k] < cv.len());
                                assert(moved[j][k] == (ct[j][k] + v.len()) as usize);
                            } else {
                                assert(nt[i] == t[i]);
                            }
                        }
                        assert forall|i: int| 0 <= i < nt.len() implies (#[trigger] nt[i]).len() == 3 by {
                            if i >= t.len() {
                                assert(nt[i] == moved[i - t.len()]);
                            } else {
                                assert(nt[i] == t[i]);
                            }
                        }
                    },
                    Err(_) => {},
                },
                _ => {},
            },
            _ => {},
        }
    }
}

fn find_object_exec(objects: &Vec<ThreeMFObject>, id: usize) -> (r: Option<usize>)
    ensures
        match find_object(objects@, id) {
            Some(p) => r == Some(p as usize),
            None => r is None,
        },
{
    let mut i: usize = 0;
    while i < objects.len()
        invariant
            i <= objects@.len(),
            find_object(objects@.take(i as int), id) is None,
        decreases objects@.len() - i,
    {
        assert(objects@.take(i + 1).drop_last() == objects@.take(i as int));
        if objects[i].id == id {
            proof {
                lemma_find_prefix(objects@, i as int + 1, id);
            }
            return Some(i);
        }
        i = i + 1;
    }
    assert(objects@.take(objects@.len() as int) == objects@);
    None
}

proof fn lemma_find_prefix(objects: Seq<ThreeMFObject>, n: int, id: usize)
    requires
        0 < n <= objects.len(),
        find_object(objects.take(n), id) is Some,
    ensures
        find_object(objects, id) == find_object(objects.take(n), id),
    decreases objects.len() - n,
{
    if n < objects.len() {
        assert(objects.take(n + 1).drop_last() == objects.take(n));
        lemma_find_prefix(objects, n + 1, id);
    } else {
        assert(objects.take(n) == objects);
    }
}

fn transform_vertices<A: Fn(Transform, Vertex) -> Vertex>(
    vs: &mut Vec<Vertex>,
    t: Transform,
    apply: &A,
)
    requires
        transforms(apply),
    ensures
        final(vs)@ == placed(old(vs)@, Some(t), transformation(apply)),
{
    let ghost orig = vs@;
    let mut i: usize = 0;
    while i < vs.len()
        invariant
            transforms(apply),
            i <= vs@.len(),
            vs@.len() == orig.len(),
            forall|k: int| 0 <= k < i ==> vs@[k] == transformation(apply)(t, orig[k]),
            forall|k: int| i <= k < vs@.len() ==> vs@[k] == orig[k],
        decreases vs@.len() - i,
    {
        let v = apply(t, vs[i]);
        vs.set(i, v);
        i = i + 1;
    }
    assert(vs@ == placed(orig, Some(t), transformation(apply)));
}

/// What loading an object gave, the triangles by their index triples.
pub open spec fn loaded_view(r: Option<Result<(Vec<Vertex>, Vec<IndexedTriangle>), SlicerErrors>>) -> Option<
    Result<MeshSpec, SlicerErrors>,
> {
    match r {
        None => None,
        Some(Ok((v, t))) => Some(Ok((v@, triangle_indices(t@)))),
        Some(Err(e)) => Some(Err(e)),
    }
}

fn mesh_in_range_check(mesh: &ThreeMFMesh) -> (b: bool)
    ensures
        b == mesh_in_range(*mesh),
{
    let n = mesh.vertices.len();
    let mut i: usize = 0;
    while i < mesh.triangles.len()
        invariant
            n == mesh.vertices@.len(),
            i <= mesh.triangles@.len(),
            forall|k: int|
                0 <= k < i ==> {
                    let t = #[trigger] mesh.triangles@[k];
                    t.v1 < n && t.v2 < n && t.v3 < n
                },
        decreases mesh.triangles@.len() - i,
    {
        let t = mesh.triangles[i];
        if !(t.v1 < n && t.v2 < n && t.v3 < n) {
            assert(!mesh_in_range(*mesh));
            return false;
        }
        i = i + 1;
    }
    true
}

fn handle_object<L: Fn(Vertex, Vertex) -> bool, A: Fn(Transform, Vertex) -> Vertex>(
    obj_index: usize,
    objects: &Vec<ThreeMFObject>,
    less: &L,
    apply: &A,
    remaining: usize,
) -> (r: Option<Result<(Vec<Vertex>, Vec<IndexedTriangle>), SlicerErrors>>)
    requires
        compares(less),
        transforms(apply),
    ensures
        loaded_view(r) == object_result(
            objects@,
            obj_index,
            (remaining + 1) as nat,
            comparison(less),
            transformation(apply),
        ),
    decreases remaining,
{
    let ghost fuel = (remaining + 1) as nat;
    let ghost lt = comparison(less);
    let ghost ap = transformation(apply);
    let found = find_object_exec(objects, obj_index);
    let p = match found {
        Some(p) => p,
        None => {
            return Some(Err(SlicerErrors::ThreemfLoadError));
        },
    };
    proof {
        lemma_find_object(objects@, obj_index);
    }
    let object = &objects[p];
    assert(fuel > 0);
    assert(find_object(objects@, obj_index) is Some);
    let ghost q = find_object(objects@, obj_index)->Some_0;
    assert(found == Some(q as usize));
    let n_objects = objects.len();
    assert(0 <= q < n_objects);
    assert(q == p as int);
    assert(find_object(objects@, obj_index) == Some(p as int));
    assert(objects@[p as int] == *object);
    if let Some(mesh) = &object.mesh {
        if !mesh_in_range_check(mesh) {
            return None;
        }
        let r = handle_mesh(mesh, less);
        assert(object_result(objects@, obj_index, fuel, lt, ap) == Some(
            Ok::<MeshSpec, SlicerErrors>(mesh_result(*mesh, lt)),
        ));
        return Some(Ok(r));
    }
    let components = match &object.components {
        Some(c) => c,
        None => {
            assert(object_result(objects@, obj_index, fuel, lt, ap) == Some(
                Err::<MeshSpec, SlicerErrors>(SlicerErrors::ThreemfLoadError),
            ));
            return Some(Err(SlicerErrors::ThreemfLoadError));
        },
    };
    let ghost inner = (fuel - 1) as nat;
    let ghost comps = components@;
    let mut v: Vec<Vertex> = Vec::new();
    let mut t: Vec<IndexedTriangle> = Vec::new();
    let mut k: usize = 0;
    assert(components_result(objects@, comps.take(0), inner, lt, ap) == Some(
        Ok::<MeshSpec, SlicerErrors>((Seq::<Vertex>::empty(), Seq::<Seq<usize>>::empty())),
    ));
    assert(triangle_indices(t@) == Seq::<Seq<usize>>::empty());
    while k < components.len()
        invariant
            compares(less),
            transforms(apply),
            lt == comparison(less),
            ap == transformation(apply),
            fuel > 0,
            inner == fuel - 1,
            comps == components@,
            k <= comps.len(),
            fuel == remaining + 1,
            object_result(objects@, obj_index, fuel, lt, ap) == components_result(objects@, comps, inner, lt, ap),
            components_result(objects@, comps.take(k as int), inner, lt, ap) == Some(
                Ok::<MeshSpec, SlicerErrors>((v@, triangle_indices(t@))),
            ),
        decreases comps.len() - k,
    {
        let component = &components[k];
        let ghost pre = comps.take(k as int);
        let ghost next = comps.take(k + 1);
        assert(next.drop_last() == pre);
        assert(next.last() == *component);
        proof {
            lemma_components_prefix(objects@, comps, k as int + 1, inner, lt, ap);
            lemma_components_indices(objects@, pre, inner, lt, ap);
        }
        if remaining == 0 {
            assert(object_result(objects@, component.objectid, 0, lt, ap) is None);
            return None;
        }
        let (mut verts, triangles) = match handle_object(
            component.objectid,
            objects,
            less,
            apply,
            remaining - 1,
        ) {
            Some(Ok(r)) => r,
            Some(Err(e)) => {
                return Some(Err(e));
            },
            None => {
                return None;
            },
        };
        proof {
            lemma_object_indices(objects@, component.objectid, inner, lt, ap);
        }
        let tr = match &component.transform {
            Some(values) => match get_transform_from_values(values) {
                Ok(tr) => Some(tr),
                Err(e) => {
                    return Some(Err(e));
                },
            },
            None => None,
        };
        assert(optional_transform(component.transform) == Ok::<Option<Transform>, SlicerErrors>(tr));
        if let Some(tr) = tr {
            transform_vertices(&mut verts, tr, apply);
        }
        let start = v.len();
        let ghost ct = triangle_indices(triangles@);
        let ghost old_t = triangle_indices(t@);
        v.append(&mut verts);
        let total = v.len();
        let mut j: usize = 0;
        while j < triangles.len()
            invariant
                j <= triangles@.len(),
                ct == triangle_indices(triangles@),
                start <= total,
                total == v@.len(),
                indices_below(ct, (total - start) as nat),
                forall|i: int| 0 <= i < ct.len() ==> (#[trigger] ct[i]).len() == 3,
                t@.len() == old_t.len() + j,
                triangle_indices(t@) == old_t + offset_triangles(ct, start as nat).take(j as int),
            decreases triangles@.len() - j,
        {
            let tri = triangles[j];
            assert(ct[j as int] == tri.verts@);
            assert(tri.verts@[0] < v@.len() - start && tri.verts@[1] < v@.len() - start && tri.verts@[2]
                < v@.len() - start);
            let moved = IndexedTriangle {
                verts: [tri.verts[0] + start, tri.verts[1] + start, tri.verts[2] + start],
            };
            let ghost before = t@;
            t.push(moved);
            assert(triangle_indices(t@) == triangle_indices(before).push(moved.verts@));
            assert(moved.verts@ == offset_triangles(ct, start as nat)[j as int]);
            assert(offset_triangles(ct, start as nat).take(j + 1) == offset_triangles(
                ct,
                start as nat,
            ).take(j as int).push(moved.verts@));
            j = j + 1;
        }
        assert(offset_triangles(ct, start as nat).take(triangles@.len() as int) == offset_triangles(
            ct,
            start as nat,
        ));
        k = k + 1;
    }
    assert(comps.take(comps.len() as int) == comps);
    Some(Ok((v, t)))
}

proof fn lemma_components_prefix(
    objects: Seq<ThreeMFObject>,
    comps: Seq<ThreeMFComponent>,
    n: int,
    fuel: nat,
    lt: spec_fn(Vertex, Vertex) -> bool,
    ap: spec_fn(Transform, Vertex) -> Vertex,
)
    requires
        0 <= n <= comps.len(),
    ensures
        components_result(objects, comps.take(n), fuel, lt, ap) is None ==> components_result(
            objects,
            comps,
            fuel,
            lt,
            ap,
        ) is None,
        components_result(objects, comps.take(n), fuel, lt, ap) matches Some(Err(e))
            ==> components_result(objects, comps, fuel, lt, ap) == Some(Err::<MeshSpec, SlicerErrors>(e)),
    decreases comps.len() - n,
{
    if n < comps.len() {
        lemma_components_prefix(objects, comps, n + 1, fuel, lt, ap);
        assert(comps.take(n + 1).drop_last() == comps.take(n));
    } else {
        assert(comps.take(n) == comps);
    }
}

/// What loading the items of the build gives, in order: for each, the
/// vertices of its object, transformed by the item's transform, and the
/// object's triangles. The first error stops. `None` when loading does not
/// come to an end (see `object_result`).
pub open spec fn items_result(
    objects: Seq<ThreeMFObject>,
    items: Seq<ThreeMFItem>,
    fuel: nat,
    lt: spec_fn(Vertex, Vertex) -> bool,
    ap: spec_fn(Transform, Vertex) -> Vertex,
) -> Option<Result<Seq<MeshSpec>, SlicerErrors>>
    decreases items.len(),
{
    if items.len() == 0 {
        Some(Ok(Seq::empty()))
    } else {
        match items_result(objects, items.drop_last(), fuel, lt, ap) {
            None => None,
            Some(Err(e)) => Some(Err(e)),
            Some(Ok(ms)) => match object_result(objects, items.last().objectid, fuel, lt, ap) {
                None => None,
                Some(Err(e)) => Some(Err(e)),
                Some(Ok((v, t))) => match optional_transform(items.last().transform) {
                    Err(e) => Some(Err(e)),
                    Ok(tr) => Some(Ok(ms.push((placed(v, tr, ap), t)))),
                },
            },
        }
    }
}

/// Levels of nested components enough for any model whose loading comes to
/// an end: a chain of components that comes back to an object never ends.
pub open spec fn model_fuel(model: ThreeMFModel) -> nat {
    model.objects@.len() + 1
}

/// What loading the items gave, the triangles by their index triples.
pub open spec fn items_view(
    r: Option<Result<Vec<(Vec<Vertex>, Vec<IndexedTriangle>)>, SlicerErrors>>,
) -> Option<Result<Seq<MeshSpec>, SlicerErrors>> {
    match r {
        None => None,
        Some(Ok(ms)) => Some(Ok(meshes_view(ms@))),
        Some(Err(e)) => Some(Err(e)),
    }
}

/// What a list of loaded models holds, the triangles by their index triples.
pub open spec fn meshes_view(ms: Seq<(Vec<Vertex>, Vec<IndexedTriangle>)>) -> Seq<MeshSpec> {
    Seq::new(ms.len(), |i: int| (ms[i].0@, triangle_indices(ms[i].1@)))
}

proof fn lemma_items_prefix(
    objects: Seq<ThreeMFObject>,
    items: Seq<ThreeMFItem>,
    n: int,
    fuel: nat,
    lt: spec_fn(Vertex, Vertex) -> bool,
    ap: spec_fn(Transform, Vertex) -> Vertex,
)
    requires
        0 <= n <= items.len(),
    ensures
        items_result(objects, items.take(n), fuel, lt, ap) is None ==> items_result(
            objects,
            items,
            fuel,
            lt,
            ap,
        ) is None,
        items_result(objects, items.take(n), fuel, lt, ap) matches Some(Err(e))
            ==> items_result(objects, items, fuel, lt, ap) == Some(Err::<Seq<MeshSpec>, SlicerErrors>(e)),
    decreases items.len() - n,
{
    if n < items.len() {
        lemma_items_prefix(objects, items, n + 1, fuel, lt, ap);
        assert(items.take(n + 1).drop_last() == items.take(n));
    } else {
        assert(items.take(n) == items);
    }
}

/// Loader for 3MF files.
pub struct ThreeMFLoader {}

impl ThreeMFLoader {
    /// Loads the items of the build of a 3MF model: for each, the vertices
    /// and triangles of its object (the components of an object put together,
    /// each transformed by its transform), transformed by the item's
    /// transform. `less` compares two vertices by height, then y, then x;
    /// `apply` multiplies a vertex by a transform. Loading must come to an
    /// end: no chain of components comes back to an object, and no triangle
    /// of a mesh that is reached names a vertex the mesh does not have.
    pub fn load<L: Fn(Vertex, Vertex) -> bool, A: Fn(Transform, Vertex) -> Vertex>(
        &self,
        model: &ThreeMFModel,
        less: &L,
        apply: &A,
    ) -> (r: Result<Vec<(Vec<Vertex>, Vec<IndexedTriangle>)>, SlicerErrors>)
        requires
            compares(less),
            transforms(apply),
            items_result(
                model.objects@,
                model.items@,
                model_fuel(*model),
                comparison(less),
                transformation(apply),
            ) is Some,
        ensures
            match r {
                Ok(ms) => items_result(
                    model.objects@,
                    model.items@,
                    model_fuel(*model),
                    comparison(less),
                    transformation(apply),
                ) == Some(Ok::<Seq<MeshSpec>, SlicerErrors>(meshes_view(ms@))),
                Err(e) => items_result(
                    model.objects@,
                    model.items@,
                    model_fuel(*model),
                    comparison(less),
                    transformation(apply),
                ) == Some(Err::<Seq<MeshSpec>, SlicerErrors>(e)),
            },
    {
        match self.try_load(model, less, apply) {
            Some(r) => r,
            None => {
                assert(false);
                Err(SlicerErrors::ThreemfLoadError)
            },
        }
    }

    /// Loads the items as `load` does, or gives `None` when loading would not
    /// come to an end: a chain of components comes back to an object, or a
    /// triangle of a mesh that is reached names a vertex the mesh does not have.
    pub fn try_load<L: Fn(Vertex, Vertex) -> bool, A: Fn(Transform, Vertex) -> Vertex>(
        &self,
        model: &ThreeMFModel,
        less: &L,
        apply: &A,
    ) -> (r: Option<Result<Vec<(Vec<Vertex>, Vec<IndexedTriangle>)>, SlicerErrors>>)
        requires
            compares(less),
            transforms(apply),
        ensures
            items_view(r) == items_result(
                model.objects@,
                model.items@,
                model_fuel(*model),
                comparison(less),
                transformation(apply),
            ),
    {
        let ghost lt = comparison(less);
        let ghost ap = transformation(apply);
        let ghost fuel = model_fuel(*model);
        let ghost items = model.items@;
        let mut out: Vec<(Vec<Vertex>, Vec<IndexedTriangle>)> = Vec::new();
        let mut k: usize = 0;
        assert(meshes_view(out@) == Seq::<MeshSpec>::empty());
        while k < model.items.len()
            invariant
                compares(less),
                transforms(apply),
                lt == comparison(less),
                ap == transformation(apply),
                items == model.items@,
                fuel == model_fuel(*model),
                k <= items.len(),
                items_result(model.objects@, items.take(k as int), fuel, lt, ap) == Some(
                    Ok::<Seq<MeshSpec>, SlicerErrors>(meshes_view(out@)),
                ),
            decreases items.len() - k,
        {
            let item = &model.items[k];
            let ghost next = items.take(k + 1);
            assert(next.drop_last() == items.take(k as int));
            assert(next.last() == *item);
            proof {
                lemma_items_prefix(model.objects@, items, k as int + 1, fuel, lt, ap);
            }
            let (mut v, t) = match handle_object(item.objectid, &model.objects, less, apply, model.objects.len()) {
                Some(Ok(r)) => r,
                Some(Err(e)) => {
                    return Some(Err(e));
                },
                None => {
                    return None;
                },
            };
            let tr = match &item.transform {
                Some(values) => match get_transform_from_values(values) {
                    Ok(tr) => Some(tr),
                    Err(e) => {
                        return Some(Err(e));
                    },
                },
                None => None,
            };
            assert(optional_transform(item.transform) == Ok::<Option<Transform>, SlicerErrors>(tr));
            if let Some(tr) = tr {
                transform_vertices(&mut v, tr, apply);
            }
            let ghost before = out@;
            out.push((v, t));
            assert(meshes_view(out@) == meshes_view(before).push((v@, triangle_indices(t@))));
            k = k + 1;
        }
        assert(items.take(items.len() as int) == items);
        Some(Ok(out))
    }
}

/// Whether `zip::ZipArchive::new` reads the bytes as a zip archive.
pub uninterp spec fn zip_opens(archive: Seq<u8>) -> bool;

/// What the zip archive in `archive` holds under the (UTF-8) name `name`,
/// found with `ZipArchive::by_name` and read out to the end; `None` when there
/// is no such entry or it cannot be read out.
pub uninterp spec fn zip_entry(archive: Seq<u8>, name: Seq<u8>) -> Option<Seq<u8>>;

/// Reads an entry of a zip archive with `zip::ZipArchive::new`,
/// `ZipArchive::by_name` and `Read::read_to_end`. When the bytes are no
/// archive the error is `ThreemfUnsupportedType`; when the entry is missing or
/// cannot be read out it is `ThreemfLoadError`.
#[verifier::external_body]
fn zip_entry_bytes(archive: &[u8], name: &str) -> (r: Result<Vec<u8>, SlicerErrors>)
    ensures
        match r {
            Ok(b) => zip_opens(archive@) && zip_entry(archive@, name.spec_bytes()) == Some(b@),
            Err(e) => if zip_opens(archive@) {
                zip_entry(archive@, name.spec_bytes()) is None && e == SlicerErrors::ThreemfLoadError
            } else {
                e == SlicerErrors::ThreemfUnsupportedType
            },
        },
{
    let cursor = std::io::Cursor::new(archive);
    let mut zip = zip::ZipArchive::new(cursor).map_err(|_| SlicerErrors::ThreemfUnsupportedType)?;
    let mut entry = zip.by_name(name).map_err(|_| SlicerErrors::ThreemfLoadError)?;
    let mut bytes: Vec<u8> = Vec::new();
    std::io::Read::read_to_end(&mut entry, &mut bytes).map_err(|_| SlicerErrors::ThreemfLoadError)?;
    Ok(bytes)
}

/// What reading entry `name` of a 3MF archive gives: its bytes, or the error
/// for an archive that does not open or an entry that cannot be read.
pub open spec fn archive_part(archive: Seq<u8>, name: Seq<u8>) -> Result<Seq<u8>, SlicerErrors> {
    if !zip_opens(archive) {
        Err(SlicerErrors::ThreemfUnsupportedType)
    } else {
        match zip_entry(archive, name) {
            Some(b) => Ok(b),
            None => Err(SlicerErrors::ThreemfLoadError),
        }
    }
}

/// The bytes of a part of an archive as a plain sequence.
pub open spec fn part_view(r: Result<Vec<u8>, SlicerErrors>) -> Result<Seq<u8>, SlicerErrors> {
    match r {
        Ok(b) => Ok(b@),
        Err(e) => Err(e),
    }
}

impl ThreeMFLoader {
    /// The relationships part (`_rels/.rels`) of the bytes of a 3MF archive,
    /// which names the part that holds the model.
    pub fn relationships_part(archive: &[u8]) -> (r: Result<Vec<u8>, SlicerErrors>)
        ensures
            part_view(r) == archive_part(archive@, "_rels/.rels".spec_bytes()),
    {
        zip_entry_bytes(archive, "_rels/.rels")
    }

    /// The model part of the bytes of a 3MF archive, named by the target that
    /// the relationships part gives; the target starts with `/`, which the
    /// name in the archive goes without (its first byte is dropped, which
    /// must leave whole characters).
    pub fn model_part(archive: &[u8], target: &str) -> (r: Result<Vec<u8>, SlicerErrors>)
        requires
            vstd::utf8::is_char_boundary(target.spec_bytes(), 1),
        ensures
            part_view(r) == archive_part(
                archive@,
                target.spec_bytes().subrange(1, target.spec_bytes().len() as int),
            ),
    {
        let (_, name) = target.split_at(1);
        zip_entry_bytes(archive, name)
    }
}

/// The triangles that `nom_stl::parse_stl` reads from the bytes of an STL
/// file (binary or ASCII), in order: for each, its three vertices, each
/// coordinate by the bit pattern of its `f32`; `None` when the bytes are no
/// STL file.
pub uninterp spec fn stl_triangles(bytes: Seq<u8>) -> Option<Seq<Seq<Seq<u32>>>>;

/// The distinct entries of a list, in the order they first appear.
pub open spec fn first_seen(s: Seq<Seq<u32>>) -> Seq<Seq<u32>>
    decreases s.len(),
{
    if s.len() == 0 {
        s
    } else {
        let d = first_seen(s.drop_last());
        if d.contains(s.last()) {
            d
        } else {
            d.push(s.last())
        }
    }
}

/// A list of triangles as an indexed mesh: the distinct vertices in the order
/// they first appear, and for each triangle the positions of its vertices
/// there (what nom_stl's `IndexMesh::from` builds, comparing vertices by the
/// bit patterns of their coordinates).
pub open spec fn indexed_mesh(ts: Seq<Seq<Seq<u32>>>) -> (Seq<Seq<u32>>, Seq<Seq<usize>>) {
    let vs = first_seen(ts.flatten());
    (vs, Seq::new(ts.len(), |i: int| Seq::new(3, |k: int| vs.index_of(ts[i][k]) as usize)))
}

/// Whether every triangle has three vertices of three coordinates each.
pub open spec fn well_shaped(ts: Seq<Seq<Seq<u32>>>) -> bool {
    forall|i: int|
        0 <= i < ts.len() ==> #[trigger] ts[i].len() == 3 && forall|k: int|
            0 <= k < 3 ==> #[trigger] ts[i][k].len() == 3
}

/// Parses an STL file with `nom_stl::parse_stl`, whose triangles are named
/// by `stl_triangles`, and indexes them with `IndexMesh::from`, which keeps
/// each distinct vertex once, in the order of first appearance, and points
/// each triangle at its vertices there. An error of the parser becomes
/// `StlLoadError`. (The parser also reads the environment
/// variable `NOM_IDENTIFIER_SEARCH_BYTES_LENGTH`, which only sets the length
/// of a run of zero bytes put in front of the text it searches for
/// `facet normal`, so the result does not depend on it.)
#[verifier::external_body]
fn parse_stl_bytes(bytes: &[u8]) -> (r: Result<(Vec<[u32; 3]>, Vec<[usize; 3]>), SlicerErrors>)
    ensures
        match r {
            Ok(m) => stl_triangles(bytes@) matches Some(ts) && well_shaped(ts) && (
                m.0@.map_values(|v: [u32; 3]| v@),
                m.1@.map_values(|t: [usize; 3]| t@),
            ) == indexed_mesh(ts),
            Err(e) => stl_triangles(bytes@) is None && e == SlicerErrors::StlLoadError,
        },
{
    match nom_stl::parse_stl(&mut std::io::Cursor::new(bytes)) {
        Ok(mesh) => {
            let mesh: nom_stl::IndexMesh = mesh.into();
            let vs = mesh.vertices().iter().map(|v| [v[0].to_bits(), v[1].to_bits(), v[2].to_bits()]);
            let ts = mesh.triangles().iter().map(|t| t.vertices_indices());
            Ok((vs.collect(), ts.collect()))
        },
        Err(_) => Err(SlicerErrors::StlLoadError),
    }
}

/// Two to the power `k`.
pub open spec fn two_to(k: nat) -> nat
    decreases k,
{
    if k == 0 {
        1
    } else {
        2 * two_to((k - 1) as nat)
    }
}

/// A mantissa of a subnormal `f32` shifted left until its leading bit is the
/// implicit bit of a normal one, and the number of shifts.
pub open spec fn lift(m: nat, k: nat) -> (nat, nat)
    decreases 23 - k,
{
    if m >= 0x80_0000 || k >= 23 {
        (m, k)
    } else {
        lift(2 * m, k + 1)
    }
}

/// The bit pattern of the `f64` that an `f32` becomes (`f64::from`), from the
/// `f32`'s bit pattern: the sign is kept, a normal number gets its exponent
/// rebased and its mantissa widened, a subnormal one is normalized, and a
/// NaN comes out quiet with its payload kept.
pub open spec fn widened(b: u32) -> u64 {
    let sign = (b / 0x8000_0000) * 0x8000_0000_0000_0000;
    let exp = (b / 0x80_0000) % 0x100;
    let mant = b % 0x80_0000;
    if exp == 0 && mant == 0 {
        sign as u64
    } else if exp == 0 {
        let (m2, k) = lift(mant as nat, 0);
        (sign + (897 - k) * 0x10_0000_0000_0000 + (m2 - 0x80_0000) * 0x2000_0000) as u64
    } else if exp == 0xFF {
        let quiet = if mant == 0 || mant >= 0x40_0000 {
            mant as int
        } else {
            mant + 0x40_0000
        };
        (sign + 0x7FF * 0x10_0000_0000_0000 + quiet * 0x2000_0000) as u64
    } else {
        (sign + (exp + 896) * 0x10_0000_0000_0000 + mant * 0x2000_0000) as u64
    }
}

/// Widens the bit pattern of an `f32` into that of the same `f64`.
pub fn widen_f32_bits(b: u32) -> (r: u64)
    ensures
        r == widened(b),
{
    let sign: u64 = if b >= 0x8000_0000 {
        0x8000_0000_0000_0000
    } else {
        0
    };
    let exp: u64 = ((b / 0x80_0000) % 0x100) as u64;
    let mant: u64 = (b % 0x80_0000) as u64;
    assert(b / 0x8000_0000 == if b >= 0x8000_0000 { 1int } else { 0int });
    if exp == 0 && mant == 0 {
        sign
    } else if exp == 0 {
        let mut m: u64 = mant;
        let mut k: u64 = 0;
        assert(two_to(0) == 1);
        while m < 0x80_0000 && k < 23
            invariant
                lift(m as nat, k as nat) == lift(mant as nat, 0),
                two_to(k as nat) <= m < 0x100_0000,
                k <= 23,
            decreases 23 - k,
        {
            m = 2 * m;
            k = k + 1;
        }
        proof {
            if m < 0x80_0000 {
                assert(k == 23);
                reveal_with_fuel(two_to, 24);
                assert(two_to(23) == 0x80_0000);
            }
        }
        sign + (897 - k) * 0x10_0000_0000_0000 + (m - 0x80_0000) * 0x2000_0000
    } else if exp == 0xFF {
        let quiet = if mant == 0 || mant >= 0x40_0000 {
            mant
        } else {
            mant + 0x40_0000
        };
        sign + 0x7FF * 0x10_0000_0000_0000 + quiet * 0x2000_0000
    } else {
        sign + (exp + 896) * 0x10_0000_0000_0000 + mant * 0x2000_0000
    }
}

/// A vertex from the bit patterns of its three `f32` coordinates.
pub open spec fn widened_vertex(v: Seq<u32>) -> Vertex {
    Vertex { x: widened(v[0]), y: widened(v[1]), z: widened(v[2]) }
}

/// The single model of an STL mesh: its vertices widened to `f64`, and its
/// triangles, both in order.
pub open spec fn stl_model(mesh: (Seq<Seq<u32>>, Seq<Seq<usize>>)) -> (Seq<Vertex>, Seq<Seq<usize>>) {
    (mesh.0.map_values(|v: Seq<u32>| widened_vertex(v)), mesh.1)
}

/// Loader for STL files.
pub struct STLLoader;

impl STLLoader {
    /// Builds the model of an STL mesh from the bit patterns of its `f32`
    /// vertices and the indices of the vertices of each triangle: a single
    /// model with these vertices, widened to `f64`, and triangles, in order.
    pub fn from_mesh(&self, vertices: &Vec<[u32; 3]>, triangles: &Vec<[usize; 3]>) -> (r: Vec<
        (Vec<Vertex>, Vec<IndexedTriangle>),
    >)
        ensures
            r@.len() == 1,
            (r@[0].0@, triangle_indices(r@[0].1@)) == stl_model(
                (vertices@.map_values(|v: [u32; 3]| v@), triangles@.map_values(|t: [usize; 3]| t@)),
            ),
    {
        let ghost mv = vertices@.map_values(|v: [u32; 3]| v@);
        let mut vs: Vec<Vertex> = Vec::new();
        let mut i: usize = 0;
        while i < vertices.len()
            invariant
                i <= vertices@.len(),
                mv == vertices@.map_values(|v: [u32; 3]| v@),
                vs@ == mv.take(i as int).map_values(|v: Seq<u32>| widened_vertex(v)),
            decreases vertices@.len() - i,
        {
            let v = vertices[i];
            assert(mv[i as int] == v@);
            vs.push(Vertex { x: widen_f32_bits(v[0]), y: widen_f32_bits(v[1]), z: widen_f32_bits(v[2]) });
            assert(mv.take(i + 1) == mv.take(i as int).push(mv[i as int]));
            i = i + 1;
        }
        assert(mv.take(mv.len() as int) == mv);
        let mut tris: Vec<IndexedTriangle> = Vec::new();
        let mut j: usize = 0;
        while j < triangles.len()
            invariant
                j <= triangles@.len(),
                tris@.len() == j,
                forall|k: int| 0 <= k < j ==> (#[trigger] tris@[k]).verts@ == triangles@[k]@,
            decreases triangles@.len() - j,
        {
            let t = triangles[j];
            tris.push(IndexedTriangle { verts: [t[0], t[1], t[2]] });
            assert(tris@[j as int].verts@ == t@);
            j = j + 1;
        }
        assert(triangle_indices(tris@) == triangles@.map_values(|t: [usize; 3]| t@));
        let mut r: Vec<(Vec<Vertex>, Vec<IndexedTriangle>)> = Vec::new();
        r.push((vs, tris));
        r
    }

    /// Loads the bytes of an STL file: the triangles that nom_stl reads from
    /// them, as an indexed mesh (each distinct vertex once), as a single
    /// model, or `StlLoadError` when they are no STL file.
    pub fn load(&self, bytes: &[u8]) -> (r: Result<Vec<(Vec<Vertex>, Vec<IndexedTriangle>)>, SlicerErrors>)
        ensures
            match r {
                Ok(ms) => stl_triangles(bytes@) matches Some(ts) && ms@.len() == 1 && (
                ms@[0].0@,
                triangle_indices(ms@[0].1@),
                ) == stl_model(indexed_mesh(ts)),
                Err(e) => stl_triangles(bytes@) is None && e == SlicerErrors::StlLoadError,
            },
    {
        let (vertices, triangles) = parse_stl_bytes(bytes)?;
        Ok(self.from_mesh(&vertices, &triangles))
    }
}

} // verus!
