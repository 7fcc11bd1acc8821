use lithophane_creator::mesh::{
    gather_surface_points, gather_triangle_points, lithophane_mesh_plan, preview_mesh_plan,
    TriangleRefs, VertexRef,
};

fn backing(index: usize) -> VertexRef {
    VertexRef::Backing { index }
}

fn raised(index: usize) -> VertexRef {
    VertexRef::Raised { index }
}

fn refs(a: VertexRef, b: VertexRef, c: VertexRef) -> TriangleRefs {
    TriangleRefs { a, b, c }
}

#[test]
fn lithophane_plan_triangle_count() {
    // 4*(w-1)*(h-1) + 4*(w-1) + 4*(h-1) triangles for a full lithophane.
    assert_eq!(lithophane_mesh_plan(2, 2).len(), 12);
    assert_eq!(lithophane_mesh_plan(3, 4).len(), 44);
    assert_eq!(lithophane_mesh_plan(10, 10).len(), 396);
}

#[test]
fn lithophane_plan_degenerate_sizes() {
    // A single row or column of pixels yields only the walls over it; a
    // single vertex yields nothing.
    assert_eq!(lithophane_mesh_plan(1, 1).len(), 0);
    assert_eq!(lithophane_mesh_plan(3, 1).len(), 8);
    assert_eq!(lithophane_mesh_plan(1, 3).len(), 8);
}

#[test]
fn preview_plan_triangle_count() {
    assert_eq!(preview_mesh_plan(2, 2).len(), 2);
    assert_eq!(preview_mesh_plan(3, 4).len(), 12);
    assert_eq!(preview_mesh_plan(1, 5).len(), 0);
}

#[test]
fn preview_plan_entries() {
    // One 2x2 block: the two triangles of the flat surface.
    let plan = preview_mesh_plan(2, 2);
    assert_eq!(plan, vec![(0, 2, 3), (0, 3, 1)]);
}

#[test]
fn lithophane_plan_two_by_two_entries() {
    let plan = lithophane_mesh_plan(2, 2);
    let expected = vec![
        // backing surface
        refs(backing(0), backing(3), backing(2)),
        refs(backing(0), backing(1), backing(3)),
        // raised surface, winding mirrored
        refs(raised(0), raised(2), raised(3)),
        refs(raised(0), raised(3), raised(1)),
        // top wall
        refs(backing(0), raised(0), raised(1)),
        refs(backing(0), raised(1), backing(1)),
        // bottom wall
        refs(backing(2), raised(3), raised(2)),
        refs(backing(2), backing(3), raised(3)),
        // left wall
        refs(backing(0), backing(2), raised(2)),
        refs(backing(0), raised(2), raised(0)),
        // right wall
        refs(backing(1), raised(3), backing(3)),
        refs(backing(1), raised(1), raised(3)),
    ];
    assert_eq!(plan, expected);
}

#[test]
fn raised_section_mirrors_backing_section() {
    // In every full plan the raised section repeats the backing section
    // with each reference moved to the raised surface and the winding
    // mirrored.
    for &(w, h) in &[(2usize, 2usize), (3, 4), (5, 2)] {
        let plan = lithophane_mesh_plan(w, h);
        let nb = 2 * (w - 1) * (h - 1);
        for k in 0..nb {
            let b = plan[k];
            let r = plan[nb + k];
            assert_eq!(r.a, to_raised(b.a));
            assert_eq!(r.b, to_raised(b.c));
            assert_eq!(r.c, to_raised(b.b));
        }
    }
}

fn to_raised(v: VertexRef) -> VertexRef {
    match v {
        VertexRef::Backing { index } => VertexRef::Raised { index },
        VertexRef::Raised { index } => VertexRef::Raised { index },
    }
}

fn undirected_edges(t: &TriangleRefs) -> [(VertexRef, VertexRef); 3] {
    [(t.a, t.b), (t.b, t.c), (t.c, t.a)]
}

fn same_edge(e1: &(VertexRef, VertexRef), e2: &(VertexRef, VertexRef)) -> bool {
    (e1.0 == e2.0 && e1.1 == e2.1) || (e1.0 == e2.1 && e1.1 == e2.0)
}

#[test]
fn lithophane_plan_is_watertight() {
    // A closed solid: every undirected edge of the plan is shared by
    // exactly two triangles.
    for &(w, h) in &[(2usize, 2usize), (3, 3), (4, 2)] {
        let plan = lithophane_mesh_plan(w, h);
        let mut edges: Vec<(VertexRef, VertexRef)> = Vec::new();
        for t in &plan {
            edges.extend_from_slice(&undirected_edges(t));
        }
        for e in &edges {
            let shared = edges.iter().filter(|o| same_edge(e, o)).count();
            assert_eq!(shared, 2, "edge {:?} shared by {} triangles", e, shared);
        }
    }
}

#[test]
fn gather_resolves_plan_references() {
    let plan = lithophane_mesh_plan(2, 2);
    let backing_points: Vec<u32> = vec![100, 101, 102, 103];
    let raised_points: Vec<u32> = vec![200, 201, 202, 203];
    let triples = gather_triangle_points(&plan, &backing_points, &raised_points);
    assert_eq!(triples.len(), 12);
    assert_eq!(triples[0], (100, 103, 102));
    assert_eq!(triples[2], (200, 202, 203));
    assert_eq!(triples[4], (100, 200, 201));
    assert_eq!(triples[11], (101, 201, 203));
}

#[test]
fn gather_resolves_preview_slots() {
    let plan = preview_mesh_plan(3, 2);
    let points: Vec<i32> = vec![10, 11, 12, 13, 14, 15];
    let triples = gather_surface_points(&plan, &points);
    assert_eq!(triples, vec![(10, 13, 14), (10, 14, 11), (11, 14, 15), (11, 15, 12)]);
}
