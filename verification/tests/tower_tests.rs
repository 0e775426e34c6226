use gladius_slicer::tower::{join_fragments, TowerRing, TowerRingElement};

fn e(start_index: usize, end_index: usize) -> TowerRingElement {
    TowerRingElement::Edge { start_index, end_index }
}

fn f(triangle_index: usize) -> TowerRingElement {
    TowerRingElement::Face { triangle_index }
}

fn ring(elements: Vec<TowerRingElement>) -> TowerRing {
    TowerRing { elements }
}

fn rings_sliding_equality_assert(lhs: Vec<TowerRing>, rhs: Vec<TowerRing>) {
    if lhs == rhs {
        return;
    }
    if lhs.len() != rhs.len() {
        panic!("ASSERT rings count are different lengths");
    }

    for q in 0..lhs.len() {
        ring_sliding_equality_assert(&lhs[q], &rhs[q])
    }
}

fn ring_sliding_equality_assert(lhs: &TowerRing, rhs: &TowerRing) {
    if lhs == rhs {
        return;
    }
    if lhs.elements.len() != rhs.elements.len() {
        panic!("ASSERT ring {:?} and {:?} are different lengths", lhs, rhs);
    }

    for q in 0..lhs.elements.len() - 1 {
        let mut equal = true;
        for w in 0..lhs.elements.len() - 1 {
            equal = equal && rhs.elements[w] == lhs.elements[(w + q) % (lhs.elements.len() - 1)]
        }

        if equal {
            return;
        }

        if lhs.elements.len() != rhs.elements.len() {
            panic!("ASSERT ring {:?} and {:?} are different", lhs, rhs);
        }
    }
}

/// Whether two closed rings run through the same elements in the same
/// order, whichever element they start at.
fn same_closed_ring(lhs: &[TowerRingElement], rhs: &[TowerRingElement]) -> bool {
    if lhs.len() != rhs.len() || lhs.is_empty() {
        return lhs == rhs;
    }
    if lhs[0] != lhs[lhs.len() - 1] || rhs[0] != rhs[rhs.len() - 1] {
        return lhs == rhs;
    }
    let n = lhs.len() - 1;
    (0..n).any(|q| (0..n).all(|w| rhs[w] == lhs[(w + q) % n]))
}

#[test]
fn join_rings_test() {
    let r1 = ring(vec![e(0, 1), f(0), e(0, 2)]);
    let r2 = ring(vec![e(0, 2), f(2), e(4, 6)]);
    let r3 = ring(vec![e(0, 1), f(0), e(0, 2), f(2), e(4, 6)]);

    ring_sliding_equality_assert(&TowerRing::join_rings(r1, r2), &r3);
}

#[test]
fn split_on_edge_test() {
    let r1 = ring(vec![e(0, 1), f(0), e(0, 2), f(2), e(0, 1)]);

    let frags = r1.split_on_edge(2);

    let expected = vec![ring(vec![f(2), e(0, 1), f(0)])];
    rings_sliding_equality_assert(frags, expected);
}

#[test]
fn assemble_fragment_simple_test() {
    let mut frags = vec![
        ring(vec![e(0, 1), f(0), e(0, 2), f(2), e(4, 6)]),
        ring(vec![e(4, 6), f(2), e(0, 1)]),
    ];

    join_fragments(&mut frags);

    let expected = vec![ring(vec![e(0, 1), f(0), e(0, 2), f(2), e(4, 6), f(2), e(0, 1)])];

    rings_sliding_equality_assert(frags, expected);
}

#[test]
fn assemble_fragment_multiple_test() {
    let mut frags = vec![
        ring(vec![e(0, 1), f(0)]),
        ring(vec![f(0), e(0, 2), f(1)]),
        ring(vec![f(1), e(0, 3)]),
        ring(vec![e(0, 3), f(4)]),
        ring(vec![f(4), e(0, 1)]),
        ring(vec![e(0, 11), f(10)]),
        ring(vec![f(10), e(0, 12), f(11)]),
        ring(vec![f(11), e(0, 11)]),
    ];

    join_fragments(&mut frags);

    let expected = vec![
        ring(vec![e(0, 1), f(0), e(0, 2), f(1), e(0, 3), f(4), e(0, 1)]),
        ring(vec![e(0, 11), f(10), e(0, 12), f(11), e(0, 11)]),
    ];

    rings_sliding_equality_assert(frags, expected);
}

#[test]
fn assemble_fragment_3_fragment_test() {
    let mut frags = vec![
        ring(vec![e(0, 11), f(10)]),
        ring(vec![f(10), e(0, 12), f(11)]),
        ring(vec![f(11), e(0, 11)]),
    ];

    join_fragments(&mut frags);

    let expected = vec![ring(vec![e(0, 11), f(10), e(0, 12), f(11), e(0, 11)])];

    rings_sliding_equality_assert(frags, expected);
}

// The exact results of the cases above, element for element.

#[test]
fn join_rings_drops_the_shared_element() {
    let r1 = ring(vec![e(0, 1), f(0), e(0, 2)]);
    let r2 = ring(vec![e(0, 2), f(2), e(4, 6)]);
    let joined = TowerRing::join_rings(r1, r2);
    assert_eq!(joined.elements, vec![e(0, 1), f(0), e(0, 2), f(2), e(4, 6)]);
}

#[test]
fn join_rings_in_place_matches_join_rings() {
    let mut r1 = ring(vec![e(0, 1), f(0), e(0, 2)]);
    TowerRing::join_rings_in_place(&mut r1, ring(vec![e(0, 2), f(2), e(4, 6)]));
    assert_eq!(r1.elements, vec![e(0, 1), f(0), e(0, 2), f(2), e(4, 6)]);
}

#[test]
fn assemble_fragments_exact() {
    let mut frags = vec![
        ring(vec![e(0, 1), f(0)]),
        ring(vec![f(0), e(0, 2), f(1)]),
        ring(vec![f(1), e(0, 3)]),
        ring(vec![e(0, 3), f(4)]),
        ring(vec![f(4), e(0, 1)]),
        ring(vec![e(0, 11), f(10)]),
        ring(vec![f(10), e(0, 12), f(11)]),
        ring(vec![f(11), e(0, 11)]),
    ];
    join_fragments(&mut frags);
    assert_eq!(frags.len(), 2);
    // a fragment that ends where the first one starts is put in front of it
    assert_eq!(frags[0].elements, vec![f(4), e(0, 1), f(0), e(0, 2), f(1), e(0, 3), f(4)]);
    assert!(same_closed_ring(
        &frags[0].elements,
        &[e(0, 1), f(0), e(0, 2), f(1), e(0, 3), f(4), e(0, 1)]
    ));
    assert!(same_closed_ring(&frags[1].elements, &[e(0, 11), f(10), e(0, 12), f(11), e(0, 11)]));
    assert!(frags.iter().all(|r| r.is_complete_ring()));
}

#[test]
fn split_on_edge_exact() {
    let frags = ring(vec![e(0, 1), f(0), e(0, 2), f(2), e(0, 1)]).split_on_edge(2);
    assert_eq!(frags.len(), 1);
    assert_eq!(frags[0].elements, vec![f(2), e(0, 1), f(0)]);
}

// The examples of the algorithm description, with e_k the edge that ends at
// vertex k and f_k face k. A closed ring has no first element: the joined
// rings are compared whichever element they start at.

#[test]
fn split_on_edge_description_example_1() {
    let frags = ring(vec![e(0, 1), f(1), e(0, 2), f(2), e(0, 1)]).split_on_edge(2);
    assert_eq!(frags.len(), 1);
    assert_eq!(frags[0].elements, vec![f(2), e(0, 1), f(1)]);
}

#[test]
fn split_on_edge_description_example_2() {
    let frags = ring(vec![e(0, 1), f(1), e(0, 2), f(4), e(0, 2), e(0, 1)]).split_on_edge(2);
    assert_eq!(frags.len(), 1);
    assert_eq!(frags[0].elements, vec![e(0, 1), f(1)]);
}

#[test]
fn join_fragments_description_example_1() {
    let mut frags = vec![ring(vec![e(0, 1), f(1), e(0, 2)]), ring(vec![e(0, 2), f(2), e(0, 1)])];
    join_fragments(&mut frags);
    assert_eq!(frags.len(), 1);
    assert!(same_closed_ring(&frags[0].elements, &[e(0, 1), f(1), e(0, 2), f(2), e(0, 1)]));
    assert_eq!(frags[0].elements, vec![e(0, 2), f(2), e(0, 1), f(1), e(0, 2)]);
}

#[test]
fn join_fragments_description_example_2() {
    let mut frags = vec![
        ring(vec![e(0, 1), f(1)]),
        ring(vec![f(3), e(0, 4)]),
        ring(vec![f(1), e(0, 3)]),
        ring(vec![e(0, 5), f(3)]),
        ring(vec![e(0, 4), f(3), e(0, 5)]),
    ];
    join_fragments(&mut frags);
    assert_eq!(frags.len(), 2);
    assert_eq!(frags[0].elements, vec![e(0, 1), f(1), e(0, 3)]);
    assert!(same_closed_ring(&frags[1].elements, &[f(3), e(0, 4), f(3), e(0, 5), f(3)]));
}

#[test]
fn split_keeps_a_ring_without_the_vertex() {
    let r = ring(vec![e(0, 1), f(0), e(0, 3), f(2), e(0, 1)]);
    let frags = r.clone().split_on_edge(2);
    assert_eq!(frags, vec![r]);
}

#[test]
fn incomplete_ring_is_detected() {
    assert!(ring(vec![e(0, 1), f(0), e(0, 2), f(1), e(0, 1)]).is_complete_ring());
    assert!(!ring(vec![e(0, 1), f(0), e(0, 2), f(1), e(0, 3)]).is_complete_ring());
    // a ring needs more than three elements
    assert!(!ring(vec![e(0, 1), f(0), e(0, 1)]).is_complete_ring());
}
