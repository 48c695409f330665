use franzplot::mesh::{
    arrow_chunk_count, model_vertex_count, padded_chunk_count,
    create_arrow_cap, create_arrow_indices, create_arrow_segment, create_curve_indices,
    create_curve_segment, create_grid_indices,
};

#[test]
fn curve_segment_between_two_circles() {
    let indices = create_curve_segment((0, 1), 4);
    assert_eq!(
        indices,
        vec![
            0, 1, 5, 0, 5, 4, //
            1, 2, 6, 1, 6, 5, //
            2, 3, 7, 2, 7, 6, //
            3, 0, 4, 7, 3, 4,
        ]
    );
}

#[test]
fn arrow_segment_matches_curve_segment() {
    assert_eq!(create_arrow_segment((2, 3), 5), create_curve_segment((2, 3), 5));
}

#[test]
fn arrow_cap_fans_around_the_tip() {
    assert_eq!(create_arrow_cap(1, 20, 4), vec![4, 5, 20, 5, 6, 20, 6, 7, 20, 7, 4, 20]);
}

#[test]
fn curve_indices_join_consecutive_circles() {
    let indices = create_curve_indices(3, 4);
    assert_eq!(indices.len(), 48);
    assert_eq!(&indices[0..24], create_curve_segment((0, 1), 4).as_slice());
    assert_eq!(&indices[24..48], create_curve_segment((1, 2), 4).as_slice());
    assert!(create_curve_indices(1, 4).is_empty());
}

#[test]
fn grid_with_and_without_flag_pattern() {
    assert_eq!(create_grid_indices(3, 2, false), vec![0, 1, 4, 4, 3, 0, 1, 2, 5, 5, 4, 1]);
    assert_eq!(create_grid_indices(3, 2, true), vec![0, 1, 4, 4, 3, 0, 1, 2, 4, 5, 4, 2]);
    assert!(create_grid_indices(1, 5, true).is_empty());
}

#[test]
fn arrow_indices_and_vertex_count() {
    let (indices, vertices) = create_arrow_indices(4);
    assert_eq!(vertices, 22);
    assert_eq!(indices.len(), 24 + 24 + 12 + 12);
    assert_eq!(&indices[48..60], create_arrow_cap(4, 20, 4).as_slice());
    assert_eq!(&indices[60..72], create_arrow_cap(0, 21, 4).as_slice());
}

#[test]
fn model_arrays_make_vertices() {
    assert_eq!(model_vertex_count(9, 9, 6), Ok(3));
    assert_eq!(model_vertex_count(10, 9, 7), Ok(3));
    assert_eq!(model_vertex_count(2, 0, 0), Err("model has no vertex positions"));
    assert_eq!(model_vertex_count(9, 6, 6), Err("model has wrong number of normals"));
    assert_eq!(model_vertex_count(9, 9, 4), Err("model has wrong number of texture coordinates"));
}

#[test]
fn vertex_buffers_are_padded_to_whole_chunks() {
    assert_eq!(arrow_chunk_count(8, 64), 1);
    assert_eq!(arrow_chunk_count(20, 16), 7);
    assert_eq!(padded_chunk_count(128, 64), 2);
    assert_eq!(padded_chunk_count(129, 64), 3);
    assert_eq!(padded_chunk_count(0, 64), 0);
}

#[test]
fn segments_may_run_backwards() {
    assert_eq!(create_arrow_segment((3, 1), 4), create_curve_segment((3, 1), 4));
    assert_eq!(create_curve_segment((3, 1), 4)[0], 12);
}
