//! Index buffers of the meshes that renderings draw: tubes around curves, grids over
//! surfaces, and arrows. Vertices come in circles of `circle_points` points; the
//! circle `k` starts at vertex `k * circle_points`.
use vstd::prelude::*;

verus! {

/// The two triangles of side `i` of the tube between the circles starting at `s` and
/// at `e`.
pub open spec fn side_face(s: int, e: int, i: int) -> Seq<u32> {
    seq![(s + i) as u32, (s + i + 1) as u32, (e + i + 1) as u32, (s + i) as u32, (e + i + 1) as u32, (e + i) as u32]
}

/// The triangles of the first `n` sides of a tube.
pub open spec fn side_faces(s: int, e: int, n: nat) -> Seq<u32>
    decreases n,
{
    if n == 0 {
        seq![]
    } else {
        side_faces(s, e, (n - 1) as nat) + side_face(s, e, n - 1)
    }
}

/// The triangles of the tube joining circle `a` to circle `b`: every side but the
/// last one, then the last one, written out.
pub open spec fn tube_segment(a: int, b: int, circle_points: int) -> Seq<u32> {
    let s = a * circle_points;
    let e = b * circle_points;
    side_faces(s, e, (circle_points - 1) as nat) + seq![
        (e - 1) as u32,
        s as u32,
        e as u32,
        (e + circle_points - 1) as u32,
        (e - 1) as u32,
        e as u32,
    ]
}

/// The triangles of the fan closing circle `c` on the vertex `cap`.
pub open spec fn cap_faces(s: int, cap: u32, n: nat) -> Seq<u32>
    decreases n,
{
    if n == 0 {
        seq![]
    } else {
        cap_faces(s, cap, (n - 1) as nat) + seq![(s + n - 1) as u32, (s + n) as u32, cap]
    }
}

/// The fan of triangles closing circle `c` on the vertex `cap`.
pub open spec fn cap_fan(c: int, cap: u32, circle_points: int) -> Seq<u32> {
    let s = c * circle_points;
    cap_faces(s, cap, (circle_points - 1) as nat) + seq![(s + circle_points - 1) as u32, s as u32, cap]
}

proof fn lemma_mul_bounds(a: int, b: int, c: int)
    requires
        0 <= a <= b,
        0 <= c,
    ensures
        0 <= a * c <= b * c,
{
    assert(a * c <= b * c) by (nonlinear_arith)
        requires
            0 <= a <= b,
            0 <= c,
    ;
    assert(0 <= a * c) by (nonlinear_arith)
        requires
            0 <= a,
            0 <= c,
    ;
}

/// The triangles of the tube between circle `segment.0` and circle `segment.1`.
pub fn create_curve_segment(segment: (usize, usize), circle_points: usize) -> (indices: Vec<u32>)
    requires
        circle_points >= 1,
        segment.0 * circle_points + circle_points <= u32::MAX,
        segment.1 >= 1,
        segment.1 * circle_points + circle_points <= u32::MAX,
    ensures
        indices@ == tube_segment(segment.0 as int, segment.1 as int, circle_points as int),
{
    proof {
        lemma_mul_bounds(segment.0 as int, segment.0 as int, circle_points as int);
        lemma_mul_bounds(1, segment.1 as int, circle_points as int);
    }
    let mut indices: Vec<u32> = Vec::new();
    let segment_start = (segment.0 * circle_points) as u32;
    let segment_end = (segment.1 * circle_points) as u32;
    let n = (circle_points - 1) as u32;
    let mut i: u32 = 0;
    while i < n
        invariant
            i <= n,
            n == circle_points - 1,
            segment_start == segment.0 * circle_points,
            segment_end == segment.1 * circle_points,
            segment_start + circle_points <= u32::MAX,
            segment_end + circle_points <= u32::MAX,
            indices@ == side_faces(segment_start as int, segment_end as int, i as nat),
        decreases n - i,
    {
        let ghost before = indices@;
        indices.push(segment_start + i);
        indices.push(segment_start + i + 1);
        indices.push(segment_end + i + 1);
        indices.push(segment_start + i);
        indices.push(segment_end + i + 1);
        indices.push(segment_end + i);
        assert(indices@ =~= before + side_face(segment_start as int, segment_end as int, i as int));
        i = i + 1;
    }
    let ghost before = indices@;
    indices.push(segment_end - 1);
    indices.push(segment_start);
    indices.push(segment_end);
    indices.push(segment_end + (circle_points - 1) as u32);
    indices.push(segment_end - 1);
    indices.push(segment_end);
    assert(indices@ =~= tube_segment(segment.0 as int, segment.1 as int, circle_points as int));
    indices
}

/// The triangles of the tube between circle `segment.0` and circle `segment.1` of an
/// arrow.
pub fn create_arrow_segment(segment: (usize, usize), circle_points: usize) -> (indices: Vec<u32>)
    requires
        circle_points >= 1,
        segment.0 * circle_points + circle_points <= u32::MAX,
        segment.1 >= 1,
        segment.1 * circle_points + circle_points <= u32::MAX,
    ensures
        indices@ == tube_segment(segment.0 as int, segment.1 as int, circle_points as int),
{
    create_curve_segment(segment, circle_points)
}

/// The fan of triangles that closes circle `segment` of an arrow on the vertex
/// `cap_point_index`.
pub fn create_arrow_cap(segment: usize, cap_point_index: u32, circle_points: usize) -> (indices: Vec<u32>)
    requires
        circle_points >= 1,
        segment * circle_points + circle_points <= u32::MAX,
    ensures
        indices@ == cap_fan(segment as int, cap_point_index, circle_points as int),
{
    proof {
        lemma_mul_bounds(0, segment as int, circle_points as int);
    }
    let mut indices: Vec<u32> = Vec::new();
    let segment_start = (segment * circle_points) as u32;
    let n = (circle_points - 1) as u32;
    let mut i: u32 = 0;
    while i < n
        invariant
            i <= n,
            n == circle_points - 1,
            segment_start == segment * circle_points,
            segment_start + circle_points <= u32::MAX,
            indices@ == cap_faces(segment_start as int, cap_point_index, i as nat),
        decreases n - i,
    {
        let ghost before = indices@;
        indices.push(segment_start + i);
        indices.push(segment_start + i + 1);
        indices.push(cap_point_index);
        assert(indices@ =~= cap_faces(segment_start as int, cap_point_index, (i + 1) as nat));
        i = i + 1;
    }
    indices.push(segment_start + circle_points as u32 - 1);
    indices.push(segment_start);
    indices.push(cap_point_index);
    assert(indices@ =~= cap_fan(segment as int, cap_point_index, circle_points as int));
    indices
}

/// The tubes joining each circle of a curve of `n` circles to the next.
pub open spec fn curve_tubes(n: nat, circle_points: int) -> Seq<u32>
    decreases n,
{
    if n == 0 {
        seq![]
    } else {
        curve_tubes((n - 1) as nat, circle_points) + tube_segment(n - 1, n as int, circle_points)
    }
}

/// The index buffer of the tube around a curve sampled at `x_size` points, with
/// sections of `circle_points` points.
pub fn create_curve_indices(x_size: usize, circle_points: usize) -> (indices: Vec<u32>)
    requires
        x_size >= 1,
        circle_points > 3,
        x_size * circle_points + circle_points <= u32::MAX,
    ensures
        indices@ == curve_tubes((x_size - 1) as nat, circle_points as int),
{
    let mut index_vector: Vec<u32> = Vec::new();
    let mut i: usize = 0;
    while i < x_size - 1
        invariant
            i <= x_size - 1,
            circle_points > 3,
            x_size * circle_points + circle_points <= u32::MAX,
            index_vector@ == curve_tubes(i as nat, circle_points as int),
        decreases x_size - 1 - i,
    {
        proof {
            lemma_mul_bounds((i + 1) as int, x_size as int, circle_points as int);
            lemma_mul_bounds(i as int, x_size as int, circle_points as int);
        }
        let mut segment_indices = create_curve_segment((i, i + 1), circle_points);
        let ghost before = index_vector@;
        let ghost seg = segment_indices@;
        index_vector.append(&mut segment_indices);
        assert(index_vector@ =~= before + seg);
        i = i + 1;
    }
    index_vector
}

/// The two triangles of the quad of a grid `x_size` points wide whose bottom left
/// corner is point `(i, j)`. Where the flag pattern is asked for, every other quad is
/// cut along its other diagonal.
pub open spec fn grid_quad(i: int, j: int, x_size: int, flag_pattern: bool) -> Seq<u32> {
    let bl = (i + j * x_size) as u32;
    let br = (i + 1 + j * x_size) as u32;
    let tl = (i + (j + 1) * x_size) as u32;
    let tr = (i + 1 + (j + 1) * x_size) as u32;
    if (i + j) % 2 == 1 && flag_pattern {
        seq![bl, br, tl, tr, tl, br]
    } else {
        seq![bl, br, tr, tr, tl, bl]
    }
}

/// The quads of row `j` of a grid, from the first to quad `n - 1`.
pub open spec fn grid_row(j: int, n: nat, x_size: int, flag_pattern: bool) -> Seq<u32>
    decreases n,
{
    if n == 0 {
        seq![]
    } else {
        grid_row(j, (n - 1) as nat, x_size, flag_pattern) + grid_quad(n - 1, j, x_size, flag_pattern)
    }
}

/// The first `m` rows of quads of a grid `x_size` points wide.
pub open spec fn grid_rows(m: nat, x_size: int, flag_pattern: bool) -> Seq<u32>
    decreases m,
{
    if m == 0 {
        seq![]
    } else {
        grid_rows((m - 1) as nat, x_size, flag_pattern) + grid_row(
            m - 1,
            (x_size - 1) as nat,
            x_size,
            flag_pattern,
        )
    }
}

/// The index buffer of a grid of `x_size` by `y_size` points, numbered along x first.
pub fn create_grid_indices(x_size: usize, y_size: usize, flag_pattern: bool) -> (indices: Vec<u32>)
    requires
        x_size >= 1,
        y_size >= 1,
        x_size * y_size <= u32::MAX,
    ensures
        indices@ == grid_rows((y_size - 1) as nat, x_size as int, flag_pattern),
{
    proof {
        assert(x_size + y_size <= x_size * y_size + 1) by (nonlinear_arith)
            requires
                x_size >= 1,
                y_size >= 1,
        ;
        assert(y_size * x_size == x_size * y_size) by (nonlinear_arith);
    }
    let mut index_vector: Vec<u32> = Vec::new();
    let num_triangles_x = x_size - 1;
    let num_triangles_y = y_size - 1;
    let mut j: usize = 0;
    while j < num_triangles_y
        invariant
            j <= num_triangles_y,
            num_triangles_x == x_size - 1,
            num_triangles_y == y_size - 1,
            x_size * y_size <= u32::MAX,
            y_size * x_size == x_size * y_size,
            x_size + y_size <= u32::MAX + 1,
            index_vector@ == grid_rows(j as nat, x_size as int, flag_pattern),
        decreases num_triangles_y - j,
    {
        let ghost row_start = index_vector@;
        proof {
            lemma_mul_bounds((j + 2) as int, y_size as int, x_size as int);
            assert((j + 2) * x_size == (j + 1) * x_size + x_size) by (nonlinear_arith);
        }
        let mut i: usize = 0;
        while i < num_triangles_x
            invariant
                i <= num_triangles_x,
                j < num_triangles_y,
                num_triangles_x == x_size - 1,
                num_triangles_y == y_size - 1,
                (j + 1) * x_size + x_size <= u32::MAX,
                x_size + y_size <= u32::MAX + 1,
                index_vector@ == row_start + grid_row(j as int, i as nat, x_size as int, flag_pattern),
            decreases num_triangles_x - i,
        {
            proof {
                lemma_mul_bounds(j as int, (j + 1) as int, x_size as int);
            }
            let bot_left_idx = (i + j * x_size) as u32;
            let bot_right_idx = (i + 1 + j * x_size) as u32;
            let top_left_idx = (i + (j + 1) * x_size) as u32;
            let top_right_idx = (i + 1 + (j + 1) * x_size) as u32;
            let ghost before = index_vector@;
            if (i + j) % 2 == 1 && flag_pattern {
                index_vector.push(bot_left_idx);
                index_vector.push(bot_right_idx);
                index_vector.push(top_left_idx);
                index_vector.push(top_right_idx);
                index_vector.push(top_left_idx);
                index_vector.push(bot_right_idx);
            } else {
                index_vector.push(bot_left_idx);
                index_vector.push(bot_right_idx);
                index_vector.push(top_right_idx);
                index_vector.push(top_right_idx);
                index_vector.push(top_left_idx);
                index_vector.push(bot_left_idx);
            }
            assert(index_vector@ =~= before + grid_quad(i as int, j as int, x_size as int, flag_pattern));
            assert(row_start + grid_row(j as int, (i + 1) as nat, x_size as int, flag_pattern) =~= row_start
                + grid_row(j as int, i as nat, x_size as int, flag_pattern) + grid_quad(
                i as int,
                j as int,
                x_size as int,
                flag_pattern,
            ));
            i = i + 1;
        }
        j = j + 1;
    }
    index_vector
}

/// The number of vertices of an arrow: five circles, the tip and the bottom center.
pub open spec fn arrow_vertex_count(circle_points: int) -> int {
    5 * circle_points + 2
}

/// The index buffer of an arrow: the shaft between circles 0 and 1, the widening of
/// the head between circles 2 and 3, the fan of circle 4 on the tip, and the fan of
/// circle 0 on the bottom center.
pub open spec fn arrow_indices(circle_points: int) -> Seq<u32> {
    tube_segment(0, 1, circle_points) + tube_segment(2, 3, circle_points) + cap_fan(
        4,
        (5 * circle_points) as u32,
        circle_points,
    ) + cap_fan(0, (5 * circle_points + 1) as u32, circle_points)
}

/// The index buffer of an arrow with sections of `circle_points` points, and the
/// number of its vertices.
pub fn create_arrow_indices(circle_points: usize) -> (r: (Vec<u32>, usize))
    requires
        3 < circle_points,
        6 * circle_points + 2 <= u32::MAX,
    ensures
        r.0@ == arrow_indices(circle_points as int),
        r.1 == arrow_vertex_count(circle_points as int),
{
    let mut index_vector = create_arrow_segment((0, 1), circle_points);
    assert(2 * circle_points + circle_points <= u32::MAX);
    let mut second = create_arrow_segment((2, 3), circle_points);
    let ghost a = index_vector@;
    let ghost b = second@;
    index_vector.append(&mut second);
    let vertex_count = 5 * circle_points + 2;
    let mut tip = create_arrow_cap(4, (vertex_count - 2) as u32, circle_points);
    let ghost c = tip@;
    index_vector.append(&mut tip);
    let mut bottom = create_arrow_cap(0, (vertex_count - 1) as u32, circle_points);
    let ghost d = bottom@;
    index_vector.append(&mut bottom);
    assert(index_vector@ =~= a + b + c + d);
    (index_vector, vertex_count)
}

/// How many chunks of `chunk_vertices` vertices hold `vertex_count` vertices once the
/// buffer is padded with empty vertices up to a whole number of chunks.
pub open spec fn padded_chunks(vertex_count: int, chunk_vertices: int) -> int {
    if vertex_count % chunk_vertices == 0 {
        vertex_count / chunk_vertices
    } else {
        vertex_count / chunk_vertices + 1
    }
}

/// The number of chunks of a vertex buffer of `vertex_count` vertices, padded to whole
/// chunks of `chunk_vertices` (see `padded_chunks`).
pub fn padded_chunk_count(vertex_count: usize, chunk_vertices: usize) -> (r: usize)
    requires
        chunk_vertices > 0,
    ensures
        r == padded_chunks(vertex_count as int, chunk_vertices as int),
{
    let whole = vertex_count / chunk_vertices;
    if vertex_count % chunk_vertices != 0 {
        assert(whole < usize::MAX) by (nonlinear_arith)
            requires
                whole == vertex_count / chunk_vertices,
                vertex_count % chunk_vertices != 0,
                chunk_vertices > 0,
        ;
        whole + 1
    } else {
        whole
    }
}

/// The number of vertex chunks an arrow with sections of `circle_points` points takes:
/// its vertices padded to whole chunks of `chunk_vertices`.
pub fn arrow_chunk_count(circle_points: usize, chunk_vertices: usize) -> (r: usize)
    requires
        chunk_vertices > 0,
        5 * circle_points + 2 <= usize::MAX,
    ensures
        r == padded_chunks(arrow_vertex_count(circle_points as int), chunk_vertices as int),
{
    padded_chunk_count(5 * circle_points + 2, chunk_vertices)
}

/// How many vertices a model's flat arrays make (positions and normals come in
/// threes, texture coordinates in twos, a trailing remainder dropped), or why they
/// do not make a mesh: no position, or not one normal and one texture coordinate
/// pair per position.
pub open spec fn model_vertex_count_spec(positions: usize, normals: usize, texcoords: usize) -> Result<usize, &'static str> {
    if positions / 3 == 0 {
        Err("model has no vertex positions")
    } else if normals / 3 != positions / 3 {
        Err("model has wrong number of normals")
    } else if texcoords / 2 != positions / 3 {
        Err("model has wrong number of texture coordinates")
    } else {
        Ok((positions / 3) as usize)
    }
}

/// The number of vertices of a model whose flat arrays of positions, normals and
/// texture coordinates have the given lengths (see `model_vertex_count_spec`).
pub fn model_vertex_count(positions: usize, normals: usize, texcoords: usize) -> (r: Result<usize, &'static str>)
    ensures
        r == model_vertex_count_spec(positions, normals, texcoords),
{
    let vertex_count = positions / 3;
    if vertex_count == 0 {
        return Err("model has no vertex positions");
    }
    if normals / 3 != vertex_count {
        return Err("model has wrong number of normals");
    }
    if texcoords / 2 != vertex_count {
        return Err("model has wrong number of texture coordinates");
    }
    Ok(vertex_count)
}

} // verus!
