use tutcommon::obj::{fields_of, gather, obj_load, parse_face_corner, parse_face_index, ObjError};

fn cube_text() -> String {
    let mut s = String::new();
    let corners = [
        "-1 -1 -1", "1 -1 -1", "1 1 -1", "-1 1 -1", "-1 -1 1", "1 -1 1", "1 1 1", "-1 1 1",
    ];
    for c in corners.iter() {
        s.push_str("v ");
        s.push_str(c);
        s.push('\n');
    }
    for k in 0..8 {
        s.push_str(&format!("vt 0.{} 0.{}\n", k, 7 - k));
    }
    for c in corners.iter() {
        s.push_str("vn ");
        s.push_str(c);
        s.push('\n');
    }
    let faces = [
        (1, 2, 3),
        (1, 3, 4),
        (5, 7, 6),
        (5, 8, 7),
        (1, 5, 6),
        (1, 6, 2),
        (2, 6, 7),
        (2, 7, 3),
        (3, 7, 8),
        (3, 8, 4),
        (4, 8, 5),
        (4, 5, 1),
    ];
    for (a, b, c) in faces.iter() {
        s.push_str(&format!("f {}/{}/{} {}/{}/{} {}/{}/{}\n", a, a, a, b, b, b, c, c, c));
    }
    s
}

#[test]
fn obj_minimal_cube() {
    let text = cube_text();
    let m = obj_load(text.as_bytes()).unwrap();
    assert_eq!(m.n_vertices, 8);
    assert_eq!(m.n_uvs, 8);
    assert_eq!(m.n_normals, 8);
    assert_eq!(m.vertex_indices.len(), 3 * 12);
    assert_eq!(m.uv_indices.len(), 3 * 12);
    assert_eq!(m.normal_indices.len(), 3 * 12);
    assert_eq!(m.vertex_indices[0..3], [0, 1, 2]);

    let positions: Vec<[f32; 3]> = vec![
        [-1.0, -1.0, -1.0],
        [1.0, -1.0, -1.0],
        [1.0, 1.0, -1.0],
        [-1.0, 1.0, -1.0],
        [-1.0, -1.0, 1.0],
        [1.0, -1.0, 1.0],
        [1.0, 1.0, 1.0],
        [-1.0, 1.0, 1.0],
    ];
    let out = gather(&positions, &m.vertex_indices);
    assert_eq!(out.len(), 3 * 12);
    assert_eq!(out[0], [-1.0, -1.0, -1.0]);
    assert_eq!(out[1], [1.0, -1.0, -1.0]);
}

#[test]
fn obj_empty_input() {
    let m = obj_load(b"").unwrap();
    assert_eq!(m.n_vertices, 0);
    assert_eq!(m.vertex_indices.len(), 0);
}

#[test]
fn obj_ignores_unknown_lines() {
    let text = "# comment\no cube\ns off\nusemtl none\nv 1 2 3\n";
    let m = obj_load(text.as_bytes()).unwrap();
    assert_eq!(m.n_vertices, 1);
    assert_eq!(m.vertex_indices.len(), 0);
}

#[test]
fn obj_vertex_line_missing_field() {
    assert_eq!(obj_load(b"v 1 2\n").unwrap_err(), ObjError::Malformed);
}

#[test]
fn obj_uv_line_needs_two_fields() {
    assert_eq!(obj_load(b"vt 1\n").unwrap_err(), ObjError::Malformed);
    assert!(obj_load(b"vt 1 2\n").is_ok());
}

#[test]
fn obj_face_needs_three_corners() {
    assert_eq!(obj_load(b"v 0 0 0\nvt 0 0\nvn 0 0 1\nf 1/1/1 1/1/1\n").unwrap_err(), ObjError::Malformed);
}

#[test]
fn obj_face_corner_needs_two_slashes() {
    assert_eq!(obj_load(b"v 0 0 0\nvt 0 0\nvn 0 0 1\nf 1/1 1/1/1 1/1/1\n").unwrap_err(), ObjError::Malformed);
}

#[test]
fn obj_face_index_not_a_number() {
    assert_eq!(obj_load(b"v 0 0 0\nvt 0 0\nvn 0 0 1\nf a/1/1 1/1/1 1/1/1\n").unwrap_err(), ObjError::Malformed);
}

#[test]
fn obj_face_index_out_of_range() {
    assert_eq!(obj_load(b"v 0 0 0\nvt 0 0\nvn 0 0 1\nf 2/1/1 1/1/1 1/1/1\n").unwrap_err(), ObjError::IndexOutOfRange);
}

#[test]
fn obj_face_index_zero() {
    assert_eq!(obj_load(b"v 0 0 0\nvt 0 0\nvn 0 0 1\nf 0/1/1 1/1/1 1/1/1\n").unwrap_err(), ObjError::IndexOutOfRange);
}

#[test]
fn obj_face_may_not_reference_later_elements() {
    // Face indices name elements declared on preceding lines only.
    assert_eq!(obj_load(b"f 1/1/1 1/1/1 1/1/1\nv 0 0 0\nvt 0 0\nvn 0 0 1\n").unwrap_err(), ObjError::IndexOutOfRange);
}

#[test]
fn obj_crlf_lines() {
    let text = "v 0 0 0\r\nvt 0 0\r\nvn 0 0 1\r\nf 1/1/1 1/1/1 1/1/1\r\n";
    let m = obj_load(text.as_bytes()).unwrap();
    assert_eq!(m.n_vertices, 1);
    assert_eq!(m.vertex_indices, vec![0, 0, 0]);
    assert_eq!(m.uv_indices, vec![0, 0, 0]);
    assert_eq!(m.normal_indices, vec![0, 0, 0]);
}

#[test]
fn obj_last_line_without_newline() {
    let m = obj_load(b"v 0 0 0\nvt 0 0\nvn 0 0 1\nf 1/1/1 1/1/1 1/1/1").unwrap();
    assert_eq!(m.vertex_indices.len(), 3);
}

#[test]
fn fields_of_splits_on_whitespace_runs() {
    let fs = fields_of(b"  v  1\t2  3 ");
    let want: Vec<Vec<u8>> =
        vec![b"v".to_vec(), b"1".to_vec(), b"2".to_vec(), b"3".to_vec()];
    assert_eq!(fs, want);
}

#[test]
fn fields_of_empty_line() {
    assert_eq!(fields_of(b""), Vec::<Vec<u8>>::new());
    assert_eq!(fields_of(b"   \t "), Vec::<Vec<u8>>::new());
}

#[test]
fn parse_face_index_accepts_plus_and_leading_zeros() {
    assert_eq!(parse_face_index(b"+7", 10), Ok(6));
    assert_eq!(parse_face_index(b"007", 10), Ok(6));
}

#[test]
fn parse_face_index_rejects_garbage() {
    assert_eq!(parse_face_index(b"", 10), Err(ObjError::Malformed));
    assert_eq!(parse_face_index(b"+", 10), Err(ObjError::Malformed));
    assert_eq!(parse_face_index(b"7x", 10), Err(ObjError::Malformed));
    assert_eq!(parse_face_index(b"-7", 10), Err(ObjError::Malformed));
}

#[test]
fn parse_face_index_huge_numeral_is_out_of_range() {
    assert_eq!(
        parse_face_index(b"99999999999999999999999999", 10),
        Err(ObjError::IndexOutOfRange)
    );
}

#[test]
fn parse_face_corner_splits_on_slashes() {
    assert_eq!(parse_face_corner(b"3/2/1", 5, 5, 5), Ok((2, 1, 0)));
    // A fourth slash-separated part is ignored, as a fourth field of a
    // whitespace-split face line would be.
    assert_eq!(parse_face_corner(b"3/2/1/9", 5, 5, 5), Ok((2, 1, 0)));
    assert_eq!(parse_face_corner(b"3//1", 5, 5, 5), Err(ObjError::Malformed));
}

#[test]
fn gather_expands_by_index() {
    let items: Vec<u32> = vec![10, 20, 30];
    let idx: Vec<usize> = vec![2, 0, 1, 2];
    assert_eq!(gather(&items, &idx), vec![30, 10, 20, 30]);
}
