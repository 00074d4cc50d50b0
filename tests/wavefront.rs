use tinygraph::wavefront::Obj;

fn coords(obj: &Obj) -> Vec<[f32; 3]> {
    obj.vertexes
        .iter()
        .map(|v| {
            [
                v[0].parse::<f32>().unwrap(),
                v[1].parse::<f32>().unwrap(),
                v[2].parse::<f32>().unwrap(),
            ]
        })
        .collect()
}

#[test]
fn test_obj_from_string() {
    let obj = Obj::from_string(
        r#"
        v 4.0 -4.0 -9.0 
        v 5.0 -4.0 -9.0 
        v 5.0 -4.0 -8.0 
        f 1 3 2 
        f 2 4 1 
        f 4 5 1 
        "#,
    )
    .ok()
    .unwrap();

    assert_eq!(
        coords(&obj),
        vec![[4.0, -4.0, -9.0], [5.0, -4.0, -9.0], [5.0, -4.0, -8.0]]
    );
    assert_eq!(obj.faces, vec![[1, 3, 2], [2, 4, 1], [4, 5, 1]]);
}

#[test]
fn vertex_tokens_keep_their_text() {
    let obj = Obj::from_string("v 1.5 -2 3e1\n").ok().unwrap();
    assert_eq!(obj.vertexes.len(), 1);
    assert_eq!(obj.vertexes[0][0], "1.5");
    assert_eq!(obj.vertexes[0][1], "-2");
    assert_eq!(obj.vertexes[0][2], "3e1");
}

#[test]
fn other_lines_are_skipped() {
    let text = "# comment\nvn 0 0 1\nv 1 2\nv 1 2 3 4\nf 1 2\nvt 0 0 0\n\n   \nv 0 0 0";
    let obj = Obj::from_string(text).ok().unwrap();
    assert_eq!(obj.vertexes.len(), 1);
    assert_eq!(obj.vertexes[0][2], "0");
    assert!(obj.faces.is_empty());
}

#[test]
fn empty_text_has_no_records() {
    let obj = Obj::from_string("").ok().unwrap();
    assert!(obj.vertexes.is_empty());
    assert!(obj.faces.is_empty());
}

#[test]
fn crlf_tabs_and_signs_are_read() {
    let obj = Obj::from_string("f\t+1  2 3\r\nf 10 20 30").ok().unwrap();
    assert_eq!(obj.faces, vec![[1, 2, 3], [10, 20, 30]]);
}

#[test]
fn bad_face_index_names_its_line() {
    let err = Obj::from_string("v 0 0 0\n\nf 1 x 2\nf 1 2 3").err().unwrap();
    assert_eq!(err.line, 3);
    let err = Obj::from_string("f 1 2 -3").err().unwrap();
    assert_eq!(err.line, 1);
    let err = Obj::from_string("f 1 2 99999999999999999999999").err().unwrap();
    assert_eq!(err.line, 1);
}
