use rt_one_weekend::colour::write_colour;
use rt_one_weekend::obj::{
    parse_fixed, parse_usize_or_zero, split_slash, split_ws, string_to_face, string_to_point, Obj,
};
use rt_one_weekend::vec3::Vec3;

#[test]
fn parses_plain_decimals() {
    assert_eq!(parse_usize_or_zero(b"0"), 0);
    assert_eq!(parse_usize_or_zero(b"123"), 123);
    assert_eq!(parse_usize_or_zero(b"007"), 7);
    assert_eq!(parse_usize_or_zero(b"18446744073709551615"), usize::MAX);
}

#[test]
fn malformed_decimals_read_as_zero() {
    assert_eq!(parse_usize_or_zero(b""), 0);
    assert_eq!(parse_usize_or_zero(b"12a"), 0);
    assert_eq!(parse_usize_or_zero(b"-4"), 0);
    assert_eq!(parse_usize_or_zero(b" 1"), 0);
    // one past the machine's largest value
    assert_eq!(parse_usize_or_zero(b"18446744073709551616"), 0);
    assert_eq!(parse_usize_or_zero(b"99999999999999999999999999"), 0);
}

#[test]
fn whitespace_splitting() {
    let toks = split_ws(b"  1/2/3\t4//6  7 ");
    let toks: Vec<&[u8]> = toks.iter().map(|t| t.as_slice()).collect();
    assert_eq!(toks, vec![b"1/2/3".as_slice(), b"4//6".as_slice(), b"7".as_slice()]);
    assert_eq!(split_ws(b"").len(), 0);
    assert_eq!(split_ws(b"   ").len(), 0);
}

#[test]
fn slash_splitting_keeps_empty_fields() {
    let fields = split_slash(b"1//3");
    let fields: Vec<&[u8]> = fields.iter().map(|t| t.as_slice()).collect();
    assert_eq!(fields, vec![b"1".as_slice(), b"".as_slice(), b"3".as_slice()]);
    let lone = split_slash(b"42");
    assert_eq!(lone.len(), 1);
    assert_eq!(lone[0].as_slice(), b"42");
}

#[test]
fn face_lines_parse_into_index_triples() {
    let f = string_to_face(String::from("1/2/3 4/5/6 7/8/9"));
    assert_eq!(f.verts, [1, 4, 7]);
    assert_eq!(f.text_coords, [2, 5, 8]);
    assert_eq!(f.normals, [3, 6, 9]);
}

#[test]
fn face_lines_tolerate_missing_parts() {
    // missing fields, missing tokens and malformed numbers all read as zero
    let f = string_to_face(String::from("1//3 4"));
    assert_eq!(f.verts, [1, 4, 0]);
    assert_eq!(f.text_coords, [0, 0, 0]);
    assert_eq!(f.normals, [3, 0, 0]);

    let f = string_to_face(String::from("abc/2/x 1/1/1"));
    assert_eq!(f.verts, [0, 1, 0]);
    assert_eq!(f.text_coords, [2, 1, 0]);
    assert_eq!(f.normals, [0, 1, 0]);

    let f = string_to_face(String::from(""));
    assert_eq!(f.verts, [0, 0, 0]);
    assert_eq!(f.text_coords, [0, 0, 0]);
    assert_eq!(f.normals, [0, 0, 0]);
}

#[test]
fn signed_decimals_parse_into_fixed_point() {
    assert_eq!(parse_fixed(b"1"), Some(65536));
    assert_eq!(parse_fixed(b"-1"), Some(-65536));
    assert_eq!(parse_fixed(b"0.5"), Some(32768));
    assert_eq!(parse_fixed(b"-0.5"), Some(-32768));
    assert_eq!(parse_fixed(b"100.5"), Some(6586368));
    assert_eq!(parse_fixed(b".25"), Some(16384));
    assert_eq!(parse_fixed(b"2."), Some(131072));
    // 0.1 truncates to 6553 units (0.1 * 65536 = 6553.6)
    assert_eq!(parse_fixed(b"0.1"), Some(6553));
    // digits past the eighth fraction place are ignored
    assert_eq!(parse_fixed(b"0.100000001"), parse_fixed(b"0.10000000"));
}

#[test]
fn bad_decimals_fail_to_parse() {
    assert_eq!(parse_fixed(b""), None);
    assert_eq!(parse_fixed(b"-"), None);
    assert_eq!(parse_fixed(b"."), None);
    assert_eq!(parse_fixed(b"1.2.3"), None);
    assert_eq!(parse_fixed(b"1e5"), None);
    assert_eq!(parse_fixed(b"12a"), None);
    // beyond the coordinate range
    assert_eq!(parse_fixed(b"1073741825"), None);
}

#[test]
fn vertex_lines_parse_into_points() {
    let p = string_to_point(String::from("1.0 -2.5 0.25")).expect("parses");
    assert_eq!(p, Vec3::new(65536, -163840, 16384));
    assert_eq!(string_to_point(String::from("1.0 2.0")), None);
    assert_eq!(string_to_point(String::from("1.0 x 2.0")), None);
}

#[test]
fn obj_files_scan_into_meshes() {
    let lines = vec![
        String::from("# comment"),
        String::from("v 0.0 1.0 2.0"),
        String::from("vn 0.0 1.0 0.0"),
        String::from("v -1.5 0.5 0.25"),
        String::from("f 1/1/1 2/2/2 3/3/3"),
        String::from("s off"),
        String::from("f 2//1 3//1 1//1"),
    ];
    let obj = Obj::from_lines(&lines).expect("scans");
    assert_eq!(obj.verts.len(), 2);
    assert_eq!(obj.verts[0], Vec3::new(0, 65536, 131072));
    assert_eq!(obj.verts[1], Vec3::new(-98304, 32768, 16384));
    assert_eq!(obj.normals.len(), 1);
    assert_eq!(obj.normals[0], Vec3::new(0, 65536, 0));
    assert_eq!(obj.faces.len(), 2);
    assert_eq!(obj.faces[0].verts, [1, 2, 3]);
    assert_eq!(obj.faces[1].verts, [2, 3, 1]);
    assert_eq!(obj.faces[1].text_coords, [0, 0, 0]);
    assert_eq!(obj.faces[1].normals, [1, 1, 1]);

    // a malformed vertex line fails the whole scan
    let bad = vec![String::from("v 1.0 oops 2.0")];
    assert!(Obj::from_lines(&bad).is_none());
}

#[test]
fn colour_lines_use_the_legacy_text_form() {
    // (0.5, 1.0, 0) quantises to floor(0.5 * 255.9999) == 127, 255 and 0
    let c = Vec3::new(32768, 65536, 0);
    assert_eq!(write_colour(&c), "127 255 0\n");
    let black = Vec3::new(0, 0, 0);
    assert_eq!(write_colour(&black), "0 0 0\n");
    let mid = Vec3::new(25000, 3000, 60000);
    assert_eq!(write_colour(&mid), "97 11 234\n");
}
