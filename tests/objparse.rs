use objmesh::geometry::{Vec2, Vec3};
use objmesh::objparse::{Attribute, FlatVertex, IndexTriple, OBJ, ResolveError};
use objmesh::parser::{Keyword, ParseError, ParseErrorKind, parse_triple};

fn num(c: &Vec<u8>) -> f32 {
    std::str::from_utf8(c).unwrap().parse::<f32>().unwrap()
}

fn v3(v: &Vec3) -> [f32; 3] {
    [num(&v.x), num(&v.y), num(&v.z)]
}

fn v2(v: &Vec2) -> [f32; 2] {
    [num(&v.u), num(&v.v)]
}

fn parse(text: &str) -> Result<OBJ, ParseError> {
    OBJ::parse(text.as_bytes())
}

fn resolve(text: &str) -> Vec<FlatVertex> {
    parse(text).unwrap().resolve_all().unwrap()
}

const TEXTURED: &str = "v 0 0 0\nv 1 0 0\nv 0 1 0\n\
vn 0 0 1\nvn 0 1 0\nvn 1 0 0\n\
vt 0.25 0.5\nvt 1 0.75\nvt 0.5 1\n\
f 1/1/1 2/2/2 3/3/3\n";

#[test]
fn scenario_plain_positions() {
    let vs = resolve("v 0 0 0\nv 1 0 0\nv 0 1 0\nf 1 2 3");
    assert_eq!(vs.len(), 3);
    assert_eq!(v3(&vs[0].position), [0.0, 0.0, 0.0]);
    assert_eq!(v3(&vs[1].position), [1.0, 0.0, 0.0]);
    assert_eq!(v3(&vs[2].position), [0.0, 1.0, 0.0]);
    for v in &vs {
        assert_eq!(v3(&v.normal), [0.0, 0.0, 0.0]);
        assert_eq!(v2(&v.uv), [0.0, 0.0]);
    }
}

#[test]
fn scenario_all_attributes() {
    let vs = resolve(TEXTURED);
    assert_eq!(vs.len(), 3);
    assert_eq!(v3(&vs[0].normal), [0.0, 0.0, 1.0]);
    assert_eq!(v3(&vs[1].normal), [0.0, 1.0, 0.0]);
    assert_eq!(v3(&vs[2].normal), [1.0, 0.0, 0.0]);
    assert_eq!(v2(&vs[0].uv), [0.25, 0.5]);
    assert_eq!(v2(&vs[1].uv), [1.0, 0.75]);
    assert_eq!(v2(&vs[2].uv), [0.5, 1.0]);
    for v in &vs {
        assert_ne!(v3(&v.normal), [0.0, 0.0, 0.0]);
        assert_ne!(v2(&v.uv), [0.0, 0.0]);
    }
}

#[test]
fn scenario_uv_omitted_normal_present() {
    let vs = resolve("v 1 2 3\nv 4 5 6\nv 7 8 9\nvn 0 0 1\nvt 0.5 0.5\nf 1//1 2//1 3//1");
    assert_eq!(v3(&vs[0].position), [1.0, 2.0, 3.0]);
    assert_eq!(v2(&vs[0].uv), [0.0, 0.0]);
    assert_eq!(v3(&vs[0].normal), [0.0, 0.0, 1.0]);
    assert_eq!(parse_triple(b"1//1"), Some(IndexTriple { position: 1, uv: 0, normal: 1 }));
}

#[test]
fn scenario_missing_z() {
    let r = parse("v 1.0 2.0");
    assert_eq!(
        r.err(),
        Some(ParseError { line: 1, directive: Keyword::Position, kind: ParseErrorKind::Arity })
    );
}

#[test]
fn scenario_index_out_of_range() {
    let obj = parse("v 0 0 0\nv 1 0 0\nv 0 1 0\nf 1 2 99").unwrap();
    assert_eq!(
        obj.resolve_all().err(),
        Some(ResolveError { face: 0, attribute: Attribute::Position, index: 99 })
    );
}

#[test]
fn three_vertices_per_face() {
    let text = "v 0 0 0\nv 1 0 0\nv 0 1 0\nv 1 1 0\nf 1 2 3\nf 2 4 3\nf 1 2 4\n";
    let obj = parse(text).unwrap();
    assert_eq!(obj.faces.len(), 3);
    assert_eq!(obj.resolve_all().unwrap().len(), 9);
    let empty = parse("v 0 0 0\n# nothing else\n").unwrap();
    assert_eq!(empty.resolve_all().unwrap().len(), 0);
}

#[test]
fn position_declared_kth_is_index_k() {
    let text = "v 1 1 1\nvn 0 0 1\nv 2 2 2\nf 3 3 3\nf 3 1 2\nv 3 3 3\n";
    let obj = parse(text).unwrap();
    assert_eq!(obj.vertices.len(), 3);
    assert_eq!(v3(&obj.vertices[0]), [1.0, 1.0, 1.0]);
    assert_eq!(v3(&obj.vertices[1]), [2.0, 2.0, 2.0]);
    assert_eq!(v3(&obj.vertices[2]), [3.0, 3.0, 3.0]);
    let vs = obj.resolve_all().unwrap();
    for k in [0usize, 1, 2, 3] {
        assert_eq!(v3(&vs[k].position), [3.0, 3.0, 3.0]);
    }
    assert_eq!(v3(&vs[4].position), [1.0, 1.0, 1.0]);
    assert_eq!(v3(&vs[5].position), [2.0, 2.0, 2.0]);
}

#[test]
fn two_traversals_are_identical() {
    let obj = parse(TEXTURED).unwrap();
    let mut a = obj.iter();
    let first = a.next().unwrap().unwrap();
    let mut b = obj.iter();
    let again = b.next().unwrap().unwrap();
    assert_eq!(v3(&first.position), v3(&again.position));
    let mut rest_a = Vec::new();
    while let Some(v) = a.next() {
        rest_a.push(v.unwrap());
    }
    let mut rest_b = Vec::new();
    while let Some(v) = b.next() {
        rest_b.push(v.unwrap());
    }
    assert_eq!(rest_a.len(), 2);
    assert_eq!(rest_b.len(), 2);
    let all = obj.resolve_all().unwrap();
    for i in 0..2 {
        assert_eq!(v3(&rest_a[i].position), v3(&rest_b[i].position));
        assert_eq!(v3(&rest_a[i].normal), v3(&rest_b[i].normal));
        assert_eq!(v2(&rest_a[i].uv), v2(&rest_b[i].uv));
        assert_eq!(v3(&rest_a[i].position), v3(&all[i + 1].position));
    }
    assert!(a.next().is_none());
}

#[test]
fn omitted_normal_is_zero() {
    let vs = resolve("vn 5 5 5\nvn 6 6 6\nv 1 0 0\nv 0 1 0\nv 0 0 1\nvt 1 1\nf 1/1 2/1 3/1\n");
    for v in &vs {
        assert_eq!(v3(&v.normal), [0.0, 0.0, 0.0]);
        assert_eq!(v2(&v.uv), [1.0, 1.0]);
    }
}

#[test]
fn position_index_boundary() {
    let vs = resolve("v 0 0 0\nv 1 0 0\nv 0 1 0\nf 3 3 3");
    assert_eq!(v3(&vs[2].position), [0.0, 1.0, 0.0]);
    let past = parse("v 0 0 0\nv 1 0 0\nv 0 1 0\nf 1 2 4").unwrap();
    assert_eq!(
        past.resolve_all().err(),
        Some(ResolveError { face: 0, attribute: Attribute::Position, index: 4 })
    );
    assert_eq!(
        parse("v 0 0 0\nf 0 1 1").err(),
        Some(ParseError { line: 2, directive: Keyword::Face, kind: ParseErrorKind::Index })
    );
    assert_eq!(
        parse("v 0 0 0\nf /1/1 1 1").err(),
        Some(ParseError { line: 2, directive: Keyword::Face, kind: ParseErrorKind::Index })
    );
}

#[test]
fn normal_and_uv_out_of_range() {
    let n = parse("v 0 0 0\nvn 0 0 1\nf 1//1 1//2 1//1").unwrap();
    assert_eq!(
        n.resolve_all().err(),
        Some(ResolveError { face: 0, attribute: Attribute::Normal, index: 2 })
    );
    let t = parse("v 0 0 0\nf 1 1 1\nf 1/1 1 1").unwrap();
    assert_eq!(
        t.resolve_all().err(),
        Some(ResolveError { face: 1, attribute: Attribute::Uv, index: 1 })
    );
}

#[test]
fn faces_may_come_before_attributes() {
    let vs = resolve("f 1/1/1 2/1/1 3/1/1\nv 0 0 0\nv 1 0 0\nv 0 1 0\nvn 0 0 1\nvt 0 1\n");
    assert_eq!(vs.len(), 3);
    assert_eq!(v3(&vs[1].position), [1.0, 0.0, 0.0]);
    assert_eq!(v3(&vs[1].normal), [0.0, 0.0, 1.0]);
    assert_eq!(v2(&vs[1].uv), [0.0, 1.0]);
}

#[test]
fn other_directives_are_skipped() {
    let text = "# a comment\no cube\ng side\nusemtl brick\nmtllib cube.mtl\ns 1\n\n   \n\
v 0 0 0\nv 1 0 0\nv 0 1 0\nf 1 2 3\n";
    let obj = parse(text).unwrap();
    assert_eq!(obj.vertices.len(), 3);
    assert_eq!(obj.normals.len(), 0);
    assert_eq!(obj.uvs.len(), 0);
    assert_eq!(obj.faces.len(), 1);
}

#[test]
fn crlf_and_tabs() {
    let obj = parse("v\t1 2 3\r\nv 4 5 6\r\nv 7 8 9\r\nf 1 2 3\r\n").unwrap();
    assert_eq!(v3(&obj.vertices[0]), [1.0, 2.0, 3.0]);
    assert_eq!(obj.resolve_all().unwrap().len(), 3);
}

#[test]
fn face_arity_errors() {
    assert_eq!(
        parse("v 0 0 0\nf 1 1 1 1").err(),
        Some(ParseError { line: 2, directive: Keyword::Face, kind: ParseErrorKind::Arity })
    );
    assert_eq!(
        parse("f 1 1").err(),
        Some(ParseError { line: 1, directive: Keyword::Face, kind: ParseErrorKind::Arity })
    );
    assert_eq!(
        parse("f 1/2/3/4 1 1").err(),
        Some(ParseError { line: 1, directive: Keyword::Face, kind: ParseErrorKind::Index })
    );
    assert_eq!(
        parse("f x 2 3").err(),
        Some(ParseError { line: 1, directive: Keyword::Face, kind: ParseErrorKind::Index })
    );
}

#[test]
fn coordinate_errors() {
    assert_eq!(
        parse("v 0 0 0\n\nv a 0 0").err(),
        Some(ParseError { line: 3, directive: Keyword::Position, kind: ParseErrorKind::Number })
    );
    assert_eq!(
        parse("v 0 0 0 1").err(),
        Some(ParseError { line: 1, directive: Keyword::Position, kind: ParseErrorKind::Arity })
    );
    assert_eq!(
        parse("vn 0 0").err(),
        Some(ParseError { line: 1, directive: Keyword::Normal, kind: ParseErrorKind::Arity })
    );
    assert_eq!(
        parse("vn 0 0 1e").err(),
        Some(ParseError { line: 1, directive: Keyword::Normal, kind: ParseErrorKind::Number })
    );
    assert_eq!(
        parse("vt 1").err(),
        Some(ParseError { line: 1, directive: Keyword::Uv, kind: ParseErrorKind::Arity })
    );
    assert_eq!(
        parse("vt 1 -").err(),
        Some(ParseError { line: 1, directive: Keyword::Uv, kind: ParseErrorKind::Number })
    );
}

#[test]
fn triple_forms() {
    assert_eq!(parse_triple(b"7"), Some(IndexTriple { position: 7, uv: 0, normal: 0 }));
    assert_eq!(parse_triple(b"7/8"), Some(IndexTriple { position: 7, uv: 8, normal: 0 }));
    assert_eq!(parse_triple(b"7/8/9"), Some(IndexTriple { position: 7, uv: 8, normal: 9 }));
    assert_eq!(parse_triple(b"7/8/"), Some(IndexTriple { position: 7, uv: 8, normal: 0 }));
    assert_eq!(parse_triple(b"12//345"), Some(IndexTriple { position: 12, uv: 0, normal: 345 }));
    assert_eq!(parse_triple(b""), None);
    assert_eq!(parse_triple(b"1/0/1"), None);
    assert_eq!(parse_triple(b"-1"), None);
    assert_eq!(parse_triple(b"1/a"), None);
}

#[test]
fn resolve_single_triple() {
    let obj = parse(TEXTURED).unwrap();
    let v = obj.resolve_triple(IndexTriple { position: 2, uv: 3, normal: 0 }, 5).unwrap();
    assert_eq!(v3(&v.position), [1.0, 0.0, 0.0]);
    assert_eq!(v2(&v.uv), [0.5, 1.0]);
    assert_eq!(v3(&v.normal), [0.0, 0.0, 0.0]);
    assert_eq!(
        obj.resolve_triple(IndexTriple { position: 0, uv: 0, normal: 0 }, 5).err(),
        Some(ResolveError { face: 5, attribute: Attribute::Position, index: 0 })
    );
}

#[test]
fn attribute_streams_are_parallel() {
    let obj = parse(TEXTURED).unwrap();
    let s = obj.attribute_streams().unwrap();
    assert_eq!(s.vertex_count(), 3);
    assert_eq!(s.normals.len(), 3);
    assert_eq!(s.uvs.len(), 3);
    assert_eq!(v3(&s.positions[1]), [1.0, 0.0, 0.0]);
    assert_eq!(v3(&s.normals[1]), [0.0, 1.0, 0.0]);
    assert_eq!(v2(&s.uvs[1]), [1.0, 0.75]);
    let bad = parse("v 0 0 0\nf 1 1 2").unwrap();
    assert_eq!(
        bad.attribute_streams().err(),
        Some(ResolveError { face: 0, attribute: Attribute::Position, index: 2 })
    );
}

#[test]
fn literals_are_kept_as_written() {
    let obj = parse("v -1.5e3 .5 5.\n").unwrap();
    assert_eq!(obj.vertices[0].x, b"-1.5e3".to_vec());
    assert_eq!(v3(&obj.vertices[0]), [-1500.0, 0.5, 5.0]);
    assert_eq!(Vec3::zero().x, b"0".to_vec());
}

#[test]
fn validate_reports_first_bad_index() {
    assert_eq!(parse(TEXTURED).unwrap().validate(), Ok(()));
    let obj = parse("v 0 0 0\nvn 0 0 1\nf 1 1 1\nf 1//1 1//3 2\n").unwrap();
    assert_eq!(
        obj.validate(),
        Err(ResolveError { face: 1, attribute: Attribute::Normal, index: 3 })
    );
    assert_eq!(obj.validate().err(), obj.resolve_all().err());
}

#[test]
fn empty_document_and_exhausted_traversal() {
    let obj = OBJ::new();
    assert_eq!(obj.validate(), Ok(()));
    assert!(obj.iter().next().is_none());
    assert_eq!(obj.attribute_streams().unwrap().vertex_count(), 0);
    let one = parse("v 0 0 0\nf 1 1 1").unwrap();
    let mut it = one.iter();
    for _ in 0..3 {
        assert!(it.next().unwrap().is_ok());
    }
    assert!(it.next().is_none());
    assert!(it.next().is_none());
}
