use vstd::prelude::*;
use crate::geometry::{Vec2, Vec3, copy_bytes};
use crate::objparse::{DocModel, Face, IndexTriple, OBJ, empty_doc};
use crate::text::{
    NEWLINE, SLASH, all_digits, decimal, is_float_literal, is_float_literal_exec, parse_decimal,
    pieces, split_on, split_words, views, words,
};

verus! {

/// The directive of a line, as its first word names it.
#[derive(Clone, Copy, Debug, PartialEq, Eq, Structural)]
pub enum Keyword {
    /// `v`
    Position,
    /// `vn`
    Normal,
    /// `vt`
    Uv,
    /// `f`
    Face,
}

/// What is wrong with a directive line.
#[derive(Clone, Copy, Debug, PartialEq, Eq, Structural)]
pub enum ParseErrorKind {
    /// Not the number of fields the directive takes.
    Arity,
    /// A coordinate that is not a floating-point literal.
    Number,
    /// A face vertex that is not `p`, `p/t`, `p/t/n` or `p//n` with positive indices.
    Index,
}

/// A malformed directive line; no document comes out of a text that holds one.
#[derive(Clone, Copy, Debug, PartialEq, Eq, Structural)]
pub struct ParseError {
    /// The line, counted from 1.
    pub line: usize,
    pub directive: Keyword,
    pub kind: ParseErrorKind,
}

/// What one line contributes to a document.
pub enum LineModel {
    Position(Seq<Seq<u8>>),
    Normal(Seq<Seq<u8>>),
    Uv(Seq<Seq<u8>>),
    Face(Seq<IndexTriple>),
    Skip,
}

/// One field of a face vertex: empty for an absent index, else a positive integer.
pub open spec fn index_field(p: Seq<u8>) -> Option<usize> {
    if p.len() == 0 {
        Some(0)
    } else if all_digits(p) && 0 < decimal(p) <= usize::MAX {
        Some(decimal(p) as usize)
    } else {
        None
    }
}

/// A face vertex `p`, `p/t` or `p/t/n`, where `t` or `n` may be left empty and `p`
/// may not.
pub open spec fn triple_spec(w: Seq<u8>) -> Option<IndexTriple> {
    let ps = pieces(w, 47);
    let p = index_field(ps[0]);
    let t = if ps.len() > 1 { index_field(ps[1]) } else { Some(0usize) };
    let n = if ps.len() > 2 { index_field(ps[2]) } else { Some(0usize) };
    if ps.len() <= 3 && p is Some && p->Some_0 > 0 && t is Some && n is Some {
        Some(IndexTriple { position: p->Some_0, uv: t->Some_0, normal: n->Some_0 })
    } else {
        None
    }
}

/// The directive's `n` coordinates, after the keyword, or why there are not.
pub open spec fn coords_spec(ws: Seq<Seq<u8>>, n: int, line: usize, k: Keyword) -> Result<
    Seq<Seq<u8>>,
    ParseError,
> {
    if ws.len() != n + 1 {
        Err(ParseError { line, directive: k, kind: ParseErrorKind::Arity })
    } else if exists|i: int| 1 <= i <= n && !is_float_literal(#[trigger] ws[i]) {
        Err(ParseError { line, directive: k, kind: ParseErrorKind::Number })
    } else {
        Ok(ws.subrange(1, n + 1))
    }
}

pub open spec fn face_spec(ws: Seq<Seq<u8>>, line: usize) -> Result<Seq<IndexTriple>, ParseError> {
    if ws.len() != 4 {
        Err(ParseError { line, directive: Keyword::Face, kind: ParseErrorKind::Arity })
    } else if exists|i: int| 1 <= i <= 3 && (#[trigger] triple_spec(ws[i])) is None {
        Err(ParseError { line, directive: Keyword::Face, kind: ParseErrorKind::Index })
    } else {
        Ok(seq![triple_spec(ws[1])->Some_0, triple_spec(ws[2])->Some_0, triple_spec(ws[3])->Some_0])
    }
}

/// What the line with words `ws`, numbered `line`, means; other directives than
/// `v`, `vn`, `vt` and `f`, and blank lines, are skipped.
pub open spec fn line_spec(ws: Seq<Seq<u8>>, line: usize) -> Result<LineModel, ParseError> {
    if ws.len() == 0 {
        Ok(LineModel::Skip)
    } else if ws[0] == seq![118u8] {
        match coords_spec(ws, 3, line, Keyword::Position) {
            Ok(c) => Ok(LineModel::Position(c)),
            Err(e) => Err(e),
        }
    } else if ws[0] == seq![118u8, 110] {
        match coords_spec(ws, 3, line, Keyword::Normal) {
            Ok(c) => Ok(LineModel::Normal(c)),
            Err(e) => Err(e),
        }
    } else if ws[0] == seq![118u8, 116] {
        match coords_spec(ws, 2, line, Keyword::Uv) {
            Ok(c) => Ok(LineModel::Uv(c)),
            Err(e) => Err(e),
        }
    } else if ws[0] == seq![102u8] {
        match face_spec(ws, line) {
            Ok(f) => Ok(LineModel::Face(f)),
            Err(e) => Err(e),
        }
    } else {
        Ok(LineModel::Skip)
    }
}

pub open spec fn apply_line(d: DocModel, m: LineModel) -> DocModel {
    match m {
        LineModel::Position(c) => DocModel { positions: d.positions.push(c), ..d },
        LineModel::Normal(c) => DocModel { normals: d.normals.push(c), ..d },
        LineModel::Uv(c) => DocModel { uvs: d.uvs.push(c), ..d },
        LineModel::Face(f) => DocModel { faces: d.faces.push(f), ..d },
        LineModel::Skip => d,
    }
}

/// The document that the lines `ls` describe, or the first malformed line.
pub open spec fn parse_lines(ls: Seq<Seq<u8>>) -> Result<DocModel, ParseError>
    decreases ls.len(),
{
    if ls.len() == 0 {
        Ok(empty_doc())
    } else {
        match parse_lines(ls.drop_last()) {
            Err(e) => Err(e),
            Ok(d) => match line_spec(words(ls.last()), ls.len() as usize) {
                Err(e) => Err(e),
                Ok(m) => Ok(apply_line(d, m)),
            },
        }
    }
}

/// The document that `text` describes, line by line.
pub open spec fn parse_spec(text: Seq<u8>) -> Result<DocModel, ParseError> {
    parse_lines(pieces(text, 10))
}

/// Once a prefix of the lines is malformed, every longer prefix fails the same way.
pub proof fn lemma_parse_err_sticks(ls: Seq<Seq<u8>>, n: int)
    requires
        0 <= n <= ls.len(),
        parse_lines(ls.take(n)) is Err,
    ensures
        parse_lines(ls) == parse_lines(ls.take(n)),
    decreases ls.len() - n,
{
    if n < ls.len() {
        assert(ls.take(n + 1).drop_last() =~= ls.take(n));
        lemma_parse_err_sticks(ls, n + 1);
    } else {
        assert(ls.take(n) =~= ls);
    }
}

fn index_field_exec(p: &[u8]) -> (r: Option<usize>)
    ensures
        r == index_field(p@),
{
    if p.len() == 0 {
        return Some(0);
    }
    match parse_decimal(p) {
        Some(v) => if v > 0 {
            Some(v)
        } else {
            None
        },
        None => None,
    }
}

/// Reads one face vertex `p[/t[/n]]`.
pub fn parse_triple(w: &[u8]) -> (r: Option<IndexTriple>)
    ensures
        r == triple_spec(w@),
{
    let ps = split_on(w, SLASH);
    proof {
        assert(views(ps@)[0] == ps@[0]@);
    }
    if ps.len() > 3 {
        return None;
    }
    let p = index_field_exec(ps[0].as_slice());
    let t = if ps.len() > 1 {
        assert(views(ps@)[1] == ps@[1]@);
        index_field_exec(ps[1].as_slice())
    } else {
        Some(0)
    };
    let n = if ps.len() > 2 {
        assert(views(ps@)[2] == ps@[2]@);
        index_field_exec(ps[2].as_slice())
    } else {
        Some(0)
    };
    match (p, t, n) {
        (Some(p), Some(t), Some(n)) => if p > 0 {
            Some(IndexTriple { position: p, uv: t, normal: n })
        } else {
            None
        },
        _ => None,
    }
}

fn is_word(w: &[u8], k: &[u8]) -> (r: bool)
    ensures
        r == (w@ == k@),
{
    if w.len() != k.len() {
        return false;
    }
    let mut i: usize = 0;
    while i < w.len()
        invariant
            i <= w.len(),
            w.len() == k.len(),
            forall|j: int| 0 <= j < i ==> w@[j] == k@[j],
        decreases w.len() - i,
    {
        if w[i] != k[i] {
            return false;
        }
        i += 1;
    }
    assert(w@ =~= k@);
    true
}

/// Checks that the line holds the keyword and `n` coordinates, and copies them.
fn parse_coords(ws: &Vec<Vec<u8>>, n: usize, line: usize, k: Keyword) -> (r: Result<Vec<Vec<u8>>, ParseError>)
    requires
        1 <= n <= 3,
    ensures
        match r {
            Ok(c) => coords_spec(views(ws@), n as int, line, k) == Ok::<Seq<Seq<u8>>, ParseError>(views(c@)),
            Err(e) => coords_spec(views(ws@), n as int, line, k) == Err::<Seq<Seq<u8>>, ParseError>(e),
        },
        r is Ok ==> r->Ok_0@.len() == n,
{
    let ghost vs = views(ws@);
    if ws.len() != n + 1 {
        return Err(ParseError { line, directive: k, kind: ParseErrorKind::Arity });
    }
    let mut out: Vec<Vec<u8>> = Vec::new();
    let mut i: usize = 1;
    assert(views(out@) =~= vs.subrange(1, 1));
    while i <= n
        invariant
            1 <= i <= n + 1,
            n <= 3,
            ws@.len() == n + 1,
            vs == views(ws@),
            views(out@) == vs.subrange(1, i as int),
            forall|j: int| 1 <= j < i ==> is_float_literal(#[trigger] vs[j]),
        decreases n + 1 - i,
    {
        assert(vs[i as int] == ws@[i as int]@);
        if !is_float_literal_exec(ws[i].as_slice()) {
            return Err(ParseError { line, directive: k, kind: ParseErrorKind::Number });
        }
        let ghost before = out@;
        out.push(copy_bytes(ws[i].as_slice()));
        assert(views(out@) =~= views(before).push(vs[i as int]));
        assert(views(out@) =~= vs.subrange(1, i + 1));
        i += 1;
    }
    Ok(out)
}

/// Checks that the line holds `f` and three face vertices, and reads them.
fn parse_face(ws: &Vec<Vec<u8>>, line: usize) -> (r: Result<Face, ParseError>)
    ensures
        match r {
            Ok(f) => face_spec(views(ws@), line) == Ok::<Seq<IndexTriple>, ParseError>(f@),
            Err(e) => face_spec(views(ws@), line) == Err::<Seq<IndexTriple>, ParseError>(e),
        },
{
    let ghost vs = views(ws@);
    if ws.len() != 4 {
        return Err(ParseError { line, directive: Keyword::Face, kind: ParseErrorKind::Arity });
    }
    assert(vs[1] == ws@[1]@ && vs[2] == ws@[2]@ && vs[3] == ws@[3]@);
    let a = parse_triple(ws[1].as_slice());
    let b = parse_triple(ws[2].as_slice());
    let c = parse_triple(ws[3].as_slice());
    match (a, b, c) {
        (Some(a), Some(b), Some(c)) => {
            let f = Face::Tri([a, b, c]);
            assert(f@ =~= seq![a, b, c]);
            Ok(f)
        },
        _ => {
            assert(triple_spec(vs[1]) is None || triple_spec(vs[2]) is None || triple_spec(vs[3]) is None);
            Err(ParseError { line, directive: Keyword::Face, kind: ParseErrorKind::Index })
        },
    }
}

fn vec3_of(c: &Vec<Vec<u8>>) -> (r: Vec3)
    requires
        c@.len() == 3,
    ensures
        r@ == views(c@),
{
    let r = Vec3::new(copy_bytes(c[0].as_slice()), copy_bytes(c[1].as_slice()), copy_bytes(c[2].as_slice()));
    assert(r@ =~= views(c@));
    r
}

fn vec2_of(c: &Vec<Vec<u8>>) -> (r: Vec2)
    requires
        c@.len() == 2,
    ensures
        r@ == views(c@),
{
    let r = Vec2::new(copy_bytes(c[0].as_slice()), copy_bytes(c[1].as_slice()));
    assert(r@ =~= views(c@));
    r
}

impl OBJ {
    /// Reads line number `line` into the document.
    fn parse_line(&mut self, text: &[u8], line: usize) -> (r: Result<(), ParseError>)
        ensures
            match r {
                Ok(()) => {
                    &&& line_spec(words(text@), line) is Ok
                    &&& final(self)@ == apply_line(old(self)@, line_spec(words(text@), line)->Ok_0)
                },
                Err(e) => line_spec(words(text@), line) == Err::<LineModel, ParseError>(e),
            },
    {
        let ws = split_words(text);
        let ghost vs = views(ws@);
        let ghost d = self@;
        if ws.len() == 0 {
            return Ok(());
        }
        assert(vs[0] == ws@[0]@);
        let kw_v: [u8; 1] = [118];
        let kw_vn: [u8; 2] = [118, 110];
        let kw_vt: [u8; 2] = [118, 116];
        let kw_f: [u8; 1] = [102];
        assert(kw_v@ =~= seq![118u8]);
        assert(kw_vn@ =~= seq![118u8, 110]);
        assert(kw_vt@ =~= seq![118u8, 116]);
        assert(kw_f@ =~= seq![102u8]);
        let head = ws[0].as_slice();
        if is_word(head, kw_v.as_slice()) {
            let c = parse_coords(&ws, 3, line, Keyword::Position)?;
            let p = vec3_of(&c);
            self.vertices.push(p);
            assert(self@.positions =~= d.positions.push(p@));
        } else if is_word(head, kw_vn.as_slice()) {
            let c = parse_coords(&ws, 3, line, Keyword::Normal)?;
            let n = vec3_of(&c);
            self.normals.push(n);
            assert(self@.normals =~= d.normals.push(n@));
        } else if is_word(head, kw_vt.as_slice()) {
            let c = parse_coords(&ws, 2, line, Keyword::Uv)?;
            let t = vec2_of(&c);
            self.uvs.push(t);
            assert(self@.uvs =~= d.uvs.push(t@));
        } else if is_word(head, kw_f.as_slice()) {
            let f = parse_face(&ws, line)?;
            self.faces.push(f);
            assert(self@.faces =~= d.faces.push(f@));
        }
        Ok(())
    }

    /// Parses an OBJ text. Fails on the first malformed `v`, `vn`, `vt` or `f` line;
    /// other lines are skipped.
    pub fn parse(text: &[u8]) -> (r: Result<OBJ, ParseError>)
        ensures
            match r {
                Ok(d) => parse_spec(text@) == Ok::<DocModel, ParseError>(d@),
                Err(e) => parse_spec(text@) == Err::<DocModel, ParseError>(e),
            },
    {
        let lines = split_on(text, NEWLINE);
        let ghost ls = views(lines@);
        let mut doc = OBJ::new();
        let mut i: usize = 0;
        assert(ls.take(0) =~= Seq::<Seq<u8>>::empty());
        while i < lines.len()
            invariant
                i <= lines@.len(),
                ls == views(lines@),
                ls == pieces(text@, 10),
                parse_lines(ls.take(i as int)) == Ok::<DocModel, ParseError>(doc@),
            decreases lines@.len() - i,
        {
            assert(ls.take(i + 1).drop_last() =~= ls.take(i as int));
            assert(ls.take(i + 1).last() == lines@[i as int]@);
            match doc.parse_line(lines[i].as_slice(), i + 1) {
                Err(e) => {
                    proof {
                        lemma_parse_err_sticks(ls, i + 1);
                    }
                    return Err(e);
                },
                Ok(()) => {},
            }
            i += 1;
        }
        assert(ls.take(lines@.len() as int) =~= ls);
        Ok(doc)
    }
}

/// The coordinates of the `v` lines among `ls`, in the order they are written.
pub open spec fn position_decls(ls: Seq<Seq<u8>>) -> Seq<Seq<Seq<u8>>>
    decreases ls.len(),
{
    if ls.len() == 0 {
        Seq::empty()
    } else {
        let rest = position_decls(ls.drop_last());
        match line_spec(words(ls.last()), ls.len() as usize) {
            Ok(LineModel::Position(c)) => rest.push(c),
            _ => rest,
        }
    }
}

/// A document parsed from some lines holds their `v` declarations as its positions.
pub proof fn lemma_parsed_positions(ls: Seq<Seq<u8>>)
    requires
        parse_lines(ls) is Ok,
    ensures
        parse_lines(ls)->Ok_0.positions == position_decls(ls),
    decreases ls.len(),
{
    if ls.len() > 0 {
        lemma_parsed_positions(ls.drop_last());
    }
}

/// The `k`-th `v` line of a text, counting from 1, is position `k` of the document
/// parsed from it, and a face vertex whose position index is `k` resolves to those
/// coordinates, whatever the faces are.
pub proof fn lemma_position_round_trip(text: Seq<u8>, d: &OBJ, k: int, t: IndexTriple, face: int)
    requires
        parse_spec(text) == Ok::<DocModel, ParseError>(d@),
        1 <= k <= position_decls(pieces(text, 10)).len(),
        t.position == k,
        t.normal <= d.normals@.len(),
        t.uv <= d.uvs@.len(),
    ensures
        d@.positions[k - 1] == position_decls(pieces(text, 10))[k - 1],
        d.resolve_spec(t, face) is Ok,
        d.resolve_spec(t, face)->Ok_0.0 == position_decls(pieces(text, 10))[k - 1],
{
    lemma_parsed_positions(pieces(text, 10));
    assert(d@.positions.len() == d.vertices@.len());
    assert(d@.positions[k - 1] == d.vertices@[k - 1]@);
}

} // verus!
