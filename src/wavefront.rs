use vstd::prelude::*;
use crate::decimal::{is_usize_token, parse_usize, usize_token_value};

verus! {

/// The characters that `str::split_ascii_whitespace` splits at.
pub open spec fn is_ascii_space(c: char) -> bool {
    c == ' ' || c == '\t' || c == '\n' || c == '\u{0C}' || c == '\r'
}

/// The text cut at every line break: the pieces between breaks, in order,
/// empty ones included (the empty text is one empty piece). A piece that is
/// empty, or holds only spaces, carries no words and so adds no record.
pub open spec fn line_pieces(s: Seq<char>) -> Seq<Seq<char>>
    decreases s.len(),
{
    if s.len() == 0 {
        seq![Seq::empty()]
    } else {
        let p = line_pieces(s.drop_last());
        if s.last() == '\n' {
            p.push(Seq::empty())
        } else {
            p.update(p.len() - 1, p.last().push(s.last()))
        }
    }
}

/// The maximal runs of characters other than ASCII spaces, in order.
pub open spec fn words(s: Seq<char>) -> Seq<Seq<char>>
    decreases s.len(),
{
    if s.len() == 0 {
        Seq::empty()
    } else {
        let w = words(s.drop_last());
        let c = s.last();
        if is_ascii_space(c) {
            w
        } else if s.len() >= 2 && !is_ascii_space(s[s.len() - 2]) {
            w.update(w.len() - 1, w.last().push(c))
        } else {
            w.push(seq![c])
        }
    }
}

/// Four words, the first of which is the one-letter `tag`.
pub open spec fn is_tagged(w: Seq<Seq<char>>, tag: char) -> bool {
    w.len() == 4 && w[0] == seq![tag]
}

/// A face line (`f a b c`) one of whose indices does not read as a `usize`.
pub open spec fn is_bad_face_line(line: Seq<char>) -> bool {
    let w = words(line);
    is_tagged(w, 'f') && !(is_usize_token(w[1]) && is_usize_token(w[2]) && is_usize_token(
        w[3],
    ))
}

/// The three vertex indices of a face line.
pub open spec fn face_of(w: Seq<Seq<char>>) -> Seq<int> {
    seq![usize_token_value(w[1]), usize_token_value(w[2]), usize_token_value(w[3])]
}

/// The coordinate tokens of each vertex line (`v x y z`) among `lines`, in order.
pub open spec fn vertex_records(lines: Seq<Seq<char>>) -> Seq<Seq<Seq<char>>>
    decreases lines.len(),
{
    if lines.len() == 0 {
        Seq::empty()
    } else {
        let rest = vertex_records(lines.drop_last());
        let w = words(lines.last());
        if is_tagged(w, 'v') {
            rest.push(w.subrange(1, 4))
        } else {
            rest
        }
    }
}

/// The indices of each face line (`f a b c`) among `lines`, in order.
pub open spec fn face_records(lines: Seq<Seq<char>>) -> Seq<Seq<int>>
    decreases lines.len(),
{
    if lines.len() == 0 {
        Seq::empty()
    } else {
        let rest = face_records(lines.drop_last());
        let w = words(lines.last());
        if is_tagged(w, 'f') {
            rest.push(face_of(w))
        } else {
            rest
        }
    }
}

/// The characters of each word.
pub open spec fn char_views(v: Seq<Vec<char>>) -> Seq<Seq<char>> {
    v.map_values(|w: Vec<char>| w@)
}

/// The coordinate texts of each vertex.
pub open spec fn vertex_view(v: Seq<[String; 3]>) -> Seq<Seq<Seq<char>>> {
    v.map_values(|a: [String; 3]| seq![a@[0]@, a@[1]@, a@[2]@])
}

/// The indices of each face, as numbers.
pub open spec fn face_view(f: Seq<[usize; 3]>) -> Seq<Seq<int>> {
    f.map_values(|a: [usize; 3]| seq![a@[0] as int, a@[1] as int, a@[2] as int])
}

/// The records of a Wavefront OBJ text that a mesh needs. A vertex keeps its
/// three coordinates as the text they were written in.
pub struct Obj {
    pub vertexes: Vec<[String; 3]>,
    pub faces: Vec<[usize; 3]>,
}

/// A face line whose vertex indices do not all read as numbers; `line`
/// counts from 1.
pub struct ObjError {
    pub line: usize,
}

impl Obj {
    pub open spec fn vertex_tokens(&self) -> Seq<Seq<Seq<char>>> {
        vertex_view(self.vertexes@)
    }

    pub open spec fn face_indices(&self) -> Seq<Seq<int>> {
        face_view(self.faces@)
    }
}

/// Relies on String::push: appends `c` at the end of `s`.
#[verifier::external_body]
fn push_char(s: &mut String, c: char)
    ensures
        final(s)@ == old(s)@.push(c),
{
    s.push(c)
}

fn string_of(v: &Vec<char>) -> (r: String)
    ensures
        r@ == v@,
{
    let mut r = String::new();
    let mut i: usize = 0;
    while i < v.len()
        invariant
            i <= v@.len(),
            r@ == v@.subrange(0, i as int),
        decreases v@.len() - i,
    {
        push_char(&mut r, v[i]);
        assert(v@.subrange(0, i + 1) =~= v@.subrange(0, i as int).push(v@[i as int]));
        i = i + 1;
    }
    assert(v@.subrange(0, v@.len() as int) =~= v@);
    r
}

fn chars_of(s: &str) -> (r: Vec<char>)
    ensures
        r@ == s@,
{
    let mut r: Vec<char> = Vec::new();
    for c in it: s.chars()
        invariant
            r@ == it.seq().subrange(0, it.index() as int),
    {
        r.push(c);
    }
    r
}

/// The words of `text[start..end]`.
fn line_words(text: &Vec<char>, start: usize, end: usize) -> (r: Vec<Vec<char>>)
    requires
        start <= end <= text@.len(),
    ensures
        char_views(r@) == words(text@.subrange(start as int, end as int)),
{
    let mut done: Vec<Vec<char>> = Vec::new();
    let mut cur: Vec<char> = Vec::new();
    let mut k: usize = start;
    while k < end
        invariant
            start <= k <= end <= text@.len(),
            words(text@.subrange(start as int, k as int)) == if cur@.len() > 0 {
                char_views(done@).push(cur@)
            } else {
                char_views(done@)
            },
            (cur@.len() > 0) == (k > start && !is_ascii_space(text@[k - 1])),
        decreases end - k,
    {
        let ghost pre = text@.subrange(start as int, k as int);
        let ghost next = text@.subrange(start as int, k + 1);
        assert(next.drop_last() =~= pre);
        assert(next.last() == text@[k as int]);
        let c = text[k];
        if c == ' ' || c == '\t' || c == '\n' || c == '\u{0C}' || c == '\r' {
            if cur.len() > 0 {
                let ghost before = char_views(done@);
                done.push(cur);
                assert(char_views(done@) =~= before.push(cur@));
                cur = Vec::new();
            }
        } else {
            if cur.len() > 0 {
                assert(next[next.len() - 2] == text@[k - 1]);
                let ghost w = char_views(done@).push(cur@);
                cur.push(c);
                assert(w.update(w.len() - 1, w.last().push(c)) =~= char_views(done@).push(cur@));
            } else {
                cur.push(c);
                assert(cur@ =~= seq![c]);
            }
        }
        k = k + 1;
    }
    if cur.len() > 0 {
        let ghost before = char_views(done@);
        done.push(cur);
        assert(char_views(done@) =~= before.push(cur@));
    }
    done
}

/// Adds the record of the line `text[start..end]`, if it is one, to
/// `vertexes` or `faces`; false (and nothing added) for a face line whose
/// indices do not all read as numbers.
fn read_line(
    text: &Vec<char>,
    start: usize,
    end: usize,
    vertexes: &mut Vec<[String; 3]>,
    faces: &mut Vec<[usize; 3]>,
) -> (ok: bool)
    requires
        start <= end <= text@.len(),
    ensures
        ({
            let line = text@.subrange(start as int, end as int);
            let w = words(line);
            &&& ok == !is_bad_face_line(line)
            &&& ok ==> vertex_view(final(vertexes)@) == if is_tagged(w, 'v') {
                vertex_view(old(vertexes)@).push(w.subrange(1, 4))
            } else {
                vertex_view(old(vertexes)@)
            }
            &&& ok ==> face_view(final(faces)@) == if is_tagged(w, 'f') {
                face_view(old(faces)@).push(face_of(w))
            } else {
                face_view(old(faces)@)
            }
        }),
{
    let ws = line_words(text, start, end);
    let ghost w = words(text@.subrange(start as int, end as int));
    assert(ws@.len() == w.len());
    if ws.len() == 4 && ws[0].len() == 1 {
        assert(w[0] == ws@[0]@);
        if ws[0][0] == 'v' {
            assert(w[0] =~= seq!['v']);
            let ghost before = vertex_view(vertexes@);
            let v = [string_of(&ws[1]), string_of(&ws[2]), string_of(&ws[3])];
            vertexes.push(v);
            assert(w.subrange(1, 4) =~= seq![w[1], w[2], w[3]]);
            assert(vertex_view(vertexes@) =~= before.push(w.subrange(1, 4)));
            return true;
        } else if ws[0][0] == 'f' {
            assert(w[0] =~= seq!['f']);
            assert(w[1] == ws@[1]@ && w[2] == ws@[2]@ && w[3] == ws@[3]@);
            let a = parse_usize(&ws[1]);
            let b = parse_usize(&ws[2]);
            let c = parse_usize(&ws[3]);
            match (a, b, c) {
                (Some(a), Some(b), Some(c)) => {
                    let ghost before = face_view(faces@);
                    faces.push([a, b, c]);
                    assert(face_view(faces@) =~= before.push(face_of(w)));
                    return true;
                },
                _ => {
                    return false;
                },
            }
        } else {
            assert(w[0] != seq!['v'] && w[0] != seq!['f']) by {
                assert(seq!['v'][0] == 'v');
                assert(seq!['f'][0] == 'f');
            }
        }
    } else {
        if ws.len() == 4 {
            assert(w[0] != seq!['v'] && w[0] != seq!['f']) by {
                assert(seq!['v'].len() == 1);
                assert(seq!['f'].len() == 1);
            }
        }
    }
    true
}

proof fn lemma_line_pieces_nonempty(s: Seq<char>)
    ensures
        line_pieces(s).len() >= 1,
    decreases s.len(),
{
    if s.len() > 0 {
        lemma_line_pieces_nonempty(s.drop_last());
    }
}

/// The pieces of a prefix, but for the last one which may still grow, are
/// pieces of the whole text.
proof fn lemma_line_pieces_prefix(s: Seq<char>, j: int)
    requires
        0 <= j <= s.len(),
    ensures
        line_pieces(s).len() >= line_pieces(s.subrange(0, j)).len(),
        forall|k: int|
            0 <= k < line_pieces(s.subrange(0, j)).len() - 1 ==> #[trigger] line_pieces(s)[k]
                == line_pieces(s.subrange(0, j))[k],
    decreases s.len(),
{
    if j == s.len() {
        assert(s.subrange(0, j) =~= s);
    } else {
        let t = s.drop_last();
        assert(t.subrange(0, j) =~= s.subrange(0, j));
        lemma_line_pieces_prefix(t, j);
        lemma_line_pieces_nonempty(t);
    }
}

impl Obj {
    /// Reads the vertex lines (`v x y z`) and face lines (`f a b c`) of a
    /// Wavefront OBJ text. Lines are cut at `\n` and split into words at
    /// ASCII spaces; a line of four words whose first is `v` or `f` is a
    /// record, every other line is skipped. Face indices are one-based and
    /// are not checked against the vertices here.
    pub fn from_string(buffer: &str) -> (r: Result<Obj, ObjError>)
        ensures
            ({
                let lines = line_pieces(buffer@);
                &&& r is Ok <==> forall|k: int|
                    0 <= k < lines.len() ==> !is_bad_face_line(#[trigger] lines[k])
                &&& r matches Ok(obj) ==> obj.vertex_tokens() == vertex_records(lines)
                    && obj.face_indices() == face_records(lines)
                &&& r matches Err(e) ==> 1 <= e.line <= lines.len() && is_bad_face_line(
                    lines[e.line - 1],
                ) && forall|k: int| 0 <= k < e.line - 1 ==> !is_bad_face_line(#[trigger] lines[k])
            }),
    {
        let text = chars_of(buffer);
        let n = text.len();
        let mut vertexes: Vec<[String; 3]> = Vec::new();
        let mut faces: Vec<[usize; 3]> = Vec::new();
        let mut line_start: usize = 0;
        let mut line_no: usize = 0;
        let mut i: usize = 0;
        proof {
            assert(text@.subrange(0, 0) =~= Seq::<char>::empty());
        }
        while i < n
            invariant
                n == text@.len(),
                text@ == buffer@,
                line_start <= i <= n,
                line_no <= line_start,
                ({
                    let p = line_pieces(text@.subrange(0, i as int));
                    &&& p.len() == line_no + 1
                    &&& p.last() == text@.subrange(line_start as int, i as int)
                    &&& vertex_view(vertexes@) == vertex_records(p.drop_last())
                    &&& face_view(faces@) == face_records(p.drop_last())
                    &&& forall|k: int| 0 <= k < line_no ==> !is_bad_face_line(#[trigger] p[k])
                }),
            decreases n - i,
        {
            let ghost p = line_pieces(text@.subrange(0, i as int));
            let ghost q = line_pieces(text@.subrange(0, i + 1));
            assert(text@.subrange(0, i + 1).drop_last() =~= text@.subrange(0, i as int));
            if text[i] == '\n' {
                assert(q == p.push(Seq::<char>::empty()));
                assert(q.drop_last() =~= p);
                assert(p.drop_last().push(p.last()) =~= p);
                let ok = read_line(&text, line_start, i, &mut vertexes, &mut faces);
                if !ok {
                    proof {
                        lemma_line_pieces_prefix(text@, i + 1);
                        assert(q[line_no as int] == p.last());
                        assert(forall|k: int| 0 <= k < line_no ==> p[k] == q[k]);
                        assert(forall|k: int|
                            0 <= k <= line_no ==> line_pieces(buffer@)[k] == q[k]);
                    }
                    return Err(ObjError { line: line_no + 1 });
                }
                assert(forall|k: int| 0 <= k < line_no ==> p[k] == q[k]);
                line_no = line_no + 1;
                line_start = i + 1;
                assert(q.last() =~= text@.subrange(line_start as int, i + 1));
            } else {
                assert(q == p.update(p.len() - 1, p.last().push(text@[i as int])));
                assert(q.drop_last() =~= p.drop_last());
                assert(q.last() =~= text@.subrange(line_start as int, i + 1));
                assert(forall|k: int| 0 <= k < line_no ==> p[k] == q[k]);
            }
            i = i + 1;
        }
        let ghost p = line_pieces(text@.subrange(0, n as int));
        assert(text@.subrange(0, n as int) =~= buffer@);
        proof {
            lemma_line_pieces_nonempty(text@.subrange(0, n as int));
        }
        assert(p.drop_last().push(p.last()) =~= p);
        let ok = read_line(&text, line_start, n, &mut vertexes, &mut faces);
        if !ok {
            assert(p[line_no as int] == p.last());
            if line_start == n {
                assert(text@.subrange(line_start as int, n as int) =~= Seq::<char>::empty());
                assert(words(Seq::<char>::empty()).len() == 0);
            }
            return Err(ObjError { line: line_no + 1 });
        }
        Ok(Obj { vertexes, faces })
    }
}

} // verus!
