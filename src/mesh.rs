use vstd::prelude::*;

verus! {

/// All three one-based indices of `f` name one of `n` vertices.
pub open spec fn face_fits(f: [usize; 3], n: int) -> bool {
    forall|c: int| 0 <= c < 3 ==> 1 <= #[trigger] f@[c] <= n
}

/// The face at position `face` (counting from 0) names a vertex that does
/// not exist.
pub struct FaceError {
    pub face: usize,
}

/// The corners of each face, looked up by their one-based indices, in the
/// order of `faces`. Fails on the first face that names index 0 or an index
/// past the last vertex.
pub fn triangles<V: Copy>(vertexes: &Vec<V>, faces: &Vec<[usize; 3]>) -> (r: Result<
    Vec<[V; 3]>,
    FaceError,
>)
    ensures
        r is Ok <==> forall|k: int|
            0 <= k < faces@.len() ==> face_fits(#[trigger] faces@[k], vertexes@.len() as int),
        r matches Ok(t) ==> t@.len() == faces@.len() && forall|k: int, c: int|
            0 <= k < faces@.len() && 0 <= c < 3 ==> #[trigger] t@[k]@[c]
                == vertexes@[faces@[k]@[c] - 1],
        r matches Err(e) ==> e.face < faces@.len() && !face_fits(
            faces@[e.face as int],
            vertexes@.len() as int,
        ) && forall|k: int|
            0 <= k < e.face ==> face_fits(#[trigger] faces@[k], vertexes@.len() as int),
{
    let n = vertexes.len();
    let mut out: Vec<[V; 3]> = Vec::new();
    let mut k: usize = 0;
    while k < faces.len()
        invariant
            k <= faces@.len(),
            n == vertexes@.len(),
            out@.len() == k,
            forall|j: int| 0 <= j < k ==> face_fits(#[trigger] faces@[j], n as int),
            forall|j: int, c: int|
                0 <= j < k && 0 <= c < 3 ==> #[trigger] out@[j]@[c] == vertexes@[faces@[j]@[c]
                    - 1],
        decreases faces@.len() - k,
    {
        let f = faces[k];
        if f[0] == 0 || f[0] > n || f[1] == 0 || f[1] > n || f[2] == 0 || f[2] > n {
            assert(!face_fits(faces@[k as int], n as int)) by {
                if f[0] == 0 || f[0] > n {
                    assert(!(1 <= f@[0] <= n));
                } else if f[1] == 0 || f[1] > n {
                    assert(!(1 <= f@[1] <= n));
                } else {
                    assert(!(1 <= f@[2] <= n));
                }
            }
            return Err(FaceError { face: k });
        }
        let t = [vertexes[f[0] - 1], vertexes[f[1] - 1], vertexes[f[2] - 1]];
        out.push(t);
        assert(face_fits(f, n as int));
        k = k + 1;
    }
    Ok(out)
}

} // verus!
