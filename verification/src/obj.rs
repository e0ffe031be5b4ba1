//! OBJ model parsing.
//!
//! An OBJ file is line-oriented text. The lines this parser reads are
//! `v x y z` (a vertex position), `vt u v` (a texture coordinate),
//! `vn x y z` (a normal), and `f a/b/c a/b/c a/b/c` (a triangular face whose
//! corners name, with 1-based indices, a previously seen position, texture
//! coordinate and normal each). Any other line is ignored.
//!
//! The numeric payload of `v`, `vt` and `vn` lines is floating point, which
//! this library does not interpret: parsing here yields the element counts
//! and the face index lists, each index checked against the count of
//! elements seen before the face, and turned 0-based. `gather` then expands
//! any element table along such an index list.

use vstd::prelude::*;
use vstd::slice::{slice_subrange, slice_to_vec};

verus! {

/// ASCII whitespace that separates fields within a line: tab, vertical tab,
/// form feed, carriage return, space.
pub open spec fn is_space(b: u8) -> bool {
    b == 9 || b == 11 || b == 12 || b == 13 || b == 32
}

/// Index of the first line feed at or after `i`, or the end of `s`.
pub open spec fn line_end(s: Seq<u8>, i: int) -> int
    decreases s.len() - i when 0 <= i <= s.len()
{
    if i >= s.len() {
        s.len() as int
    } else if s[i] == 10 {
        i
    } else {
        line_end(s, i + 1)
    }
}

/// The first line feed is no earlier than where the search starts and no
/// later than the end of the buffer.
pub proof fn lemma_line_end_bounds(s: Seq<u8>, i: int)
    requires
        0 <= i <= s.len(),
    ensures
        i <= line_end(s, i) <= s.len(),
    decreases s.len() - i,
{
    if i < s.len() && s[i] != 10 {
        lemma_line_end_bounds(s, i + 1);
    }
}

/// A line with its trailing carriage return, if any, removed.
pub open spec fn strip_cr(l: Seq<u8>) -> Seq<u8> {
    if l.len() > 0 && l[l.len() - 1] == 13 {
        l.drop_last()
    } else {
        l
    }
}

/// The lines of `s` from position `i` on: split at line feeds, a trailing
/// carriage return removed from each line.
pub open spec fn lines_from(s: Seq<u8>, i: int) -> Seq<Seq<u8>>
    decreases s.len() + 1 - i when 0 <= i <= s.len() + 1 via lines_from_decreases
{
    if i >= s.len() {
        Seq::empty()
    } else {
        let e = line_end(s, i);
        seq![strip_cr(s.subrange(i, e))] + lines_from(s, e + 1)
    }
}

#[via_fn]
proof fn lines_from_decreases(s: Seq<u8>, i: int) {
    if 0 <= i && i < s.len() {
        lemma_line_end_bounds(s, i);
    }
}

/// The lines of `s`.
pub open spec fn spec_lines(s: Seq<u8>) -> Seq<Seq<u8>> {
    lines_from(s, 0)
}

/// Index of the first field separator at or after `i`, or the end of `l`.
pub open spec fn token_end(l: Seq<u8>, i: int) -> int
    decreases l.len() - i when 0 <= i <= l.len()
{
    if i >= l.len() || is_space(l[i]) {
        i
    } else {
        token_end(l, i + 1)
    }
}

/// The first separator is no earlier than where the search starts and no
/// later than the end of the line.
pub proof fn lemma_token_end_bounds(l: Seq<u8>, i: int)
    requires
        0 <= i <= l.len(),
    ensures
        i <= token_end(l, i) <= l.len(),
    decreases l.len() - i,
{
    if i < l.len() && !is_space(l[i]) {
        lemma_token_end_bounds(l, i + 1);
    }
}

/// The whitespace-separated fields of `l` from position `i` on.
pub open spec fn fields_from(l: Seq<u8>, i: int) -> Seq<Seq<u8>>
    decreases l.len() - i when 0 <= i <= l.len() via fields_from_decreases
{
    if i >= l.len() {
        Seq::empty()
    } else if is_space(l[i]) {
        fields_from(l, i + 1)
    } else {
        seq![l.subrange(i, token_end(l, i))] + fields_from(l, token_end(l, i))
    }
}

#[via_fn]
proof fn fields_from_decreases(l: Seq<u8>, i: int) {
    if 0 <= i && i < l.len() && !is_space(l[i]) {
        lemma_token_end_bounds(l, i + 1);
    }
}

/// The whitespace-separated fields of a line.
pub open spec fn spec_fields(l: Seq<u8>) -> Seq<Seq<u8>> {
    fields_from(l, 0)
}

/// Split a line into its whitespace-separated fields.
pub fn fields_of(line: &[u8]) -> (r: Vec<Vec<u8>>)
    ensures
        r@.map_values(|t: Vec<u8>| t@) == spec_fields(line@),
{
    let n: usize = line.len();
    let mut r: Vec<Vec<u8>> = Vec::new();
    let mut i: usize = 0;
    while i < n
        invariant
            0 <= i <= n,
            n == line@.len(),
            spec_fields(line@) == r@.map_values(|t: Vec<u8>| t@) + fields_from(line@, i as int),
        decreases n - i,
    {
        if line[i] == 9 || line[i] == 11 || line[i] == 12 || line[i] == 13 || line[i] == 32 {
            i = i + 1;
        } else {
            let mut j: usize = i + 1;
            while j < n && line[j] != 9 && line[j] != 11 && line[j] != 12 && line[j] != 13
                && line[j] != 32
                invariant
                    i < j <= n,
                    n == line@.len(),
                    token_end(line@, i as int) == token_end(line@, j as int),
                decreases n - j,
            {
                j = j + 1;
            }
            assert(token_end(line@, i as int) == j);
            let tok: Vec<u8> = slice_to_vec(slice_subrange(line, i, j));
            let ghost done = r@.map_values(|t: Vec<u8>| t@);
            r.push(tok);
            proof {
                assert(r@.map_values(|t: Vec<u8>| t@) =~= done + seq![
                    line@.subrange(i as int, j as int),
                ]);
                assert((done + seq![line@.subrange(i as int, j as int)]) + fields_from(
                    line@,
                    j as int,
                ) =~= done + (seq![line@.subrange(i as int, j as int)] + fields_from(
                    line@,
                    j as int,
                )));
            }
            i = j;
        }
    }
    proof {
        assert(r@.map_values(|t: Vec<u8>| t@) + fields_from(line@, i as int) =~= r@.map_values(
            |t: Vec<u8>| t@,
        ));
    }
    r
}

/// Why a byte buffer failed to parse as an OBJ model.
#[derive(Clone, Copy, Debug, PartialEq, Eq, Structural)]
pub enum ObjError {
    /// A `v`, `vt`, `vn` or `f` line is missing a field, or a face corner is
    /// not three decimal indices separated by two slashes.
    Malformed,
    /// A face index is zero or names an element that no preceding line of
    /// its kind declared.
    IndexOutOfRange,
}

/// An ASCII decimal digit.
pub open spec fn is_digit(b: u8) -> bool {
    48 <= b <= 57
}

/// Are the bytes of `t` from position `i` on all decimal digits?
pub open spec fn all_digits_from(t: Seq<u8>, i: int) -> bool {
    forall|j: int| i <= j < t.len() ==> is_digit(#[trigger] t[j])
}

/// The decimal value of the digits of `t` from position `i` on, appended to
/// an accumulated value `acc`.
pub open spec fn digits_val_from(t: Seq<u8>, i: int, acc: nat) -> nat
    decreases t.len() - i when 0 <= i <= t.len()
{
    if i >= t.len() {
        acc
    } else {
        digits_val_from(t, i + 1, acc * 10 + (t[i] - 48) as nat)
    }
}

/// Appending digits never shrinks the accumulated value.
pub proof fn lemma_digits_val_ge(t: Seq<u8>, i: int, acc: nat)
    requires
        0 <= i <= t.len(),
    ensures
        digits_val_from(t, i, acc) >= acc,
    decreases t.len() - i,
{
    if i < t.len() {
        lemma_digits_val_ge(t, i + 1, acc * 10 + (t[i] - 48) as nat);
    }
}

/// Is `t` a decimal numeral: an optional leading plus sign, then at least
/// one digit?
pub open spec fn is_numeral(t: Seq<u8>) -> bool {
    if t.len() > 0 && t[0] == 43 {
        t.len() > 1 && all_digits_from(t, 1)
    } else {
        t.len() > 0 && all_digits_from(t, 0)
    }
}

/// The value of the numeral `t`.
pub open spec fn numeral_val(t: Seq<u8>) -> nat {
    if t.len() > 0 && t[0] == 43 {
        digits_val_from(t, 1, 0)
    } else {
        digits_val_from(t, 0, 0)
    }
}

/// What parsing the face index `t` against a table of `limit` elements
/// yields: the 0-based index, or the failure.
pub open spec fn spec_face_index(t: Seq<u8>, limit: nat) -> Result<nat, ObjError> {
    if !is_numeral(t) {
        Err(ObjError::Malformed)
    } else if numeral_val(t) == 0 || numeral_val(t) > limit {
        Err(ObjError::IndexOutOfRange)
    } else {
        Ok((numeral_val(t) - 1) as nat)
    }
}

/// Parse a 1-based face index and turn it 0-based, against a table that
/// holds `limit` elements so far.
#[verifier::loop_isolation(false)]
pub fn parse_face_index(tok: &[u8], limit: usize) -> (r: Result<usize, ObjError>)
    ensures
        spec_face_index(tok@, limit as nat) is Ok ==> r is Ok && r->Ok_0 == spec_face_index(
            tok@,
            limit as nat,
        )->Ok_0,
        spec_face_index(tok@, limit as nat) is Err ==> r is Err && r->Err_0 == spec_face_index(
            tok@,
            limit as nat,
        )->Err_0,
{
    let n: usize = tok.len();
    let start: usize = if n > 0 && tok[0] == 43 {
        1
    } else {
        0
    };
    if n == start {
        return Err(ObjError::Malformed);
    }
    let mut i: usize = start;
    while i < n
        invariant
            start <= i <= n,
            n == tok@.len(),
            forall|j: int| start <= j < i ==> is_digit(#[trigger] tok@[j]),
        decreases n - i,
    {
        let b = tok[i];
        if b < 48 || b > 57 {
            return Err(ObjError::Malformed);
        }
        i = i + 1;
    }
    assert(is_numeral(tok@));

    let mut acc: u128 = 0;
    let mut k: usize = start;
    while k < n
        invariant
            start <= k <= n,
            n == tok@.len(),
            acc <= limit,
            forall|j: int| start <= j < n ==> is_digit(#[trigger] tok@[j]),
            numeral_val(tok@) == digits_val_from(tok@, k as int, acc as nat),
        decreases n - k,
    {
        let b = tok[k];
        acc = acc * 10 + ((b - 48) as u128);
        k = k + 1;
        if acc > (limit as u128) {
            proof {
                lemma_digits_val_ge(tok@, k as int, acc as nat);
            }
            return Err(ObjError::IndexOutOfRange);
        }
    }
    if acc == 0 {
        return Err(ObjError::IndexOutOfRange);
    }
    Ok((acc - 1) as usize)
}

/// Index of the first slash at or after `i`, or the end of `t`.
pub open spec fn find_slash(t: Seq<u8>, i: int) -> int
    decreases t.len() - i when 0 <= i <= t.len()
{
    if i >= t.len() || t[i] == 47 {
        i
    } else {
        find_slash(t, i + 1)
    }
}

/// The first slash is no earlier than where the search starts and no later
/// than the end of the field.
pub proof fn lemma_find_slash_bounds(t: Seq<u8>, i: int)
    requires
        0 <= i <= t.len(),
    ensures
        i <= find_slash(t, i) <= t.len(),
    decreases t.len() - i,
{
    if i < t.len() && t[i] != 47 {
        lemma_find_slash_bounds(t, i + 1);
    }
}

/// What parsing the face corner `t`, of the form `a/b/c`, yields against
/// tables that hold `nv` positions, `nvt` texture coordinates and `nvn`
/// normals so far: the three 0-based indices, or the first failure in the
/// order position, texture coordinate, normal.
pub open spec fn spec_face_corner(t: Seq<u8>, nv: nat, nvt: nat, nvn: nat) -> Result<
    (nat, nat, nat),
    ObjError,
> {
    let s1 = find_slash(t, 0);
    if s1 == t.len() {
        Err(ObjError::Malformed)
    } else {
        let s2 = find_slash(t, s1 + 1);
        if s2 == t.len() {
            Err(ObjError::Malformed)
        } else {
            let s3 = find_slash(t, s2 + 1);
            match spec_face_index(t.subrange(0, s1), nv) {
                Err(e) => Err(e),
                Ok(v) => match spec_face_index(t.subrange(s1 + 1, s2), nvt) {
                    Err(e) => Err(e),
                    Ok(u) => match spec_face_index(t.subrange(s2 + 1, s3), nvn) {
                        Err(e) => Err(e),
                        Ok(n) => Ok((v, u, n)),
                    },
                },
            }
        }
    }
}

/// Parse a face corner `a/b/c` against tables that hold `nv` positions,
/// `nvt` texture coordinates and `nvn` normals so far.
#[verifier::loop_isolation(false)]
pub fn parse_face_corner(tok: &[u8], nv: usize, nvt: usize, nvn: usize) -> (r: Result<
    (usize, usize, usize),
    ObjError,
>)
    ensures
        spec_face_corner(tok@, nv as nat, nvt as nat, nvn as nat) is Ok ==> r is Ok && (
        r->Ok_0.0 as nat,
            r->Ok_0.1 as nat,
            r->Ok_0.2 as nat,
        ) == spec_face_corner(tok@, nv as nat, nvt as nat, nvn as nat)->Ok_0,
        spec_face_corner(tok@, nv as nat, nvt as nat, nvn as nat) is Err ==> r is Err && r->Err_0
            == spec_face_corner(tok@, nv as nat, nvt as nat, nvn as nat)->Err_0,
{
    let n: usize = tok.len();
    let mut s1: usize = 0;
    while s1 < n && tok[s1] != 47
        invariant
            0 <= s1 <= n,
            find_slash(tok@, 0) == find_slash(tok@, s1 as int),
        decreases n - s1,
    {
        s1 = s1 + 1;
    }
    if s1 == n {
        return Err(ObjError::Malformed);
    }
    let mut s2: usize = s1 + 1;
    while s2 < n && tok[s2] != 47
        invariant
            s1 < s2 <= n,
            find_slash(tok@, s1 + 1) == find_slash(tok@, s2 as int),
        decreases n - s2,
    {
        s2 = s2 + 1;
    }
    if s2 == n {
        return Err(ObjError::Malformed);
    }
    let mut s3: usize = s2 + 1;
    while s3 < n && tok[s3] != 47
        invariant
            s2 < s3 <= n,
            find_slash(tok@, s2 + 1) == find_slash(tok@, s3 as int),
        decreases n - s3,
    {
        s3 = s3 + 1;
    }
    let v = match parse_face_index(slice_subrange(tok, 0, s1), nv) {
        Ok(v) => v,
        Err(e) => {
            return Err(e);
        },
    };
    let u = match parse_face_index(slice_subrange(tok, s1 + 1, s2), nvt) {
        Ok(u) => u,
        Err(e) => {
            return Err(e);
        },
    };
    let w = match parse_face_index(slice_subrange(tok, s2 + 1, s3), nvn) {
        Ok(w) => w,
        Err(e) => {
            return Err(e);
        },
    };
    Ok((v, u, w))
}

/// Mathematical content of a parsed OBJ model: the element counts and the
/// face index lists, indices 0-based.
pub ghost struct ObjView {
    /// How many `v` lines were seen.
    pub n_vertices: nat,
    /// How many `vt` lines were seen.
    pub n_uvs: nat,
    /// How many `vn` lines were seen.
    pub n_normals: nat,
    /// Position index of each face corner, three per face, in file order.
    pub vertex_indices: Seq<nat>,
    /// Texture-coordinate index of each face corner.
    pub uv_indices: Seq<nat>,
    /// Normal index of each face corner.
    pub normal_indices: Seq<nat>,
}

/// The state before any line is read.
pub open spec fn obj_empty() -> ObjView {
    ObjView {
        n_vertices: 0,
        n_uvs: 0,
        n_normals: 0,
        vertex_indices: Seq::empty(),
        uv_indices: Seq::empty(),
        normal_indices: Seq::empty(),
    }
}

/// How one line advances the parse state: `v`, `vt` and `vn` lines with
/// enough fields count their element; an `f` line with enough corners
/// appends its three parsed corners; any other line changes nothing.
pub open spec fn spec_line_step(st: ObjView, l: Seq<u8>) -> Result<ObjView, ObjError> {
    let fs = spec_fields(l);
    if fs.len() == 0 {
        Ok(st)
    } else if fs[0] == seq![118u8] {
        if fs.len() < 4 {
            Err(ObjError::Malformed)
        } else {
            Ok(ObjView { n_vertices: st.n_vertices + 1, ..st })
        }
    } else if fs[0] == seq![118u8, 116u8] {
        if fs.len() < 3 {
            Err(ObjError::Malformed)
        } else {
            Ok(ObjView { n_uvs: st.n_uvs + 1, ..st })
        }
    } else if fs[0] == seq![118u8, 110u8] {
        if fs.len() < 4 {
            Err(ObjError::Malformed)
        } else {
            Ok(ObjView { n_normals: st.n_normals + 1, ..st })
        }
    } else if fs[0] == seq![102u8] {
        if fs.len() < 4 {
            Err(ObjError::Malformed)
        } else {
            match spec_face_corner(fs[1], st.n_vertices, st.n_uvs, st.n_normals) {
                Err(e) => Err(e),
                Ok(c1) => match spec_face_corner(fs[2], st.n_vertices, st.n_uvs, st.n_normals) {
                    Err(e) => Err(e),
                    Ok(c2) => match spec_face_corner(
                        fs[3],
                        st.n_vertices,
                        st.n_uvs,
                        st.n_normals,
                    ) {
                        Err(e) => Err(e),
                        Ok(c3) => Ok(
                            ObjView {
                                vertex_indices: st.vertex_indices + seq![c1.0, c2.0, c3.0],
                                uv_indices: st.uv_indices + seq![c1.1, c2.1, c3.1],
                                normal_indices: st.normal_indices + seq![c1.2, c2.2, c3.2],
                                ..st
                            },
                        ),
                    },
                },
            }
        }
    } else {
        Ok(st)
    }
}

/// The parse state after the lines `ls`, starting from `st`, or the first
/// failure.
pub open spec fn parse_lines(ls: Seq<Seq<u8>>, st: ObjView) -> Result<ObjView, ObjError>
    decreases ls.len(),
{
    if ls.len() == 0 {
        Ok(st)
    } else {
        match spec_line_step(st, ls[0]) {
            Err(e) => Err(e),
            Ok(st2) => parse_lines(ls.drop_first(), st2),
        }
    }
}

/// What parsing a byte buffer as an OBJ model yields.
pub open spec fn spec_obj_parse(s: Seq<u8>) -> Result<ObjView, ObjError> {
    parse_lines(spec_lines(s), obj_empty())
}

/// A parsed OBJ model: how many positions, texture coordinates and normals
/// the file declares, and for each face corner the 0-based index of its
/// element in each table, three corners per face, in file order.
#[derive(Debug)]
pub struct ObjIndexData {
    /// How many `v` lines the file declares.
    pub n_vertices: usize,
    /// How many `vt` lines the file declares.
    pub n_uvs: usize,
    /// How many `vn` lines the file declares.
    pub n_normals: usize,
    /// Position index of each face corner.
    pub vertex_indices: Vec<usize>,
    /// Texture-coordinate index of each face corner.
    pub uv_indices: Vec<usize>,
    /// Normal index of each face corner.
    pub normal_indices: Vec<usize>,
}

impl View for ObjIndexData {
    type V = ObjView;

    open spec fn view(&self) -> ObjView {
        ObjView {
            n_vertices: self.n_vertices as nat,
            n_uvs: self.n_uvs as nat,
            n_normals: self.n_normals as nat,
            vertex_indices: self.vertex_indices@.map_values(|x: usize| x as nat),
            uv_indices: self.uv_indices@.map_values(|x: usize| x as nat),
            normal_indices: self.normal_indices@.map_values(|x: usize| x as nat),
        }
    }
}

impl ObjIndexData {
    /// An empty model: no elements, no faces.
    pub fn new() -> (r: ObjIndexData)
        ensures
            r@ == obj_empty(),
    {
        let r = ObjIndexData {
            n_vertices: 0,
            n_uvs: 0,
            n_normals: 0,
            vertex_indices: Vec::new(),
            uv_indices: Vec::new(),
            normal_indices: Vec::new(),
        };
        proof {
            assert(r.vertex_indices@.map_values(|x: usize| x as nat) =~= Seq::<nat>::empty());
            assert(r.uv_indices@.map_values(|x: usize| x as nat) =~= Seq::<nat>::empty());
            assert(r.normal_indices@.map_values(|x: usize| x as nat) =~= Seq::<nat>::empty());
        }
        r
    }

    /// Advance the parse state by one line, as `spec_line_step` says.
    pub fn step(&mut self, line: &[u8]) -> (r: Result<(), ObjError>)
        requires
            old(self).n_vertices < usize::MAX,
            old(self).n_uvs < usize::MAX,
            old(self).n_normals < usize::MAX,
        ensures
            spec_line_step(old(self)@, line@) is Ok ==> r is Ok && final(self)@ == spec_line_step(
                old(self)@,
                line@,
            )->Ok_0,
            spec_line_step(old(self)@, line@) is Err ==> r is Err && r->Err_0 == spec_line_step(
                old(self)@,
                line@,
            )->Err_0,
    {
        let ghost st = old(self)@;
        let fs: Vec<Vec<u8>> = fields_of(line);
        let ghost fspec = spec_fields(line@);
        if fs.len() == 0 {
            assert(spec_line_step(st, line@) == Ok::<ObjView, ObjError>(st));
            return Ok(());
        }
        let hdr_len = fs[0].len();
        let hdr0: u8 = if hdr_len >= 1 {
            fs[0][0]
        } else {
            0
        };
        let hdr1: u8 = if hdr_len >= 2 {
            fs[0][1]
        } else {
            0
        };
        assert(fs@[0]@ == fspec[0]);
        if hdr_len == 1 && hdr0 == 118 {
            assert(fspec[0] =~= seq![118u8]);
            if fs.len() < 4 {
                return Err(ObjError::Malformed);
            }
            self.n_vertices = self.n_vertices + 1;
            Ok(())
        } else if hdr_len == 2 && hdr0 == 118 && hdr1 == 116 {
            assert(fspec[0] =~= seq![118u8, 116u8]);
            if fs.len() < 3 {
                return Err(ObjError::Malformed);
            }
            self.n_uvs = self.n_uvs + 1;
            Ok(())
        } else if hdr_len == 2 && hdr0 == 118 && hdr1 == 110 {
            assert(fspec[0] =~= seq![118u8, 110u8]);
            if fs.len() < 4 {
                return Err(ObjError::Malformed);
            }
            self.n_normals = self.n_normals + 1;
            Ok(())
        } else if hdr_len == 1 && hdr0 == 102 {
            assert(fspec[0] =~= seq![102u8]);
            if fs.len() < 4 {
                return Err(ObjError::Malformed);
            }
            assert(fs@[1]@ == fspec[1] && fs@[2]@ == fspec[2] && fs@[3]@ == fspec[3]);
            let c1 = match parse_face_corner(
                fs[1].as_slice(),
                self.n_vertices,
                self.n_uvs,
                self.n_normals,
            ) {
                Ok(c) => c,
                Err(err) => {
                    return Err(err);
                },
            };
            let c2 = match parse_face_corner(
                fs[2].as_slice(),
                self.n_vertices,
                self.n_uvs,
                self.n_normals,
            ) {
                Ok(c) => c,
                Err(err) => {
                    return Err(err);
                },
            };
            let c3 = match parse_face_corner(
                fs[3].as_slice(),
                self.n_vertices,
                self.n_uvs,
                self.n_normals,
            ) {
                Ok(c) => c,
                Err(err) => {
                    return Err(err);
                },
            };
            let ghost old_v = self.vertex_indices@.map_values(|x: usize| x as nat);
            let ghost old_t = self.uv_indices@.map_values(|x: usize| x as nat);
            let ghost old_n = self.normal_indices@.map_values(|x: usize| x as nat);
            self.vertex_indices.push(c1.0);
            self.vertex_indices.push(c2.0);
            self.vertex_indices.push(c3.0);
            self.uv_indices.push(c1.1);
            self.uv_indices.push(c2.1);
            self.uv_indices.push(c3.1);
            self.normal_indices.push(c1.2);
            self.normal_indices.push(c2.2);
            self.normal_indices.push(c3.2);
            proof {
                assert(self.vertex_indices@.map_values(|x: usize| x as nat) =~= old_v + seq![
                    c1.0 as nat,
                    c2.0 as nat,
                    c3.0 as nat,
                ]);
                assert(self.uv_indices@.map_values(|x: usize| x as nat) =~= old_t + seq![
                    c1.1 as nat,
                    c2.1 as nat,
                    c3.1 as nat,
                ]);
                assert(self.normal_indices@.map_values(|x: usize| x as nat) =~= old_n + seq![
                    c1.2 as nat,
                    c2.2 as nat,
                    c3.2 as nat,
                ]);
            }
            Ok(())
        } else {
            assert(spec_line_step(st, line@) == Ok::<ObjView, ObjError>(st));
            Ok(())
        }
    }
}

/// Parse the text of an OBJ file.
///
/// Returns the element counts and face index lists that `spec_obj_parse`
/// gives for the buffer, or the error it gives: reading the lines in order,
/// `Malformed` when a recognised line is missing a field or a face corner is
/// not three slash-separated numerals, `IndexOutOfRange` when a face index
/// is zero or exceeds the count of elements declared before the face.
#[verifier::loop_isolation(false)]
pub fn obj_load(input: &[u8]) -> (r: Result<ObjIndexData, ObjError>)
    ensures
        spec_obj_parse(input@) is Ok ==> r is Ok && r->Ok_0@ == spec_obj_parse(input@)->Ok_0,
        spec_obj_parse(input@) is Err ==> r is Err && r->Err_0 == spec_obj_parse(input@)->Err_0,
        r is Ok ==> obj_wf(r->Ok_0@),
{
    proof {
        lemma_obj_parse_wf(input@);
    }
    let n: usize = input.len();
    let mut acc = ObjIndexData::new();
    let mut i: usize = 0;
    while i < n
        invariant
            0 <= i <= n,
            acc.n_vertices <= i,
            acc.n_uvs <= i,
            acc.n_normals <= i,
            spec_obj_parse(input@) == parse_lines(lines_from(input@, i as int), acc@),
        decreases n - i,
    {
        let ghost st = acc@;
        let mut e: usize = i;
        while e < n && input[e] != 10
            invariant
                i <= e <= n,
                line_end(input@, i as int) == line_end(input@, e as int),
            decreases n - e,
        {
            e = e + 1;
        }
        assert(line_end(input@, i as int) == e);
        let le: usize = if e > i && input[e - 1] == 13 {
            e - 1
        } else {
            e
        };
        let line: &[u8] = slice_subrange(input, i, le);
        proof {
            assert(line@ =~= strip_cr(input@.subrange(i as int, e as int)));
            assert(lines_from(input@, i as int) == seq![line@] + lines_from(input@, e + 1));
            assert((seq![line@] + lines_from(input@, e + 1)).drop_first() =~= lines_from(
                input@,
                e + 1,
            ));
        }
        match acc.step(line) {
            Ok(()) => {},
            Err(err) => {
                return Err(err);
            },
        }
        i = if e < n {
            e + 1
        } else {
            n
        };
    }
    Ok(acc)
}

/// Expand an element table along an index list: element `j` of the result
/// is `items[indices[j]]`. The face index lists of a parsed OBJ model give
/// one element per face corner this way.
pub fn gather<T: Copy>(items: &Vec<T>, indices: &Vec<usize>) -> (r: Vec<T>)
    requires
        forall|j: int| 0 <= j < indices@.len() ==> #[trigger] indices@[j] < items@.len(),
    ensures
        r@.len() == indices@.len(),
        forall|j: int| 0 <= j < indices@.len() ==> #[trigger] r@[j] == items@[indices@[j] as int],
{
    let mut r: Vec<T> = Vec::new();
    let mut k: usize = 0;
    while k < indices.len()
        invariant
            0 <= k <= indices@.len(),
            r@.len() == k,
            forall|j: int| 0 <= j < indices@.len() ==> #[trigger] indices@[j] < items@.len(),
            forall|j: int| 0 <= j < k ==> #[trigger] r@[j] == items@[indices@[j] as int],
        decreases indices@.len() - k,
    {
        r.push(items[indices[k]]);
        k = k + 1;
    }
    r
}

/// Well-formedness of a parsed model: the three index lists are equally
/// long, three entries per face, and every index names an element its table
/// holds.
pub open spec fn obj_wf(m: ObjView) -> bool {
    &&& m.vertex_indices.len() == m.uv_indices.len()
    &&& m.uv_indices.len() == m.normal_indices.len()
    &&& m.vertex_indices.len() % 3 == 0
    &&& forall|j: int|
        0 <= j < m.vertex_indices.len() ==> #[trigger] m.vertex_indices[j] < m.n_vertices
    &&& forall|j: int| 0 <= j < m.uv_indices.len() ==> #[trigger] m.uv_indices[j] < m.n_uvs
    &&& forall|j: int|
        0 <= j < m.normal_indices.len() ==> #[trigger] m.normal_indices[j] < m.n_normals
}

/// One line keeps a well-formed state well formed: a face's indices are
/// checked against the element counts of that moment, and counts never
/// shrink.
pub proof fn lemma_step_wf(st: ObjView, l: Seq<u8>)
    requires
        obj_wf(st),
        spec_line_step(st, l) is Ok,
    ensures
        obj_wf(spec_line_step(st, l)->Ok_0),
{
}

/// The lines `ls` carry a well-formed state to a well-formed state.
pub proof fn lemma_parse_lines_wf(ls: Seq<Seq<u8>>, st: ObjView)
    requires
        obj_wf(st),
        parse_lines(ls, st) is Ok,
    ensures
        obj_wf(parse_lines(ls, st)->Ok_0),
    decreases ls.len(),
{
    if ls.len() != 0 {
        match spec_line_step(st, ls[0]) {
            Ok(st2) => {
                lemma_step_wf(st, ls[0]);
                lemma_parse_lines_wf(ls.drop_first(), st2);
            },
            Err(_) => {},
        }
    }
}

/// Every model that `obj_load` returns is well formed: its three index
/// lists are equally long, three entries per face, and every face index is
/// below the count of elements of its kind, so the model's tables can be
/// expanded with `gather`.
pub proof fn lemma_obj_parse_wf(s: Seq<u8>)
    ensures
        spec_obj_parse(s) is Ok ==> obj_wf(spec_obj_parse(s)->Ok_0),
{
    if spec_obj_parse(s) is Ok {
        lemma_parse_lines_wf(spec_lines(s), obj_empty());
    }
}

} // verus!
