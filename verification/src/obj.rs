//! The line-based triangle-mesh text format: vertex lines (`v x y z`),
//! texture-coordinate lines (`vt u v`), and triangular face lines (`f`)
//! with 1-based indices, either bare or as `vertex/texcoord` pairs. The
//! parser works on bytes and yields the flat triangle list, or nothing on
//! the first malformed line.

use vstd::prelude::*;
use crate::fx::FX_ONE;
use crate::geometry::{tex2_small, tri_mesh_ok, vec3_small, Triangle, Vec2d, Vec3d};

verus! {

/// The byte string split at every line feed; a trailing fragment without a
/// line feed is a line of its own, and an empty string has no lines.
pub open spec fn split_lines_acc(s: Seq<u8>, cur: Seq<u8>) -> Seq<Seq<u8>>
    decreases s.len(),
{
    if s.len() == 0 {
        if cur.len() == 0 {
            Seq::empty()
        } else {
            seq![cur]
        }
    } else if s[0] == 10 {
        seq![cur] + split_lines_acc(s.drop_first(), Seq::empty())
    } else {
        split_lines_acc(s.drop_first(), cur.push(s[0]))
    }
}

pub open spec fn split_lines_spec(s: Seq<u8>) -> Seq<Seq<u8>> {
    split_lines_acc(s, Seq::empty())
}

/// A byte string split at every occurrence of 'sep'; empty tokens are
/// kept, and the empty string is one empty token.
pub open spec fn split_byte_acc(s: Seq<u8>, sep: u8, cur: Seq<u8>) -> Seq<Seq<u8>>
    decreases s.len(),
{
    if s.len() == 0 {
        seq![cur]
    } else if s[0] == sep {
        seq![cur] + split_byte_acc(s.drop_first(), sep, Seq::empty())
    } else {
        split_byte_acc(s.drop_first(), sep, cur.push(s[0]))
    }
}

/// A line split at every space.
pub open spec fn split_sp_spec(s: Seq<u8>) -> Seq<Seq<u8>> {
    split_byte_acc(s, 32, Seq::empty())
}

/// A token split at every slash, the shape of a `vertex/texcoord` pair.
pub open spec fn split_sl_spec(s: Seq<u8>) -> Seq<Seq<u8>> {
    split_byte_acc(s, 47, Seq::empty())
}

/// A carriage return at the end of a line is dropped.
pub open spec fn strip_cr_spec(l: Seq<u8>) -> Seq<u8> {
    if l.len() > 0 && l[l.len() - 1] == 13 {
        l.drop_last()
    } else {
        l
    }
}

pub open spec fn is_digit(c: u8) -> bool {
    48 <= c <= 57
}

/// The scan of a decimal number body: integer digits, at most one dot,
/// fraction digits. The integer part is capped at 32767 units; fraction
/// digits beyond the seventh are ignored. Yields the integer part, the
/// fraction digits' value, their count, and how many digits were seen.
pub open spec fn fx_scan(s: Seq<u8>, seen_dot: bool, ip: int, fp: int, k: int, nd: int) -> Option<
    (int, int, int, int),
>
    decreases s.len(),
{
    if s.len() == 0 {
        Some((ip, fp, k, nd))
    } else if s[0] == 46 {
        if seen_dot {
            None
        } else {
            fx_scan(s.drop_first(), true, ip, fp, k, nd)
        }
    } else if is_digit(s[0]) {
        if seen_dot {
            if k >= 7 {
                fx_scan(s.drop_first(), true, ip, fp, k, nd + 1)
            } else {
                fx_scan(s.drop_first(), true, ip, fp * 10 + (s[0] - 48), k + 1, nd + 1)
            }
        } else {
            if ip * 10 + (s[0] - 48) > 32767 {
                None
            } else {
                fx_scan(s.drop_first(), false, ip * 10 + (s[0] - 48), fp, k, nd + 1)
            }
        }
    } else {
        None
    }
}

pub open spec fn pow10(k: int) -> int
    decreases k,
{
    if k <= 0 {
        1int
    } else {
        10 * pow10(k - 1)
    }
}

/// The first eight powers of ten, spelled out for the scanner's bounds.
pub proof fn lemma_pow10_small()
    ensures
        pow10(0) == 1,
        pow10(1) == 10,
        pow10(2) == 100,
        pow10(3) == 1000,
        pow10(4) == 10000,
        pow10(5) == 100000,
        pow10(6) == 1000000,
        pow10(7) == 10000000,
{
    assert(pow10(0) == 1);
    assert(pow10(1) == 10);
    assert(pow10(2) == 100);
    assert(pow10(3) == 1000);
    assert(pow10(4) == 10000);
    assert(pow10(5) == 100000);
    assert(pow10(6) == 1000000);
    assert(pow10(7) == 10000000);
}

/// The raw value a decimal token stands for: an optional minus sign, then
/// digits with at most one dot; the fraction is truncated to the scalar's
/// precision. A token out of the coordinate range, or without a digit, is
/// refused.
pub open spec fn parse_fx_spec(t: Seq<u8>) -> Option<i64> {
    let neg = t.len() > 0 && t[0] == 45;
    let body = if neg {
        t.drop_first()
    } else {
        t
    };
    match fx_scan(body, false, 0, 0, 0, 0) {
        None => None,
        Some((ip, fp, k, nd)) => {
            if nd == 0 {
                None
            } else {
                let raw = ip * 65536 + (fp * 65536) / pow10(k);
                if neg {
                    Some((-raw) as i64)
                } else {
                    Some(raw as i64)
                }
            }
        },
    }
}

/// The scan of an unsigned index: digits only, capped at a billion.
pub open spec fn idx_scan(s: Seq<u8>, acc: int, nd: int) -> Option<(int, int)>
    decreases s.len(),
{
    if s.len() == 0 {
        Some((acc, nd))
    } else if is_digit(s[0]) {
        if acc * 10 + (s[0] - 48) > 1000000000 {
            None
        } else {
            idx_scan(s.drop_first(), acc * 10 + (s[0] - 48), nd + 1)
        }
    } else {
        None
    }
}

/// The value of an index token: digits only, at least one.
pub open spec fn parse_idx_spec(t: Seq<u8>) -> Option<usize> {
    match idx_scan(t, 0, 0) {
        None => None,
        Some((acc, nd)) => {
            if nd == 0 {
                None
            } else {
                Some(acc as usize)
            }
        },
    }
}

/// The parser's growing state: the vertices, the texture coordinates and
/// the triangles read so far.
pub struct ObjState {
    pub verts: Seq<Vec3d>,
    pub texs: Seq<Vec2d>,
    pub tris: Seq<Triangle>,
}

/// What one line contributes to the parse: a vertex, a texture coordinate,
/// a face's triangle, or nothing; a malformed vertex, coordinate or face
/// line fails the whole parse.
pub open spec fn obj_step(st: ObjState, line_raw: Seq<u8>, has_tex: bool) -> Option<ObjState> {
    let line = strip_cr_spec(line_raw);
    if line.len() >= 2 && line[0] == 118 && line[1] == 32 {
        let toks = split_sp_spec(line);
        if toks.len() < 4 {
            None
        } else {
            match (parse_fx_spec(toks[1]), parse_fx_spec(toks[2]), parse_fx_spec(toks[3])) {
                (Some(x), Some(y), Some(z)) => Some(
                    ObjState {
                        verts: st.verts.push(Vec3d { x, y, z, w: FX_ONE }),
                        texs: st.texs,
                        tris: st.tris,
                    },
                ),
                _ => None,
            }
        }
    } else if line.len() >= 2 && line[0] == 118 && line[1] == 116 {
        let toks = split_sp_spec(line);
        if toks.len() < 3 {
            None
        } else {
            match (parse_fx_spec(toks[1]), parse_fx_spec(toks[2])) {
                (Some(u), Some(v)) => Some(
                    ObjState {
                        verts: st.verts,
                        texs: st.texs.push(Vec2d { u, v, w: FX_ONE }),
                        tris: st.tris,
                    },
                ),
                _ => None,
            }
        }
    } else if line.len() >= 2 && line[0] == 102 && line[1] == 32 {
        let toks = split_sp_spec(line);
        if !has_tex {
            if toks.len() < 4 {
                None
            } else {
                match (parse_idx_spec(toks[1]), parse_idx_spec(toks[2]), parse_idx_spec(toks[3])) {
                    (Some(f0), Some(f1), Some(f2)) => {
                        if 1 <= f0 <= st.verts.len() && 1 <= f1 <= st.verts.len() && 1 <= f2
                            <= st.verts.len() {
                            Some(
                                ObjState {
                                    verts: st.verts,
                                    texs: st.texs,
                                    tris: st.tris.push(
                                        Triangle {
                                            points: [
                                                st.verts[f0 - 1],
                                                st.verts[f1 - 1],
                                                st.verts[f2 - 1],
                                            ],
                                            texture_points: Triangle::zero().texture_points,
                                        },
                                    ),
                                },
                            )
                        } else {
                            None
                        }
                    },
                    _ => None,
                }
            }
        } else {
            if toks.len() != 4 {
                None
            } else {
                let c0 = split_sl_spec(toks[1]);
                let c1 = split_sl_spec(toks[2]);
                let c2 = split_sl_spec(toks[3]);
                if c0.len() < 2 || c1.len() < 2 || c2.len() < 2 {
                    None
                } else {
                    match (
                        parse_idx_spec(c0[0]),
                        parse_idx_spec(c0[1]),
                        parse_idx_spec(c1[0]),
                        parse_idx_spec(c1[1]),
                        parse_idx_spec(c2[0]),
                        parse_idx_spec(c2[1]),
                    ) {
                        (Some(f0), Some(t0), Some(f1), Some(t1), Some(f2), Some(t2)) => {
                            if 1 <= f0 <= st.verts.len() && 1 <= f1 <= st.verts.len() && 1 <= f2
                                <= st.verts.len() && 1 <= t0 <= st.texs.len() && 1 <= t1
                                <= st.texs.len() && 1 <= t2 <= st.texs.len() {
                                Some(
                                    ObjState {
                                        verts: st.verts,
                                        texs: st.texs,
                                        tris: st.tris.push(
                                            Triangle {
                                                points: [
                                                    st.verts[f0 - 1],
                                                    st.verts[f1 - 1],
                                                    st.verts[f2 - 1],
                                                ],
                                                texture_points: [
                                                    st.texs[t0 - 1],
                                                    st.texs[t1 - 1],
                                                    st.texs[t2 - 1],
                                                ],
                                            },
                                        ),
                                    },
                                )
                            } else {
                                None
                            }
                        },
                        _ => None,
                    }
                }
            }
        }
    } else {
        Some(st)
    }
}

/// The parse folded over the lines from position 'i' on.
pub open spec fn obj_fold(lines: Seq<Seq<u8>>, i: int, st: ObjState, has_tex: bool) -> Option<
    ObjState,
>
    decreases lines.len() - i,
{
    if i < 0 || i >= lines.len() {
        Some(st)
    } else {
        match obj_step(st, lines[i], has_tex) {
            None => None,
            Some(st2) => obj_fold(lines, i + 1, st2, has_tex),
        }
    }
}

/// What a byte string parses to: the triangles of its face lines, or
/// nothing when some vertex, coordinate or face line is malformed.
pub open spec fn parse_obj_spec(bytes: Seq<u8>, has_tex: bool) -> Option<Seq<Triangle>> {
    match obj_fold(
        split_lines_spec(bytes),
        0,
        ObjState { verts: Seq::empty(), texs: Seq::empty(), tris: Seq::empty() },
        has_tex,
    ) {
        None => None,
        Some(st) => Some(st.tris),
    }
}

/// Every parsed vertex lies in the coordinate range with a homogeneous W of
/// one.
pub open spec fn verts_ok(vs: Seq<Vec3d>) -> bool {
    forall|i: int|
        0 <= i < vs.len() ==> (vec3_small(#[trigger] vs[i]) && vs[i].w == FX_ONE)
}

/// Every parsed texture coordinate lies in the coordinate range.
pub open spec fn texs_ok(ts: Seq<Vec2d>) -> bool {
    forall|i: int| 0 <= i < ts.len() ==> tex2_small(#[trigger] ts[i])
}

/// Every parsed triangle is fit for the pipeline.
pub open spec fn tris_ok(ts: Seq<Triangle>) -> bool {
    forall|i: int| 0 <= i < ts.len() ==> tri_mesh_ok(#[trigger] ts[i])
}

/// Split the bytes at every line feed.
fn split_lines(file: &[u8]) -> (r: Vec<Vec<u8>>)
    ensures
        r.deep_view() == split_lines_spec(file@),
{
    let mut out: Vec<Vec<u8>> = Vec::new();
    let mut cur: Vec<u8> = Vec::new();
    let mut i: usize = 0;
    proof {
        assert(file@.skip(0) =~= file@);
    }
    while i < file.len()
        invariant
            i <= file@.len(),
            split_lines_spec(file@) =~~= out.deep_view() + split_lines_acc(
                file@.skip(i as int),
                cur@,
            ),
        decreases file@.len() - i,
    {
        let c = file[i];
        proof {
            assert(file@.skip(i as int).drop_first() =~= file@.skip(i + 1));
        }
        if c == 10 {
            let ghost out_snap = out.deep_view();
            let ghost cur_snap = cur@;
            out.push(cur);
            cur = Vec::new();
            proof {
                assert(out.deep_view() =~~= out_snap.push(cur_snap));
                assert(out_snap + (seq![cur_snap] + split_lines_acc(file@.skip(i + 1), cur@))
                    =~~= out.deep_view() + split_lines_acc(file@.skip(i + 1), cur@));
            }
        } else {
            cur.push(c);
        }
        i = i + 1;
    }
    proof {
        assert(file@.skip(file@.len() as int) =~= Seq::<u8>::empty());
    }
    if cur.len() > 0 {
        let ghost out_snap = out.deep_view();
        let ghost cur_snap = cur@;
        out.push(cur);
        proof {
            assert(out.deep_view() =~~= out_snap.push(cur_snap));
            assert(out_snap + seq![cur_snap] =~~= out.deep_view());
        }
    }
    out
}

/// Split a line at every occurrence of 'sep', keeping empty tokens.
fn split_byte(line: &[u8], sep: u8) -> (r: Vec<Vec<u8>>)
    ensures
        r.deep_view() == split_byte_acc(line@, sep, Seq::empty()),
{
    let mut out: Vec<Vec<u8>> = Vec::new();
    let mut cur: Vec<u8> = Vec::new();
    let mut i: usize = 0;
    proof {
        assert(line@.skip(0) =~= line@);
    }
    while i < line.len()
        invariant
            i <= line@.len(),
            split_byte_acc(line@, sep, Seq::empty()) =~~= out.deep_view() + split_byte_acc(
                line@.skip(i as int),
                sep,
                cur@,
            ),
        decreases line@.len() - i,
    {
        let c = line[i];
        proof {
            assert(line@.skip(i as int).drop_first() =~= line@.skip(i + 1));
        }
        if c == sep {
            let ghost out_snap = out.deep_view();
            let ghost cur_snap = cur@;
            out.push(cur);
            cur = Vec::new();
            proof {
                assert(out.deep_view() =~~= out_snap.push(cur_snap));
                assert(out_snap + (seq![cur_snap] + split_byte_acc(line@.skip(i + 1), sep, cur@))
                    =~~= out.deep_view() + split_byte_acc(line@.skip(i + 1), sep, cur@));
            }
        } else {
            cur.push(c);
        }
        i = i + 1;
    }
    proof {
        assert(line@.skip(line@.len() as int) =~= Seq::<u8>::empty());
    }
    let ghost out_snap = out.deep_view();
    let ghost cur_snap = cur@;
    out.push(cur);
    proof {
        assert(out.deep_view() =~~= out_snap.push(cur_snap));
        assert(out_snap + seq![cur_snap] =~~= out.deep_view());
    }
    out
}

/// Parse a decimal token into a raw scalar.
#[verifier::loop_isolation(false)]
fn parse_fx(t: &[u8]) -> (r: Option<i64>)
    ensures
        r == parse_fx_spec(t@),
        r matches Some(v) ==> -0x8000_0000 <= v <= 0x8000_0000,
{
    let neg: bool = t.len() > 0 && t[0] == 45;
    let start: usize = if neg {
        1
    } else {
        0
    };
    let ghost body = if neg {
        t@.drop_first()
    } else {
        t@
    };
    proof {
        assert(body =~= t@.skip(start as int));
    }
    let mut ip: i64 = 0;
    let mut fp: i64 = 0;
    let mut k: i64 = 0;
    let ghost mut nd: int = 0;
    let mut has_digit: bool = false;
    let mut seen: bool = false;
    let mut i: usize = start;
    while i < t.len()
        invariant
            start <= i <= t@.len(),
            0 <= ip <= 32767,
            0 <= k <= 7,
            0 <= fp < pow10(k as int),
            0 <= nd,
            has_digit <==> nd != 0,
            fx_scan(body, false, 0, 0, 0, 0) == fx_scan(
                t@.skip(i as int),
                seen,
                ip as int,
                fp as int,
                k as int,
                nd,
            ),
        decreases t@.len() - i,
    {
        let c = t[i];
        proof {
            assert(t@.skip(i as int)[0] == t@[i as int]);
            assert(t@.skip(i as int).drop_first() =~= t@.skip(i + 1));
            assert(pow10((k + 1) as int) == 10 * pow10(k as int));
            lemma_pow10_small();
        }
        if c == 46 {
            if seen {
                return None;
            }
            seen = true;
        } else if 48 <= c && c <= 57 {
            let d: i64 = (c - 48) as i64;
            if seen {
                if k < 7 {
                    fp = fp * 10 + d;
                    k = k + 1;
                }
            } else {
                if ip * 10 + d > 32767 {
                    return None;
                }
                ip = ip * 10 + d;
            }
            proof {
                nd = nd + 1;
            }
            has_digit = true;
        } else {
            return None;
        }
        i = i + 1;
    }
    proof {
        assert(t@.skip(t@.len() as int) =~= Seq::<u8>::empty());
    }
    if !has_digit {
        return None;
    }
    let p: i64 = if k == 0 {
        1
    } else if k == 1 {
        10
    } else if k == 2 {
        100
    } else if k == 3 {
        1000
    } else if k == 4 {
        10000
    } else if k == 5 {
        100000
    } else if k == 6 {
        1000000
    } else {
        10000000
    };
    proof {
        lemma_pow10_small();
    }
    let frac: i64 = (((fp as u64) * 65536) / (p as u64)) as i64;
    proof {
        assert(fp * 65536 / (p as int) < 65536 && 0 <= fp * 65536 / (p as int))
            by (nonlinear_arith)
            requires
                0 <= fp < p,
                1 <= p,
        ;
    }
    let raw: i64 = ip * 65536 + frac;
    if neg {
        Some(-raw)
    } else {
        Some(raw)
    }
}

/// Parse an index token into its value.
fn parse_idx(t: &[u8]) -> (r: Option<usize>)
    ensures
        r == parse_idx_spec(t@),
        r matches Some(v) ==> v <= 1000000000,
{
    let mut acc: u64 = 0;
    let ghost mut nd: int = 0;
    let mut has_digit: bool = false;
    let mut i: usize = 0;
    proof {
        assert(t@.skip(0) =~= t@);
    }
    while i < t.len()
        invariant
            i <= t@.len(),
            0 <= acc <= 1000000000,
            0 <= nd,
            has_digit <==> nd != 0,
            idx_scan(t@, 0, 0) == idx_scan(t@.skip(i as int), acc as int, nd),
        decreases t@.len() - i,
    {
        let c = t[i];
        proof {
            assert(t@.skip(i as int)[0] == t@[i as int]);
            assert(t@.skip(i as int).drop_first() =~= t@.skip(i + 1));
        }
        if 48 <= c && c <= 57 {
            let d: u64 = (c - 48) as u64;
            if acc * 10 + d > 1000000000 {
                return None;
            }
            acc = acc * 10 + d;
            proof {
                nd = nd + 1;
            }
            has_digit = true;
        } else {
            return None;
        }
        i = i + 1;
    }
    proof {
        assert(t@.skip(t@.len() as int) =~= Seq::<u8>::empty());
    }
    if !has_digit {
        return None;
    }
    Some(acc as usize)
}

/// Applies one line to the growing state, mirroring `obj_step`.
fn apply_obj_line(
    verts: &mut Vec<Vec3d>,
    texs: &mut Vec<Vec2d>,
    tris: &mut Vec<Triangle>,
    line: &Vec<u8>,
    has_tex: bool,
) -> (ok: bool)
    ensures
        ({
            let st0 = ObjState { verts: old(verts)@, texs: old(texs)@, tris: old(tris)@ };
            let st1 = ObjState { verts: final(verts)@, texs: final(texs)@, tris: final(tris)@ };
            &&& ok ==> obj_step(st0, line@, has_tex) == Some(st1)
            &&& !ok ==> obj_step(st0, line@, has_tex) is None
            &&& (ok && verts_ok(st0.verts) && texs_ok(st0.texs) && tris_ok(st0.tris)) ==> (
            verts_ok(st1.verts) && texs_ok(st1.texs) && tris_ok(st1.tris))
        }),
{
    let full: &[u8] = line.as_slice();
    let l: &[u8] = if full.len() > 0 && full[full.len() - 1] == 13 {
        vstd::slice::slice_subrange(full, 0, full.len() - 1)
    } else {
        full
    };
    proof {
        assert(l@ =~= strip_cr_spec(line@));
    }
    if l.len() >= 2 && l[0] == 118 && l[1] == 32 {
        let toks = split_byte(l, 32);
        if toks.len() < 4 {
            return false;
        }
        proof {
            assert(toks.deep_view()[1] == toks@[1]@);
            assert(toks.deep_view()[2] == toks@[2]@);
            assert(toks.deep_view()[3] == toks@[3]@);
        }
        let x = parse_fx(toks[1].as_slice());
        let y = parse_fx(toks[2].as_slice());
        let z = parse_fx(toks[3].as_slice());
        match (x, y, z) {
            (Some(xv), Some(yv), Some(zv)) => {
                verts.push(Vec3d { x: xv, y: yv, z: zv, w: FX_ONE });
                true
            },
            _ => false,
        }
    } else if l.len() >= 2 && l[0] == 118 && l[1] == 116 {
        let toks = split_byte(l, 32);
        if toks.len() < 3 {
            return false;
        }
        proof {
            assert(toks.deep_view()[1] == toks@[1]@);
            assert(toks.deep_view()[2] == toks@[2]@);
        }
        let u = parse_fx(toks[1].as_slice());
        let v = parse_fx(toks[2].as_slice());
        match (u, v) {
            (Some(uv), Some(vv)) => {
                texs.push(Vec2d { u: uv, v: vv, w: FX_ONE });
                true
            },
            _ => false,
        }
    } else if l.len() >= 2 && l[0] == 102 && l[1] == 32 {
        let toks = split_byte(l, 32);
        if !has_tex {
            if toks.len() < 4 {
                return false;
            }
            proof {
                assert(toks.deep_view()[1] == toks@[1]@);
                assert(toks.deep_view()[2] == toks@[2]@);
                assert(toks.deep_view()[3] == toks@[3]@);
            }
            let f0 = parse_idx(toks[1].as_slice());
            let f1 = parse_idx(toks[2].as_slice());
            let f2 = parse_idx(toks[3].as_slice());
            match (f0, f1, f2) {
                (Some(i0), Some(i1), Some(i2)) => {
                    if 1 <= i0 && i0 <= verts.len() && 1 <= i1 && i1 <= verts.len() && 1 <= i2
                        && i2 <= verts.len() {
                        let p0 = verts[i0 - 1];
                        let p1 = verts[i1 - 1];
                        let p2 = verts[i2 - 1];
                        tris.push(
                            Triangle {
                                points: [p0, p1, p2],
                                texture_points: [
                                    Vec2d { u: 0, v: 0, w: FX_ONE },
                                    Vec2d { u: 0, v: 0, w: FX_ONE },
                                    Vec2d { u: 0, v: 0, w: FX_ONE },
                                ],
                            },
                        );
                        true
                    } else {
                        false
                    }
                },
                _ => false,
            }
        } else {
            if toks.len() != 4 {
                return false;
            }
            proof {
                assert(toks.deep_view()[1] == toks@[1]@);
                assert(toks.deep_view()[2] == toks@[2]@);
                assert(toks.deep_view()[3] == toks@[3]@);
            }
            let c0 = split_byte(toks[1].as_slice(), 47);
            let c1 = split_byte(toks[2].as_slice(), 47);
            let c2 = split_byte(toks[3].as_slice(), 47);
            if c0.len() < 2 || c1.len() < 2 || c2.len() < 2 {
                return false;
            }
            proof {
                assert(c0.deep_view()[0] == c0@[0]@);
                assert(c0.deep_view()[1] == c0@[1]@);
                assert(c1.deep_view()[0] == c1@[0]@);
                assert(c1.deep_view()[1] == c1@[1]@);
                assert(c2.deep_view()[0] == c2@[0]@);
                assert(c2.deep_view()[1] == c2@[1]@);
            }
            let f0 = parse_idx(c0[0].as_slice());
            let t0 = parse_idx(c0[1].as_slice());
            let f1 = parse_idx(c1[0].as_slice());
            let t1 = parse_idx(c1[1].as_slice());
            let f2 = parse_idx(c2[0].as_slice());
            let t2 = parse_idx(c2[1].as_slice());
            match (f0, t0, f1, t1, f2, t2) {
                (Some(i0), Some(j0), Some(i1), Some(j1), Some(i2), Some(j2)) => {
                    if 1 <= i0 && i0 <= verts.len() && 1 <= i1 && i1 <= verts.len() && 1 <= i2
                        && i2 <= verts.len() && 1 <= j0 && j0 <= texs.len() && 1 <= j1 && j1
                        <= texs.len() && 1 <= j2 && j2 <= texs.len() {
                        let p0 = verts[i0 - 1];
                        let p1 = verts[i1 - 1];
                        let p2 = verts[i2 - 1];
                        let q0 = texs[j0 - 1];
                        let q1 = texs[j1 - 1];
                        let q2 = texs[j2 - 1];
                        tris.push(
                            Triangle { points: [p0, p1, p2], texture_points: [q0, q1, q2] },
                        );
                        true
                    } else {
                        false
                    }
                },
                _ => false,
            }
        }
    } else {
        true
    }
}

/// Parse the byte string of a model file into its triangle list; nothing
/// comes back on the first malformed vertex, coordinate or face line.
#[verifier::loop_isolation(false)]
pub fn parse_obj(file: &[u8], b_has_texture: bool) -> (r: Option<Vec<Triangle>>)
    ensures
        match r {
            Some(v) => parse_obj_spec(file@, b_has_texture) == Some(v@) && tris_ok(v@),
            None => parse_obj_spec(file@, b_has_texture) is None,
        },
{
    let lines = split_lines(file);
    let mut verts: Vec<Vec3d> = Vec::new();
    let mut texs: Vec<Vec2d> = Vec::new();
    let mut tris: Vec<Triangle> = Vec::new();
    let mut li: usize = 0;
    while li < lines.len()
        invariant
            li <= lines@.len(),
            verts_ok(verts@),
            texs_ok(texs@),
            tris_ok(tris@),
            obj_fold(
                lines.deep_view(),
                0,
                ObjState { verts: Seq::empty(), texs: Seq::empty(), tris: Seq::empty() },
                b_has_texture,
            ) == obj_fold(
                lines.deep_view(),
                li as int,
                ObjState { verts: verts@, texs: texs@, tris: tris@ },
                b_has_texture,
            ),
        decreases lines@.len() - li,
    {
        let ghost st_pre = ObjState { verts: verts@, texs: texs@, tris: tris@ };
        proof {
            assert(lines.deep_view()[li as int] == lines@[li as int]@);
            assert(lines.deep_view().len() == lines@.len());
        }
        let ok = apply_obj_line(&mut verts, &mut texs, &mut tris, &lines[li], b_has_texture);
        if !ok {
            return None;
        }
        li = li + 1;
    }
    proof {
        assert(lines.deep_view().len() == lines@.len());
    }
    Some(tris)
}

} // verus!
