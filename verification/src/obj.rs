//! Wavefront-style mesh records: face parsing over plain bytes.

use vstd::prelude::*;
use vstd::string::StringSliceAdditionalSpecFns;

use crate::vec3::{Point3, Vec3};

verus! {

/// One triangular face: vertex, texture-coordinate and normal indices.
#[derive(Clone, Copy, Debug)]
pub struct Face {
    pub verts: [usize; 3],
    pub text_coords: [usize; 3],
    pub normals: [usize; 3],
}

/// An ASCII space or tab or line break.
pub open spec fn is_ws(b: u8) -> bool {
    b == 32 || b == 9 || b == 10 || b == 13
}

/// The decimal value of a digit string, most significant first.
pub open spec fn dec_val(bs: Seq<u8>) -> int
    decreases bs.len(),
{
    if bs.len() == 0 {
        0
    } else {
        dec_val(bs.drop_last()) * 10 + (bs.last() - 48)
    }
}

pub open spec fn all_digits(bs: Seq<u8>) -> bool {
    forall|i: int| 0 <= i < bs.len() ==> 48 <= #[trigger] bs[i] <= 57
}

/// What parsing an unsigned decimal yields: the value of a well-formed digit
/// string that fits the machine, and zero for anything else.
pub open spec fn spec_parse_usize(bs: Seq<u8>) -> usize {
    if bs.len() > 0 && all_digits(bs) && dec_val(bs) <= usize::MAX {
        dec_val(bs) as usize
    } else {
        0
    }
}

/// Whitespace-separated maximal tokens of `bs`, in order.
pub open spec fn split_ws_go(bs: Seq<u8>, cur: Seq<u8>, acc: Seq<Seq<u8>>) -> Seq<Seq<u8>>
    decreases bs.len(),
{
    if bs.len() == 0 {
        if cur.len() > 0 {
            acc.push(cur)
        } else {
            acc
        }
    } else if is_ws(bs[0]) {
        split_ws_go(
            bs.skip(1),
            seq![],
            if cur.len() > 0 {
                acc.push(cur)
            } else {
                acc
            },
        )
    } else {
        split_ws_go(bs.skip(1), cur.push(bs[0]), acc)
    }
}

pub open spec fn spec_split_ws(bs: Seq<u8>) -> Seq<Seq<u8>> {
    split_ws_go(bs, seq![], seq![])
}

/// The fields of `bs` between `/` separators; empty fields are kept, and
/// there is always at least one field.
pub open spec fn split_slash_go(bs: Seq<u8>, cur: Seq<u8>, acc: Seq<Seq<u8>>) -> Seq<Seq<u8>>
    decreases bs.len(),
{
    if bs.len() == 0 {
        acc.push(cur)
    } else if bs[0] == 47 {
        split_slash_go(bs.skip(1), seq![], acc.push(cur))
    } else {
        split_slash_go(bs.skip(1), cur.push(bs[0]), acc)
    }
}

pub open spec fn spec_split_slash(bs: Seq<u8>) -> Seq<Seq<u8>> {
    split_slash_go(bs, seq![], seq![])
}

/// The `i`-th field of `fields`, parsed; missing fields read as zero.
pub open spec fn spec_field_index(fields: Seq<Seq<u8>>, i: int) -> usize {
    if 0 <= i < fields.len() {
        spec_parse_usize(fields[i])
    } else {
        0
    }
}

/// The `slot`-th index triple of a face line: the `slot`-th whitespace token,
/// its slash-separated fields parsed as vertex, texture and normal index.
pub open spec fn spec_face_slot(tokens: Seq<Seq<u8>>, slot: int) -> (usize, usize, usize) {
    if 0 <= slot < tokens.len() {
        let fields = spec_split_slash(tokens[slot]);
        (spec_field_index(fields, 0), spec_field_index(fields, 1), spec_field_index(fields, 2))
    } else {
        (0, 0, 0)
    }
}

/// `f` is the face a line of bytes describes: one index triple per token, up
/// to three tokens, missing parts read as zero.
pub open spec fn spec_face_of(bs: Seq<u8>, f: Face) -> bool {
    let tokens = spec_split_ws(bs);
    &&& f.verts@ =~= seq![
        spec_face_slot(tokens, 0).0,
        spec_face_slot(tokens, 1).0,
        spec_face_slot(tokens, 2).0,
    ]
    &&& f.text_coords@ =~= seq![
        spec_face_slot(tokens, 0).1,
        spec_face_slot(tokens, 1).1,
        spec_face_slot(tokens, 2).1,
    ]
    &&& f.normals@ =~= seq![
        spec_face_slot(tokens, 0).2,
        spec_face_slot(tokens, 1).2,
        spec_face_slot(tokens, 2).2,
    ]
}

fn byte_is_ws(b: u8) -> (r: bool)
    ensures
        r == is_ws(b),
{
    b == 32 || b == 9 || b == 10 || b == 13
}

/// Parses an unsigned decimal; anything but a fitting digit string yields 0.
pub fn parse_usize_or_zero(bs: &[u8]) -> (r: usize)
    ensures
        r == spec_parse_usize(bs@),
{
    let n = bs.len();
    if n == 0 {
        return 0;
    }
    let mut acc: usize = 0;
    let mut over: bool = false;
    let mut i: usize = 0;
    while i < n
        invariant
            n == bs@.len(),
            0 <= i <= n,
            all_digits(bs@.take(i as int)),
            !over ==> acc == dec_val(bs@.take(i as int)),
            over ==> dec_val(bs@.take(i as int)) > usize::MAX,
        decreases n - i,
    {
        let b = bs[i];
        if b < 48 || b > 57 {
            return 0;
        }
        let d = (b - 48) as usize;
        proof {
            assert(bs@.take(i as int + 1).drop_last() =~= bs@.take(i as int));
            assert(bs@.take(i as int + 1).last() == bs@[i as int]);
        }
        if over {
        } else if acc > (usize::MAX - d) / 10 {
            over = true;
            proof {
                let v = dec_val(bs@.take(i as int));
                assert(v * 10 + d as int > usize::MAX) by (nonlinear_arith)
                    requires
                        v == acc as int,
                        0 <= d < 10,
                        acc as int > ((usize::MAX - d) as int) / 10,
                        (((usize::MAX - d) as int) / 10) * 10 + ((usize::MAX - d) as int) % 10 == (
                        usize::MAX - d) as int,
                        0 <= ((usize::MAX - d) as int) % 10 < 10,
                ;
            }
        } else {
            proof {
                let v = dec_val(bs@.take(i as int));
                assert(v * 10 + d as int <= usize::MAX) by (nonlinear_arith)
                    requires
                        v == acc as int,
                        0 <= d < 10,
                        acc as int <= ((usize::MAX - d) as int) / 10,
                        (((usize::MAX - d) as int) / 10) * 10 <= (usize::MAX - d) as int,
                ;
            }
            acc = acc * 10 + d;
        }
        if over {
            proof {
                let prev = dec_val(bs@.take(i as int));
                let next = dec_val(bs@.take(i as int + 1));
                assert(next == prev * 10 + (bs@[i as int] - 48));
                assert(prev * 10 >= prev) by (nonlinear_arith)
                    requires
                        prev >= 0,
                ;
                assert(prev >= 0) by {
                    lemma_dec_val_nonneg(bs@.take(i as int));
                }
            }
        }
        i = i + 1;
    }
    proof {
        assert(bs@.take(n as int) =~= bs@);
    }
    if over {
        0
    } else {
        acc
    }
}

proof fn lemma_dec_val_nonneg(bs: Seq<u8>)
    requires
        all_digits(bs),
    ensures
        dec_val(bs) >= 0,
    decreases bs.len(),
{
    if bs.len() > 0 {
        assert(all_digits(bs.drop_last())) by {
            assert(forall|i: int|
                0 <= i < bs.len() - 1 ==> #[trigger] bs.drop_last()[i] == bs[i]);
        }
        lemma_dec_val_nonneg(bs.drop_last());
    }
}

/// Splits `bs` into its maximal whitespace-separated tokens.
pub fn split_ws(bs: &[u8]) -> (r: Vec<Vec<u8>>)
    ensures
        r.deep_view() == spec_split_ws(bs@),
{
    let n = bs.len();
    let mut acc: Vec<Vec<u8>> = Vec::new();
    let mut cur: Vec<u8> = Vec::new();
    let mut i: usize = 0;
    proof {
        assert(bs@.skip(0) =~= bs@);
        assert(acc.deep_view() =~= Seq::<Seq<u8>>::empty());
        assert(cur.deep_view() =~= Seq::<u8>::empty());
    }
    while i < n
        invariant
            n == bs@.len(),
            0 <= i <= n,
            split_ws_go(bs@.skip(i as int), cur.deep_view(), acc.deep_view()) == spec_split_ws(
                bs@,
            ),
        decreases n - i,
    {
        proof {
            assert(bs@.skip(i as int)[0] == bs@[i as int]);
            assert(bs@.skip(i as int).skip(1) =~= bs@.skip(i as int + 1));
        }
        let b = bs[i];
        let ghost acc_dv = acc.deep_view();
        let ghost cur_dv = cur.deep_view();
        if byte_is_ws(b) {
            if cur.len() > 0 {
                acc.push(cur);
                cur = Vec::new();
                proof {
                    assert(acc.deep_view() =~= acc_dv.push(cur_dv));
                    assert(cur.deep_view() =~= Seq::<u8>::empty());
                }
            } else {
                proof {
                    assert(cur.deep_view() =~= Seq::<u8>::empty());
                }
            }
        } else {
            cur.push(b);
            proof {
                assert(cur.deep_view() =~= cur_dv.push(b));
            }
        }
        i = i + 1;
    }
    proof {
        assert(bs@.skip(n as int) =~= Seq::<u8>::empty());
    }
    let ghost acc_dv = acc.deep_view();
    let ghost cur_dv = cur.deep_view();
    if cur.len() > 0 {
        acc.push(cur);
        proof {
            assert(acc.deep_view() =~= acc_dv.push(cur_dv));
        }
    }
    acc
}

/// Splits `bs` at every `/`, keeping empty fields.
pub fn split_slash(bs: &[u8]) -> (r: Vec<Vec<u8>>)
    ensures
        r.deep_view() == spec_split_slash(bs@),
{
    let n = bs.len();
    let mut acc: Vec<Vec<u8>> = Vec::new();
    let mut cur: Vec<u8> = Vec::new();
    let mut i: usize = 0;
    proof {
        assert(bs@.skip(0) =~= bs@);
        assert(acc.deep_view() =~= Seq::<Seq<u8>>::empty());
        assert(cur.deep_view() =~= Seq::<u8>::empty());
    }
    while i < n
        invariant
            n == bs@.len(),
            0 <= i <= n,
            split_slash_go(bs@.skip(i as int), cur.deep_view(), acc.deep_view())
                == spec_split_slash(bs@),
        decreases n - i,
    {
        proof {
            assert(bs@.skip(i as int)[0] == bs@[i as int]);
            assert(bs@.skip(i as int).skip(1) =~= bs@.skip(i as int + 1));
        }
        let b = bs[i];
        let ghost acc_dv = acc.deep_view();
        let ghost cur_dv = cur.deep_view();
        if b == 47 {
            acc.push(cur);
            cur = Vec::new();
            proof {
                assert(acc.deep_view() =~= acc_dv.push(cur_dv));
                assert(cur.deep_view() =~= Seq::<u8>::empty());
            }
        } else {
            cur.push(b);
            proof {
                assert(cur.deep_view() =~= cur_dv.push(b));
            }
        }
        i = i + 1;
    }
    proof {
        assert(bs@.skip(n as int) =~= Seq::<u8>::empty());
    }
    let ghost acc_dv = acc.deep_view();
    let ghost cur_dv = cur.deep_view();
    acc.push(cur);
    proof {
        assert(acc.deep_view() =~= acc_dv.push(cur_dv));
    }
    acc
}

/// The index triple of one face token.
fn face_slot(token: &Vec<u8>) -> (r: (usize, usize, usize))
    ensures
        ({
            let fields = spec_split_slash(token.deep_view());
            &&& r.0 == spec_field_index(fields, 0)
            &&& r.1 == spec_field_index(fields, 1)
            &&& r.2 == spec_field_index(fields, 2)
        }),
{
    proof {
        assert(token.deep_view() =~= token@);
    }
    let fields = split_slash(token.as_slice());
    let v = if fields.len() > 0 {
        proof {
            assert(fields.deep_view()[0] =~= fields@[0]@);
        }
        parse_usize_or_zero(fields[0].as_slice())
    } else {
        0
    };
    let t = if fields.len() > 1 {
        proof {
            assert(fields.deep_view()[1] =~= fields@[1]@);
        }
        parse_usize_or_zero(fields[1].as_slice())
    } else {
        0
    };
    let nrm = if fields.len() > 2 {
        proof {
            assert(fields.deep_view()[2] =~= fields@[2]@);
        }
        parse_usize_or_zero(fields[2].as_slice())
    } else {
        0
    };
    (v, t, nrm)
}

/// Reads one face line (after its leading `f `): up to three whitespace
/// tokens, each `v/t/n` with missing or malformed parts read as zero.
pub fn string_to_face(line: String) -> (r: Face)
    ensures
        spec_face_of(vstd::utf8::encode_utf8(line@), r),
{
    let bs = line.as_str().as_bytes();
    let r = parse_face(bs);
    proof {
        assert(bs@ == vstd::utf8::encode_utf8(line@));
    }
    r
}

/// The face a line of bytes (after its leading `f `) describes.
pub fn parse_face(bs: &[u8]) -> (r: Face)
    ensures
        spec_face_of(bs@, r),
{
    let tokens = split_ws(bs);
    let s0 = if tokens.len() > 0 {
        proof {
            assert(tokens.deep_view()[0] =~= tokens@[0]@);
        }
        face_slot(&tokens[0])
    } else {
        (0, 0, 0)
    };
    let s1 = if tokens.len() > 1 {
        proof {
            assert(tokens.deep_view()[1] =~= tokens@[1]@);
        }
        face_slot(&tokens[1])
    } else {
        (0, 0, 0)
    };
    let s2 = if tokens.len() > 2 {
        proof {
            assert(tokens.deep_view()[2] =~= tokens@[2]@);
        }
        face_slot(&tokens[2])
    } else {
        (0, 0, 0)
    };
    Face {
        verts: [s0.0, s1.0, s2.0],
        text_coords: [s0.1, s1.1, s2.1],
        normals: [s0.2, s1.2, s2.2],
    }
}


/// The fields of `bs` between `.` separators; empty fields are kept.
pub open spec fn split_dot_go(bs: Seq<u8>, cur: Seq<u8>, acc: Seq<Seq<u8>>) -> Seq<Seq<u8>>
    decreases bs.len(),
{
    if bs.len() == 0 {
        acc.push(cur)
    } else if bs[0] == 46 {
        split_dot_go(bs.skip(1), seq![], acc.push(cur))
    } else {
        split_dot_go(bs.skip(1), cur.push(bs[0]), acc)
    }
}

pub open spec fn spec_split_dot(bs: Seq<u8>) -> Seq<Seq<u8>> {
    split_dot_go(bs, seq![], seq![])
}

/// Splits `bs` at every `.`, keeping empty fields.
pub fn split_dot(bs: &[u8]) -> (r: Vec<Vec<u8>>)
    ensures
        r.deep_view() == spec_split_dot(bs@),
{
    let n = bs.len();
    let mut acc: Vec<Vec<u8>> = Vec::new();
    let mut cur: Vec<u8> = Vec::new();
    let mut i: usize = 0;
    proof {
        assert(bs@.skip(0) =~= bs@);
        assert(acc.deep_view() =~= Seq::<Seq<u8>>::empty());
        assert(cur.deep_view() =~= Seq::<u8>::empty());
    }
    while i < n
        invariant
            n == bs@.len(),
            0 <= i <= n,
            split_dot_go(bs@.skip(i as int), cur.deep_view(), acc.deep_view()) == spec_split_dot(
                bs@,
            ),
        decreases n - i,
    {
        proof {
            assert(bs@.skip(i as int)[0] == bs@[i as int]);
            assert(bs@.skip(i as int).skip(1) =~= bs@.skip(i as int + 1));
        }
        let b = bs[i];
        let ghost acc_dv = acc.deep_view();
        let ghost cur_dv = cur.deep_view();
        if b == 46 {
            acc.push(cur);
            cur = Vec::new();
            proof {
                assert(acc.deep_view() =~= acc_dv.push(cur_dv));
                assert(cur.deep_view() =~= Seq::<u8>::empty());
            }
        } else {
            cur.push(b);
            proof {
                assert(cur.deep_view() =~= cur_dv.push(b));
            }
        }
        i = i + 1;
    }
    proof {
        assert(bs@.skip(n as int) =~= Seq::<u8>::empty());
    }
    let ghost acc_dv = acc.deep_view();
    let ghost cur_dv = cur.deep_view();
    acc.push(cur);
    proof {
        assert(acc.deep_view() =~= acc_dv.push(cur_dv));
    }
    acc
}

/// Largest whole-number magnitude a coordinate can carry.
pub const COORD_MAX: u64 = 0x4000_0000;

/// The value of a digit string when it is one and fits a coordinate.
pub open spec fn spec_digits_bounded(bs: Seq<u8>) -> Option<u64> {
    if all_digits(bs) && dec_val(bs) <= COORD_MAX {
        Some(dec_val(bs) as u64)
    } else {
        None
    }
}

proof fn lemma_dec_val_step_grows(bs: Seq<u8>)
    requires
        bs.len() > 0,
        all_digits(bs),
    ensures
        dec_val(bs) >= dec_val(bs.drop_last()),
{
    assert(all_digits(bs.drop_last())) by {
        assert(forall|i: int| 0 <= i < bs.len() - 1 ==> #[trigger] bs.drop_last()[i] == bs[i]);
    }
    lemma_dec_val_nonneg(bs.drop_last());
    let prev = dec_val(bs.drop_last());
    assert(prev * 10 >= prev) by (nonlinear_arith)
        requires
            prev >= 0,
    ;
}

fn parse_digits_bounded(bs: &[u8]) -> (r: Option<u64>)
    ensures
        r == spec_digits_bounded(bs@),
        r is Some ==> r->Some_0 <= COORD_MAX,
{
    let n = bs.len();
    let mut acc: u64 = 0;
    let mut over: bool = false;
    let mut i: usize = 0;
    proof {
        assert(bs@.take(0) =~= Seq::<u8>::empty());
    }
    while i < n
        invariant
            n == bs@.len(),
            0 <= i <= n,
            all_digits(bs@.take(i as int)),
            !over ==> acc == dec_val(bs@.take(i as int)) && acc <= COORD_MAX,
            over ==> dec_val(bs@.take(i as int)) > COORD_MAX,
        decreases n - i,
    {
        let b = bs[i];
        if b < 48 || b > 57 {
            proof {
                assert(!all_digits(bs@));
            }
            return None;
        }
        let d = (b - 48) as u64;
        proof {
            assert(bs@.take(i as int + 1).drop_last() =~= bs@.take(i as int));
            assert(bs@.take(i as int + 1).last() == bs@[i as int]);
        }
        if over {
            proof {
                let tail = bs@.take(i as int + 1);
                lemma_dec_val_step_grows(tail);
            }
        } else {
            // acc <= COORD_MAX, so ten times it plus a digit stays in u64
            let next = acc * 10 + d;
            if next > COORD_MAX {
                over = true;
            } else {
                acc = next;
            }
        }
        i = i + 1;
    }
    proof {
        assert(bs@.take(n as int) =~= bs@);
    }
    if over {
        None
    } else {
        Some(acc)
    }
}

/// Powers of ten, for scaling fraction digits.
pub open spec fn pow10(k: nat) -> int
    decreases k,
{
    if k == 0 {
        1
    } else {
        10 * pow10((k - 1) as nat)
    }
}

/// A digit string's value is below ten to its length.
proof fn lemma_dec_val_upper(bs: Seq<u8>)
    requires
        all_digits(bs),
    ensures
        dec_val(bs) < pow10(bs.len()),
    decreases bs.len(),
{
    if bs.len() == 0 {
    } else {
        assert(all_digits(bs.drop_last())) by {
            assert(forall|i: int| 0 <= i < bs.len() - 1 ==> #[trigger] bs.drop_last()[i] == bs[i]);
        }
        lemma_dec_val_upper(bs.drop_last());
        let prev = dec_val(bs.drop_last());
        let p = pow10((bs.len() - 1) as nat);
        assert(prev * 10 + 9 < p * 10) by (nonlinear_arith)
            requires
                prev < p,
        ;
    }
}

/// The first eight fraction digits, scaled into fixed point and truncated.
pub open spec fn frac_scaled(bs: Seq<u8>) -> int
    recommends
        all_digits(bs),
{
    let f8 = if bs.len() > 8 {
        bs.take(8)
    } else {
        bs
    };
    (dec_val(f8) * (crate::fixed::SCALE as int)) / pow10(f8.len())
}

/// The fixed-point weight of a fraction: reads at most the first eight
/// digits, so anything finer than about a hundredth of a unit truncates.
fn frac_value(bs: &[u8]) -> (r: Option<i64>)
    ensures
        all_digits(bs@) ==> r == Some((frac_scaled(bs@) as i64)),
        !all_digits(bs@) ==> r is None,
        all_digits(bs@) ==> 0 <= frac_scaled(bs@) < crate::fixed::SCALE as int,
        r is Some ==> 0 <= r->Some_0 < crate::fixed::SCALE,
{
    let n = bs.len();
    let keep = if n > 8 {
        8
    } else {
        n
    };
    let mut acc: u64 = 0;
    let mut i: usize = 0;
    let ghost f8 = if bs@.len() > 8 {
        bs@.take(8)
    } else {
        bs@
    };
    proof {
        assert(f8.take(0) =~= Seq::<u8>::empty());
    }
    while i < keep
        invariant
            n == bs@.len(),
            keep == if n > 8 {
                8int
            } else {
                n as int
            },
            f8 == if bs@.len() > 8 {
                bs@.take(8)
            } else {
                bs@
            },
            0 <= i <= keep,
            all_digits(f8.take(i as int)),
            acc == dec_val(f8.take(i as int)),
            acc < 100_000_000,
        decreases keep - i,
    {
        let b = bs[i];
        if b < 48 || b > 57 {
            proof {
                assert(!all_digits(bs@));
            }
            return None;
        }
        proof {
            assert(f8.take(i as int + 1).drop_last() =~= f8.take(i as int));
            assert(f8[i as int] == bs@[i as int]);
            assert(f8.take(i as int + 1).last() == f8[i as int]);
            lemma_dec_val_upper(f8.take(i as int));
            lemma_pow10_at_most_8((i) as nat);
            let prev = dec_val(f8.take(i as int));
            assert(prev * 10 + 9 < 100_000_000) by (nonlinear_arith)
                requires
                    0 <= prev,
                    prev < 10_000_000,
            ;
        }
        acc = acc * 10 + ((b - 48) as u64);
        i = i + 1;
    }
    proof {
        assert(f8.take(keep as int) =~= f8);
        assert(all_digits(f8));
        assert forall|k: int| 0 <= k < keep implies 48 <= #[trigger] bs@[k] <= 57 by {
            assert(bs@[k] == f8[k]);
            assert(48 <= f8[k] <= 57);
        }
    }
    // the digits beyond the first eight still have to be digits
    let mut j: usize = keep;
    while j < n
        invariant
            n == bs@.len(),
            keep <= j <= n,
            forall|k: int| 0 <= k < j ==> 48 <= #[trigger] bs@[k] <= 57,
            keep == if n > 8 {
                8int
            } else {
                n as int
            },
            f8 == if bs@.len() > 8 {
                bs@.take(8)
            } else {
                bs@
            },
            all_digits(f8),
            acc == dec_val(f8),
            acc < 100_000_000,
        decreases n - j,
    {
        let b = bs[j];
        if b < 48 || b > 57 {
            proof {
                assert(!all_digits(bs@));
            }
            return None;
        }
        j = j + 1;
    }
    proof {
        assert(all_digits(bs@));
        lemma_dec_val_upper(f8);
        lemma_pow10_at_most_8(f8.len());
        lemma_div_strict(dec_val(f8), pow10(f8.len()));
    }
    let p = pow10_exec(keep as u64);
    let scaled = acc * (crate::fixed::SCALE as u64) / p;
    Some(scaled as i64)
}

proof fn lemma_pow10_at_most_8(k: nat)
    requires
        k <= 8,
    ensures
        pow10(k) >= 1,
        pow10(k) <= 100_000_000,
        k <= 7 ==> pow10(k) <= 10_000_000,
{
    assert(pow10(0) == 1);
    assert(pow10(1) == 10);
    assert(pow10(2) == 100);
    assert(pow10(3) == 1000);
    assert(pow10(4) == 10000);
    assert(pow10(5) == 100000);
    assert(pow10(6) == 1000000);
    assert(pow10(7) == 10000000);
    assert(pow10(8) == 100000000);
}

/// `v < p` gives `v * SCALE / p < SCALE`.
proof fn lemma_div_strict(v: int, p: int)
    requires
        0 <= v,
        v < p,
    ensures
        0 <= (v * (crate::fixed::SCALE as int)) / p,
        (v * (crate::fixed::SCALE as int)) / p < crate::fixed::SCALE as int,
{
    let s = crate::fixed::SCALE as int;
    assert(v * s <= (p - 1) * s) by (nonlinear_arith)
        requires
            v <= p - 1,
            s >= 0,
    ;
    assert(0 <= v * s) by (nonlinear_arith)
        requires
            0 <= v,
            0 <= s,
    ;
    vstd::arithmetic::div_mod::lemma_div_is_ordered(v * s, (p - 1) * s, p);
    assert(((p - 1) * s) / p < s) by {
        vstd::arithmetic::div_mod::lemma_fundamental_div_mod((p - 1) * s, p);
        let q = ((p - 1) * s) / p;
        let m = ((p - 1) * s) % p;
        assert(q < s) by (nonlinear_arith)
            requires
                (p - 1) * s == q * p + m,
                0 <= m < p,
                p >= 1,
                s >= 1,
                q >= 0,
        ;
        assert(q >= 0) by {
            vstd::arithmetic::div_mod::lemma_div_is_ordered(0, (p - 1) * s, p);
            assert(0 <= (p - 1) * s) by (nonlinear_arith)
                requires
                    p >= 1,
                    s >= 0,
            ;
        }
    }
    vstd::arithmetic::div_mod::lemma_div_is_ordered(0, v * s, p);
}

fn pow10_exec(k: u64) -> (r: u64)
    requires
        k <= 8,
    ensures
        r as int == pow10(k as nat),
        1 <= r <= 100_000_000,
{
    proof {
        assert(pow10(0) == 1);
        assert(pow10(1) == 10);
        assert(pow10(2) == 100);
        assert(pow10(3) == 1000);
        assert(pow10(4) == 10000);
        assert(pow10(5) == 100000);
        assert(pow10(6) == 1000000);
        assert(pow10(7) == 10000000);
        assert(pow10(8) == 100000000);
    }
    if k == 0 {
        1
    } else if k == 1 {
        10
    } else if k == 2 {
        100
    } else if k == 3 {
        1000
    } else if k == 4 {
        10000
    } else if k == 5 {
        100000
    } else if k == 6 {
        1000000
    } else if k == 7 {
        10000000
    } else {
        100000000
    }
}

/// What parsing a signed decimal number yields: an optional sign, then
/// digits with at most one point between them, carried to fixed point with
/// the fraction truncated past eight digits. Whole parts above the
/// coordinate bound, stray characters and an empty number all fail; in
/// particular exponent notation is not read, and such a coordinate fails
/// the whole line.
pub open spec fn spec_parse_fixed(bs: Seq<u8>) -> Option<i64> {
    let neg = bs.len() > 0 && bs[0] == 45;
    let body = if neg {
        bs.skip(1)
    } else {
        bs
    };
    let fields = spec_split_dot(body);
    if fields.len() == 1 {
        let ip = fields[0];
        if ip.len() > 0 && all_digits(ip) && dec_val(ip) <= COORD_MAX {
            let v = dec_val(ip) * (crate::fixed::SCALE as int);
            Some(
                (if neg {
                    -v
                } else {
                    v
                }) as i64,
            )
        } else {
            None
        }
    } else if fields.len() == 2 {
        let ip = fields[0];
        let fr = fields[1];
        if (ip.len() > 0 || fr.len() > 0) && all_digits(ip) && all_digits(fr) && dec_val(ip)
            <= COORD_MAX {
            let v = dec_val(ip) * (crate::fixed::SCALE as int) + frac_scaled(fr);
            Some(
                (if neg {
                    -v
                } else {
                    v
                }) as i64,
            )
        } else {
            None
        }
    } else {
        None
    }
}

/// The bytes of `bs` from position `k` on.
fn tail_from(bs: &[u8], k: usize) -> (r: Vec<u8>)
    requires
        k <= bs@.len(),
    ensures
        r@ == bs@.skip(k as int),
{
    let n = bs.len();
    let mut out: Vec<u8> = Vec::new();
    let mut i: usize = k;
    proof {
        assert(out@ =~= bs@.subrange(k as int, k as int));
    }
    while i < n
        invariant
            k <= i <= n,
            n == bs@.len(),
            out@ == bs@.subrange(k as int, i as int),
        decreases n - i,
    {
        out.push(bs[i]);
        proof {
            assert(bs@.subrange(k as int, i as int + 1) =~= bs@.subrange(k as int, i as int).push(
                bs@[i as int],
            ));
        }
        i = i + 1;
    }
    proof {
        assert(bs@.subrange(k as int, n as int) =~= bs@.skip(k as int));
    }
    out
}

/// Parses one signed decimal coordinate into fixed point.
pub fn parse_fixed(bs: &[u8]) -> (r: Option<i64>)
    ensures
        r == spec_parse_fixed(bs@),
{
    let n = bs.len();
    let neg = n > 0 && bs[0] == 45;
    let start: usize = if neg {
        1
    } else {
        0
    };
    let body = tail_from(bs, start);
    proof {
        if !neg {
            assert(bs@.skip(0) =~= bs@);
        }
    }
    let fields = split_dot(body.as_slice());
    if fields.len() == 1 {
        proof {
            assert(fields.deep_view()[0] =~= fields@[0]@);
        }
        if fields[0].len() == 0 {
            return None;
        }
        match parse_digits_bounded(fields[0].as_slice()) {
            Some(d) => {
                proof {
                    assert(0 <= (d as int) * (crate::fixed::SCALE as int)
                        <= 0x4000_0000_0000int) by (nonlinear_arith)
                        requires
                            0 <= d as int,
                            (d as int) <= 0x4000_0000,
                            crate::fixed::SCALE as int == 0x1_0000,
                    ;
                }
                let v = (d as i64) * (crate::fixed::SCALE);
                let out = if neg {
                    -v
                } else {
                    v
                };
                proof {
                    let sbody = if neg {
                        bs@.skip(1)
                    } else {
                        bs@
                    };
                    let ip = spec_split_dot(sbody)[0];
                    assert(ip == fields@[0]@);
                    assert(all_digits(ip));
                    lemma_dec_val_nonneg(ip);
                    assert(d as int == dec_val(ip));
                }
                Some(out)
            },
            None => None,
        }
    } else if fields.len() == 2 {
        proof {
            assert(fields.deep_view()[0] =~= fields@[0]@);
            assert(fields.deep_view()[1] =~= fields@[1]@);
        }
        if fields[0].len() == 0 && fields[1].len() == 0 {
            return None;
        }
        let ip = parse_digits_bounded(fields[0].as_slice());
        let fr = frac_value(fields[1].as_slice());
        match (ip, fr) {
            (Some(d), Some(f)) => {
                proof {
                    assert(0 <= (d as int) * (crate::fixed::SCALE as int)
                        <= 0x4000_0000_0000int) by (nonlinear_arith)
                        requires
                            0 <= d as int,
                            (d as int) <= 0x4000_0000,
                            crate::fixed::SCALE as int == 0x1_0000,
                    ;
                }
                let v = (d as i64) * (crate::fixed::SCALE) + f;
                let out = if neg {
                    -v
                } else {
                    v
                };
                proof {
                    let sbody = if neg {
                        bs@.skip(1)
                    } else {
                        bs@
                    };
                    let ip = spec_split_dot(sbody)[0];
                    let fr = spec_split_dot(sbody)[1];
                    assert(ip == fields@[0]@);
                    assert(fr == fields@[1]@);
                    assert(all_digits(ip));
                    lemma_dec_val_nonneg(ip);
                    assert(d as int == dec_val(ip));
                }
                Some(out)
            },
            _ => None,
        }
    } else {
        None
    }
}

/// What parsing a vertex line yields: its first three whitespace tokens as
/// coordinates, or nothing if a token fails or one is missing.
pub open spec fn spec_string_to_point(bs: Seq<u8>) -> Option<Point3> {
    let tokens = spec_split_ws(bs);
    if tokens.len() >= 3 {
        match (spec_parse_fixed(tokens[0]), spec_parse_fixed(tokens[1]), spec_parse_fixed(
            tokens[2],
        )) {
            (Some(x), Some(y), Some(z)) => Some(Vec3 { x, y, z }),
            _ => None,
        }
    } else {
        None
    }
}

/// Parses a vertex or normal line (after its leading tag).
pub fn parse_point(bs: &[u8]) -> (r: Option<Point3>)
    ensures
        r == spec_string_to_point(bs@),
{
    let tokens = split_ws(bs);
    if tokens.len() < 3 {
        return None;
    }
    proof {
        assert(tokens.deep_view()[0] =~= tokens@[0]@);
        assert(tokens.deep_view()[1] =~= tokens@[1]@);
        assert(tokens.deep_view()[2] =~= tokens@[2]@);
    }
    let x = parse_fixed(tokens[0].as_slice());
    let y = parse_fixed(tokens[1].as_slice());
    let z = parse_fixed(tokens[2].as_slice());
    match (x, y, z) {
        (Some(x), Some(y), Some(z)) => Some(Vec3::new(x, y, z)),
        _ => None,
    }
}

pub fn string_to_point(line: String) -> (r: Option<Point3>)
    ensures
        r == spec_string_to_point(vstd::utf8::encode_utf8(line@)),
{
    let bs = line.as_str().as_bytes();
    let r = parse_point(bs);
    proof {
        assert(bs@ == vstd::utf8::encode_utf8(line@));
    }
    r
}

/// A mesh read from text: vertices, vertex normals and faces.
#[derive(Debug)]
pub struct Obj {
    pub verts: Vec<Point3>,
    pub normals: Vec<Point3>,
    pub faces: Vec<Face>,
}

pub open spec fn starts_v(l: Seq<u8>) -> bool {
    l.len() >= 2 && l[0] == 118 && l[1] == 32
}

pub open spec fn starts_f(l: Seq<u8>) -> bool {
    l.len() >= 2 && l[0] == 102 && l[1] == 32
}

pub open spec fn starts_vn(l: Seq<u8>) -> bool {
    l.len() >= 3 && l[0] == 118 && l[1] == 110 && l[2] == 32
}

/// One pass over the lines: vertex and normal lines parse (or fail the whole
/// scan), face lines are collected as their bytes, anything else is skipped.
pub open spec fn spec_obj_go(
    ls: Seq<Seq<u8>>,
    verts: Seq<Point3>,
    normals: Seq<Point3>,
    faces: Seq<Seq<u8>>,
) -> Option<(Seq<Point3>, Seq<Point3>, Seq<Seq<u8>>)>
    decreases ls.len(),
{
    if ls.len() == 0 {
        Some((verts, normals, faces))
    } else {
        let l = ls[0];
        if starts_v(l) {
            match spec_string_to_point(l.skip(2)) {
                Some(p) => spec_obj_go(ls.skip(1), verts.push(p), normals, faces),
                None => None,
            }
        } else if starts_f(l) {
            spec_obj_go(ls.skip(1), verts, normals, faces.push(l.skip(2)))
        } else if starts_vn(l) {
            match spec_string_to_point(l.skip(3)) {
                Some(p) => spec_obj_go(ls.skip(1), verts, normals.push(p), faces),
                None => None,
            }
        } else {
            spec_obj_go(ls.skip(1), verts, normals, faces)
        }
    }
}

pub open spec fn spec_obj_scan(ls: Seq<Seq<u8>>) -> Option<
    (Seq<Point3>, Seq<Point3>, Seq<Seq<u8>>),
> {
    spec_obj_go(ls, seq![], seq![], seq![])
}

/// The lines of a file, as byte sequences.
pub open spec fn lines_bytes(ls: Seq<String>) -> Seq<Seq<u8>> {
    ls.map_values(|l: String| vstd::utf8::encode_utf8(l@))
}

impl Obj {
    /// Builds a mesh from the lines of a file. Every vertex (`v `) and
    /// normal (`vn `) line must parse; face (`f `) lines are read as index
    /// triples; all other lines are ignored.
    pub fn from_lines(lines: &Vec<String>) -> (r: Option<Obj>)
        ensures
            r is Some <==> spec_obj_scan(lines_bytes(lines@)) is Some,
            r is Some ==> {
                let scan = spec_obj_scan(lines_bytes(lines@))->Some_0;
                &&& r->Some_0.verts@ == scan.0
                &&& r->Some_0.normals@ == scan.1
                &&& r->Some_0.faces@.len() == scan.2.len()
                &&& forall|i: int|
                    0 <= i < scan.2.len() ==> spec_face_of(
                        scan.2[i],
                        #[trigger] r->Some_0.faces@[i],
                    )
            },
    {
        let ghost lbs = lines_bytes(lines@);
        let n = lines.len();
        let mut verts: Vec<Point3> = Vec::new();
        let mut normals: Vec<Point3> = Vec::new();
        let mut faces: Vec<Face> = Vec::new();
        let ghost mut fbs: Seq<Seq<u8>> = seq![];
        let mut i: usize = 0;
        proof {
            assert(lbs.skip(0) =~= lbs);
        }
        while i < n
            invariant
                n == lines@.len(),
                lbs == lines_bytes(lines@),
                lbs.len() == n,
                0 <= i <= n,
                spec_obj_go(lbs.skip(i as int), verts@, normals@, fbs) == spec_obj_scan(lbs),
                faces@.len() == fbs.len(),
                forall|k: int|
                    0 <= k < fbs.len() ==> spec_face_of(fbs[k], #[trigger] faces@[k]),
            decreases n - i,
        {
            proof {
                assert(lbs.skip(i as int)[0] == lbs[i as int]);
                assert(lbs.skip(i as int).skip(1) =~= lbs.skip(i as int + 1));
            }
            let bs = lines[i].as_str().as_bytes();
            proof {
                assert(bs@ == lbs[i as int]);
            }
            if bs.len() >= 2 && bs[0] == 118 && bs[1] == 32 {
                let tail = tail_from(bs, 2);
                match parse_point(tail.as_slice()) {
                    Some(p) => {
                        verts.push(p);
                    },
                    None => {
                        return None;
                    },
                }
            } else if bs.len() >= 2 && bs[0] == 102 && bs[1] == 32 {
                let tail = tail_from(bs, 2);
                let f = parse_face(tail.as_slice());
                faces.push(f);
                proof {
                    fbs = fbs.push(bs@.skip(2));
                }
            } else if bs.len() >= 3 && bs[0] == 118 && bs[1] == 110 && bs[2] == 32 {
                let tail = tail_from(bs, 3);
                match parse_point(tail.as_slice()) {
                    Some(p) => {
                        normals.push(p);
                    },
                    None => {
                        return None;
                    },
                }
            }
            i = i + 1;
        }
        proof {
            assert(lbs.skip(n as int) =~= Seq::<Seq<u8>>::empty());
        }
        Some(Obj { verts, normals, faces })
    }
}
} // verus!
