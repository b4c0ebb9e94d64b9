use vstd::prelude::*;

use crate::project::ScreenPos;

verus! {

/// ASCII decimal digits of `n`, most significant first, no leading zeros.
pub open spec fn dec_digits(n: nat) -> Seq<u8>
    decreases n,
{
    if n < 10 {
        seq![(48 + n) as u8]
    } else {
        dec_digits(n / 10).push((48 + n % 10) as u8)
    }
}

/// Decimal rendering of a signed value: a leading minus sign when `n` is
/// negative, then the digits of its magnitude.
pub open spec fn dec_bytes(n: int) -> Seq<u8> {
    if n < 0 {
        seq![45u8] + dec_digits((-n) as nat)
    } else {
        dec_digits(n as nat)
    }
}

/// The clear-and-home control bytes that begin every frame: ESC [ H
/// followed by ESC [ 2 J.
pub open spec fn clear_home_spec() -> Seq<u8> {
    seq![27u8, 91u8, 72u8, 27u8, 91u8, 50u8, 74u8]
}

/// The bytes that draw one point: the cursor-positioning sequence
/// ESC [ row ; col H, then the two-character glyph "##".
pub open spec fn draw_bytes_spec(sp: ScreenPos) -> Seq<u8> {
    seq![27u8, 91u8] + dec_bytes(sp.row as int) + seq![59u8] + dec_bytes(sp.col as int) + seq![
        72u8,
        35u8,
        35u8,
    ]
}

/// The whole output of one frame: clear-and-home, then every position of
/// the frame drawn in order.
pub open spec fn frame_bytes_spec(frame: Seq<ScreenPos>) -> Seq<u8>
    decreases frame.len(),
{
    if frame.len() == 0 {
        clear_home_spec()
    } else {
        frame_bytes_spec(frame.drop_last()) + draw_bytes_spec(frame.last())
    }
}

fn push_u64_digits(n: u64, out: &mut Vec<u8>)
    ensures
        final(out)@ == old(out)@ + dec_digits(n as nat),
    decreases n,
{
    if n < 10 {
        out.push(48 + n as u8);
        proof {
            assert(out@ =~= old(out)@ + dec_digits(n as nat));
        }
    } else {
        push_u64_digits(n / 10, out);
        out.push(48 + (n % 10) as u8);
        proof {
            assert(out@ =~= old(out)@ + dec_digits(n as nat));
        }
    }
}

fn push_i64_dec(n: i64, out: &mut Vec<u8>)
    requires
        n != i64::MIN,
    ensures
        final(out)@ == old(out)@ + dec_bytes(n as int),
{
    if n < 0 {
        out.push(45);
        push_u64_digits((-n) as u64, out);
        proof {
            assert(out@ =~= old(out)@ + dec_bytes(n as int));
        }
    } else {
        push_u64_digits(n as u64, out);
    }
}

/// Append the cursor-positioning sequence and glyph for one screen
/// position.
pub fn push_draw_bytes(sp: ScreenPos, out: &mut Vec<u8>)
    requires
        sp.row != i64::MIN,
        sp.col != i64::MIN,
    ensures
        final(out)@ == old(out)@ + draw_bytes_spec(sp),
{
    out.push(27);
    out.push(91);
    push_i64_dec(sp.row, out);
    out.push(59);
    push_i64_dec(sp.col, out);
    out.push(72);
    out.push(35);
    out.push(35);
    proof {
        assert(out@ =~= old(out)@ + draw_bytes_spec(sp));
    }
}

/// The byte stream of a whole frame, ready for the terminal: clear bytes,
/// then each drawable point's positioning sequence and glyph.
pub fn frame_bytes(frame: &Vec<ScreenPos>) -> (out: Vec<u8>)
    requires
        forall|k: int|
            0 <= k < frame@.len() ==> (#[trigger] frame@[k]).row != i64::MIN && frame@[k].col
                != i64::MIN,
    ensures
        out@ == frame_bytes_spec(frame@),
{
    let mut out: Vec<u8> = Vec::new();
    out.push(27);
    out.push(91);
    out.push(72);
    out.push(27);
    out.push(91);
    out.push(50);
    out.push(74);
    proof {
        assert(out@ =~= clear_home_spec());
        assert(out@ =~= frame_bytes_spec(frame@.take(0)));
    }
    let n: usize = frame.len();
    let mut i: usize = 0;
    while i < n
        invariant
            n == frame@.len(),
            i <= n,
            out@ == frame_bytes_spec(frame@.take(i as int)),
            forall|k: int|
                0 <= k < frame@.len() ==> (#[trigger] frame@[k]).row != i64::MIN && frame@[k].col
                    != i64::MIN,
        decreases n - i,
    {
        push_draw_bytes(frame[i], &mut out);
        proof {
            assert(frame@.take((i + 1) as int).drop_last() =~= frame@.take(i as int));
            assert(frame@.take((i + 1) as int).last() == frame@[i as int]);
        }
        i = i + 1;
    }
    proof {
        assert(frame@.take(n as int) =~= frame@);
    }
    out
}

} // verus!
