use vstd::prelude::*;

verus! {

/// The spinner's frames, shown in turn while something loads.
pub open spec fn spinner_frames() -> Seq<Seq<char>> {
    seq![seq!['⠋'], seq!['⠙'], seq!['⠹'], seq!['⠸']]
}

/// The spinner frame for redraw number `tick`.
pub fn spinner_glyph(tick: usize) -> (r: &'static str)
    ensures
        r@ == spinner_frames()[(tick % 4) as int],
{
    let k = tick % 4;
    proof {
        reveal_strlit("⠋");
        reveal_strlit("⠙");
        reveal_strlit("⠹");
        reveal_strlit("⠸");
    }
    if k == 0 {
        "⠋"
    } else if k == 1 {
        "⠙"
    } else if k == 2 {
        "⠹"
    } else {
        "⠸"
    }
}

/// The redraw counter after one more tick; it wraps around.
pub fn next_tick(tick: usize) -> (r: usize)
    ensures
        r == if tick == usize::MAX { 0 } else { (tick + 1) as usize },
{
    tick.wrapping_add(1)
}

} // verus!
