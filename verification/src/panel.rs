//! Panel composition (`update_panels`): the standard screen, then each panel's window from the
//! bottom of the deck to the top, copied onto the virtual screen, with the cursor parked at the
//! top window's cursor in screen coordinates.

use vstd::prelude::*;
use crate::window::{blitted, wf_v, Window, WindowV};

verus! {

/// `win`'s cells copied onto screen `a` at its screen position, clipped, giving `b`.
pub open spec fn blit_onto(win: WindowV, a: WindowV, b: WindowV) -> bool {
    blitted(win, a, b, -win.begy, -win.begx, 0, a.rows - 1, 0, a.cols - 1, false)
}

/// `steps` records the composition: the screen before, after the standard screen, and after
/// each panel of `deck` in turn.
pub open spec fn composed(std: WindowV, deck: Seq<WindowV>, steps: Seq<WindowV>) -> bool {
    &&& steps.len() == deck.len() + 2
    &&& blit_onto(std, steps[0], steps[1])
    &&& forall|k: int| 0 <= k < deck.len() ==> blit_onto(#[trigger] deck[k], steps[k + 1], steps[k + 2])
}

/// The window the cursor is parked in: the top panel's, else the standard screen.
pub open spec fn top_window(std: WindowV, deck: Seq<WindowV>) -> WindowV {
    if deck.len() == 0 { std } else { deck.last() }
}

/// The models of a deck of windows.
pub open spec fn deck_v(deck: Seq<Window>) -> Seq<WindowV> {
    deck.map_values(|w: Window| w@)
}

/// `update_panels`: compose the standard screen and the deck (bottom first) onto `newscr`;
/// returns where the cursor is parked: the top window's cursor in screen coordinates.
pub fn update_panels(stdscr: &Window, deck: &Vec<Window>, newscr: &mut Window) -> (park: (i32, i32))
    requires
        stdscr.wf(),
        old(newscr).wf(),
        forall|k: int| 0 <= k < deck@.len() ==> (#[trigger] deck@[k]).wf(),
        i32::MIN <= top_window(stdscr@, deck_v(deck@)).begy + top_window(stdscr@, deck_v(deck@)).cury <= i32::MAX,
        i32::MIN <= top_window(stdscr@, deck_v(deck@)).begx + top_window(stdscr@, deck_v(deck@)).curx <= i32::MAX,
    ensures
        final(newscr).wf(),
        exists|steps: Seq<WindowV>| #[trigger] composed(stdscr@, deck_v(deck@), steps) && steps[0] == old(newscr)@
            && steps.last() == final(newscr)@,
        park.0 == top_window(stdscr@, deck_v(deck@)).begy + top_window(stdscr@, deck_v(deck@)).cury,
        park.1 == top_window(stdscr@, deck_v(deck@)).begx + top_window(stdscr@, deck_v(deck@)).curx,
{
    let ghost dv = deck_v(deck@);
    let ghost s0 = newscr@;
    stdscr.overwrite_into(newscr);
    let ghost steps: Seq<WindowV> = seq![s0, newscr@];
    let mut k: usize = 0;
    while k < deck.len()
        invariant
            k <= deck@.len(),
            dv == deck_v(deck@),
            forall|j: int| 0 <= j < deck@.len() ==> (#[trigger] deck@[j]).wf(),
            newscr.wf(),
            steps.len() == k + 2,
            steps[0] == s0,
            steps[k + 1] == newscr@,
            blit_onto(stdscr@, steps[0], steps[1]),
            forall|j: int| 0 <= j < k ==> blit_onto(#[trigger] dv[j], steps[j + 1], steps[j + 2]),
        decreases deck@.len() - k,
    {
        let ghost before = steps;
        deck[k].overwrite_into(newscr);
        proof {
            steps = steps.push(newscr@);
            assert(dv[k as int] == deck@[k as int]@);
            assert forall|j: int| 0 <= j < k + 1 implies blit_onto(#[trigger] dv[j], steps[j + 1], steps[j + 2]) by {
                if j < k {
                    assert(steps[j + 1] == before[j + 1] && steps[j + 2] == before[j + 2]);
                }
            }
        }
        k = k + 1;
    }
    proof {
        assert(composed(stdscr@, dv, steps));
        assert(steps.last() == newscr@);
        assert(composed(stdscr@, dv, steps) && steps[0] == s0 && steps.last() == newscr@);
    }
    let top: &Window = if deck.len() == 0 { stdscr } else { &deck[deck.len() - 1] };
    proof {
        if deck@.len() > 0 {
            assert(dv.last() == deck@[deck@.len() - 1]@);
        }
    }
    let (by, bx) = top.getbegyx();
    let (cy, cx) = top.getyx();
    (by + cy, bx + cx)
}

} // verus!
