use vstd::prelude::*;

use crate::codebox::{
    backslash, initial, moved, navigated, on_grid, opposite, slash, well_formed, BoxView,
    Direction,
};
use crate::semantics::{
    active, as_index, asking, cell, depth, nat_value, popped, pushed, redirected, step, top, Fault,
    RequestView, TickView,
};
use crate::grid::{lines_of, longest, padded, split_rest};
use crate::stack::bytes_of;
use crate::value::{lemma_encode_exact, truncated, Value};

verus! {

/// Each of the mirrors `/` and `\` undoes itself: meeting the same mirror
/// twice restores the heading. Meeting one and then the other does not: it
/// reverses the heading.
pub proof fn lemma_mirrors(d: Direction)
    ensures
        slash(slash(d)) == d,
        backslash(backslash(d)) == d,
        backslash(slash(d)) == opposite(d),
        slash(backslash(d)) == opposite(d),
        backslash(slash(d)) != d,
{
}

/// Passing the same mirror twice, as an instruction, restores the heading and
/// the memory of a left heading.
pub proof fn lemma_mirror_instruction_twice(s: BoxView, k: u32)
    ensures
        navigated(navigated(s, 47u8, k), 47u8, k).dir == s.dir,
        navigated(navigated(s, 92u8, k), 92u8, k).dir == s.dir,
        s.dir == Direction::Left ==> navigated(navigated(s, 47u8, k), 47u8, k).was_left,
        s.dir == Direction::Right ==> !navigated(navigated(s, 47u8, k), 47u8, k).was_left,
{
}

/// Movement wraps around the grid: right from the last column to column 0,
/// left from column 0 to the last column, and likewise for rows.
pub proof fn lemma_wrap_around(s: BoxView)
    requires
        s.width >= 1,
        s.height >= 1,
    ensures
        s.dir == Direction::Right && s.x == s.width - 1 ==> moved(s).x == 0 && moved(s).y == s.y,
        s.dir == Direction::Left && s.x == 0 ==> moved(s).x == s.width - 1 && moved(s).y == s.y,
        s.dir == Direction::Down && s.y == s.height - 1 ==> moved(s).y == 0 && moved(s).x == s.x,
        s.dir == Direction::Up && s.y == 0 ==> moved(s).y == s.height - 1 && moved(s).x == s.x,
{
}

/// In string mode every byte but the closing quote is pushed as its code,
/// whatever instruction it would otherwise be, and the fish moves on. The
/// value pushed is exactly the code: it reads back as the byte.
pub proof fn lemma_string_mode_pushes(s: BoxView, k: u32)
    requires
        well_formed(s),
        on_grid(s),
        s.string_mode != 0,
        cell(s) != s.string_mode,
    ensures
        truncated(nat_value(cell(s) as u64), 0xFF) == cell(s),
        step(s, k) == Ok::<(BoxView, TickView), Fault>(
            (
                moved(pushed(s, nat_value(cell(s) as u64))),
                TickView { output: None, halted: false, sleep_ms: 0, request: RequestView::Nothing },
            ),
        ),
{
    lemma_encode_exact(cell(s) as u64, 0xFF);
}

/// A quote opens string mode and the same quote closes it; neither is
/// pushed, and no stack changes (outside deep-sea mode, which ignores them).
pub proof fn lemma_quotes_not_pushed(s: BoxView, k: u32)
    requires
        well_formed(s),
        on_grid(s),
        !s.deep_sea,
        cell(s) == 34u8 || cell(s) == 39u8,
        s.string_mode == 0 || s.string_mode == cell(s),
    ensures
        step(s, k) is Ok,
        step(s, k)->Ok_0.0.stacks == s.stacks,
        step(s, k)->Ok_0.0.string_mode == (if s.string_mode == 0 {
            cell(s)
        } else {
            0
        }),
        step(s, k)->Ok_0.1.output is None,
{
}

/// `F` with a file open hands the host exactly the popped values as bytes,
/// in stack order, to write at the path that opened the file; `F` with none
/// open asks for the path made of the popped bytes and remembers it.
pub proof fn lemma_redirect_phases(s: BoxView)
    requires
        well_formed(s),
        depth(s) >= 1,
        as_index(top(s, 0)) <= depth(s) - 1,
    ensures
        ({
            let k = as_index(top(s, 0)) as int;
            let t = popped(s, 1);
            let n = depth(t) as int;
            let bytes = bytes_of(active(t).values.subrange(n - k, n));
            &&& s.file_path is None ==> redirected(s) == asking(
                BoxView { file_path: Some(bytes), ..popped(t, k) },
                RequestView::OpenFile { path: bytes },
            )
            &&& s.file_path is Some ==> redirected(s) == asking(
                BoxView { file_path: None, ..popped(t, k) },
                RequestView::WriteFile { path: s.file_path->0, bytes: bytes },
            )
        }),
{
}

/// A program made of the terminator alone halts on its first tick, with no
/// output, whatever the initial stack.
pub proof fn lemma_terminator_alone_halts(stack: Seq<Value>, compat: bool, k: u32)
    ensures
        step(initial(seq![59u8], stack, compat), k) is Ok,
        step(initial(seq![59u8], stack, compat), k)->Ok_0.1.halted,
        step(initial(seq![59u8], stack, compat), k)->Ok_0.1.output is None,
{
    let b = seq![59u8];
    assert(split_rest(b, 1, Seq::empty(), seq![59u8]) == seq![seq![59u8]]);
    assert(split_rest(b, 0, Seq::empty(), Seq::empty()) == split_rest(
        b,
        1,
        Seq::empty(),
        Seq::<u8>::empty().push(59u8),
    ));
    assert(Seq::<u8>::empty().push(59u8) =~= seq![59u8]);
    assert(lines_of(b) == seq![seq![59u8]]);
    assert(longest(lines_of(b), 1) == 1) by {
        reveal_with_fuel(longest, 2);
    }
    assert(padded(seq![59u8], 1) =~= seq![59u8]);
    let s = initial(b, stack, compat);
    assert(s.grid[0] == seq![59u8]);
    assert(cell(s) == 59u8);
}

} // verus!
