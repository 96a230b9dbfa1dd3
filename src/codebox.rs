use vstd::prelude::*;

use crate::grid::{build_grid, grid_of, lemma_grid_rectangular, lines_of, longest};
use crate::stack::{Stack, StackView};
use crate::outside::{
    char_from_code, char_text, decimal, local_hour, local_minute, local_second, random_heading,
};
use crate::semantics::{
    active, arith_op_of, called, closed, depth, executed, is_navigation_byte,
    lemma_popped_again, literal_of, nat_value, opened, operate, operate_more, redirected,
    returned, stack_op_of, step, cell, needs_sample, sample_allowed, Request, Tick, TickView, popped, pushed, set_active, top, Fault, StackOp, op_applied, op_ready,
};
use crate::value::{lemma_encode_exact, Value, EXACT_LIMIT, MINUS_ONE_BITS};
use vstd::string::StringSliceAdditionalSpecFns;

verus! {

/// The fish's heading.
#[derive(Clone, Copy, Debug, PartialEq, Eq, Structural)]
pub enum Direction {
    Right,
    Down,
    Left,
    Up,
}

/// The heading of index 0 to 3, in the order Right, Down, Left, Up.
pub open spec fn heading(i: u32) -> Direction {
    if i == 0 {
        Direction::Right
    } else if i == 1 {
        Direction::Down
    } else if i == 2 {
        Direction::Left
    } else {
        Direction::Up
    }
}

/// The mirror `/`.
pub open spec fn slash(d: Direction) -> Direction {
    match d {
        Direction::Right => Direction::Up,
        Direction::Down => Direction::Left,
        Direction::Left => Direction::Down,
        Direction::Up => Direction::Right,
    }
}

/// The mirror `\`.
pub open spec fn backslash(d: Direction) -> Direction {
    match d {
        Direction::Right => Direction::Down,
        Direction::Down => Direction::Right,
        Direction::Left => Direction::Up,
        Direction::Up => Direction::Left,
    }
}

/// The mirror `#`: the opposite heading.
pub open spec fn opposite(d: Direction) -> Direction {
    match d {
        Direction::Right => Direction::Left,
        Direction::Down => Direction::Up,
        Direction::Left => Direction::Right,
        Direction::Up => Direction::Down,
    }
}

/// The mirror `|`: turns back horizontal headings only.
pub open spec fn bar(d: Direction) -> Direction {
    match d {
        Direction::Right => Direction::Left,
        Direction::Left => Direction::Right,
        _ => d,
    }
}

/// The mirror `_`: turns back vertical headings only.
pub open spec fn underscore(d: Direction) -> Direction {
    match d {
        Direction::Down => Direction::Up,
        Direction::Up => Direction::Down,
        _ => d,
    }
}

impl Direction {
    /// The heading of index 0 to 3, in the order Right, Down, Left, Up.
    pub fn from_index(i: u32) -> (r: Direction)
        requires
            i < 4,
        ensures
            r == heading(i),
    {
        if i == 0 {
            Direction::Right
        } else if i == 1 {
            Direction::Down
        } else if i == 2 {
            Direction::Left
        } else {
            Direction::Up
        }
    }
}

/// What the interpreter's state is: the fish, the grid, the stacks and the
/// file redirection.
pub struct BoxView {
    pub x: usize,
    pub y: usize,
    pub width: usize,
    pub height: usize,
    pub dir: Direction,
    pub was_left: bool,
    pub escaped_hook: bool,
    pub grid: Seq<Seq<u8>>,
    pub stacks: Seq<StackView>,
    pub p: usize,
    /// 0 outside string mode, otherwise the quote that opened it.
    pub string_mode: u8,
    pub compat: bool,
    pub deep_sea: bool,
    /// The path of the file redirected for reading, while there is one.
    pub file_path: Option<Seq<u8>>,
}

/// A program with its interpreter state, run one instruction at a time by `swim`.
pub struct CodeBox {
    f_x: usize,
    f_y: usize,
    width: usize,
    height: usize,
    f_dir: Direction,
    was_left: bool,
    escaped_hook: bool,
    code_box: Vec<Vec<u8>>,
    stacks: Vec<Stack>,
    p: usize,
    string_mode: u8,
    compatibility_mode: bool,
    deep_sea: bool,
    file_open: bool,
    file_path: Vec<u8>,
}

impl View for CodeBox {
    type V = BoxView;

    closed spec fn view(&self) -> BoxView {
        BoxView {
            x: self.f_x,
            y: self.f_y,
            width: self.width,
            height: self.height,
            dir: self.f_dir,
            was_left: self.was_left,
            escaped_hook: self.escaped_hook,
            grid: self.code_box@.map_values(|row: Vec<u8>| row@),
            stacks: self.stacks@.map_values(|s: Stack| s@),
            p: self.p,
            string_mode: self.string_mode,
            compat: self.compatibility_mode,
            deep_sea: self.deep_sea,
            file_path: if self.file_open {
                Some(self.file_path@)
            } else {
                None
            },
        }
    }
}

/// The grid is `height` rows of `width` bytes, and the active stack exists.
pub open spec fn well_formed(s: BoxView) -> bool {
    &&& s.grid.len() == s.height
    &&& forall|i: int| 0 <= i < s.grid.len() ==> #[trigger] s.grid[i].len() == s.width
    &&& s.p < s.stacks.len()
}

/// The fish stands on a cell of the grid.
pub open spec fn on_grid(s: BoxView) -> bool {
    s.x < s.width && s.y < s.height
}

/// A new heading; a horizontal one also records whether it is Left.
pub open spec fn turned(s: BoxView, d: Direction) -> BoxView {
    BoxView {
        dir: d,
        was_left: if d == Direction::Left {
            true
        } else if d == Direction::Right {
            false
        } else {
            s.was_left
        },
        ..s
    }
}

/// One step along the heading, wrapping around the edges of the grid.
pub open spec fn moved(s: BoxView) -> BoxView {
    match s.dir {
        Direction::Right => BoxView {
            x: if s.x + 1 >= s.width {
                0
            } else {
                (s.x + 1) as usize
            },
            ..s
        },
        Direction::Down => BoxView {
            y: if s.y + 1 >= s.height {
                0
            } else {
                (s.y + 1) as usize
            },
            ..s
        },
        Direction::Left => BoxView {
            x: if s.x > 0 {
                (s.x - 1) as usize
            } else {
                (s.width - 1) as usize
            },
            ..s
        },
        Direction::Up => BoxView {
            y: if s.y > 0 {
                (s.y - 1) as usize
            } else {
                (s.height - 1) as usize
            },
            ..s
        },
    }
}

/// The instructions that act even in deep-sea mode.
pub open spec fn is_navigation(r: u8) -> bool {
    r == 32u8 || r == 62u8 || r == 118u8 || r == 60u8 || r == 94u8 || r == 124u8 || r == 95u8
        || r == 35u8 || r == 47u8 || r == 92u8 || r == 120u8 || r == 79u8 || r == 96u8
}

/// The effect of a navigation instruction; `sample` is the heading index
/// that `x` draws.
pub open spec fn navigated(s: BoxView, r: u8, sample: u32) -> BoxView {
    if r == 62u8 {
        turned(s, Direction::Right)
    } else if r == 118u8 {
        turned(s, Direction::Down)
    } else if r == 60u8 {
        turned(s, Direction::Left)
    } else if r == 94u8 {
        turned(s, Direction::Up)
    } else if r == 124u8 {
        turned(s, bar(s.dir))
    } else if r == 95u8 {
        turned(s, underscore(s.dir))
    } else if r == 35u8 {
        turned(s, opposite(s.dir))
    } else if r == 47u8 {
        turned(s, slash(s.dir))
    } else if r == 92u8 {
        turned(s, backslash(s.dir))
    } else if r == 120u8 {
        BoxView {
            dir: heading(sample % 4),
            was_left: heading(sample % 4) != Direction::Right,
            ..s
        }
    } else if r == 79u8 {
        BoxView { deep_sea: false, ..s }
    } else if r == 96u8 {
        if s.dir == Direction::Down || s.dir == Direction::Up {
            BoxView {
                dir: if s.was_left {
                    Direction::Left
                } else {
                    Direction::Right
                },
                ..s
            }
        } else if s.escaped_hook {
            BoxView { dir: Direction::Up, escaped_hook: false, ..s }
        } else {
            BoxView { dir: Direction::Down, escaped_hook: true, ..s }
        }
    } else {
        s
    }
}

/// The values of an initial stack, none when it is not given.
pub open spec fn values_given(stack: Option<Vec<Value>>) -> Seq<Value> {
    match stack {
        Some(v) => v@,
        None => Seq::<Value>::empty(),
    }
}

/// The state of a new program: the fish at the top left heading right, one
/// stack, nothing redirected.
pub open spec fn initial(b: Seq<u8>, stack: Seq<Value>, compat: bool) -> BoxView {
    let lines = lines_of(b);
    BoxView {
        x: 0,
        y: 0,
        width: longest(lines, lines.len() as int) as usize,
        height: lines.len() as usize,
        dir: Direction::Right,
        was_left: false,
        escaped_hook: false,
        grid: grid_of(b),
        stacks: seq![StackView { values: stack, register: None }],
        p: 0,
        string_mode: 0,
        compat: compat,
        deep_sea: false,
        file_path: None,
    }
}

impl CodeBox {
    /// A program ready to run: `script` laid out as a grid, `stack` as the
    /// initial stack (empty when `None`), and `compatibility_mode` to reverse
    /// the values that `[` and `]` move, as an older interpreter did.
    pub fn new(script: &str, stack: Option<Vec<Value>>, compatibility_mode: bool) -> (r: CodeBox)
        ensures
            r@ == initial(script.spec_bytes(), values_given(stack), compatibility_mode),
            well_formed(r@),
    {
        let ghost init_vals = values_given(stack);
        let (code_box, width) = build_grid(script);
        let first = Stack::new(stack);
        let mut stacks: Vec<Stack> = Vec::new();
        stacks.push(first);
        let r = CodeBox {
            f_x: 0,
            f_y: 0,
            width: width,
            height: code_box.len(),
            f_dir: Direction::Right,
            was_left: false,
            escaped_hook: false,
            code_box: code_box,
            stacks: stacks,
            p: 0,
            string_mode: 0,
            compatibility_mode: compatibility_mode,
            deep_sea: false,
            file_open: false,
            file_path: Vec::new(),
        };
        proof {
            let ghost s = initial(script.spec_bytes(), init_vals, compatibility_mode);
            lemma_grid_rectangular(script.spec_bytes());
            assert(r@.stacks =~= s.stacks);
            assert(r@.grid =~= s.grid);
        }
        r
    }

    /// Moves the fish one cell along its heading, wrapping around the edges.
    pub fn shift(&mut self)
        requires
            old(self)@.width >= 1,
            old(self)@.height >= 1,
        ensures
            final(self)@ == moved(old(self)@),
    {
        match self.f_dir {
            Direction::Right => {
                if self.f_x >= self.width - 1 {
                    self.f_x = 0;
                } else {
                    self.f_x = self.f_x + 1;
                }
            },
            Direction::Down => {
                if self.f_y >= self.height - 1 {
                    self.f_y = 0;
                } else {
                    self.f_y = self.f_y + 1;
                }
            },
            Direction::Left => {
                if self.f_x > 0 {
                    self.f_x = self.f_x - 1;
                } else {
                    self.f_x = self.width - 1;
                }
            },
            Direction::Up => {
                if self.f_y > 0 {
                    self.f_y = self.f_y - 1;
                } else {
                    self.f_y = self.height - 1;
                }
            },
        }
    }

    fn turn(&mut self, d: Direction)
        ensures
            final(self)@ == turned(old(self)@, d),
    {
        self.f_dir = d;
        if d == Direction::Left {
            self.was_left = true;
        } else if d == Direction::Right {
            self.was_left = false;
        }
    }

    /// Carries out a navigation instruction, `sample` being the heading index
    /// that `x` uses.
    fn navigate(&mut self, r: u8, sample: u32)
        requires
            is_navigation(r),
        ensures
            final(self)@ == navigated(old(self)@, r, sample),
    {
        if r == 62u8 {  // >
            self.turn(Direction::Right);
        } else if r == 118u8 {  // v
            self.turn(Direction::Down);
        } else if r == 60u8 {  // <
            self.turn(Direction::Left);
        } else if r == 94u8 {  // ^
            self.turn(Direction::Up);
        } else if r == 124u8 {  // |
            let d = match self.f_dir {
                Direction::Right => Direction::Left,
                Direction::Left => Direction::Right,
                other => other,
            };
            self.turn(d);
        } else if r == 95u8 {  // _
            let d = match self.f_dir {
                Direction::Down => Direction::Up,
                Direction::Up => Direction::Down,
                other => other,
            };
            self.turn(d);
        } else if r == 35u8 {  // #
            let d = match self.f_dir {
                Direction::Right => Direction::Left,
                Direction::Down => Direction::Up,
                Direction::Left => Direction::Right,
                Direction::Up => Direction::Down,
            };
            self.turn(d);
        } else if r == 47u8 {  // /
            let d = match self.f_dir {
                Direction::Right => Direction::Up,
                Direction::Down => Direction::Left,
                Direction::Left => Direction::Down,
                Direction::Up => Direction::Right,
            };
            self.turn(d);
        } else if r == 92u8 {  // \\
            let d = match self.f_dir {
                Direction::Right => Direction::Down,
                Direction::Down => Direction::Right,
                Direction::Left => Direction::Up,
                Direction::Up => Direction::Left,
            };
            self.turn(d);
        } else if r == 120u8 {  // x
            self.f_dir = Direction::from_index(sample % 4);
            self.was_left = self.f_dir != Direction::Right;
        } else if r == 79u8 {  // O
            self.deep_sea = false;
        } else if r == 96u8 {  // `
            if self.f_dir == Direction::Down || self.f_dir == Direction::Up {
                if self.was_left {
                    self.f_dir = Direction::Left;
                } else {
                    self.f_dir = Direction::Right;
                }
            } else if self.escaped_hook {
                self.f_dir = Direction::Up;
                self.escaped_hook = false;
            } else {
                self.f_dir = Direction::Down;
                self.escaped_hook = true;
            }
        }
    }

    fn depth(&self) -> (r: usize)
        requires
            well_formed(self@),
        ensures
            r == depth(self@),
    {
        self.stacks[self.p].len()
    }

    /// Puts `st` in place of the active stack and returns the one it replaces.
    fn swap_active(&mut self, st: Stack) -> (r: Stack)
        requires
            well_formed(old(self)@),
        ensures
            r@ == active(old(self)@),
            final(self)@ == set_active(old(self)@, st@),
            well_formed(final(self)@),
    {
        self.stacks.push(st);
        let r = self.stacks.swap_remove(self.p);
        proof {
            assert(self@.stacks =~= old(self)@.stacks.update(old(self)@.p as int, st@));
        }
        r
    }

    /// Applies an in-place stack instruction to the active stack.
    fn apply(&mut self, op: StackOp)
        requires
            well_formed(old(self)@),
            op_ready(op, active(old(self)@)),
        ensures
            final(self)@ == set_active(old(self)@, op_applied(op, active(old(self)@))),
            well_formed(final(self)@),
    {
        let mut st = self.swap_active(Stack::new(None));
        match op {
            StackOp::Register => st.register(),
            StackOp::Duplicate => st.extend(),
            StackOp::Reverse => st.reverse(),
            StackOp::SwapTwo => st.swap_two(),
            StackOp::RotateThree => st.swap_three(),
            StackOp::ShiftRight => st.shift_right(),
            StackOp::ShiftLeft => st.shift_left(),
        }
        let _ = self.swap_active(st);
        proof {
            assert(self@.stacks =~= set_active(old(self)@, op_applied(op, active(old(self)@))).stacks);
        }
    }

    /// Appends `r` to the end of the active stack.
    pub fn push(&mut self, r: Value)
        requires
            well_formed(old(self)@),
        ensures
            final(self)@ == pushed(old(self)@, r),
            well_formed(final(self)@),
    {
        let mut st = self.swap_active(Stack::new(None));
        st.push(r);
        let _ = self.swap_active(st);
        proof {
            assert(self@.stacks =~= pushed(old(self)@, r).stacks);
        }
    }

    /// Removes the value on the end of the active stack and returns it.
    pub fn pop(&mut self) -> (r: Result<Value, Fault>)
        requires
            well_formed(old(self)@),
        ensures
            well_formed(final(self)@),
            match r {
                Ok(v) => depth(old(self)@) > 0 && v == top(old(self)@, 0) && final(self)@ == popped(
                    old(self)@,
                    1,
                ),
                Err(f) => depth(old(self)@) == 0 && f == Fault::Underflow && final(self)@ == old(
                    self,
                )@,
            },
    {
        if self.depth() == 0 {
            return Err(Fault::Underflow);
        }
        let mut st = self.swap_active(Stack::new(None));
        let v = st.pop();
        let _ = self.swap_active(st);
        proof {
            assert(self@.stacks =~= popped(old(self)@, 1).stacks);
        }
        Ok(v)
    }

    /// Hands the byte that an input request read to the program: its value,
    /// or -1 when there was none.
    pub fn supply_input(&mut self, byte: Option<u8>)
        requires
            well_formed(old(self)@),
        ensures
            final(self)@ == pushed(
                old(self)@,
                match byte {
                    Some(b) => nat_value(b as u64),
                    None => Value { bits: MINUS_ONE_BITS },
                },
            ),
            well_formed(final(self)@),
    {
        match byte {
            Some(b) => self.push(Value::from_u64(b as u64)),
            None => self.push(Value::minus_one()),
        }
    }

    /// Pushes the length of the active stack (`l`).
    pub fn stack_length(&mut self) -> (r: Result<(), Fault>)
        requires
            well_formed(old(self)@),
        ensures
            r is Err ==> final(self)@ == old(self)@,
            well_formed(final(self)@),
            match r {
                Ok(_) => depth(old(self)@) < EXACT_LIMIT && final(self)@ == pushed(
                    old(self)@,
                    nat_value(depth(old(self)@) as u64),
                ),
                Err(f) => depth(old(self)@) >= EXACT_LIMIT && f == Fault::Unrepresentable,
            },
    {
        let n = self.depth();
        if n as u64 >= EXACT_LIMIT {
            return Err(Fault::Unrepresentable);
        }
        self.push(Value::from_u64(n as u64));
        Ok(())
    }

    fn checked_apply(&mut self, op: StackOp) -> (r: Result<(), Fault>)
        requires
            well_formed(old(self)@),
        ensures
            r is Err ==> final(self)@ == old(self)@,
            well_formed(final(self)@),
            match r {
                Ok(_) => op_ready(op, active(old(self)@)) && final(self)@ == set_active(
                    old(self)@,
                    op_applied(op, active(old(self)@)),
                ),
                Err(f) => !op_ready(op, active(old(self)@)) && f == Fault::Underflow,
            },
    {
        let ready = match op {
            StackOp::Register => self.stacks[self.p].has_register() || self.depth() > 0,
            StackOp::Reverse => true,
            StackOp::SwapTwo => self.depth() >= 2,
            StackOp::RotateThree => self.depth() >= 3,
            _ => self.depth() > 0,
        };
        if !ready {
            return Err(Fault::Underflow);
        }
        self.apply(op);
        Ok(())
    }

    /// `&` on the active stack.
    pub fn register(&mut self) -> (r: Result<(), Fault>)
        requires
            well_formed(old(self)@),
        ensures
            r is Err ==> final(self)@ == old(self)@,
            well_formed(final(self)@),
            match r {
                Ok(_) => op_ready(StackOp::Register, active(old(self)@)) && final(self)@
                    == set_active(old(self)@, op_applied(StackOp::Register, active(old(self)@))),
                Err(f) => !op_ready(StackOp::Register, active(old(self)@)) && f == Fault::Underflow,
            },
    {
        self.checked_apply(StackOp::Register)
    }

    /// `r` on the active stack.
    pub fn reverse_stack(&mut self)
        requires
            well_formed(old(self)@),
        ensures
            well_formed(final(self)@),
            final(self)@ == set_active(old(self)@, op_applied(StackOp::Reverse, active(old(self)@))),
    {
        self.apply(StackOp::Reverse)
    }

    /// `:` on the active stack.
    pub fn extend_stack(&mut self) -> (r: Result<(), Fault>)
        requires
            well_formed(old(self)@),
        ensures
            r is Err ==> final(self)@ == old(self)@,
            well_formed(final(self)@),
            match r {
                Ok(_) => op_ready(StackOp::Duplicate, active(old(self)@)) && final(self)@
                    == set_active(old(self)@, op_applied(StackOp::Duplicate, active(old(self)@))),
                Err(f) => !op_ready(StackOp::Duplicate, active(old(self)@)) && f == Fault::Underflow,
            },
    {
        self.checked_apply(StackOp::Duplicate)
    }

    /// `$` on the active stack.
    pub fn stack_swap_two(&mut self) -> (r: Result<(), Fault>)
        requires
            well_formed(old(self)@),
        ensures
            r is Err ==> final(self)@ == old(self)@,
            well_formed(final(self)@),
            match r {
                Ok(_) => op_ready(StackOp::SwapTwo, active(old(self)@)) && final(self)@
                    == set_active(old(self)@, op_applied(StackOp::SwapTwo, active(old(self)@))),
                Err(f) => !op_ready(StackOp::SwapTwo, active(old(self)@)) && f == Fault::Underflow,
            },
    {
        self.checked_apply(StackOp::SwapTwo)
    }

    /// `@` on the active stack.
    pub fn stack_swap_three(&mut self) -> (r: Result<(), Fault>)
        requires
            well_formed(old(self)@),
        ensures
            r is Err ==> final(self)@ == old(self)@,
            well_formed(final(self)@),
            match r {
                Ok(_) => op_ready(StackOp::RotateThree, active(old(self)@)) && final(self)@
                    == set_active(old(self)@, op_applied(StackOp::RotateThree, active(old(self)@))),
                Err(f) => !op_ready(StackOp::RotateThree, active(old(self)@)) && f
                    == Fault::Underflow,
            },
    {
        self.checked_apply(StackOp::RotateThree)
    }

    /// `}` on the active stack.
    pub fn stack_shift_right(&mut self) -> (r: Result<(), Fault>)
        requires
            well_formed(old(self)@),
        ensures
            r is Err ==> final(self)@ == old(self)@,
            well_formed(final(self)@),
            match r {
                Ok(_) => op_ready(StackOp::ShiftRight, active(old(self)@)) && final(self)@
                    == set_active(old(self)@, op_applied(StackOp::ShiftRight, active(old(self)@))),
                Err(f) => !op_ready(StackOp::ShiftRight, active(old(self)@)) && f
                    == Fault::Underflow,
            },
    {
        self.checked_apply(StackOp::ShiftRight)
    }

    /// `{` on the active stack.
    pub fn stack_shift_left(&mut self) -> (r: Result<(), Fault>)
        requires
            well_formed(old(self)@),
        ensures
            r is Err ==> final(self)@ == old(self)@,
            well_formed(final(self)@),
            match r {
                Ok(_) => op_ready(StackOp::ShiftLeft, active(old(self)@)) && final(self)@
                    == set_active(old(self)@, op_applied(StackOp::ShiftLeft, active(old(self)@))),
                Err(f) => !op_ready(StackOp::ShiftLeft, active(old(self)@)) && f
                    == Fault::Underflow,
            },
    {
        self.checked_apply(StackOp::ShiftLeft)
    }

    /// `[` with count `n`, already popped.
    pub fn new_stack(&mut self, n: usize) -> (r: Result<(), Fault>)
        requires
            well_formed(old(self)@),
        ensures
            r is Err ==> final(self)@ == old(self)@,
            well_formed(final(self)@),
            match r {
                Ok(_) => n <= depth(old(self)@) && final(self)@ == opened(old(self)@, n as int),
                Err(f) => n > depth(old(self)@) && f == Fault::Underflow,
            },
    {
        if n > self.depth() {
            return Err(Fault::Underflow);
        }
        let mut st = self.swap_active(Stack::new(None));
        let vals = st.take_top(n);
        let _ = self.swap_active(st);
        let mut fresh = Stack::new(Some(vals));
        if self.compatibility_mode {
            fresh.reverse();
        }
        let ghost mid = self@;
        let ghost fresh_view = fresh@;
        proof {
            let vs = active(old(self)@).values;
            assert(mid.stacks =~= old(self)@.stacks.update(
                old(self)@.p as int,
                StackView { values: vs.subrange(0, vs.len() - n), ..active(old(self)@) },
            ));
        }
        let ghost before = self.stacks@;
        let stack_count = self.stacks.len();
        proof {
            assert(self.p + 1 <= stack_count);
        }
        self.stacks.insert(self.p + 1, fresh);
        self.p = self.p + 1;
        proof {
            assert(self.stacks@ == before.insert(mid.p + 1, fresh));
            assert(self@.stacks =~= mid.stacks.insert(mid.p + 1, fresh_view));
            assert(self@.stacks =~= opened(old(self)@, n as int).stacks);
        }
        Ok(())
    }

    /// `]`.
    pub fn close_stack(&mut self) -> (r: Result<(), Fault>)
        requires
            well_formed(old(self)@),
        ensures
            r is Err ==> final(self)@ == old(self)@,
            well_formed(final(self)@),
            match r {
                Ok(_) => old(self)@.p > 0 && final(self)@ == closed(old(self)@),
                Err(f) => old(self)@.p == 0 && f == Fault::Underflow,
            },
    {
        if self.p == 0 {
            return Err(Fault::Underflow);
        }
        let mut st = self.stacks.remove(self.p);
        if self.compatibility_mode {
            st.reverse();
        }
        let vals = st.values();
        self.p = self.p - 1;
        let mut below = self.swap_active(Stack::new(None));
        below.append(vals);
        let _ = self.swap_active(below);
        proof {
            assert(self@.stacks =~= closed(old(self)@).stacks);
        }
        Ok(())
    }

    /// `C`.
    pub fn call(&mut self) -> (r: Result<(), Fault>)
        requires
            well_formed(old(self)@),
        ensures
            r is Err ==> final(self)@ == old(self)@,
            well_formed(final(self)@),
            match r {
                Ok(_) => old(self)@.x < EXACT_LIMIT && old(self)@.y < EXACT_LIMIT && final(self)@
                    == called(old(self)@),
                Err(f) => (old(self)@.x >= EXACT_LIMIT || old(self)@.y >= EXACT_LIMIT) && f
                    == Fault::Unrepresentable,
            },
    {
        if self.f_x as u64 >= EXACT_LIMIT || self.f_y as u64 >= EXACT_LIMIT {
            return Err(Fault::Unrepresentable);
        }
        let mut pos: Vec<Value> = Vec::new();
        pos.push(Value::from_u64(self.f_x as u64));
        pos.push(Value::from_u64(self.f_y as u64));
        let frame = Stack::new(Some(pos));
        let ghost before = self.stacks@;
        let ghost frame_view = frame@;
        let stack_count = self.stacks.len();
        proof {
            assert(self.p + 1 <= stack_count);
        }
        self.stacks.insert(self.p + 1, frame);
        self.p = self.p + 1;
        let ghost mid = self@;
        proof {
            assert(self.stacks@ == before.insert(old(self)@.p + 1, frame));
            assert(mid.stacks =~= old(self)@.stacks.insert(old(self)@.p + 1, frame_view));
            assert(depth(mid) == 2);
        }
        let y = self.pop();
        let ghost m1 = self@;
        proof {
            assert(active(m1).values =~= seq![nat_value(old(self)@.x as u64)]);
            lemma_encode_exact(old(self)@.x as u64, usize::MAX as u64);
            lemma_encode_exact(old(self)@.y as u64, usize::MAX as u64);
        }
        let x = self.pop();
        proof {
            assert(active(self@).values =~= Seq::<Value>::empty());
            assert(self@.stacks =~= mid.stacks.update(
                mid.p as int,
                StackView { values: Seq::empty(), register: None },
            ));
        }
        match (x, y) {
            (Ok(x), Ok(y)) => {
                self.f_y = y.to_usize();
                self.f_x = x.to_usize();
            },
            _ => {},
        }
        proof {
            assert(self@.stacks =~= called(old(self)@).stacks);
        }
        Ok(())
    }

    /// `R`.
    pub fn ret(&mut self) -> (r: Result<(), Fault>)
        requires
            well_formed(old(self)@),
        ensures
            r is Err ==> final(self)@ == old(self)@,
            well_formed(final(self)@),
            match r {
                Ok(_) => old(self)@.p > 0 && old(self)@.stacks[old(self)@.p - 1].values.len() >= 2
                    && final(self)@ == returned(old(self)@),
                Err(f) => (old(self)@.p == 0 || old(self)@.stacks[old(self)@.p - 1].values.len()
                    < 2) && f == Fault::Underflow,
            },
    {
        if self.p == 0 || self.stacks[self.p - 1].len() < 2 {
            return Err(Fault::Underflow);
        }
        self.p = self.p - 1;
        let y = self.pop();
        let ghost m1 = self@;
        proof {
            let below = old(self)@.stacks[old(self)@.p - 1];
            let n = below.values.len() as int;
            assert(active(m1).values =~= below.values.subrange(0, n - 1));
        }
        let x = self.pop();
        match (x, y) {
            (Ok(x), Ok(y)) => {
                self.f_y = y.to_usize();
                self.f_x = x.to_usize();
            },
            _ => {},
        }
        let ghost mid = self@;
        let ghost before = self.stacks@;
        proof {
            let q = old(self)@.p - 1;
            let below = old(self)@.stacks[q];
            let n = below.values.len() as int;
            assert(active(mid).values =~= below.values.subrange(0, n - 2));
            assert(active(mid).register == below.register);
            assert(mid.stacks =~= old(self)@.stacks.update(
                q,
                StackView { values: below.values.subrange(0, n - 2), ..below },
            ));
        }
        self.stacks.remove(self.p + 1);
        proof {
            assert(self.stacks@ == before.remove(mid.p + 1));
            assert(self@.stacks =~= mid.stacks.remove(mid.p + 1));
            assert(self@.stacks =~= returned(old(self)@).stacks);
        }
        Ok(())
    }

    /// Pops a value known to be there.
    fn take(&mut self) -> (v: Value)
        requires
            well_formed(old(self)@),
            depth(old(self)@) >= 1,
        ensures
            v == top(old(self)@, 0),
            final(self)@ == popped(old(self)@, 1),
            well_formed(final(self)@),
    {
        match self.pop() {
            Ok(v) => v,
            Err(_) => Value { bits: 0 },
        }
    }

    /// The instructions of `operate` up to the comparisons and output.
    fn operate(&mut self, r: u8, sample: u32) -> (res: Result<Tick, Fault>)
        requires
            well_formed(old(self)@),
            on_grid(old(self)@),
        ensures
            final(self)@.width == old(self)@.width,
            final(self)@.height == old(self)@.height,
            match res {
                Ok(t) => operate(old(self)@, r, sample) == Ok::<(BoxView, TickView), Fault>((final(self)@, t@))
                    && well_formed(final(self)@),
                Err(f) => operate(old(self)@, r, sample) == Err::<(BoxView, TickView), Fault>(f),
            },
    {
        if r == 59u8 {  // ;
            return Ok(Tick { output: None, halted: true, sleep_ms: 0, request: Request::Nothing });
        }
        if r == 34u8 || r == 39u8 {  // " '
            if self.string_mode == 0 {
                self.string_mode = r;
            } else if self.string_mode == r {
                self.string_mode = 0;
            }
            return Ok(Tick::quiet());
        }
        if let Some(d) = literal_of(r) {
            self.push(Value::from_u64(d));
            return Ok(Tick::quiet());
        }
        if let Some(op) = stack_op_of(r) {
            return match self.checked_apply(op) {
                Ok(_) => Ok(Tick::quiet()),
                Err(f) => Err(f),
            };
        }
        if let Some(op) = arith_op_of(r) {
            if self.depth() < 2 {
                return Err(Fault::Underflow);
            }
            proof {
                lemma_popped_again(self@, 1);
            }
            let a = self.take();
            let b = self.take();
            return Ok(Tick::asking(Request::Arith { op: op, lhs: b, rhs: a }));
        }
        if r == 61u8 || r == 41u8 || r == 40u8 {  // = ) (
            if self.depth() < 2 {
                return Err(Fault::Underflow);
            }
            proof {
                lemma_popped_again(self@, 1);
            }
            let a = self.take();
            let b = self.take();
            let holds = if r == 61u8 {
                b.num_eq(&a)
            } else if r == 41u8 {
                a.num_lt(&b)
            } else {
                b.num_lt(&a)
            };
            self.push(Value::from_u64(if holds { 1 } else { 0 }));
            return Ok(Tick::quiet());
        }
        if r == 111u8 {  // o
            if self.depth() < 1 {
                return Err(Fault::Underflow);
            }
            let v = self.take();
            let code = v.to_u32();
            return match char_from_code(code) {
                Some(c) => {
                    proof {
                        vstd::utf8::char_u32_cast(c, code);
                    }
                    Ok(
                        Tick {
                            output: Some(char_text(c)),
                            halted: false,
                            sleep_ms: 0,
                            request: Request::Nothing,
                        },
                    )
                },
                None => Err(Fault::InvalidChar),
            };
        }
        if r == 110u8 {  // n
            if self.depth() < 1 {
                return Err(Fault::Underflow);
            }
            let v = self.take();
            return match v.to_integer() {
                Some(n) => Ok(
                    Tick {
                        output: Some(decimal(n)),
                        halted: false,
                        sleep_ms: 0,
                        request: Request::Nothing,
                    },
                ),
                None => Ok(Tick::asking(Request::PrintInteger { value: v })),
            };
        }
        if r == 126u8 {  // ~
            if self.depth() < 1 {
                return Err(Fault::Underflow);
            }
            let _ = self.take();
            return Ok(Tick::quiet());
        }
        if r == 33u8 {  // !
            self.shift();
            return Ok(Tick::quiet());
        }
        if r == 63u8 {  // ?
            if self.depth() < 1 {
                return Err(Fault::Underflow);
            }
            let v = self.take();
            if v.is_zero() {
                self.shift();
            }
            return Ok(Tick::quiet());
        }
        self.operate_more(r, sample)
    }

    /// The instructions of `operate_more`.
    fn operate_more(&mut self, r: u8, sample: u32) -> (res: Result<Tick, Fault>)
        requires
            well_formed(old(self)@),
        ensures
            final(self)@.width == old(self)@.width,
            final(self)@.height == old(self)@.height,
            match res {
                Ok(t) => operate_more(old(self)@, r, sample) == Ok::<(BoxView, TickView), Fault>((final(self)@, t@))
                    && well_formed(final(self)@),
                Err(f) => operate_more(old(self)@, r, sample) == Err::<(BoxView, TickView), Fault>(f),
            },
    {
        if r == 46u8 {  // .
            if self.depth() < 2 {
                return Err(Fault::Underflow);
            }
            proof {
                lemma_popped_again(self@, 1);
            }
            let y = self.take();
            let x = self.take();
            self.f_y = y.to_usize();
            self.f_x = x.to_usize();
            return Ok(Tick::quiet());
        }
        if r == 93u8 {  // ]
            return match self.close_stack() {
                Ok(_) => Ok(Tick::quiet()),
                Err(f) => Err(f),
            };
        }
        if r == 91u8 {  // [
            if self.depth() < 1 {
                return Err(Fault::Underflow);
            }
            let k = self.take().to_usize();
            return match self.new_stack(k) {
                Ok(_) => Ok(Tick::quiet()),
                Err(f) => Err(f),
            };
        }
        if r == 108u8 {  // l
            return match self.stack_length() {
                Ok(_) => Ok(Tick::quiet()),
                Err(f) => Err(f),
            };
        }
        if r == 103u8 {  // g
            if self.depth() < 2 {
                return Err(Fault::Underflow);
            }
            proof {
                lemma_popped_again(self@, 1);
            }
            let y = self.take().to_usize();
            let x = self.take().to_usize();
            if y >= self.height || x >= self.width {
                return Err(Fault::OutOfBounds);
            }
            let b = self.code_box[y][x];
            self.push(Value::from_u64(b as u64));
            return Ok(Tick::quiet());
        }
        if r == 112u8 {  // p
            if self.depth() < 3 {
                return Err(Fault::Underflow);
            }
            proof {
                lemma_popped_again(self@, 2);
                lemma_popped_again(popped(self@, 1), 1);
            }
            let y = self.take().to_usize();
            let x = self.take().to_usize();
            let v = self.take().to_u8();
            if y >= self.height || x >= self.width {
                return Err(Fault::OutOfBounds);
            }
            let ghost mid = self@;
            let mut row = self.code_box[y].clone();
            proof {
                assert(row@ =~= mid.grid[y as int]);
            }
            row.set(x, v);
            self.code_box.set(y, row);
            proof {
                assert(self@.grid =~= mid.grid.update(y as int, mid.grid[y as int].update(x as int, v)));
            }
            return Ok(Tick::quiet());
        }
        if r == 105u8 {  // i
            return Ok(Tick::asking(Request::Input));
        }
        if r == 104u8 || r == 109u8 || r == 115u8 {  // h m s
            self.push(Value::from_u64(sample as u64));
            return Ok(Tick::quiet());
        }
        if r == 83u8 {  // S
            if self.depth() < 1 {
                return Err(Fault::Underflow);
            }
            let pause = self.take().hundredfold();
            return Ok(Tick { output: None, halted: false, sleep_ms: pause, request: Request::Nothing });
        }
        if r == 117u8 {  // u
            self.deep_sea = true;
            return Ok(Tick::quiet());
        }
        if r == 70u8 {  // F
            return self.redirect();
        }
        if r == 67u8 {  // C
            return match self.call() {
                Ok(_) => Ok(Tick::quiet()),
                Err(f) => Err(f),
            };
        }
        if r == 82u8 {  // R
            return match self.ret() {
                Ok(_) => Ok(Tick::quiet()),
                Err(f) => Err(f),
            };
        }
        if r == 73u8 {  // I
            if self.p >= self.stacks.len() - 1 {
                return Err(Fault::Underflow);
            }
            self.p = self.p + 1;
            return Ok(Tick::quiet());
        }
        if r == 68u8 {  // D
            if self.p == 0 {
                return Err(Fault::Underflow);
            }
            self.p = self.p - 1;
            return Ok(Tick::quiet());
        }
        Err(Fault::UnknownInstruction(r))
    }

    /// `F`: the two-phase file redirection.
    fn redirect(&mut self) -> (res: Result<Tick, Fault>)
        requires
            well_formed(old(self)@),
        ensures
            final(self)@.width == old(self)@.width,
            final(self)@.height == old(self)@.height,
            match res {
                Ok(t) => redirected(old(self)@) == Ok::<(BoxView, TickView), Fault>((final(self)@, t@))
                    && well_formed(final(self)@),
                Err(f) => redirected(old(self)@) == Err::<(BoxView, TickView), Fault>(f),
            },
    {
        if self.depth() < 1 {
            return Err(Fault::Underflow);
        }
        let count = self.take().to_usize();
        if count > self.depth() {
            return Err(Fault::Underflow);
        }
        let mut st = self.swap_active(Stack::new(None));
        let bytes = st.get_bytes(count);
        let _ = self.swap_active(st);
        let ghost mid = self@;
        proof {
            let t = popped(old(self)@, 1);
            assert(mid.stacks =~= popped(t, count as int).stacks);
        }
        if self.file_open {
            self.file_open = false;
            let path = self.file_path.clone();
            proof {
                assert(path@ =~= self.file_path@);
            }
            Ok(Tick::asking(Request::WriteFile { path: path, bytes: bytes }))
        } else {
            self.file_open = true;
            self.file_path = bytes.clone();
            proof {
                assert(self.file_path@ =~= bytes@);
            }
            Ok(Tick::asking(Request::OpenFile { path: bytes }))
        }
    }

    /// Executes the instruction `r`, the fish standing on a cell; `sample` is
    /// the heading index for `x` and the clock reading for `h`, `m` and `s`.
    /// Returns the tick's report, `halted` set by `;`.
    pub fn exe(&mut self, r: u8, sample: u32) -> (res: Result<Tick, Fault>)
        requires
            well_formed(old(self)@),
            on_grid(old(self)@),
        ensures
            final(self)@.width == old(self)@.width,
            final(self)@.height == old(self)@.height,
            match res {
                Ok(t) => executed(old(self)@, r, sample) == Ok::<(BoxView, TickView), Fault>((final(self)@, t@))
                    && well_formed(final(self)@),
                Err(f) => executed(old(self)@, r, sample) == Err::<(BoxView, TickView), Fault>(f),
            },
    {
        if is_navigation_byte(r) {
            self.navigate(r, sample);
            return Ok(Tick::quiet());
        }
        if self.deep_sea {
            return Ok(Tick::quiet());
        }
        self.operate(r, sample)
    }

    /// One tick with `sample` given: executes the byte under the fish (or
    /// pushes it in string mode), then moves the fish.
    pub fn swim_with(&mut self, sample: u32) -> (res: Result<Tick, Fault>)
        requires
            well_formed(old(self)@),
        ensures
            match res {
                Ok(t) => step(old(self)@, sample) == Ok::<(BoxView, TickView), Fault>((final(self)@, t@))
                    && well_formed(final(self)@),
                Err(f) => step(old(self)@, sample) == Err::<(BoxView, TickView), Fault>(f),
            },
    {
        if self.f_y >= self.height || self.f_x >= self.width {
            return Err(Fault::OutOfBounds);
        }
        let c = self.code_box[self.f_y][self.f_x];
        let t = if self.string_mode != 0 && c != self.string_mode {
            self.push(Value::from_u64(c as u64));
            Tick::quiet()
        } else {
            match self.exe(c, sample) {
                Ok(t) => t,
                Err(f) => return Err(f),
            }
        };
        self.shift();
        Ok(t)
    }

    /// One tick: executes the instruction under the fish, then moves it.
    /// `x` draws its heading at random and `h`, `m`, `s` read the local
    /// clock; whatever they give, the tick is one that `step` allows.
    pub fn swim(&mut self) -> (res: Result<Tick, Fault>)
        requires
            well_formed(old(self)@),
        ensures
            match res {
                Ok(t) => exists|k: u32|
                    sample_allowed(cell(old(self)@), k) && step(old(self)@, k) == Ok::<
                        (BoxView, TickView),
                        Fault,
                    >((final(self)@, t@)),
                Err(f) => exists|k: u32|
                    sample_allowed(cell(old(self)@), k) && step(old(self)@, k) == Err::<
                        (BoxView, TickView),
                        Fault,
                    >(f),
            },
            res is Ok ==> well_formed(final(self)@),
            !needs_sample(cell(old(self)@)) ==> match res {
                Ok(t) => step(old(self)@, 0) == Ok::<(BoxView, TickView), Fault>((final(self)@, t@)),
                Err(f) => step(old(self)@, 0) == Err::<(BoxView, TickView), Fault>(f),
            },
    {
        let mut sample: u32 = 0;
        if self.f_y < self.height && self.f_x < self.width {
            let c = self.code_box[self.f_y][self.f_x];
            if c == 120u8 {  // x
                sample = random_heading();
            } else if c == 104u8 {  // h
                sample = local_hour();
            } else if c == 109u8 {  // m
                sample = local_minute();
            } else if c == 115u8 {  // s
                sample = local_second();
            }
        }
        proof {
            if self@.y < self@.height && self@.x < self@.width {
                assert(cell(self@) == self.code_box@[self@.y as int]@[self@.x as int]);
            }
            assert(on_grid(self@) ==> sample_allowed(cell(self@), sample));
        }
        let res = self.swim_with(sample);
        proof {
            if !on_grid(old(self)@) {
                assert(sample_allowed(cell(old(self)@), 0));
                assert(step(old(self)@, sample) == step(old(self)@, 0u32));
            }
        }
        res
    }

    /// The grid's width and height.
    pub fn dimensions(&self) -> (r: (usize, usize))
        ensures
            r == (self@.width, self@.height),
    {
        (self.width, self.height)
    }

    /// A copy of the grid, row by row.
    pub fn grid(&self) -> (r: Vec<Vec<u8>>)
        ensures
            r@.map_values(|row: Vec<u8>| row@) == self@.grid,
    {
        let mut out: Vec<Vec<u8>> = Vec::new();
        let mut i: usize = 0;
        while i < self.code_box.len()
            invariant
                i <= self.code_box@.len(),
                out@.map_values(|row: Vec<u8>| row@) =~= self@.grid.subrange(0, i as int),
            decreases self.code_box@.len() - i,
        {
            let row = self.code_box[i].clone();
            proof {
                assert(row@ =~= self.code_box@[i as int]@);
            }
            let ghost prev = out@;
            let ghost row_view = row@;
            out.push(row);
            i = i + 1;
            proof {
                assert(out@.map_values(|row: Vec<u8>| row@) =~= prev.map_values(|row: Vec<u8>| row@).push(
                    row_view,
                ));
                assert(out@.map_values(|row: Vec<u8>| row@) =~= self@.grid.subrange(0, i as int));
            }
        }
        out
    }

    /// A copy of the active stack's values, bottom to top.
    pub fn stack(&self) -> (r: Vec<Value>)
        requires
            well_formed(self@),
        ensures
            r@ == active(self@).values,
    {
        self.stacks[self.p].values()
    }

    /// What the active stack's register holds, if it is filled.
    pub fn register_value(&self) -> (r: Option<Value>)
        requires
            well_formed(self@),
        ensures
            r == active(self@).register,
    {
        self.stacks[self.p].register_value()
    }

    /// The fish's column and row.
    pub fn position(&self) -> (r: (usize, usize))
        ensures
            r == (self@.x, self@.y),
    {
        (self.f_x, self.f_y)
    }

    pub fn direction(&self) -> (r: Direction)
        ensures
            r == self@.dir,
    {
        self.f_dir
    }

    pub fn deep_sea(&self) -> (r: bool)
        ensures
            r == self@.deep_sea,
    {
        self.deep_sea
    }
}

} // verus!
