use vstd::prelude::*;

use crate::codebox::{is_navigation, moved, navigated, on_grid, BoxView};
use crate::outside::signed_text;
use crate::stack::{
    bytes_of, register_toggled, rotated_three, swapped_two, StackView,
};
use crate::value::{
    encode_nat, hundredfold, is_zero, magnitude_fits, num_eq, num_lt, truncated, truncated_integer,
    Value, EXACT_LIMIT,
};

verus! {

/// Why a program stops abnormally.
#[derive(Clone, Copy, Debug, PartialEq, Eq, Structural)]
pub enum Fault {
    /// A value was needed from an empty stack, or a stack that does not exist
    /// was reached.
    Underflow,
    /// A byte with no meaning as an instruction was executed.
    UnknownInstruction(u8),
    /// A position outside the grid was read or written.
    OutOfBounds,
    /// A value to print as a char is no Unicode scalar value.
    InvalidChar,
    /// A count or position is too large for a value to hold exactly.
    Unrepresentable,
}

/// The arithmetic instructions, which the host computes.
#[derive(Clone, Copy, Debug, PartialEq, Eq, Structural)]
pub enum ArithOp {
    Add,
    Sub,
    Mul,
    Div,
    /// Euclidean remainder.
    Rem,
}

/// Work that a tick leaves to the host.
#[derive(Debug)]
pub enum Request {
    Nothing,
    /// Compute `lhs op rhs` and push the result.
    Arith { op: ArithOp, lhs: Value, rhs: Value },
    /// Print `value` truncated toward zero, in decimal: its magnitude is
    /// 2^64 or more, or it is not finite.
    PrintInteger { value: Value },
    /// Read one byte, from the redirected file if one is open, else from
    /// standard input without waiting, and hand it to `supply_input`.
    Input,
    /// Open the file at `path` for reading, creating it empty if it cannot
    /// be opened.
    OpenFile { path: Vec<u8> },
    /// Close the file being read, then create the file at `path` and write `bytes`.
    WriteFile { path: Vec<u8>, bytes: Vec<u8> },
}

pub enum RequestView {
    Nothing,
    Arith { op: ArithOp, lhs: Value, rhs: Value },
    PrintInteger { value: Value },
    Input,
    OpenFile { path: Seq<u8> },
    WriteFile { path: Seq<u8>, bytes: Seq<u8> },
}

impl View for Request {
    type V = RequestView;

    open spec fn view(&self) -> RequestView {
        match self {
            Request::Nothing => RequestView::Nothing,
            Request::Arith { op, lhs, rhs } => RequestView::Arith { op: *op, lhs: *lhs, rhs: *rhs },
            Request::PrintInteger { value } => RequestView::PrintInteger { value: *value },
            Request::Input => RequestView::Input,
            Request::OpenFile { path } => RequestView::OpenFile { path: path@ },
            Request::WriteFile { path, bytes } => RequestView::WriteFile {
                path: path@,
                bytes: bytes@,
            },
        }
    }
}

/// What one tick hands back: text to print, whether the program halted, a
/// pause in milliseconds, and work for the host.
#[derive(Debug)]
pub struct Tick {
    pub output: Option<String>,
    pub halted: bool,
    pub sleep_ms: u64,
    pub request: Request,
}

pub struct TickView {
    pub output: Option<Seq<char>>,
    pub halted: bool,
    pub sleep_ms: u64,
    pub request: RequestView,
}

impl View for Tick {
    type V = TickView;

    open spec fn view(&self) -> TickView {
        TickView {
            output: match self.output {
                Some(t) => Some(t@),
                None => None,
            },
            halted: self.halted,
            sleep_ms: self.sleep_ms,
            request: self.request@,
        }
    }
}

/// The outcome of one instruction: the next state and what the tick reports,
/// or the fault that stops the program.
pub type Outcome = Result<(BoxView, TickView), Fault>;

pub open spec fn quiet(s: BoxView) -> Outcome {
    Ok((s, TickView { output: None, halted: false, sleep_ms: 0, request: RequestView::Nothing }))
}

pub open spec fn asking(s: BoxView, rq: RequestView) -> Outcome {
    Ok((s, TickView { output: None, halted: false, sleep_ms: 0, request: rq }))
}

pub open spec fn saying(s: BoxView, t: Seq<char>) -> Outcome {
    Ok((s, TickView { output: Some(t), halted: false, sleep_ms: 0, request: RequestView::Nothing }))
}

pub open spec fn active(s: BoxView) -> StackView {
    s.stacks[s.p as int]
}

pub open spec fn depth(s: BoxView) -> nat {
    active(s).values.len()
}

/// The value `i` places below the top of the active stack.
pub open spec fn top(s: BoxView, i: int) -> Value {
    active(s).values[depth(s) - 1 - i]
}

pub open spec fn set_active(s: BoxView, st: StackView) -> BoxView {
    BoxView { stacks: s.stacks.update(s.p as int, st), ..s }
}

pub open spec fn with_values(s: BoxView, vs: Seq<Value>) -> BoxView {
    set_active(s, StackView { values: vs, ..active(s) })
}

pub open spec fn pushed(s: BoxView, v: Value) -> BoxView {
    with_values(s, active(s).values.push(v))
}

/// The top `k` values of the active stack removed.
pub open spec fn popped(s: BoxView, k: int) -> BoxView {
    with_values(s, active(s).values.subrange(0, depth(s) - k))
}

pub open spec fn nat_value(n: u64) -> Value {
    Value { bits: encode_nat(n) }
}

/// 1 for true, 0 for false.
pub open spec fn flag(b: bool) -> Value {
    nat_value(if b {
        1
    } else {
        0
    })
}

/// A value read as a position or a count.
pub open spec fn as_index(v: Value) -> usize {
    truncated(v, usize::MAX as u64) as usize
}

/// The char whose code is `n`.
pub open spec fn char_of_code(n: u32) -> char {
    n as char
}

/// The value that a literal digit instruction pushes: `0`-`9`, and `a`-`f`
/// for 10 to 15.
pub open spec fn literal(r: u8) -> Option<u64> {
    if 48u8 <= r && r <= 57u8 {
        Some((r - 48) as u64)
    } else if 97u8 <= r && r <= 102u8 {
        Some((r - 87) as u64)
    } else {
        None
    }
}

pub open spec fn arith_op(r: u8) -> Option<ArithOp> {
    if r == 43u8 {
        Some(ArithOp::Add)
    } else if r == 45u8 {
        Some(ArithOp::Sub)
    } else if r == 42u8 {
        Some(ArithOp::Mul)
    } else if r == 44u8 {
        Some(ArithOp::Div)
    } else if r == 37u8 {
        Some(ArithOp::Rem)
    } else {
        None
    }
}

/// The instructions that rearrange the active stack in place.
#[derive(Clone, Copy, Debug, PartialEq, Eq, Structural)]
pub enum StackOp {
    Register,
    Duplicate,
    Reverse,
    SwapTwo,
    RotateThree,
    ShiftRight,
    ShiftLeft,
}

pub open spec fn stack_op(r: u8) -> Option<StackOp> {
    if r == 38u8 {
        Some(StackOp::Register)
    } else if r == 58u8 {
        Some(StackOp::Duplicate)
    } else if r == 114u8 {
        Some(StackOp::Reverse)
    } else if r == 36u8 {
        Some(StackOp::SwapTwo)
    } else if r == 64u8 {
        Some(StackOp::RotateThree)
    } else if r == 125u8 {
        Some(StackOp::ShiftRight)
    } else if r == 123u8 {
        Some(StackOp::ShiftLeft)
    } else {
        None
    }
}

/// Whether the stack holds what the operation takes.
pub open spec fn op_ready(op: StackOp, st: StackView) -> bool {
    match op {
        StackOp::Register => st.register is Some || st.values.len() > 0,
        StackOp::Reverse => true,
        StackOp::SwapTwo => st.values.len() >= 2,
        StackOp::RotateThree => st.values.len() >= 3,
        _ => st.values.len() > 0,
    }
}

pub open spec fn op_applied(op: StackOp, st: StackView) -> StackView {
    let vs = st.values;
    match op {
        StackOp::Register => register_toggled(st),
        StackOp::Duplicate => StackView { values: vs.push(vs.last()), ..st },
        StackOp::Reverse => StackView { values: vs.reverse(), ..st },
        StackOp::SwapTwo => StackView { values: swapped_two(vs), ..st },
        StackOp::RotateThree => StackView { values: rotated_three(vs), ..st },
        StackOp::ShiftRight => StackView { values: seq![vs.last()] + vs.drop_last(), ..st },
        StackOp::ShiftLeft => StackView { values: vs.subrange(1, vs.len() as int).push(vs[0]), ..st },
    }
}

/// `[`: the top `k` values move, in order (reversed in compatibility mode),
/// to a new stack above the active one, which becomes active.
pub open spec fn opened(s: BoxView, k: int) -> BoxView {
    let vs = active(s).values;
    let n = vs.len() as int;
    let taken = vs.subrange(n - k, n);
    let t = with_values(s, vs.subrange(0, n - k));
    BoxView {
        stacks: t.stacks.insert(
            s.p + 1,
            StackView {
                values: if s.compat {
                    taken.reverse()
                } else {
                    taken
                },
                register: None,
            },
        ),
        p: (s.p + 1) as usize,
        ..t
    }
}

/// `]`: the active stack's values (reversed in compatibility mode) go on top
/// of the stack below, which becomes active; the active stack is dropped.
pub open spec fn closed(s: BoxView) -> BoxView {
    let vs = active(s).values;
    let moving = if s.compat {
        vs.reverse()
    } else {
        vs
    };
    let q = s.p - 1;
    let below = s.stacks[q];
    BoxView {
        stacks: s.stacks.update(q, StackView { values: below.values + moving, ..below }).remove(
            s.p as int,
        ),
        p: q as usize,
        ..s
    }
}

/// `C`: a stack holding the fish's position becomes active above the active
/// one, and the position is popped back from it into the fish, which leaves
/// the fish where it was and the new stack empty.
pub open spec fn called(s: BoxView) -> BoxView {
    BoxView {
        stacks: s.stacks.insert(s.p + 1, StackView { values: Seq::empty(), register: None }),
        p: (s.p + 1) as usize,
        ..s
    }
}

/// `R`: the stack below becomes active, `y` then `x` are popped from it into
/// the fish, and the stack that was active is dropped.
pub open spec fn returned(s: BoxView) -> BoxView {
    let q = s.p - 1;
    let below = s.stacks[q];
    let n = below.values.len() as int;
    BoxView {
        stacks: s.stacks.update(
            q,
            StackView { values: below.values.subrange(0, n - 2), ..below },
        ).remove(s.p as int),
        p: q as usize,
        y: as_index(below.values[n - 1]),
        x: as_index(below.values[n - 2]),
        ..s
    }
}

/// `F`: pops a count, then that many values as bytes. With no file open, the
/// bytes are a path to open for reading; with one open, they are the contents
/// to write to its path, and the redirection ends.
pub open spec fn redirected(s: BoxView) -> Outcome {
    if depth(s) < 1 {
        Err(Fault::Underflow)
    } else {
        let k = as_index(top(s, 0)) as int;
        let t = popped(s, 1);
        if k > depth(t) {
            Err(Fault::Underflow)
        } else {
            let n = depth(t) as int;
            let bytes = bytes_of(active(t).values.subrange(n - k, n));
            let u = popped(t, k);
            match s.file_path {
                None => asking(
                    BoxView { file_path: Some(bytes), ..u },
                    RequestView::OpenFile { path: bytes },
                ),
                Some(path) => asking(
                    BoxView { file_path: None, ..u },
                    RequestView::WriteFile { path: path, bytes: bytes },
                ),
            }
        }
    }
}

/// The effect of an instruction other than navigation, outside deep-sea mode.
/// `sample` is what the clock gave for `h`, `m` and `s`.
pub open spec fn operate(s: BoxView, r: u8, sample: u32) -> Outcome {
    if r == 59u8 {
        Ok((s, TickView { output: None, halted: true, sleep_ms: 0, request: RequestView::Nothing }))
    } else if r == 34u8 || r == 39u8 {
        quiet(
            BoxView {
                string_mode: if s.string_mode == 0 {
                    r
                } else if s.string_mode == r {
                    0
                } else {
                    s.string_mode
                },
                ..s
            },
        )
    } else if literal(r) is Some {
        quiet(pushed(s, nat_value(literal(r)->0)))
    } else if stack_op(r) is Some {
        if op_ready(stack_op(r)->0, active(s)) {
            quiet(set_active(s, op_applied(stack_op(r)->0, active(s))))
        } else {
            Err(Fault::Underflow)
        }
    } else if arith_op(r) is Some {
        if depth(s) < 2 {
            Err(Fault::Underflow)
        } else {
            asking(
                popped(s, 2),
                RequestView::Arith { op: arith_op(r)->0, lhs: top(s, 1), rhs: top(s, 0) },
            )
        }
    } else if r == 61u8 || r == 41u8 || r == 40u8 {
        if depth(s) < 2 {
            Err(Fault::Underflow)
        } else {
            let a = top(s, 0);
            let b = top(s, 1);
            let holds = if r == 61u8 {
                num_eq(b, a)
            } else if r == 41u8 {
                num_lt(a, b)
            } else {
                num_lt(b, a)
            };
            quiet(pushed(popped(s, 2), flag(holds)))
        }
    } else if r == 111u8 {
        if depth(s) < 1 {
            Err(Fault::Underflow)
        } else {
            let c = truncated(top(s, 0), 0xFFFF_FFFF) as u32;
            if crate::outside::is_scalar(c) {
                saying(popped(s, 1), seq![char_of_code(c)])
            } else {
                Err(Fault::InvalidChar)
            }
        }
    } else if r == 110u8 {
        if depth(s) < 1 {
            Err(Fault::Underflow)
        } else {
            if magnitude_fits(top(s, 0)) {
                saying(popped(s, 1), signed_text(truncated_integer(top(s, 0))))
            } else {
                asking(popped(s, 1), RequestView::PrintInteger { value: top(s, 0) })
            }
        }
    } else if r == 126u8 {
        if depth(s) < 1 {
            Err(Fault::Underflow)
        } else {
            quiet(popped(s, 1))
        }
    } else if r == 33u8 {
        quiet(moved(s))
    } else if r == 63u8 {
        if depth(s) < 1 {
            Err(Fault::Underflow)
        } else if is_zero(top(s, 0)) {
            quiet(moved(popped(s, 1)))
        } else {
            quiet(popped(s, 1))
        }
    } else {
        operate_more(s, r, sample)
    }
}

/// The instructions of `operate` from `.` on.
pub open spec fn operate_more(s: BoxView, r: u8, sample: u32) -> Outcome {
    if r == 46u8 {
        if depth(s) < 2 {
            Err(Fault::Underflow)
        } else {
            quiet(BoxView { y: as_index(top(s, 0)), x: as_index(top(s, 1)), ..popped(s, 2) })
        }
    } else if r == 93u8 {
        if s.p == 0 {
            Err(Fault::Underflow)
        } else {
            quiet(closed(s))
        }
    } else if r == 91u8 {
        if depth(s) < 1 {
            Err(Fault::Underflow)
        } else if as_index(top(s, 0)) > depth(s) - 1 {
            Err(Fault::Underflow)
        } else {
            quiet(opened(popped(s, 1), as_index(top(s, 0)) as int))
        }
    } else if r == 108u8 {
        if depth(s) >= EXACT_LIMIT {
            Err(Fault::Unrepresentable)
        } else {
            quiet(pushed(s, nat_value(depth(s) as u64)))
        }
    } else if r == 103u8 {
        if depth(s) < 2 {
            Err(Fault::Underflow)
        } else {
            let y = as_index(top(s, 0));
            let x = as_index(top(s, 1));
            if y < s.height && x < s.width {
                quiet(pushed(popped(s, 2), nat_value(s.grid[y as int][x as int] as u64)))
            } else {
                Err(Fault::OutOfBounds)
            }
        }
    } else if r == 112u8 {
        if depth(s) < 3 {
            Err(Fault::Underflow)
        } else {
            let y = as_index(top(s, 0));
            let x = as_index(top(s, 1));
            let v = truncated(top(s, 2), 0xFF) as u8;
            if y < s.height && x < s.width {
                let t = popped(s, 3);
                quiet(
                    BoxView {
                        grid: t.grid.update(y as int, t.grid[y as int].update(x as int, v)),
                        ..t
                    },
                )
            } else {
                Err(Fault::OutOfBounds)
            }
        }
    } else if r == 105u8 {
        asking(s, RequestView::Input)
    } else if r == 104u8 || r == 109u8 || r == 115u8 {
        quiet(pushed(s, nat_value(sample as u64)))
    } else if r == 83u8 {
        if depth(s) < 1 {
            Err(Fault::Underflow)
        } else {
            Ok(
                (
                    popped(s, 1),
                    TickView {
                        output: None,
                        halted: false,
                        sleep_ms: hundredfold(top(s, 0)),
                        request: RequestView::Nothing,
                    },
                ),
            )
        }
    } else if r == 117u8 {
        quiet(BoxView { deep_sea: true, ..s })
    } else if r == 70u8 {
        redirected(s)
    } else if r == 67u8 {
        if s.x >= EXACT_LIMIT || s.y >= EXACT_LIMIT {
            Err(Fault::Unrepresentable)
        } else {
            quiet(called(s))
        }
    } else if r == 82u8 {
        if s.p == 0 || s.stacks[s.p - 1].values.len() < 2 {
            Err(Fault::Underflow)
        } else {
            quiet(returned(s))
        }
    } else if r == 73u8 {
        if s.p + 1 >= s.stacks.len() {
            Err(Fault::Underflow)
        } else {
            quiet(BoxView { p: (s.p + 1) as usize, ..s })
        }
    } else if r == 68u8 {
        if s.p == 0 {
            Err(Fault::Underflow)
        } else {
            quiet(BoxView { p: (s.p - 1) as usize, ..s })
        }
    } else {
        Err(Fault::UnknownInstruction(r))
    }
}

/// The byte under the fish.
pub open spec fn cell(s: BoxView) -> u8 {
    s.grid[s.y as int][s.x as int]
}

/// The effect of executing `r`: navigation acts always, anything else only
/// outside deep-sea mode.
pub open spec fn executed(s: BoxView, r: u8, sample: u32) -> Outcome {
    if is_navigation(r) {
        quiet(navigated(s, r, sample))
    } else if s.deep_sea {
        quiet(s)
    } else {
        operate(s, r, sample)
    }
}

/// One tick: the byte under the fish is pushed as a value in string mode
/// (unless it closes the string) and executed otherwise; then the fish moves.
pub open spec fn step(s: BoxView, sample: u32) -> Outcome {
    if !on_grid(s) {
        Err(Fault::OutOfBounds)
    } else {
        let c = cell(s);
        let o = if s.string_mode != 0 && c != s.string_mode {
            quiet(pushed(s, nat_value(c as u64)))
        } else {
            executed(s, c, sample)
        };
        match o {
            Ok((t, tick)) => Ok((moved(t), tick)),
            Err(f) => Err(f),
        }
    }
}

/// What the outside world can give as `sample` for the instruction `r`: a
/// heading index below 4 for `x`, an hour below 24 for `h`, a minute or a
/// second below 60 for `m` and `s`.
pub open spec fn sample_allowed(r: u8, k: u32) -> bool {
    &&& r == 120u8 ==> k < 4
    &&& r == 104u8 ==> k < 24
    &&& r == 109u8 || r == 115u8 ==> k < 60
}

/// The instruction that consults the outside world for `sample`: `x` draws a
/// heading, `h`, `m` and `s` read the clock.
pub open spec fn needs_sample(r: u8) -> bool {
    r == 120u8 || r == 104u8 || r == 109u8 || r == 115u8
}

impl Tick {
    pub fn quiet() -> (t: Tick)
        ensures
            t@ == (TickView {
                output: None,
                halted: false,
                sleep_ms: 0,
                request: RequestView::Nothing,
            }),
    {
        Tick { output: None, halted: false, sleep_ms: 0, request: Request::Nothing }
    }

    pub fn asking(rq: Request) -> (t: Tick)
        ensures
            t@ == (TickView { output: None, halted: false, sleep_ms: 0, request: rq@ }),
    {
        Tick { output: None, halted: false, sleep_ms: 0, request: rq }
    }
}

pub fn literal_of(r: u8) -> (o: Option<u64>)
    ensures
        o == literal(r),
{
    if 48u8 <= r && r <= 57u8 {
        Some((r - 48) as u64)
    } else if 97u8 <= r && r <= 102u8 {
        Some((r - 87) as u64)
    } else {
        None
    }
}

pub fn arith_op_of(r: u8) -> (o: Option<ArithOp>)
    ensures
        o == arith_op(r),
{
    if r == 43u8 {
        Some(ArithOp::Add)
    } else if r == 45u8 {
        Some(ArithOp::Sub)
    } else if r == 42u8 {
        Some(ArithOp::Mul)
    } else if r == 44u8 {
        Some(ArithOp::Div)
    } else if r == 37u8 {
        Some(ArithOp::Rem)
    } else {
        None
    }
}

pub fn stack_op_of(r: u8) -> (o: Option<StackOp>)
    ensures
        o == stack_op(r),
{
    if r == 38u8 {
        Some(StackOp::Register)
    } else if r == 58u8 {
        Some(StackOp::Duplicate)
    } else if r == 114u8 {
        Some(StackOp::Reverse)
    } else if r == 36u8 {
        Some(StackOp::SwapTwo)
    } else if r == 64u8 {
        Some(StackOp::RotateThree)
    } else if r == 125u8 {
        Some(StackOp::ShiftRight)
    } else if r == 123u8 {
        Some(StackOp::ShiftLeft)
    } else {
        None
    }
}

pub fn is_navigation_byte(r: u8) -> (b: bool)
    ensures
        b == is_navigation(r),
{
    r == 32u8 || r == 62u8 || r == 118u8 || r == 60u8 || r == 94u8 || r == 124u8 || r == 95u8
        || r == 35u8 || r == 47u8 || r == 92u8 || r == 120u8 || r == 79u8 || r == 96u8
}

/// Removing one value and then `k` more removes `k + 1`, and what was one
/// below the top is then the top.
pub proof fn lemma_popped_again(s: BoxView, k: int)
    requires
        s.p < s.stacks.len(),
        0 <= k,
        depth(s) >= k + 1,
    ensures
        popped(popped(s, 1), k) == popped(s, k + 1),
        forall|i: int| 0 <= i < depth(s) - 1 ==> #[trigger] top(popped(s, 1), i) == top(s, i + 1),
        depth(popped(s, 1)) == depth(s) - 1,
{
    let t = popped(s, 1);
    assert(active(t).values =~= active(s).values.subrange(0, depth(s) - 1));
    assert(active(popped(t, k)).values =~= active(popped(s, k + 1)).values);
    assert(popped(t, k).stacks =~= popped(s, k + 1).stacks);
}

} // verus!
