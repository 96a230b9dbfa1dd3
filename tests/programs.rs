use std::collections::{HashMap, VecDeque};

use starfish::codebox::{CodeBox, Direction};
use starfish::semantics::{ArithOp, Fault, Request};
use starfish::value::Value;

fn v(x: f64) -> Value {
    Value { bits: x.to_bits() }
}

fn nums(vals: Vec<Value>) -> Vec<f64> {
    vals.iter().map(|x| f64::from_bits(x.bits)).collect()
}

#[derive(Default)]
struct Host {
    stdin: VecDeque<u8>,
    files: HashMap<Vec<u8>, Vec<u8>>,
    reading: Option<VecDeque<u8>>,
    out: String,
    sleeps: Vec<u64>,
}

fn arith(op: ArithOp, a: f64, b: f64) -> f64 {
    match op {
        ArithOp::Add => a + b,
        ArithOp::Sub => a - b,
        ArithOp::Mul => a * b,
        ArithOp::Div => a / b,
        ArithOp::Rem => a.rem_euclid(b),
    }
}

/// Runs at most `max` ticks; returns how many ticks ran up to and including the halt.
fn run(cb: &mut CodeBox, host: &mut Host, max: usize) -> Result<Option<usize>, Fault> {
    for n in 1..=max {
        let t = cb.swim()?;
        if let Some(o) = t.output {
            host.out.push_str(&o);
        }
        if t.sleep_ms > 0 {
            host.sleeps.push(t.sleep_ms);
        }
        match t.request {
            Request::Nothing => {}
            Request::Arith { op, lhs, rhs } => {
                let r = arith(op, f64::from_bits(lhs.bits), f64::from_bits(rhs.bits));
                cb.push(v(r));
            }
            Request::PrintInteger { value } => {
                host.out.push_str(&format!("{}", f64::from_bits(value.bits).trunc()));
            }
            Request::Input => {
                let b = match &mut host.reading {
                    Some(f) => f.pop_front(),
                    None => host.stdin.pop_front(),
                };
                cb.supply_input(b);
            }
            Request::OpenFile { path } => {
                let data = host.files.entry(path).or_default().clone();
                host.reading = Some(data.into_iter().collect());
            }
            Request::WriteFile { path, bytes } => {
                host.reading = None;
                host.files.insert(path, bytes);
            }
        }
        if t.halted {
            return Ok(Some(n));
        }
    }
    Ok(None)
}

fn run_program(src: &str) -> (CodeBox, Host, Result<Option<usize>, Fault>) {
    let mut cb = CodeBox::new(src, None, false);
    let mut host = Host::default();
    let r = run(&mut cb, &mut host, 1000);
    (cb, host, r)
}

#[test]
fn hello_program_prints_hello_and_halts() {
    let (mut cb, host, r) = run_program("89*oaa*1+o9c*o9c*oab*1+o;");
    assert_eq!(host.out, "Hello");
    assert!(r.unwrap().is_some());
    assert!(cb.stack().is_empty());
}

#[test]
fn terminator_alone_halts_on_first_tick() {
    let (_, host, r) = run_program(";");
    assert_eq!(r.unwrap(), Some(1));
    assert_eq!(host.out, "");
}

#[test]
fn euclidean_modulo_of_minus_seven_by_three() {
    let (_, host, r) = run_program("07-3%n;");
    assert!(r.unwrap().is_some());
    assert_eq!(host.out, "2");
}

#[test]
fn arithmetic_requests_carry_operands_in_order() {
    let mut cb = CodeBox::new("52-", None, false);
    cb.swim().unwrap();
    cb.swim().unwrap();
    let t = cb.swim().unwrap();
    match t.request {
        Request::Arith { op, lhs, rhs } => {
            assert_eq!(op, ArithOp::Sub);
            assert_eq!(f64::from_bits(lhs.bits), 5.0);
            assert_eq!(f64::from_bits(rhs.bits), 2.0);
        }
        other => panic!("unexpected request {:?}", other),
    }
    assert!(cb.stack().is_empty());
}

#[test]
fn string_mode_pushes_codes_not_delimiters() {
    let mut cb = CodeBox::new("'a;\"b'", None, false);
    for _ in 0..6 {
        let t = cb.swim().unwrap();
        assert!(!t.halted);
    }
    assert_eq!(nums(cb.stack()), vec![97.0, 59.0, 34.0, 98.0]);
}

#[test]
fn double_quote_string_and_output() {
    let (_, host, r) = run_program("\"ih\"oo;");
    assert!(r.unwrap().is_some());
    assert_eq!(host.out, "hi");
}

#[test]
fn file_round_trip_reads_back_written_bytes() {
    // open "t", write "hi" to it, open it again, read two bytes and one past the end
    let (_, host, r) = run_program("'t'1F'hi'2F't'1Fiiinon;");
    assert!(r.unwrap().is_some());
    assert_eq!(host.files.get(&b"t".to_vec()), Some(&b"hi".to_vec()));
    assert_eq!(host.out, "-1i104");
}

#[test]
fn file_requests_carry_path_and_bytes() {
    let mut cb = CodeBox::new("'ab'2F'xyz'3F", None, false);
    let mut seen = Vec::new();
    for _ in 0..14 {
        let t = cb.swim().unwrap();
        match t.request {
            Request::OpenFile { path } => seen.push(("open", path, Vec::new())),
            Request::WriteFile { path, bytes } => seen.push(("write", path, bytes)),
            _ => {}
        }
    }
    assert_eq!(
        seen,
        vec![("open", b"ab".to_vec(), Vec::new()), ("write", b"ab".to_vec(), b"xyz".to_vec())]
    );
}

#[test]
fn input_from_stdin_or_minus_one() {
    let mut cb = CodeBox::new("iin;", None, false);
    let mut host = Host::default();
    host.stdin.push_back(65);
    assert!(run(&mut cb, &mut host, 10).unwrap().is_some());
    assert_eq!(host.out, "-1");
    assert_eq!(nums(cb.stack()), vec![65.0]);
}

#[test]
fn cursor_wraps_columns_and_rows() {
    let mut cb = CodeBox::new("abc\ndef\nghi", None, false);
    for expected in [1usize, 2, 0] {
        cb.shift();
        assert_eq!(cb.position(), (expected, 0));
    }
    cb.exe(b'<', 0).unwrap();
    cb.shift();
    assert_eq!(cb.position(), (2, 0));
    cb.exe(b'^', 0).unwrap();
    cb.shift();
    assert_eq!(cb.position(), (2, 2));
    cb.exe(b'v', 0).unwrap();
    cb.shift();
    assert_eq!(cb.position(), (2, 0));
}

#[test]
fn mirrors_undo_themselves() {
    for start in [b'>', b'v', b'<', b'^'] {
        for mirror in [b'/', b'\\'] {
            let mut cb = CodeBox::new("a", None, false);
            cb.exe(start, 0).unwrap();
            let before = cb.direction();
            cb.exe(mirror, 0).unwrap();
            assert_ne!(cb.direction(), before);
            cb.exe(mirror, 0).unwrap();
            assert_eq!(cb.direction(), before);
        }
    }
}

#[test]
fn slash_then_backslash_reverses_heading() {
    let mut cb = CodeBox::new("a", None, false);
    cb.exe(b'/', 0).unwrap();
    assert_eq!(cb.direction(), Direction::Up);
    cb.exe(b'\\', 0).unwrap();
    assert_eq!(cb.direction(), Direction::Left);
}

#[test]
fn hook_alternates_down_and_up() {
    let mut cb = CodeBox::new("a", None, false);
    cb.exe(b'`', 0).unwrap();
    assert_eq!(cb.direction(), Direction::Down);
    cb.exe(b'`', 0).unwrap();
    assert_eq!(cb.direction(), Direction::Right);
    cb.exe(b'`', 0).unwrap();
    assert_eq!(cb.direction(), Direction::Up);
}

#[test]
fn random_heading_uses_sample() {
    let mut cb = CodeBox::new("x", None, false);
    cb.swim_with(2).unwrap();
    assert_eq!(cb.direction(), Direction::Left);
    let mut cb = CodeBox::new("x", None, false);
    cb.swim().unwrap();
    let (x, y) = cb.position();
    assert!(x == 0 && y == 0);
}

#[test]
fn clock_instruction_pushes_sample() {
    let mut cb = CodeBox::new("h", None, false);
    cb.swim_with(13).unwrap();
    assert_eq!(nums(cb.stack()), vec![13.0]);
    let mut cb = CodeBox::new("m", None, false);
    cb.swim().unwrap();
    let m = nums(cb.stack())[0];
    assert!((0.0..60.0).contains(&m));
}

#[test]
fn split_and_merge_keep_order() {
    let (cb, _, r) = run_program("1232[;");
    assert!(r.unwrap().is_some());
    assert_eq!(nums(cb.stack()), vec![2.0, 3.0]);
    let (cb, _, _) = run_program("1232[];");
    assert_eq!(nums(cb.stack()), vec![1.0, 2.0, 3.0]);
}

#[test]
fn compatibility_mode_reverses_on_split_and_merge() {
    let mut cb = CodeBox::new("1232[", None, true);
    for _ in 0..5 {
        cb.swim().unwrap();
    }
    assert_eq!(nums(cb.stack()), vec![3.0, 2.0]);
    let mut cb = CodeBox::new("1232[]", None, true);
    for _ in 0..6 {
        cb.swim().unwrap();
    }
    assert_eq!(nums(cb.stack()), vec![1.0, 2.0, 3.0]);
}

#[test]
fn merge_with_one_stack_underflows() {
    let (_, _, r) = run_program("]");
    assert_eq!(r, Err(Fault::Underflow));
}

#[test]
fn call_keeps_position_and_return_pops_frame() {
    let mut cb = CodeBox::new("  C", None, false);
    cb.swim().unwrap();
    cb.swim().unwrap();
    cb.exe(b'C', 0).unwrap();
    assert_eq!(cb.position(), (2, 0));
    assert!(cb.stack().is_empty());
    let mut cb = CodeBox::new("a", Some(vec![v(0.0), v(0.0)]), false);
    cb.exe(b'C', 0).unwrap();
    cb.exe(b'R', 0).unwrap();
    assert_eq!(cb.position(), (0, 0));
    assert!(cb.stack().is_empty());
    let mut cb = CodeBox::new("a", None, false);
    assert_eq!(cb.exe(b'R', 0).unwrap_err(), Fault::Underflow);
}

#[test]
fn grid_read_and_write() {
    let (mut cb, host, r) = run_program("01g'Z'31p;\nab");
    assert!(r.unwrap().is_some());
    assert_eq!(host.out, "");
    assert_eq!(nums(cb.stack()), vec![97.0]);
    assert_eq!(cb.grid()[1], b"ab Z      ".to_vec());
    let _ = cb.stack_length();
}

#[test]
fn grid_is_padded_rectangle() {
    let cb = CodeBox::new("ab\ncde\r\n\nf", None, false);
    assert_eq!(cb.dimensions(), (3, 4));
    assert_eq!(
        cb.grid(),
        vec![b"ab ".to_vec(), b"cde".to_vec(), b"   ".to_vec(), b"f  ".to_vec()]
    );
}

#[test]
fn empty_program_is_out_of_bounds() {
    let mut cb = CodeBox::new("", None, false);
    assert_eq!(cb.dimensions(), (0, 0));
    assert_eq!(cb.swim().unwrap_err(), Fault::OutOfBounds);
}

#[test]
fn number_output_truncates() {
    let mut cb = CodeBox::new("n;", Some(vec![v(15.9)]), false);
    let mut host = Host::default();
    run(&mut cb, &mut host, 5).unwrap();
    assert_eq!(host.out, "15");
}

#[test]
fn sleep_request_is_hundredfold() {
    let (_, host, r) = run_program("2S;");
    assert!(r.unwrap().is_some());
    assert_eq!(host.sleeps, vec![200]);
}

#[test]
fn sleep_request_keeps_fractions() {
    let cases = [
        (1.5, 150u64),
        (0.25, 25),
        (0.01, 1),
        (0.004, 0),
        (-3.0, 0),
        (f64::NAN, 0),
        (1e20, u64::MAX),
        (f64::INFINITY, u64::MAX),
        (1.8e17, 18000000000000000000),
    ];
    for (x, ms) in cases {
        let mut cb = CodeBox::new("S", Some(vec![v(x)]), false);
        let t = cb.swim().unwrap();
        assert_eq!(t.sleep_ms, ms, "S of {}", x);
    }
}

#[test]
fn number_output_is_signed_truncation() {
    let cases = [
        (42.9, "42"),
        (-5.5, "-5"),
        (-0.5, "0"),
        (0.0, "0"),
        (4294967296.0, "4294967296"),
        (-18446744073709549568.0, "-18446744073709549568"),
    ];
    for (x, text) in cases {
        let mut cb = CodeBox::new("n", Some(vec![v(x)]), false);
        let t = cb.swim().unwrap();
        assert_eq!(t.output.as_deref(), Some(text), "n of {}", x);
    }
}

#[test]
fn number_output_of_huge_values_goes_to_host() {
    for x in [1e30, -1e30, f64::INFINITY, f64::NAN] {
        let mut cb = CodeBox::new("n", Some(vec![v(x)]), false);
        let t = cb.swim().unwrap();
        assert!(t.output.is_none());
        match t.request {
            Request::PrintInteger { value } => assert_eq!(value.bits, x.to_bits()),
            other => panic!("unexpected request {:?}", other),
        }
    }
}

#[test]
fn deep_sea_suppresses_until_exit() {
    let (cb, _, r) = run_program("u12O3;");
    assert!(r.unwrap().is_some());
    assert_eq!(nums(cb.stack()), vec![3.0]);
}

#[test]
fn conditional_skip_and_jump() {
    let (cb, _, r) = run_program("0?12;");
    assert!(r.unwrap().is_some());
    assert_eq!(nums(cb.stack()), vec![2.0]);
    let (cb, _, r) = run_program("30.1;");
    assert!(r.unwrap().is_some());
    assert!(cb.stack().is_empty());
}

#[test]
fn comparisons_push_flags() {
    let (cb, _, _) = run_program("23=23)23(22=;");
    assert_eq!(nums(cb.stack()), vec![0.0, 0.0, 1.0, 1.0]);
}

#[test]
fn stack_instructions_through_the_dispatcher() {
    let (cb, _, _) = run_program("123@$:~r}{&&l;");
    assert_eq!(nums(cb.stack()), vec![1.0, 2.0, 3.0, 3.0]);
}

#[test]
fn faults() {
    assert_eq!(run_program("+").2, Err(Fault::Underflow));
    assert_eq!(run_program("Z").2, Err(Fault::UnknownInstruction(b'Z')));
    assert_eq!(run_program("99g").2, Err(Fault::OutOfBounds));
    assert_eq!(run_program("I").2, Err(Fault::Underflow));
    assert_eq!(run_program("D").2, Err(Fault::Underflow));
    let mut cb = CodeBox::new("o", Some(vec![v(55296.0)]), false);
    assert_eq!(cb.swim().unwrap_err(), Fault::InvalidChar);
}

#[test]
fn stack_pointer_moves_between_stacks() {
    let (cb, _, r) = run_program("120[D I;");
    assert!(r.unwrap().is_some());
    assert!(cb.stack().is_empty());
    assert!(!cb.deep_sea());
}
