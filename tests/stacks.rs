use starfish::stack::Stack;
use starfish::value::Value;

fn v(x: f64) -> Value {
    Value { bits: x.to_bits() }
}

fn nums(st: &Stack) -> Vec<f64> {
    st.values().iter().map(|x| f64::from_bits(x.bits)).collect()
}

fn stack_of(xs: &[f64]) -> Stack {
    Stack::new(Some(xs.iter().map(|x| v(*x)).collect()))
}

#[test]
fn new_without_values_is_empty() {
    let st = Stack::new(None);
    assert_eq!(st.len(), 0);
    assert!(!st.has_register());
}

#[test]
fn push_and_pop() {
    let mut st = Stack::new(None);
    st.push(v(1.5));
    st.push(v(2.0));
    assert_eq!(f64::from_bits(st.pop().bits), 2.0);
    assert_eq!(nums(&st), vec![1.5]);
}

#[test]
fn duplicate_then_pop_keeps_top_once() {
    let mut st = stack_of(&[1.0, 2.0, 3.0]);
    st.extend();
    assert_eq!(nums(&st), vec![1.0, 2.0, 3.0, 3.0]);
    assert_eq!(f64::from_bits(st.pop().bits), 3.0);
    assert_eq!(nums(&st), vec![1.0, 2.0, 3.0]);
}

#[test]
fn rotate_three_example_and_three_times() {
    let mut st = stack_of(&[1.0, 2.0, 3.0, 4.0]);
    st.swap_three();
    assert_eq!(nums(&st), vec![1.0, 4.0, 2.0, 3.0]);
    st.swap_three();
    st.swap_three();
    assert_eq!(nums(&st), vec![1.0, 2.0, 3.0, 4.0]);
}

#[test]
fn register_store_then_retrieve() {
    let mut st = stack_of(&[5.0, 9.0]);
    st.register();
    assert!(st.has_register());
    assert_eq!(st.register_value(), Some(v(9.0)));
    assert_eq!(nums(&st), vec![5.0]);
    st.register();
    assert!(!st.has_register());
    assert_eq!(nums(&st), vec![5.0, 9.0]);
}

#[test]
fn reverse_swap_and_shifts() {
    let mut st = stack_of(&[1.0, 2.0, 3.0]);
    st.reverse();
    assert_eq!(nums(&st), vec![3.0, 2.0, 1.0]);
    st.swap_two();
    assert_eq!(nums(&st), vec![3.0, 1.0, 2.0]);
    st.shift_right();
    assert_eq!(nums(&st), vec![2.0, 3.0, 1.0]);
    st.shift_left();
    assert_eq!(nums(&st), vec![3.0, 1.0, 2.0]);
}

#[test]
fn get_bytes_truncates_in_order() {
    let mut st = stack_of(&[7.0, 104.9, 105.0, 300.0]);
    assert_eq!(st.get_bytes(3), vec![104u8, 105, 255]);
    assert_eq!(nums(&st), vec![7.0]);
}

#[test]
fn take_top_and_append() {
    let mut st = stack_of(&[1.0, 2.0, 3.0]);
    let top = st.take_top(2);
    assert_eq!(nums(&st), vec![1.0]);
    st.append(top);
    assert_eq!(nums(&st), vec![1.0, 2.0, 3.0]);
}
