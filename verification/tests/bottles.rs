use superinstance_agent_trait::runner::check_conservation;
use superinstance_agent_trait::{audit, audit_strict, Bottle, ConservationError, RunnerError, Trit};

#[test]
fn empty_bottle_envelope() {
    let b = Bottle::new_empty("a", "b", "noop", vec![-1, 0, 1, 0, 1], 300);
    assert_eq!(b.ver, 1);
    assert_eq!(b.src, "a");
    assert_eq!(b.tgt, "b");
    assert_eq!(b.act, "noop");
    assert_eq!(b.trits, vec![-1, 0, 1, 0, 1]);
    assert_eq!(b.enc, "msgpack");
    assert_eq!(b.pay, "wA==");
    assert_eq!(b.ttl, 300);
}

#[test]
fn raw_bottle_payload_depends_on_the_bytes() {
    let a = Bottle::new_raw("a", "b", "x", vec![1], b"pong".to_vec(), 7);
    let b = Bottle::new_raw("c", "d", "y", vec![0], b"pong".to_vec(), 9);
    let c = Bottle::new_raw("a", "b", "x", vec![1], b"pang".to_vec(), 7);
    assert_eq!(a.pay, b.pay);
    assert_ne!(a.pay, c.pay);
    assert_ne!(a.pay, "pong");
    assert_eq!(a.enc, "msgpack");
    assert_eq!(a.ver, 1);
    assert_eq!((a.src.as_str(), a.tgt.as_str(), a.act.as_str(), a.ttl), ("a", "b", "x", 7));
}

#[test]
fn fresh_bottles_get_distinct_ids() {
    let a = Bottle::new_empty("a", "b", "x", vec![], 1);
    let b = Bottle::new_empty("a", "b", "x", vec![], 1);
    assert_ne!(a.id, b.id);
}

#[test]
fn trit_sums() {
    let b = Bottle::new_empty("a", "b", "x", vec![-1, -1, 0, 1, 1], 300);
    assert_eq!(b.trit_sum(), 0);
    let c = Bottle::new_empty("a", "b", "x", vec![1, 1, 1], 300);
    assert_eq!(c.trit_sum(), 3);
    assert_eq!(c.exact_trit_sum(), 3);
    assert_eq!(c.checked_trit_sum(), Some(3));
    let e = Bottle::new_empty("a", "b", "x", vec![], 300);
    assert_eq!(e.trit_sum(), 0);
    let wide = Bottle::new_empty("a", "b", "x", vec![127, -128, 127], 300);
    assert_eq!(wide.trit_sum(), 126);
}

#[test]
fn audit_compares_trit_sums() {
    let input = Bottle::new_empty("a", "b", "transform", vec![-1, 0, 1], 300);
    let output = Bottle::new_empty("b", "c", "transform.done", vec![1, 1, 1], 300);
    assert!(!audit(&input, &output));
    assert!(audit(&input, &input));
    let same_sum = Bottle::new_empty("b", "c", "t", vec![0, 0, 0, 0], 300);
    assert!(audit(&input, &same_sum));
}

#[test]
fn conservation_check_passes_equal_sums() {
    let response = Bottle::new_empty("b", "c", "done", vec![1, 0, 1, -1], 300);
    let r = check_conservation(1, response.clone());
    assert_eq!(r, Ok(response));
}

#[test]
fn conservation_check_reports_both_sums() {
    let response = Bottle::new_empty("b", "c", "done", vec![1, 1, 1], 300);
    let r = check_conservation(-2, response);
    assert_eq!(r, Err(RunnerError::ConservationViolation { input_sum: -2, output_sum: 3 }));
}

#[test]
fn strict_audit_names_both_sums() {
    let input = Bottle::new_empty("a", "b", "transform", vec![-1, 0, 1], 300);
    let output = Bottle::new_empty("b", "c", "transform.done", vec![1, 1, 1], 300);
    assert_eq!(audit_strict(&input, &output), Err(ConservationError { expected: 0, actual: 3 }));
    assert_eq!(audit_strict(&input, &input), Ok(()));
    let t: Trit = -1;
    assert_eq!(t, -1i8);
}
