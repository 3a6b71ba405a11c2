use celestial_bootstrap::number::{parse_decimal, parse_i32};
use celestial_bootstrap::plan::{effective_concurrency_of, plan_chunks, ByteRange};

fn ranges(v: &[(usize, usize)]) -> Vec<ByteRange> {
    v.iter().map(|&(start, end)| ByteRange { start, end }).collect()
}

fn assert_partition(total: usize, plan: &[ByteRange]) {
    assert!(!plan.is_empty());
    assert_eq!(plan[0].start, 0);
    assert_eq!(plan[plan.len() - 1].end, total - 1);
    for r in plan {
        assert!(r.start <= r.end);
    }
    for w in plan.windows(2) {
        assert_eq!(w[0].end + 1, w[1].start);
    }
    let covered: usize = plan.iter().map(|r| r.end - r.start + 1).sum();
    assert_eq!(covered, total);
}

#[test]
fn four_equal_chunks_of_a_hundred_thousand_bytes() {
    let plan = plan_chunks(100000, 4).unwrap();
    assert_eq!(
        plan,
        ranges(&[(0, 24999), (25000, 49999), (50000, 74999), (75000, 99999)])
    );
    for r in &plan {
        assert_eq!(r.end - r.start + 1, 25000);
    }
}

#[test]
fn last_chunk_takes_the_remainder() {
    assert_eq!(plan_chunks(10, 3).unwrap(), ranges(&[(0, 2), (3, 5), (6, 9)]));
    assert_eq!(plan_chunks(5121, 2).unwrap(), ranges(&[(0, 2559), (2560, 5120)]));
}

#[test]
fn single_chunk_plan() {
    assert_eq!(plan_chunks(6000, 1).unwrap(), ranges(&[(0, 5999)]));
}

#[test]
fn concurrency_at_least_the_size_is_halved_once() {
    assert_eq!(effective_concurrency_of(6000, 8000), 4000);
    assert_eq!(effective_concurrency_of(6000, 6000), 3000);
    assert_eq!(effective_concurrency_of(6000, 5999), 5999);
    let plan = plan_chunks(6000, 8000).unwrap();
    assert_eq!(plan.len(), 4000);
    assert_eq!(plan[0], ByteRange { start: 0, end: 0 });
    assert_eq!(plan[3999], ByteRange { start: 3999, end: 5999 });
    assert_partition(6000, &plan);
}

#[test]
fn unplannable_inputs_give_no_plan() {
    assert_eq!(plan_chunks(0, 4), None);
    assert_eq!(plan_chunks(6000, 0), None);
    assert_eq!(plan_chunks(6000, 20000), None);
    assert_eq!(plan_chunks(1, 1), None);
}

#[test]
fn plans_partition_the_resource() {
    for &(total, c) in &[(5121usize, 7usize), (100000, 3), (65537, 16), (9999, 9999), (8192, 64)] {
        let plan = plan_chunks(total, c).unwrap();
        assert_eq!(plan.len(), effective_concurrency_of(total, c));
        assert_partition(total, &plan);
    }
}

#[test]
fn decimal_numbers() {
    assert_eq!(parse_decimal("42"), Some(42));
    assert_eq!(parse_decimal("+0"), Some(0));
    assert_eq!(parse_decimal("4 2"), None);
    assert_eq!(parse_decimal("++1"), None);
}

#[test]
fn signed_numbers() {
    assert_eq!(parse_i32("-42"), Some(-42));
    assert_eq!(parse_i32("+42"), Some(42));
    assert_eq!(parse_i32("-0"), Some(0));
    assert_eq!(parse_i32(""), None);
    assert_eq!(parse_i32("--1"), None);
    assert_eq!(parse_i32("-2147483649"), None);
}
