use port_scanner::plan::{plan, plan_batches, plan_unbatched, Batch};

fn b(begin: u32, end: u32) -> Batch {
    Batch { begin, end }
}

#[test]
fn test_plan_even_batches() {
    let batches = plan_batches(0, 100, 25);
    assert_eq!(batches, vec![b(0, 25), b(25, 50), b(50, 75), b(75, 100)]);
}

#[test]
fn test_plan_covers_partial_tail() {
    let batches = plan_batches(0, 10, 4);
    assert_eq!(batches, vec![b(0, 4), b(4, 8), b(8, 10)]);
}

#[test]
fn test_plan_width_wider_than_range() {
    let batches = plan_batches(10, 12, 100);
    assert_eq!(batches, vec![b(10, 12)]);
}

#[test]
fn test_plan_empty_range() {
    assert!(plan_batches(5, 5, 3).is_empty());
    assert!(plan_unbatched(5, 5).is_empty());
}

#[test]
fn test_plan_unbatched_single_range() {
    assert_eq!(plan_unbatched(1, 9), vec![b(1, 9)]);
}

#[test]
fn test_plan_optional_width() {
    assert_eq!(plan(1, 9, None), vec![b(1, 9)]);
    assert_eq!(plan(1, 9, Some(4)), vec![b(1, 5), b(5, 9)]);
}
