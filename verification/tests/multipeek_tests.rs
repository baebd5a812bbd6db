use pax_parser::multipeek::MultiPeek;

#[test]
fn test_multi_peek() {
    let mut itr = MultiPeek::new(vec![1, 2, 3, 4, 5]);
    assert_eq!(itr.next(), Some(1));
    assert_eq!(itr.peek(), Some(&2));
    assert_eq!(itr.peek_nth(1), Some(&3));
    assert_eq!(itr.next(), Some(2));
    assert_eq!(itr.peek_nth(1), Some(&4));
}

#[test]
fn test_peek_past_end() {
    let mut itr = MultiPeek::new(vec![1, 2]);
    assert_eq!(itr.peek_nth(2), None);
    assert_eq!(itr.peek_nth(1), Some(&2));
    assert_eq!(itr.next(), Some(1));
    assert_eq!(itr.next(), Some(2));
    assert_eq!(itr.next(), None);
    assert_eq!(itr.peek(), None);
}

#[test]
fn test_repeated_peek_is_stable() {
    let mut itr = MultiPeek::new(vec![7, 8]);
    assert_eq!(itr.peek(), Some(&7));
    assert_eq!(itr.peek(), Some(&7));
    assert_eq!(itr.peek_nth(1), Some(&8));
    assert_eq!(itr.peek_nth(1), Some(&8));
    assert_eq!(itr.next(), Some(7));
    assert_eq!(itr.peek(), Some(&8));
}

#[test]
fn test_peeks_then_drain_preserve_order() {
    let mut itr = MultiPeek::new(vec![10, 20, 30, 40]);
    let mut seen: Vec<i32> = Vec::new();
    for i in 0..2 {
        seen.push(*itr.peek_nth(i).unwrap());
    }
    assert_eq!(seen, vec![10, 20]);
    let mut drained: Vec<i32> = Vec::new();
    while let Some(v) = itr.next() {
        drained.push(v);
    }
    assert_eq!(drained, vec![10, 20, 30, 40]);
}

#[test]
fn test_next_if() {
    let mut itr = MultiPeek::new(vec![1, 2]);
    assert_eq!(itr.next_if(|v| *v == 2), None);
    assert_eq!(itr.next_if(|v| *v == 1), Some(1));
    assert_eq!(itr.next_if(|v| *v == 2), Some(2));
    assert_eq!(itr.next_if(|v| *v == 3), None);
}

#[test]
fn test_inner() {
    let mut itr = MultiPeek::new(vec![1, 2, 3]);
    assert_eq!(itr.inner().len(), 3);
    itr.next();
    assert_eq!(itr.inner().as_slice(), &[2, 3]);
}
