use flatiter::consume::{collect, collect_back, count};
use flatiter::mapped::Mapped;
use flatiter::producer::{BackProducer, IntoProducer, Producer};

#[test]
fn buffer_yields_its_items_from_both_ends() {
    let mut p = vec![10, 20, 30, 40].into_producer();
    assert_eq!(p.next(), Some(10));
    assert_eq!(p.next_back(), Some(40));
    assert_eq!(p.next_back(), Some(30));
    assert_eq!(p.next(), Some(20));
    assert_eq!(p.next(), None);
    assert_eq!(p.next_back(), None);
}

#[test]
fn buffer_moves_items_that_cannot_be_copied() {
    let p = vec![String::from("a"), String::from("b")].into_producer();
    assert_eq!(collect(p), vec![String::from("a"), String::from("b")]);
}

#[test]
fn producer_is_its_own_producer() {
    let p = vec![1, 2].into_producer().into_producer();
    assert_eq!(collect(p), vec![1, 2]);
}

#[test]
fn option_yields_its_value_once() {
    let mut one = Some('x');
    assert_eq!(Producer::next(&mut one), Some('x'));
    assert_eq!(one, None);
    assert_eq!(Producer::next(&mut one), None);
    let mut one = Some('y');
    assert_eq!(BackProducer::next_back(&mut one), Some('y'));
    assert_eq!(BackProducer::next_back(&mut one), None);
    let mut none = None::<char>;
    assert_eq!(Producer::next(&mut none), None);
    assert_eq!(count(Some(1)), 1);
    assert_eq!(collect(None::<u8>), Vec::<u8>::new());
}

#[test]
fn range_counts_up_from_the_front_and_down_from_the_back() {
    let mut r = 3..7;
    assert_eq!(Producer::next(&mut r), Some(3));
    assert_eq!(BackProducer::next_back(&mut r), Some(6));
    assert_eq!(r, 4..6);
    assert_eq!(collect(r), vec![4, 5]);
    assert_eq!(collect_back(-2..2), vec![1, 0, -1, -2]);
}

#[test]
fn range_without_items_yields_nothing() {
    let mut r = 5..5;
    assert_eq!(Producer::next(&mut r), None);
    assert_eq!(r, 5..5);
    let mut r = 9..2;
    assert_eq!(Producer::next(&mut r), None);
    assert_eq!(BackProducer::next_back(&mut r), None);
    assert_eq!(r, 9..2);
    assert_eq!(count(9..2), 0);
}

#[test]
fn range_reaches_the_largest_value_without_overflow() {
    let mut r = (i32::MAX - 1)..i32::MAX;
    assert_eq!(Producer::next(&mut r), Some(i32::MAX - 1));
    assert_eq!(Producer::next(&mut r), None);
    assert_eq!(count(i32::MIN..(i32::MIN + 3)), 3);
}

#[test]
fn mapped_applies_the_function_to_each_item() {
    let mut m = Mapped::new(vec![1, 2, 3, 4].into_producer(), |n: i32| n * n);
    assert_eq!(m.next(), Some(1));
    assert_eq!(m.next_back(), Some(16));
    assert_eq!(m.next_back(), Some(9));
    assert_eq!(m.next(), Some(4));
    assert_eq!(m.next(), None);
    assert_eq!(m.next_back(), None);
}

#[test]
fn mapped_applies_the_function_only_when_pulled() {
    let calls = std::cell::Cell::new(0);
    let mut m = Mapped::new(0..100, |n: i32| {
        calls.set(calls.get() + 1);
        n + 1
    });
    assert_eq!(calls.get(), 0);
    assert_eq!(m.next(), Some(1));
    assert_eq!(m.next_back(), Some(100));
    assert_eq!(calls.get(), 2);
}

#[test]
fn mapped_is_consumed_like_any_producer() {
    assert_eq!(collect(Mapped::new(0..3, |n: i32| n * 10)), vec![0, 10, 20]);
    assert_eq!(collect_back(Mapped::new(0..3, |n: i32| n * 10)), vec![20, 10, 0]);
}

#[test]
fn collect_and_count_drain_a_producer() {
    assert_eq!(collect(vec!['a', 'b', 'c'].into_producer()), vec!['a', 'b', 'c']);
    assert_eq!(collect_back(vec!['a', 'b', 'c'].into_producer()), vec!['c', 'b', 'a']);
    assert_eq!(count(vec!['a', 'b', 'c'].into_producer()), 3);
    assert_eq!(collect(Vec::<u8>::new().into_producer()), Vec::<u8>::new());
    assert_eq!(collect_back(Vec::<u8>::new().into_producer()), Vec::<u8>::new());
    assert_eq!(count(Vec::<u8>::new().into_producer()), 0);
}
