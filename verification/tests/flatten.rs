use flatiter::consume::{collect, collect_back, count};
use flatiter::flatten;
use flatiter::mapped::Mapped;
use flatiter::producer::{BackProducer, IntoProducer, Producer};
use flatiter::Flatten;

#[test]
fn test_multiple() {
    let flat: Vec<_> = collect(flatten(vec![vec![1, 2], vec![3, 4, 5]]));
    assert_eq!(flat, vec![1, 2, 3, 4, 5]);
}

#[test]
fn test_empty() {
    assert_eq!(count(flatten(None::<Vec<()>>)), 0);
}

#[test]
fn test_one() {
    assert_eq!(count(flatten(Some(vec!["a"]))), 1);
}

#[test]
fn test_two() {
    assert_eq!(collect(flatten(Some(vec!["a", "b"]))), vec!["a", "b"]);
}

#[test]
fn test_two_wide() {
    assert_eq!(
        collect(flatten(vec![vec!["a"], vec!["b"]])),
        vec!["a", "b"]
    );
}

#[test]
fn test_double_ended_reverse() {
    assert_eq!(
        collect_back(flatten(vec![vec![1, 2], vec![3, 4, 5]])),
        vec![5, 4, 3, 2, 1]
    );
}

#[test]
fn test_double_ended_back() {
    let mut flat = flatten(vec![vec![1, 2], vec![3]]);
    assert_eq!(flat.next(), Some(1));
    assert_eq!(flat.next_back(), Some(3));
    assert_eq!(flat.next_back(), Some(2));
    assert_eq!(flat.next(), None);
    assert_eq!(flat.next_back(), None);
}

#[test]
fn test_double_ended() {
    let mut flat = flatten(vec![vec![1], vec![2, 3]]);
    assert_eq!(flat.next(), Some(1));
    assert_eq!(flat.next_back(), Some(3));
    assert_eq!(flat.next(), Some(2));
    assert_eq!(flat.next(), None);
    assert_eq!(flat.next_back(), None);
}

#[test]
fn test_inf() {
    let mut flat = flatten(Mapped::new(0..i32::MAX, |i| 0..i));
    assert_eq!(flat.next(), Some(0));
    assert_eq!(flat.next(), Some(0));
    assert_eq!(flat.next(), Some(1));
    assert_eq!(flat.next(), Some(0));
}

#[test]
fn test_multiple_level_deep() {
    assert_eq!(count(flatten(vec![vec![vec![1, 2]]])), 1);
    assert_eq!(count(flatten(flatten(vec![vec![vec![1, 2]]]))), 2);
}

#[test]
fn forward_output_is_the_concatenation_in_outer_order() {
    let groups = vec![vec![7, 1], vec![], vec![9], vec![4, 4, 2]];
    let expected: Vec<i32> = groups.iter().flat_map(|g| g.iter().copied()).collect();
    assert_eq!(expected, vec![7, 1, 9, 4, 4, 2]);
    assert_eq!(collect(flatten(groups)), expected);
}

#[test]
fn backward_output_is_the_forward_output_reversed() {
    let groups = vec![vec![7, 1], vec![], vec![9], vec![4, 4, 2]];
    let forward = collect(flatten(groups.clone()));
    let mut backward = collect_back(flatten(groups));
    assert_eq!(backward, vec![2, 4, 4, 9, 1, 7]);
    backward.reverse();
    assert_eq!(backward, forward);
}

fn pull_in_turns(groups: Vec<Vec<i32>>, from_front: &[bool]) -> (Vec<Option<i32>>, Vec<i32>) {
    let mut flat = flatten(groups);
    let mut answers = Vec::new();
    let mut fronts = Vec::new();
    let mut backs = Vec::new();
    for &front in from_front {
        let item = if front { flat.next() } else { flat.next_back() };
        answers.push(item);
        if let Some(x) = item {
            if front {
                fronts.push(x);
            } else {
                backs.push(x);
            }
        }
    }
    backs.reverse();
    fronts.extend(backs);
    (answers, fronts)
}

#[test]
fn pulls_from_both_ends_yield_every_item_once() {
    let groups = vec![vec![1, 2], vec![3], vec![], vec![4, 5, 6]];
    let runs: [[bool; 6]; 6] = [
        [true, true, true, true, true, true],
        [false, false, false, false, false, false],
        [true, false, true, false, true, false],
        [false, true, false, true, false, true],
        [true, true, false, false, false, true],
        [false, false, true, true, true, false],
    ];
    for run in runs.iter() {
        let (answers, recombined) = pull_in_turns(groups.clone(), run);
        assert!(answers.iter().all(|a| a.is_some()));
        assert_eq!(recombined, vec![1, 2, 3, 4, 5, 6]);
    }
}

#[test]
fn alternating_pulls_meet_inside_one_group() {
    let (answers, recombined) =
        pull_in_turns(vec![vec![1, 2, 3, 4, 5]], &[true, false, true, false, true]);
    assert_eq!(answers, vec![Some(1), Some(5), Some(2), Some(4), Some(3)]);
    assert_eq!(recombined, vec![1, 2, 3, 4, 5]);
}

#[test]
fn pulls_past_the_end_yield_nothing_more() {
    let (answers, recombined) = pull_in_turns(vec![vec![1], vec![2]], &[false, true, true, false]);
    assert_eq!(answers, vec![Some(2), Some(1), None, None]);
    assert_eq!(recombined, vec![1, 2]);
}

#[test]
fn empty_groups_contribute_nothing() {
    assert_eq!(collect(flatten(vec![vec![], vec![1, 2], vec![]])), vec![1, 2]);
    assert_eq!(collect_back(flatten(vec![vec![], vec![1, 2], vec![]])), vec![2, 1]);
    assert_eq!(count(flatten(vec![Vec::<u8>::new(), vec![], vec![]])), 0);
}

#[test]
fn empty_outer_is_exhausted_at_the_first_pull() {
    let mut flat = flatten(Vec::<Vec<i32>>::new());
    assert_eq!(flat.next(), None);
    let mut flat = flatten(Vec::<Vec<i32>>::new());
    assert_eq!(flat.next_back(), None);
    assert_eq!(collect(flatten(Vec::<Vec<i32>>::new())), Vec::<i32>::new());
}

#[test]
fn singleton_outer_yields_its_group() {
    assert_eq!(collect(flatten(vec![vec![1, 2]])), vec![1, 2]);
}

#[test]
fn mixed_directions_on_two_groups() {
    let mut flat = flatten(vec![vec![1, 2], vec![3]]);
    let answers = vec![
        flat.next(),
        flat.next_back(),
        flat.next_back(),
        flat.next(),
        flat.next_back(),
    ];
    assert_eq!(answers, vec![Some(1), Some(3), Some(2), None, None]);
}

#[test]
fn forward_pull_falls_back_to_the_front_of_the_back_group() {
    let mut flat = flatten(vec![vec![1], vec![2, 3, 4]]);
    assert_eq!(flat.next_back(), Some(4));
    assert_eq!(flat.next(), Some(1));
    assert_eq!(flat.next(), Some(2));
    assert_eq!(flat.next(), Some(3));
    assert_eq!(flat.next(), None);
}

#[test]
fn backward_pull_falls_back_to_the_back_of_the_front_group() {
    let mut flat = flatten(vec![vec![1, 2, 3], vec![4]]);
    assert_eq!(flat.next(), Some(1));
    assert_eq!(flat.next_back(), Some(4));
    assert_eq!(flat.next_back(), Some(3));
    assert_eq!(flat.next_back(), Some(2));
    assert_eq!(flat.next_back(), None);
    assert_eq!(flat.next(), None);
}

#[test]
fn exhausted_traversal_stays_exhausted() {
    let mut flat = flatten(vec![vec![1]]);
    assert_eq!(flat.next(), Some(1));
    assert_eq!(flat.next(), None);
    assert_eq!(flat.next(), None);
    assert_eq!(flat.next_back(), None);
}

#[test]
fn outer_is_pulled_only_as_far_as_needed() {
    let pulled = std::cell::Cell::new(0);
    let outer = Mapped::new(0..1_000_000, |i| {
        pulled.set(pulled.get() + 1);
        0..i
    });
    let mut flat = Flatten::new(outer);
    assert_eq!(pulled.get(), 0);
    assert_eq!(flat.next(), Some(0));
    assert_eq!(pulled.get(), 2);
    assert_eq!(flat.next(), Some(0));
    assert_eq!(pulled.get(), 3);
    assert_eq!(flat.next(), Some(1));
    assert_eq!(pulled.get(), 3);
    assert_eq!(flat.next_back(), Some(999_998));
    assert_eq!(pulled.get(), 4);
}

#[test]
fn flattening_twice_yields_the_innermost_items() {
    let nested = vec![vec![vec![1, 2], vec![]], vec![], vec![vec![3], vec![4, 5]]];
    let groups = collect(flatten(nested.clone()));
    assert_eq!(groups, vec![vec![1, 2], vec![], vec![3], vec![4, 5]]);
    assert_eq!(collect(flatten(flatten(nested.clone()))), vec![1, 2, 3, 4, 5]);
    let each_first: Vec<Vec<i32>> = nested.into_iter().map(|g| collect(flatten(g))).collect();
    assert_eq!(collect(flatten(each_first)), vec![1, 2, 3, 4, 5]);
}

#[test]
fn new_takes_a_producer_of_groups() {
    let outer = vec![vec!['x'], vec!['y', 'z']].into_producer();
    assert_eq!(collect(Flatten::new(outer)), vec!['x', 'y', 'z']);
}
