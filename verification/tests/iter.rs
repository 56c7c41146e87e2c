use flatiter::iter::MyVec;

#[test]
fn test_iter_mut() {
    let mut my_vec = MyVec(vec![1, 2, 3]);
    let mut iter_mut = my_vec.iter_mut();
    while let Some(elem) = iter_mut.next() {
        *elem += 1;
    }
    assert_eq!(my_vec.0, vec![2, 3, 4]);
}

#[test]
fn test_my_into_iter() {
    let my_vec = MyVec(vec![1, 2, 3]);
    let mut iter = my_vec.into_iter();
    assert_eq!(iter.next(), Some(1));
    assert_eq!(iter.next(), Some(2));
    assert_eq!(iter.next(), Some(3));
    assert_eq!(iter.next(), None);
}

#[test]
fn iter_mut_lends_each_element_once_and_in_order() {
    let mut my_vec = MyVec(vec![10, 20, 30]);
    let mut it = my_vec.iter_mut();
    let a = it.next().unwrap();
    let b = it.next().unwrap();
    let c = it.next().unwrap();
    assert!(it.next().is_none());
    assert!(it.next().is_none());
    assert_eq!((*a, *b, *c), (10, 20, 30));
    *c = 3;
    *a = 1;
    assert_eq!(my_vec.0, vec![1, 20, 3]);
}

#[test]
fn iter_mut_leaves_unvisited_elements_alone() {
    let mut my_vec = MyVec(vec![1, 2, 3]);
    let mut it = my_vec.iter_mut();
    *it.next().unwrap() = 9;
    assert_eq!(my_vec.0, vec![9, 2, 3]);
}

#[test]
fn iter_mut_over_an_empty_buffer() {
    let mut my_vec = MyVec(Vec::<u8>::new());
    assert!(my_vec.iter_mut().next().is_none());
    assert_eq!(my_vec.0, Vec::<u8>::new());
}

#[test]
fn into_iter_hands_out_clones_and_stays_at_the_end() {
    let my_vec = MyVec(vec![String::from("x"), String::from("y")]);
    let mut it = my_vec.into_iter();
    assert_eq!(it.next(), Some(String::from("x")));
    assert_eq!(it.next(), Some(String::from("y")));
    assert_eq!(it.next(), None);
    assert_eq!(it.next(), None);
}

#[test]
fn into_iter_over_an_empty_buffer() {
    let mut it = MyVec(Vec::<i32>::new()).into_iter();
    assert_eq!(it.next(), None);
}
