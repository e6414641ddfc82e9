use lists::list::List;

#[test]
fn my_second_basic() {
    let mut l: List<i32> = List::new();

    assert_eq!(l.pop(), None);

    l.push(1);
    l.push(2);
    l.push(3);

    assert_eq!(l.pop(), Some(3));
    assert_eq!(l.pop(), Some(2));
    assert_eq!(l.pop(), Some(1));
}

#[test]
fn iter() {
    let mut l: List<i32> = List::new();

    assert_eq!(l.pop(), None);

    l.push(1);
    l.push(2);
    l.push(3);

    {
        let mut list_iterator = l.get_iterator();
        assert_eq!(list_iterator.next(), Some(&3));
        assert_eq!(list_iterator.next(), Some(&2));
        assert_eq!(list_iterator.next(), Some(&1));
        assert_eq!(list_iterator.next(), None);
    }

    l.push(5);
}

#[test]
fn iter_mut() {
    let mut list = List::new();
    list.push(1);
    list.push(2);
    list.push(3);

    let mut iter = list.get_mut_iterator();
    assert_eq!(iter.next(), Some(&mut 3));
    assert_eq!(iter.next(), Some(&mut 2));
    assert_eq!(iter.next(), Some(&mut 1));
}

#[test]
fn second_basic() {
    let mut list = List::new();

    assert_eq!(list.pop(), None);

    list.push(1);
    list.push(2);
    list.push(3);

    assert_eq!(list.pop(), Some(3));
    assert_eq!(list.pop(), Some(2));

    list.push(4);
    assert_eq!(list.pop(), Some(4));

    assert_eq!(list.pop(), Some(1));
    assert_eq!(list.pop(), None);
}

#[test]
fn peek() {
    let mut list = List::new();
    assert_eq!(list.peek(), None);
    assert_eq!(list.peek_mut(), None);
    list.push(1);
    list.push(2);
    list.push(3);

    assert_eq!(list.peek(), Some(&3));
    assert_eq!(list.peek_mut(), Some(&mut 3));
}

#[test]
fn into_iter() {
    let mut list = List::new();

    list.push(1);
    list.push(2);
    list.push(3);

    let mut iter = list.into_iter();

    assert_eq!(iter.next(), Some(3));
    assert_eq!(iter.next(), Some(2));
    assert_eq!(iter.next(), Some(1));
    assert_eq!(iter.next(), None);
}

#[test]
fn pushes_then_pops_come_back_reversed() {
    let mut list = List::new();
    for v in 10..20 {
        list.push(v);
    }
    for v in (10..20).rev() {
        assert_eq!(list.pop(), Some(v));
    }
    assert_eq!(list.pop(), None);
}

#[test]
fn pop_on_empty_stays_empty() {
    let mut list: List<String> = List::new();
    for _ in 0..5 {
        assert_eq!(list.pop(), None);
    }
    assert_eq!(list.peek(), None);
    list.push(String::from("a"));
    assert_eq!(list.pop(), Some(String::from("a")));
    assert_eq!(list.pop(), None);
    assert_eq!(list.pop(), None);
}

#[test]
fn peek_shows_the_next_pop_and_changes_nothing() {
    let mut list = List::new();
    list.push(7);
    list.push(8);
    assert_eq!(list.peek(), Some(&8));
    assert_eq!(list.peek(), Some(&8));
    assert_eq!(list.peek_mut(), Some(&mut 8));
    assert_eq!(list.pop(), Some(8));
    assert_eq!(list.peek(), Some(&7));
    assert_eq!(list.pop(), Some(7));
    assert_eq!(list.peek(), None);
}

#[test]
fn peek_mut_writes_the_top_value() {
    let mut list = List::new();
    list.push(1);
    list.push(2);
    if let Some(top) = list.peek_mut() {
        *top = 42;
    }
    assert_eq!(list.pop(), Some(42));
    assert_eq!(list.pop(), Some(1));
    assert_eq!(list.pop(), None);
}

#[test]
fn drain_returns_every_push_in_reverse() {
    let mut list = List::new();
    let pushed = vec![5, 3, 9, 1, 4];
    for &v in &pushed {
        list.push(v);
    }
    let mut iter = list.into_iter();
    let mut drained = Vec::new();
    while let Some(v) = iter.next() {
        drained.push(v);
    }
    let mut expected = pushed.clone();
    expected.reverse();
    assert_eq!(drained.len(), pushed.len());
    assert_eq!(drained, expected);
    assert_eq!(iter.next(), None);
}

#[test]
fn into_iter_of_empty_list_ends_at_once() {
    let list: List<i32> = List::new();
    let mut iter = list.into_iter();
    assert_eq!(iter.next(), None);
    assert_eq!(iter.next(), None);
}

#[test]
fn iter_leaves_the_list_unchanged() {
    let mut list = List::new();
    list.push(1);
    list.push(2);
    list.push(3);
    {
        let mut it = list.iter();
        assert_eq!(it.next(), Some(&3));
        assert_eq!(it.next(), Some(&2));
        assert_eq!(it.next(), Some(&1));
        assert_eq!(it.next(), None);
        assert_eq!(it.next(), None);
    }
    {
        let mut a = list.iter();
        let mut b = list.iter();
        assert_eq!(a.next(), Some(&3));
        assert_eq!(b.next(), Some(&3));
        assert_eq!(a.next(), Some(&2));
    }
    assert_eq!(list.pop(), Some(3));
    assert_eq!(list.pop(), Some(2));
    assert_eq!(list.pop(), Some(1));
}

#[test]
fn iter_of_empty_list_yields_nothing() {
    let list: List<i32> = List::new();
    assert_eq!(list.iter().next(), None);
    let mut list = list;
    assert_eq!(list.get_mut_iterator().next(), None);
}

#[test]
fn iter_mut_increments_are_seen_by_a_drain() {
    let mut list = List::new();
    list.push(1);
    list.push(2);
    list.push(3);
    {
        let mut it = list.get_mut_iterator();
        while let Some(v) = it.next() {
            *v += 1;
        }
        assert_eq!(it.next(), None);
    }
    assert_eq!(list.pop(), Some(4));
    assert_eq!(list.pop(), Some(3));
    assert_eq!(list.pop(), Some(2));
    assert_eq!(list.pop(), None);
}

#[test]
fn iter_mut_writes_only_the_values_it_reached() {
    let mut list = List::new();
    list.push(1);
    list.push(2);
    list.push(3);
    {
        let mut it = list.get_mut_iterator();
        if let Some(v) = it.next() {
            *v = 30;
        }
    }
    let mut it = list.into_iter();
    assert_eq!(it.next(), Some(30));
    assert_eq!(it.next(), Some(2));
    assert_eq!(it.next(), Some(1));
}

#[test]
fn dropping_a_long_list_does_not_overflow_the_stack() {
    let mut list = List::new();
    for i in 0..100_000 {
        list.push(i);
    }
    assert_eq!(list.peek(), Some(&99_999));
    drop(list);
}

#[test]
fn dropping_a_partly_drained_long_list() {
    let mut list = List::new();
    for i in 0..100_000 {
        list.push(i);
    }
    let mut it = list.into_iter();
    assert_eq!(it.next(), Some(99_999));
    drop(it);
}

#[test]
fn unused_iter_mut_leaves_the_list_unchanged() {
    let mut list = List::new();
    list.push(1);
    list.push(2);
    {
        let _it = list.get_mut_iterator();
    }
    {
        let mut it = list.get_mut_iterator();
        assert_eq!(it.next(), Some(&mut 2));
    }
    assert_eq!(list.pop(), Some(2));
    assert_eq!(list.pop(), Some(1));
    assert_eq!(list.pop(), None);
}

#[test]
fn iter_mut_yields_each_value_once() {
    let mut list = List::new();
    for v in 0..5 {
        list.push(v);
    }
    let mut it = list.get_mut_iterator();
    let mut count = 0;
    while let Some(v) = it.next() {
        *v *= 10;
        count += 1;
    }
    assert_eq!(count, 5);
    assert_eq!(it.next(), None);
    let mut drained = Vec::new();
    while let Some(v) = list.pop() {
        drained.push(v);
    }
    assert_eq!(drained, vec![40, 30, 20, 10, 0]);
}
