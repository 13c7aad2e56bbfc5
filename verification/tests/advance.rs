use advance_iter::Advance;

#[test]
fn three_items_then_absent() {
    let mut adv = Advance::new(vec![10, 20, 30].into_iter());
    assert_eq!(adv.current(), Some(&10));
    adv.advance();
    assert_eq!(adv.current(), Some(&20));
    adv.advance();
    assert_eq!(adv.current(), Some(&30));
    adv.advance();
    assert_eq!(adv.current(), None);
    adv.advance();
    assert_eq!(adv.current(), None);
}

#[test]
fn empty_is_absent_from_the_start() {
    let mut adv = Advance::new(Vec::<i32>::new().into_iter());
    assert_eq!(adv.current(), None);
    assert_eq!(adv.current_mut(), None);
    adv.advance();
    assert_eq!(adv.current(), None);
    assert_eq!(adv.current_mut(), None);
}

#[test]
fn write_through_current_mut_stays_in_the_cache() {
    let mut adv = Advance::new(vec![5].into_iter());
    assert_eq!(adv.current(), Some(&5));
    *adv.current_mut().unwrap() = 99;
    assert_eq!(adv.current(), Some(&99));
    adv.advance();
    assert_eq!(adv.current(), None);
}

#[test]
fn write_does_not_change_what_comes_next() {
    let mut plain = Advance::new(vec![1, 2, 3].into_iter());
    let mut written = Advance::new(vec![1, 2, 3].into_iter());
    *written.current_mut().unwrap() = 100;
    assert_eq!(written.current(), Some(&100));
    plain.advance();
    written.advance();
    assert_eq!(written.current(), Some(&2));
    assert_eq!(written.current(), plain.current());
    if let Some(slot) = written.current_mut() {
        *slot += 40;
    }
    assert_eq!(written.current(), Some(&42));
    plain.advance();
    written.advance();
    assert_eq!(written.current(), Some(&3));
    assert_eq!(written.current(), plain.current());
}

#[test]
fn current_and_current_mut_see_the_same_item() {
    let mut adv = Advance::new(vec![7, 8].into_iter());
    let seen = adv.current().copied();
    let seen_mut = adv.current_mut().map(|slot| *slot);
    assert_eq!(seen, Some(7));
    assert_eq!(seen_mut, Some(7));
    adv.advance();
    adv.advance();
    assert_eq!(adv.current().copied(), None);
    assert_eq!(adv.current_mut().map(|slot| *slot), None);
}

#[test]
fn reading_twice_gives_the_same() {
    let mut adv = Advance::new(vec![String::from("a"), String::from("b")].into_iter());
    for _ in 0..5 {
        assert_eq!(adv.current().map(|s| s.as_str()), Some("a"));
    }
    adv.advance();
    for _ in 0..5 {
        assert_eq!(adv.current().map(|s| s.as_str()), Some("b"));
    }
    adv.advance();
    for _ in 0..5 {
        assert_eq!(adv.current(), None);
    }
}

#[test]
fn every_length_walks_in_order_and_ends_absent() {
    for len in 0usize..6 {
        let items: Vec<usize> = (0..len).map(|i| 100 + i).collect();
        let mut adv = Advance::new(items.clone().into_iter());
        assert_eq!(adv.current(), items.first());
        for k in 0..len {
            assert_eq!(adv.current(), Some(&items[k]));
            adv.advance();
        }
        for _ in 0..4 {
            assert_eq!(adv.current(), None);
            adv.advance();
        }
        assert_eq!(adv.current(), None);
    }
}

#[test]
fn borrowed_items_pass_through() {
    let items = [1u8, 2, 3];
    let mut adv = Advance::new(items.iter());
    assert_eq!(adv.current(), Some(&&1));
    adv.advance();
    adv.advance();
    assert_eq!(adv.current(), Some(&&3));
    adv.advance();
    assert_eq!(adv.current(), None);
}

#[test]
fn unbounded_producer_never_runs_dry() {
    let mut adv = Advance::new(0u64..);
    assert_eq!(adv.current(), Some(&0));
    for _ in 0..1000 {
        adv.advance();
    }
    assert_eq!(adv.current(), Some(&1000));
}
