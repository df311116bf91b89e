use either_slot::array::{from_place, Element};

#[test]
fn send() {
    let (mut slot, mut init) = from_place(Vec::from(Element::<usize>::array::<3>()));
    let mut results = Vec::new();
    let mut i = 0usize;
    while let Some(s) = init.next() {
        results.push(s.send(&mut slot, i));
        i += 1;
    }
    let iter = results.into_iter().fold(Ok(()), Result::and).unwrap_err();
    assert_eq!(iter.into_vec(), vec![0, 1, 2]);
}

#[test]
fn drop_one() {
    let (mut slot, mut init) = from_place(Element::vec(3));
    let s0 = init.next().unwrap();
    let s1 = init.next().unwrap();
    let s2 = init.next().unwrap();
    let r0 = s0.send(&mut slot, 0usize);
    s1.decline(&mut slot);
    let res = r0.and(s2.send(&mut slot, 2));
    if let Err(iter) = res {
        assert_eq!(iter.into_vec(), vec![0, 2]);
    }
}

#[test]
fn all_send_exactly_one_finalizes() {
    let (mut slot, mut init) = either_slot::array::vec::<i32>(3);
    let s0 = init.next().unwrap();
    let s1 = init.next().unwrap();
    let s2 = init.next().unwrap();
    assert!(s0.send(&mut slot, 0).is_ok());
    assert!(s1.send(&mut slot, 1).is_ok());
    let iter = s2.send(&mut slot, 2).unwrap_err();
    assert_eq!(iter.into_vec(), vec![0, 1, 2]);
}

#[test]
fn finalizer_is_the_last_whatever_the_order() {
    let (mut slot, mut init) = either_slot::array::vec::<i32>(3);
    let s0 = init.next().unwrap();
    let s1 = init.next().unwrap();
    let s2 = init.next().unwrap();
    assert!(s2.send(&mut slot, 22).is_ok());
    assert!(s0.send(&mut slot, 20).is_ok());
    let iter = s1.send(&mut slot, 21).unwrap_err();
    assert_eq!(iter.into_vec(), vec![20, 21, 22]);
}

#[test]
fn array_ctor_sends_in_cell_order() {
    let (mut slot, senders) = either_slot::array::array::<u8, 3>();
    let [s0, s1, s2] = senders;
    assert!(s1.send(&mut slot, 11).is_ok());
    assert!(s0.send(&mut slot, 10).is_ok());
    let iter = s2.send(&mut slot, 12).unwrap_err();
    assert_eq!(iter.into_vec(), vec![10, 11, 12]);
}

#[test]
fn next_skips_declined_cells() {
    let (mut slot, mut init) = either_slot::array::vec::<i32>(4);
    let s0 = init.next().unwrap();
    let s1 = init.next().unwrap();
    let s2 = init.next().unwrap();
    let s3 = init.next().unwrap();
    s0.decline(&mut slot);
    assert!(s1.send(&mut slot, 1).is_ok());
    s3.decline(&mut slot);
    let mut iter = s2.send(&mut slot, 2).unwrap_err();
    assert_eq!(iter.size_hint(), (4, Some(4)));
    assert_eq!(iter.next(), Some(1));
    assert_eq!(iter.size_hint(), (4, Some(4)));
    assert_eq!(iter.next(), Some(2));
    assert_eq!(iter.next(), None);
    assert_eq!(iter.next(), None);
}

#[test]
fn single_handle_finalizes_at_once() {
    let (mut slot, mut init) = either_slot::array::vec::<i32>(1);
    let s0 = init.next().unwrap();
    let iter = s0.send(&mut slot, 9).unwrap_err();
    assert_eq!(iter.into_vec(), vec![9]);
}

#[test]
fn empty_slot_hands_out_no_handles() {
    let (_slot, mut init) = either_slot::array::vec::<i32>(0);
    assert_eq!(init.size_hint(), (0, Some(0)));
    assert!(init.next().is_none());
}

#[test]
fn all_decline_discards_everything() {
    let (mut slot, mut init) = either_slot::array::vec::<i32>(3);
    let s0 = init.next().unwrap();
    let s1 = init.next().unwrap();
    let s2 = init.next().unwrap();
    assert!(s0.send(&mut slot, 5).is_ok());
    s1.decline(&mut slot);
    s2.decline(&mut slot);
}

#[test]
fn dispose_declines_the_rest() {
    let (mut slot, mut init) = either_slot::array::vec::<i32>(3);
    let s0 = init.next().unwrap();
    assert!(s0.send(&mut slot, 1).is_ok());
    init.dispose(&mut slot);

    let (mut slot, init) = either_slot::array::vec::<i32>(2);
    init.dispose(&mut slot);
}

#[test]
fn init_iter_counts_in_cell_order() {
    let (mut slot, mut init) = either_slot::array::vec::<i32>(2);
    assert_eq!(init.size_hint(), (2, Some(2)));
    let s0 = init.next().unwrap();
    let s1 = init.next().unwrap();
    assert!(init.next().is_none());
    assert!(s1.send(&mut slot, 31).is_ok());
    let iter = s0.send(&mut slot, 30).unwrap_err();
    assert_eq!(iter.into_vec(), vec![30, 31]);
}

#[test]
fn fresh_elements_are_empty() {
    let row: Vec<Element<i32>> = Element::vec(2);
    assert_eq!(row.len(), 2);
    let arr: [Element<i32>; 2] = Element::array();
    let (mut slot, mut init) = from_place(Vec::from(arr));
    let s0 = init.next().unwrap();
    let s1 = init.next().unwrap();
    s0.decline(&mut slot);
    let iter = s1.send(&mut slot, 1).unwrap_err();
    assert_eq!(iter.into_vec(), vec![1]);
}
