use either_slot::{either, SendError};

#[test]
fn basic() {
    let (mut slot, a, b) = either::<i32, char>();
    a.send(&mut slot, 1).unwrap();
    assert_eq!(b.send(&mut slot, 'x'), Err(SendError::Received('x', 1)));

    let (mut slot, a, b) = either::<i32, ()>();
    b.decline(&mut slot);
    assert_eq!(a.send(&mut slot, 1), Err(SendError::Disconnected(1)));

    let _ = either::<i32, u8>();
}

#[test]
fn lib_send() {
    let (mut slot, a, b) = either::<i32, char>();
    let r2 = a.send(&mut slot, 1);
    let r1 = b.send(&mut slot, 'x');
    assert!(matches!(
        (r1, r2),
        (Ok(()), Err(SendError::Received(1, 'x'))) | (Err(SendError::Received('x', 1)), Ok(()))
    ));
}

#[test]
fn drop_either() {
    let (mut slot, a, b) = either::<i32, i32>();
    a.decline(&mut slot);
    assert!(matches!(
        b.send(&mut slot, 1),
        Err(SendError::Disconnected(1)) | Ok(())
    ));
}

#[test]
fn drop_both() {
    let (mut slot, a, b) = either::<i32, u8>();
    a.decline(&mut slot);
    b.decline(&mut slot);
}

#[test]
fn exchange_both_orders() {
    let (mut slot, a, b) = either::<i32, char>();
    assert_eq!(a.send(&mut slot, 1), Ok(()));
    assert_eq!(b.send(&mut slot, 'x'), Err(SendError::Received('x', 1)));

    let (mut slot, a, b) = either::<i32, char>();
    assert_eq!(b.send(&mut slot, 'x'), Ok(()));
    assert_eq!(a.send(&mut slot, 1), Err(SendError::Received(1, 'x')));
}

#[test]
fn decline_then_send_is_disconnected() {
    let (mut slot, a, b) = either::<i32, char>();
    a.decline(&mut slot);
    assert_eq!(b.send(&mut slot, 'x'), Err(SendError::Disconnected('x')));

    let (mut slot, a, b) = either::<i32, char>();
    b.decline(&mut slot);
    assert_eq!(a.send(&mut slot, 7), Err(SendError::Disconnected(7)));
}

#[test]
fn decline_after_peer_sent_discards() {
    let (mut slot, a, b) = either::<i32, char>();
    assert_eq!(a.send(&mut slot, 1), Ok(()));
    b.decline(&mut slot);

    let (mut slot, a, b) = either::<i32, char>();
    assert_eq!(b.send(&mut slot, 'x'), Ok(()));
    a.decline(&mut slot);
}
