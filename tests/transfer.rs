use smallpt::api::{Rectangle, Task};
use smallpt::registry::Registry;
use smallpt::transfer::{
    accept_pixels, buffer_len_of, deliver, encode_result, Delivery, PendingTile, TransferError,
};

fn pixels_for(tile: Rectangle, seed: u8) -> Vec<u8> {
    (0..tile.width * tile.height * 4).map(|i| (i as u8).wrapping_mul(seed)).collect()
}

#[test]
fn task_new_keeps_fields() {
    let t = Task::new(Rectangle::new(32, 64, 32, 32), "http://localhost:4001/response/3".to_string());
    assert_eq!(t.tile, Rectangle::new(32, 64, 32, 32));
    assert_eq!(t.callback, "http://localhost:4001/response/3");
}

#[test]
fn buffer_length_is_four_bytes_per_pixel() {
    assert_eq!(buffer_len_of(Rectangle::new(0, 0, 32, 32)), Some(4096));
    assert_eq!(buffer_len_of(Rectangle::new(0, 0, 6, 8)), Some(192));
    assert_eq!(buffer_len_of(Rectangle::new(0, 0, usize::MAX, 2)), None);
    assert_eq!(buffer_len_of(Rectangle::new(0, 0, usize::MAX / 2, 1)), None);
}

#[test]
fn encoded_result_is_a_gzip_stream() {
    let tile = Rectangle::new(0, 0, 4, 2);
    let px = pixels_for(tile, 3);
    let body = encode_result(tile, &px).unwrap();
    assert_eq!(&body[..2], &[0x1f, 0x8b]);
    assert_ne!(body, px);
}

#[test]
fn encoding_a_buffer_of_the_wrong_size_fails() {
    let tile = Rectangle::new(0, 0, 4, 2);
    let px = vec![0u8; 31];
    assert_eq!(encode_result(tile, &px), Err(TransferError::WrongSize));
}

#[test]
fn ten_tasks_answered_in_any_order_are_each_delivered_once() {
    let mut pending = Registry::new();
    let mut ids = Vec::new();
    for i in 0..10usize {
        let tile = Rectangle::new(i * 8, 0, 8, 4);
        ids.push(pending.insert(PendingTile { tile, sink: i }));
    }
    let order = [7usize, 2, 9, 0, 5, 3, 8, 1, 6, 4];
    let mut seen = vec![0u32; 10];
    for &k in order.iter() {
        let tile = Rectangle::new(k * 8, 0, 8, 4);
        let px = pixels_for(tile, k as u8 + 1);
        let body = encode_result(tile, &px).unwrap();
        match deliver(&mut pending, ids[k], &body) {
            Delivery::Delivered { tile: t, sink, pixels } => {
                assert_eq!(t, tile);
                assert_eq!(sink, k);
                assert_eq!(pixels, px);
                seen[sink] += 1;
            }
            _ => panic!("task {} was not delivered", k),
        }
        assert!(matches!(deliver(&mut pending, ids[k], &body), Delivery::Unknown));
    }
    assert_eq!(seen, vec![1u32; 10]);
    assert_eq!(pending.len(), 0);
}

#[test]
fn response_to_unknown_task_is_ignored() {
    let mut pending: Registry<PendingTile<u8>> = Registry::new();
    let tile = Rectangle::new(0, 0, 2, 2);
    let body = encode_result(tile, &pixels_for(tile, 1)).unwrap();
    assert!(matches!(deliver(&mut pending, 4, &body), Delivery::Unknown));
}

#[test]
fn corrupt_body_is_reported_and_task_stays_pending() {
    let mut pending = Registry::new();
    let tile = Rectangle::new(0, 0, 2, 2);
    let id = pending.insert(PendingTile { tile, sink: () });
    let junk = vec![1u8, 2, 3, 4, 5];
    assert!(matches!(deliver(&mut pending, id, &junk), Delivery::Corrupt));
    assert_eq!(pending.len(), 1);
    let body = encode_result(tile, &pixels_for(tile, 1)).unwrap();
    assert!(matches!(deliver(&mut pending, id, &body), Delivery::Delivered { .. }));
}

#[test]
fn pixels_of_the_wrong_size_are_refused() {
    let mut pending = Registry::new();
    let id = pending.insert(PendingTile { tile: Rectangle::new(0, 0, 2, 2), sink: () });
    let other = Rectangle::new(0, 0, 3, 2);
    let body = encode_result(other, &pixels_for(other, 1)).unwrap();
    assert!(matches!(deliver(&mut pending, id, &body), Delivery::WrongSize));
    assert!(matches!(accept_pixels(&mut pending, id, Some(vec![0u8; 15])), Delivery::WrongSize));
    assert!(matches!(accept_pixels(&mut pending, id, None), Delivery::Corrupt));
    assert!(matches!(accept_pixels(&mut pending, id, Some(vec![9u8; 16])), Delivery::Delivered { .. }));
    assert_eq!(pending.len(), 0);
}
