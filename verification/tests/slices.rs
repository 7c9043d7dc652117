use std::io::IoSlice;

use bytes::Bytes;
use openssh::slices::{take_bytes, take_io_slices, take_slices, TakePlan};

#[test]
fn test_take_io_slices() {
    let limit = 200;

    let content = b"HELLO, WORLD!\n".repeat(limit / 8);
    let len = content.len();

    assert!(len / 2 < limit);

    let io_slices = [
        IoSlice::new(&content[..len / 2]),
        IoSlice::new(&content[len / 2..]),
    ];

    let (n, io_subslices, reminder) = take_io_slices(&io_slices, limit).unwrap();

    assert_eq!(n, limit);
    assert_eq!(io_subslices.len(), 1);
    assert_eq!(&*io_subslices[0], &*io_slices[0]);
    assert_eq!(&*reminder[0], &io_slices[1][..(limit - len / 2)]);
}

#[test]
fn io_slices_that_all_fit() {
    let a = b"abc";
    let b = b"de";
    let io_slices = [IoSlice::new(a), IoSlice::new(b)];
    let (n, whole, rem) = take_io_slices(&io_slices, 10).unwrap();
    assert_eq!(n, 5);
    assert_eq!(whole.len(), 2);
    assert_eq!(rem[0].len(), 0);
    assert!(take_io_slices(&[], 10).is_none());
    let empty: [IoSlice; 1] = [IoSlice::new(b"")];
    assert!(take_io_slices(&empty, 10).is_none());
}

#[test]
fn take_bytes_splits_a_buffer() {
    let bs = [
        Bytes::from_static(b"0123456789"),
        Bytes::from_static(b"abcdefghij"),
        Bytes::from_static(b"KLM"),
    ];
    let (n, whole, rem) = take_bytes(&bs, 15).unwrap();
    assert_eq!(n, 15);
    assert_eq!(whole.len(), 1);
    assert_eq!(&whole[0][..], b"0123456789");
    assert_eq!(&rem[0][..], b"abcde");

    let (n, whole, rem) = take_bytes(&bs, 100).unwrap();
    assert_eq!(n, 23);
    assert_eq!(whole.len(), 3);
    assert_eq!(rem[0].len(), 0);

    let (n, whole, rem) = take_bytes(&bs, 4).unwrap();
    assert_eq!(n, 4);
    assert_eq!(whole.len(), 0);
    assert_eq!(&rem[0][..], b"0123");

    assert!(take_bytes(&[], 4).is_none());
}

#[test]
fn slice_plans() {
    assert_eq!(take_slices(&[], 5), None);
    assert_eq!(take_slices(&[0, 0], 5), None);
    assert_eq!(take_slices(&[3, 4], 10), Some(TakePlan { n: 7, end: 2, rem_index: 0, rem_len: 0 }));
    assert_eq!(take_slices(&[3, 4, 5], 7), Some(TakePlan { n: 7, end: 2, rem_index: 2, rem_len: 0 }));
    assert_eq!(take_slices(&[3, 4, 5], 8), Some(TakePlan { n: 8, end: 2, rem_index: 2, rem_len: 1 }));
    assert_eq!(take_slices(&[3, 4, 5], 0), Some(TakePlan { n: 0, end: 0, rem_index: 0, rem_len: 0 }));
}
