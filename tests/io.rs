use gru::io::{SeekOrigin, SliceReadSeek};
use std::io::{Read, Seek, SeekFrom};

#[test]
fn reads_in_pieces_then_nothing() {
    let bytes = [1u8, 2, 3, 4, 5];
    let mut r = SliceReadSeek::new(&bytes);
    let mut buf = [0u8; 2];
    assert_eq!(r.read(&mut buf).unwrap(), 2);
    assert_eq!(buf, [1, 2]);
    assert_eq!(r.read(&mut buf).unwrap(), 2);
    assert_eq!(buf, [3, 4]);
    let mut big = [9u8; 4];
    assert_eq!(r.read(&mut big).unwrap(), 1);
    assert_eq!(big, [5, 9, 9, 9]);
    assert_eq!(r.read(&mut big).unwrap(), 0);
}

#[test]
fn seeks_from_each_origin() {
    let bytes = [10u8, 11, 12, 13];
    let mut r = SliceReadSeek::new(&bytes);
    assert_eq!(r.seek(SeekFrom::End(-1)).unwrap(), 3);
    let mut one = [0u8; 1];
    r.read(&mut one).unwrap();
    assert_eq!(one, [13]);
    assert_eq!(r.seek(SeekFrom::Current(-3)).unwrap(), 1);
    r.read(&mut one).unwrap();
    assert_eq!(one, [11]);
    assert_eq!(r.seek(SeekFrom::Start(0)).unwrap(), 0);
    r.read(&mut one).unwrap();
    assert_eq!(one, [10]);
}

#[test]
fn seek_before_start_fails_and_keeps_position() {
    let bytes = [1u8, 2, 3];
    let mut r = SliceReadSeek::new(&bytes);
    assert_eq!(r.seek(SeekFrom::Start(2)).unwrap(), 2);
    assert!(r.seek(SeekFrom::Current(-3)).is_err());
    assert!(r.seek(SeekFrom::End(-4)).is_err());
    assert!(r.seek(SeekFrom::Start(u64::MAX)).is_err());
    let mut one = [0u8; 1];
    assert_eq!(r.read(&mut one).unwrap(), 1);
    assert_eq!(one, [3]);
}

#[test]
fn seek_past_end_reads_nothing() {
    let bytes = [1u8, 2];
    let mut r = SliceReadSeek::new(&bytes);
    assert_eq!(r.seek_to(SeekOrigin::End(5)), Some(7));
    let mut buf = [0u8; 3];
    assert_eq!(r.read_into(&mut buf), 0);
    assert_eq!(buf, [0, 0, 0]);
    assert_eq!(r.seek_to(SeekOrigin::Current(i64::MAX)), None);
}
