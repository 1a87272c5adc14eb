use memdb::mem_file::MemFile;
use memdb::text;

#[test]
fn owned_buffer_basics() {
    let f = MemFile::owned(vec![1, 2, 3]);
    assert_eq!(3, f.len());
    assert_eq!(3, f.cap());
    assert!(f.writable());
    assert_eq!(&[1, 2, 3], f.as_slice());
    assert_eq!(2, f.byte_at(1));
    assert_eq!(vec![1, 2, 3], f.to_vec());
}

#[test]
fn read_only_buffer_basics() {
    let f = MemFile::read_only(vec![4, 5]);
    assert_eq!(2, f.len());
    assert_eq!(2, f.cap());
    assert!(!f.writable());
}

#[test]
fn resizable_buffer_keeps_capacity() {
    let f = MemFile::resizable(vec![1], 16);
    assert_eq!(1, f.len());
    assert_eq!(16, f.cap());
    assert!(f.writable());
}

#[test]
fn set_len_zero_fills_growth() {
    let mut f = MemFile::resizable(vec![7, 7], 8);
    f.set_len(5);
    assert_eq!(&[7, 7, 0, 0, 0], f.as_slice());
    f.set_len(1);
    assert_eq!(&[7], f.as_slice());
    assert_eq!(8, f.cap());
}

#[test]
fn reserve_additional_modes() {
    let mut f = MemFile::owned(vec![1, 2]);
    assert!(f.reserve_additional(6));
    assert_eq!(8, f.cap());
    assert!(f.reserve_additional(1));
    assert_eq!(8, f.cap());

    let mut r = MemFile::read_only(vec![1, 2]);
    assert!(!r.reserve_additional(6));
    assert_eq!(2, r.cap());
}

#[test]
fn write_at_in_place() {
    let mut f = MemFile::owned(vec![1, 2, 3, 4]);
    f.write_at(1, &[9, 9]);
    assert_eq!(&[1, 9, 9, 4], f.as_slice());
}

#[test]
fn decimal_rendering() {
    let mut s = String::new();
    text::push_dec_u64(&mut s, 0);
    s.push(' ');
    text::push_dec_u64(&mut s, 1234567890);
    s.push(' ');
    text::push_dec_u64(&mut s, u64::MAX);
    assert_eq!("0 1234567890 18446744073709551615", s);

    let mut s = String::new();
    text::push_dec_i64(&mut s, i64::MIN);
    s.push(' ');
    text::push_dec_i64(&mut s, -1);
    s.push(' ');
    text::push_dec_i64(&mut s, 10);
    assert_eq!("-9223372036854775808 -1 10", s);
}

#[test]
fn hexadecimal_rendering() {
    let mut s = String::new();
    text::push_hex_u64(&mut s, 0);
    s.push(' ');
    text::push_hex_u64(&mut s, 0xdeadbeef);
    s.push(' ');
    text::push_hex_u64(&mut s, u64::MAX);
    assert_eq!("0 deadbeef ffffffffffffffff", s);
}
