use gfx_memory::Pod;
use std::mem::size_of;

fn bytes_of<T: Pod>(value: T) -> Vec<u8> {
    let mut out = Vec::new();
    value.write_bytes(&mut out);
    out
}

#[test]
fn pod_sizes_are_the_sizes_in_memory() {
    assert_eq!(<u8 as Pod>::size(), Some(size_of::<u8>()));
    assert_eq!(<i8 as Pod>::size(), Some(size_of::<i8>()));
    assert_eq!(<u16 as Pod>::size(), Some(size_of::<u16>()));
    assert_eq!(<i16 as Pod>::size(), Some(size_of::<i16>()));
    assert_eq!(<u32 as Pod>::size(), Some(size_of::<u32>()));
    assert_eq!(<i32 as Pod>::size(), Some(size_of::<i32>()));
    assert_eq!(<u64 as Pod>::size(), Some(size_of::<u64>()));
    assert_eq!(<i64 as Pod>::size(), Some(size_of::<i64>()));
    assert_eq!(<usize as Pod>::size(), Some(size_of::<usize>()));
    assert_eq!(<isize as Pod>::size(), Some(size_of::<isize>()));
}

#[test]
fn pod_integer_sizes_are_exact() {
    assert_eq!(<u8 as Pod>::size(), Some(1));
    assert_eq!(<i8 as Pod>::size(), Some(1));
    assert_eq!(<u16 as Pod>::size(), Some(2));
    assert_eq!(<i16 as Pod>::size(), Some(2));
    assert_eq!(<u32 as Pod>::size(), Some(4));
    assert_eq!(<i32 as Pod>::size(), Some(4));
    assert_eq!(<u64 as Pod>::size(), Some(8));
    assert_eq!(<i64 as Pod>::size(), Some(8));
}

#[test]
fn pod_array_sizes_are_the_sizes_in_memory() {
    assert_eq!(<[u8; 0] as Pod>::size(), Some(0));
    assert_eq!(<[u64; 0] as Pod>::size(), Some(0));
    assert_eq!(<[u8; 1] as Pod>::size(), Some(1));
    assert_eq!(<[i32; 4] as Pod>::size(), Some(16));
    assert_eq!(<[u16; 32] as Pod>::size(), Some(64));
    assert_eq!(<[[u32; 4]; 4] as Pod>::size(), Some(64));
    assert_eq!(<[[u32; 4]; 4] as Pod>::size(), Some(size_of::<[[u32; 4]; 4]>()));
    assert_eq!(<[[u8; 0]; 7] as Pod>::size(), Some(size_of::<[[u8; 0]; 7]>()));
    assert_eq!(<[usize; 3] as Pod>::size(), Some(size_of::<[usize; 3]>()));
}

#[test]
fn pod_unsigned_bytes_start_with_the_lowest() {
    assert_eq!(bytes_of(0xabu8), vec![0xab]);
    assert_eq!(bytes_of(0x0201u16), vec![0x01, 0x02]);
    assert_eq!(bytes_of(0x0403_0201u32), vec![0x01, 0x02, 0x03, 0x04]);
    assert_eq!(
        bytes_of(0x0807_0605_0403_0201u64),
        vec![0x01, 0x02, 0x03, 0x04, 0x05, 0x06, 0x07, 0x08]
    );
    assert_eq!(bytes_of(u64::MAX), vec![0xff; 8]);
    assert_eq!(bytes_of(0u32), vec![0; 4]);
    assert_eq!(bytes_of(1usize), 1usize.to_le_bytes().to_vec());
    assert_eq!(bytes_of(usize::MAX), vec![0xff; size_of::<usize>()]);
}

#[test]
fn pod_signed_bytes_are_twos_complement() {
    assert_eq!(bytes_of(-1i8), vec![0xff]);
    assert_eq!(bytes_of(i8::MIN), vec![0x80]);
    assert_eq!(bytes_of(i8::MAX), vec![0x7f]);
    assert_eq!(bytes_of(-2i16), vec![0xfe, 0xff]);
    assert_eq!(bytes_of(i16::MIN), vec![0x00, 0x80]);
    assert_eq!(bytes_of(-1i32), vec![0xff; 4]);
    assert_eq!(bytes_of(i32::MIN), vec![0x00, 0x00, 0x00, 0x80]);
    assert_eq!(bytes_of(0x0102_0304i32), vec![0x04, 0x03, 0x02, 0x01]);
    assert_eq!(bytes_of(-1i64), vec![0xff; 8]);
    assert_eq!(bytes_of(i64::MIN), vec![0, 0, 0, 0, 0, 0, 0, 0x80]);
    assert_eq!(bytes_of(i64::MAX), vec![0xff, 0xff, 0xff, 0xff, 0xff, 0xff, 0xff, 0x7f]);
    assert_eq!(bytes_of(-1isize), vec![0xff; size_of::<isize>()]);
    assert_eq!(bytes_of(isize::MIN), isize::MIN.to_le_bytes().to_vec());
    assert_eq!(bytes_of(-77isize), (-77isize).to_le_bytes().to_vec());
}

#[test]
fn pod_bytes_are_those_in_memory() {
    assert_eq!(bytes_of(0x1234u16), 0x1234u16.to_ne_bytes().to_vec());
    assert_eq!(bytes_of(-12345i16), (-12345i16).to_ne_bytes().to_vec());
    assert_eq!(bytes_of(0xdead_beefu32), 0xdead_beefu32.to_ne_bytes().to_vec());
    assert_eq!(bytes_of(-123_456_789i32), (-123_456_789i32).to_ne_bytes().to_vec());
    assert_eq!(bytes_of(0x0123_4567_89ab_cdefu64), 0x0123_4567_89ab_cdefu64.to_ne_bytes().to_vec());
    assert_eq!(bytes_of(i64::MIN + 5), (i64::MIN + 5).to_ne_bytes().to_vec());
    assert_eq!(bytes_of(123_456usize), 123_456usize.to_ne_bytes().to_vec());
    assert_eq!(bytes_of(-123_456isize), (-123_456isize).to_ne_bytes().to_vec());
}

#[test]
fn pod_write_appends_to_what_is_there() {
    let mut out = vec![9u8, 8];
    0x0201u16.write_bytes(&mut out);
    (-1i8).write_bytes(&mut out);
    assert_eq!(out, vec![9, 8, 0x01, 0x02, 0xff]);
}

#[test]
fn pod_read_finds_the_value_again() {
    let bytes: Vec<u8> = vec![0xff, 0x01, 0x02, 0x03, 0x04, 0x05, 0x06, 0x07, 0x08, 0x80];
    assert_eq!(<u8 as Pod>::read_bytes(&bytes, 0), 0xff);
    assert_eq!(<i8 as Pod>::read_bytes(&bytes, 0), -1);
    assert_eq!(<i8 as Pod>::read_bytes(&bytes, 9), i8::MIN);
    assert_eq!(<u16 as Pod>::read_bytes(&bytes, 1), 0x0201);
    assert_eq!(<i16 as Pod>::read_bytes(&bytes, 8), i16::from_le_bytes([0x08, 0x80]));
    assert_eq!(<u32 as Pod>::read_bytes(&bytes, 1), 0x0403_0201);
    assert_eq!(<i32 as Pod>::read_bytes(&bytes, 0), 0x0302_01ff);
    assert_eq!(<i32 as Pod>::read_bytes(&bytes, 6), i32::from_le_bytes([0x06, 0x07, 0x08, 0x80]));
    assert_eq!(<u64 as Pod>::read_bytes(&bytes, 1), 0x0807_0605_0403_0201);
    assert_eq!(
        <i64 as Pod>::read_bytes(&bytes, 2),
        i64::from_le_bytes([0x02, 0x03, 0x04, 0x05, 0x06, 0x07, 0x08, 0x80])
    );
}

#[test]
fn pod_read_inverts_write() {
    for v in [0i64, 1, -1, 255, -256, i64::MIN, i64::MAX, 0x0123_4567_89ab_cdef] {
        assert_eq!(<i64 as Pod>::read_bytes(&bytes_of(v), 0), v);
        assert_eq!(<u64 as Pod>::read_bytes(&bytes_of(v as u64), 0), v as u64);
        assert_eq!(<i32 as Pod>::read_bytes(&bytes_of(v as i32), 0), v as i32);
        assert_eq!(<u32 as Pod>::read_bytes(&bytes_of(v as u32), 0), v as u32);
        assert_eq!(<i16 as Pod>::read_bytes(&bytes_of(v as i16), 0), v as i16);
        assert_eq!(<u16 as Pod>::read_bytes(&bytes_of(v as u16), 0), v as u16);
        assert_eq!(<i8 as Pod>::read_bytes(&bytes_of(v as i8), 0), v as i8);
        assert_eq!(<u8 as Pod>::read_bytes(&bytes_of(v as u8), 0), v as u8);
        assert_eq!(<isize as Pod>::read_bytes(&bytes_of(v as isize), 0), v as isize);
        assert_eq!(<usize as Pod>::read_bytes(&bytes_of(v as usize), 0), v as usize);
    }
}

#[test]
fn pod_every_byte_is_a_value() {
    for b in 0u8..=255 {
        assert_eq!(bytes_of(<u8 as Pod>::read_bytes(&[b], 0)), vec![b]);
        assert_eq!(bytes_of(<i8 as Pod>::read_bytes(&[b], 0)), vec![b]);
        assert_eq!(bytes_of(<i16 as Pod>::read_bytes(&[0x5a, b], 0)), vec![0x5a, b]);
        assert_eq!(
            bytes_of(<i32 as Pod>::read_bytes(&[b, 0xa5, 0x5a, b], 0)),
            vec![b, 0xa5, 0x5a, b]
        );
    }
}

#[test]
fn pod_zeroed_is_all_zero() {
    assert_eq!(<u8 as Pod>::zeroed(), 0);
    assert_eq!(<i64 as Pod>::zeroed(), 0);
    assert_eq!(<isize as Pod>::zeroed(), 0);
    assert_eq!(<[u16; 3] as Pod>::zeroed(), [0u16; 3]);
    assert_eq!(bytes_of(<[[i32; 2]; 2] as Pod>::zeroed()), vec![0u8; 16]);
    assert_eq!(bytes_of(<[u8; 0] as Pod>::zeroed()), Vec::<u8>::new());
}

#[test]
fn pod_array_bytes_are_those_of_its_elements() {
    assert_eq!(bytes_of([0x0201u16, 0x0403, 0x0605]), vec![1, 2, 3, 4, 5, 6]);
    assert_eq!(bytes_of([-1i32, 1]), vec![0xff, 0xff, 0xff, 0xff, 1, 0, 0, 0]);
    assert_eq!(bytes_of([[1u8, 2], [3, 4], [5, 6]]), vec![1, 2, 3, 4, 5, 6]);
    assert_eq!(bytes_of::<[u32; 0]>([]), Vec::<u8>::new());
}

#[test]
fn pod_array_read_finds_the_elements_again() {
    let bytes: Vec<u8> = vec![0xaa, 1, 2, 3, 4, 5, 6, 0xff, 0xff];
    assert_eq!(<[u16; 3] as Pod>::read_bytes(&bytes, 1), [0x0201, 0x0403, 0x0605]);
    assert_eq!(<[[u8; 2]; 3] as Pod>::read_bytes(&bytes, 1), [[1, 2], [3, 4], [5, 6]]);
    assert_eq!(<[i16; 1] as Pod>::read_bytes(&bytes, 7), [-1]);
    assert_eq!(<[u64; 0] as Pod>::read_bytes(&bytes, 9), []);
    let arrays = [[7i32, -7, 0, i32::MIN], [1, 2, 3, 4]];
    assert_eq!(<[[i32; 4]; 2] as Pod>::read_bytes(&bytes_of(arrays), 0), arrays);
}
