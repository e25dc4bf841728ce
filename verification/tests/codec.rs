use ig_library::base::ig_core_platform::{Endian, IG_CORE_PLATFORM};
use ig_library::load::packed_ints::{pack_offsets, unpack_offsets, PackedIntError};
use ig_library::util::byteorder_fixes::{
    read_ptr, read_string, read_struct_array_u8, read_u16, read_u32, read_u64, read_u8,
    ByteCursor, ReadError,
};
use ig_library::util::ig_hash::{hash, hash_bytes, hash_lower};
use ig_library::util::ig_name::igName;
use ig_library::util::sorted::{contains_sorted, insert_sorted, sort_ascending};

#[test]
fn packed_integer_roundtrip_version_9() {
    let input: Vec<u32> = vec![0, 16, 40, 40, 96];
    let packed = pack_offsets(&input, 9).expect("packable");
    let unpacked = unpack_offsets(&packed, 5, 9).expect("well formed");
    assert_eq!(unpacked, input);
    for value in unpacked {
        assert_eq!(value % 4, 0);
    }
}

#[test]
fn packed_bytes_are_nibbles_low_half_first() {
    // steps 0, 16, 24, 0, 56 in units of four: 0, 4, 6, 0, 14 = [6 | 8, 1]
    let packed = pack_offsets(&[0, 16, 40, 40, 96], 9).expect("packable");
    assert_eq!(packed, vec![0x40, 0x06, 0x1E]);
}

#[test]
fn packed_integer_roundtrip_with_bias() {
    let input: Vec<u32> = vec![4, 8, 1024, 1028, 0x0800_0010];
    let packed = pack_offsets(&input, 8).expect("packable");
    assert_eq!(unpack_offsets(&packed, 5, 8), Ok(input));
}

#[test]
fn unpack_adds_four_before_version_9() {
    // one nibble 3: step 12, plus 4 before version 9
    assert_eq!(unpack_offsets(&[0x03], 1, 8), Ok(vec![16]));
    assert_eq!(unpack_offsets(&[0x03], 1, 9), Ok(vec![12]));
    assert_eq!(unpack_offsets(&[0x03], 2, 9), Ok(vec![12, 12]));
}

#[test]
fn unpack_reads_continued_groups() {
    // nibbles 0xF then 0x1: (7) + 8 * 1 = 15, times four
    assert_eq!(unpack_offsets(&[0x1F], 1, 9), Ok(vec![60]));
}

#[test]
fn unpack_reports_truncated_stream() {
    assert_eq!(unpack_offsets(&[], 1, 9), Err(PackedIntError::Truncated));
    assert_eq!(unpack_offsets(&[0x88], 1, 9), Err(PackedIntError::Truncated));
    assert_eq!(unpack_offsets(&[0x03], 3, 9), Err(PackedIntError::Truncated));
}

#[test]
fn unpack_reports_overflow() {
    // eleven nibbles with all bits set store a number beyond 2^30
    let bytes = [0xFF, 0xFF, 0xFF, 0xFF, 0xFF, 0x07];
    assert_eq!(unpack_offsets(&bytes, 1, 9), Err(PackedIntError::Overflow));
}

#[test]
fn unpack_of_nothing_is_empty() {
    assert_eq!(unpack_offsets(&[], 0, 9), Ok(vec![]));
}

#[test]
fn pack_refuses_what_the_format_cannot_store() {
    assert_eq!(pack_offsets(&[2], 9), None);
    assert_eq!(pack_offsets(&[8, 4], 9), None);
    assert_eq!(pack_offsets(&[0], 8), None);
    assert_eq!(pack_offsets(&[4, 4], 8), None);
    assert_eq!(pack_offsets(&[], 8), Some(vec![]));
}

#[test]
fn reads_follow_the_byte_order() {
    let mut c = ByteCursor::new(vec![0x01, 0x02, 0x03, 0x04, 0x05, 0x06, 0x07, 0x08]);
    assert_eq!(read_u32(&mut c, Endian::Little), Ok(0x0403_0201));
    assert_eq!(c.position(), 4);
    c.set_position(0);
    assert_eq!(read_u32(&mut c, Endian::Big), Ok(0x0102_0304));
    c.set_position(0);
    assert_eq!(read_u16(&mut c, Endian::Big), Ok(0x0102));
    c.set_position(0);
    assert_eq!(read_u16(&mut c, Endian::Little), Ok(0x0201));
    c.set_position(0);
    assert_eq!(read_u64(&mut c, Endian::Little), Ok(0x0807_0605_0403_0201));
    c.set_position(0);
    assert_eq!(read_u64(&mut c, Endian::Big), Ok(0x0102_0304_0506_0708));
    c.set_position(7);
    assert_eq!(read_u8(&mut c), Ok(8));
    assert_eq!(read_u8(&mut c), Err(ReadError::UnexpectedEof));
}

#[test]
fn unknown_byte_order_reads_little_endian() {
    let mut c = ByteCursor::new(vec![0x01, 0x02, 0x03, 0x04]);
    assert_eq!(read_u32(&mut c, Endian::Unknown), Ok(0x0403_0201));
}

#[test]
fn short_reads_fail_and_leave_the_cursor() {
    let mut c = ByteCursor::new(vec![1, 2, 3]);
    assert_eq!(read_u32(&mut c, Endian::Little), Err(ReadError::UnexpectedEof));
    assert_eq!(c.position(), 0);
    c.set_position(10);
    assert_eq!(read_u8(&mut c), Err(ReadError::UnexpectedEof));
    assert_eq!(c.remaining(), 0);
}

#[test]
fn pointers_are_as_wide_as_the_platform() {
    let bytes = vec![0x10, 0, 0, 0, 0x20, 0, 0, 0];
    let mut c = ByteCursor::new(bytes.clone());
    assert_eq!(
        read_ptr(&mut c, IG_CORE_PLATFORM::IG_CORE_PLATFORM_CAFE, Endian::Little),
        Ok(0x10)
    );
    assert_eq!(c.position(), 4);
    let mut c = ByteCursor::new(bytes);
    assert_eq!(
        read_ptr(&mut c, IG_CORE_PLATFORM::IG_CORE_PLATFORM_PS4, Endian::Little),
        Ok(0x20_0000_0010)
    );
    assert_eq!(c.position(), 8);
}

#[test]
fn strings_end_at_the_zero_byte() {
    let mut c = ByteCursor::new(b"abc\0de\0f".to_vec());
    assert_eq!(read_string(&mut c), Ok("abc".to_string()));
    assert_eq!(c.position(), 4);
    assert_eq!(read_string(&mut c), Ok("de".to_string()));
    assert_eq!(c.position(), 7);
    assert_eq!(read_string(&mut c), Err(ReadError::MissingTerminator));
    assert_eq!(c.position(), 7);
}

#[test]
fn byte_arrays_are_copied_out() {
    let mut c = ByteCursor::new(vec![1, 2, 3, 4, 5]);
    c.set_position(1);
    assert_eq!(read_struct_array_u8(&mut c, Endian::Little, 3), Ok(vec![2, 3, 4]));
    assert_eq!(c.position(), 4);
    assert_eq!(read_struct_array_u8(&mut c, Endian::Little, 2), Err(ReadError::UnexpectedEof));
    assert_eq!(read_struct_array_u8(&mut c, Endian::Little, 0), Ok(vec![]));
}

#[test]
fn hash_is_fnv1a() {
    assert_eq!(hash(""), 0x811c_9dc5);
    assert_eq!(hash("a"), 0xe40c_292c);
    assert_eq!(hash("foobar"), 0xbf9c_f968);
    assert_eq!(hash_bytes(b"foobar"), 0xbf9c_f968);
}

#[test]
fn hash_lower_ignores_case() {
    assert_eq!(hash_lower("Packages/Initial_PKG.igz"), hash("packages/initial_pkg.igz"));
    assert_ne!(hash("FOOBAR"), hash("foobar"));
    assert_eq!(hash_lower("FOOBAR"), 0xbf9c_f968);
}

#[test]
fn names_carry_their_hash() {
    let name = igName::new("foobar".to_string());
    assert_eq!(name.hash, 0xbf9c_f968);
    assert_eq!(name.string.as_deref(), Some("foobar"));
    let bare = igName::from_hash(7);
    assert_eq!(bare.hash, 7);
    assert!(bare.string.is_none());
    let copy = name.duplicate();
    assert_eq!(copy.hash, name.hash);
    assert_eq!(copy.string, name.string);
}

#[test]
fn sorted_lists_stay_sorted() {
    let sorted = sort_ascending(&vec![40, 8, 8, 96, 0]);
    assert_eq!(sorted, vec![0, 8, 8, 40, 96]);
    let mut list = sorted;
    insert_sorted(&mut list, 16);
    assert_eq!(list, vec![0, 8, 8, 16, 40, 96]);
    assert!(contains_sorted(&list, 16));
    assert!(contains_sorted(&list, 0));
    assert!(contains_sorted(&list, 96));
    assert!(!contains_sorted(&list, 17));
    assert!(!contains_sorted(&Vec::new(), 0));
}
