use tinydump::codec::u32_at;
use tinydump::dumper::dexheader::{
    fix_dex_header, DEX_ENDIAN_TAG, DEX_ENDIAN_TAG_SWAPPED, DEX_HEADER_SIZE,
};
use tinydump::dumper::dexregions::{
    dex_file_name, find_dex_offsets, is_candidate_region, region_lacks_header,
    should_skip_memory_region,
};
use tinydump::dumper::dexsize::{guess_dex_size, recover_size, SizeProbe};
use tinydump::dumper::{DexDumper, DexDumperError};
use tinydump::protocol::{Reply, Request};
use tinydump::utils::MemoryMapping;

const MAGIC: [u8; 8] = [0x64, 0x65, 0x78, 0x0a, 0x30, 0x33, 0x35, 0x00];

fn put_u32(buf: &mut Vec<u8>, at: usize, n: u32) {
    buf[at..at + 4].copy_from_slice(&n.to_le_bytes());
}

fn image(len: usize, declared: u32, map_off: u32, count: u32) -> Vec<u8> {
    let mut buf: Vec<u8> = (0..len).map(|i| (i % 251) as u8).collect();
    buf[..8].copy_from_slice(&MAGIC);
    put_u32(&mut buf, 0x20, declared);
    put_u32(&mut buf, 0x24, 0x70);
    put_u32(&mut buf, 0x28, DEX_ENDIAN_TAG);
    put_u32(&mut buf, 0x34, map_off);
    put_u32(&mut buf, 0x3c, 0x70);
    put_u32(&mut buf, map_off as usize, count);
    buf
}

#[test]
fn recovered_size_is_map_offset_plus_entries_plus_count() {
    assert_eq!(recover_size(0x80, 3), Some(0x80 + 3 * 12 + 4));
    assert_eq!(recover_size(0, 0), Some(4));
    assert_eq!(recover_size(0x70, 2), Some(140));
    assert_eq!(recover_size(1000, 17), Some(1208));
}

#[test]
fn recovered_size_that_overflows_is_given_up() {
    assert_eq!(recover_size(0, u32::MAX / 12 + 1), None);
    assert_eq!(recover_size(u32::MAX, 0), None);
    assert_eq!(recover_size(u32::MAX - 4, 0), Some(u32::MAX));
    assert_eq!(recover_size(u32::MAX - 3, 0), None);
    assert_eq!(recover_size(u32::MAX - 16, 1), Some(u32::MAX));
    assert_eq!(recover_size(u32::MAX - 15, 1), None);
    assert_eq!(recover_size(11, 357913940), Some(u32::MAX));
    assert_eq!(recover_size(12, 357913940), None);
}

#[test]
fn guessed_size_follows_the_map_and_not_the_declared_size() {
    let a = image(0x200, 0xdeadbeef, 0x80, 3);
    let b = image(0x200, 7, 0x80, 3);
    assert_eq!(guess_dex_size(&a), Some((0xdeadbeef, 0x80 + 36 + 4)));
    assert_eq!(guess_dex_size(&b), Some((7, 168)));
    let c = image(0x200, 0x200, 0x100, 10);
    assert_eq!(guess_dex_size(&c), Some((0x200, 0x100 + 120 + 4)));
}

#[test]
fn guessed_size_needs_the_standard_string_table_offset() {
    let mut a = image(0x200, 0x200, 0x80, 3);
    put_u32(&mut a, 0x3c, 0x71);
    assert_eq!(guess_dex_size(&a), None);
    put_u32(&mut a, 0x3c, 0);
    assert_eq!(guess_dex_size(&a), None);
    put_u32(&mut a, 0x3c, 0x70);
    assert_eq!(guess_dex_size(&a), Some((0x200, 168)));
}

#[test]
fn guessed_size_needs_every_field_inside_the_buffer() {
    let a = image(0x200, 0x200, 0x80, 3);
    assert_eq!(guess_dex_size(&a[..0x84]), Some((0x200, 168)));
    assert_eq!(guess_dex_size(&a[..0x83]), None);
    assert_eq!(guess_dex_size(&a[..0x40]), None);
    assert_eq!(guess_dex_size(&a[..0x3f]), None);
    assert_eq!(guess_dex_size(&a[..0x23]), None);
    assert_eq!(guess_dex_size(&[]), None);
    let mut far = image(0x200, 0x200, 0x80, 3);
    put_u32(&mut far, 0x34, 0x1fd);
    assert_eq!(guess_dex_size(&far), None);
    put_u32(&mut far, 0x34, u32::MAX);
    assert_eq!(guess_dex_size(&far), None);
}

#[test]
fn guessed_size_that_overflows_is_given_up() {
    let a = image(0x200, 0x200, 0x80, u32::MAX);
    assert_eq!(guess_dex_size(&a), None);
}

#[test]
fn a_probe_asks_for_its_four_fields_in_order() {
    let p = SizeProbe::new(0x1000);
    assert_eq!(p.next_read(), Some(0x1020));
    let p = p.feed(Some(0xaaaa));
    assert_eq!(p, SizeProbe::StringIds { header: 0x1000, file_size: 0xaaaa });
    assert_eq!(p.next_read(), Some(0x103c));
    let p = p.feed(Some(DEX_HEADER_SIZE));
    assert_eq!(p.next_read(), Some(0x1034));
    let p = p.feed(Some(0x300));
    assert_eq!(p, SizeProbe::MapCount { header: 0x1000, file_size: 0xaaaa, map_off: 0x300 });
    assert_eq!(p.next_read(), Some(0x1300));
    let p = p.feed(Some(5));
    assert_eq!(p, SizeProbe::Found { file_size: 0xaaaa, real_size: 0x300 + 60 + 4 });
    assert_eq!(p.next_read(), None);
    assert_eq!(p.result(), Some((0xaaaa, 0x300 + 64)));
    assert_eq!(p.feed(None), p);
}

#[test]
fn a_probe_ends_with_the_first_failure() {
    assert_eq!(SizeProbe::new(0x1000).feed(None), SizeProbe::Abandoned);
    let p = SizeProbe::new(0x1000).feed(Some(1));
    assert_eq!(p.feed(None), SizeProbe::Abandoned);
    assert_eq!(p.feed(Some(0x6f)), SizeProbe::Abandoned);
    let p = p.feed(Some(0x70));
    assert_eq!(p.feed(None), SizeProbe::Abandoned);
    let p = p.feed(Some(0x80));
    assert_eq!(p.feed(None), SizeProbe::Abandoned);
    assert_eq!(p.feed(Some(u32::MAX)), SizeProbe::Abandoned);
    assert_eq!(SizeProbe::Abandoned.next_read(), None);
    assert_eq!(SizeProbe::Abandoned.result(), None);
    assert_eq!(SizeProbe::Abandoned.feed(Some(1)), SizeProbe::Abandoned);
    assert_eq!(p.result(), None);
}

#[test]
fn a_probe_asks_for_no_address_beyond_the_address_space() {
    assert_eq!(SizeProbe::new(u64::MAX - 0x1f).next_read(), None);
    assert_eq!(SizeProbe::new(u64::MAX - 0x20).next_read(), Some(u64::MAX));
    let p = SizeProbe::MapCount { header: u64::MAX - 10, file_size: 0, map_off: 11 };
    assert_eq!(p.next_read(), None);
    let p = SizeProbe::MapCount { header: u64::MAX - 10, file_size: 0, map_off: 10 };
    assert_eq!(p.next_read(), Some(u64::MAX));
}

#[test]
fn fixing_writes_the_four_header_fields() {
    let mut raw: Vec<u8> = (0..0x90).map(|i| (i as u8) ^ 0x5a).collect();
    put_u32(&mut raw, 0x28, 0);
    let fixed = fix_dex_header(&raw).unwrap();
    assert_eq!(fixed.len(), raw.len());
    assert_eq!(&fixed[..8], &MAGIC);
    assert_eq!(u32_at(&fixed, 0x20), Some(0x90));
    assert_eq!(u32_at(&fixed, 0x24), Some(0x70));
    assert_eq!(u32_at(&fixed, 0x28), Some(0x12345678));
    assert_eq!(&fixed[0x28..0x2c], &[0x78, 0x56, 0x34, 0x12]);
}

#[test]
fn fixing_leaves_every_other_byte_alone() {
    let raw: Vec<u8> = (0..0x300).map(|i| (i * 7 % 256) as u8).collect();
    let fixed = fix_dex_header(&raw).unwrap();
    assert_eq!(&fixed[8..0x20], &raw[8..0x20]);
    assert_eq!(&fixed[0x2c..], &raw[0x2c..]);
}

#[test]
fn fixing_twice_changes_nothing_more() {
    for len in [0x2c, 0x70, 0x1234] {
        let raw: Vec<u8> = (0..len).map(|i| (i * 13 % 256) as u8).collect();
        let once = fix_dex_header(&raw).unwrap();
        let twice = fix_dex_header(&once).unwrap();
        assert_eq!(once, twice);
    }
}

#[test]
fn a_recognized_endian_tag_is_kept() {
    let mut raw = vec![0u8; 0x70];
    put_u32(&mut raw, 0x28, DEX_ENDIAN_TAG_SWAPPED);
    let fixed = fix_dex_header(&raw).unwrap();
    assert_eq!(u32_at(&fixed, 0x28), Some(0x78563412));
    put_u32(&mut raw, 0x28, DEX_ENDIAN_TAG);
    let fixed = fix_dex_header(&raw).unwrap();
    assert_eq!(u32_at(&fixed, 0x28), Some(0x12345678));
}

#[test]
fn an_unrecognized_endian_tag_is_replaced() {
    for tag in [0u32, 1, 0x12345679, 0x78563411, 0x34127856, u32::MAX] {
        let mut raw = vec![0u8; 0x70];
        put_u32(&mut raw, 0x28, tag);
        let fixed = fix_dex_header(&raw).unwrap();
        assert_eq!(u32_at(&fixed, 0x28), Some(0x12345678));
    }
}

#[test]
fn an_image_too_short_for_the_fields_is_not_fixed() {
    assert_eq!(fix_dex_header(&[]), None);
    assert_eq!(fix_dex_header(&[0u8; 8]), None);
    assert_eq!(fix_dex_header(&[0u8; 0x2b]), None);
    assert!(fix_dex_header(&[0u8; 0x2c]).is_some());
}

#[test]
fn system_paths_are_passed_over() {
    assert!(should_skip_memory_region("/system/framework/boot.vdex"));
    assert!(should_skip_memory_region("/system/lib64/libc.so"));
    assert!(should_skip_memory_region("/system"));
    assert!(should_skip_memory_region("/system/"));
    assert!(should_skip_memory_region("/data/dalvik-cache/arm64/system@framework@boot.art"));
    assert!(should_skip_memory_region("/data/dalvik-cache"));
}

#[test]
fn other_paths_are_searched() {
    assert!(!should_skip_memory_region(""));
    assert!(!should_skip_memory_region("/system_ext/framework/x.jar"));
    assert!(!should_skip_memory_region("/systemx"));
    assert!(!should_skip_memory_region("/data/dalvik-cachex/a"));
    assert!(!should_skip_memory_region("/data/app/demo/base.apk"));
    assert!(!should_skip_memory_region("system/lib"));
    assert!(!should_skip_memory_region("/data/system/x"));
    assert!(!should_skip_memory_region("[anon:dalvik-classes.dex]"));
}

fn region(start: u64, end: u64, permissions: &str, pathname: &str) -> MemoryMapping {
    MemoryMapping {
        start,
        end,
        permissions: permissions.to_string(),
        offset: 0,
        device: "00:00".to_string(),
        inode: 0,
        pathname: pathname.to_string(),
    }
}

#[test]
fn a_region_is_searched_if_readable_large_and_not_passed_over() {
    assert!(is_candidate_region(&region(0x1000, 0x2000, "r--p", "")));
    assert!(is_candidate_region(&region(0x1000, 0x1061, "rw-p", "/data/app/base.apk")));
    assert!(!is_candidate_region(&region(0x1000, 0x1060, "r--p", "")));
    assert!(!is_candidate_region(&region(0x1000, 0x1000, "r--p", "")));
    assert!(!is_candidate_region(&region(0x2000, 0x1000, "r--p", "")));
    assert!(!is_candidate_region(&region(0x1000, 0x2000, "-w-p", "")));
    assert!(!is_candidate_region(&region(0x1000, 0x2000, "---p", "")));
    assert!(!is_candidate_region(&region(0x1000, 0x2000, "", "")));
    assert!(!is_candidate_region(&region(0x1000, 0x2000, "r--p", "/system/lib64/libc.so")));
}

#[test]
fn files_are_named_by_the_address_of_the_image() {
    assert_eq!(dex_file_name(0x1234), "dex_0x001234.dex");
    assert_eq!(dex_file_name(0), "dex_0x000000.dex");
    assert_eq!(dex_file_name(0x7000000040), "dex_0x7000000040.dex");
    assert_eq!(dex_file_name(u64::MAX), "dex_0xffffffffffffffff.dex");
    assert_eq!(dex_file_name(0xabcdef), format!("dex_{:#08x}.dex", 0xabcdefu64));
}

#[test]
fn signatures_are_found_where_they_begin() {
    let mut buf = vec![0u8; 0x100];
    buf[0x10..0x18].copy_from_slice(&MAGIC);
    buf[0x80..0x88].copy_from_slice(b"dex\n039\0");
    buf[0xf8..0x100].copy_from_slice(b"dex\n037\0");
    assert_eq!(find_dex_offsets(&buf), vec![0x10, 0x80, 0xf8]);
}

#[test]
fn what_is_no_signature_is_not_found() {
    assert_eq!(find_dex_offsets(&[]), Vec::<usize>::new());
    assert_eq!(find_dex_offsets(&[0u8; 64]), Vec::<usize>::new());
    assert_eq!(find_dex_offsets(b"dex\n135\0"), Vec::<usize>::new());
    assert_eq!(find_dex_offsets(b"dex\n035\x01"), Vec::<usize>::new());
    assert_eq!(find_dex_offsets(b"dey\n035\0"), Vec::<usize>::new());
    assert_eq!(find_dex_offsets(b"dex\n035"), Vec::<usize>::new());
    assert_eq!(find_dex_offsets(b"dex\n0\n5\0"), Vec::<usize>::new());
    assert_eq!(find_dex_offsets(b"xdex\n035\0"), vec![1]);
}

#[test]
fn a_region_lacks_a_header_if_it_does_not_begin_with_dex() {
    assert!(region_lacks_header(b"abc"));
    assert!(region_lacks_header(b"dey\n035\0"));
    assert!(region_lacks_header(&[0u8; 16]));
    assert!(!region_lacks_header(b"dex"));
    assert!(!region_lacks_header(b"dex\n035\0"));
    assert!(!region_lacks_header(b"de"));
    assert!(!region_lacks_header(b""));
}

#[test]
fn errors_say_what_went_wrong() {
    assert_eq!(DexDumperError::ProcessNotFound(4711).message(), "Process 4711 not found");
    assert_eq!(DexDumperError::ProcessNotFound(0).message(), "Process 0 not found");
    assert_eq!(DexDumperError::ProcessNotFound(-1).message(), "Process -1 not found");
    assert_eq!(
        DexDumperError::ProcessNotFound(i32::MIN).message(),
        "Process -2147483648 not found"
    );
    assert_eq!(DexDumperError::FailedToAttach.message(), "Failed to attach to process");
    assert_eq!(DexDumperError::FailedToDetach.message(), "Failed to detach from process");
    assert_eq!(DexDumperError::FileCreationFailed.message(), "Failed to create output file");
    assert_eq!(
        DexDumperError::IoError("disk full".to_string()).message(),
        "IO error: disk full"
    );
}

#[test]
fn a_dumper_needs_the_memory_of_the_process() {
    assert!(matches!(DexDumper::new(42, false), Err(DexDumperError::ProcessNotFound(42))));
    let d = DexDumper::new(42, true).unwrap();
    assert_eq!(d.pid, 42);
    assert!(d.maps.is_empty());
}

#[test]
fn attaching_and_detaching_ask_for_the_signals() {
    let d = DexDumper::new(42, true).unwrap();
    assert!(matches!(d.attach_process(), Request::Pause { pid: 42 }));
    assert!(matches!(d.detach_process(), Request::Resume { pid: 42 }));
    assert!(d.result().is_none());
}

#[test]
fn a_write_that_failed_says_why() {
    assert!(matches!(
        DexDumperError::of_write(&Reply::Failed),
        Some(DexDumperError::FileCreationFailed)
    ));
    match DexDumperError::of_write(&Reply::Error("No space left on device".to_string())) {
        Some(DexDumperError::IoError(reason)) => assert_eq!(reason, "No space left on device"),
        other => panic!("unexpected {:?}", other),
    }
    assert!(DexDumperError::of_write(&Reply::Done).is_none());
    assert!(DexDumperError::of_write(&Reply::Text("out/dex_0x001000.dex".to_string())).is_none());
    assert_eq!(
        DexDumperError::of_write(&Reply::Error("disk full".to_string())).unwrap().message(),
        "IO error: disk full"
    );
}
