use std::path::PathBuf;
use tinydump::dumper::sodumper::DumpStage;
use tinydump::dumper::{SoDumper, SoDumperError};
use tinydump::protocol::{Reply, Request};

const TARGET: u64 = 0x7000000000;
const TARGET_END: u64 = 0x7000031000;
const LINKER: u64 = 0x7100000000;
const SOLIST: u64 = 0x10f8a0;
const HEAD: u64 = 0x7200000000;

const TABLE: &str = "\
7000000000-7000010000 r--p 00000000 fd:03 4242 /data/app/demo/lib/arm64/libtarget.so
7000010000-7000030000 r-xp 00010000 fd:03 4242 /data/app/demo/lib/arm64/libtarget.so
7000030000-7000031000 rw-p 00030000 fd:03 4242 /data/app/demo/lib/arm64/libtarget.so
7100000000-7100040000 r-xp 00000000 fd:00 77 /apex/com.android.runtime/bin/linker64
";

fn put_u16(buf: &mut Vec<u8>, at: usize, n: u16) {
    buf[at..at + 2].copy_from_slice(&n.to_le_bytes());
}

fn put_u32(buf: &mut Vec<u8>, at: usize, n: u32) {
    buf[at..at + 4].copy_from_slice(&n.to_le_bytes());
}

fn put_u64(buf: &mut Vec<u8>, at: usize, n: u64) {
    buf[at..at + 8].copy_from_slice(&n.to_le_bytes());
}

fn section_header(buf: &mut Vec<u8>, at: usize, name: u32, kind: u32, offset: u64, size: u64, link: u32, entsize: u64) {
    put_u32(buf, at, name);
    put_u32(buf, at + 4, kind);
    put_u64(buf, at + 24, offset);
    put_u64(buf, at + 32, size);
    put_u32(buf, at + 40, link);
    put_u32(buf, at + 44, if kind == 2 { 1 } else { 0 });
    put_u64(buf, at + 48, 1);
    put_u64(buf, at + 56, entsize);
}

fn loader_binary(symbol: &str, value: u64) -> Vec<u8> {
    let mut strtab = vec![0u8];
    strtab.extend_from_slice(symbol.as_bytes());
    strtab.push(0);
    let shstrtab = b"\0.symtab\0.strtab\0.shstrtab\0".to_vec();
    let symtab_at = 64usize;
    let symtab_len = 48usize;
    let strtab_at = symtab_at + symtab_len;
    let shstrtab_at = strtab_at + strtab.len();
    let sections_at = (shstrtab_at + shstrtab.len() + 7) / 8 * 8;
    let mut buf = vec![0u8; sections_at + 4 * 64];
    buf[..4].copy_from_slice(&[0x7f, b'E', b'L', b'F']);
    buf[4] = 2;
    buf[5] = 1;
    buf[6] = 1;
    put_u16(&mut buf, 16, 3);
    put_u16(&mut buf, 18, 0xb7);
    put_u32(&mut buf, 20, 1);
    put_u64(&mut buf, 40, sections_at as u64);
    put_u16(&mut buf, 52, 64);
    put_u16(&mut buf, 54, 56);
    put_u16(&mut buf, 58, 64);
    put_u16(&mut buf, 60, 4);
    put_u16(&mut buf, 62, 3);
    put_u32(&mut buf, symtab_at + 24, 1);
    buf[symtab_at + 28] = 0x01;
    put_u16(&mut buf, symtab_at + 30, 0xfff1);
    put_u64(&mut buf, symtab_at + 32, value);
    put_u64(&mut buf, symtab_at + 40, 8);
    buf[strtab_at..strtab_at + strtab.len()].copy_from_slice(&strtab);
    buf[shstrtab_at..shstrtab_at + shstrtab.len()].copy_from_slice(&shstrtab);
    section_header(&mut buf, sections_at + 64, 1, 2, symtab_at as u64, symtab_len as u64, 2, 24);
    section_header(&mut buf, sections_at + 128, 9, 3, strtab_at as u64, strtab.len() as u64, 0, 0);
    section_header(&mut buf, sections_at + 192, 17, 3, shstrtab_at as u64, shstrtab.len() as u64, 0, 0);
    buf
}

fn node(base: u64, size: u64, next: u64) -> Vec<u8> {
    let mut data = vec![0u8; 256];
    put_u64(&mut data, 0x10, base);
    put_u64(&mut data, 0x18, size);
    put_u64(&mut data, 0x28, next);
    data
}

fn serve(memory: &[(u64, Vec<u8>)], address: u64, length: u64) -> Reply {
    for (base, data) in memory {
        let end = base + data.len() as u64;
        if address >= *base && address <= end && length <= end - address {
            let from = (address - base) as usize;
            return Reply::Bytes(data[from..from + length as usize].to_vec());
        }
    }
    Reply::Failed
}

fn target_image() -> Vec<u8> {
    (0..0x31000u32 * 4).map(|i| (i % 253) as u8).collect()
}

fn five_nodes() -> Vec<(u64, Vec<u8>)> {
    vec![
        (LINKER + SOLIST, HEAD.to_le_bytes().to_vec()),
        (HEAD, node(0x6000000000, 0x1000, HEAD + 0x1000)),
        (HEAD + 0x1000, node(0x6100000000, 0x2000, HEAD + 0x2000)),
        (HEAD + 0x2000, node(TARGET, 0x2f000, HEAD + 0x3000)),
        (HEAD + 0x3000, node(0x6300000000, 0x4000, HEAD + 0x4000)),
        (HEAD + 0x4000, node(0x6400000000, 0x5000, 0)),
        (TARGET, target_image()),
    ]
}

struct Trace {
    requests: Vec<String>,
    pauses: u32,
    resumes: u32,
    reads: Vec<(u64, u64)>,
    files: Vec<(String, Vec<u8>)>,
    repairs: Vec<Vec<String>>,
    end: DumpStage,
}

fn run(
    dumper: &SoDumper,
    loader: Option<Vec<u8>>,
    table: Option<&str>,
    memory: &[(u64, Vec<u8>)],
    deny: &[&str],
) -> Trace {
    let mut trace = Trace {
        requests: Vec::new(),
        pauses: 0,
        resumes: 0,
        reads: Vec::new(),
        files: Vec::new(),
        repairs: Vec::new(),
        end: DumpStage::Idle,
    };
    let (mut stage, mut request) = dumper.dump();
    for _ in 0..5000 {
        let denied = |what: &str| deny.contains(&what);
        let reply = match request {
            Request::InstallFixer { path, mode } => {
                assert_eq!(path, "./SoFixer");
                assert_eq!(mode, 0o755);
                trace.requests.push("install".to_string());
                if denied("install") { Reply::Failed } else { Reply::Done }
            }
            Request::ReadFile { path } => {
                assert_eq!(path, "/system/bin/linker64");
                trace.requests.push("linker".to_string());
                match &loader {
                    Some(bytes) => Reply::Bytes(bytes.clone()),
                    None => Reply::Failed,
                }
            }
            Request::Pause { pid } => {
                assert_eq!(pid, 4711);
                trace.pauses += 1;
                trace.requests.push("pause".to_string());
                if denied("pause") { Reply::Failed } else { Reply::Done }
            }
            Request::Resume { pid } => {
                assert_eq!(pid, 4711);
                trace.resumes += 1;
                trace.requests.push("resume".to_string());
                if denied("resume") { Reply::Failed } else { Reply::Done }
            }
            Request::ReadMaps { pid } => {
                assert_eq!(pid, 4711);
                trace.requests.push("maps".to_string());
                match table {
                    Some(text) => Reply::Text(text.to_string()),
                    None => Reply::Failed,
                }
            }
            Request::ReadMemory { address, length } => {
                trace.reads.push((address, length));
                trace.requests.push("read".to_string());
                if denied("read") { Reply::Failed } else { serve(memory, address, length) }
            }
            Request::WriteFile { name, data } => {
                trace.requests.push("write".to_string());
                let path = format!("out/{}", name);
                trace.files.push((name, data));
                if denied("write") { Reply::Failed } else { Reply::Text(path) }
            }
            Request::RunFixer { program, args } => {
                assert_eq!(program, "./SoFixer");
                trace.requests.push("repair".to_string());
                trace.repairs.push(args);
                if denied("repair") { Reply::Failed } else { Reply::Done }
            }
            Request::RemoveFile { .. } => panic!("a dump removes nothing"),
            Request::Finish => {
                trace.end = stage;
                return trace;
            }
        };
        let step = dumper.advance(stage, reply);
        stage = step.0;
        request = step.1;
    }
    panic!("the dump did not end");
}

fn dumper() -> SoDumper {
    SoDumper::new(4711, "libtarget.so".to_string(), PathBuf::from("out")).unwrap()
}

fn loader() -> Option<Vec<u8>> {
    Some(loader_binary("__dl__ZL6solist", SOLIST))
}

#[test]
fn a_dump_goes_through_its_steps_in_order() {
    let trace = run(&dumper(), loader(), Some(TABLE), &five_nodes(), &[]);
    assert_eq!(
        trace.requests,
        vec![
            "install", "linker", "pause", "maps", "read", "read", "read", "read", "read", "write",
            "repair", "resume"
        ]
    );
    assert_eq!(trace.end, DumpStage::Finished { outcome: Ok(()), resumed: Some(true) });
}

#[test]
fn the_size_of_the_third_of_five_nodes_is_found_after_three_nodes() {
    let trace = run(&dumper(), loader(), Some(TABLE), &five_nodes(), &[]);
    assert_eq!(
        trace.reads,
        vec![
            (LINKER + SOLIST, 8),
            (HEAD, 256),
            (HEAD + 0x1000, 256),
            (HEAD + 0x2000, 256),
            (TARGET, 0x2f000),
        ]
    );
    assert_eq!(trace.files.len(), 1);
    assert_eq!(trace.files[0].0, "libtarget_0x7000000000_192512_dump.so");
    assert_eq!(trace.files[0].1, target_image()[..0x2f000].to_vec());
}

#[test]
fn the_dump_is_repaired_with_its_load_base() {
    let trace = run(&dumper(), loader(), Some(TABLE), &five_nodes(), &[]);
    assert_eq!(
        trace.repairs,
        vec![vec![
            "-m".to_string(),
            "0x7000000000".to_string(),
            "-s".to_string(),
            "out/libtarget_0x7000000000_192512_dump.so".to_string(),
            "-o".to_string(),
            "out/libtarget_0x7000000000_192512_dump.so.fix.so".to_string(),
        ]]
    );
}

#[test]
fn a_failed_repair_leaves_the_dump_a_success() {
    let trace = run(&dumper(), loader(), Some(TABLE), &five_nodes(), &["repair"]);
    assert_eq!(trace.files.len(), 1);
    assert_eq!(trace.resumes, 1);
    assert_eq!(trace.end, DumpStage::Finished { outcome: Ok(()), resumed: Some(true) });
}

#[test]
fn a_dumper_that_does_not_repair_asks_for_no_tool() {
    let mut d = dumper();
    d.auto_fix = false;
    let trace = run(&d, loader(), Some(TABLE), &five_nodes(), &[]);
    assert_eq!(
        trace.requests,
        vec!["linker", "pause", "maps", "read", "read", "read", "read", "read", "write", "resume"]
    );
    assert_eq!(trace.end, DumpStage::Finished { outcome: Ok(()), resumed: Some(true) });
}

#[test]
fn a_broken_chain_gives_way_to_the_raw_search() {
    let mut window = vec![0x11u8; 256 * 1024];
    window[..256].copy_from_slice(&node(0x6000000000, 0x1000, 0xdead0000));
    put_u64(&mut window, 0x4010, TARGET);
    put_u64(&mut window, 0x4018, 0x30000);
    let memory = vec![
        (LINKER + SOLIST, HEAD.to_le_bytes().to_vec()),
        (HEAD, window),
        (TARGET, target_image()),
    ];
    let trace = run(&dumper(), loader(), Some(TABLE), &memory, &[]);
    assert_eq!(
        trace.reads,
        vec![
            (LINKER + SOLIST, 8),
            (HEAD, 256),
            (0xdead0000, 256),
            (HEAD, 256 * 1024),
            (TARGET, 0x30000),
        ]
    );
    assert_eq!(trace.files[0].0, "libtarget_0x7000000000_196608_dump.so");
    assert_eq!(trace.files[0].1.len(), 0x30000);
    assert_eq!(trace.end, DumpStage::Finished { outcome: Ok(()), resumed: Some(true) });
}

#[test]
fn a_list_that_ends_without_the_target_gives_way_to_the_raw_search() {
    let mut window = vec![0u8; 256 * 1024];
    window[..256].copy_from_slice(&node(0x6000000000, 0x1000, 0));
    put_u64(&mut window, 0x800, TARGET);
    put_u64(&mut window, 0x808, 0x1234);
    let memory = vec![
        (LINKER + SOLIST, HEAD.to_le_bytes().to_vec()),
        (HEAD, window),
        (TARGET, target_image()),
    ];
    let trace = run(&dumper(), loader(), Some(TABLE), &memory, &[]);
    assert_eq!(
        trace.reads,
        vec![(LINKER + SOLIST, 8), (HEAD, 256), (HEAD, 256 * 1024), (TARGET, 0x1234)]
    );
}

#[test]
fn a_list_without_end_is_left_at_the_cap() {
    let mut d = dumper();
    d.max_iterations = 25;
    let memory = vec![
        (LINKER + SOLIST, HEAD.to_le_bytes().to_vec()),
        (HEAD, node(0x6000000000, 0x1000, HEAD)),
        (TARGET, target_image()),
    ];
    let trace = run(&d, loader(), Some(TABLE), &memory, &[]);
    let nodes = trace.reads.iter().filter(|r| **r == (HEAD, 256)).count();
    assert_eq!(nodes, 25);
    assert_eq!(trace.reads[26], (HEAD, 256 * 1024));
    assert_eq!(*trace.reads.last().unwrap(), (TARGET, TARGET_END - TARGET));
    assert_eq!(trace.files[0].0, "libtarget_0x7000000000_200704_dump.so");
    assert_eq!(trace.end, DumpStage::Finished { outcome: Ok(()), resumed: Some(true) });
}

#[test]
fn a_size_from_the_list_beyond_ten_times_the_span_is_not_believed() {
    let memory = vec![
        (LINKER + SOLIST, HEAD.to_le_bytes().to_vec()),
        (HEAD, node(TARGET, 10 * 0x31000 + 1, 0)),
        (TARGET, target_image()),
    ];
    let trace = run(&dumper(), loader(), Some(TABLE), &memory, &[]);
    assert_eq!(*trace.reads.last().unwrap(), (TARGET, 0x31000));
    assert_eq!(trace.files[0].1.len(), 0x31000);
}

#[test]
fn a_size_from_the_list_of_ten_times_the_span_is_believed() {
    let memory = vec![
        (LINKER + SOLIST, HEAD.to_le_bytes().to_vec()),
        (HEAD, node(TARGET, 4 * 0x31000, 0)),
        (TARGET, target_image()),
    ];
    let trace = run(&dumper(), loader(), Some(TABLE), &memory, &[]);
    assert_eq!(*trace.reads.last().unwrap(), (TARGET, 4 * 0x31000));
    assert_eq!(trace.files[0].1.len(), 4 * 0x31000);
    let memory = vec![
        (LINKER + SOLIST, HEAD.to_le_bytes().to_vec()),
        (HEAD, node(TARGET, 10 * 0x31000, 0)),
    ];
    let trace = run(&dumper(), loader(), Some(TABLE), &memory, &[]);
    assert_eq!(*trace.reads.last().unwrap(), (TARGET, 10 * 0x31000));
    assert_eq!(
        trace.end,
        DumpStage::Finished { outcome: Err(SoDumperError::ImageUnreadable), resumed: Some(true) }
    );
}

#[test]
fn a_size_from_the_raw_search_beyond_ten_times_the_span_is_not_believed() {
    let mut window = vec![0u8; 256 * 1024];
    put_u64(&mut window, 0x810, TARGET);
    put_u64(&mut window, 0x818, u64::MAX);
    let memory = vec![
        (LINKER + SOLIST, HEAD.to_le_bytes().to_vec()),
        (HEAD, window),
        (TARGET, target_image()),
    ];
    let trace = run(&dumper(), loader(), Some(TABLE), &memory, &[]);
    assert_eq!(*trace.reads.last().unwrap(), (TARGET, 0x31000));
}

#[test]
fn without_any_size_the_span_is_dumped() {
    let memory = vec![(LINKER + SOLIST, HEAD.to_le_bytes().to_vec()), (TARGET, target_image())];
    let trace = run(&dumper(), loader(), Some(TABLE), &memory, &[]);
    assert_eq!(
        trace.reads,
        vec![(LINKER + SOLIST, 8), (HEAD, 256), (HEAD, 256 * 1024), (TARGET, 0x31000)]
    );
    assert_eq!(trace.files[0].0, "libtarget_0x7000000000_200704_dump.so");
}

#[test]
fn an_empty_list_goes_straight_to_the_raw_search() {
    let memory = vec![(LINKER + SOLIST, 0u64.to_le_bytes().to_vec()), (TARGET, target_image())];
    let trace = run(&dumper(), loader(), Some(TABLE), &memory, &[]);
    assert_eq!(trace.reads, vec![(LINKER + SOLIST, 8), (0, 256 * 1024), (TARGET, 0x31000)]);
}

#[test]
fn a_32_bit_target_is_refused_before_any_memory_is_read() {
    let table = "\
70000000-70010000 r-xp 00000000 fd:03 4242 /data/app/demo/lib/arm/libtarget.so
7100000000-7100040000 r-xp 00000000 fd:00 77 /apex/com.android.runtime/bin/linker64
";
    let trace = run(&dumper(), loader(), Some(table), &five_nodes(), &[]);
    assert!(trace.reads.is_empty());
    assert!(trace.files.is_empty());
    assert_eq!(trace.requests, vec!["install", "linker", "pause", "maps", "resume"]);
    assert_eq!(
        trace.end,
        DumpStage::Finished {
            outcome: Err(SoDumperError::UnsupportedArchitecture { base: 0x70000000 }),
            resumed: Some(true),
        }
    );
}

#[test]
fn a_stop_is_followed_by_one_resume_even_if_everything_after_fails() {
    let trace = run(&dumper(), loader(), None, &[], &["read", "write", "repair", "resume"]);
    assert_eq!(trace.pauses, 1);
    assert_eq!(trace.resumes, 1);
    assert_eq!(
        trace.end,
        DumpStage::Finished { outcome: Err(SoDumperError::MapsUnreadable), resumed: Some(false) }
    );
    let trace = run(&dumper(), loader(), Some(TABLE), &[], &["read", "write", "repair", "resume"]);
    assert_eq!(trace.pauses, 1);
    assert_eq!(trace.resumes, 1);
    assert_eq!(*trace.requests.last().unwrap(), "resume");
    assert_eq!(
        trace.end,
        DumpStage::Finished { outcome: Err(SoDumperError::HeadUnreadable), resumed: Some(false) }
    );
}

#[test]
fn every_failure_after_the_stop_leads_to_one_resume() {
    let cases: Vec<(Option<&str>, Vec<(u64, Vec<u8>)>, Vec<&str>, SoDumperError)> = vec![
        (None, five_nodes(), vec![], SoDumperError::MapsUnreadable),
        (Some("garbage\n"), five_nodes(), vec![], SoDumperError::LinkerNotMapped),
        (
            Some("7100000000-7100040000 r-xp 00000000 fd:00 77 /system/bin/linker64\n"),
            five_nodes(),
            vec![],
            SoDumperError::TargetNotFound,
        ),
        (Some(TABLE), vec![], vec![], SoDumperError::HeadUnreadable),
        (
            Some(TABLE),
            vec![(LINKER + SOLIST, HEAD.to_le_bytes().to_vec())],
            vec![],
            SoDumperError::ImageUnreadable,
        ),
        (Some(TABLE), five_nodes(), vec!["write"], SoDumperError::WriteFailed),
    ];
    for (table, memory, deny, error) in cases {
        let trace = run(&dumper(), loader(), table, &memory, &deny);
        assert_eq!(trace.pauses, 1);
        assert_eq!(trace.resumes, 1);
        assert_eq!(*trace.requests.last().unwrap(), "resume");
        assert_eq!(trace.end, DumpStage::Finished { outcome: Err(error), resumed: Some(true) });
    }
}

#[test]
fn a_failed_resume_does_not_mask_a_dump_that_succeeded() {
    let trace = run(&dumper(), loader(), Some(TABLE), &five_nodes(), &["resume"]);
    assert_eq!(trace.files.len(), 1);
    assert_eq!(trace.resumes, 1);
    assert_eq!(trace.end, DumpStage::Finished { outcome: Ok(()), resumed: Some(false) });
}

#[test]
fn a_failure_before_the_stop_asks_for_no_resume() {
    let trace = run(&dumper(), loader(), Some(TABLE), &five_nodes(), &["install"]);
    assert_eq!(trace.requests, vec!["install"]);
    assert_eq!(
        trace.end,
        DumpStage::Finished { outcome: Err(SoDumperError::FixerInstallFailed), resumed: None }
    );
    let trace = run(&dumper(), None, Some(TABLE), &five_nodes(), &[]);
    assert_eq!(trace.requests, vec!["install", "linker"]);
    assert_eq!(
        trace.end,
        DumpStage::Finished { outcome: Err(SoDumperError::LinkerUnreadable), resumed: None }
    );
    let trace = run(&dumper(), Some(b"junk".to_vec()), Some(TABLE), &five_nodes(), &[]);
    assert_eq!(
        trace.end,
        DumpStage::Finished { outcome: Err(SoDumperError::LinkerMalformed), resumed: None }
    );
    let other = Some(loader_binary("__dl__ZL4other", 1));
    let trace = run(&dumper(), other, Some(TABLE), &five_nodes(), &[]);
    assert_eq!(
        trace.end,
        DumpStage::Finished { outcome: Err(SoDumperError::SymbolNotFound), resumed: None }
    );
    let trace = run(&dumper(), loader(), Some(TABLE), &five_nodes(), &["pause"]);
    assert_eq!(trace.requests, vec!["install", "linker", "pause"]);
    assert_eq!(trace.pauses, 1);
    assert_eq!(trace.resumes, 0);
    assert_eq!(
        trace.end,
        DumpStage::Finished { outcome: Err(SoDumperError::PauseFailed), resumed: None }
    );
}

#[test]
fn a_list_address_beyond_the_address_space_is_refused() {
    let far = Some(loader_binary("__dl__ZL6solist", u64::MAX - LINKER + 1));
    let trace = run(&dumper(), far, Some(TABLE), &five_nodes(), &[]);
    assert!(trace.reads.is_empty());
    assert_eq!(trace.resumes, 1);
    assert_eq!(
        trace.end,
        DumpStage::Finished { outcome: Err(SoDumperError::RegistryUnresolvable), resumed: Some(true) }
    );
    let edge = Some(loader_binary("__dl__ZL6solist", u64::MAX - LINKER));
    let trace = run(&dumper(), edge, Some(TABLE), &[], &[]);
    assert_eq!(trace.reads, vec![(u64::MAX, 8)]);
}

#[test]
fn an_error_reply_to_a_dump_counts_as_a_failure() {
    let d = dumper();
    let (stage, request) = d.advance(DumpStage::Installing, Reply::Error("EROFS".to_string()));
    assert_eq!(
        stage,
        DumpStage::Finished { outcome: Err(SoDumperError::FixerInstallFailed), resumed: None }
    );
    assert!(matches!(request, Request::Finish));
    let (stage, _) = d.advance(DumpStage::Pausing { solist_offset: 1 }, Reply::Error("EPERM".to_string()));
    assert_eq!(
        stage,
        DumpStage::Finished { outcome: Err(SoDumperError::PauseFailed), resumed: None }
    );
    let (stage, _) = d.advance(DumpStage::Writing { base: TARGET }, Reply::Error("ENOSPC".to_string()));
    assert_eq!(stage, DumpStage::Resuming { outcome: Err(SoDumperError::WriteFailed) });
    let (stage, _) = d.advance(
        DumpStage::Resuming { outcome: Ok(()) },
        Reply::Error("ESRCH".to_string()),
    );
    assert_eq!(stage, DumpStage::Finished { outcome: Ok(()), resumed: Some(false) });
}

#[test]
fn a_region_table_that_was_read_already_serves_as_well() {
    let d = dumper();
    let regions = tinydump::utils::parse_proc_maps(TABLE);
    let (stage, request) =
        d.advance(DumpStage::Mapping { solist_offset: SOLIST }, Reply::Regions(regions));
    assert_eq!(stage, DumpStage::ReadingHead { base: TARGET, raw_size: 0x31000 });
    assert!(matches!(request, Request::ReadMemory { address, length: 8 } if address == LINKER + SOLIST));
}

#[test]
fn a_finished_dump_stays_finished() {
    let d = dumper();
    let end = DumpStage::Finished { outcome: Ok(()), resumed: Some(true) };
    let (stage, request) = d.advance(end, Reply::Failed);
    assert_eq!(stage, end);
    assert!(matches!(request, Request::Finish));
}

#[test]
fn a_reply_of_the_wrong_length_counts_as_a_failed_read() {
    let d = dumper();
    let stage = DumpStage::ReadingHead { base: TARGET, raw_size: 0x31000 };
    let (stage, request) = d.advance(stage, Reply::Bytes(vec![0u8; 9]));
    assert_eq!(stage, DumpStage::Resuming { outcome: Err(SoDumperError::HeadUnreadable) });
    assert!(matches!(request, Request::Resume { pid: 4711 }));
    let stage = DumpStage::ReadingImage { base: TARGET, size: 16 };
    let (stage, _) = d.advance(stage, Reply::Bytes(vec![0u8; 15]));
    assert_eq!(stage, DumpStage::Resuming { outcome: Err(SoDumperError::ImageUnreadable) });
}
