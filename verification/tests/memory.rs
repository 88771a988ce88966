use windows_sys::Win32::System::Memory as m;
use music_rpc::memory::{
    le_i16, le_i32, le_i64, le_u32, le_u64, machine_name, module_name_matches, plan_snapshots,
    region_step, section_name, sso_layout, std_string_len_addr, std_string_text, u16_buf_to_string,
    find_module, ClockFormat, ModuleEntry,
    PeRead, PeScan, PeStage, PeValue, RegionRead, SsoLayout, DOT_TEXT, MEM_COMMIT, PAGE_EXECUTE_READWRITE,
    PAGE_EXECUTE_WRITECOPY, PAGE_GUARD, PAGE_NOACCESS, PAGE_READWRITE, PAGE_WRITECOPY,
};

#[test]
fn little_endian_values() {
    assert_eq!(le_i16(&[0x34, 0x12]), Some(0x1234));
    assert_eq!(le_i16(&[0xFF, 0xFF]), Some(-1));
    assert_eq!(le_i16(&[0x01]), None);
    assert_eq!(le_u32(&[0x78, 0x56, 0x34, 0x12, 0x99]), Some(0x1234_5678));
    assert_eq!(le_i32(&[0xFE, 0xFF, 0xFF, 0xFF]), Some(-2));
    assert_eq!(le_i32(&[0, 0, 0]), None);
    assert_eq!(le_i64(&[1, 0, 0, 0, 0, 0, 0, 0x80]), Some(i64::MIN + 1));
    assert_eq!(le_i64(&0x0102_0304_0506_0708i64.to_le_bytes()), Some(0x0102_0304_0506_0708));
    assert_eq!(le_i64(&[0; 7]), None);
    assert_eq!(le_u64(&[0xFF; 8]), Some(u64::MAX));
    assert_eq!(le_u64(&[0; 7]), None);
}

#[test]
fn names() {
    assert_eq!(section_name(DOT_TEXT), ".text");
    assert_eq!(section_name(i64::from_le_bytes(*b".rdata\0\0")), ".rdata");
    assert_eq!(section_name(i64::from_le_bytes(*b"ABCDEFGH")), "ABCDEFGH");
    assert_eq!(section_name(0), "");
    assert_eq!(machine_name(0x8664), "x64");
    assert_eq!(machine_name(0x014C), "x86");
    assert_eq!(machine_name(0xAA64), "arm64");
    assert_eq!(machine_name(0x1234), "unknown");
    let buf: Vec<u16> = "cloudmusic.dll\0junk".encode_utf16().collect();
    assert_eq!(u16_buf_to_string(&buf), "cloudmusic.dll");
    let full: Vec<u16> = "abc".encode_utf16().collect();
    assert_eq!(u16_buf_to_string(&full), "abc");
    assert!(module_name_matches("CloudMusic.DLL", "cloudmusic.dll"));
    assert!(!module_name_matches("cloudmusic.dl", "cloudmusic.dll"));
}

/// A fake module: PE headers with `.rdata` then `.text` sections.
struct Image {
    base: usize,
    bytes: Vec<u8>,
}

impl Image {
    fn read(&self, addr: usize, len: usize) -> Vec<u8> {
        let off = addr - self.base;
        self.bytes[off..(off + len).min(self.bytes.len())].to_vec()
    }
}

fn fake_image(text: &[u8]) -> Image {
    let mut b = vec![0u8; 0x400];
    let nt = 0x80usize;
    b[0x3C..0x40].copy_from_slice(&(nt as i32).to_le_bytes());
    b[nt + 4..nt + 6].copy_from_slice(&0x8664u16.to_le_bytes()); // Machine
    b[nt + 6..nt + 8].copy_from_slice(&2u16.to_le_bytes()); // NumberOfSections
    b[nt + 20..nt + 22].copy_from_slice(&0xF0u16.to_le_bytes()); // SizeOfOptionalHeader
    let first = nt + 24 + 0xF0;
    b[first..first + 8].copy_from_slice(b".rdata\0\0");
    let second = first + 40;
    b[second..second + 8].copy_from_slice(b".text\0\0\0");
    b[second + 8..second + 12].copy_from_slice(&(text.len() as i32).to_le_bytes());
    b[second + 12..second + 16].copy_from_slice(&0x300i32.to_le_bytes());
    b[0x300..0x300 + text.len()].copy_from_slice(text);
    Image { base: 0x1000_0000, bytes: b }
}

fn run_scan(img: &Image, sig: &str) -> Option<usize> {
    let (found, reads) = scan_counting(img, sig);
    assert_eq!(reads, 1 + 3 + 3 + 3 + 1);
    found
}

fn scan_counting(img: &Image, sig: &str) -> (Option<usize>, usize) {
    let mut scan = PeScan::new(sig, img.base);
    let mut reads = 0;
    while let Some(r) = scan.next_read() {
        reads += 1;
        match r {
            PeRead::I16(a) => scan.feed(PeValue::I16(le_i16(&img.read(a, 2)).unwrap())),
            PeRead::I32(a) => scan.feed(PeValue::I32(le_i32(&img.read(a, 4)).unwrap())),
            PeRead::I64(a) => scan.feed(PeValue::I64(le_i64(&img.read(a, 8)).unwrap())),
            PeRead::Bytes(a, n) => scan.feed_text(&img.read(a, n)),
        }
    }
    (scan.result().unwrap(), reads)
}

#[test]
fn pe_scan_without_text_section_finds_nothing() {
    let mut img = fake_image(&[0x90, 0x48]);
    let second = 0x80 + 24 + 0xF0 + 40;
    img.bytes[second..second + 8].copy_from_slice(b".data\0\0\0");
    // headers, then three reads per section header, and no section read
    assert_eq!(scan_counting(&img, "90"), (None, 1 + 3 + 3 + 3));
}

#[test]
fn pe_scan_finds_the_text_section_match() {
    let img = fake_image(&[0x90, 0x48, 0x8D, 0x0D, 0x11, 0x22]);
    assert_eq!(run_scan(&img, "48 8D 0D ?"), Some(img.base + 0x300 + 1));
    assert_eq!(run_scan(&img, "48 8D 0E"), None);
}

#[test]
fn pe_scan_requests_in_order() {
    let mut scan = PeScan::new("90", 0x1000);
    assert!(scan.next_read() == Some(PeRead::I32(0x103C)));
    scan.feed(PeValue::I32(0x80));
    assert!(scan.current_stage() == PeStage::Machine { nt: 0x1080 });
    assert!(scan.next_read() == Some(PeRead::I16(0x1084)));
    scan.feed(PeValue::I16(0x14C));
    assert!(scan.next_read() == Some(PeRead::I16(0x1086)));
    scan.feed(PeValue::I16(0)); // no sections
    assert!(scan.next_read() == Some(PeRead::I16(0x1094)));
    scan.feed(PeValue::I16(0xE0));
    assert!(scan.next_read().is_none());
    assert_eq!(scan.result(), Some(None));
}

#[test]
fn std_string_layouts() {
    assert!(sso_layout(0) == SsoLayout::Empty);
    assert!(sso_layout(-5) == SsoLayout::Empty);
    assert!(sso_layout(1) == SsoLayout::Inline(1));
    assert!(sso_layout(15) == SsoLayout::Inline(15));
    assert!(sso_layout(16) == SsoLayout::Heap(16));
    assert_eq!(std_string_len_addr(0x1000), 0x1010);
    assert_eq!(std_string_len_addr(usize::MAX), 0x0F);
}

#[test]
fn std_string_texts() {
    assert_eq!(std_string_text(SsoLayout::Empty, None), Some(String::new()));
    assert_eq!(std_string_text(SsoLayout::Inline(5), Some(b"12345")), Some("12345".to_string()));
    assert_eq!(std_string_text(SsoLayout::Heap(20), Some(&[0x61, 0xFF])), Some("a\u{FFFD}".to_string()));
    assert_eq!(std_string_text(SsoLayout::Inline(3), None), None);
}

#[test]
fn best_effort_region_read_leaves_failed_chunks_zero() {
    let size = 0x40000 * 2 + 10;
    let mut region = RegionRead::new(0x5000, size);
    let mut chunks = Vec::new();
    let mut n = 0;
    while let Some((addr, len)) = region.next_chunk() {
        chunks.push((addr, len));
        let data = vec![0xAB; len];
        if n == 1 {
            region.feed(None);
        } else if n == 2 {
            region.feed(Some(&data[..4])); // short read
        } else {
            region.feed(Some(&data));
        }
        n += 1;
    }
    assert_eq!(chunks, vec![(0x5000, 0x40000), (0x45000, 0x40000), (0x85000, 10)]);
    let buf = region.finish();
    assert_eq!(buf.len(), size);
    assert!(buf[..0x40000].iter().all(|&b| b == 0xAB));
    assert!(buf[0x40000..0x80000].iter().all(|&b| b == 0));
    assert!(buf[0x80000..0x80004].iter().all(|&b| b == 0xAB));
    assert!(buf[0x80004..].iter().all(|&b| b == 0));
}

#[test]
fn region_walk_steps() {
    let s = region_step(0, 0x1000, 0x2000, MEM_COMMIT, PAGE_READWRITE);
    assert!(s.keep);
    assert_eq!(s.next, Some(0x3000));
    let s = region_step(0, 0x1000, 0x2000, MEM_COMMIT, PAGE_READWRITE | PAGE_GUARD);
    assert!(!s.keep);
    let s = region_step(0, 0x1000, 0x2000, 0x2000, PAGE_READWRITE);
    assert!(!s.keep);
    let s = region_step(0, 0x1000, 0x2000, MEM_COMMIT, 0x02);
    assert!(!s.keep);
    let s = region_step(0, 0x1000, 0, MEM_COMMIT, PAGE_READWRITE);
    assert!(!s.keep);
    assert_eq!(s.next, None);
    let s = region_step(0xFFFF_0000, 0xFFFF_0000, 0x1_0000, MEM_COMMIT, PAGE_READWRITE);
    assert!(s.keep);
    assert_eq!(s.next, None);
}

#[test]
fn snapshot_plan_respects_the_cap() {
    let regions = vec![(0x1000, 100), (0x2000, 50), (0x3000, 70)];
    assert_eq!(plan_snapshots(&regions, 120), vec![(0x1000, 100), (0x2000, 20)]);
    assert_eq!(plan_snapshots(&regions, 1000), regions);
    assert_eq!(plan_snapshots(&regions, 0), vec![]);
}

#[test]
fn clock_formats() {
    assert_eq!(ClockFormat::F64Sec.width(), 8);
    assert_eq!(ClockFormat::F64Ms.width(), 8);
    assert_eq!(ClockFormat::F32Ms.width(), 4);
    assert_eq!(ClockFormat::I32Ms.width(), 4);
    assert!(ClockFormat::I32Ms.in_millis());
    assert!(!ClockFormat::F32Sec.in_millis());
}

#[test]
fn clock_raw_values() {
    let mut buf = vec![0u8; 3];
    buf.extend_from_slice(&12.5f64.to_le_bytes());
    let raw = ClockFormat::F64Sec.raw_at(&buf, 3).unwrap();
    assert_eq!(f64::from_bits(raw), 12.5);
    assert_eq!(ClockFormat::F64Ms.raw_at(&buf, 4), None);
    let raw32 = ClockFormat::I32Ms.raw_at(&(-1500i32).to_le_bytes(), 0).unwrap();
    assert_eq!(raw32 as u32 as i32, -1500);
    assert_eq!(ClockFormat::F32Sec.raw_at(&[1, 2, 3], 0), None);
    assert_eq!(ClockFormat::F32Sec.raw_at(&[1, 2, 3, 4], 5), None);
    assert_eq!(ClockFormat::F32Ms.raw_at(&2.25f32.to_le_bytes(), 0).map(|r| f32::from_bits(r as u32)), Some(2.25));
}

#[test]
fn win32_memory_constants_match() {
    assert_eq!(MEM_COMMIT, m::MEM_COMMIT);
    assert_eq!(PAGE_NOACCESS, m::PAGE_NOACCESS);
    assert_eq!(PAGE_READWRITE, m::PAGE_READWRITE);
    assert_eq!(PAGE_WRITECOPY, m::PAGE_WRITECOPY);
    assert_eq!(PAGE_EXECUTE_READWRITE, m::PAGE_EXECUTE_READWRITE);
    assert_eq!(PAGE_EXECUTE_WRITECOPY, m::PAGE_EXECUTE_WRITECOPY);
    assert_eq!(PAGE_GUARD, m::PAGE_GUARD);
}

fn module(name: &str, base: usize, size: usize) -> ModuleEntry {
    ModuleEntry { name: name.to_string(), base, size }
}

#[test]
fn first_matching_module_wins() {
    let mods = vec![
        module("ntdll.dll", 0x1000, 0x10),
        module("CloudMusic.DLL", 0x2000, 0x20),
        module("cloudmusic.dll", 0x3000, 0x30),
    ];
    assert_eq!(find_module(&mods, "cloudmusic.dll"), Some((0x2000, 0x20)));
    assert_eq!(find_module(&mods, "NTDLL.dll"), Some((0x1000, 0x10)));
    assert_eq!(find_module(&mods, "QQMusic.dll"), None);
    assert_eq!(find_module(&Vec::new(), "QQMusic.dll"), None);
}

#[test]
fn utf16_names_decode_pairs_and_lone_surrogates() {
    assert_eq!(u16_buf_to_string(&[0x68, 0xD83D, 0xDE00, 0]), "h\u{1F600}");
    assert_eq!(u16_buf_to_string(&[0xDC00, 0x61]), "\u{FFFD}a");
    assert_eq!(u16_buf_to_string(&[0xD800, 0xD800, 0xDC00]), "\u{FFFD}\u{10000}");
}
