use fat32::vfat::dir::{long_name_len, VFatDirEntryIter};
use fat32::vfat::slot::{VFatDirEntry, VFatLfnDirEntry, VFatRegularDirEntry, VFatUnknownDirEntry};
use fat32::vfat::names::{eq_ignore_ascii_case, to_ascii_lower};
use fat32::vfat::{Cluster, Entry};

fn short_slot(name: &[u8; 8], ext: &[u8; 3], attr: u8, cluster: u32, size: u32) -> Vec<u8> {
    let mut slot = vec![0u8; 32];
    slot[0..8].copy_from_slice(name);
    slot[8..11].copy_from_slice(ext);
    slot[11] = attr;
    slot[12] = 0x18;
    slot[13] = 0x64;
    slot[14..16].copy_from_slice(&0x6000u16.to_le_bytes());
    slot[16..18].copy_from_slice(&0x5021u16.to_le_bytes());
    slot[18..20].copy_from_slice(&0x5022u16.to_le_bytes());
    slot[20..22].copy_from_slice(&((cluster >> 16) as u16).to_le_bytes());
    slot[22..24].copy_from_slice(&0x7000u16.to_le_bytes());
    slot[24..26].copy_from_slice(&0x5023u16.to_le_bytes());
    slot[26..28].copy_from_slice(&(cluster as u16).to_le_bytes());
    slot[28..32].copy_from_slice(&size.to_le_bytes());
    slot
}

fn lfn_slot(seq: u8, units: &[u16; 13]) -> Vec<u8> {
    let mut slot = vec![0u8; 32];
    slot[0] = seq;
    slot[11] = 0x0F;
    slot[13] = 0x5A;
    let places = [1, 3, 5, 7, 9, 14, 16, 18, 20, 22, 24, 28, 30];
    for k in 0..13 {
        slot[places[k]..places[k] + 2].copy_from_slice(&units[k].to_le_bytes());
    }
    slot
}

fn lfn_slots(name: &str) -> Vec<Vec<u8>> {
    let mut units: Vec<u16> = name.encode_utf16().collect();
    let count = (units.len() + 12) / 13;
    if units.len() < count * 13 {
        units.push(0x0000);
    }
    while units.len() < count * 13 {
        units.push(0xFFFF);
    }
    let mut slots = Vec::new();
    for i in (0..count).rev() {
        let mut part = [0u16; 13];
        part.copy_from_slice(&units[i * 13..i * 13 + 13]);
        let last = if i + 1 == count { 0x40 } else { 0x00 };
        slots.push(lfn_slot(last | (i as u8 + 1), &part));
    }
    slots
}

fn directory(slots: &[Vec<u8>]) -> Vec<u8> {
    let mut bytes = Vec::new();
    for slot in slots {
        bytes.extend_from_slice(slot);
    }
    bytes
}

fn names(bytes: Vec<u8>) -> Vec<String> {
    let mut iter = VFatDirEntryIter::new(bytes);
    let mut found = Vec::new();
    while let Some(entry) = iter.next() {
        found.push(entry.name().clone());
    }
    found
}

#[test]
fn short_entry_fields_are_read() {
    let slot = short_slot(b"README  ", b"TXT", 0x21, 0x0012_0034, 0x0001_0203);
    let entry = VFatRegularDirEntry::from_bytes(&slot);
    assert_eq!(&entry.name, b"README  ");
    assert_eq!(&entry.ext, b"TXT");
    assert_eq!(entry.attr.0, 0x21);
    assert_eq!(entry.win_nt_reserved, 0x18);
    assert_eq!(entry.ctime_tenth_sec, 0x64);
    assert_eq!(entry.ctime.0, 0x6000);
    assert_eq!(entry.cdate.0, 0x5021);
    assert_eq!(entry.adate.0, 0x5022);
    assert_eq!(entry.cluster_num_hi, 0x0012);
    assert_eq!(entry.mtime.0, 0x7000);
    assert_eq!(entry.mdate.0, 0x5023);
    assert_eq!(entry.cluster_num_lo, 0x0034);
    assert_eq!(entry.file_sz, 0x0001_0203);
    assert_eq!(entry.first_cluster(), Cluster::from(0x0012_0034));
}

#[test]
fn short_entry_metadata() {
    let slot = short_slot(b"README  ", b"TXT", 0x21, 5, 77);
    let metadata = VFatRegularDirEntry::from_bytes(&slot).metadata();
    assert_eq!(metadata.attr.0, 0x21);
    assert_eq!(metadata.ctime.time.0, 0x6000);
    assert_eq!(metadata.ctime.date.0, 0x5021);
    assert_eq!(metadata.atime.time.0, 0);
    assert_eq!(metadata.atime.date.0, 0x5022);
    assert_eq!(metadata.mtime.time.0, 0x7000);
    assert_eq!(metadata.mtime.date.0, 0x5023);
    assert_eq!(metadata.size, 77);
    assert_eq!(metadata.created().year(), 2020);
    assert_eq!(metadata.created().month(), 1);
    assert_eq!(metadata.created().day(), 1);
    assert_eq!(metadata.created().hour(), 12);
}

#[test]
fn short_name_is_trimmed_and_joined() {
    let with_ext = VFatRegularDirEntry::from_bytes(&short_slot(b"README  ", b"TXT", 0x20, 3, 1));
    assert_eq!(with_ext.short_name(), b"README.TXT".to_vec());
    let no_ext = VFatRegularDirEntry::from_bytes(&short_slot(b"KERNEL  ", b"   ", 0x20, 3, 1));
    assert_eq!(no_ext.short_name(), b"KERNEL".to_vec());
    let full = VFatRegularDirEntry::from_bytes(&short_slot(b"ABCDEFGH", b"IJK", 0x20, 3, 1));
    assert_eq!(full.short_name(), b"ABCDEFGH.IJK".to_vec());
    let short_ext = VFatRegularDirEntry::from_bytes(&short_slot(b"A       ", b"B  ", 0x20, 3, 1));
    assert_eq!(short_ext.short_name(), b"A.B".to_vec());
}

#[test]
fn short_name_keeps_inner_spaces() {
    let inner = VFatRegularDirEntry::from_bytes(&short_slot(b"A B     ", b"C D", 0x20, 3, 1));
    assert_eq!(inner.short_name(), b"A B.C D".to_vec());
    let leading = VFatRegularDirEntry::from_bytes(&short_slot(b"  X     ", b" Y ", 0x20, 3, 1));
    assert_eq!(leading.short_name(), b"  X. Y".to_vec());
}

#[test]
fn short_name_of_spaces_only() {
    let blank = VFatRegularDirEntry::from_bytes(&short_slot(b"        ", b"   ", 0x20, 3, 1));
    assert_eq!(blank.short_name(), Vec::<u8>::new());
    let only_ext = VFatRegularDirEntry::from_bytes(&short_slot(b"        ", b"TXT", 0x20, 3, 1));
    assert_eq!(only_ext.short_name(), b".TXT".to_vec());
}

#[test]
fn short_name_never_ends_in_a_space() {
    let cases: [(&[u8; 8], &[u8; 3]); 5] =
        [(b"A       ", b"   "), (b"AB  CD  ", b"E  "), (b"        ", b"  Z"), (b"NAME    ", b"X Y"), (b"ABCDEFGH", b"IJK")];
    for (name, ext) in cases.iter() {
        let bytes = VFatRegularDirEntry::from_bytes(&short_slot(name, ext, 0x20, 3, 1)).short_name();
        assert_ne!(bytes.last(), Some(&0x20u8));
    }
}

#[test]
fn short_entry_becomes_a_file() {
    let record = VFatRegularDirEntry::from_bytes(&short_slot(b"README  ", b"TXT", 0x20, 0x0001_0002, 1234));
    match record.entry(String::from("readme.txt")) {
        Entry::File(file) => {
            assert_eq!(file.name(), "readme.txt");
            assert_eq!(file.first_cluster(), Cluster::from(0x0001_0002));
            assert_eq!(file.size(), 1234);
            assert_eq!(file.position(), 0);
            assert_eq!(file.metadata().size, 1234);
            assert_eq!(file.metadata().attr.0, 0x20);
        },
        Entry::Dir(_) => panic!("a file was read as a directory"),
    }
}

#[test]
fn short_entry_becomes_a_directory() {
    let record = VFatRegularDirEntry::from_bytes(&short_slot(b"BIN     ", b"   ", 0x10, 9, 4096));
    match record.entry(String::from("bin")) {
        Entry::Dir(dir) => {
            assert_eq!(dir.name(), "bin");
            assert_eq!(dir.first_cluster, Cluster::from(9));
            assert_eq!(dir.metadata().size, 0);
            assert_eq!(dir.metadata().attr.0, 0x10);
            assert_eq!(dir.metadata().mtime.date.0, 0x5023);
        },
        Entry::File(_) => panic!("a directory was read as a file"),
    }
}

#[test]
fn long_name_slot_fields_are_read() {
    let units = [1u16, 2, 3, 4, 5, 6, 7, 8, 9, 10, 11, 12, 13];
    let slot = lfn_slot(0x43, &units);
    let entry = VFatLfnDirEntry::from_bytes(&slot);
    assert_eq!(entry.seq, 0x43);
    assert_eq!(entry.chars1, [1, 2, 3, 4, 5]);
    assert_eq!(entry.attr.0, 0x0F);
    assert_eq!(entry.lfn_type, 0);
    assert_eq!(entry.checksum, 0x5A);
    assert_eq!(entry.chars2, [6, 7, 8, 9, 10, 11]);
    assert_eq!(entry.zero, 0);
    assert_eq!(entry.chars3, [12, 13]);
    assert_eq!(entry.index(), 3);
}

#[test]
fn long_name_slot_is_stored_at_its_place() {
    let units = [101u16, 102, 103, 104, 105, 106, 107, 108, 109, 110, 111, 112, 113];
    let mut buffer = vec![7u16; 403];
    VFatLfnDirEntry::from_bytes(&lfn_slot(0x02, &units)).store(&mut buffer);
    assert_eq!(buffer.len(), 403);
    assert_eq!(&buffer[13..26], &units[..]);
    assert!(buffer[..13].iter().all(|&unit| unit == 7));
    assert!(buffer[26..].iter().all(|&unit| unit == 7));
    VFatLfnDirEntry::from_bytes(&lfn_slot(0x5F, &units)).store(&mut buffer);
    assert_eq!(&buffer[390..403], &units[..]);
}

#[test]
fn long_name_slot_without_a_place_changes_nothing() {
    let units = [9u16; 13];
    let mut buffer = vec![7u16; 403];
    let entry = VFatLfnDirEntry::from_bytes(&lfn_slot(0x40, &units));
    assert_eq!(entry.index(), 0);
    entry.store(&mut buffer);
    assert!(buffer.iter().all(|&unit| unit == 7));
}

#[test]
fn long_name_ends_at_the_first_terminator() {
    assert_eq!(long_name_len(&[0x61, 0x62, 0x0000, 0x63]), 2);
    assert_eq!(long_name_len(&[0x61, 0xFFFF, 0x0000]), 1);
    assert_eq!(long_name_len(&[0x61, 0x62, 0x63]), 3);
    assert_eq!(long_name_len(&[0x0000]), 0);
    assert_eq!(long_name_len(&[]), 0);
}

#[test]
fn unknown_view_reads_first_byte_and_attributes() {
    let slot = short_slot(b"\xE5EADME  ", b"TXT", 0x20, 3, 1);
    let entry = VFatUnknownDirEntry::from_bytes(&slot);
    assert_eq!(entry.seq, 0xE5);
    assert_eq!(entry.attr.0, 0x20);
    assert_eq!(&entry.reserved1[..], &slot[1..11]);
    assert_eq!(&entry.reserved2[..], &slot[12..32]);
}

#[test]
fn slots_are_read_by_their_kind() {
    assert!(matches!(VFatDirEntry::from_bytes(&vec![0u8; 32]), VFatDirEntry::Unknown(_)));
    let deleted = lfn_slot(0xE5, &[0x41u16; 13]);
    assert!(matches!(VFatDirEntry::from_bytes(&deleted), VFatDirEntry::Unknown(_)));
    let long = lfn_slot(0x41, &[0x41u16; 13]);
    assert!(matches!(VFatDirEntry::from_bytes(&long), VFatDirEntry::LongFilename(_)));
    let short = short_slot(b"A       ", b"   ", 0x20, 3, 1);
    assert!(matches!(VFatDirEntry::from_bytes(&short), VFatDirEntry::Regular(_)));
    let almost = short_slot(b"A       ", b"   ", 0x1F, 3, 1);
    assert!(matches!(VFatDirEntry::from_bytes(&almost), VFatDirEntry::Regular(_)));
}

#[test]
fn lfn_reassembly() {
    let mut slots = lfn_slots("hello-world.txt");
    assert_eq!(slots.len(), 2);
    assert_eq!(slots[0][0], 0x42);
    assert_eq!(slots[1][0], 0x01);
    slots.push(short_slot(b"HELLO~1 ", b"TXT", 0x20, 3, 10));
    slots.push(vec![0u8; 32]);
    let mut iter = VFatDirEntryIter::new(directory(&slots));
    let entry = iter.next().unwrap();
    assert_eq!(entry.name(), "hello-world.txt");
    assert!(entry.as_file().is_some());
    assert!(iter.next().is_none());
}

#[test]
fn lfn_decoding_is_order_independent() {
    let ordered = lfn_slots("a-rather-long-file-name-that-needs-three-slots.txt");
    assert_eq!(ordered.len(), 4);
    let short = short_slot(b"ARATHE~1", b"TXT", 0x20, 3, 10);
    let orders: [[usize; 4]; 4] = [[0, 1, 2, 3], [3, 2, 1, 0], [1, 3, 0, 2], [2, 0, 3, 1]];
    for order in orders.iter() {
        let mut slots: Vec<Vec<u8>> = order.iter().map(|&i| ordered[i].clone()).collect();
        slots.push(short.clone());
        assert_eq!(names(directory(&slots)), vec!["a-rather-long-file-name-that-needs-three-slots.txt"]);
    }
}

#[test]
fn lfn_slot_of_the_same_place_overwrites() {
    let first = lfn_slots("first");
    let second = lfn_slots("second");
    let short = short_slot(b"SHORT   ", b"   ", 0x20, 3, 10);
    let slots = vec![first[0].clone(), second[0].clone(), short];
    assert_eq!(names(directory(&slots)), vec!["second"]);
}

#[test]
fn long_name_of_a_full_slot_has_no_terminator() {
    let mut slots = lfn_slots("thirteen-char");
    assert_eq!(slots.len(), 1);
    slots.push(short_slot(b"THIRTE~1", b"   ", 0x20, 3, 10));
    assert_eq!(names(directory(&slots)), vec!["thirteen-char"]);
}

#[test]
fn long_name_outside_ascii() {
    let mut slots = lfn_slots("r\u{e9}sum\u{e9} \u{1F600}.txt");
    slots.push(short_slot(b"RSUM~1  ", b"TXT", 0x20, 3, 10));
    assert_eq!(names(directory(&slots)), vec!["r\u{e9}sum\u{e9} \u{1F600}.txt"]);
}

#[test]
fn entry_with_invalid_long_name_is_passed_over() {
    let mut broken = [0xFFFFu16; 13];
    broken[0] = 0xD800;
    broken[1] = 0x0041;
    broken[2] = 0x0000;
    let slots = vec![
        lfn_slot(0x41, &broken),
        short_slot(b"BROKEN  ", b"   ", 0x20, 3, 10),
        short_slot(b"GOOD    ", b"TXT", 0x20, 4, 10),
    ];
    assert_eq!(names(directory(&slots)), vec!["GOOD.TXT"]);
}

#[test]
fn entry_with_invalid_short_name_is_passed_over() {
    let slots = vec![
        short_slot(b"BAD\xFF    ", b"   ", 0x20, 3, 10),
        short_slot(b"GOOD    ", b"TXT", 0x20, 4, 10),
    ];
    assert_eq!(names(directory(&slots)), vec!["GOOD.TXT"]);
}

#[test]
fn short_name_in_utf8_is_decoded() {
    let slots = vec![short_slot(b"CAF\xC3\xA9   ", b"   ", 0x20, 3, 10)];
    assert_eq!(names(directory(&slots)), vec!["CAF\u{e9}"]);
}

#[test]
fn deleted_slots_are_skipped_and_zero_ends_the_directory() {
    let slots = vec![
        short_slot(b"ONE     ", b"   ", 0x20, 3, 10),
        short_slot(b"\xE5WO     ", b"   ", 0x20, 4, 10),
        short_slot(b"THREE   ", b"   ", 0x10, 5, 0),
        vec![0u8; 32],
        short_slot(b"FOUR    ", b"   ", 0x20, 6, 10),
    ];
    let mut iter = VFatDirEntryIter::new(directory(&slots));
    let one = iter.next().unwrap();
    assert_eq!(one.name(), "ONE");
    assert!(one.as_file().is_some() && one.as_dir().is_none());
    let three = iter.next().unwrap();
    assert_eq!(three.name(), "THREE");
    assert!(three.as_dir().is_some() && three.as_file().is_none());
    assert!(iter.next().is_none());
    assert!(iter.next().is_none());
}

#[test]
fn deleted_slot_keeps_the_long_name_before_it() {
    let mut slots = lfn_slots("kept-name.txt");
    slots.push(short_slot(b"\xE5ONE    ", b"   ", 0x20, 4, 10));
    slots.push(short_slot(b"KEPT-N~1", b"TXT", 0x20, 3, 10));
    assert_eq!(names(directory(&slots)), vec!["kept-name.txt"]);
}

#[test]
fn long_name_belongs_to_one_entry_only() {
    let mut slots = lfn_slots("long-name.txt");
    slots.push(short_slot(b"LONG-N~1", b"TXT", 0x20, 3, 10));
    slots.push(short_slot(b"NEXT    ", b"BIN", 0x20, 4, 10));
    assert_eq!(names(directory(&slots)), vec!["long-name.txt", "NEXT.BIN"]);
}

#[test]
fn directory_ends_with_its_last_whole_slot() {
    let mut bytes = directory(&[short_slot(b"ONLY    ", b"   ", 0x20, 3, 10)]);
    bytes.extend_from_slice(&[0x41u8; 20]);
    assert_eq!(names(bytes), vec!["ONLY"]);
    assert_eq!(names(Vec::new()), Vec::<String>::new());
}

#[test]
fn entry_accessors() {
    let file = VFatRegularDirEntry::from_bytes(&short_slot(b"F       ", b"   ", 0x20, 3, 10)).entry(String::from("f"));
    assert_eq!(file.name(), "f");
    assert_eq!(file.metadata().size, 10);
    assert!(file.as_dir().is_none());
    assert_eq!(file.into_file().unwrap().size(), 10);
    let dir = VFatRegularDirEntry::from_bytes(&short_slot(b"D       ", b"   ", 0x10, 4, 0)).entry(String::from("d"));
    assert_eq!(dir.name(), "d");
    assert!(dir.as_file().is_none());
    assert_eq!(dir.into_dir().unwrap().first_cluster, Cluster::from(4));
    let other = VFatRegularDirEntry::from_bytes(&short_slot(b"D       ", b"   ", 0x10, 4, 0)).entry(String::from("d"));
    assert!(other.into_file().is_none());
}

#[test]
fn names_are_compared_without_ascii_case() {
    assert!(eq_ignore_ascii_case(b"Hello.TXT", b"hELLO.txt"));
    assert!(eq_ignore_ascii_case(b"", b""));
    assert!(!eq_ignore_ascii_case(b"hello", b"hello "));
    assert!(!eq_ignore_ascii_case(b"hello", b"hellp"));
    assert!(!eq_ignore_ascii_case(b"@", b"`"));
    assert!(!eq_ignore_ascii_case(b"[", b"{"));
    assert!(eq_ignore_ascii_case("\u{e9}A".as_bytes(), "\u{e9}a".as_bytes()));
    assert!(!eq_ignore_ascii_case("\u{c9}".as_bytes(), "\u{e9}".as_bytes()));
    assert_eq!(to_ascii_lower(b'A'), b'a');
    assert_eq!(to_ascii_lower(b'Z'), b'z');
    assert_eq!(to_ascii_lower(b'a'), b'a');
    assert_eq!(to_ascii_lower(b'@'), b'@');
    assert_eq!(to_ascii_lower(b'['), b'[');
    assert_eq!(to_ascii_lower(0xC9), 0xC9);
}

#[test]
fn lone_surrogates_of_every_kind_give_no_entry() {
    let good = short_slot(b"GOOD    ", b"TXT", 0x20, 4, 10);
    let cases: [[u16; 3]; 4] =
        [[0xDC00, 0x0041, 0x0000], [0x0041, 0xDBFF, 0x0000], [0xD800, 0xD800, 0xDC00], [0x0041, 0xDFFF, 0x0042]];
    for case in cases.iter() {
        let mut units = [0xFFFFu16; 13];
        units[..3].copy_from_slice(case);
        if case[2] != 0x0000 {
            units[3] = 0x0000;
        }
        let slots = vec![lfn_slot(0x41, &units), short_slot(b"BROKEN  ", b"   ", 0x20, 3, 10), good.clone()];
        assert_eq!(names(directory(&slots)), vec!["GOOD.TXT"]);
    }
}

#[test]
fn surrogate_pairs_spell_one_character() {
    let mut units = [0xFFFFu16; 13];
    units[0] = 0xD83D;
    units[1] = 0xDE00;
    units[2] = 0xD800;
    units[3] = 0xDC00;
    units[4] = 0xDBFF;
    units[5] = 0xDFFF;
    units[6] = 0xD7FF;
    units[7] = 0xE000;
    units[8] = 0x0000;
    let slots = vec![lfn_slot(0x41, &units), short_slot(b"PAIRS   ", b"   ", 0x20, 3, 10)];
    assert_eq!(names(directory(&slots)), vec!["\u{1F600}\u{10000}\u{10FFFF}\u{D7FF}\u{E000}"]);
}
