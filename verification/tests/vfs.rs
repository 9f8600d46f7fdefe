use lazysql::crypto::keys::KeyScope;
use lazysql::crypto::page::{decrypt_page, encrypt_page, is_encrypted_page};
use lazysql::io::FileContext;
use lazysql::keyring::Keyring;
use lazysql::kms::local::DeviceKeyProvider;
use lazysql::vfs::{
    build_first_page, context_for_open, covers_whole_page, full_page_read, full_page_write,
    is_full_page, needs_first_page, page_no_for_offset, page_start_offset, plan, read_segment,
    reserve_bytes, try_reserve_page1, write_segment, FirstPage, Segment, VfsError, OPEN_CREATE,
    OPEN_MAIN_DB,
};
use std::collections::HashMap;

fn keyring() -> Keyring<DeviceKeyProvider> {
    Keyring::new(DeviceKeyProvider::from_keyfile("k", Some(vec![0x77; 32])))
}

fn context() -> FileContext {
    context_for_open(OPEN_MAIN_DB | OPEN_CREATE | 0x2, 512, 32)
}

#[test]
fn test_page_number_calculation() {
    // Test the page number calculation: (i_ofst / page_size) + 1
    let page_size = 4096i64;

    let cases = vec![
        (0, 1),        // First page
        (4096, 2),     // Second page
        (8192, 3),     // Third page
        (409600, 101), // 100th offset -> 101st page
    ];

    for (offset, expected_page) in cases {
        let page_no = page_no_for_offset(offset, page_size);
        assert_eq!(page_no, expected_page);
    }
}

#[test]
fn test_page_alignment_check() {
    let page_size = 4096u32;

    // Aligned offsets
    assert!(is_full_page(4096, 0, page_size));
    assert!(is_full_page(4096, 4096, page_size));
    assert!(is_full_page(4096, 8192, page_size));

    // Unaligned offsets
    assert!(!is_full_page(4096, 100, page_size));
    assert!(!is_full_page(4096, 4096 + 1, page_size));
}

#[test]
fn test_page_scope_map_initialization() {
    // Verify that FileContext can be created with None page_scope_map
    let ctx = context();
    assert!(ctx.page_scope_map.is_none());
    assert!(std::mem::size_of::<Option<HashMap<u32, KeyScope>>>() > 0);
}

#[test]
fn page_offsets() {
    assert_eq!(page_no_for_offset(4095, 4096), 1);
    assert_eq!(page_no_for_offset(511, 512), 1);
    assert_eq!(page_no_for_offset(512, 512), 2);
    assert_eq!(page_start_offset(1, 4096), 0);
    assert_eq!(page_start_offset(3, 4096), 8192);
    assert_eq!(page_start_offset(u32::MAX, 65536), (u32::MAX as i64 - 1) * 65536);
    assert!(!is_full_page(512, 0, 4096));
    assert!(!is_full_page(0, 0, 0));
    assert!(!is_full_page(-1, 0, 4096));
    assert!(!is_full_page(4096, -4096, 4096));
}

#[test]
fn only_the_main_database_is_encrypted() {
    assert!(context_for_open(OPEN_MAIN_DB, 4096, 48).encrypt_enabled);
    assert!(!context_for_open(0x800 | OPEN_CREATE, 4096, 48).encrypt_enabled);
    assert!(!context_for_open(0x80000, 4096, 48).encrypt_enabled);
    assert!(needs_first_page(OPEN_MAIN_DB | OPEN_CREATE));
    assert!(!needs_first_page(OPEN_MAIN_DB));
    assert!(!needs_first_page(OPEN_CREATE | 0x800));
    let ctx = context_for_open(OPEN_MAIN_DB, 1024, 40);
    assert_eq!((ctx.page_size, ctx.reserve_size), (1024, 40));
    assert_eq!(reserve_bytes(&ctx), 40);
}

#[test]
fn first_page_of_a_fresh_database() {
    let page = build_first_page(4096, 48).unwrap();
    assert_eq!(page.len(), 4096);
    assert_eq!(&page[..16], b"SQLite format 3\0");
    assert_eq!(&page[16..24], &[0x10, 0x00, 1, 1, 48, 64, 32, 32]);
    assert_eq!(&page[24..32], &[0, 0, 0, 1, 0, 0, 0, 1]);
    assert_eq!(&page[32..40], &[0; 8]);
    assert_eq!(&page[40..48], &[0, 0, 0, 1, 0, 0, 0, 4]);
    assert_eq!(&page[48..56], &[0; 8]);
    assert_eq!(&page[56..60], &[0, 0, 0, 1]);
    assert_eq!(&page[60..92], &[0; 32]);
    assert_eq!(&page[92..100], &[0, 0, 0, 1, 0x00, 0x2e, 0x76, 0x89]);
    assert_eq!(u32::from_be_bytes([page[96], page[97], page[98], page[99]]), 3045001);
    assert_eq!(&page[100..108], &[0x0d, 0, 0, 0, 0, 0x0f, 0xd0, 0]);
    assert!(page[108..].iter().all(|&b| b == 0));

    let big = build_first_page(65536, 22).unwrap();
    assert_eq!(&big[16..18], &[0, 1]);
    assert_eq!(&big[105..107], &[0xff, 0xea]);
    assert_eq!(big[20], 22);
    let small = build_first_page(512, 255).unwrap();
    assert_eq!(&small[16..18], &[2, 0]);
    assert_eq!(&small[105..107], &[1, 1]);
}

#[test]
fn geometry_outside_the_limits_gives_no_first_page() {
    assert!(build_first_page(256, 48).is_none());
    assert!(build_first_page(131072, 48).is_none());
    assert!(build_first_page(4096, 21).is_none());
    assert!(build_first_page(4096, 256).is_none());
    assert!(build_first_page(4000, 48).is_none());
    assert!(build_first_page(1536, 48).is_none());
    assert!(build_first_page(512, 22).is_some());
    assert!(matches!(try_reserve_page1(None, 4096, 48), FirstPage::Fail));
    assert!(matches!(try_reserve_page1(Some(4096), 4096, 48), FirstPage::Keep));
    assert!(matches!(try_reserve_page1(Some(1), 100, 1), FirstPage::Keep));
    assert!(matches!(try_reserve_page1(Some(0), 4096, 16), FirstPage::Fail));
    match try_reserve_page1(Some(0), 4096, 48) {
        FirstPage::Write(page) => assert_eq!(page, build_first_page(4096, 48).unwrap()),
        _ => panic!("expected a page"),
    }
}

#[test]
fn plan_splits_a_request_by_pages() {
    let segs = plan(100, 1000, 512).unwrap();
    assert_eq!(
        segs,
        vec![
            Segment { page_no: 1, page_start: 0, in_page_off: 100, len: 412, buf_off: 0 },
            Segment { page_no: 2, page_start: 512, in_page_off: 0, len: 512, buf_off: 412 },
            Segment { page_no: 3, page_start: 1024, in_page_off: 0, len: 76, buf_off: 924 },
        ]
    );
    assert!(!covers_whole_page(&segs[0], 512));
    assert!(covers_whole_page(&segs[1], 512));
    assert!(!covers_whole_page(&segs[2], 512));
    assert_eq!(
        plan(24, 4, 4096).unwrap(),
        vec![Segment { page_no: 1, page_start: 0, in_page_off: 24, len: 4, buf_off: 0 }]
    );
    assert_eq!(
        plan(8192, 4096, 4096).unwrap(),
        vec![Segment { page_no: 3, page_start: 8192, in_page_off: 0, len: 4096, buf_off: 0 }]
    );
    assert_eq!(plan(1023, 2, 512).unwrap().len(), 2);
    assert_eq!(plan(0, i32::MAX, 65536).unwrap().len(), 32768);
    let total: usize = plan(777, 5000, 512).unwrap().iter().map(|s| s.len).sum();
    assert_eq!(total, 5000);
}

#[test]
fn requests_that_cannot_be_served_have_no_plan() {
    assert!(plan(0, 0, 512).is_none());
    assert!(plan(0, -5, 512).is_none());
    assert!(plan(-1, 10, 512).is_none());
    assert!(plan(0, 10, 0).is_none());
    assert!(plan(0, 10, 131072).is_none());
    assert!(plan(i64::MAX, 1, 512).is_none());
    assert!(plan(i64::MAX - 10, 11, 512).is_none());
    assert!(plan(512 * (u32::MAX as i64), 1, 512).is_none());
    assert!(plan(512 * (u32::MAX as i64) - 1, 1, 512).is_some());
}

#[test]
fn whole_page_write_then_read() {
    let ctx = context();
    let mut k = keyring();
    let plain = vec![0x5au8; 512];
    let written = full_page_write(&ctx, &mut k, &plain, 2).unwrap();
    assert_eq!(written.len(), 512);
    assert_ne!(&written[..480], &plain[..480]);
    assert!(is_encrypted_page(&written, 32));
    let mut buf = written.clone();
    full_page_read(&ctx, &mut k, &mut buf, 2).unwrap();
    assert_eq!(&buf[..480], &plain[..480]);
    assert_eq!(&buf[480..496], &[0u8; 16]);
    // A page read back under another number does not open.
    let mut wrong = written.clone();
    assert_eq!(full_page_read(&ctx, &mut k, &mut wrong, 3), Err(VfsError::Read));
    assert_eq!(wrong, written);
}

#[test]
fn the_first_page_stays_in_the_clear() {
    let ctx = context();
    let mut k = keyring();
    let mut first = build_first_page(512, 22).unwrap();
    first[200] = 0xee;
    let written = full_page_write(&ctx, &mut k, &first, 1).unwrap();
    let mut expected = first.clone();
    expected[20] = 32;
    assert_eq!(written, expected);
    assert_eq!(k.persisted().keys.len(), 0);
    let mut buf = written.clone();
    buf[500] = 1; // would look like a tag on another page
    let before = buf.clone();
    full_page_read(&ctx, &mut k, &mut buf, 1).unwrap();
    assert_eq!(buf, before);
}

#[test]
fn pages_without_a_tag_are_read_as_they_are() {
    let ctx = context();
    let mut k = keyring();
    let mut zero = vec![0u8; 512];
    full_page_read(&ctx, &mut k, &mut zero, 5).unwrap();
    assert_eq!(zero, vec![0u8; 512]);
    let mut plain = vec![3u8; 512];
    for b in plain[480..].iter_mut() {
        *b = 0;
    }
    let before = plain.clone();
    full_page_read(&ctx, &mut k, &mut plain, 5).unwrap();
    assert_eq!(plain, before);
    assert_eq!(k.persisted().keys.len(), 0);
}

#[test]
fn part_of_a_page_is_read_from_the_opened_page() {
    let ctx = context();
    let mut k = keyring();
    let mut plain: Vec<u8> = (0..512u32).map(|i| (i % 251) as u8).collect();
    for b in plain[480..].iter_mut() {
        *b = 0;
    }
    let sealed = full_page_write(&ctx, &mut k, &plain, 4).unwrap();
    let seg = Segment { page_no: 4, page_start: 1536, in_page_off: 10, len: 20, buf_off: 3 };
    let mut page = sealed.clone();
    let mut out = vec![0xffu8; 30];
    read_segment(&ctx, &mut k, &seg, &mut page, false, &mut out).unwrap();
    assert_eq!(&out[..3], &[0xff; 3]);
    assert_eq!(&out[3..23], &plain[10..30]);
    assert_eq!(&out[23..], &[0xff; 7]);

    // After a short read the bytes are handed out as they are.
    let mut page = sealed.clone();
    let mut out = vec![0u8; 30];
    read_segment(&ctx, &mut k, &seg, &mut page, true, &mut out).unwrap();
    assert_eq!(&out[3..23], &sealed[10..30]);

    // What does not fit is refused and the buffer left alone.
    let mut out = vec![7u8; 22];
    let mut page = sealed.clone();
    assert_eq!(read_segment(&ctx, &mut k, &seg, &mut page, false, &mut out), Err(VfsError::Read));
    assert_eq!(out, vec![7u8; 22]);
    let mut short = sealed[..100].to_vec();
    let mut out = vec![7u8; 30];
    assert_eq!(read_segment(&ctx, &mut k, &seg, &mut short, false, &mut out), Err(VfsError::Read));
    let mut tampered = sealed.clone();
    tampered[0] ^= 1;
    assert_eq!(
        read_segment(&ctx, &mut k, &seg, &mut tampered, false, &mut out),
        Err(VfsError::Read)
    );
    assert_eq!(out, vec![7u8; 30]);
}

#[test]
fn part_of_a_page_is_written_over_the_opened_page() {
    let ctx = context();
    let mut k = keyring();
    let plain = vec![0x11u8; 512];
    let sealed = full_page_write(&ctx, &mut k, &plain, 2).unwrap();
    let seg = Segment { page_no: 2, page_start: 512, in_page_off: 100, len: 4, buf_off: 2 };
    let input = [0u8, 0, 0xa, 0xb, 0xc, 0xd, 0];
    let mut page = sealed.clone();
    write_segment(&ctx, &mut k, &seg, &mut page, false, &input).unwrap();
    assert_ne!(page, sealed);
    let dek = k.dek_for(&KeyScope::Database).unwrap();
    decrypt_page(&mut page, 2, &dek, 32).unwrap();
    let mut expected = vec![0x11u8; 480];
    expected[100..104].copy_from_slice(&[0xa, 0xb, 0xc, 0xd]);
    assert_eq!(&page[..480], &expected[..]);

    // A part that covers the page does not look at what was there.
    let whole = Segment { page_no: 2, page_start: 512, in_page_off: 0, len: 512, buf_off: 0 };
    let mut page = vec![0xeeu8; 512];
    let input = vec![0x22u8; 512];
    write_segment(&ctx, &mut k, &whole, &mut page, false, &input).unwrap();
    let mut by_hand = input.clone();
    encrypt_page(&mut by_hand, 2, &dek, 32).unwrap();
    assert_eq!(page, by_hand);

    // The first page is patched in the clear and records the reserve.
    let first = Segment { page_no: 1, page_start: 0, in_page_off: 24, len: 4, buf_off: 0 };
    let mut page = build_first_page(512, 22).unwrap();
    write_segment(&ctx, &mut k, &first, &mut page, false, &[0, 0, 0, 9]).unwrap();
    let mut expected = build_first_page(512, 22).unwrap();
    expected[20] = 32;
    expected[27] = 9;
    assert_eq!(page, expected);

    // What cannot be opened, or does not fit, is a write failure.
    let mut tampered = sealed.clone();
    tampered[5] ^= 1;
    let before = tampered.clone();
    assert_eq!(
        write_segment(&ctx, &mut k, &seg, &mut tampered, false, &[0; 7]),
        Err(VfsError::Write)
    );
    assert_eq!(tampered, before);
    let mut page = sealed.clone();
    assert_eq!(write_segment(&ctx, &mut k, &seg, &mut page, false, &[0; 5]), Err(VfsError::Write));
    assert_eq!(page, sealed);
}

#[test]
fn a_write_across_pages_round_trips_through_a_file() {
    let ctx = context();
    let mut k = keyring();
    let mut file = vec![0u8; 512 * 4];
    first_write(&ctx, &mut k, &mut file);
    let data: Vec<u8> = (0..700u32).map(|i| (i % 200) as u8 + 1).collect();
    for seg in plan(600, 700, 512).unwrap() {
        let start = seg.page_start as usize;
        let mut page = file[start..start + 512].to_vec();
        write_segment(&ctx, &mut k, &seg, &mut page, false, &data).unwrap();
        file[start..start + 512].copy_from_slice(&page);
    }
    let mut out = vec![0u8; 700];
    for seg in plan(600, 700, 512).unwrap() {
        let start = seg.page_start as usize;
        let mut page = file[start..start + 512].to_vec();
        read_segment(&ctx, &mut k, &seg, &mut page, false, &mut out).unwrap();
    }
    // What lies where a page keeps its tag is not the engine's to write: it
    // reads back as zeros. Everything else reads back as it was written.
    let mut expected = data.clone();
    for (i, b) in expected.iter_mut().enumerate() {
        let in_page = (600 + i) % 512;
        if (480..496).contains(&in_page) {
            *b = 0;
        }
    }
    assert_eq!(out, expected);
    // On disk the bytes are not in the clear.
    assert_ne!(&file[600..700], &data[..100]);
}

fn first_write(ctx: &FileContext, k: &mut Keyring<DeviceKeyProvider>, file: &mut Vec<u8>) {
    for page_no in 2..=4u32 {
        let start = (page_no as usize - 1) * 512;
        let page = full_page_write(ctx, k, &vec![0u8; 512], page_no).unwrap();
        file[start..start + 512].copy_from_slice(&page);
    }
}
