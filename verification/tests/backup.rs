use lazysql::backup::{
    assemble_backup, check_pages, create_backup, is_plaintext_header, read_header,
    recrypt_pages, restore_backup, rotate_backup_kek, verify_backup, VerifyResult,
};
use lazysql::crypto::keys::{Dek, KeyScope};
use lazysql::crypto::page::{decrypt_page, encrypt_page};
use lazysql::error::{EvfsError, KmsError};
use lazysql::keyring::Keyring;
use lazysql::kms::local::DeviceKeyProvider;

fn test_provider(key: [u8; 32]) -> DeviceKeyProvider {
    DeviceKeyProvider::from_keyfile("test-key.bin", Some(key.to_vec()))
}

fn sealed_database(
    keyring: &mut Keyring<DeviceKeyProvider>,
    page_count: usize,
    page_size: usize,
    reserve: usize,
    fill: impl Fn(usize) -> u8,
) -> Vec<u8> {
    let dek = keyring.dek_for(&KeyScope::Database).unwrap();
    let mut db = Vec::new();
    for i in 0..page_count {
        let mut page = vec![0u8; page_size];
        for b in page.iter_mut().take(page_size - reserve) {
            *b = fill(i);
        }
        encrypt_page(&mut page, i as u32 + 1, &dek, reserve).unwrap();
        db.extend_from_slice(&page);
    }
    db
}

#[test]
fn backup_round_trip() {
    let page_size: u32 = 4096;
    let reserve: usize = 32;
    let page_count = 4;

    // Create a fake encrypted database.
    let mut src_keyring = Keyring::new(test_provider([0xAA; 32]));
    let db_bytes = sealed_database(
        &mut src_keyring,
        page_count,
        page_size as usize,
        reserve,
        |i| (i as u8).wrapping_add(1),
    );

    // Create backup.
    let backup_provider = test_provider([0xBB; 32]);
    let backup_buf =
        create_backup(&db_bytes, &mut src_keyring, &backup_provider, page_size, reserve).unwrap();

    // Verify backup.
    let verify = verify_backup(&backup_buf, &backup_provider).unwrap();
    assert!(verify.is_ok());
    assert_eq!(verify.page_count, page_count as u32);

    // Restore backup to a new DB with a different key.
    let mut tgt_keyring = Keyring::new(test_provider([0xCC; 32]));
    let restored_bytes = restore_backup(&backup_buf, &backup_provider, &mut tgt_keyring).unwrap();

    // Verify restored DB decrypts correctly.
    let tgt_dek = tgt_keyring.dek_for(&KeyScope::Database).unwrap();

    for i in 0..page_count {
        let offset = i * page_size as usize;
        let mut page = restored_bytes[offset..offset + page_size as usize].to_vec();
        let page_no = i as u32 + 1;
        decrypt_page(&mut page, page_no, &tgt_dek, reserve).unwrap();
        let expected = (i as u8).wrapping_add(1);
        assert!(
            page[..page_size as usize - reserve].iter().all(|&b| b == expected),
            "page {page_no} content mismatch after restore"
        );
    }
}

#[test]
fn kek_rotation_preserves_data() {
    let page_size: u32 = 4096;
    let reserve: usize = 32;

    let mut src_keyring = Keyring::new(test_provider([0x11; 32]));
    let src_dek = src_keyring.dek_for(&KeyScope::Database).unwrap();

    let mut db_bytes = vec![0x42u8; page_size as usize];
    encrypt_page(&mut db_bytes, 1, &src_dek, reserve).unwrap();

    let old_kms = test_provider([0x22; 32]);
    let new_kms = test_provider([0x33; 32]);

    // Create backup with old KEK.
    let backup =
        create_backup(&db_bytes, &mut src_keyring, &old_kms, page_size, reserve).unwrap();

    // Rotate the backup KEK.
    let data = rotate_backup_kek(&backup, &old_kms, &new_kms).unwrap();

    // Verify with new KEK succeeds.
    let result = verify_backup(&data, &new_kms).unwrap();
    assert!(result.is_ok());

    // Verify with old KEK fails.
    let result = verify_backup(&data, &old_kms);
    assert!(result.is_err());
}

#[test]
fn backup_round_trip_with_key_change() {
    let page_size = 4096usize;
    let reserve = 48usize;
    let mut source = Keyring::new(test_provider([0x11; 32]));
    let db = sealed_database(&mut source, 4, page_size, reserve, |i| 0x41 + i as u8);
    let backup_kms = test_provider([0x22; 32]);
    let backup = create_backup(&db, &mut source, &backup_kms, 4096, reserve).unwrap();
    assert_eq!(&backup[..8], b"EVFSBKUP");
    let (header, start) = read_header(&backup).unwrap();
    assert_eq!(header.version, 1);
    assert_eq!(header.page_size, 4096);
    assert_eq!(header.page_count, 4);
    assert_eq!(header.reserve_size, 48);
    assert_eq!(header.wrapped_dek.kek_id.0, "device:file:test-key.bin");
    let header_len = u32::from_le_bytes([backup[8], backup[9], backup[10], backup[11]]) as usize;
    assert_eq!(start, 12 + header_len);
    assert_eq!(backup.len(), start + 4 * page_size);
    assert_eq!(
        verify_backup(&backup, &backup_kms),
        Ok(VerifyResult { page_count: 4, pages_ok: 4, pages_bad: 0 })
    );

    let mut target = Keyring::new(test_provider([0x33; 32]));
    let restored = restore_backup(&backup, &backup_kms, &mut target).unwrap();
    assert_eq!(restored.len(), 4 * page_size);
    let tdek = target.dek_for(&KeyScope::Database).unwrap();
    for i in 0..4 {
        let mut page = restored[i * page_size..(i + 1) * page_size].to_vec();
        decrypt_page(&mut page, i as u32 + 1, &tdek, reserve).unwrap();
        assert!(page[..page_size - reserve].iter().all(|&b| b == 0x41 + i as u8));
    }

    // Rotation rewrites the header alone.
    let new_kms = test_provider([0x44; 32]);
    let rotated = rotate_backup_kek(&backup, &backup_kms, &new_kms).unwrap();
    let (rotated_header, rotated_start) = read_header(&rotated).unwrap();
    assert_eq!(&rotated[rotated_start..], &backup[start..]);
    assert_eq!(rotated_header.page_count, 4);
    assert_eq!(rotated_header.reserve_size, 48);
    assert_eq!(verify_backup(&rotated, &new_kms).unwrap().pages_ok, 4);
    assert_eq!(verify_backup(&rotated, &backup_kms).err(), Some(EvfsError::AuthFailure));
    assert_eq!(
        rotate_backup_kek(&backup, &new_kms, &backup_kms).err(),
        Some(EvfsError::AuthFailure)
    );
}

#[test]
fn plaintext_first_page_is_kept_as_it_is() {
    let mut first = vec![0u8; 512];
    first[..16].copy_from_slice(b"SQLite format 3\0");
    first[100] = 0x0d;
    assert!(is_plaintext_header(&first));
    assert!(!is_plaintext_header(&first[..15]));
    assert!(!is_plaintext_header(&[0u8; 512]));

    let mut source = Keyring::new(test_provider([0x11; 32]));
    let backup_kms = test_provider([0x22; 32]);
    let backup = create_backup(&first, &mut source, &backup_kms, 512, 32).unwrap();
    // The source's key was not needed.
    assert_eq!(source.persisted().keys.len(), 0);
    assert_eq!(verify_backup(&backup, &backup_kms).unwrap().pages_ok, 1);

    let mut target = Keyring::new(test_provider([0x33; 32]));
    let restored = restore_backup(&backup, &backup_kms, &mut target).unwrap();
    let mut page = restored;
    let tdek = target.dek_for(&KeyScope::Database).unwrap();
    decrypt_page(&mut page, 1, &tdek, 32).unwrap();
    assert_eq!(&page[..480], &first[..480]);
}

#[test]
fn geometry_that_does_not_fit_is_refused() {
    let mut source = Keyring::new(test_provider([0x11; 32]));
    let kms = test_provider([0x22; 32]);
    assert_eq!(
        create_backup(&[0u8; 1000], &mut source, &kms, 512, 32).err(),
        Some(EvfsError::BadPageSize)
    );
    assert_eq!(
        create_backup(&[0u8; 1024], &mut source, &kms, 0, 32).err(),
        Some(EvfsError::BadPageSize)
    );
    assert_eq!(source.persisted().keys.len(), 0);
    // An empty database is a backup without pages.
    let empty = create_backup(&[], &mut source, &kms, 512, 32).unwrap();
    assert_eq!(
        verify_backup(&empty, &kms),
        Ok(VerifyResult { page_count: 0, pages_ok: 0, pages_bad: 0 })
    );
    // Pages that are not sealed under the source's key cannot be backed up.
    assert_eq!(
        create_backup(&[1u8; 1024], &mut source, &kms, 512, 32).err(),
        Some(EvfsError::AuthFailure)
    );
}

#[test]
fn what_is_wrong_with_a_backup_front() {
    let mut source = Keyring::new(test_provider([0x11; 32]));
    let kms = test_provider([0x22; 32]);
    let db = sealed_database(&mut source, 2, 512, 32, |_| 9);
    let backup = create_backup(&db, &mut source, &kms, 512, 32).unwrap();
    let (_, start) = read_header(&backup).unwrap();

    assert_eq!(read_header(&backup[..7]).err(), Some(EvfsError::TruncatedBackup));
    assert_eq!(read_header(&backup[..10]).err(), Some(EvfsError::TruncatedBackup));
    assert_eq!(read_header(&backup[..start - 1]).err(), Some(EvfsError::TruncatedBackup));
    let mut bad = backup.clone();
    bad[0] = b'X';
    assert_eq!(read_header(&bad).err(), Some(EvfsError::BadMagic));
    assert_eq!(verify_backup(&bad, &kms).err(), Some(EvfsError::BadMagic));
    let mut large = backup.clone();
    large[8..12].copy_from_slice(&(0x10_0001u32).to_le_bytes());
    assert_eq!(read_header(&large).err(), Some(EvfsError::HeaderTooLarge));
    let mut limit = backup.clone();
    limit[8..12].copy_from_slice(&(0x10_0000u32).to_le_bytes());
    assert_eq!(read_header(&limit).err(), Some(EvfsError::TruncatedBackup));
    let mut version = backup.clone();
    version[12] = 2;
    assert_eq!(read_header(&version).err(), Some(EvfsError::UnsupportedVersion));
    let mut target = Keyring::new(test_provider([0x33; 32]));
    assert_eq!(
        restore_backup(&version, &kms, &mut target).err(),
        Some(EvfsError::UnsupportedVersion)
    );
    assert_eq!(target.persisted().keys.len(), 0);
    let mut garbled = backup[..12].to_vec();
    garbled[8..12].copy_from_slice(&3u32.to_le_bytes());
    garbled.extend_from_slice(&[1, 0, 0]);
    assert_eq!(read_header(&garbled).err(), Some(EvfsError::BadHeader));

    assert_eq!(
        verify_backup(&backup[..backup.len() - 1], &kms).err(),
        Some(EvfsError::TruncatedBackup)
    );
    assert_eq!(
        restore_backup(&backup[..backup.len() - 1], &kms, &mut target).err(),
        Some(EvfsError::TruncatedBackup)
    );
    let unknown = DeviceKeyProvider::from_keyfile("elsewhere", Some(vec![0x22; 32]));
    assert_eq!(
        verify_backup(&backup, &unknown).err(),
        Some(EvfsError::Provider(KmsError::UnknownKekId))
    );
}

#[test]
fn verify_counts_the_pages_that_fail() {
    let mut source = Keyring::new(test_provider([0x11; 32]));
    let kms = test_provider([0x22; 32]);
    let db = sealed_database(&mut source, 3, 512, 32, |i| i as u8);
    let mut backup = create_backup(&db, &mut source, &kms, 512, 32).unwrap();
    let (_, start) = read_header(&backup).unwrap();
    backup[start + 512 + 7] ^= 1;
    let found = verify_backup(&backup, &kms).unwrap();
    assert_eq!(found, VerifyResult { page_count: 3, pages_ok: 2, pages_bad: 1 });
    assert!(!found.is_ok());
    let mut target = Keyring::new(test_provider([0x33; 32]));
    assert_eq!(restore_backup(&backup, &kms, &mut target).err(), Some(EvfsError::AuthFailure));
}

#[test]
fn pages_are_recrypted_one_by_one() {
    let a = Dek::from_bytes([1; 32]);
    let b = Dek::from_bytes([2; 32]);
    let mut data = Vec::new();
    for i in 0..3u8 {
        let mut page = vec![i; 64];
        encrypt_page(&mut page, i as u32 + 1, &a, 16).unwrap();
        data.extend_from_slice(&page);
    }
    let out = recrypt_pages(&data, 0, 64, 3, Some(&a), &b, 16, false).unwrap();
    assert_eq!(out.len(), 192);
    for i in 0..3usize {
        let mut page = out[i * 64..(i + 1) * 64].to_vec();
        decrypt_page(&mut page, i as u32 + 1, &b, 16).unwrap();
        assert_eq!(&page[..48], &vec![i as u8; 48][..]);
    }
    assert_eq!(
        recrypt_pages(&data, 0, 64, 4, Some(&a), &b, 16, false).err(),
        Some(EvfsError::TruncatedBackup)
    );
    assert_eq!(
        recrypt_pages(&data, 0, 64, 3, Some(&b), &a, 16, false).err(),
        Some(EvfsError::AuthFailure)
    );
    assert_eq!(
        recrypt_pages(&data, 0, 64, 3, Some(&a), &b, 15, false).err(),
        Some(EvfsError::Crypto)
    );
    assert_eq!(recrypt_pages(&data, 64, 64, 0, None, &b, 16, true).unwrap(), Vec::<u8>::new());
    assert_eq!(
        check_pages(&data, 64, 64, 2, &a, 16),
        Ok(VerifyResult { page_count: 2, pages_ok: 0, pages_bad: 2 })
    );
    assert_eq!(
        check_pages(&data, 0, 64, 3, &a, 16),
        Ok(VerifyResult { page_count: 3, pages_ok: 3, pages_bad: 0 })
    );
    assert_eq!(check_pages(&data, 1, 64, 3, &a, 16), Err(EvfsError::TruncatedBackup));
}

#[test]
fn assembling_frames_header_and_pages() {
    let out = assemble_backup(&[9, 8, 7], &[1, 2]).unwrap();
    assert_eq!(out, b"EVFSBKUP\x03\x00\x00\x00\x09\x08\x07\x01\x02".to_vec());
    let big = vec![0u8; 0x10_0001];
    assert_eq!(assemble_backup(&big, &[]).err(), Some(EvfsError::HeaderTooLarge));
}
