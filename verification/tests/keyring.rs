use std::collections::HashMap;

use lazysql::crypto::envelope::{open_dek, seal_dek, unwrap_dek, wrap_dek};
use lazysql::crypto::keys::{Dek, KekId, KeyScope};
use lazysql::error::{EvfsError, KmsError};
use lazysql::io::FileContext;
use lazysql::keyring::{sidecar_path_for, Keyring, PersistedKeyring};
use lazysql::kms::local::DeviceKeyProvider;
use lazysql::kms::KmsProvider;
use lazysql::table::StrTable;

fn provider(byte: u8) -> DeviceKeyProvider {
    DeviceKeyProvider::from_keyfile("key.bin", Some(vec![byte; 32]))
}

#[test]
fn wrap_then_unwrap_recovers_the_key() {
    let p = provider(0x11);
    let dek = Dek::from_bytes([0x5a; 32]);
    let wrapped = wrap_dek(&dek, &p).unwrap();
    assert_eq!(wrapped.ciphertext.len(), 48);
    assert_eq!(wrapped.kek_id.0, "device:file:key.bin");
    let back = unwrap_dek(&wrapped, &p).unwrap();
    assert_eq!(back.as_bytes(), dek.as_bytes());
}

#[test]
fn unwrap_with_another_key_is_an_auth_failure() {
    let dek = Dek::from_bytes([0x5a; 32]);
    let wrapped = wrap_dek(&dek, &provider(0x11)).unwrap();
    assert_eq!(unwrap_dek(&wrapped, &provider(0x12)).err(), Some(EvfsError::AuthFailure));
    let mut tampered = wrapped.clone();
    tampered.ciphertext[0] ^= 0x80;
    assert_eq!(unwrap_dek(&tampered, &provider(0x11)).err(), Some(EvfsError::AuthFailure));
}

#[test]
fn unwrap_with_an_unknown_key_id_is_a_provider_error() {
    let dek = Dek::from_bytes([0x5a; 32]);
    let wrapped = wrap_dek(&dek, &provider(0x11)).unwrap();
    let other = DeviceKeyProvider::from_keyfile("other.bin", Some(vec![0x11; 32]));
    assert_eq!(
        unwrap_dek(&wrapped, &other).err(),
        Some(EvfsError::Provider(KmsError::UnknownKekId))
    );
}

#[test]
fn seal_and_open_with_given_key_and_nonce() {
    let dek = Dek::from_bytes([7; 32]);
    let kek = vec![9u8; 32];
    let a = seal_dek(&dek, KekId("k".to_string()), &kek, [1; 12]).unwrap();
    let b = seal_dek(&dek, KekId("k".to_string()), &kek, [1; 12]).unwrap();
    let c = seal_dek(&dek, KekId("k".to_string()), &kek, [2; 12]).unwrap();
    assert_eq!(a.ciphertext, b.ciphertext);
    assert_ne!(a.ciphertext, c.ciphertext);
    assert_ne!(&a.ciphertext[..32], &[7u8; 32][..]);
    assert_eq!(a.nonce, [1; 12]);
    assert_eq!(open_dek(&a, &kek).unwrap().as_bytes(), &[7; 32]);
    assert_eq!(open_dek(&a, &vec![8u8; 32]).err(), Some(EvfsError::AuthFailure));
    assert_eq!(
        open_dek(&a, &vec![9u8; 31]).err(),
        Some(EvfsError::Provider(KmsError::KeyFormat))
    );
    assert_eq!(
        seal_dek(&dek, KekId("k".to_string()), &vec![9u8; 16], [1; 12]).err(),
        Some(EvfsError::Provider(KmsError::KeyFormat))
    );
}

#[test]
fn device_provider_errors() {
    let short = DeviceKeyProvider::from_keyfile("k", Some(vec![1; 31]));
    assert_eq!(short.get_kek().err(), Some(KmsError::KeyFormat));
    let missing = DeviceKeyProvider::from_keyfile("k", None);
    assert_eq!(missing.get_kek().err(), Some(KmsError::ProviderIO));
    let good = provider(3);
    let (id, bytes) = good.get_kek().unwrap();
    assert_eq!(id.0, "device:file:key.bin");
    assert_eq!(bytes, vec![3; 32]);
    assert_eq!(good.get_kek_by_id(&id).unwrap(), vec![3; 32]);
    assert_eq!(
        good.get_kek_by_id(&KekId("device:passphrase".to_string())).err(),
        Some(KmsError::UnknownKekId)
    );
    assert_eq!(good.wrap_blob(&[1, 2, 3]).err(), Some(KmsError::Unsupported));
    assert_eq!(good.unwrap_blob(&[1, 2, 3]).err(), Some(KmsError::Unsupported));
}

#[test]
fn passphrase_key_is_argon2id_of_the_passphrase() {
    let a = DeviceKeyProvider::from_passphrase("correct horse");
    let b = DeviceKeyProvider::from_passphrase("correct horse");
    let c = DeviceKeyProvider::from_passphrase("battery staple");
    let (id, ka) = a.get_kek().unwrap();
    assert_eq!(id.0, "device:passphrase");
    assert_eq!(ka.len(), 32);
    assert_eq!(ka, b.get_kek().unwrap().1);
    assert_ne!(ka, c.get_kek().unwrap().1);
    assert_ne!(ka, "correct horse".as_bytes());
    assert_ne!(ka, vec![0u8; 32]);
}

#[test]
fn dek_for_is_cached() {
    let mut k = Keyring::new(provider(0x11));
    assert!(!k.needs_flush());
    let a = k.dek_for(&KeyScope::Database).unwrap();
    assert!(k.needs_flush());
    let b = k.dek_for(&KeyScope::Database).unwrap();
    assert!(a.ct_eq(&b));
    assert_eq!(k.persisted().keys.len(), 1);
    assert_eq!(k.persisted().keys.key_at(0), "database");
}

#[test]
fn scopes_get_keys_of_their_own() {
    let mut k = Keyring::new(provider(0x11));
    let db = k.dek_for(&KeyScope::Database).unwrap();
    let t = k.dek_for(&KeyScope::Table("users".to_string())).unwrap();
    let c = k
        .dek_for(&KeyScope::Column { table: "users".to_string(), column: "ssn".to_string() })
        .unwrap();
    assert!(!db.ct_eq(&t));
    assert!(!db.ct_eq(&c));
    assert!(!t.ct_eq(&c));
    let keys = &k.persisted().keys;
    assert_eq!(keys.len(), 3);
    assert_eq!(keys.key_at(1), "table:users");
    assert_eq!(keys.key_at(2), "column:users.ssn");
    assert_eq!(KeyScope::Database.scope_key(), "database");
}

#[test]
fn persisted_keys_are_unwrapped_on_a_new_keyring() {
    let mut first = Keyring::new(provider(0x11));
    let dek = first.dek_for(&KeyScope::Database).unwrap();
    let mut stored: StrTable<_> = StrTable::new();
    stored.insert("database", first.persisted().keys.value_at(0).clone());
    first.mark_saved();
    assert!(!first.needs_flush());

    let mut second = Keyring::new(provider(0x11));
    second.set_sidecar_path("/data/app.db", Some(PersistedKeyring { keys: stored }));
    assert_eq!(second.sidecar_path(), Some("/data/app.keyring"));
    let again = second.dek_for(&KeyScope::Database).unwrap();
    assert!(again.ct_eq(&dek));
    assert!(!second.needs_flush());
}

#[test]
fn a_failure_leaves_the_keyring_as_it_was() {
    let mut first = Keyring::new(provider(0x11));
    first.dek_for(&KeyScope::Database).unwrap();
    let mut stored: StrTable<_> = StrTable::new();
    stored.insert("database", first.persisted().keys.value_at(0).clone());

    let mut wrong = Keyring::new(provider(0x22));
    wrong.set_sidecar_path("app.db", Some(PersistedKeyring { keys: stored }));
    assert_eq!(wrong.dek_for(&KeyScope::Database).err(), Some(EvfsError::AuthFailure));
    assert_eq!(wrong.dek_for(&KeyScope::Database).err(), Some(EvfsError::AuthFailure));
    assert_eq!(wrong.persisted().keys.len(), 1);
    assert!(!wrong.needs_flush());

    let mut broken = Keyring::new(DeviceKeyProvider::from_keyfile("k", None));
    assert_eq!(
        broken.dek_for(&KeyScope::Database).err(),
        Some(EvfsError::Provider(KmsError::ProviderIO))
    );
    assert_eq!(broken.persisted().keys.len(), 0);
    assert_eq!(broken.rewrap_all(), Ok(()));
}

#[test]
fn rewrap_all_keeps_the_keys_and_renews_the_wrapping() {
    let mut k = Keyring::new(provider(0x11));
    let db = k.dek_for(&KeyScope::Database).unwrap();
    let t = k.dek_for(&KeyScope::Table("t".to_string())).unwrap();
    let before = k.persisted().keys.value_at(0).clone();
    k.mark_saved();
    k.rewrap_all().unwrap();
    assert!(k.needs_flush());
    let after = k.persisted().keys.value_at(0).clone();
    assert_eq!(k.persisted().keys.len(), 2);
    assert!(before.nonce != after.nonce || before.ciphertext != after.ciphertext);
    assert!(unwrap_dek(&after, k.provider()).unwrap().ct_eq(&db));
    let second = k.persisted().keys.get("table:t").unwrap().clone();
    assert!(unwrap_dek(&second, k.provider()).unwrap().ct_eq(&t));
}

#[test]
fn sidecar_lies_beside_the_database() {
    assert_eq!(sidecar_path_for("/var/db/main.db"), "/var/db/main.keyring");
    assert_eq!(sidecar_path_for("main"), "main.keyring");
    assert_eq!(sidecar_path_for("a.b/c.sqlite3"), "a.b/c.keyring");
    assert_eq!(sidecar_path_for("a.b/c"), "a.b/c.keyring");
    assert_eq!(sidecar_path_for("dir/.hidden"), "dir/.hidden.keyring");
    assert_eq!(sidecar_path_for(".hidden.db"), ".hidden.keyring");
    assert_eq!(sidecar_path_for("archive.tar.gz"), "archive.tar.keyring");
    assert_eq!(sidecar_path_for("dir/"), "dir/.keyring");
    assert_eq!(sidecar_path_for(""), ".keyring");
}

#[test]
fn pages_use_the_key_of_their_scope() {
    let mut k = Keyring::new(provider(0x11));
    let mut map = HashMap::new();
    map.insert(5u32, KeyScope::Table("t".to_string()));
    let db = k.dek_for_page(2, Some(&map)).unwrap();
    let t = k.dek_for_page(5, Some(&map)).unwrap();
    let none = k.dek_for_page(5, None).unwrap();
    assert!(db.ct_eq(&none));
    assert!(!db.ct_eq(&t));
    assert!(t.ct_eq(&k.dek_for(&KeyScope::Table("t".to_string())).unwrap()));
}

#[test]
fn file_context_seals_and_opens_by_scope() {
    let mut k = Keyring::new(provider(0x11));
    let mut ctx = FileContext {
        page_size: 512,
        reserve_size: 32,
        encrypt_enabled: true,
        page_scope_map: None,
    };
    ctx.build_page_scope_map(&vec![("t".to_string(), 3), ("u".to_string(), 4), ("v".to_string(), 3)]);
    let map = ctx.page_scope_map.as_ref().unwrap();
    assert_eq!(map.len(), 2);
    assert!(matches!(map.get(&3), Some(KeyScope::Table(name)) if name == "v"));

    let mut page = vec![0x42u8; 512];
    ctx.encrypt_page(&mut k, &mut page, 3).unwrap();
    assert_ne!(&page[..480], &[0x42u8; 480][..]);
    let sealed = page.clone();
    let table_key = k.dek_for(&KeyScope::Table("v".to_string())).unwrap();
    let mut by_hand = sealed.clone();
    lazysql::crypto::page::decrypt_page(&mut by_hand, 3, &table_key, 32).unwrap();
    assert_eq!(&by_hand[..480], &[0x42u8; 480][..]);
    ctx.decrypt_page(&mut k, &mut page, 3).unwrap();
    assert_eq!(&page[..480], &[0x42u8; 480][..]);

    let mut other = sealed.clone();
    assert_eq!(ctx.decrypt_page(&mut k, &mut other, 9), Err(EvfsError::AuthFailure));
    assert_eq!(other, sealed);
}
