use lazysql::crypto::envelope::unwrap_dek;
use lazysql::crypto::keys::{KekId, KeyScope};
use lazysql::error::{EvfsError, KmsError};
use lazysql::keyring::Keyring;
use lazysql::kms::cloud::{encode, CloudKmsProvider};
use lazysql::kms::local::DeviceKeyProvider;
use lazysql::kms::{KmsProvider, Provider};
use lazysql::register::{
    AssertFresh, CallError, ClearContext, DefineLabel, DefineLevel, Operation, PopContext,
    PushContext, RefreshViews, RegisterTable, Request, RowVisible, ScalarFunction, SetAttr,
    SqlValue,
};

fn text(s: &str) -> SqlValue {
    SqlValue::Text(s.to_string())
}

#[test]
fn operations_are_registered_by_name_and_arity() {
    let all: Vec<(Operation, &str, i32)> = vec![
        (SetAttr.operation(), "sec_set_attr", 2),
        (ClearContext.operation(), "sec_clear_context", 0),
        (PushContext.operation(), "sec_push_context", -1),
        (PopContext.operation(), "sec_pop_context", 0),
        (DefineLabel.operation(), "sec_define_label", 1),
        (DefineLevel.operation(), "sec_define_level", 3),
        (RowVisible.operation(), "sec_label_visible", 1),
        (AssertFresh.operation(), "sec_assert_fresh", 0),
        (RefreshViews.operation(), "sec_refresh_views", 0),
        (RegisterTable.operation(), "sec_register_table", 5),
    ];
    for (op, name, arity) in all {
        assert_eq!(op.name(), name);
        assert_eq!(op.arity(), arity);
    }
}

#[test]
fn set_attr_takes_two_texts() {
    let op = Operation::SetAttr;
    match op.request(&vec![text("role"), text("admin")]).unwrap() {
        Request::SetAttr { key, value } => assert_eq!((key.as_str(), value.as_str()), ("role", "admin")),
        other => panic!("unexpected {:?}", other),
    }
    assert_eq!(op.request(&vec![text("role")]).err(), Some(CallError::WrongArity { expected: 2 }));
    assert_eq!(op.request(&vec![]).err(), Some(CallError::WrongArity { expected: 2 }));
    assert_eq!(
        op.request(&vec![SqlValue::Null, SqlValue::Null]).err(),
        Some(CallError::NullArgument { index: 1 })
    );
    assert_eq!(
        op.request(&vec![text("role"), SqlValue::Null]).err(),
        Some(CallError::NullArgument { index: 2 })
    );
    assert_eq!(
        op.request(&vec![text("role"), SqlValue::Integer(3)]).err(),
        Some(CallError::WrongType { index: 2 })
    );
}

#[test]
fn push_context_takes_a_name_or_none() {
    let op = Operation::PushContext;
    assert!(matches!(op.request(&vec![]).unwrap(), Request::PushContext { name: None }));
    assert!(matches!(op.request(&vec![SqlValue::Null]).unwrap(), Request::PushContext { name: None }));
    assert!(matches!(
        op.request(&vec![text("job")]).unwrap(),
        Request::PushContext { name: Some(n) } if n == "job"
    ));
    assert_eq!(
        op.request(&vec![text("a"), text("b")]).err(),
        Some(CallError::WrongArity { expected: -1 })
    );
    assert_eq!(op.request(&vec![SqlValue::Integer(1)]).err(), Some(CallError::WrongType { index: 1 }));
}

#[test]
fn operations_without_arguments() {
    assert!(matches!(Operation::ClearContext.request(&vec![]).unwrap(), Request::ClearContext));
    assert!(matches!(Operation::PopContext.request(&vec![]).unwrap(), Request::PopContext));
    assert!(matches!(Operation::AssertFresh.request(&vec![]).unwrap(), Request::AssertFresh));
    assert!(matches!(Operation::RefreshViews.request(&vec![]).unwrap(), Request::RefreshViews));
    assert_eq!(
        Operation::AssertFresh.request(&vec![SqlValue::Null]).err(),
        Some(CallError::WrongArity { expected: 0 })
    );
    assert_eq!(
        Operation::ClearContext.request(&vec![text("x")]).err(),
        Some(CallError::WrongArity { expected: 0 })
    );
}

#[test]
fn definitions_and_visibility() {
    assert!(matches!(
        Operation::DefineLabel.request(&vec![text("role=admin")]).unwrap(),
        Request::DefineLabel { expr } if expr == "role=admin"
    ));
    assert_eq!(
        Operation::DefineLabel.request(&vec![SqlValue::Null]).err(),
        Some(CallError::NullArgument { index: 1 })
    );
    match Operation::DefineLevel
        .request(&vec![text("clearance"), text("secret"), SqlValue::Integer(2)])
        .unwrap()
    {
        Request::DefineLevel { attr, name, value } => {
            assert_eq!((attr.as_str(), name.as_str(), value), ("clearance", "secret", 2))
        }
        other => panic!("unexpected {:?}", other),
    }
    assert_eq!(
        Operation::DefineLevel.request(&vec![text("a"), text("n"), SqlValue::Null]).err(),
        Some(CallError::NullArgument { index: 3 })
    );
    assert_eq!(
        Operation::DefineLevel.request(&vec![text("a"), text("n"), text("2")]).err(),
        Some(CallError::WrongType { index: 3 })
    );
    assert!(matches!(
        Operation::LabelVisible.request(&vec![SqlValue::Null]).unwrap(),
        Request::LabelVisible { label_id: None }
    ));
    assert!(matches!(
        Operation::LabelVisible.request(&vec![SqlValue::Integer(7)]).unwrap(),
        Request::LabelVisible { label_id: Some(7) }
    ));
    assert_eq!(
        Operation::LabelVisible.request(&vec![text("7")]).err(),
        Some(CallError::WrongType { index: 1 })
    );
}

#[test]
fn register_table_takes_five_arguments() {
    let op = Operation::RegisterTable;
    let args = vec![text("t"), text("__sec_t"), text("lbl"), SqlValue::Null, SqlValue::Integer(4)];
    match op.request(&args).unwrap() {
        Request::RegisterTable { logical, physical, row_label_col, table_label_id, insert_label_id } => {
            assert_eq!(logical, "t");
            assert_eq!(physical, "__sec_t");
            assert_eq!(row_label_col, "lbl");
            assert_eq!(table_label_id, None);
            assert_eq!(insert_label_id, Some(4));
        }
        other => panic!("unexpected {:?}", other),
    }
    assert_eq!(op.request(&args[..4].iter().map(|_| SqlValue::Null).collect()).err(), Some(CallError::WrongArity { expected: 5 }));
    let nulls = vec![text("t"), SqlValue::Null, SqlValue::Null, SqlValue::Null, SqlValue::Null];
    assert_eq!(op.request(&nulls).err(), Some(CallError::NullArgument { index: 2 }));
    let wrong = vec![text("t"), text("p"), text("l"), text("1"), SqlValue::Null];
    assert_eq!(op.request(&wrong).err(), Some(CallError::WrongType { index: 4 }));
}

#[test]
fn cloud_provider_keeps_the_keys_it_is_given() {
    let mut p = CloudKmsProvider::new("alias/app".to_string(), None);
    assert_eq!(p.key_id(), "alias/app");
    assert_eq!(p.base_url(), "https://kms.us-east-1.amazonaws.com");
    assert!(!p.has_current());
    assert_eq!(p.get_kek().err(), Some(KmsError::ProviderIO));
    assert_eq!(p.get_kek_by_id(&KekId("blob".to_string())).err(), Some(KmsError::UnknownKekId));

    assert_eq!(p.accept_data_key(&encode(&[7u8; 31]), "blob"), Err(KmsError::KeyFormat));
    assert!(!p.has_current());
    assert!(!p.knows("blob"));
    assert_eq!(p.accept_data_key(&encode(&[7u8; 32]), "blob"), Ok(()));
    let (id, key) = p.get_kek().unwrap();
    assert_eq!((id.0.as_str(), key), ("blob", vec![7u8; 32]));
    assert_eq!(p.get_kek_by_id(&KekId("blob".to_string())), Ok(vec![7u8; 32]));

    assert_eq!(p.accept_unwrapped("older", &encode(&[8u8; 16])), Err(KmsError::KeyFormat));
    assert_eq!(p.accept_unwrapped("older", &encode(&[8u8; 32])), Ok(()));
    assert!(p.knows("older"));
    assert_eq!(p.get_kek_by_id(&KekId("older".to_string())), Ok(vec![8u8; 32]));
    assert_eq!(p.get_kek().unwrap().0 .0, "blob");
    assert_eq!(p.accept_data_key(&encode(&[9u8; 32]), "newer"), Ok(()));
    assert_eq!(p.get_kek().unwrap().1, vec![9u8; 32]);
    assert_eq!(p.get_kek_by_id(&KekId("blob".to_string())), Ok(vec![7u8; 32]));
    assert_eq!(p.wrap_blob(&[1]).err(), Some(KmsError::Unsupported));

    let q = CloudKmsProvider::new("k".to_string(), Some("http://localhost:4566".to_string()));
    assert_eq!(q.base_url(), "http://localhost:4566");
}

#[test]
fn a_keyring_over_either_provider() {
    let mut cloud = CloudKmsProvider::new("k".to_string(), None);
    cloud.accept_data_key(&encode(&[3u8; 32]), "wrapped-3").unwrap();
    let mut keyring = Keyring::new(Provider::Cloud(cloud));
    let dek = keyring.dek_for(&KeyScope::Database).unwrap();
    assert_eq!(keyring.persisted().keys.value_at(0).kek_id.0, "wrapped-3");
    // A new data key comes into use; the old one still unwraps.
    if let Provider::Cloud(p) = keyring.provider_mut() {
        p.accept_data_key(&encode(&[4u8; 32]), "wrapped-4").unwrap();
    }
    let wrapped = keyring.persisted().keys.value_at(0).clone();
    assert!(unwrap_dek(&wrapped, keyring.provider()).unwrap().ct_eq(&dek));
    keyring.rewrap_all().unwrap();
    assert_eq!(keyring.persisted().keys.value_at(0).kek_id.0, "wrapped-4");

    let device = DeviceKeyProvider::from_keyfile("k", Some(vec![1; 32]));
    let mut keyring = Keyring::new(Provider::Device(device));
    assert!(keyring.dek_for(&KeyScope::Database).is_ok());
    let empty = Keyring::new(Provider::Cloud(CloudKmsProvider::new("k".to_string(), None)));
    let mut empty = empty;
    assert_eq!(
        empty.dek_for(&KeyScope::Database).err(),
        Some(EvfsError::Provider(KmsError::ProviderIO))
    );
}

#[test]
fn either_provider_answers_as_the_one_it_holds() {
    let device = Provider::Device(DeviceKeyProvider::from_keyfile("k", Some(vec![5; 32])));
    let (id, key) = device.get_kek().unwrap();
    assert_eq!((id.0.as_str(), key), ("device:file:k", vec![5u8; 32]));
    assert_eq!(device.get_kek_by_id(&id), Ok(vec![5u8; 32]));
    assert_eq!(
        device.get_kek_by_id(&KekId("other".to_string())),
        Err(KmsError::UnknownKekId)
    );
    assert_eq!(device.wrap_blob(&[1, 2]), Err(KmsError::Unsupported));
    assert_eq!(device.unwrap_blob(&[1, 2]), Err(KmsError::Unsupported));
    let short = Provider::Device(DeviceKeyProvider::from_keyfile("k", Some(vec![5; 3])));
    assert_eq!(short.get_kek().err(), Some(KmsError::KeyFormat));
    assert_eq!(short.get_kek_by_id(&id), Err(KmsError::KeyFormat));

    let mut service = CloudKmsProvider::new("k".to_string(), None);
    assert_eq!(Provider::Cloud(CloudKmsProvider::new("k".to_string(), None)).get_kek().err(), Some(KmsError::ProviderIO));
    service.accept_data_key(&encode(&[6u8; 32]), "blob").unwrap();
    let cloud = Provider::Cloud(service);
    let (id, key) = cloud.get_kek().unwrap();
    assert_eq!((id.0.as_str(), key), ("blob", vec![6u8; 32]));
    assert_eq!(cloud.get_kek_by_id(&id), Ok(vec![6u8; 32]));
    assert_eq!(
        cloud.get_kek_by_id(&KekId("device:file:k".to_string())),
        Err(KmsError::UnknownKekId)
    );
    assert_eq!(cloud.wrap_blob(&[1]), Err(KmsError::Unsupported));
    assert_eq!(cloud.unwrap_blob(&[1]), Err(KmsError::Unsupported));
}

#[test]
fn rewrapping_an_empty_keyring_only_marks_it_unsaved() {
    let mut keyring = Keyring::new(Provider::Device(DeviceKeyProvider::from_keyfile("k", None)));
    assert!(!keyring.needs_flush());
    assert_eq!(keyring.rewrap_all(), Ok(()));
    assert!(keyring.needs_flush());
    assert_eq!(keyring.persisted().keys.len(), 0);
}
