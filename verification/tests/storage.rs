use wallet_mdoc::hw_keystore::{EncryptionKeyBridge, SigningKeyBridge};
use wallet_mdoc::storage::{
    database_file_for_name, key_file_alias_for_name, DatabaseStorage, InstructionData, KeyedData, RegistrationData, StorageError,
    StorageState, DATABASE_NAME,
};

#[test]
fn test_key_file_alias_for_name() {
    assert_eq!(key_file_alias_for_name("test_database"), "test_database_db");
}

#[test]
fn key_file_alias_of_the_wallet_database() {
    assert_eq!(key_file_alias_for_name(DATABASE_NAME), "wallet_db");
    assert_eq!(key_file_alias_for_name(""), "_db");
}

#[test]
fn storage_starts_without_a_database() {
    let storage = DatabaseStorage::init("/tmp/wallet".to_string());
    assert_eq!(storage.storage_path, "/tmp/wallet");
    assert_eq!(storage.database(), Err(StorageError::NotOpened));
    assert_eq!(storage.state(true), StorageState::Unopened);
    assert_eq!(storage.state(false), StorageState::Uninitialized);
    assert_eq!(storage.check_unopened(), Ok(()));
    assert_eq!(database_file_for_name("test"), "test.db");
    assert_eq!(database_file_for_name(DATABASE_NAME), "wallet.db");
}

#[test]
fn instruction_data_starts_at_zero() {
    assert_eq!(InstructionData::default().instruction_sequence_number, 0);
    assert_eq!(InstructionData::KEY, "instructions");
    assert_eq!(RegistrationData::KEY, "registration");
}

#[test]
fn a_database_is_opened_once_and_cleared_once() {
    let mut storage = DatabaseStorage::init("/tmp/wallet".to_string());
    assert_eq!(storage.clear(), Err(StorageError::NotOpened));
    let database = |path: &str| wallet_mdoc::storage::Database {
        path: path.to_string(),
    };
    assert_eq!(storage.open(database("first")), Ok(()));
    assert_eq!(storage.state(false), StorageState::Opened);
    assert_eq!(storage.database(), Ok(&database("first")));
    assert_eq!(storage.check_unopened(), Err(StorageError::AlreadyOpened));
    assert_eq!(storage.open(database("second")), Err(StorageError::AlreadyOpened));
    assert_eq!(storage.database(), Ok(&database("first")));
    assert_eq!(storage.clear(), Ok(database("first")));
    assert_eq!(storage.database(), Err(StorageError::NotOpened));
    assert_eq!(storage.state(true), StorageState::Unopened);
}

#[test]
fn credentials_without_copies_are_not_stored() {
    let example = wallet_mdoc::test_utils::create_example_mdoc;
    let mut other = example();
    other.doc_type = "other".to_string();
    let copies = |cred_copies| wallet_mdoc::storage::MdocCopies { cred_copies };
    let models = wallet_mdoc::storage::insert_mdocs(vec![
        copies(vec![]),
        copies(vec![example(), example()]),
        copies(vec![]),
        copies(vec![other.clone(), example()]),
    ]);
    assert_eq!(models.len(), 2);
    assert_eq!(models[0].0, "org.iso.18013.5.1.mDL");
    assert_eq!(models[0].1.cred_copies.len(), 2);
    assert_eq!(models[1].0, "other");
    assert_eq!(models[1].1.cred_copies, [other, example()]);
    assert!(wallet_mdoc::storage::insert_mdocs(vec![]).is_empty());
}

#[test]
fn document_types_that_the_log_does_not_know() {
    let texts = |texts: &[&str]| texts.iter().map(|text| text.to_string()).collect::<Vec<_>>();
    assert_eq!(
        wallet_mdoc::storage::new_doc_types(&texts(&["a", "b", "c", "b", "d"]), &texts(&["c", "a"])),
        ["b", "b", "d"]
    );
    assert!(wallet_mdoc::storage::new_doc_types(&texts(&[]), &texts(&["a"])).is_empty());
    assert_eq!(wallet_mdoc::storage::new_doc_types(&texts(&["a"]), &texts(&[])), ["a"]);
    assert!(wallet_mdoc::storage::is_among(&texts(&["a", "b"]), &"b".to_string()));
    assert!(!wallet_mdoc::storage::is_among(&texts(&["a", "b"]), &"c".to_string()));
}

struct SoftwareBridge;

impl wallet_mdoc::hw_keystore::SigningKeyBridge for SoftwareBridge {
    fn public_key(&self, identifier: String) -> Result<Vec<u8>, wallet_mdoc::hw_keystore::KeyStoreError> {
        Ok(identifier.into_bytes())
    }

    fn sign(&self, identifier: String, _payload: Vec<u8>) -> Result<Vec<u8>, wallet_mdoc::hw_keystore::KeyStoreError> {
        Err(wallet_mdoc::hw_keystore::KeyStoreError::KeyError { reason: identifier })
    }
}

impl wallet_mdoc::hw_keystore::EncryptionKeyBridge for SoftwareBridge {
    fn encrypt(&self, _identifier: String, payload: Vec<u8>) -> Result<Vec<u8>, wallet_mdoc::hw_keystore::KeyStoreError> {
        Ok(payload.into_iter().rev().collect())
    }

    fn decrypt(&self, _identifier: String, payload: Vec<u8>) -> Result<Vec<u8>, wallet_mdoc::hw_keystore::KeyStoreError> {
        Ok(payload.into_iter().rev().collect())
    }
}

#[test]
fn bridges_of_a_platform_are_kept_together() {
    let bridges = wallet_mdoc::hw_keystore::BridgeCollection {
        signing_key: SoftwareBridge,
        encryption_key: SoftwareBridge,
    };
    assert_eq!(
        bridges.get_signing_key_bridge().public_key("key".to_string()),
        Ok(b"key".to_vec())
    );
    assert_eq!(
        bridges.get_signing_key_bridge().sign("key".to_string(), vec![]),
        Err(wallet_mdoc::hw_keystore::KeyStoreError::KeyError {
            reason: "key".to_string()
        })
    );
    let sealed = bridges
        .get_encryption_key_bridge()
        .encrypt("key".to_string(), vec![1, 2, 3])
        .unwrap();
    assert_eq!(sealed, [3, 2, 1]);
    assert_eq!(
        bridges.get_encryption_key_bridge().decrypt("key".to_string(), sealed),
        Ok(vec![1, 2, 3])
    );
}
