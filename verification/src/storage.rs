//! Where the wallet keeps its database, and what it keeps beside the
//! credentials.

use crate::mdocs::{Mdoc, MdocView};
use vstd::prelude::*;

verus! {

/// The name of the wallet's database.
pub const DATABASE_NAME: &'static str = "wallet";

/// What follows the name of a database in the alias of its key file.
pub const KEY_FILE_SUFFIX: &'static str = "_db";

/// The extension of the file of a database.
pub const DATABASE_FILE_EXT: &'static str = "db";

/// The alias of the key file of a database: the name of the database and
/// the suffix of key files.
pub fn key_file_alias_for_name(database_name: &str) -> (alias: String)
    ensures
        alias@ == database_name@ + KEY_FILE_SUFFIX@,
{
    let mut alias = database_name.to_owned();
    alias.append(KEY_FILE_SUFFIX);
    alias
}

/// Why storage did not answer.
#[derive(Debug, Clone, Copy, PartialEq, Eq, Structural)]
pub enum StorageError {
    /// The database is not open.
    NotOpened,
    /// The database is open already.
    AlreadyOpened,
}

/// The state of the storage: whether there is no database on disk, there
/// is one but it is unopened, or the database is currently open.
#[derive(Debug, Clone, Copy, PartialEq, Eq, Structural)]
pub enum StorageState {
    Uninitialized,
    Unopened,
    Opened,
}

/// An open database: the path of its file.
#[derive(Debug, PartialEq, Eq)]
pub struct Database {
    pub path: String,
}

/// The storage of the wallet: a directory, and in it the database, once
/// it is open.
#[derive(Debug)]
pub struct DatabaseStorage {
    pub storage_path: String,
    pub database: Option<Database>,
}

/// The counter of the instructions that the wallet has sent.
#[derive(Debug, Clone, Copy, PartialEq, Eq, Structural)]
pub struct InstructionData {
    pub instruction_sequence_number: u64,
}

impl Default for InstructionData {
    fn default() -> (data: Self)
        ensures
            data.instruction_sequence_number == 0,
    {
        InstructionData { instruction_sequence_number: 0 }
    }
}

/// What the wallet keeps from its registration: the salt of the PIN and
/// the certificate of the wallet.
#[derive(Debug, PartialEq, Eq)]
pub struct RegistrationData {
    pub pin_salt: Vec<u8>,
    pub wallet_certificate: String,
}

/// Data that storage keeps under a key of its own.
pub trait KeyedData {
    /// The key under which storage keeps the data.
    const KEY: &'static str;
}

impl KeyedData for RegistrationData {
    const KEY: &'static str = "registration";
}

impl KeyedData for InstructionData {
    const KEY: &'static str = "instructions";
}

/// The name of the file of a database: the name of the database, a dot,
/// and the extension of databases.
pub open spec fn database_file_name(name: Seq<char>) -> Seq<char> {
    name + "."@ + DATABASE_FILE_EXT@
}

/// The name of the file of a database.
pub fn database_file_for_name(name: &str) -> (file: String)
    ensures
        file@ == database_file_name(name@),
{
    let mut file = name.to_owned();
    file.append(".");
    file.append(DATABASE_FILE_EXT);
    assert(file@ =~= database_file_name(name@));
    file
}

impl DatabaseStorage {
    /// The storage in a directory, with no database open.
    pub fn init(storage_path: String) -> (storage: Self)
        ensures
            storage.storage_path@ == storage_path@,
            storage.database is None,
    {
        DatabaseStorage { storage_path, database: None }
    }

    /// The open database. Should be called before accessing it.
    pub fn database(&self) -> (database: Result<&Database, StorageError>)
        ensures
            match self.database {
                Some(open) => database == Ok::<&Database, StorageError>(&open),
                None => database == Err::<&Database, StorageError>(StorageError::NotOpened),
            },
    {
        match &self.database {
            Some(database) => Ok(database),
            None => Err(StorageError::NotOpened),
        }
    }

    /// The state of the storage, given whether the file of the database
    /// exists.
    pub fn state(&self, database_exists: bool) -> (state: StorageState)
        ensures
            state == (if self.database is Some {
                StorageState::Opened
            } else if database_exists {
                StorageState::Unopened
            } else {
                StorageState::Uninitialized
            }),
    {
        if self.database.is_some() {
            return StorageState::Opened;
        }
        if database_exists {
            return StorageState::Unopened;
        }
        StorageState::Uninitialized
    }

    /// Whether a database may be opened: none is open.
    pub fn check_unopened(&self) -> (checked: Result<(), StorageError>)
        ensures
            checked == (if self.database is Some {
                Err::<(), StorageError>(StorageError::AlreadyOpened)
            } else {
                Ok::<(), StorageError>(())
            }),
    {
        if self.database.is_some() {
            return Err(StorageError::AlreadyOpened);
        }
        Ok(())
    }

    /// Keeps a database that was opened. A database that is open already
    /// stays, and the other is refused.
    pub fn open(&mut self, database: Database) -> (opened: Result<(), StorageError>)
        ensures
            final(self).storage_path == old(self).storage_path,
            old(self).database is Some ==> opened == Err::<(), StorageError>(
                StorageError::AlreadyOpened,
            ) && final(self).database == old(self).database,
            old(self).database is None ==> opened == Ok::<(), StorageError>(())
                && final(self).database == Some(database),
    {
        if self.database.is_some() {
            return Err(StorageError::AlreadyOpened);
        }
        self.database = Some(database);
        Ok(())
    }

    /// Gives up the open database, to be closed and removed with its key
    /// file.
    pub fn clear(&mut self) -> (database: Result<Database, StorageError>)
        ensures
            final(self).storage_path == old(self).storage_path,
            final(self).database is None,
            match old(self).database {
                Some(open) => database == Ok::<Database, StorageError>(open),
                None => database == Err::<Database, StorageError>(StorageError::NotOpened),
            },
    {
        match self.database.take() {
            Some(database) => Ok(database),
            None => Err(StorageError::NotOpened),
        }
    }
}

/// The copies of one credential, each to be disclosed once.
#[derive(Debug, PartialEq, Eq)]
pub struct MdocCopies {
    pub cred_copies: Vec<Mdoc>,
}

/// Some copies by their values.
pub open spec fn copies_view(copies: Seq<Mdoc>) -> Seq<MdocView> {
    Seq::new(copies.len(), |k: int| copies[k]@)
}

/// What is stored of some credentials: for each credential that has
/// copies, its document type, which is that of its first copy, and the
/// copies.
pub open spec fn models(mdocs: Seq<MdocCopies>) -> Seq<(Seq<char>, Seq<MdocView>)>
    decreases mdocs.len(),
{
    if mdocs.len() == 0 {
        Seq::empty()
    } else if mdocs.last().cred_copies@.len() == 0 {
        models(mdocs.drop_last())
    } else {
        models(mdocs.drop_last()).push(
            (mdocs.last().cred_copies@[0].doc_type@, copies_view(mdocs.last().cred_copies@)),
        )
    }
}

/// Stored models by their values.
pub open spec fn models_view(models: Seq<(String, MdocCopies)>) -> Seq<(Seq<char>, Seq<MdocView>)> {
    Seq::new(models.len(), |k: int| (models[k].0@, copies_view(models[k].1.cred_copies@)))
}

/// What is to be inserted for some credentials: for each credential that
/// has copies, its document type and the copies.
pub fn insert_mdocs(mdocs: Vec<MdocCopies>) -> (mdoc_models: Vec<(String, MdocCopies)>)
    ensures
        models_view(mdoc_models@) == models(mdocs@),
{
    let mut mdoc_models: Vec<(String, MdocCopies)> = Vec::new();
    proof {
        assert(mdocs@.take(0) =~= Seq::empty());
        assert(models_view(mdoc_models@) =~= Seq::empty());
    }
    for mdoc_copies in iter: mdocs.into_iter()
        invariant
            iter.seq() == mdocs@,
            models_view(mdoc_models@) == models(mdocs@.take(iter.index() as int)),
    {
        let ghost index = iter.index() as int;
        let ghost before = models_view(mdoc_models@);
        proof {
            let next = mdocs@.take(index + 1);
            assert(next.drop_last() =~= mdocs@.take(index));
            assert(next.last() == mdoc_copies);
        }
        if mdoc_copies.cred_copies.len() > 0 {
            let doc_type = mdoc_copies.cred_copies[0].doc_type.clone();
            mdoc_models.push((doc_type, mdoc_copies));
            assert(models_view(mdoc_models@) =~= before.push(
                (mdoc_copies.cred_copies@[0].doc_type@, copies_view(mdoc_copies.cred_copies@)),
            ));
        }
    }
    assert(mdocs@.take(mdocs@.len() as int) =~= mdocs@);
    mdoc_models
}

/// The test that a document type is not among some.
pub open spec fn is_new(existing: Seq<Seq<char>>) -> spec_fn(Seq<char>) -> bool {
    |doc_type: Seq<char>| !existing.contains(doc_type)
}

/// Whether a text is among some.
pub fn is_among(texts: &Vec<String>, text: &String) -> (found: bool)
    ensures
        found == texts.deep_view().contains(text@),
{
    let mut i: usize = 0;
    while i < texts.len()
        invariant
            i <= texts.len(),
            forall|k: int| 0 <= k < i ==> texts.deep_view()[k] != text@,
        decreases texts.len() - i,
    {
        assert(texts.deep_view()[i as int] == texts[i as int]@);
        if texts[i] == *text {
            return true;
        }
        i += 1;
    }
    false
}

/// The document types of an event that the log does not know yet, in
/// the order of the event.
pub fn new_doc_types(event_doc_types: &Vec<String>, existing_doc_types: &Vec<String>) -> (added:
    Vec<String>)
    ensures
        added.deep_view() == event_doc_types.deep_view().filter(
            is_new(existing_doc_types.deep_view()),
        ),
{
    let ghost all = event_doc_types.deep_view();
    let ghost pred = is_new(existing_doc_types.deep_view());
    let mut added: Vec<String> = Vec::new();
    let mut i: usize = 0;
    proof {
        assert(all.take(0) =~= Seq::empty());
        assert(added.deep_view() =~= Seq::empty());
    }
    while i < event_doc_types.len()
        invariant
            i <= event_doc_types.len(),
            all == event_doc_types.deep_view(),
            pred == is_new(existing_doc_types.deep_view()),
            added.deep_view() == all.take(i as int).filter(pred),
        decreases event_doc_types.len() - i,
    {
        let ghost before = added.deep_view();
        proof {
            assert(all.take(i as int + 1) =~= all.take(i as int).push(event_doc_types[i as int]@));
            all.take(i as int).lemma_filter_push(event_doc_types[i as int]@, pred);
        }
        if !is_among(existing_doc_types, &event_doc_types[i]) {
            added.push(event_doc_types[i].clone());
            assert(added.deep_view() =~= before.push(event_doc_types[i as int]@));
        }
        i += 1;
    }
    assert(all.take(event_doc_types.len() as int) =~= all);
    added
}

} // verus!
