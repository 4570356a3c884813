use crate::credentials::authenticates;
use crate::credentials::credentials_wf;
use crate::credentials::register_official_spec;
use crate::credentials::store_official_spec;
use crate::credentials::CredentialStore;
use crate::credentials::OfficialModel;
use crate::error::Error;
use crate::ledger::cast_ballot_spec;
use crate::ledger::ledger_wf;
use crate::ledger::BallotLedger;
use crate::ledger::BallotModel;
use crate::registry::office_id_taken;
use crate::registry::register_candidate_spec;
use crate::registry::register_office_spec;
use crate::registry::register_voter_spec;
use crate::registry::registry_wf;
use crate::registry::voter_id_known;
use crate::registry::Registry;
use crate::registry::RegistryModel;
use vstd::prelude::*;

verus! {

/// The shared store as a mathematical value: whether its tables exist, and
/// what they hold.
pub struct DatabaseModel {
    pub created: bool,
    pub officials: Seq<OfficialModel>,
    pub registry: RegistryModel,
    pub ballots: Seq<BallotModel>,
}

/// No table holds a row.
pub open spec fn database_is_empty(db: DatabaseModel) -> bool {
    &&& db.officials.len() == 0
    &&& db.registry.voters.len() == 0
    &&& db.registry.offices.len() == 0
    &&& db.registry.candidates.len() == 0
    &&& db.ballots.len() == 0
}

/// The store is well formed: each table is, and tables that do not exist
/// hold nothing.
pub open spec fn database_wf(db: DatabaseModel) -> bool {
    &&& credentials_wf(db.officials)
    &&& registry_wf(db.registry)
    &&& ledger_wf(db.ballots)
    &&& !db.created ==> database_is_empty(db)
}

/// What table creation does: it succeeds, the tables exist afterwards, and
/// every row that was there is still there.
pub open spec fn create_tables_spec(db: DatabaseModel) -> (Result<(), Error>, DatabaseModel) {
    (Ok(()), DatabaseModel { created: true, ..db })
}

/// Registering an official in the store: a `StorageError` while the tables
/// do not exist, else what the official table does.
pub open spec fn db_register_official_spec(
    db: DatabaseModel,
    username: Seq<char>,
    password: Seq<char>,
) -> (Result<(), Error>, DatabaseModel) {
    if !db.created {
        (Err(Error::StorageError), db)
    } else {
        let (outcome, officials) = register_official_spec(db.officials, username, password);
        (outcome, DatabaseModel { officials, ..db })
    }
}

/// Storing an official with a ready digest in the store: a `StorageError`
/// while the tables do not exist, else what the official table does.
pub open spec fn db_store_official_spec(
    db: DatabaseModel,
    username: Seq<char>,
    digest: Seq<char>,
) -> (Result<(), Error>, DatabaseModel) {
    if !db.created {
        (Err(Error::StorageError), db)
    } else {
        let (outcome, officials) = store_official_spec(db.officials, username, digest);
        (outcome, DatabaseModel { officials, ..db })
    }
}

/// A login attempt against the store: a `StorageError` while the tables do
/// not exist, else what the official table answers.
pub open spec fn db_authenticate_spec(
    db: DatabaseModel,
    username: Seq<char>,
    password: Seq<char>,
) -> Result<bool, Error> {
    if !db.created {
        Err(Error::StorageError)
    } else {
        Ok(authenticates(db.officials, username, password))
    }
}

/// Registering a voter in the store: a `StorageError` while the tables do
/// not exist, else what the registry does.
pub open spec fn db_register_voter_spec(
    db: DatabaseModel,
    name: Seq<char>,
    date_of_birth: Seq<char>,
) -> (Result<(), Error>, DatabaseModel) {
    if !db.created {
        (Err(Error::StorageError), db)
    } else {
        let (outcome, registry) = register_voter_spec(db.registry, name, date_of_birth);
        (outcome, DatabaseModel { registry, ..db })
    }
}

/// Registering an office in the store: a `StorageError` while the tables do
/// not exist, else what the registry does.
pub open spec fn db_register_office_spec(db: DatabaseModel, id: Seq<char>, name: Seq<char>) -> (
    Result<(), Error>,
    DatabaseModel,
) {
    if !db.created {
        (Err(Error::StorageError), db)
    } else {
        let (outcome, registry) = register_office_spec(db.registry, id, name);
        (outcome, DatabaseModel { registry, ..db })
    }
}

/// Registering a candidate in the store: a `StorageError` while the tables
/// do not exist, else what the registry does.
pub open spec fn db_register_candidate_spec(
    db: DatabaseModel,
    name: Seq<char>,
    office_id: Seq<char>,
    party: Seq<char>,
) -> (Result<(), Error>, DatabaseModel) {
    if !db.created {
        (Err(Error::StorageError), db)
    } else {
        let (outcome, registry) = register_candidate_spec(db.registry, name, office_id, party);
        (outcome, DatabaseModel { registry, ..db })
    }
}

/// Casting a ballot in the store: a `StorageError` while the tables do not
/// exist, else what the ledger does.
pub open spec fn db_cast_ballot_spec(
    db: DatabaseModel,
    voter_id: nat,
    office_1: Seq<char>,
    office_2: Seq<char>,
    office_3: Seq<char>,
) -> (Result<(), Error>, DatabaseModel) {
    if !db.created {
        (Err(Error::StorageError), db)
    } else {
        let (outcome, ballots) = cast_ballot_spec(db.ballots, voter_id, office_1, office_2, office_3);
        (outcome, DatabaseModel { ballots, ..db })
    }
}

/// Registering a candidate strictly: as `db_register_candidate_spec`, but
/// where the tables exist and no office has `office_id`, a
/// `ReferenceNotFound` that leaves the store as it is.
pub open spec fn db_register_candidate_strict_spec(
    db: DatabaseModel,
    name: Seq<char>,
    office_id: Seq<char>,
    party: Seq<char>,
) -> (Result<(), Error>, DatabaseModel) {
    if db.created && !office_id_taken(db.registry.offices, office_id) {
        (Err(Error::ReferenceNotFound), db)
    } else {
        db_register_candidate_spec(db, name, office_id, party)
    }
}

/// Casting a ballot strictly: as `db_cast_ballot_spec`, but where the tables
/// exist and no voter has the row id `voter_id`, a `ReferenceNotFound` that
/// leaves the store as it is.
pub open spec fn db_cast_ballot_strict_spec(
    db: DatabaseModel,
    voter_id: nat,
    office_1: Seq<char>,
    office_2: Seq<char>,
    office_3: Seq<char>,
) -> (Result<(), Error>, DatabaseModel) {
    if db.created && !voter_id_known(db.registry.voters, voter_id) {
        (Err(Error::ReferenceNotFound), db)
    } else {
        db_cast_ballot_spec(db, voter_id, office_1, office_2, office_3)
    }
}

/// The store that the three components share: five tables, which exist once
/// `create_tables` has run.
pub struct Database {
    created: bool,
    credentials: CredentialStore,
    registry: Registry,
    ledger: BallotLedger,
}

impl View for Database {
    type V = DatabaseModel;

    closed spec fn view(&self) -> DatabaseModel {
        DatabaseModel {
            created: self.created,
            officials: self.credentials@,
            registry: self.registry@,
            ballots: self.ledger@,
        }
    }
}

impl Database {
    /// The invariant of the store, which every operation keeps.
    pub open spec fn wf(&self) -> bool {
        database_wf(self@)
    }

    /// A store whose tables do not exist yet.
    pub fn new() -> (db: Database)
        ensures
            db.wf(),
            !db@.created,
            database_is_empty(db@),
    {
        Database {
            created: false,
            credentials: CredentialStore::new(),
            registry: Registry::new(),
            ledger: BallotLedger::new(),
        }
    }

    /// Whether the tables exist.
    pub fn is_created(&self) -> (created: bool)
        ensures
            created == self@.created,
    {
        self.created
    }

    /// The table of officials.
    pub fn credentials(&self) -> (store: &CredentialStore)
        requires
            self.wf(),
        ensures
            store.wf(),
            store@ == self@.officials,
    {
        &self.credentials
    }

    /// The tables of voters, offices and candidates.
    pub fn registry(&self) -> (registry: &Registry)
        requires
            self.wf(),
        ensures
            registry.wf(),
            registry@ == self@.registry,
    {
        &self.registry
    }

    /// The table of ballots.
    pub fn ledger(&self) -> (ledger: &BallotLedger)
        requires
            self.wf(),
        ensures
            ledger.wf(),
            ledger@ == self@.ballots,
    {
        &self.ledger
    }

    /// Makes sure that the five tables exist. It never fails, and it leaves
    /// the rows of tables that existed as they were.
    pub fn create_tables(&mut self) -> (outcome: Result<(), Error>)
        requires
            old(self).wf(),
        ensures
            final(self).wf(),
            (outcome, final(self)@) == create_tables_spec(old(self)@),
    {
        self.created = true;
        Ok(())
    }

    /// Registers an official; see `CredentialStore::register_official`.
    pub fn register_official(&mut self, username: &str, password: &str) -> (outcome: Result<
        (),
        Error,
    >)
        requires
            old(self).wf(),
        ensures
            final(self).wf(),
            (outcome, final(self)@) == db_register_official_spec(old(self)@, username@, password@),
    {
        if !self.created {
            return Err(Error::StorageError);
        }
        self.credentials.register_official(username, password)
    }

    /// Stores an official whose password digest is at hand, as when the
    /// table is read back; see `CredentialStore::register_with_digest`.
    pub fn restore_official(&mut self, username: &str, digest: &str) -> (outcome: Result<
        (),
        Error,
    >)
        requires
            old(self).wf(),
        ensures
            final(self).wf(),
            (outcome, final(self)@) == db_store_official_spec(old(self)@, username@, digest@),
    {
        if !self.created {
            return Err(Error::StorageError);
        }
        self.credentials.register_with_digest(username, digest)
    }

    /// Checks a login attempt; see `CredentialStore::authenticate`.
    pub fn authenticate(&self, username: &str, password: &str) -> (outcome: Result<bool, Error>)
        requires
            self.wf(),
        ensures
            outcome == db_authenticate_spec(self@, username@, password@),
    {
        if !self.created {
            return Err(Error::StorageError);
        }
        self.credentials.authenticate(username, password)
    }

    /// Registers a voter; see `Registry::register_voter`.
    pub fn register_voter(&mut self, name: &str, date_of_birth: &str) -> (outcome: Result<
        (),
        Error,
    >)
        requires
            old(self).wf(),
        ensures
            final(self).wf(),
            (outcome, final(self)@) == db_register_voter_spec(old(self)@, name@, date_of_birth@),
    {
        if !self.created {
            return Err(Error::StorageError);
        }
        self.registry.register_voter(name, date_of_birth)
    }

    /// Registers an office; see `Registry::register_office`.
    pub fn register_office(&mut self, id: &str, name: &str) -> (outcome: Result<(), Error>)
        requires
            old(self).wf(),
        ensures
            final(self).wf(),
            (outcome, final(self)@) == db_register_office_spec(old(self)@, id@, name@),
    {
        if !self.created {
            return Err(Error::StorageError);
        }
        self.registry.register_office(id, name)
    }

    /// Registers a candidate; see `Registry::register_candidate`.
    pub fn register_candidate(&mut self, name: &str, office_id: &str, party: &str) -> (outcome:
        Result<(), Error>)
        requires
            old(self).wf(),
        ensures
            final(self).wf(),
            (outcome, final(self)@) == db_register_candidate_spec(
                old(self)@,
                name@,
                office_id@,
                party@,
            ),
    {
        if !self.created {
            return Err(Error::StorageError);
        }
        self.registry.register_candidate(name, office_id, party)
    }

    /// Registers a candidate for an office that must be registered.
    pub fn register_candidate_strict(&mut self, name: &str, office_id: &str, party: &str) -> (
        outcome: Result<(), Error>)
        requires
            old(self).wf(),
        ensures
            final(self).wf(),
            (outcome, final(self)@) == db_register_candidate_strict_spec(
                old(self)@,
                name@,
                office_id@,
                party@,
            ),
    {
        if self.created && self.registry.office_with_id(office_id).is_none() {
            return Err(Error::ReferenceNotFound);
        }
        self.register_candidate(name, office_id, party)
    }

    /// Casts the ballot of a voter who must be registered.
    pub fn cast_ballot_strict(
        &mut self,
        voter_id: u64,
        office_1: &str,
        office_2: &str,
        office_3: &str,
    ) -> (outcome: Result<(), Error>)
        requires
            old(self).wf(),
        ensures
            final(self).wf(),
            (outcome, final(self)@) == db_cast_ballot_strict_spec(
                old(self)@,
                voter_id as nat,
                office_1@,
                office_2@,
                office_3@,
            ),
    {
        if self.created && !self.registry.has_voter_id(voter_id) {
            return Err(Error::ReferenceNotFound);
        }
        self.cast_ballot(voter_id, office_1, office_2, office_3)
    }

    /// Casts a ballot; see `BallotLedger::cast_ballot`.
    pub fn cast_ballot(
        &mut self,
        voter_id: u64,
        office_1: &str,
        office_2: &str,
        office_3: &str,
    ) -> (outcome: Result<(), Error>)
        requires
            old(self).wf(),
        ensures
            final(self).wf(),
            (outcome, final(self)@) == db_cast_ballot_spec(
                old(self)@,
                voter_id as nat,
                office_1@,
                office_2@,
                office_3@,
            ),
    {
        if !self.created {
            return Err(Error::StorageError);
        }
        self.ledger.cast_ballot(voter_id, office_1, office_2, office_3)
    }
}

/// Table creation is idempotent: running it a second time succeeds like the
/// first and changes nothing, and neither run touches a row.
pub proof fn create_tables_is_idempotent(db: DatabaseModel)
    requires
        database_wf(db),
    ensures
        ({
            let (first, once) = create_tables_spec(db);
            let (second, twice) = create_tables_spec(once);
            &&& first is Ok
            &&& second is Ok
            &&& twice == once
            &&& once.officials == db.officials
            &&& once.registry == db.registry
            &&& once.ballots == db.ballots
            &&& database_wf(once)
        }),
{
}

} // verus!
