use crate::digest::hash_password;
use crate::digest::sha256_hex;
use crate::digest::DIGEST_LEN;
use crate::error::Error;
use crate::rows::next_row_id;
use crate::rows::next_row_id_spec;
use crate::rows::MAX_ROW_ID;
use vstd::prelude::*;

verus! {

/// An election official's login: the password itself is never kept, only
/// its digest.
#[derive(Clone, Debug, PartialEq, Eq)]
pub struct Official {
    pub id: u64,
    pub username: String,
    pub password_hash: String,
}

/// An official as a mathematical value.
pub struct OfficialModel {
    pub id: nat,
    pub username: Seq<char>,
    pub password_hash: Seq<char>,
}

impl View for Official {
    type V = OfficialModel;

    open spec fn view(&self) -> OfficialModel {
        OfficialModel {
            id: self.id as nat,
            username: self.username@,
            password_hash: self.password_hash@,
        }
    }
}

/// Some official in the table has `username`.
pub open spec fn username_taken(officials: Seq<OfficialModel>, username: Seq<char>) -> bool {
    exists|i: int| 0 <= i < officials.len() && (#[trigger] officials[i]).username == username
}

/// Some official in the table has `username` together with `digest`.
pub open spec fn has_credentials(
    officials: Seq<OfficialModel>,
    username: Seq<char>,
    digest: Seq<char>,
) -> bool {
    exists|i: int|
        0 <= i < officials.len() && (#[trigger] officials[i]).username == username
            && officials[i].password_hash == digest
}

/// Whether the table lets `username` in with `password`: some official has
/// that username and the digest of that password.
pub open spec fn authenticates(
    officials: Seq<OfficialModel>,
    username: Seq<char>,
    password: Seq<char>,
) -> bool {
    has_credentials(officials, username, sha256_hex(password))
}

/// The official table is well formed: rows numbered from 1 in order of
/// registration, every username present and no username twice.
pub open spec fn credentials_wf(officials: Seq<OfficialModel>) -> bool {
    &&& officials.len() <= MAX_ROW_ID
    &&& forall|i: int|
        0 <= i < officials.len() ==> (#[trigger] officials[i]).id == i + 1
            && officials[i].username.len() > 0
    &&& forall|i: int, j: int|
        0 <= i < j < officials.len() ==> (#[trigger] officials[i]).username != (
        #[trigger] officials[j]).username
}

/// What storing a username with a password digest does: an empty username or
/// one that is taken is a `ConstraintViolation`, a full table a
/// `StorageError`, and both leave the table as it is; otherwise the official
/// becomes its last row.
pub open spec fn store_official_spec(
    officials: Seq<OfficialModel>,
    username: Seq<char>,
    digest: Seq<char>,
) -> (Result<(), Error>, Seq<OfficialModel>) {
    if username.len() == 0 || username_taken(officials, username) {
        (Err(Error::ConstraintViolation), officials)
    } else {
        match next_row_id_spec(officials.len()) {
            None => (Err(Error::StorageError), officials),
            Some(id) => (
                Ok(()),
                officials.push(OfficialModel { id, username, password_hash: digest }),
            ),
        }
    }
}

/// What registering an official does: the digest of the password is stored
/// with the username.
pub open spec fn register_official_spec(
    officials: Seq<OfficialModel>,
    username: Seq<char>,
    password: Seq<char>,
) -> (Result<(), Error>, Seq<OfficialModel>) {
    store_official_spec(officials, username, sha256_hex(password))
}

/// The table of election officials.
pub struct CredentialStore {
    officials: Vec<Official>,
}

impl View for CredentialStore {
    type V = Seq<OfficialModel>;

    closed spec fn view(&self) -> Seq<OfficialModel> {
        self.officials@.map_values(|o: Official| o@)
    }
}

impl CredentialStore {
    /// The invariant of the store, which every operation keeps.
    pub open spec fn wf(&self) -> bool {
        credentials_wf(self@)
    }

    /// A store without officials.
    pub fn new() -> (store: CredentialStore)
        ensures
            store.wf(),
            store@ == Seq::<OfficialModel>::empty(),
    {
        let store = CredentialStore { officials: Vec::new() };
        assert(store@ =~= Seq::<OfficialModel>::empty());
        store
    }

    /// The number of registered officials.
    pub fn len(&self) -> (n: usize)
        ensures
            n == self@.len(),
    {
        self.officials.len()
    }

    /// The row of the official called `username`, rows counted from 0, if
    /// there is one.
    fn position_of(&self, username: &str) -> (found: Option<usize>)
        requires
            self.wf(),
        ensures
            match found {
                Some(i) => i < self@.len() && self@[i as int].username == username@,
                None => !username_taken(self@, username@),
            },
    {
        let wanted = username.to_owned();
        let mut i: usize = 0;
        while i < self.officials.len()
            invariant
                wanted@ == username@,
                i <= self.officials.len(),
                self@.len() == self.officials.len(),
                forall|k: int| 0 <= k < i ==> (#[trigger] self@[k]).username != username@,
            decreases self.officials.len() - i,
        {
            proof {
                assert(self@[i as int] == self.officials[i as int]@);
            }
            if self.officials[i].username == wanted {
                return Some(i);
            }
            i += 1;
        }
        None
    }

    /// The digest stored for `username`, if that official exists.
    pub fn stored_digest(&self, username: &str) -> (found: Option<&String>)
        requires
            self.wf(),
        ensures
            match found {
                Some(digest) => has_credentials(self@, username@, digest@),
                None => !username_taken(self@, username@),
            },
    {
        match self.position_of(username) {
            Some(i) => {
                proof {
                    assert(self@[i as int] == self.officials[i as int]@);
                }
                Some(&self.officials[i].password_hash)
            },
            None => None,
        }
    }

    /// Stores `username` with a password digest that the caller computed.
    pub fn register_with_digest(&mut self, username: &str, digest: &str) -> (outcome: Result<
        (),
        Error,
    >)
        requires
            old(self).wf(),
        ensures
            final(self).wf(),
            (outcome, final(self)@) == store_official_spec(old(self)@, username@, digest@),
    {
        if username.is_empty() || self.position_of(username).is_some() {
            return Err(Error::ConstraintViolation);
        }
        let id = match next_row_id(self.officials.len()) {
            Some(id) => id,
            None => {
                return Err(Error::StorageError);
            },
        };
        let official = Official {
            id,
            username: username.to_owned(),
            password_hash: digest.to_owned(),
        };
        proof {
            store_official_preserves_wf(self@, username@, digest@);
            assert(self.officials@.push(official).map_values(|o: Official| o@) =~= self@.push(
                official@,
            ));
        }
        self.officials.push(official);
        Ok(())
    }

    /// Whether some official has `username` together with `digest`.
    pub fn verify_digest(&self, username: &str, digest: &str) -> (matched: bool)
        requires
            self.wf(),
        ensures
            matched == has_credentials(self@, username@, digest@),
    {
        let given = digest.to_owned();
        match self.position_of(username) {
            Some(i) => {
                proof {
                    assert(self@[i as int] == self.officials[i as int]@);
                    assert forall|k: int|
                        0 <= k < self@.len() && (#[trigger] self@[k]).username
                            == username@ implies k == i by {}
                }
                self.officials[i].password_hash == given
            },
            None => false,
        }
    }

    /// Registers an official. What is stored is the digest of the password,
    /// 64 characters whatever the password.
    pub fn register_official(&mut self, username: &str, password: &str) -> (outcome: Result<
        (),
        Error,
    >)
        requires
            old(self).wf(),
        ensures
            final(self).wf(),
            (outcome, final(self)@) == register_official_spec(old(self)@, username@, password@),
            outcome is Ok ==> final(self)@.last().password_hash.len() == DIGEST_LEN,
    {
        let digest = hash_password(password);
        self.register_with_digest(username, digest.as_str())
    }

    /// Checks a login attempt: `Ok(true)` exactly when an official with this
    /// username has the digest of this password. An unknown username is
    /// `Ok(false)`, not an error.
    pub fn authenticate(&self, username: &str, password: &str) -> (outcome: Result<bool, Error>)
        requires
            self.wf(),
        ensures
            outcome == Ok::<bool, Error>(authenticates(self@, username@, password@)),
    {
        let digest = hash_password(password);
        Ok(self.verify_digest(username, digest.as_str()))
    }
}

/// Storing an official keeps a well-formed table well formed.
pub proof fn store_official_preserves_wf(
    officials: Seq<OfficialModel>,
    username: Seq<char>,
    digest: Seq<char>,
)
    requires
        credentials_wf(officials),
    ensures
        credentials_wf(store_official_spec(officials, username, digest).1),
{
    let after = store_official_spec(officials, username, digest).1;
    if after != officials {
        assert forall|i: int, j: int| 0 <= i < j < after.len() implies (
        #[trigger] after[i]).username != (#[trigger] after[j]).username by {
            if j == officials.len() {
                assert(officials[i].username != username);
            } else {
                assert(after[i] == officials[i] && after[j] == officials[j]);
            }
        }
        assert forall|i: int| 0 <= i < after.len() implies (#[trigger] after[i]).id == i + 1
            && after[i].username.len() > 0 by {
            if i < officials.len() {
                assert(after[i] == officials[i]);
            }
        }
    }
}

/// Usernames are unique: once an official is registered under a username, a
/// second registration under it fails with `ConstraintViolation`, whatever
/// the password, and leaves the table as it is.
pub proof fn usernames_are_unique(
    officials: Seq<OfficialModel>,
    username: Seq<char>,
    first_password: Seq<char>,
    second_password: Seq<char>,
)
    requires
        credentials_wf(officials),
        register_official_spec(officials, username, first_password).0 is Ok,
    ensures
        ({
            let after = register_official_spec(officials, username, first_password).1;
            register_official_spec(after, username, second_password) == (
                Err::<(), Error>(Error::ConstraintViolation),
                after,
            )
        }),
{
    let after = register_official_spec(officials, username, first_password).1;
    assert(after[officials.len() as int].username == username);
}

/// A registered official gets in with the password they registered.
pub proof fn registered_password_is_accepted(
    officials: Seq<OfficialModel>,
    username: Seq<char>,
    password: Seq<char>,
)
    requires
        credentials_wf(officials),
        register_official_spec(officials, username, password).0 is Ok,
    ensures
        authenticates(register_official_spec(officials, username, password).1, username, password),
{
    let after = register_official_spec(officials, username, password).1;
    let last = officials.len() as int;
    assert(after[last].username == username && after[last].password_hash == sha256_hex(password));
}

/// A registered official gets in with exactly the passwords whose digest is
/// that of the registered one: any password with another digest is refused.
pub proof fn password_is_judged_by_its_digest(
    officials: Seq<OfficialModel>,
    username: Seq<char>,
    password: Seq<char>,
    other_password: Seq<char>,
)
    requires
        credentials_wf(officials),
        register_official_spec(officials, username, password).0 is Ok,
    ensures
        authenticates(
            register_official_spec(officials, username, password).1,
            username,
            other_password,
        ) <==> sha256_hex(other_password) == sha256_hex(password),
{
    let after = register_official_spec(officials, username, password).1;
    store_official_preserves_wf(officials, username, sha256_hex(password));
    let last = officials.len() as int;
    assert(after[last].username == username && after[last].password_hash == sha256_hex(password));
    assert forall|k: int| 0 <= k < after.len() && (#[trigger] after[k]).username
        == username implies k == last by {}
}

/// Nobody gets in under a username that no official has, whatever the
/// password.
pub proof fn unknown_username_is_refused(
    officials: Seq<OfficialModel>,
    username: Seq<char>,
    password: Seq<char>,
)
    requires
        !username_taken(officials, username),
    ensures
        !authenticates(officials, username, password),
{
}

/// Registrations that come later take no login away and change no stored
/// digest: whoever got in before still gets in, and whoever was refused
/// under a username that existed is still refused.
pub proof fn credentials_are_permanent(
    officials: Seq<OfficialModel>,
    username: Seq<char>,
    password: Seq<char>,
    later_username: Seq<char>,
    later_password: Seq<char>,
)
    requires
        credentials_wf(officials),
        username_taken(officials, username),
    ensures
        authenticates(
            register_official_spec(officials, later_username, later_password).1,
            username,
            password,
        ) == authenticates(officials, username, password),
{
    let after = register_official_spec(officials, later_username, later_password).1;
    let digest = sha256_hex(password);
    store_official_preserves_wf(officials, later_username, sha256_hex(later_password));
    if has_credentials(officials, username, digest) {
        let i = choose|i: int|
            0 <= i < officials.len() && (#[trigger] officials[i]).username == username
                && officials[i].password_hash == digest;
        assert(after[i] == officials[i]);
    }
    if has_credentials(after, username, digest) {
        let i = choose|i: int|
            0 <= i < after.len() && (#[trigger] after[i]).username == username
                && after[i].password_hash == digest;
        let j = choose|j: int|
            0 <= j < officials.len() && (#[trigger] officials[j]).username == username;
        assert(after[j] == officials[j]);
        assert(i == j);
    }
}

} // verus!
