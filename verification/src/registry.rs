use crate::error::Error;
use crate::rows::next_row_id;
use crate::rows::next_row_id_spec;
use crate::rows::MAX_ROW_ID;
use vstd::prelude::*;

verus! {

/// A registered voter.
#[derive(Clone, Debug, PartialEq, Eq)]
pub struct Voter {
    pub id: u64,
    pub name: String,
    pub date_of_birth: String,
}

/// An office that is up for election. Its id is the caller's, not the
/// table's.
#[derive(Clone, Debug, PartialEq, Eq)]
pub struct Office {
    pub id: String,
    pub name: String,
}

/// A candidate for an office.
#[derive(Clone, Debug, PartialEq, Eq)]
pub struct Candidate {
    pub id: u64,
    pub name: String,
    pub party: String,
    pub office_id: String,
}

/// A voter as a mathematical value.
pub struct VoterModel {
    pub id: nat,
    pub name: Seq<char>,
    pub date_of_birth: Seq<char>,
}

/// An office as a mathematical value.
pub struct OfficeModel {
    pub id: Seq<char>,
    pub name: Seq<char>,
}

/// A candidate as a mathematical value.
pub struct CandidateModel {
    pub id: nat,
    pub name: Seq<char>,
    pub party: Seq<char>,
    pub office_id: Seq<char>,
}

/// The three tables of the registry as a mathematical value.
pub struct RegistryModel {
    pub voters: Seq<VoterModel>,
    pub offices: Seq<OfficeModel>,
    pub candidates: Seq<CandidateModel>,
}

impl View for Voter {
    type V = VoterModel;

    open spec fn view(&self) -> VoterModel {
        VoterModel { id: self.id as nat, name: self.name@, date_of_birth: self.date_of_birth@ }
    }
}

impl View for Office {
    type V = OfficeModel;

    open spec fn view(&self) -> OfficeModel {
        OfficeModel { id: self.id@, name: self.name@ }
    }
}

impl View for Candidate {
    type V = CandidateModel;

    open spec fn view(&self) -> CandidateModel {
        CandidateModel {
            id: self.id as nat,
            name: self.name@,
            party: self.party@,
            office_id: self.office_id@,
        }
    }
}

/// Some voter in the table bears `name`.
pub open spec fn voter_name_taken(voters: Seq<VoterModel>, name: Seq<char>) -> bool {
    exists|i: int| 0 <= i < voters.len() && (#[trigger] voters[i]).name == name
}

/// Some office in the table has `id`.
pub open spec fn office_id_taken(offices: Seq<OfficeModel>, id: Seq<char>) -> bool {
    exists|i: int| 0 <= i < offices.len() && (#[trigger] offices[i]).id == id
}

/// Some voter in the table has the row id `id`.
pub open spec fn voter_id_known(voters: Seq<VoterModel>, id: nat) -> bool {
    exists|i: int| 0 <= i < voters.len() && (#[trigger] voters[i]).id == id
}

/// The voter registered under `name`, if there is one.
pub open spec fn recorded_voter(voters: Seq<VoterModel>, name: Seq<char>) -> Option<VoterModel> {
    if voter_name_taken(voters, name) {
        Some(voters[choose|i: int| 0 <= i < voters.len() && (#[trigger] voters[i]).name == name])
    } else {
        None
    }
}

/// The office registered under `id`, if there is one.
pub open spec fn recorded_office(offices: Seq<OfficeModel>, id: Seq<char>) -> Option<OfficeModel> {
    if office_id_taken(offices, id) {
        Some(offices[choose|i: int| 0 <= i < offices.len() && (#[trigger] offices[i]).id == id])
    } else {
        None
    }
}

/// The voter table is well formed: rows numbered from 1 in order of
/// registration, every name present and no name twice.
pub open spec fn voters_wf(voters: Seq<VoterModel>) -> bool {
    &&& voters.len() <= MAX_ROW_ID
    &&& forall|i: int|
        0 <= i < voters.len() ==> (#[trigger] voters[i]).id == i + 1 && voters[i].name.len() > 0
    &&& forall|i: int, j: int|
        0 <= i < j < voters.len() ==> (#[trigger] voters[i]).name != (#[trigger] voters[j]).name
}

/// The office table is well formed: no id twice.
pub open spec fn offices_wf(offices: Seq<OfficeModel>) -> bool {
    forall|i: int, j: int|
        0 <= i < j < offices.len() ==> (#[trigger] offices[i]).id != (#[trigger] offices[j]).id
}

/// The candidate table is well formed: rows numbered from 1 in order of
/// registration.
pub open spec fn candidates_wf(candidates: Seq<CandidateModel>) -> bool {
    &&& candidates.len() <= MAX_ROW_ID
    &&& forall|i: int| 0 <= i < candidates.len() ==> (#[trigger] candidates[i]).id == i + 1
}

/// All three tables are well formed.
pub open spec fn registry_wf(registry: RegistryModel) -> bool {
    &&& voters_wf(registry.voters)
    &&& offices_wf(registry.offices)
    &&& candidates_wf(registry.candidates)
}

/// What registering a voter does: an empty name or one that is taken is a
/// `ConstraintViolation`, a full table a `StorageError`, and both leave the
/// registry as it is; otherwise the voter becomes the last row of the voter
/// table.
pub open spec fn register_voter_spec(
    registry: RegistryModel,
    name: Seq<char>,
    date_of_birth: Seq<char>,
) -> (Result<(), Error>, RegistryModel) {
    if name.len() == 0 || voter_name_taken(registry.voters, name) {
        (Err(Error::ConstraintViolation), registry)
    } else {
        match next_row_id_spec(registry.voters.len()) {
            None => (Err(Error::StorageError), registry),
            Some(id) => (
                Ok(()),
                RegistryModel {
                    voters: registry.voters.push(VoterModel { id, name, date_of_birth }),
                    ..registry
                },
            ),
        }
    }
}

/// What registering an office does: an id that is taken is a
/// `ConstraintViolation` and leaves the registry as it is; otherwise the
/// office becomes the last row of the office table.
pub open spec fn register_office_spec(registry: RegistryModel, id: Seq<char>, name: Seq<char>) -> (
    Result<(), Error>,
    RegistryModel,
) {
    if office_id_taken(registry.offices, id) {
        (Err(Error::ConstraintViolation), registry)
    } else {
        (
            Ok(()),
            RegistryModel { offices: registry.offices.push(OfficeModel { id, name }), ..registry },
        )
    }
}

/// What registering a candidate does: a full table is a `StorageError` and
/// leaves the registry as it is; otherwise the candidate becomes the last row
/// of the candidate table, whether or not the office is known.
pub open spec fn register_candidate_spec(
    registry: RegistryModel,
    name: Seq<char>,
    office_id: Seq<char>,
    party: Seq<char>,
) -> (Result<(), Error>, RegistryModel) {
    match next_row_id_spec(registry.candidates.len()) {
        None => (Err(Error::StorageError), registry),
        Some(id) => (
            Ok(()),
            RegistryModel {
                candidates: registry.candidates.push(CandidateModel { id, name, party, office_id }),
                ..registry
            },
        ),
    }
}

/// The tables of voters, offices and candidates.
pub struct Registry {
    voters: Vec<Voter>,
    offices: Vec<Office>,
    candidates: Vec<Candidate>,
}

impl View for Registry {
    type V = RegistryModel;

    closed spec fn view(&self) -> RegistryModel {
        RegistryModel {
            voters: self.voters@.map_values(|v: Voter| v@),
            offices: self.offices@.map_values(|o: Office| o@),
            candidates: self.candidates@.map_values(|c: Candidate| c@),
        }
    }
}

impl Registry {
    /// The invariant of the registry, which every operation keeps.
    pub open spec fn wf(&self) -> bool {
        registry_wf(self@)
    }

    /// A registry with three empty tables.
    pub fn new() -> (registry: Registry)
        ensures
            registry.wf(),
            registry@ == (RegistryModel {
                voters: Seq::empty(),
                offices: Seq::empty(),
                candidates: Seq::empty(),
            }),
    {
        let registry = Registry { voters: Vec::new(), offices: Vec::new(), candidates: Vec::new() };
        assert(registry@.voters =~= Seq::empty());
        assert(registry@.offices =~= Seq::empty());
        assert(registry@.candidates =~= Seq::empty());
        registry
    }

    /// The voter registered under `name`, if there is one.
    pub fn voter_named(&self, name: &str) -> (found: Option<&Voter>)
        requires
            self.wf(),
        ensures
            match found {
                Some(voter) => Some(voter@) == recorded_voter(self@.voters, name@),
                None => recorded_voter(self@.voters, name@) is None,
            },
    {
        let wanted = name.to_owned();
        let mut i: usize = 0;
        while i < self.voters.len()
            invariant
                self.wf(),
                wanted@ == name@,
                i <= self.voters.len(),
                self@.voters.len() == self.voters.len(),
                forall|k: int| 0 <= k < i ==> (#[trigger] self@.voters[k]).name != name@,
            decreases self.voters.len() - i,
        {
            proof {
                assert(self@.voters[i as int] == self.voters[i as int]@);
            }
            if self.voters[i].name == wanted {
                proof {
                    let c = choose|c: int|
                        0 <= c < self@.voters.len() && (#[trigger] self@.voters[c]).name == name@;
                    assert(c == i);
                }
                return Some(&self.voters[i]);
            }
            i += 1;
        }
        None
    }

    /// Whether some voter has the row id `id`.
    pub fn has_voter_id(&self, id: u64) -> (known: bool)
        requires
            self.wf(),
        ensures
            known == voter_id_known(self@.voters, id as nat),
    {
        let known = 1 <= id && id - 1 < self.voters.len() as u64;
        proof {
            if known {
                assert(self@.voters[id - 1].id == id);
            }
        }
        known
    }

    /// The office registered under `id`, if there is one.
    pub fn office_with_id(&self, id: &str) -> (found: Option<&Office>)
        requires
            self.wf(),
        ensures
            match found {
                Some(office) => Some(office@) == recorded_office(self@.offices, id@),
                None => recorded_office(self@.offices, id@) is None,
            },
    {
        let wanted = id.to_owned();
        let mut i: usize = 0;
        while i < self.offices.len()
            invariant
                self.wf(),
                wanted@ == id@,
                i <= self.offices.len(),
                self@.offices.len() == self.offices.len(),
                forall|k: int| 0 <= k < i ==> (#[trigger] self@.offices[k]).id != id@,
            decreases self.offices.len() - i,
        {
            proof {
                assert(self@.offices[i as int] == self.offices[i as int]@);
            }
            if self.offices[i].id == wanted {
                proof {
                    let c = choose|c: int|
                        0 <= c < self@.offices.len() && (#[trigger] self@.offices[c]).id == id@;
                    assert(c == i);
                }
                return Some(&self.offices[i]);
            }
            i += 1;
        }
        None
    }

    /// The number of registered candidates.
    pub fn candidate_count(&self) -> (n: usize)
        ensures
            n == self@.candidates.len(),
    {
        self.candidates.len()
    }

    /// The candidate in row `index` of the candidate table, rows counted
    /// from 0, if the table has that many.
    pub fn candidate_at(&self, index: usize) -> (found: Option<&Candidate>)
        ensures
            match found {
                Some(candidate) => index < self@.candidates.len() && candidate@
                    == self@.candidates[index as int],
                None => index >= self@.candidates.len(),
            },
    {
        if index < self.candidates.len() {
            Some(&self.candidates[index])
        } else {
            None
        }
    }

    /// Registers a voter under a name that no voter bears yet.
    pub fn register_voter(&mut self, name: &str, date_of_birth: &str) -> (outcome: Result<
        (),
        Error,
    >)
        requires
            old(self).wf(),
        ensures
            final(self).wf(),
            (outcome, final(self)@) == register_voter_spec(old(self)@, name@, date_of_birth@),
    {
        if name.is_empty() || self.voter_named(name).is_some() {
            return Err(Error::ConstraintViolation);
        }
        let id = match next_row_id(self.voters.len()) {
            Some(id) => id,
            None => {
                return Err(Error::StorageError);
            },
        };
        let voter = Voter { id, name: name.to_owned(), date_of_birth: date_of_birth.to_owned() };
        proof {
            register_voter_preserves_wf(self@, name@, date_of_birth@);
            assert(self.voters@.push(voter).map_values(|v: Voter| v@) =~= self@.voters.push(
                voter@,
            ));
        }
        self.voters.push(voter);
        Ok(())
    }

    /// Registers an office under the caller's id, which no office has yet.
    pub fn register_office(&mut self, id: &str, name: &str) -> (outcome: Result<(), Error>)
        requires
            old(self).wf(),
        ensures
            final(self).wf(),
            (outcome, final(self)@) == register_office_spec(old(self)@, id@, name@),
    {
        if self.office_with_id(id).is_some() {
            return Err(Error::ConstraintViolation);
        }
        let office = Office { id: id.to_owned(), name: name.to_owned() };
        proof {
            register_office_preserves_wf(self@, id@, name@);
            assert(self.offices@.push(office).map_values(|o: Office| o@) =~= self@.offices.push(
                office@,
            ));
        }
        self.offices.push(office);
        Ok(())
    }

    /// Registers a candidate for an office. The office is not looked up.
    pub fn register_candidate(&mut self, name: &str, office_id: &str, party: &str) -> (outcome:
        Result<(), Error>)
        requires
            old(self).wf(),
        ensures
            final(self).wf(),
            (outcome, final(self)@) == register_candidate_spec(
                old(self)@,
                name@,
                office_id@,
                party@,
            ),
    {
        let id = match next_row_id(self.candidates.len()) {
            Some(id) => id,
            None => {
                return Err(Error::StorageError);
            },
        };
        let candidate = Candidate {
            id,
            name: name.to_owned(),
            party: party.to_owned(),
            office_id: office_id.to_owned(),
        };
        proof {
            assert(self.candidates@.push(candidate).map_values(|c: Candidate| c@)
                =~= self@.candidates.push(candidate@));
        }
        self.candidates.push(candidate);
        Ok(())
    }
}

/// Registering a voter keeps a well-formed registry well formed.
pub proof fn register_voter_preserves_wf(
    registry: RegistryModel,
    name: Seq<char>,
    date_of_birth: Seq<char>,
)
    requires
        registry_wf(registry),
    ensures
        registry_wf(register_voter_spec(registry, name, date_of_birth).1),
{
    let before = registry.voters;
    let after = register_voter_spec(registry, name, date_of_birth).1.voters;
    if after != before {
        assert forall|i: int, j: int| 0 <= i < j < after.len() implies (#[trigger] after[i]).name
            != (#[trigger] after[j]).name by {
            if j == before.len() {
                assert(before[i].name != name);
            } else {
                assert(after[i] == before[i] && after[j] == before[j]);
            }
        }
        assert forall|i: int| 0 <= i < after.len() implies (#[trigger] after[i]).id == i + 1
            && after[i].name.len() > 0 by {
            if i < before.len() {
                assert(after[i] == before[i]);
            }
        }
    }
}

/// Registering an office keeps a well-formed registry well formed.
pub proof fn register_office_preserves_wf(registry: RegistryModel, id: Seq<char>, name: Seq<char>)
    requires
        registry_wf(registry),
    ensures
        registry_wf(register_office_spec(registry, id, name).1),
{
    let before = registry.offices;
    let after = register_office_spec(registry, id, name).1.offices;
    if after != before {
        assert forall|i: int, j: int| 0 <= i < j < after.len() implies (#[trigger] after[i]).id
            != (#[trigger] after[j]).id by {
            if j == before.len() {
                assert(before[i].id != id);
            } else {
                assert(after[i] == before[i] && after[j] == before[j]);
            }
        }
    }
}

/// Voter names are unique: once a voter is registered under a name, a second
/// registration under that name fails with `ConstraintViolation`, whatever
/// its date of birth, and leaves the registry as it is.
pub proof fn voter_names_are_unique(
    registry: RegistryModel,
    name: Seq<char>,
    first_date_of_birth: Seq<char>,
    second_date_of_birth: Seq<char>,
)
    requires
        registry_wf(registry),
        register_voter_spec(registry, name, first_date_of_birth).0 is Ok,
    ensures
        ({
            let after = register_voter_spec(registry, name, first_date_of_birth).1;
            register_voter_spec(after, name, second_date_of_birth) == (
                Err::<(), Error>(Error::ConstraintViolation),
                after,
            )
        }),
{
    let after = register_voter_spec(registry, name, first_date_of_birth).1;
    assert(after.voters[registry.voters.len() as int].name == name);
}

/// Office ids are unique: once an office is registered under an id, a second
/// registration under that id fails with `ConstraintViolation`, whatever its
/// name, and leaves the registry as it is.
pub proof fn office_ids_are_unique(
    registry: RegistryModel,
    id: Seq<char>,
    first_name: Seq<char>,
    second_name: Seq<char>,
)
    requires
        registry_wf(registry),
        register_office_spec(registry, id, first_name).0 is Ok,
    ensures
        ({
            let after = register_office_spec(registry, id, first_name).1;
            register_office_spec(after, id, second_name) == (
                Err::<(), Error>(Error::ConstraintViolation),
                after,
            )
        }),
{
    let after = register_office_spec(registry, id, first_name).1;
    assert(after.offices[registry.offices.len() as int].id == id);
}

/// Registered voters stay: whoever is registered afterwards, and with
/// whatever outcome, a name that was taken stays taken by the same voter.
pub proof fn voters_are_permanent(
    registry: RegistryModel,
    name: Seq<char>,
    later_name: Seq<char>,
    later_date_of_birth: Seq<char>,
)
    requires
        registry_wf(registry),
        voter_name_taken(registry.voters, name),
    ensures
        ({
            let after = register_voter_spec(registry, later_name, later_date_of_birth).1;
            &&& voter_name_taken(after.voters, name)
            &&& recorded_voter(after.voters, name) == recorded_voter(registry.voters, name)
        }),
{
    let before = registry.voters;
    let after = register_voter_spec(registry, later_name, later_date_of_birth).1.voters;
    register_voter_preserves_wf(registry, later_name, later_date_of_birth);
    let b = choose|b: int| 0 <= b < before.len() && (#[trigger] before[b]).name == name;
    assert(after[b] == before[b]);
    assert(after[b].name == name);
    let a = choose|a: int| 0 <= a < after.len() && (#[trigger] after[a]).name == name;
    assert(a == b);
}

} // verus!
