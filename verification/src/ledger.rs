use crate::error::Error;
use crate::rows::next_row_id;
use crate::rows::MAX_ROW_ID;
use vstd::prelude::*;

verus! {

/// One voter's recorded selections.
#[derive(Clone, Debug, PartialEq, Eq)]
pub struct Ballot {
    pub id: u64,
    pub voter_id: u64,
    pub office_1_selection: String,
    pub office_2_selection: String,
    pub office_3_selection: String,
}

/// A ballot as a mathematical value.
pub struct BallotModel {
    pub id: nat,
    pub voter_id: nat,
    pub office_1_selection: Seq<char>,
    pub office_2_selection: Seq<char>,
    pub office_3_selection: Seq<char>,
}

impl View for Ballot {
    type V = BallotModel;

    open spec fn view(&self) -> BallotModel {
        BallotModel {
            id: self.id as nat,
            voter_id: self.voter_id as nat,
            office_1_selection: self.office_1_selection@,
            office_2_selection: self.office_2_selection@,
            office_3_selection: self.office_3_selection@,
        }
    }
}

/// Where a voter stands with respect to the ledger. A voter starts in
/// `HasNotVoted`; the one successful cast moves them to `HasVoted`, and
/// nothing leads back.
#[derive(Clone, Copy, Debug, PartialEq, Eq)]
pub enum VoterState {
    HasNotVoted,
    HasVoted,
}

/// Some ballot in the table belongs to `voter_id`.
pub open spec fn has_voted(ballots: Seq<BallotModel>, voter_id: nat) -> bool {
    exists|i: int| 0 <= i < ballots.len() && (#[trigger] ballots[i]).voter_id == voter_id
}

/// The state of `voter_id` in a ballot table.
pub open spec fn voter_state(ballots: Seq<BallotModel>, voter_id: nat) -> VoterState {
    if has_voted(ballots, voter_id) {
        VoterState::HasVoted
    } else {
        VoterState::HasNotVoted
    }
}

/// The ballot on record for `voter_id`, if there is one.
pub open spec fn recorded_ballot(ballots: Seq<BallotModel>, voter_id: nat) -> Option<BallotModel> {
    if has_voted(ballots, voter_id) {
        Some(
            ballots[choose|i: int|
                0 <= i < ballots.len() && (#[trigger] ballots[i]).voter_id == voter_id],
        )
    } else {
        None
    }
}

/// A ballot table is well formed when its rows are numbered from 1 in the
/// order in which they were cast and no voter has two rows.
pub open spec fn ledger_wf(ballots: Seq<BallotModel>) -> bool {
    &&& ballots.len() <= MAX_ROW_ID
    &&& forall|i: int| 0 <= i < ballots.len() ==> (#[trigger] ballots[i]).id == i + 1
    &&& forall|i: int, j: int|
        0 <= i < j < ballots.len() ==> (#[trigger] ballots[i]).voter_id != (
        #[trigger] ballots[j]).voter_id
}

/// What casting a ballot does to a ballot table: the outcome and the table
/// afterwards. A voter who has a ballot is refused and the table stays as it
/// is; so is everyone once the row ids are used up.
pub open spec fn cast_ballot_spec(
    ballots: Seq<BallotModel>,
    voter_id: nat,
    office_1: Seq<char>,
    office_2: Seq<char>,
    office_3: Seq<char>,
) -> (Result<(), Error>, Seq<BallotModel>) {
    if has_voted(ballots, voter_id) {
        (Err(Error::DuplicateBallot), ballots)
    } else if ballots.len() >= MAX_ROW_ID {
        (Err(Error::StorageError), ballots)
    } else {
        (
            Ok(()),
            ballots.push(
                BallotModel {
                    id: ballots.len() + 1,
                    voter_id,
                    office_1_selection: office_1,
                    office_2_selection: office_2,
                    office_3_selection: office_3,
                },
            ),
        )
    }
}

/// A request to cast a ballot, as a mathematical value.
pub struct CastRequest {
    pub voter_id: nat,
    pub office_1: Seq<char>,
    pub office_2: Seq<char>,
    pub office_3: Seq<char>,
}

/// The ballot table after a run of requests, taken in order, each with
/// whatever outcome it has.
pub open spec fn cast_each(ballots: Seq<BallotModel>, requests: Seq<CastRequest>) -> Seq<
    BallotModel,
>
    decreases requests.len(),
{
    if requests.len() == 0 {
        ballots
    } else {
        let request = requests.last();
        cast_ballot_spec(
            cast_each(ballots, requests.drop_last()),
            request.voter_id,
            request.office_1,
            request.office_2,
            request.office_3,
        ).1
    }
}

/// The ballot table: at most one ballot per voter, never changed once cast.
pub struct BallotLedger {
    ballots: Vec<Ballot>,
}

impl View for BallotLedger {
    type V = Seq<BallotModel>;

    closed spec fn view(&self) -> Seq<BallotModel> {
        self.ballots@.map_values(|b: Ballot| b@)
    }
}

impl BallotLedger {
    /// The invariant of the ledger, which every operation keeps.
    pub open spec fn wf(&self) -> bool {
        ledger_wf(self@)
    }

    /// An empty ledger.
    pub fn new() -> (ledger: BallotLedger)
        ensures
            ledger@ == Seq::<BallotModel>::empty(),
            ledger.wf(),
    {
        let ledger = BallotLedger { ballots: Vec::new() };
        assert(ledger@ =~= Seq::<BallotModel>::empty());
        ledger
    }

    /// The number of ballots on record.
    pub fn len(&self) -> (n: usize)
        ensures
            n == self@.len(),
    {
        self.ballots.len()
    }

    /// The ballot on record for `voter_id`, if there is one.
    pub fn ballot_of(&self, voter_id: u64) -> (found: Option<&Ballot>)
        requires
            self.wf(),
        ensures
            match found {
                Some(ballot) => Some(ballot@) == recorded_ballot(self@, voter_id as nat),
                None => recorded_ballot(self@, voter_id as nat) is None,
            },
    {
        let mut i: usize = 0;
        while i < self.ballots.len()
            invariant
                self.wf(),
                i <= self.ballots.len(),
                self@.len() == self.ballots.len(),
                forall|k: int| 0 <= k < i ==> (#[trigger] self@[k]).voter_id != voter_id,
            decreases self.ballots.len() - i,
        {
            if self.ballots[i].voter_id == voter_id {
                proof {
                    let k = i as int;
                    assert(self@[k] == self.ballots[k]@);
                    assert(self@[k].voter_id == voter_id);
                    let c = choose|c: int|
                        0 <= c < self@.len() && (#[trigger] self@[c]).voter_id == voter_id;
                    assert(c == k);
                }
                return Some(&self.ballots[i]);
            }
            proof {
                assert(self@[i as int] == self.ballots[i as int]@);
            }
            i += 1;
        }
        None
    }

    /// Whether `voter_id` has cast their ballot.
    pub fn state_of(&self, voter_id: u64) -> (state: VoterState)
        requires
            self.wf(),
        ensures
            state == voter_state(self@, voter_id as nat),
    {
        match self.ballot_of(voter_id) {
            Some(_) => VoterState::HasVoted,
            None => VoterState::HasNotVoted,
        }
    }

    /// Records the ballot of `voter_id`. The first cast for a voter succeeds
    /// and appends one row; every later one fails with `DuplicateBallot` and
    /// leaves the ledger as it was.
    pub fn cast_ballot(
        &mut self,
        voter_id: u64,
        office_1: &str,
        office_2: &str,
        office_3: &str,
    ) -> (outcome: Result<(), Error>)
        requires
            old(self).wf(),
        ensures
            final(self).wf(),
            (outcome, final(self)@) == cast_ballot_spec(
                old(self)@,
                voter_id as nat,
                office_1@,
                office_2@,
                office_3@,
            ),
    {
        if self.ballot_of(voter_id).is_some() {
            return Err(Error::DuplicateBallot);
        }
        let id = match next_row_id(self.ballots.len()) {
            Some(id) => id,
            None => {
                return Err(Error::StorageError);
            },
        };
        let ballot = Ballot {
            id,
            voter_id,
            office_1_selection: office_1.to_owned(),
            office_2_selection: office_2.to_owned(),
            office_3_selection: office_3.to_owned(),
        };
        proof {
            cast_preserves_wf(self@, voter_id as nat, office_1@, office_2@, office_3@);
            assert(self.ballots@.push(ballot).map_values(|b: Ballot| b@) =~= self@.push(ballot@));
        }
        self.ballots.push(ballot);
        Ok(())
    }
}

/// Casting a ballot keeps a well-formed table well formed.
pub proof fn cast_preserves_wf(
    ballots: Seq<BallotModel>,
    voter_id: nat,
    office_1: Seq<char>,
    office_2: Seq<char>,
    office_3: Seq<char>,
)
    requires
        ledger_wf(ballots),
    ensures
        ledger_wf(cast_ballot_spec(ballots, voter_id, office_1, office_2, office_3).1),
{
    let after = cast_ballot_spec(ballots, voter_id, office_1, office_2, office_3).1;
    if after != ballots {
        assert forall|i: int, j: int| 0 <= i < j < after.len() implies (#[trigger] after[i]).voter_id
            != (#[trigger] after[j]).voter_id by {
            if j == ballots.len() {
                assert(ballots[i].voter_id != voter_id);
            } else {
                assert(after[i] == ballots[i] && after[j] == ballots[j]);
            }
        }
    }
}

/// One voter, one ballot: once a cast for a voter has succeeded, another for
/// the same voter fails with `DuplicateBallot` and changes nothing, and the
/// ballot on record is the one that was cast first.
pub proof fn one_ballot_per_voter(
    ballots: Seq<BallotModel>,
    voter_id: nat,
    first: (Seq<char>, Seq<char>, Seq<char>),
    second: (Seq<char>, Seq<char>, Seq<char>),
)
    requires
        ledger_wf(ballots),
        cast_ballot_spec(ballots, voter_id, first.0, first.1, first.2).0 is Ok,
    ensures
        ({
            let after = cast_ballot_spec(ballots, voter_id, first.0, first.1, first.2).1;
            &&& cast_ballot_spec(after, voter_id, second.0, second.1, second.2) == (
                Err::<(), Error>(Error::DuplicateBallot),
                after,
            )
            &&& recorded_ballot(after, voter_id) == Some(
                BallotModel {
                    id: ballots.len() + 1,
                    voter_id,
                    office_1_selection: first.0,
                    office_2_selection: first.1,
                    office_3_selection: first.2,
                },
            )
        }),
{
    let after = cast_ballot_spec(ballots, voter_id, first.0, first.1, first.2).1;
    let last = ballots.len() as int;
    cast_preserves_wf(ballots, voter_id, first.0, first.1, first.2);
    assert(after[last].voter_id == voter_id);
    let c = choose|c: int| 0 <= c < after.len() && (#[trigger] after[c]).voter_id == voter_id;
    assert(c == last);
}

/// Ballots are permanent: whatever is cast afterwards, for whichever voter
/// and with whatever outcome, a voter who has voted stays so and their ballot
/// on record stays the same.
pub proof fn ballots_are_permanent(
    ballots: Seq<BallotModel>,
    voter_id: nat,
    other_voter: nat,
    later: (Seq<char>, Seq<char>, Seq<char>),
)
    requires
        ledger_wf(ballots),
        has_voted(ballots, voter_id),
    ensures
        ({
            let after = cast_ballot_spec(ballots, other_voter, later.0, later.1, later.2).1;
            &&& voter_state(after, voter_id) == VoterState::HasVoted
            &&& recorded_ballot(after, voter_id) == recorded_ballot(ballots, voter_id)
        }),
{
    let after = cast_ballot_spec(ballots, other_voter, later.0, later.1, later.2).1;
    cast_preserves_wf(ballots, other_voter, later.0, later.1, later.2);
    let b = choose|b: int| 0 <= b < ballots.len() && (#[trigger] ballots[b]).voter_id == voter_id;
    assert(after[b] == ballots[b]);
    assert(after[b].voter_id == voter_id);
    let a = choose|a: int| 0 <= a < after.len() && (#[trigger] after[a]).voter_id == voter_id;
    assert(a == b);
}

/// One voter, one ballot, ever: after any run of requests, a voter who had
/// voted before it still has the same ballot on record, and one more request
/// for that voter fails with `DuplicateBallot` and changes nothing.
pub proof fn first_ballot_outlives_every_history(
    ballots: Seq<BallotModel>,
    voter_id: nat,
    requests: Seq<CastRequest>,
    late: (Seq<char>, Seq<char>, Seq<char>),
)
    requires
        ledger_wf(ballots),
        has_voted(ballots, voter_id),
    ensures
        ({
            let after = cast_each(ballots, requests);
            &&& ledger_wf(after)
            &&& voter_state(after, voter_id) == VoterState::HasVoted
            &&& recorded_ballot(after, voter_id) == recorded_ballot(ballots, voter_id)
            &&& cast_ballot_spec(after, voter_id, late.0, late.1, late.2) == (
                Err::<(), Error>(Error::DuplicateBallot),
                after,
            )
        }),
    decreases requests.len(),
{
    if requests.len() > 0 {
        let request = requests.last();
        let before = cast_each(ballots, requests.drop_last());
        first_ballot_outlives_every_history(ballots, voter_id, requests.drop_last(), late);
        cast_preserves_wf(
            before,
            request.voter_id,
            request.office_1,
            request.office_2,
            request.office_3,
        );
        ballots_are_permanent(
            before,
            voter_id,
            request.voter_id,
            (request.office_1, request.office_2, request.office_3),
        );
    }
}

} // verus!
