//! The proposal engine: proposals, a shared choice arena, and execution.
//!
//! A proposal runs through one fixed window, collects at most one vote per
//! account, and is then executed: quorum failure is terminal, otherwise the
//! first choice (in creation order) whose tally meets the support threshold
//! wins, and a winning proposal with a treasury trigger pays out through the
//! treasury. Choices of all proposals live in one append-only arena; each
//! proposal owns the half-open slice `[choice_index_lo, choice_index_ho)`.
//!
//! Proposal status is write-once: `0` while open, then exactly one of `1`
//! (succeeded), `2` (failed quorum) or `3` (failed transfer) at the moment
//! `executed` becomes true; an executed proposal is never executed again.

use crate::account::{AccountId, NATIVE_TOKEN, ZERO_ACCOUNT};
use crate::auth::Auth;
use crate::page::{cal_pages, page_meta, spec_start, valid_page_params, PageResult};
use crate::text::{join_str, lemma_split_count, spec_join, spec_split, spec_u64_dec, split_str,
    u64_to_dec, views};
use crate::token::TokenPort;
use crate::vault::{entry_shape, VaultManager};
use vstd::prelude::*;

verus! {

/// Status of a proposal that is still open (or executed with quorum met but
/// no winning choice).
pub const STATUS_OPEN: u32 = 0;

/// Terminal status: a choice met the threshold (and any trigger paid out).
pub const STATUS_SUCCEEDED: u32 = 1;

/// Terminal status: too few votes at window close.
pub const STATUS_FAILED_QUORUM: u32 = 2;

/// Terminal status: the winning proposal's treasury trigger was refused.
pub const STATUS_FAILED_TRANSFER: u32 = 3;

/// One selectable option, with its identifier within its proposal's slice
/// and its running tally.
pub struct Choice {
    pub choice_id: u32,
    pub content: String,
    pub yea: u64,
}

/// One proposal.
pub struct Vote {
    pub vote_id: u64,
    pub executed: bool,
    pub title: String,
    pub desc: String,
    pub need_trigger: bool,
    pub start_date: u64,
    pub vote_time: u64,
    pub support_require_num: u64,
    pub min_require_num: u64,
    pub support_num: u64,
    pub erc20_address: AccountId,
    pub to_address: AccountId,
    pub value: u64,
    pub choice_index_lo: u32,
    pub choice_index_ho: u32,
    pub status: u32,
}

/// A proposal as the queries hand it out: denormalized, with the rendered
/// choice tallies and the trigger token's display data.
pub struct DisplayVote {
    pub vote_id: u64,
    pub executed: bool,
    pub title: String,
    pub desc: String,
    pub need_trigger: bool,
    pub start_date: u64,
    pub vote_time: u64,
    pub support_require_num: u64,
    pub min_require_num: u64,
    pub support_num: u64,
    pub choices: String,
    pub erc20_address: AccountId,
    pub erc20_symbol: String,
    pub erc20_name: String,
    pub erc20_balance: u64,
    pub to_address: AccountId,
    pub transfer_value: u64,
    pub status: u32,
}

/// A proposal was created.
pub struct StartVote {
    pub vote_id: u64,
    pub creator: AccountId,
}

/// A vote was cast. `voter` records the account the host reported as the
/// caller of the cast.
pub struct CastVote {
    pub vote_id: u64,
    pub voter: AccountId,
    pub support_choice: u32,
}

/// A proposal was executed past its window.
pub struct ExecuteVote {
    pub vote_id: u64,
}

/// A notification, as appended to the proposal engine's event log.
pub enum VoteEvent {
    Start(StartVote),
    Cast(CastVote),
    Execute(ExecuteVote),
}

/// Which proposals a query selects.
#[derive(Clone, Copy, PartialEq, Eq, Structural)]
pub enum VoteClass {
    All,
    Open,
    Wait,
    History,
}

/// The voting window is still open at `now`.
pub open spec fn spec_window_open(v: Vote, now: u64) -> bool {
    now < v.start_date + v.vote_time
}

/// Too few votes to finalize: below the quorum, or none at all.
pub open spec fn spec_quorum_failed(v: Vote) -> bool {
    v.support_num < v.min_require_num || v.support_num == 0
}

/// The first position in `[lo, ho)` whose tally meets `threshold`.
pub open spec fn first_winner_from(choices: Seq<Choice>, threshold: u64, lo: int, ho: int) -> Option<
    int,
>
    decreases ho - lo,
{
    if lo >= ho {
        None
    } else if choices[lo].yea >= threshold {
        Some(lo)
    } else {
        first_winner_from(choices, threshold, lo + 1, ho)
    }
}

/// The first choice of `v`'s slice meeting `v`'s support threshold: ties are
/// broken by creation order.
pub open spec fn spec_first_winner(choices: Seq<Choice>, v: Vote) -> Option<int> {
    first_winner_from(
        choices,
        v.support_require_num,
        v.choice_index_lo as int,
        v.choice_index_ho as int,
    )
}

/// How many voter records belong to proposal `vote_id`.
pub open spec fn count_voters(vs: Seq<((u64, AccountId), u32)>, vote_id: u64) -> int
    decreases vs.len(),
{
    if vs.len() == 0 {
        0
    } else {
        count_voters(vs.drop_last(), vote_id) + if vs.last().0.0 == vote_id {
            1int
        } else {
            0int
        }
    }
}

/// A proposal's voter count never exceeds the record count.
pub proof fn lemma_count_voters_bound(vs: Seq<((u64, AccountId), u32)>, vote_id: u64)
    ensures
        0 <= count_voters(vs, vote_id) <= vs.len(),
    decreases vs.len(),
{
    if vs.len() > 0 {
        lemma_count_voters_bound(vs.drop_last(), vote_id);
    }
}

/// Appending one record raises exactly its own proposal's count by one.
pub proof fn lemma_count_voters_push(
    vs: Seq<((u64, AccountId), u32)>,
    p: ((u64, AccountId), u32),
    vote_id: u64,
)
    ensures
        count_voters(vs.push(p), vote_id) == count_voters(vs, vote_id) + if p.0.0 == vote_id {
            1int
        } else {
            0int
        },
{
    assert(vs.push(p).drop_last() =~= vs);
}

/// Membership of a proposal in a query's class, at query time `now`.
pub open spec fn vote_in_class(v: Vote, class: VoteClass, now: u64) -> bool {
    match class {
        VoteClass::All => true,
        VoteClass::Open => now < v.start_date + v.vote_time,
        VoteClass::Wait => now > v.start_date + v.vote_time && (!v.executed || (v.need_trigger
            && v.status == STATUS_FAILED_TRANSFER)),
        VoteClass::History => !(now < v.start_date + v.vote_time) && v.executed && v.status
            != STATUS_FAILED_TRANSFER,
    }
}

/// The identifiers of the proposals in a class, ascending.
pub open spec fn keys_in_class(vs: Seq<Vote>, class: VoteClass, now: u64) -> Seq<u64>
    decreases vs.len(),
{
    if vs.len() == 0 {
        Seq::<u64>::empty()
    } else {
        let p = keys_in_class(vs.drop_last(), class, now);
        if vote_in_class(vs.last(), class, now) {
            p.push(vs.last().vote_id)
        } else {
            p
        }
    }
}

/// The rendered tally of one choice: its content, a colon, its count.
pub open spec fn tally_text(c: Choice) -> Seq<char> {
    c.content@ + ":"@ + spec_u64_dec(c.yea as int)
}

/// The rendered tallies of a sequence of choices.
pub open spec fn tally_texts(cs: Seq<Choice>) -> Seq<Seq<char>> {
    cs.map_values(|c: Choice| tally_text(c))
}

/// The rendered tallies of a proposal's slice, joined with `|`.
pub open spec fn display_choices(choices: Seq<Choice>, lo: int, ho: int) -> Seq<char> {
    spec_join(tally_texts(choices.subrange(lo, ho)), "|"@)
}

/// What a display row says about its proposal. Everything is pinned except
/// the symbol, name and balance of a fungible trigger token, which are
/// whatever the token contract answers.
pub open spec fn display_matches(
    d: DisplayVote,
    v: Vote,
    choices: Seq<Choice>,
    vault: VaultManager,
) -> bool {
    &&& d.vote_id == v.vote_id
    &&& d.executed == v.executed
    &&& d.title@ == v.title@
    &&& d.desc@ == v.desc@
    &&& d.need_trigger == v.need_trigger
    &&& d.start_date == v.start_date
    &&& d.vote_time == v.vote_time
    &&& d.support_require_num == v.support_require_num
    &&& d.min_require_num == v.min_require_num
    &&& d.support_num == v.support_num
    &&& d.choices@ == display_choices(choices, v.choice_index_lo as int, v.choice_index_ho as int)
    &&& d.erc20_address == v.erc20_address
    &&& d.to_address == v.to_address
    &&& d.transfer_value == v.value
    &&& d.status == v.status
    &&& !v.need_trigger ==> d.erc20_symbol@ == ""@ && d.erc20_name@ == ""@ && d.erc20_balance == 0
    &&& v.need_trigger && v.erc20_address == NATIVE_TOKEN ==> d.erc20_symbol@ == "gov"@
        && d.erc20_name@ == "subDAO"@ && d.erc20_balance == vault.native_balance as u64
}

/// The proposal engine.
pub struct VoteManager {
    pub vault_address: AccountId,
    pub auth_address: AccountId,
    pub votes_length: u64,
    pub votes: Vec<Vote>,
    pub voters: Vec<((u64, AccountId), u32)>,
    pub choices: Vec<Choice>,
    pub choices_num: u32,
    pub events: Vec<VoteEvent>,
}

impl VoteManager {
    /// Internal consistency: proposal identifiers are dense, every slice lies
    /// within the arena, window arithmetic cannot overflow, statuses are
    /// meaningful and open until execution, the support counters agree with
    /// the voter records, no account has two records on one proposal, and
    /// tallies are bounded by the record count.
    pub open spec fn wf(self) -> bool {
        &&& self.votes_length == self.votes@.len()
        &&& self.choices_num == self.choices@.len()
        &&& forall|i: int| 0 <= i < self.votes@.len() ==> (#[trigger] self.votes@[i]).vote_id == i
        &&& forall|i: int|
            0 <= i < self.votes@.len() ==> (#[trigger] self.votes@[i]).choice_index_lo
                <= self.votes@[i].choice_index_ho <= self.choices@.len()
        &&& forall|i: int|
            0 <= i < self.votes@.len() ==> (#[trigger] self.votes@[i]).start_date
                + self.votes@[i].vote_time <= u64::MAX
        &&& forall|i: int| 0 <= i < self.votes@.len() ==> (#[trigger] self.votes@[i]).status <= 3
        &&& forall|i: int|
            0 <= i < self.votes@.len() && !(#[trigger] self.votes@[i]).executed ==> self.votes@[i].status
                == STATUS_OPEN
        &&& forall|i: int|
            0 <= i < self.votes@.len() ==> (#[trigger] self.votes@[i]).support_num == count_voters(
                self.voters@,
                self.votes@[i].vote_id,
            )
        &&& forall|i: int, j: int|
            0 <= i < j < self.voters@.len() ==> (#[trigger] self.voters@[i]).0 != (
            #[trigger] self.voters@[j]).0
        &&& forall|i: int|
            0 <= i < self.voters@.len() ==> (#[trigger] self.voters@[i]).0.0 < self.votes_length
        &&& forall|i: int|
            0 <= i < self.choices@.len() ==> (#[trigger] self.choices@[i]).yea <= self.voters@.len()
    }

    /// Proposal `vote_id` exists.
    pub open spec fn spec_vote_exists(self, vote_id: u64) -> bool {
        vote_id < self.votes_length
    }

    /// Account `voter` has a recorded choice on proposal `vote_id`.
    pub open spec fn spec_voted(self, vote_id: u64, voter: AccountId) -> bool {
        exists|i: int|
            0 <= i < self.voters@.len() && (#[trigger] self.voters@[i]).0 == (vote_id, voter)
    }

    /// Every gate a cast must pass: the proposal exists, the caller holds
    /// `(vote, vote)`, the choice lies in the proposal's slice, and the voter
    /// has not voted on it before.
    pub open spec fn spec_vote_allowed(
        self,
        auth: Auth,
        caller: AccountId,
        vote_id: u64,
        support_choice: u32,
        voter: AccountId,
    ) -> bool {
        &&& vote_id < self.votes_length
        &&& auth.spec_has_permission(caller, "vote"@, "vote"@)
        &&& support_choice < self.votes@[vote_id as int].choice_index_ho - self.votes@[vote_id as int].choice_index_lo
        &&& !self.spec_voted(vote_id, voter)
    }

    /// Executing `vote_id` at `now` reaches the treasury trigger: the window
    /// is over, the proposal is fresh, quorum is met, some choice wins, and
    /// the proposal carries a trigger.
    pub open spec fn spec_executes_trigger(self, vote_id: u64, now: u64) -> bool {
        let v = self.votes@[vote_id as int];
        &&& vote_id < self.votes_length
        &&& !spec_window_open(v, now)
        &&& !v.executed
        &&& !spec_quorum_failed(v)
        &&& spec_first_winner(self.choices@, v) is Some
        &&& v.need_trigger
    }

    pub fn new(vault_address: AccountId, auth_address: AccountId) -> (r: Self)
        ensures
            r.wf(),
            r.vault_address == vault_address,
            r.auth_address == auth_address,
            r.votes_length == 0,
            r.votes@ =~= Seq::<Vote>::empty(),
            r.voters@ =~= Seq::<((u64, AccountId), u32)>::empty(),
            r.choices@ =~= Seq::<Choice>::empty(),
            r.choices_num == 0,
            r.events@ =~= Seq::<VoteEvent>::empty(),
    {
        VoteManager {
            vault_address,
            auth_address,
            votes_length: 0,
            votes: Vec::new(),
            voters: Vec::new(),
            choices: Vec::new(),
            choices_num: 0,
            events: Vec::new(),
        }
    }

    /// The shared body of the two proposal constructors.
    fn create_vote(
        &mut self,
        caller: AccountId,
        title: String,
        desc: String,
        vote_time: u64,
        support_require_num: u64,
        min_require_num: u64,
        choices: String,
        need_trigger: bool,
        erc20_address: AccountId,
        to_address: AccountId,
        value: u64,
        now: u64,
    ) -> (r: u64)
        requires
            old(self).wf(),
            old(self).votes@.len() < u64::MAX,
            old(self).choices@.len() + choices@.len() + 1 <= u32::MAX,
            now + vote_time <= u64::MAX,
        ensures
            final(self).wf(),
            r == old(self).votes_length,
            final(self).votes_length == old(self).votes_length + 1,
            final(self).votes@ =~= old(self).votes@.push(
                (Vote {
                    vote_id: old(self).votes_length,
                    executed: false,
                    title: title,
                    desc: desc,
                    need_trigger: need_trigger,
                    start_date: now,
                    vote_time: vote_time,
                    support_require_num: support_require_num,
                    min_require_num: min_require_num,
                    support_num: 0,
                    erc20_address: erc20_address,
                    to_address: to_address,
                    value: value,
                    choice_index_lo: old(self).choices_num,
                    choice_index_ho: (old(self).choices_num + spec_split(choices@, '|').len()) as u32,
                    status: STATUS_OPEN,
                }),
            ),
            final(self).choices@.len() == old(self).choices@.len() + spec_split(
                choices@,
                '|',
            ).len(),
            final(self).choices@.subrange(0, old(self).choices@.len() as int) =~= old(self).choices@,
            forall|k: int|
                0 <= k < spec_split(choices@, '|').len() ==> {
                    let c = #[trigger] final(self).choices@[old(self).choices@.len() + k];
                    &&& c.choice_id == k
                    &&& c.content@ == spec_split(choices@, '|')[k]
                    &&& c.yea == 0
                },
            final(self).voters@ == old(self).voters@,
            final(self).events@ =~= old(self).events@.push(
                VoteEvent::Start((StartVote { vote_id: old(self).votes_length, creator: caller })),
            ),
            final(self).vault_address == old(self).vault_address,
            final(self).auth_address == old(self).auth_address,
    {
        let vote_id = self.votes_length;
        self.votes_length = self.votes_length + 1;
        let pieces = split_str(choices.as_str(), '|');
        proof {
            lemma_split_count(choices@, '|');
        }
        let choices_len = pieces.len() as u32;
        let vote = Vote {
            vote_id,
            executed: false,
            title,
            desc,
            start_date: now,
            vote_time,
            need_trigger,
            support_require_num,
            min_require_num,
            support_num: 0,
            erc20_address,
            to_address,
            value,
            choice_index_lo: self.choices_num,
            choice_index_ho: self.choices_num + choices_len,
            status: STATUS_OPEN,
        };
        self.choices_num = self.choices_num + choices_len;
        let ghost pre_choices = self.choices@;
        let ghost pre_loop = *self;
        let n = pieces.len();
        let mut index: usize = 0;
        while index < n
            invariant
                n == pieces@.len(),
                n == spec_split(choices@, '|').len(),
                n <= u32::MAX,
                views(pieces@) =~~= spec_split(choices@, '|'),
                0 <= index <= n,
                self.choices@.len() == pre_choices.len() + index,
                self.choices@.subrange(0, pre_choices.len() as int) =~= pre_choices,
                self.votes@ == pre_loop.votes@,
                self.voters@ == pre_loop.voters@,
                self.events@ == pre_loop.events@,
                self.votes_length == pre_loop.votes_length,
                self.choices_num == pre_loop.choices_num,
                self.vault_address == pre_loop.vault_address,
                self.auth_address == pre_loop.auth_address,
                forall|k: int|
                    0 <= k < index ==> {
                        let c = #[trigger] self.choices@[pre_choices.len() + k];
                        &&& c.choice_id == k
                        &&& c.content@ == spec_split(choices@, '|')[k]
                        &&& c.yea == 0
                    },
            decreases n - index,
        {
            self.choices.push(
                Choice { choice_id: index as u32, content: pieces[index].clone(), yea: 0 },
            );
            index += 1;
            proof {
                assert(views(pieces@)[index - 1] == pieces@[index - 1]@);
                assert(self.choices@[pre_choices.len() + (index - 1)].content@ == spec_split(
                    choices@,
                    '|',
                )[index - 1]);
            }
        }
        self.votes.push(vote);
        self.events.push(VoteEvent::Start(StartVote { vote_id, creator: caller }));
        proof {
            assert forall|i: int| 0 <= i < self.choices@.len() implies (
            #[trigger] self.choices@[i]).yea <= self.voters@.len() by {
                if i < pre_choices.len() {
                    assert(self.choices@.subrange(0, pre_choices.len() as int)[i]
                        == self.choices@[i]);
                    assert(pre_choices[i] == old(self).choices@[i]);
                } else {
                    let k = i - pre_choices.len();
                    assert(self.choices@[pre_choices.len() + k].yea == 0);
                }
            }
            assert forall|i: int| 0 <= i < self.votes@.len() implies (
            #[trigger] self.votes@[i]).support_num == count_voters(
                self.voters@,
                self.votes@[i].vote_id,
            ) by {
                if i < self.votes@.len() - 1 {
                    assert(self.votes@[i] == old(self).votes@[i]);
                } else {
                    lemma_count_voters_bound(self.voters@, self.votes@[i].vote_id);
                    assert(count_voters(self.voters@, vote_id) <= self.voters@.len());
                    assert forall|j: int|
                        0 <= j < self.voters@.len() implies (#[trigger] self.voters@[j]).0.0
                        != vote_id by {
                        assert(self.voters@[j] == old(self).voters@[j]);
                        assert(old(self).voters@[j].0.0 < old(self).votes_length);
                    }
                    lemma_no_voters_count(self.voters@, vote_id);
                }
            }
        }
        vote_id
    }

    /// Creates a proposal with no treasury trigger. The caller must hold
    /// `(vote, new)`; `choices` is split on `|` into the proposal's options.
    /// Returns the new proposal's identifier.
    pub fn new_vote(
        &mut self,
        auth: &Auth,
        caller: AccountId,
        title: String,
        desc: String,
        vote_time: u64,
        support_require_num: u64,
        min_require_num: u64,
        choices: String,
        now: u64,
    ) -> (r: u64)
        requires
            old(self).wf(),
            auth.wf(),
            auth.spec_has_permission(caller, "vote"@, "new"@),
            old(self).votes@.len() < u64::MAX,
            old(self).choices@.len() + choices@.len() + 1 <= u32::MAX,
            now + vote_time <= u64::MAX,
        ensures
            final(self).wf(),
            r == old(self).votes_length,
            final(self).votes_length == old(self).votes_length + 1,
            final(self).votes@ =~= old(self).votes@.push(
                (Vote {
                    vote_id: old(self).votes_length,
                    executed: false,
                    title: title,
                    desc: desc,
                    need_trigger: false,
                    start_date: now,
                    vote_time: vote_time,
                    support_require_num: support_require_num,
                    min_require_num: min_require_num,
                    support_num: 0,
                    erc20_address: ZERO_ACCOUNT,
                    to_address: ZERO_ACCOUNT,
                    value: 0,
                    choice_index_lo: old(self).choices_num,
                    choice_index_ho: (old(self).choices_num + spec_split(choices@, '|').len()) as u32,
                    status: STATUS_OPEN,
                }),
            ),
            final(self).choices@.len() == old(self).choices@.len() + spec_split(
                choices@,
                '|',
            ).len(),
            final(self).choices@.subrange(0, old(self).choices@.len() as int) =~= old(self).choices@,
            forall|k: int|
                0 <= k < spec_split(choices@, '|').len() ==> {
                    let c = #[trigger] final(self).choices@[old(self).choices@.len() + k];
                    &&& c.choice_id == k
                    &&& c.content@ == spec_split(choices@, '|')[k]
                    &&& c.yea == 0
                },
            final(self).voters@ == old(self).voters@,
            final(self).events@ =~= old(self).events@.push(
                VoteEvent::Start((StartVote { vote_id: old(self).votes_length, creator: caller })),
            ),
    {
        self.create_vote(
            caller,
            title,
            desc,
            vote_time,
            support_require_num,
            min_require_num,
            choices,
            false,
            ZERO_ACCOUNT,
            ZERO_ACCOUNT,
            0,
            now,
        )
    }

    /// Creates a proposal that, on success, pays `value` of the token at
    /// `erc20_address` to `to_address` from the treasury. The caller must
    /// hold `(vote, new)`.
    pub fn new_vote_with_transfer(
        &mut self,
        auth: &Auth,
        caller: AccountId,
        title: String,
        desc: String,
        vote_time: u64,
        support_require_num: u64,
        min_require_num: u64,
        choices: String,
        erc20_address: AccountId,
        to_address: AccountId,
        value: u64,
        now: u64,
    ) -> (r: u64)
        requires
            old(self).wf(),
            auth.wf(),
            auth.spec_has_permission(caller, "vote"@, "new"@),
            old(self).votes@.len() < u64::MAX,
            old(self).choices@.len() + choices@.len() + 1 <= u32::MAX,
            now + vote_time <= u64::MAX,
        ensures
            final(self).wf(),
            r == old(self).votes_length,
            final(self).votes_length == old(self).votes_length + 1,
            final(self).votes@ =~= old(self).votes@.push(
                (Vote {
                    vote_id: old(self).votes_length,
                    executed: false,
                    title: title,
                    desc: desc,
                    need_trigger: true,
                    start_date: now,
                    vote_time: vote_time,
                    support_require_num: support_require_num,
                    min_require_num: min_require_num,
                    support_num: 0,
                    erc20_address: erc20_address,
                    to_address: to_address,
                    value: value,
                    choice_index_lo: old(self).choices_num,
                    choice_index_ho: (old(self).choices_num + spec_split(choices@, '|').len()) as u32,
                    status: STATUS_OPEN,
                }),
            ),
            final(self).choices@.len() == old(self).choices@.len() + spec_split(
                choices@,
                '|',
            ).len(),
            final(self).choices@.subrange(0, old(self).choices@.len() as int) =~= old(self).choices@,
            forall|k: int|
                0 <= k < spec_split(choices@, '|').len() ==> {
                    let c = #[trigger] final(self).choices@[old(self).choices@.len() + k];
                    &&& c.choice_id == k
                    &&& c.content@ == spec_split(choices@, '|')[k]
                    &&& c.yea == 0
                },
            final(self).voters@ == old(self).voters@,
            final(self).events@ =~= old(self).events@.push(
                VoteEvent::Start((StartVote { vote_id: old(self).votes_length, creator: caller })),
            ),
    {
        self.create_vote(
            caller,
            title,
            desc,
            vote_time,
            support_require_num,
            min_require_num,
            choices,
            true,
            erc20_address,
            to_address,
            value,
            now,
        )
    }

    /// Does `voter` have a recorded choice on proposal `vote_id`?
    fn has_voted(&self, vote_id: u64, voter: AccountId) -> (r: bool)
        ensures
            r == self.spec_voted(vote_id, voter),
    {
        let n = self.voters.len();
        let mut i: usize = 0;
        while i < n
            invariant
                n == self.voters@.len(),
                0 <= i <= n,
                forall|j: int| 0 <= j < i ==> (#[trigger] self.voters@[j]).0 != (vote_id, voter),
            decreases n - i,
        {
            let e = &self.voters[i];
            if e.0.0 == vote_id && e.0.1 == voter {
                return true;
            }
            i += 1;
        }
        false
    }

    /// Casts `voter`'s vote for `support_choice` on proposal `vote_id`. The
    /// cast is rejected — `false`, nothing changed — when the proposal does
    /// not exist, the caller lacks `(vote, vote)`, the choice is outside the
    /// proposal's slice, or the voter already voted on this proposal; a
    /// recorded vote is permanent. Otherwise the chosen tally and the
    /// proposal's support count each rise by one and the choice is recorded.
    pub fn vote(
        &mut self,
        auth: &Auth,
        caller: AccountId,
        vote_id: u64,
        support_choice: u32,
        voter: AccountId,
    ) -> (r: bool)
        requires
            old(self).wf(),
            auth.wf(),
            old(self).voters@.len() < u64::MAX,
        ensures
            final(self).wf(),
            r == old(self).spec_vote_allowed(*auth, caller, vote_id, support_choice, voter),
            !r ==> *final(self) == *old(self),
            r ==> ({
                let v = old(self).votes@[vote_id as int];
                let ci = v.choice_index_lo + support_choice;
                &&& final(self).votes@ =~= old(self).votes@.update(
                    vote_id as int,
                    (Vote { support_num: (v.support_num + 1) as u64, ..v }),
                )
                &&& final(self).choices@ =~= old(self).choices@.update(
                    ci as int,
                    (Choice {
                        yea: (old(self).choices@[ci as int].yea + 1) as u64,
                        ..old(self).choices@[ci as int]
                    }),
                )
                &&& final(self).voters@ =~= old(self).voters@.push(((vote_id, voter), support_choice))
                &&& final(self).events@ =~= old(self).events@.push(
                    VoteEvent::Cast((CastVote { vote_id, voter: caller, support_choice })),
                )
                &&& final(self).votes_length == old(self).votes_length
                &&& final(self).choices_num == old(self).choices_num
            }),
    {
        // learn that the proposal vector's length fits the machine's indices
        let _votes_len = self.votes.len();
        if vote_id >= self.votes_length {
            return false;
        }
        if !auth.has_permission(caller, String::from_str("vote"), String::from_str("vote")) {
            return false;
        }
        let idx = vote_id as usize;
        let lo = self.votes[idx].choice_index_lo;
        let ho = self.votes[idx].choice_index_ho;
        if support_choice >= ho - lo {
            return false;
        }
        if self.has_voted(vote_id, voter) {
            return false;
        }
        let ghost pre = *self;
        let choice_vec_index = (lo + support_choice) as usize;
        proof {
            assert(pre.choices@[choice_vec_index as int].yea <= pre.voters@.len());
        }
        self.choices[choice_vec_index].yea = self.choices[choice_vec_index].yea + 1;
        self.voters.push(((vote_id, voter), support_choice));
        proof {
            lemma_count_voters_bound(pre.voters@, vote_id);
        }
        self.votes[idx].support_num = self.votes[idx].support_num + 1;
        self.events.push(VoteEvent::Cast(CastVote { vote_id, voter: caller, support_choice }));
        proof {
            assert forall|i: int| 0 <= i < self.votes@.len() implies (
            #[trigger] self.votes@[i]).support_num == count_voters(
                self.voters@,
                self.votes@[i].vote_id,
            ) by {
                lemma_count_voters_push(
                    pre.voters@,
                    ((vote_id, voter), support_choice),
                    self.votes@[i].vote_id,
                );
                if i != vote_id as int {
                    assert(self.votes@[i] == pre.votes@[i]);
                }
            }
            assert(self.votes@ =~= pre.votes@.update(
                vote_id as int,
                (Vote {
                    support_num: (pre.votes@[vote_id as int].support_num + 1) as u64,
                    ..pre.votes@[vote_id as int]
                }),
            ));
            assert(self.choices@ =~= pre.choices@.update(
                choice_vec_index as int,
                (Choice {
                    yea: (pre.choices@[choice_vec_index as int].yea + 1) as u64,
                    ..pre.choices@[choice_vec_index as int]
                }),
            ));
        }
        true
    }

    /// Executes proposal `vote_id` at time `now`. A proposal whose window is
    /// still open, or which was executed before, is left alone (`true`).
    /// Otherwise it is executed exactly once: quorum failure is recorded
    /// (`false`, treasury untouched); with quorum met, the first choice
    /// meeting the threshold wins — no winner leaves the status open, a
    /// winner succeeds, and a winner with a trigger pays out through the
    /// treasury, a refused payout recording the failed-transfer status
    /// (`false`) with no ledger entry.
    pub fn execute<T: TokenPort>(
        &mut self,
        vault: &mut VaultManager,
        port: &mut T,
        vote_id: u64,
        now: u64,
    ) -> (r: bool)
        requires
            old(self).wf(),
            old(vault).wf(),
            vote_id < old(self).votes_length,
            old(self).spec_executes_trigger(vote_id, now) ==> old(vault).transfer_history@.len()
                < u64::MAX,
            old(self).spec_executes_trigger(vote_id, now) && old(self).votes@[vote_id as int].erc20_address
                == NATIVE_TOKEN ==> old(vault).native_balance >= old(self).votes@[vote_id as int].value,
        ensures
            final(self).wf(),
            final(vault).wf(),
            final(self).votes_length == old(self).votes_length,
            final(self).choices@ == old(self).choices@,
            final(self).voters@ == old(self).voters@,
            final(self).choices_num == old(self).choices_num,
            old(vault).same_addresses(*final(vault)),
            final(vault).tokens@ == old(vault).tokens@,
            final(vault).visible_tokens@ == old(vault).visible_tokens@,
            ({
                let v = old(self).votes@[vote_id as int];
                let winner = spec_first_winner(old(self).choices@, v);
                &&& (spec_window_open(v, now) || v.executed) ==> r == true && *final(self) == *old(
                    self,
                ) && *final(vault) == *old(vault)
                &&& (!spec_window_open(v, now) && !v.executed && spec_quorum_failed(v)) ==> {
                    &&& r == false
                    &&& final(self).votes@ =~= old(self).votes@.update(
                        vote_id as int,
                        (Vote { executed: true, status: STATUS_FAILED_QUORUM, ..v }),
                    )
                    &&& final(self).events@ == old(self).events@
                    &&& *final(vault) == *old(vault)
                }
                &&& (!spec_window_open(v, now) && !v.executed && !spec_quorum_failed(v)) ==> {
                    &&& final(self).events@ =~= old(self).events@.push(
                        VoteEvent::Execute((ExecuteVote { vote_id })),
                    )
                    &&& (winner is None ==> r == true && final(self).votes@ =~= old(
                        self,
                    ).votes@.update(vote_id as int, (Vote { executed: true, ..v })) && *final(vault)
                        == *old(vault))
                    &&& (winner is Some && !v.need_trigger ==> r == true && final(self).votes@ =~= old(
                        self,
                    ).votes@.update(
                        vote_id as int,
                        (Vote { executed: true, status: STATUS_SUCCEEDED, ..v }),
                    ) && *final(vault) == *old(vault))
                    &&& (winner is Some && v.need_trigger ==> {
                        &&& final(self).votes@ =~= old(self).votes@.update(
                            vote_id as int,
                            (Vote {
                                executed: true,
                                status: (if r {
                                    STATUS_SUCCEEDED
                                } else {
                                    STATUS_FAILED_TRANSFER
                                }),
                                ..v
                            }),
                        )
                        &&& (r ==> final(vault).transfer_history@.len() == old(
                            vault,
                        ).transfer_history@.len() + 1 && final(vault).transfer_history@.subrange(
                            0,
                            old(vault).transfer_history@.len() as int,
                        ) =~= old(vault).transfer_history@ && entry_shape(
                            final(vault).transfer_history@.last(),
                            old(vault).transfer_history@.len() + 1,
                            1,
                            old(vault).vault_contract_address,
                            v.to_address,
                            v.value,
                            now,
                        ))
                        &&& (!r ==> *final(vault) == *old(vault))
                        &&& (v.erc20_address == NATIVE_TOKEN ==> r == true
                            && final(vault).native_balance == old(vault).native_balance - v.value)
                    })
                }
            }),
    {
        // learn that the proposal vector's length fits the machine's indices
        let _votes_len = self.votes.len();
        let idx = vote_id as usize;
        let start_date = self.votes[idx].start_date;
        let vote_time = self.votes[idx].vote_time;
        if now < start_date + vote_time || self.votes[idx].executed {
            return true;
        }
        let ghost pre = *self;
        self.votes[idx].executed = true;
        let support_num = self.votes[idx].support_num;
        let min_require_num = self.votes[idx].min_require_num;
        if support_num < min_require_num || support_num == 0 {
            self.votes[idx].status = STATUS_FAILED_QUORUM;
            proof {
                assert(self.votes@ =~= pre.votes@.update(
                    vote_id as int,
                    (Vote {
                        executed: true,
                        status: STATUS_FAILED_QUORUM,
                        ..pre.votes@[vote_id as int]
                    }),
                ));
            }
            return false;
        }
        let lo = self.votes[idx].choice_index_lo;
        let ho = self.votes[idx].choice_index_ho;
        let threshold = self.votes[idx].support_require_num;
        let winner = find_first_winner(&self.choices, threshold, lo, ho);
        let mut result = true;
        match winner {
            None => {},
            Some(_w) => {
                self.votes[idx].status = STATUS_SUCCEEDED;
                if self.votes[idx].need_trigger {
                    let erc20_address = self.votes[idx].erc20_address;
                    let to_address = self.votes[idx].to_address;
                    let value = self.votes[idx].value;
                    proof {
                        assert(pre.spec_executes_trigger(vote_id, now));
                    }
                    result = vault.withdraw(port, erc20_address, to_address, value, now);
                    if !result {
                        self.votes[idx].status = STATUS_FAILED_TRANSFER;
                    }
                }
            },
        }
        self.events.push(VoteEvent::Execute(ExecuteVote { vote_id }));
        proof {
            let v = pre.votes@[vote_id as int];
            let st = self.votes@[vote_id as int].status;
            assert(self.votes@ =~= pre.votes@.update(
                vote_id as int,
                (Vote { executed: true, status: st, ..v }),
            ));
        }
        result
    }

    /// Has `voter` already voted on the (existing) proposal `vote_id`?
    pub fn query_voter_vote_one(&self, vote_id: u64, voter: AccountId) -> (r: bool)
        requires
            self.wf(),
            self.spec_vote_exists(vote_id),
        ensures
            r == self.spec_voted(vote_id, voter),
    {
        self.has_voted(vote_id, voter)
    }

    /// The display row of one (existing) proposal.
    pub fn query_one_vote<T: TokenPort>(
        &self,
        vault: &VaultManager,
        port: &T,
        vote_id: u64,
    ) -> (d: DisplayVote)
        requires
            self.wf(),
            vault.wf(),
            self.spec_vote_exists(vote_id),
        ensures
            display_matches(d, self.votes@[vote_id as int], self.choices@, *vault),
    {
        // learn that the proposal vector's length fits the machine's indices
        let _votes_len = self.votes.len();
        let idx = vote_id as usize;
        self.convert_vote_to_displayvote(vault, port, idx)
    }

    /// One page of every proposal, newest first.
    pub fn query_all_vote<T: TokenPort>(
        &self,
        vault: &VaultManager,
        port: &T,
        page: u64,
        size: u64,
    ) -> (r: PageResult<DisplayVote>)
        requires
            self.wf(),
            vault.wf(),
            valid_page_params(page, size),
        ensures
            query_result_matches(r, *self, *vault, VoteClass::All, 0, page, size),
    {
        self.query_filtered(vault, port, VoteClass::All, 0, page, size)
    }

    /// One page of the proposals whose window is still open at `now`, newest
    /// first.
    pub fn query_active_vote<T: TokenPort>(
        &self,
        vault: &VaultManager,
        port: &T,
        now: u64,
        page: u64,
        size: u64,
    ) -> (r: PageResult<DisplayVote>)
        requires
            self.wf(),
            vault.wf(),
            valid_page_params(page, size),
        ensures
            query_result_matches(r, *self, *vault, VoteClass::Open, now, page, size),
    {
        self.query_filtered(vault, port, VoteClass::Open, now, page, size)
    }

    /// One page of the proposals past their window and awaiting execution
    /// (or a payout retry), newest first.
    pub fn query_pending_vote<T: TokenPort>(
        &self,
        vault: &VaultManager,
        port: &T,
        now: u64,
        page: u64,
        size: u64,
    ) -> (r: PageResult<DisplayVote>)
        requires
            self.wf(),
            vault.wf(),
            valid_page_params(page, size),
        ensures
            query_result_matches(r, *self, *vault, VoteClass::Wait, now, page, size),
    {
        self.query_filtered(vault, port, VoteClass::Wait, now, page, size)
    }

    /// One page of the executed proposals whose outcome is settled, newest
    /// first.
    pub fn query_history_vote<T: TokenPort>(
        &self,
        vault: &VaultManager,
        port: &T,
        now: u64,
        page: u64,
        size: u64,
    ) -> (r: PageResult<DisplayVote>)
        requires
            self.wf(),
            vault.wf(),
            valid_page_params(page, size),
        ensures
            query_result_matches(r, *self, *vault, VoteClass::History, now, page, size),
    {
        self.query_filtered(vault, port, VoteClass::History, now, page, size)
    }

    /// The shared body of the four query operations: select, reverse,
    /// paginate, convert.
    fn query_filtered<T: TokenPort>(
        &self,
        vault: &VaultManager,
        port: &T,
        class: VoteClass,
        now: u64,
        page: u64,
        size: u64,
    ) -> (r: PageResult<DisplayVote>)
        requires
            self.wf(),
            vault.wf(),
            valid_page_params(page, size),
        ensures
            query_result_matches(r, *self, *vault, class, now, page, size),
    {
        let n = self.votes.len();
        let mut keys: Vec<u64> = Vec::new();
        let mut i: usize = 0;
        while i < n
            invariant
                self.wf(),
                n == self.votes@.len(),
                0 <= i <= n,
                keys@ =~= keys_in_class(self.votes@.take(i as int), class, now),
                forall|j: int| 0 <= j < keys@.len() ==> (#[trigger] keys@[j]) < n,
            decreases n - i,
        {
            let v = &self.votes[i];
            if matches_class(v, class, now) {
                keys.push(v.vote_id);
            }
            i += 1;
            proof {
                assert(self.votes@.take(i as int).drop_last() =~= self.votes@.take(i - 1));
            }
        }
        proof {
            assert(self.votes@.take(n as int) =~= self.votes@);
        }
        let total = keys.len() as u64;
        let (start, end, pages) = cal_pages(page, size, total);
        let mut data: Vec<DisplayVote> = Vec::new();
        if start < end {
            let mut i2: u64 = start;
            while i2 < end
                invariant
                    self.wf(),
                    vault.wf(),
                    total == keys@.len(),
                    keys@.len() <= usize::MAX,
                    self.votes@.len() <= usize::MAX,
                    forall|j: int| 0 <= j < keys@.len() ==> (#[trigger] keys@[j]) < self.votes@.len(),
                    end <= total,
                    start <= i2 <= end,
                    data@.len() == i2 - start,
                    forall|j: int|
                        0 <= j < data@.len() ==> display_matches(
                            #[trigger] data@[j],
                            self.votes@[keys@[total - 1 - (start + j)] as int],
                            self.choices@,
                            *vault,
                        ),
                decreases end - i2,
            {
                let key = keys[(total - 1 - i2) as usize];
                data.push(self.convert_vote_to_displayvote(vault, port, key as usize));
                i2 += 1;
            }
        }
        PageResult {
            success: true,
            err: String::from_str("success"),
            total,
            pages,
            page,
            size,
            data,
        }
    }

    /// Builds the display row of the proposal at `idx`.
    fn convert_vote_to_displayvote<T: TokenPort>(
        &self,
        vault: &VaultManager,
        port: &T,
        idx: usize,
    ) -> (d: DisplayVote)
        requires
            self.wf(),
            vault.wf(),
            idx < self.votes@.len(),
        ensures
            display_matches(d, self.votes@[idx as int], self.choices@, *vault),
    {
        let vote = &self.votes[idx];
        let lo = vote.choice_index_lo as usize;
        let ho = vote.choice_index_ho as usize;
        // learn that the arena's length fits the machine's indices
        let _choices_len = self.choices.len();
        let mut entries: Vec<String> = Vec::new();
        let mut i = lo;
        while i < ho
            invariant
                self.wf(),
                lo <= i <= ho <= self.choices@.len(),
                views(entries@) =~~= tally_texts(self.choices@.subrange(lo as int, i as int)),
            decreases ho - i,
        {
            let ghost prev_entries = entries@;
            entries.push(tally_entry(&self.choices[i]));
            i += 1;
            proof {
                let sub_prev = self.choices@.subrange(lo as int, i - 1);
                let sub_new = self.choices@.subrange(lo as int, i as int);
                assert(sub_new.drop_last() =~= sub_prev);
                assert(sub_new.last() == self.choices@[i - 1]);
                let mapped = tally_texts(sub_new);
                assert(views(prev_entries).len() == prev_entries.len());
                assert(tally_texts(sub_prev).len() == sub_prev.len());
                assert(prev_entries.len() == sub_prev.len());
                assert(entries@.len() == sub_new.len());
                assert(mapped.len() == sub_new.len());
                assert(views(entries@).len() == entries@.len());
                assert forall|j: int| 0 <= j < entries@.len() implies views(entries@)[j]
                    == mapped[j] by {
                    assert(views(entries@)[j] == entries@[j]@);
                    assert(mapped[j] == tally_text(sub_new[j]));
                    if j < entries@.len() - 1 {
                        assert(entries@[j] == prev_entries[j]);
                        assert(views(prev_entries)[j] == prev_entries[j]@);
                        assert(sub_new[j] == sub_prev[j]);
                        assert(tally_texts(sub_prev)[j] == tally_text(sub_prev[j]));
                    }
                }
                assert(views(entries@) =~~= mapped);
            }
        }
        let choices_content = join_str(&entries, "|");
        let (erc20_symbol, erc20_name, erc20_balance) = if vote.need_trigger {
            if vote.erc20_address == NATIVE_TOKEN {
                (
                    String::from_str("gov"),
                    String::from_str("subDAO"),
                    vault.get_balance_of(port, vote.erc20_address),
                )
            } else {
                (
                    port.symbol(vote.erc20_address),
                    port.name(vote.erc20_address),
                    port.balance_of(vote.erc20_address, vault.vault_contract_address),
                )
            }
        } else {
            (String::from_str(""), String::from_str(""), 0)
        };
        DisplayVote {
            vote_id: vote.vote_id,
            executed: vote.executed,
            title: vote.title.clone(),
            desc: vote.desc.clone(),
            start_date: vote.start_date,
            vote_time: vote.vote_time,
            need_trigger: vote.need_trigger,
            support_require_num: vote.support_require_num,
            min_require_num: vote.min_require_num,
            support_num: vote.support_num,
            choices: choices_content,
            erc20_address: vote.erc20_address,
            erc20_symbol,
            erc20_name,
            erc20_balance,
            to_address: vote.to_address,
            transfer_value: vote.value,
            status: vote.status,
        }
    }
}

/// What the four query operations promise: correct pagination over the
/// class's key list, and each returned row displaying its proposal, newest
/// first.
pub open spec fn query_result_matches(
    r: PageResult<DisplayVote>,
    m: VoteManager,
    vault: VaultManager,
    class: VoteClass,
    now: u64,
    page: u64,
    size: u64,
) -> bool {
    let keys = keys_in_class(m.votes@, class, now);
    &&& page_meta(r, keys.len() as u64, page, size)
    &&& forall|j: int|
        0 <= j < r.data@.len() ==> display_matches(
            #[trigger] r.data@[j],
            m.votes@[keys[keys.len() - 1 - (spec_start(page, size) + j)] as int],
            m.choices@,
            vault,
        )
}

/// A record list with no record for `vote_id` counts zero voters for it.
proof fn lemma_no_voters_count(vs: Seq<((u64, AccountId), u32)>, vote_id: u64)
    requires
        forall|j: int| 0 <= j < vs.len() ==> (#[trigger] vs[j]).0.0 != vote_id,
    ensures
        count_voters(vs, vote_id) == 0,
    decreases vs.len(),
{
    if vs.len() > 0 {
        assert(forall|j: int| 0 <= j < vs.drop_last().len() ==> (#[trigger] vs.drop_last()[j]).0.0
            != vote_id);
        lemma_no_voters_count(vs.drop_last(), vote_id);
    }
}

/// The class membership test, executable.
fn matches_class(v: &Vote, class: VoteClass, now: u64) -> (r: bool)
    requires
        v.start_date + v.vote_time <= u64::MAX,
    ensures
        r == vote_in_class(*v, class, now),
{
    match class {
        VoteClass::All => true,
        VoteClass::Open => now < v.start_date + v.vote_time,
        VoteClass::Wait => now > v.start_date + v.vote_time && (!v.executed || (v.need_trigger
            && v.status == STATUS_FAILED_TRANSFER)),
        VoteClass::History => !(now < v.start_date + v.vote_time) && v.executed && v.status
            != STATUS_FAILED_TRANSFER,
    }
}

/// The first position in `[lo, ho)` of `choices` whose tally meets
/// `threshold`, executable.
fn find_first_winner(choices: &Vec<Choice>, threshold: u64, lo: u32, ho: u32) -> (w: Option<u32>)
    requires
        lo <= ho <= choices@.len(),
    ensures
        match w {
            Some(i) => lo <= i < ho && first_winner_from(
                choices@,
                threshold,
                lo as int,
                ho as int,
            ) == Some(i as int),
            None => first_winner_from(choices@, threshold, lo as int, ho as int) is None,
        },
{
    let n = choices.len();
    let mut i = lo;
    while i < ho
        invariant
            lo <= i <= ho <= choices@.len(),
            choices@.len() <= usize::MAX,
            first_winner_from(choices@, threshold, lo as int, ho as int) == first_winner_from(
                choices@,
                threshold,
                i as int,
                ho as int,
            ),
        decreases ho - i,
    {
        if choices[i as usize].yea >= threshold {
            return Some(i);
        }
        i += 1;
    }
    None
}

/// The rendered tally of one choice.
fn tally_entry(c: &Choice) -> (r: String)
    ensures
        r@ == tally_text(*c),
{
    let mut s = c.content.clone();
    s.append(":");
    let d = u64_to_dec(c.yea);
    s.append(d.as_str());
    s
}

} // verus!
