//! The membership registry of one organization.
//!
//! Three disjoint-by-role name maps — moderators, members, applicants — plus
//! a single owner account. Role changes that confer voting rights delegate
//! the corresponding grants to the permission registry, which is passed in by
//! the caller; the identity those nested calls carry is this component's own
//! address. Notifications are modeled as an append-only event log.

use crate::account::AccountId;
use crate::amap::AddrMap;
use crate::auth::{grant_step, Auth};
use crate::page::{cal_pages, page_meta, spec_start, valid_page_params, PageResult};
use vstd::prelude::*;

verus! {

/// Failure vocabulary of membership operations. The entry points report
/// failure as a returned `false`; these variants name the conditions.
#[derive(Debug, PartialEq, Eq, Structural)]
pub enum Error {
    DaoModeratorExistAlready,
    DaoMemberExistAlready,
    DaoMemberNotExist,
    DaoModeratorNotExist,
}

/// A moderator was added.
pub struct AddDAOModeratorEvent {
    pub moderator: AccountId,
    pub org_id: u64,
}

/// A moderator was removed.
pub struct RemoveDAOModeratorEvent {
    pub moderator: AccountId,
    pub org_id: u64,
}

/// A member was added.
pub struct AddDAOMemberEvent {
    pub member: AccountId,
    pub org_id: u64,
}

/// A member was removed.
pub struct RemoveDAOMemberEvent {
    pub member: AccountId,
    pub org_id: u64,
}

/// An account applied for membership.
pub struct ApplyDAOMemberEvent {
    pub member: AccountId,
    pub org_id: u64,
}

/// A pending application was approved.
pub struct ApproveDAOMemberEvent {
    pub member: AccountId,
    pub org_id: u64,
    pub approver: AccountId,
}

/// A notification, as appended to the membership registry's event log.
pub enum OrgEvent {
    AddDaoModerator(AddDAOModeratorEvent),
    RemoveDaoModerator(RemoveDAOModeratorEvent),
    AddDaoMember(AddDAOMemberEvent),
    RemoveDaoMember(RemoveDAOMemberEvent),
    ApplyDaoMember(ApplyDAOMemberEvent),
    ApproveDaoMember(ApproveDAOMemberEvent),
}

/// Does any list entry name the account `who`?
pub open spec fn lists_account(list: Seq<(String, AccountId)>, who: AccountId) -> bool {
    exists|j: int| 0 <= j < list.len() && (#[trigger] list[j]).1 == who
}

/// The display name of the last list entry naming `who` (the one a repeated
/// insert leaves in place).
pub open spec fn last_name_for(list: Seq<(String, AccountId)>, who: AccountId) -> Seq<char>
    recommends
        lists_account(list, who),
    decreases list.len(),
{
    if list.len() == 0 {
        Seq::<char>::empty()
    } else if list.last().1 == who {
        list.last().0@
    } else {
        last_name_for(list.drop_last(), who)
    }
}

/// How many entries carry a key that `m` does not already contain.
pub open spec fn count_new_keys(entries: Seq<(AccountId, String)>, m: Map<AccountId, String>) -> int
    decreases entries.len(),
{
    if entries.len() == 0 {
        0
    } else {
        count_new_keys(entries.drop_last(), m) + if m.contains_key(entries.last().0) {
            0int
        } else {
            1int
        }
    }
}

/// The membership registry.
pub struct OrgManager {
    pub moderators: AddrMap<String>,
    pub members: AddrMap<String>,
    pub applying_members: AddrMap<String>,
    pub owner: AccountId,
    pub org_id: u64,
    pub can_free_add_member: bool,
    pub org_address: AccountId,
    pub events: Vec<OrgEvent>,
}

impl OrgManager {
    /// Internal consistency: each role map has pairwise-distinct keys.
    pub open spec fn wf(self) -> bool {
        &&& self.moderators.wf()
        &&& self.members.wf()
        &&& self.applying_members.wf()
    }

    /// Everything except the three role maps and the event log is unchanged.
    pub open spec fn same_config(self, other: OrgManager) -> bool {
        &&& other.owner == self.owner
        &&& other.org_id == self.org_id
        &&& other.can_free_add_member == self.can_free_add_member
        &&& other.org_address == self.org_address
    }

    /// The caller-relative role snapshot: member, moderator, owner.
    pub open spec fn spec_roles(self, who: AccountId) -> (bool, bool, bool) {
        (self.members@.contains_key(who), self.moderators@.contains_key(who), who == self.owner)
    }

    /// Owner or moderator: who may approve applicants.
    pub open spec fn spec_check_authority(self, who: AccountId) -> bool {
        who == self.owner || self.moderators@.contains_key(who)
    }

    /// Who passes `add_dao_member`'s gate: anyone under the free-join flag,
    /// else only moderators and the owner.
    pub open spec fn spec_can_add_member(self, who: AccountId) -> bool {
        self.can_free_add_member || self.moderators@.contains_key(who) || who == self.owner
    }

    /// The distinct-account count of moderators together with members.
    pub open spec fn spec_dao_size(self) -> int {
        self.moderators.entries@.len() + count_new_keys(self.members.entries@, self.moderators@)
    }

    pub fn new(_owner: AccountId, org_id: u64, org_address: AccountId) -> (r: Self)
        ensures
            r.wf(),
            r.owner == _owner,
            r.org_id == org_id,
            r.org_address == org_address,
            r.can_free_add_member == false,
            r.moderators@ =~= Map::<AccountId, String>::empty(),
            r.members@ =~= Map::<AccountId, String>::empty(),
            r.applying_members@ =~= Map::<AccountId, String>::empty(),
            r.moderators.entries@ =~= Seq::<(AccountId, String)>::empty(),
            r.members.entries@ =~= Seq::<(AccountId, String)>::empty(),
            r.applying_members.entries@ =~= Seq::<(AccountId, String)>::empty(),
            r.events@ =~= Seq::<OrgEvent>::empty(),
    {
        OrgManager {
            org_id,
            owner: _owner,
            moderators: AddrMap::new(),
            members: AddrMap::new(),
            applying_members: AddrMap::new(),
            org_address,
            can_free_add_member: false,
            events: Vec::new(),
        }
    }

    pub fn get_dao_owner(&self) -> (r: AccountId)
        ensures
            r == self.owner,
    {
        self.owner
    }

    pub fn get_can_free_add_member(&self) -> (r: bool)
        ensures
            r == self.can_free_add_member,
    {
        self.can_free_add_member
    }

    pub fn set_can_free_add_member(&mut self, can_free_add_member: bool) -> (r: bool)
        ensures
            *final(self) == (OrgManager { can_free_add_member, ..*old(self) }),
            r == can_free_add_member,
    {
        self.can_free_add_member = can_free_add_member;
        self.can_free_add_member
    }

    pub fn get_orgid(&self) -> (r: u64)
        ensures
            r == self.org_id,
    {
        self.org_id
    }

    /// The number of distinct accounts holding the moderator or member role.
    pub fn get_dao_size(&self) -> (r: u64)
        requires
            self.wf(),
            self.moderators.entries@.len() + self.members.entries@.len() <= u64::MAX,
        ensures
            r == self.spec_dao_size(),
    {
        let mut count: u64 = self.moderators.len() as u64;
        let n = self.members.len();
        let mut i: usize = 0;
        while i < n
            invariant
                self.wf(),
                n == self.members.entries@.len(),
                self.moderators.entries@.len() + self.members.entries@.len() <= u64::MAX,
                0 <= i <= n,
                count == self.moderators.entries@.len() + count_new_keys(
                    self.members.entries@.take(i as int),
                    self.moderators@,
                ),
            decreases n - i,
        {
            let key = self.members.entry_at(i).0;
            if !self.moderators.contains_key(key) {
                proof {
                    count_new_keys_bound(self.members.entries@.take(i as int), self.moderators@);
                }
                count += 1;
            }
            i += 1;
            proof {
                assert(self.members.entries@.take(i as int).drop_last() =~= self.members.entries@
                    .take(i - 1));
            }
        }
        proof {
            assert(self.members.entries@.take(n as int) =~= self.members.entries@);
        }
        count
    }

    /// The caller's roles, computed afresh on every call: is `caller` a
    /// member, a moderator, the owner?
    pub fn who_am_i(&self, caller: AccountId) -> (r: (bool, bool, bool))
        requires
            self.wf(),
        ensures
            r == self.spec_roles(caller),
    {
        let is_member = self.members.contains_key(caller);
        let is_moderator = self.moderators.contains_key(caller);
        let is_owner = caller == self.owner;
        (is_member, is_moderator, is_owner)
    }

    /// Any account's roles: is `user` a member, a moderator, the owner?
    pub fn check_role_by_account(&self, user: AccountId) -> (r: (bool, bool, bool))
        requires
            self.wf(),
        ensures
            r == self.spec_roles(user),
    {
        let mut is_member = false;
        let mut is_moderator = false;
        let mut is_owner = false;
        if self.members.contains_key(user) {
            is_member = true;
        }
        if self.moderators.contains_key(user) {
            is_moderator = true;
        }
        if user == self.owner {
            is_owner = true;
        }
        (is_member, is_moderator, is_owner)
    }

    /// Owner or moderator.
    pub fn check_authority(&self, caller: AccountId) -> (r: bool)
        requires
            self.wf(),
        ensures
            r == self.spec_check_authority(caller),
    {
        if caller == self.owner {
            return true;
        }
        if self.moderators.contains_key(caller) {
            return true;
        }
        false
    }

    /// Makes `moderator` a moderator named `name` and grants it the
    /// `(vote, new)` and `(vote, vote)` capabilities through `auth`, under
    /// this component's own address. Owner-only; inserting an existing
    /// moderator reports failure (its display name is still overwritten, and
    /// the grants still happen, as the nested calls precede the insert).
    pub fn add_dao_moderator(
        &mut self,
        auth: &mut Auth,
        caller: AccountId,
        name: String,
        moderator: AccountId,
    ) -> (r: bool)
        requires
            old(self).wf(),
            old(auth).wf(),
            caller == old(self).owner ==> old(auth).spec_can_grant(old(self).org_address),
        ensures
            final(self).wf(),
            final(auth).wf(),
            old(self).same_config(*final(self)),
            caller != old(self).owner ==> r == false && *final(self) == *old(self) && *final(auth)
                == *old(auth),
            caller == old(self).owner ==> {
                &&& r == !old(self).moderators@.contains_key(moderator)
                &&& final(self).moderators@ =~= old(self).moderators@.insert(moderator, name)
                &&& final(self).members@ == old(self).members@
                &&& final(self).applying_members@ == old(self).applying_members@
                &&& final(auth).spec_actions() == old(auth).spec_actions()
                &&& final(auth).spec_owner() == old(auth).spec_owner()
                &&& final(auth).spec_records() == old(auth).spec_records()
                &&& final(auth).spec_grants() =~= grant_step(
                    *old(auth),
                    grant_step(*old(auth), old(auth).spec_grants(), moderator, "vote"@, "new"@),
                    moderator,
                    "vote"@,
                    "vote"@,
                )
                &&& (r ==> final(self).events@ =~= old(self).events@.push(
                    OrgEvent::AddDaoModerator(
                        AddDAOModeratorEvent { moderator, org_id: old(self).org_id },
                    ),
                ))
                &&& (!r ==> final(self).events@ == old(self).events@)
            },
    {
        if caller != self.owner {
            return false;
        }
        let ghost auth0 = *auth;
        auth.grant_permission(
            self.org_address,
            moderator,
            String::from_str("vote"),
            String::from_str("new"),
        );
        proof {
            assert(auth0.spec_grants().subset_of(auth.spec_grants()));
            crate::auth::lemma_can_grant_preserved(auth0, *auth, self.org_address);
            crate::auth::lemma_same_name_table(auth0, *auth, "vote"@, "vote"@);
        }
        auth.grant_permission(
            self.org_address,
            moderator,
            String::from_str("vote"),
            String::from_str("vote"),
        );
        match self.moderators.insert(moderator, name) {
            Some(_) => false,
            None => {
                let org_id = self.org_id;
                self.events.push(
                    OrgEvent::AddDaoModerator(AddDAOModeratorEvent { moderator, org_id }),
                );
                true
            },
        }
    }

    /// Makes `moderator` a moderator named `name` without touching the
    /// permission registry. Owner-only; duplicates report failure.
    pub fn add_dao_moderator_without_grant(
        &mut self,
        caller: AccountId,
        name: String,
        moderator: AccountId,
    ) -> (r: bool)
        requires
            old(self).wf(),
        ensures
            final(self).wf(),
            old(self).same_config(*final(self)),
            caller != old(self).owner ==> r == false && *final(self) == *old(self),
            caller == old(self).owner ==> {
                &&& r == !old(self).moderators@.contains_key(moderator)
                &&& final(self).moderators@ =~= old(self).moderators@.insert(moderator, name)
                &&& final(self).members@ == old(self).members@
                &&& final(self).applying_members@ == old(self).applying_members@
                &&& (r ==> final(self).events@ =~= old(self).events@.push(
                    OrgEvent::AddDaoModerator(
                        AddDAOModeratorEvent { moderator, org_id: old(self).org_id },
                    ),
                ))
                &&& (!r ==> final(self).events@ == old(self).events@)
            },
    {
        if caller != self.owner {
            return false;
        }
        match self.moderators.insert(moderator, name) {
            Some(_) => false,
            None => {
                let org_id = self.org_id;
                self.events.push(
                    OrgEvent::AddDaoModerator(AddDAOModeratorEvent { moderator, org_id }),
                );
                true
            },
        }
    }

    /// Makes `member` a member named `name` and grants it `(vote, vote)`
    /// through `auth`. Allowed for the owner and moderators, or for anyone
    /// while the free-join flag is set; duplicates report failure.
    pub fn add_dao_member(
        &mut self,
        auth: &mut Auth,
        caller: AccountId,
        name: String,
        member: AccountId,
    ) -> (r: bool)
        requires
            old(self).wf(),
            old(auth).wf(),
            old(self).spec_can_add_member(caller) ==> old(auth).spec_can_grant(
                old(self).org_address,
            ),
        ensures
            final(self).wf(),
            final(auth).wf(),
            old(self).same_config(*final(self)),
            !old(self).spec_can_add_member(caller) ==> r == false && *final(self) == *old(self)
                && *final(auth) == *old(auth),
            old(self).spec_can_add_member(caller) ==> {
                &&& r == !old(self).members@.contains_key(member)
                &&& final(self).members@ =~= old(self).members@.insert(member, name)
                &&& final(self).moderators@ == old(self).moderators@
                &&& final(self).applying_members@ == old(self).applying_members@
                &&& final(auth).spec_actions() == old(auth).spec_actions()
                &&& final(auth).spec_owner() == old(auth).spec_owner()
                &&& final(auth).spec_records() == old(auth).spec_records()
                &&& final(auth).spec_grants() =~= grant_step(
                    *old(auth),
                    old(auth).spec_grants(),
                    member,
                    "vote"@,
                    "vote"@,
                )
                &&& (r ==> final(self).events@ =~= old(self).events@.push(
                    OrgEvent::AddDaoMember(
                        AddDAOMemberEvent { member, org_id: old(self).org_id },
                    ),
                ))
                &&& (!r ==> final(self).events@ == old(self).events@)
            },
    {
        let (_is_member, is_moderator, is_owner) = self.who_am_i(caller);
        if self.can_free_add_member == false && !is_moderator && !is_owner {
            return false;
        }
        auth.grant_permission(
            self.org_address,
            member,
            String::from_str("vote"),
            String::from_str("vote"),
        );
        match self.members.insert(member, name) {
            Some(_) => false,
            None => {
                let org_id = self.org_id;
                self.events.push(OrgEvent::AddDaoMember(AddDAOMemberEvent { member, org_id }));
                true
            },
        }
    }

    /// The ungated membership insert behind `approve_member`: grants
    /// `(vote, vote)` and adds the member, with no caller check of its own.
    pub fn add_dao_member_private(
        &mut self,
        auth: &mut Auth,
        name: String,
        member: AccountId,
    ) -> (r: bool)
        requires
            old(self).wf(),
            old(auth).wf(),
            old(auth).spec_can_grant(old(self).org_address),
        ensures
            final(self).wf(),
            final(auth).wf(),
            old(self).same_config(*final(self)),
            r == !old(self).members@.contains_key(member),
            final(self).members@ =~= old(self).members@.insert(member, name),
            final(self).moderators@ == old(self).moderators@,
            final(self).applying_members@ == old(self).applying_members@,
            final(auth).spec_actions() == old(auth).spec_actions(),
            final(auth).spec_owner() == old(auth).spec_owner(),
            final(auth).spec_records() == old(auth).spec_records(),
            final(auth).spec_grants() =~= grant_step(
                *old(auth),
                old(auth).spec_grants(),
                member,
                "vote"@,
                "vote"@,
            ),
            r ==> final(self).events@ =~= old(self).events@.push(
                OrgEvent::AddDaoMember((AddDAOMemberEvent { member, org_id: old(self).org_id })),
            ),
            !r ==> final(self).events@ == old(self).events@,
    {
        auth.grant_permission(
            self.org_address,
            member,
            String::from_str("vote"),
            String::from_str("vote"),
        );
        match self.members.insert(member, name) {
            Some(_) => false,
            None => {
                let org_id = self.org_id;
                self.events.push(OrgEvent::AddDaoMember(AddDAOMemberEvent { member, org_id }));
                true
            },
        }
    }

    /// Adds every listed `(name, account)` as a member, each through
    /// `add_dao_member`. Under the same gate as a single add: if the caller
    /// passes, every listed account ends up a member (under the name of its
    /// last occurrence) holding the `(vote, vote)` grant where that action is
    /// registered; otherwise nothing changes. Always reports success.
    pub fn batch_add_dao_member(
        &mut self,
        auth: &mut Auth,
        caller: AccountId,
        members: Vec<(String, AccountId)>,
    ) -> (r: bool)
        requires
            old(self).wf(),
            old(auth).wf(),
            old(self).spec_can_add_member(caller) ==> old(auth).spec_can_grant(
                old(self).org_address,
            ),
        ensures
            final(self).wf(),
            final(auth).wf(),
            r == true,
            old(self).same_config(*final(self)),
            !old(self).spec_can_add_member(caller) ==> *final(self) == *old(self) && *final(auth)
                == *old(auth),
            old(self).spec_can_add_member(caller) ==> {
                &&& final(self).moderators@ == old(self).moderators@
                &&& final(self).applying_members@ == old(self).applying_members@
                &&& forall|k: AccountId|
                    !(#[trigger] lists_account(members@, k)) ==> {
                        &&& final(self).members@.contains_key(k) == old(self).members@.contains_key(
                            k,
                        )
                        &&& old(self).members@.contains_key(k) ==> final(self).members@[k] == old(
                            self,
                        ).members@[k]
                    }
                &&& forall|k: AccountId|
                    #[trigger] lists_account(members@, k) ==> final(self).members@.contains_key(k)
                        && final(self).members@[k]@ == last_name_for(members@, k)
                &&& final(auth).spec_actions() == old(auth).spec_actions()
                &&& final(auth).spec_owner() == old(auth).spec_owner()
                &&& final(auth).spec_records() == old(auth).spec_records()
                &&& (old(auth).spec_actions().contains_key(("vote"@, "vote"@))
                    ==> final(auth).spec_grants() =~= old(auth).spec_grants().union(
                    Set::new(
                        |p: (AccountId, u32)|
                            p.1 == old(auth).spec_actions()[("vote"@, "vote"@)] && lists_account(
                                members@,
                                p.0,
                            ),
                    ),
                ))
                &&& (!old(auth).spec_actions().contains_key(("vote"@, "vote"@))
                    ==> final(auth).spec_grants() == old(auth).spec_grants())
            },
    {
        let ghost org0 = *old(self);
        let ghost auth0 = *old(auth);
        let ghost can_add = old(self).spec_can_add_member(caller);
        let ghost vid = old(auth).spec_actions()[("vote"@, "vote"@)];
        let n = members.len();
        let mut i: usize = 0;
        while i < n
            invariant
                n == members@.len(),
                0 <= i <= n,
                self.wf(),
                auth.wf(),
                org0.same_config(*self),
                can_add == org0.spec_can_add_member(caller),
                vid == auth0.spec_actions()[("vote"@, "vote"@)],
                !can_add ==> *self == org0 && *auth == auth0,
                can_add ==> {
                    &&& self.moderators@ == org0.moderators@
                    &&& self.applying_members@ == org0.applying_members@
                    &&& auth.spec_can_grant(self.org_address)
                    &&& forall|k: AccountId|
                        !(#[trigger] lists_account(members@.take(i as int), k))
                            ==> self.members@.contains_key(k) == org0.members@.contains_key(k) && (
                        org0.members@.contains_key(k) ==> self.members@[k] == org0.members@[k])
                    &&& forall|k: AccountId|
                        #[trigger] lists_account(members@.take(i as int), k)
                            ==> self.members@.contains_key(k) && self.members@[k]@ == last_name_for(
                            members@.take(i as int),
                            k,
                        )
                    &&& auth.spec_actions() == auth0.spec_actions()
                    &&& auth.spec_owner() == auth0.spec_owner()
                    &&& auth.spec_records() == auth0.spec_records()
                    &&& (auth0.spec_actions().contains_key(("vote"@, "vote"@)) ==> auth.spec_grants() =~= auth0
                        .spec_grants().union(
                        Set::new(
                            |p: (AccountId, u32)|
                                p.1 == vid && lists_account(members@.take(i as int), p.0),
                        ),
                    ))
                    &&& (!auth0.spec_actions().contains_key(("vote"@, "vote"@)) ==> auth.spec_grants() == auth0
                        .spec_grants())
                },
            decreases n - i,
        {
            let ghost selfi = *self;
            let ghost authi = *auth;
            let e = &members[i];
            let name = e.0.clone();
            let account_id = e.1;
            proof {
                if can_add {
                    assert(selfi.spec_can_add_member(caller));
                    crate::auth::lemma_same_name_table(auth0, authi, "vote"@, "vote"@);
                }
            }
            self.add_dao_member(auth, caller, name, account_id);
            i += 1;
            proof {
                let t = members@.take(i as int);
                assert(t.drop_last() =~= members@.take(i - 1));
                assert(t.last() == members@[i - 1]);
                if can_add {
                    assert(authi.spec_grants().subset_of(auth.spec_grants()));
                    crate::auth::lemma_can_grant_preserved(authi, *auth, self.org_address);
                    crate::auth::lemma_same_name_table(auth0, authi, "vote"@, "vote"@);
                    assert forall|k: AccountId| #[trigger]
                        lists_account(t, k) implies self.members@.contains_key(k)
                        && self.members@[k]@ == last_name_for(t, k) by {
                        if k != account_id && lists_account(members@.take(i - 1), k) {
                            assert(last_name_for(t, k) == last_name_for(members@.take(i - 1), k));
                        }
                        if k != account_id && !lists_account(members@.take(i - 1), k) {
                            let j = choose|j: int| 0 <= j < t.len() && (#[trigger] t[j]).1 == k;
                            assert(members@.take(i - 1)[j] == t[j]);
                        }
                    }
                    assert(self.members@ == selfi.members@.insert(account_id, name));
                    assert forall|k: AccountId|
                        !lists_account(t, k) implies self.members@.contains_key(k) == org0.members@
                        .contains_key(k) && (org0.members@.contains_key(k) ==> self.members@[k]
                        == org0.members@[k]) by {
                        assert(t[i - 1].1 == account_id);
                        assert(k != account_id);
                        assert forall|j: int|
                            0 <= j < i - 1 implies (#[trigger] members@.take(i - 1)[j]).1 != k by {
                            assert(t[j] == members@.take(i - 1)[j]);
                        }
                        assert(!lists_account(members@.take(i - 1), k));
                        assert(self.members@.contains_key(k) == selfi.members@.contains_key(k));
                        assert(selfi.members@.contains_key(k) == org0.members@.contains_key(k));
                        if org0.members@.contains_key(k) {
                            assert(selfi.members@[k] == org0.members@[k]);
                            assert(self.members@[k] == selfi.members@[k]);
                        }
                    }
                    if auth0.spec_actions().contains_key(("vote"@, "vote"@)) {
                        assert(auth.spec_grants() =~= auth0.spec_grants().union(
                            Set::new(
                                |p: (AccountId, u32)| p.1 == vid && lists_account(t, p.0),
                            ),
                        )) by {
                            assert(auth.spec_grants() =~= authi.spec_grants().insert(
                                (account_id, vid),
                            ));
                            assert forall|p: (AccountId, u32)|
                                auth.spec_grants().contains(p) == auth0.spec_grants().union(
                                    Set::new(
                                        |q: (AccountId, u32)|
                                            q.1 == vid && lists_account(t, q.0),
                                    ),
                                ).contains(p) by {
                                if p == (account_id, vid) {
                                    assert(t[i - 1].1 == account_id);
                                    assert(lists_account(t, account_id));
                                } else if p.1 == vid && lists_account(t, p.0) && p.0 != account_id {
                                    let j = choose|j: int|
                                        0 <= j < t.len() && (#[trigger] t[j]).1 == p.0;
                                    assert(members@.take(i - 1)[j] == t[j]);
                                    assert(lists_account(members@.take(i - 1), p.0));
                                } else if p.1 == vid && lists_account(members@.take(i - 1), p.0) {
                                    let j = choose|j: int|
                                        0 <= j < i - 1 && (#[trigger] members@.take(i - 1)[j]).1
                                            == p.0;
                                    assert(t[j] == members@.take(i - 1)[j]);
                                    assert(lists_account(t, p.0));
                                }
                            }
                        }
                    }
                }
            }
        }
        proof {
            assert(members@.take(n as int) =~= members@);
        }
        true
    }

    /// Removes a moderator. Owner-only; reports whether an entry was removed.
    pub fn remove_dao_moderator(&mut self, caller: AccountId, member: AccountId) -> (r: bool)
        requires
            old(self).wf(),
        ensures
            final(self).wf(),
            old(self).same_config(*final(self)),
            caller != old(self).owner ==> r == false && *final(self) == *old(self),
            caller == old(self).owner ==> {
                &&& r == old(self).moderators@.contains_key(member)
                &&& final(self).moderators@ =~= old(self).moderators@.remove(member)
                &&& final(self).members@ == old(self).members@
                &&& final(self).applying_members@ == old(self).applying_members@
                &&& (r ==> final(self).events@ =~= old(self).events@.push(
                    OrgEvent::RemoveDaoModerator(
                        RemoveDAOModeratorEvent { moderator: member, org_id: old(self).org_id },
                    ),
                ))
                &&& (!r ==> final(self).events@ == old(self).events@)
            },
    {
        if caller != self.owner {
            return false;
        }
        match self.moderators.take(member) {
            None => false,
            Some(_) => {
                let org_id = self.org_id;
                self.events.push(
                    OrgEvent::RemoveDaoModerator(
                        RemoveDAOModeratorEvent { moderator: member, org_id },
                    ),
                );
                true
            },
        }
    }

    /// Removes a member. Ungated, as in the base design; reports whether an
    /// entry was removed.
    pub fn remove_dao_member(&mut self, member: AccountId) -> (r: bool)
        requires
            old(self).wf(),
        ensures
            final(self).wf(),
            old(self).same_config(*final(self)),
            r == old(self).members@.contains_key(member),
            final(self).members@ =~= old(self).members@.remove(member),
            final(self).moderators@ == old(self).moderators@,
            final(self).applying_members@ == old(self).applying_members@,
            r ==> final(self).events@ =~= old(self).events@.push(
                OrgEvent::RemoveDaoMember(
                    (RemoveDAOMemberEvent { member, org_id: old(self).org_id }),
                ),
            ),
            !r ==> final(self).events@ == old(self).events@,
    {
        match self.members.take(member) {
            None => false,
            Some(_) => {
                let org_id = self.org_id;
                self.events.push(
                    OrgEvent::RemoveDaoMember(RemoveDAOMemberEvent { member, org_id }),
                );
                true
            },
        }
    }

    /// A member resigns: removes its own entry, with no event.
    pub fn resign_member(&mut self, member: AccountId) -> (r: bool)
        requires
            old(self).wf(),
        ensures
            final(self).wf(),
            old(self).same_config(*final(self)),
            r == old(self).members@.contains_key(member),
            final(self).members@ =~= old(self).members@.remove(member),
            final(self).moderators@ == old(self).moderators@,
            final(self).applying_members@ == old(self).applying_members@,
            final(self).events@ == old(self).events@,
    {
        if self.members.contains_key(member) {
            self.members.take(member);
            return true;
        }
        proof {
            assert(self.members@ =~= old(self).members@.remove(member));
        }
        false
    }

    /// A moderator resigns: removes its own entry, with no event.
    pub fn resign_moderator(&mut self, moderator: AccountId) -> (r: bool)
        requires
            old(self).wf(),
        ensures
            final(self).wf(),
            old(self).same_config(*final(self)),
            r == old(self).moderators@.contains_key(moderator),
            final(self).moderators@ =~= old(self).moderators@.remove(moderator),
            final(self).members@ == old(self).members@,
            final(self).applying_members@ == old(self).applying_members@,
            final(self).events@ == old(self).events@,
    {
        if self.moderators.contains_key(moderator) {
            self.moderators.take(moderator);
            return true;
        }
        proof {
            assert(self.moderators@ =~= old(self).moderators@.remove(moderator));
        }
        false
    }

    /// Transfers ownership. A member heir is first promoted to moderator
    /// (with the vote grants) and removed from the members; any other heir
    /// must already be a moderator, or the transfer fails.
    pub fn transfer_ownership(
        &mut self,
        auth: &mut Auth,
        caller: AccountId,
        new_owner: AccountId,
    ) -> (r: bool)
        requires
            old(self).wf(),
            old(auth).wf(),
            caller == old(self).owner && old(self).members@.contains_key(new_owner) ==> old(
                auth,
            ).spec_can_grant(old(self).org_address),
        ensures
            final(self).wf(),
            final(auth).wf(),
            caller != old(self).owner ==> r == false && *final(self) == *old(self) && *final(auth)
                == *old(auth),
            caller == old(self).owner && old(self).members@.contains_key(new_owner) ==> {
                &&& r == true
                &&& final(self).owner == new_owner
                &&& final(self).members@ =~= old(self).members@.remove(new_owner)
                &&& final(self).moderators@ =~= old(self).moderators@.insert(
                    new_owner,
                    old(self).members@[new_owner],
                )
                &&& final(self).applying_members@ == old(self).applying_members@
                &&& final(auth).spec_actions() == old(auth).spec_actions()
                &&& final(auth).spec_grants() =~= grant_step(
                    *old(auth),
                    grant_step(*old(auth), old(auth).spec_grants(), new_owner, "vote"@, "new"@),
                    new_owner,
                    "vote"@,
                    "vote"@,
                )
            },
            caller == old(self).owner && !old(self).members@.contains_key(new_owner) && !old(
                self,
            ).moderators@.contains_key(new_owner) ==> r == false && *final(self) == *old(self)
                && *final(auth) == *old(auth),
            caller == old(self).owner && !old(self).members@.contains_key(new_owner) && old(
                self,
            ).moderators@.contains_key(new_owner) ==> {
                &&& r == true
                &&& final(self).owner == new_owner
                &&& final(self).members@ == old(self).members@
                &&& final(self).moderators@ == old(self).moderators@
                &&& final(self).applying_members@ == old(self).applying_members@
                &&& *final(auth) == *old(auth)
            },
            final(self).org_id == old(self).org_id,
            final(self).can_free_add_member == old(self).can_free_add_member,
            final(self).org_address == old(self).org_address,
    {
        if caller != self.owner {
            return false;
        }
        let heir_name = match self.members.get(new_owner) {
            Some(n) => Some(n.clone()),
            None => None,
        };
        match heir_name {
            Some(n) => {
                self.add_dao_moderator(auth, caller, n, new_owner);
                self.remove_dao_member(new_owner);
            },
            None => {
                if !self.moderators.contains_key(new_owner) {
                    return false;
                }
            },
        }
        self.owner = new_owner;
        true
    }

    /// Files (or re-files) a membership application under `name`. A repeated
    /// application reports failure, though it still overwrites the name.
    pub fn apply_member(&mut self, name: String, member: AccountId) -> (r: bool)
        requires
            old(self).wf(),
        ensures
            final(self).wf(),
            old(self).same_config(*final(self)),
            r == !old(self).applying_members@.contains_key(member),
            final(self).applying_members@ =~= old(self).applying_members@.insert(member, name),
            final(self).moderators@ == old(self).moderators@,
            final(self).members@ == old(self).members@,
            r ==> final(self).events@ =~= old(self).events@.push(
                OrgEvent::ApplyDaoMember((ApplyDAOMemberEvent { member, org_id: old(self).org_id })),
            ),
            !r ==> final(self).events@ == old(self).events@,
    {
        match self.applying_members.insert(member, name) {
            Some(_) => false,
            None => {
                let org_id = self.org_id;
                self.events.push(OrgEvent::ApplyDaoMember(ApplyDAOMemberEvent { member, org_id }));
                true
            },
        }
    }

    /// Approves a pending application: the owner or a moderator turns the
    /// applicant into a member (granting `(vote, vote)`) and clears the
    /// application.
    pub fn approve_member(
        &mut self,
        auth: &mut Auth,
        caller: AccountId,
        name: String,
        member: AccountId,
    ) -> (r: bool)
        requires
            old(self).wf(),
            old(auth).wf(),
            old(self).spec_check_authority(caller) && old(self).applying_members@.contains_key(
                member,
            ) ==> old(auth).spec_can_grant(old(self).org_address),
        ensures
            final(self).wf(),
            final(auth).wf(),
            old(self).same_config(*final(self)),
            !old(self).spec_check_authority(caller) ==> r == false && *final(self) == *old(self)
                && *final(auth) == *old(auth),
            old(self).spec_check_authority(caller) && !old(self).applying_members@.contains_key(
                member,
            ) ==> r == false && *final(self) == *old(self) && *final(auth) == *old(auth),
            old(self).spec_check_authority(caller) && old(self).applying_members@.contains_key(
                member,
            ) ==> {
                &&& r == true
                &&& final(self).members@ =~= old(self).members@.insert(member, name)
                &&& final(self).applying_members@ =~= old(self).applying_members@.remove(member)
                &&& final(self).moderators@ == old(self).moderators@
                &&& final(auth).spec_actions() == old(auth).spec_actions()
                &&& final(auth).spec_grants() =~= grant_step(
                    *old(auth),
                    old(auth).spec_grants(),
                    member,
                    "vote"@,
                    "vote"@,
                )
                &&& final(self).events@.len() == old(self).events@.len() + (
                if old(self).members@.contains_key(member) {
                    1int
                } else {
                    2int
                })
                &&& final(self).events@.last() == OrgEvent::ApproveDaoMember(
                    (ApproveDAOMemberEvent {
                        member,
                        org_id: old(self).org_id,
                        approver: caller,
                    }),
                )
            },
    {
        let can_operate = self.check_authority(caller);
        if can_operate == false {
            return false;
        }
        if self.applying_members.contains_key(member) {
            self.add_dao_member_private(auth, name, member);
            self.applying_members.take(member);
            let org_id = self.org_id;
            self.events.push(
                OrgEvent::ApproveDaoMember(
                    ApproveDAOMemberEvent { member, org_id, approver: caller },
                ),
            );
            return true;
        }
        false
    }

    /// One page of the moderator accounts, in entry order.
    pub fn get_dao_moderator_list(&self, page: u64, size: u64) -> (r: PageResult<AccountId>)
        requires
            self.wf(),
            valid_page_params(page, size),
        ensures
            page_meta(r, self.moderators.entries@.len() as u64, page, size),
            forall|j: int|
                0 <= j < r.data@.len() ==> r.data@[j] == self.moderators.entries@[spec_start(
                    page,
                    size,
                ) + j].0,
    {
        get_account_list(&self.moderators, page, size)
    }

    /// One page of the member accounts, in entry order.
    pub fn get_dao_members_list(&self, page: u64, size: u64) -> (r: PageResult<AccountId>)
        requires
            self.wf(),
            valid_page_params(page, size),
        ensures
            page_meta(r, self.members.entries@.len() as u64, page, size),
            forall|j: int|
                0 <= j < r.data@.len() ==> r.data@[j] == self.members.entries@[spec_start(
                    page,
                    size,
                ) + j].0,
    {
        get_account_list(&self.members, page, size)
    }

    /// One page of the moderators with their display names.
    pub fn get_dao_moderator_detail_list(&self, page: u64, size: u64) -> (r: PageResult<
        (AccountId, String),
    >)
        requires
            self.wf(),
            valid_page_params(page, size),
        ensures
            page_meta(r, self.moderators.entries@.len() as u64, page, size),
            forall|j: int|
                0 <= j < r.data@.len() ==> r.data@[j] == self.moderators.entries@[spec_start(
                    page,
                    size,
                ) + j],
    {
        get_detail_list(&self.moderators, page, size)
    }

    /// One page of the members with their display names.
    pub fn get_dao_member_detail_list(&self, page: u64, size: u64) -> (r: PageResult<
        (AccountId, String),
    >)
        requires
            self.wf(),
            valid_page_params(page, size),
        ensures
            page_meta(r, self.members.entries@.len() as u64, page, size),
            forall|j: int|
                0 <= j < r.data@.len() ==> r.data@[j] == self.members.entries@[spec_start(
                    page,
                    size,
                ) + j],
    {
        get_detail_list(&self.members, page, size)
    }

    /// One page of the pending applications with their display names.
    pub fn get_dao_apply_member_detail_list(&self, page: u64, size: u64) -> (r: PageResult<
        (AccountId, String),
    >)
        requires
            self.wf(),
            valid_page_params(page, size),
        ensures
            page_meta(r, self.applying_members.entries@.len() as u64, page, size),
            forall|j: int|
                0 <= j < r.data@.len() ==> r.data@[j] == self.applying_members.entries@[spec_start(
                    page,
                    size,
                ) + j],
    {
        get_detail_list(&self.applying_members, page, size)
    }
}

/// One page of the keys of `data`, in entry order.
fn get_account_list(data: &AddrMap<String>, page: u64, size: u64) -> (r: PageResult<AccountId>)
    requires
        data.wf(),
        valid_page_params(page, size),
    ensures
        page_meta(r, data.entries@.len() as u64, page, size),
        forall|j: int|
            0 <= j < r.data@.len() ==> r.data@[j] == data.entries@[spec_start(page, size) + j].0,
{
    let total = data.len() as u64;
    let (start, end, pages) = cal_pages(page, size, total);
    let mut out: Vec<AccountId> = Vec::new();
    if start < end {
        let mut i: u64 = start;
        while i < end
            invariant
                data.wf(),
                end <= data.entries@.len(),
                data.entries@.len() <= usize::MAX,
                start <= i <= end,
                out@.len() == i - start,
                forall|j: int|
                    0 <= j < out@.len() ==> out@[j] == data.entries@[start + j].0,
            decreases end - i,
        {
            out.push(data.entry_at(i as usize).0);
            i += 1;
        }
    }
    PageResult {
        success: true,
        err: String::from_str("success"),
        total,
        pages,
        page,
        size,
        data: out,
    }
}

/// One page of the `(key, display name)` entries of `data`, in entry order.
fn get_detail_list(data: &AddrMap<String>, page: u64, size: u64) -> (r: PageResult<
    (AccountId, String),
>)
    requires
        data.wf(),
        valid_page_params(page, size),
    ensures
        page_meta(r, data.entries@.len() as u64, page, size),
        forall|j: int|
            0 <= j < r.data@.len() ==> r.data@[j] == data.entries@[spec_start(page, size) + j],
{
    let total = data.len() as u64;
    let (start, end, pages) = cal_pages(page, size, total);
    let mut out: Vec<(AccountId, String)> = Vec::new();
    if start < end {
        let mut i: u64 = start;
        while i < end
            invariant
                data.wf(),
                end <= data.entries@.len(),
                data.entries@.len() <= usize::MAX,
                start <= i <= end,
                out@.len() == i - start,
                forall|j: int| 0 <= j < out@.len() ==> out@[j] == data.entries@[start + j],
            decreases end - i,
        {
            let e = data.entry_at(i as usize);
            out.push((e.0, e.1.clone()));
            i += 1;
        }
    }
    PageResult {
        success: true,
        err: String::from_str("success"),
        total,
        pages,
        page,
        size,
        data: out,
    }
}

/// Law: after a moderator insert, the account reports as a moderator.
pub proof fn lemma_added_moderator_is_moderator(
    pre: OrgManager,
    post: OrgManager,
    name: String,
    x: AccountId,
)
    requires
        post.moderators@ == pre.moderators@.insert(x, name),
    ensures
        post.spec_roles(x).1,
{
}

/// Law: transferring ownership to a member removes it from the members,
/// makes it a moderator, and makes it the owner.
pub proof fn lemma_ownership_transfer_promotes(pre: OrgManager, post: OrgManager, x: AccountId)
    requires
        pre.members@.contains_key(x),
        post.members@ == pre.members@.remove(x),
        post.moderators@ == pre.moderators@.insert(x, pre.members@[x]),
        post.owner == x,
    ensures
        !post.spec_roles(x).0,
        post.spec_roles(x).1,
        post.spec_roles(x).2,
{
}

/// `count_new_keys` never exceeds the number of entries counted.
pub proof fn count_new_keys_bound(entries: Seq<(AccountId, String)>, m: Map<AccountId, String>)
    ensures
        0 <= count_new_keys(entries, m) <= entries.len(),
    decreases entries.len(),
{
    if entries.len() > 0 {
        count_new_keys_bound(entries.drop_last(), m);
    }
}

} // verus!
