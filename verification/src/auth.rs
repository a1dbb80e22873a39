//! The permission registry: capability-based authorization.
//!
//! An *action* is a named capability, keyed by `(contract_name,
//! function_name)`. Action identifiers are assigned monotonically and never
//! reused; the full record of every identifier ever assigned is retained even
//! after the name is cancelled. A *grant* is the fact that an account holds
//! an action's capability. `has_permission` answers the central question:
//! the action's name is currently registered, and the `(account, action_id)`
//! pair has been granted and not since revoked.

use crate::account::AccountId;
use crate::page::{cal_pages, spec_end, spec_pages, spec_start, valid_page_params, PageResult};
use vstd::prelude::*;

verus! {

/// The identifiers of the name entries whose contract component is `c`, in
/// table order.
pub open spec fn ids_for_contract(entries: Seq<(String, String, u32)>, c: Seq<char>) -> Seq<u32>
    decreases entries.len(),
{
    if entries.len() == 0 {
        Seq::<u32>::empty()
    } else {
        let p = ids_for_contract(entries.drop_last(), c);
        if entries.last().0@ == c {
            p.push(entries.last().2)
        } else {
            p
        }
    }
}

/// The identifiers granted to `who`, in grant-table order.
pub open spec fn ids_for_account(entries: Seq<(AccountId, u32)>, who: AccountId) -> Seq<u32>
    decreases entries.len(),
{
    if entries.len() == 0 {
        Seq::<u32>::empty()
    } else {
        let p = ids_for_account(entries.drop_last(), who);
        if entries.last().0 == who {
            p.push(entries.last().1)
        } else {
            p
        }
    }
}

/// The grant table `g` after one `grant_permission` call on a registry whose
/// name table is that of `a`: unchanged when the name is unregistered,
/// otherwise extended with the pair.
pub open spec fn grant_step(
    a: Auth,
    g: Set<(AccountId, u32)>,
    account: AccountId,
    c: Seq<char>,
    f: Seq<char>,
) -> Set<(AccountId, u32)> {
    if a.spec_actions().contains_key((c, f)) {
        g.insert((account, a.spec_actions()[(c, f)]))
    } else {
        g
    }
}

/// A registered capability: a `(contract, function)` name with a title and
/// its assigned identifier.
pub struct Action {
    pub action_id: u32,
    pub action_title: String,
    pub contract_name: String,
    pub function_name: String,
}

/// The permission registry.
pub struct Auth {
    pub owner: AccountId,
    pub action_id: u32,
    pub actions_id: Vec<Action>,
    pub actions: Vec<(String, String, u32)>,
    pub actions_auths: Vec<(AccountId, u32)>,
}

impl Auth {
    /// Registered names are pairwise distinct.
    pub open spec fn keys_unique(self) -> bool {
        forall|i: int, j: int|
            0 <= i < j < self.actions@.len() ==> !((#[trigger] self.actions@[i]).0@ == (
            #[trigger] self.actions@[j]).0@ && self.actions@[i].1@ == self.actions@[j].1@)
    }

    /// Internal consistency: identifiers are dense and monotone, registered
    /// names are pairwise distinct and refer to assigned identifiers, and
    /// grant pairs are pairwise distinct.
    pub open spec fn wf(self) -> bool {
        &&& self.action_id == self.actions_id@.len()
        &&& forall|i: int|
            0 <= i < self.actions_id@.len() ==> (#[trigger] self.actions_id@[i]).action_id == i
        &&& self.keys_unique()
        &&& forall|i: int|
            0 <= i < self.actions@.len() ==> (#[trigger] self.actions@[i]).2 < self.action_id
        &&& forall|i: int, j: int|
            0 <= i < j < self.actions_auths@.len() ==> #[trigger] self.actions_auths@[i] != (
            #[trigger] self.actions_auths@[j])
        &&& forall|i: int|
            0 <= i < self.actions_auths@.len() ==> (#[trigger] self.actions_auths@[i]).1
                < self.action_id
    }

    pub open spec fn spec_owner(self) -> AccountId {
        self.owner
    }

    /// The next action identifier to be assigned.
    pub open spec fn spec_next_action_id(self) -> u32 {
        self.action_id
    }

    /// Every action record ever created, by identifier.
    pub open spec fn spec_records(self) -> Seq<Action> {
        self.actions_id@
    }

    /// Some name entry carries the key `(c, f)`.
    pub open spec fn key_contains(self, c: Seq<char>, f: Seq<char>) -> bool {
        exists|i: int|
            0 <= i < self.actions@.len() && (#[trigger] self.actions@[i]).0@ == c
                && self.actions@[i].1@ == f
    }

    /// The position of the name entry for `(c, f)`, when present.
    pub open spec fn key_index(self, c: Seq<char>, f: Seq<char>) -> int {
        choose|i: int|
            0 <= i < self.actions@.len() && (#[trigger] self.actions@[i]).0@ == c
                && self.actions@[i].1@ == f
    }

    /// The identifier registered under `(c, f)`, when present.
    pub open spec fn spec_action_id(self, c: Seq<char>, f: Seq<char>) -> u32 {
        self.actions@[self.key_index(c, f)].2
    }

    /// The registered names, as a map to their identifiers.
    pub open spec fn spec_actions(self) -> Map<(Seq<char>, Seq<char>), u32> {
        Map::new(
            |k: (Seq<char>, Seq<char>)| self.key_contains(k.0, k.1),
            |k: (Seq<char>, Seq<char>)| self.spec_action_id(k.0, k.1),
        )
    }

    /// The grant table, as the set of granted `(account, action_id)` pairs.
    pub open spec fn spec_grants(self) -> Set<(AccountId, u32)> {
        Set::new(
            |p: (AccountId, u32)|
                exists|i: int|
                    0 <= i < self.actions_auths@.len() && #[trigger] self.actions_auths@[i] == p,
        )
    }

    /// The permission predicate: the name resolves to an identifier and that
    /// identifier is granted to `account`.
    pub open spec fn spec_has_permission(
        self,
        account: AccountId,
        c: Seq<char>,
        f: Seq<char>,
    ) -> bool {
        &&& self.spec_actions().contains_key((c, f))
        &&& self.spec_grants().contains((account, self.spec_actions()[(c, f)]))
    }

    /// Who may grant and revoke: the owner, or a holder of `(auth, grant)`.
    pub open spec fn spec_can_grant(self, caller: AccountId) -> bool {
        caller == self.owner || self.spec_has_permission(caller, "auth"@, "grant"@)
    }

    /// Who may register and cancel actions: the owner, or a holder of
    /// `(auth, register)`.
    pub open spec fn spec_can_register(self, caller: AccountId) -> bool {
        caller == self.owner || self.spec_has_permission(caller, "auth"@, "register"@)
    }

    /// The name entry at position `i` is what the name map reports.
    pub proof fn lemma_key_at_index(self, i: int)
        requires
            self.keys_unique(),
            0 <= i < self.actions@.len(),
        ensures
            self.key_contains(self.actions@[i].0@, self.actions@[i].1@),
            self.key_index(self.actions@[i].0@, self.actions@[i].1@) == i,
            self.spec_action_id(self.actions@[i].0@, self.actions@[i].1@) == self.actions@[i].2,
            self.spec_actions().contains_key((self.actions@[i].0@, self.actions@[i].1@)),
            self.spec_actions()[(self.actions@[i].0@, self.actions@[i].1@)] == self.actions@[i].2,
    {
        let c = self.actions@[i].0@;
        let f = self.actions@[i].1@;
        assert(self.key_contains(c, f));
        let j = self.key_index(c, f);
        if i != j {
            assert(false);
        }
    }

    /// Two registries with the same name entries denote the same name map.
    pub proof fn lemma_same_actions(a: Auth, b: Auth)
        requires
            a.actions == b.actions,
            a.keys_unique(),
        ensures
            b.keys_unique(),
            a.spec_actions() =~= b.spec_actions(),
    {
        assert forall|k: (Seq<char>, Seq<char>)|
            a.spec_actions().contains_key(k) == b.spec_actions().contains_key(k) by {
            if a.key_contains(k.0, k.1) {
                let i = a.key_index(k.0, k.1);
                assert(b.actions@[i].0@ == k.0 && b.actions@[i].1@ == k.1);
            }
            if b.key_contains(k.0, k.1) {
                let i = b.key_index(k.0, k.1);
                assert(a.actions@[i].0@ == k.0 && a.actions@[i].1@ == k.1);
            }
        }
        assert forall|k: (Seq<char>, Seq<char>)|
            a.spec_actions().contains_key(k) implies a.spec_actions()[k] == b.spec_actions()[k] by {
            let i = a.key_index(k.0, k.1);
            a.lemma_key_at_index(i);
            assert(b.actions@[i].0@ == k.0 && b.actions@[i].1@ == k.1);
            b.lemma_key_at_index(i);
        }
    }

    /// Two registries with the same grant entries denote the same grant set.
    pub proof fn lemma_same_grants(a: Auth, b: Auth)
        requires
            a.actions_auths == b.actions_auths,
        ensures
            a.spec_grants() =~= b.spec_grants(),
    {
        assert forall|p: (AccountId, u32)|
            a.spec_grants().contains(p) == b.spec_grants().contains(p) by {
            if a.spec_grants().contains(p) {
                let i = choose|i: int|
                    0 <= i < a.actions_auths@.len() && #[trigger] a.actions_auths@[i] == p;
                assert(b.actions_auths@[i] == p);
            }
            if b.spec_grants().contains(p) {
                let i = choose|i: int|
                    0 <= i < b.actions_auths@.len() && #[trigger] b.actions_auths@[i] == p;
                assert(a.actions_auths@[i] == p);
            }
        }
    }

    pub fn new(owner: AccountId) -> (r: Self)
        ensures
            r.wf(),
            r.spec_owner() == owner,
            r.spec_next_action_id() == 0,
            r.spec_records() =~= Seq::<Action>::empty(),
            r.spec_actions() =~= Map::<(Seq<char>, Seq<char>), u32>::empty(),
            r.spec_grants() =~= Set::<(AccountId, u32)>::empty(),
    {
        Auth {
            owner,
            action_id: 0,
            actions_id: Vec::new(),
            actions: Vec::new(),
            actions_auths: Vec::new(),
        }
    }

    /// Position of the name entry for the given strings, if registered.
    fn find_action_index(&self, contract_name: &String, function_name: &String) -> (r: Option<
        usize,
    >)
        ensures
            match r {
                Some(i) => 0 <= i < self.actions@.len() && self.actions@[i as int].0@
                    == contract_name@ && self.actions@[i as int].1@ == function_name@,
                None => !self.key_contains(contract_name@, function_name@),
            },
    {
        let n = self.actions.len();
        let mut i: usize = 0;
        while i < n
            invariant
                n == self.actions@.len(),
                0 <= i <= n,
                forall|j: int|
                    0 <= j < i ==> !((#[trigger] self.actions@[j]).0@ == contract_name@
                        && self.actions@[j].1@ == function_name@),
            decreases n - i,
        {
            let e = &self.actions[i];
            if e.0 == *contract_name && e.1 == *function_name {
                return Some(i);
            }
            i += 1;
        }
        None
    }

    /// Position of the grant pair, if granted.
    fn find_grant_index(&self, account: AccountId, id: u32) -> (r: Option<usize>)
        ensures
            match r {
                Some(i) => 0 <= i < self.actions_auths@.len() && self.actions_auths@[i as int] == (
                account, id),
                None => !self.spec_grants().contains((account, id)),
            },
    {
        let n = self.actions_auths.len();
        let mut i: usize = 0;
        while i < n
            invariant
                n == self.actions_auths@.len(),
                0 <= i <= n,
                forall|j: int| 0 <= j < i ==> (#[trigger] self.actions_auths@[j]) != (account, id),
            decreases n - i,
        {
            let e = &self.actions_auths[i];
            if e.0 == account && e.1 == id {
                return Some(i);
            }
            i += 1;
        }
        None
    }

    /// Does `account_id` currently hold the capability named `(contract_name,
    /// function_name)`?
    pub fn has_permission(
        &self,
        account_id: AccountId,
        contract_name: String,
        function_name: String,
    ) -> (r: bool)
        requires
            self.wf(),
        ensures
            r == self.spec_has_permission(account_id, contract_name@, function_name@),
    {
        match self.find_action_index(&contract_name, &function_name) {
            Some(i) => {
                let id = self.actions[i].2;
                proof {
                    self.lemma_key_at_index(i as int);
                }
                match self.find_grant_index(account_id, id) {
                    Some(_) => true,
                    None => false,
                }
            },
            None => false,
        }
    }

    /// Grants the capability named `(contract_name, function_name)` to
    /// `account_id`. The caller must be authorized; the grant succeeds
    /// exactly when the name is registered, and is idempotent.
    pub fn grant_permission(
        &mut self,
        caller: AccountId,
        account_id: AccountId,
        contract_name: String,
        function_name: String,
    ) -> (r: bool)
        requires
            old(self).wf(),
            old(self).spec_can_grant(caller),
        ensures
            final(self).wf(),
            r == old(self).spec_actions().contains_key((contract_name@, function_name@)),
            final(self).spec_owner() == old(self).spec_owner(),
            final(self).spec_actions() == old(self).spec_actions(),
            final(self).spec_records() == old(self).spec_records(),
            final(self).spec_next_action_id() == old(self).spec_next_action_id(),
            r ==> final(self).spec_grants() =~= old(self).spec_grants().insert(
                (account_id, old(self).spec_actions()[(contract_name@, function_name@)]),
            ),
            !r ==> final(self).spec_grants() == old(self).spec_grants(),
    {
        let ghost pre = *self;
        let r = match self.find_action_index(&contract_name, &function_name) {
            Some(i) => {
                let id = self.actions[i].2;
                proof {
                    pre.lemma_key_at_index(i as int);
                }
                match self.find_grant_index(account_id, id) {
                    Some(_) => {
                        proof {
                            assert(pre.spec_grants().contains((account_id, id)));
                            assert(self.spec_grants() =~= pre.spec_grants().insert(
                                (account_id, id),
                            ));
                        }
                    },
                    None => {
                        self.actions_auths.push((account_id, id));
                        proof {
                            let n = pre.actions_auths@.len() as int;
                            assert forall|a: int, b: int|
                                0 <= a < b < self.actions_auths@.len() implies #[trigger] self
                                .actions_auths@[a] != #[trigger] self.actions_auths@[b] by {
                                if b == n {
                                    assert(pre.actions_auths@[a] != (account_id, id));
                                }
                            }
                            assert forall|p: (AccountId, u32)|
                                self.spec_grants().contains(p) == pre.spec_grants().insert(
                                (account_id, id),
                            ).contains(p) by {
                                if self.spec_grants().contains(p) {
                                    let j = choose|j: int|
                                        0 <= j < self.actions_auths@.len() && #[trigger] self
                                            .actions_auths@[j] == p;
                                    if j < n {
                                        assert(pre.actions_auths@[j] == p);
                                    }
                                }
                                if pre.spec_grants().contains(p) {
                                    let j = choose|j: int|
                                        0 <= j < pre.actions_auths@.len() && #[trigger] pre
                                            .actions_auths@[j] == p;
                                    assert(self.actions_auths@[j] == p);
                                }
                                if p == (account_id, id) {
                                    assert(self.actions_auths@[n] == p);
                                }
                            }
                            assert(self.spec_grants() =~= pre.spec_grants().insert(
                                (account_id, id),
                            ));
                        }
                    },
                }
                true
            },
            None => false,
        };
        proof {
            Self::lemma_same_actions(pre, *self);
        }
        r
    }

    /// Revokes the capability named `(contract_name, function_name)` from
    /// `account_id`. The caller must be authorized; returns whether the name
    /// was registered at all.
    pub fn revoke_permission(
        &mut self,
        caller: AccountId,
        account_id: AccountId,
        contract_name: String,
        function_name: String,
    ) -> (r: bool)
        requires
            old(self).wf(),
            old(self).spec_can_grant(caller),
        ensures
            final(self).wf(),
            r == old(self).spec_actions().contains_key((contract_name@, function_name@)),
            final(self).spec_owner() == old(self).spec_owner(),
            final(self).spec_actions() == old(self).spec_actions(),
            final(self).spec_records() == old(self).spec_records(),
            final(self).spec_next_action_id() == old(self).spec_next_action_id(),
            r ==> final(self).spec_grants() =~= old(self).spec_grants().remove(
                (account_id, old(self).spec_actions()[(contract_name@, function_name@)]),
            ),
            !r ==> final(self).spec_grants() == old(self).spec_grants(),
    {
        let ghost pre = *self;
        let r = match self.find_action_index(&contract_name, &function_name) {
            Some(i) => {
                let id = self.actions[i].2;
                proof {
                    pre.lemma_key_at_index(i as int);
                }
                match self.find_grant_index(account_id, id) {
                    Some(g) => {
                        self.actions_auths.remove(g);
                        proof {
                            let gi = g as int;
                            assert forall|a: int, b: int|
                                0 <= a < b < self.actions_auths@.len() implies #[trigger] self
                                .actions_auths@[a] != #[trigger] self.actions_auths@[b] by {
                                let a0 = if a < gi {
                                    a
                                } else {
                                    a + 1
                                };
                                let b0 = if b < gi {
                                    b
                                } else {
                                    b + 1
                                };
                                assert(self.actions_auths@[a] == pre.actions_auths@[a0]);
                                assert(self.actions_auths@[b] == pre.actions_auths@[b0]);
                            }
                            assert forall|p: (AccountId, u32)|
                                self.spec_grants().contains(p) == pre.spec_grants().remove(
                                (account_id, id),
                            ).contains(p) by {
                                if self.spec_grants().contains(p) {
                                    let j = choose|j: int|
                                        0 <= j < self.actions_auths@.len() && #[trigger] self
                                            .actions_auths@[j] == p;
                                    let j0 = if j < gi {
                                        j
                                    } else {
                                        j + 1
                                    };
                                    assert(self.actions_auths@[j] == pre.actions_auths@[j0]);
                                    assert(pre.spec_grants().contains(p));
                                    if p == (account_id, id) {
                                        assert(pre.actions_auths@[gi] == p);
                                        assert(false);
                                    }
                                }
                                if pre.spec_grants().remove((account_id, id)).contains(p) {
                                    let j = choose|j: int|
                                        0 <= j < pre.actions_auths@.len() && #[trigger] pre
                                            .actions_auths@[j] == p;
                                    assert(pre.actions_auths@[gi] == (account_id, id));
                                    assert(j != gi);
                                    let j2 = if j < gi {
                                        j
                                    } else {
                                        j - 1
                                    };
                                    assert(self.actions_auths@[j2] == pre.actions_auths@[j]);
                                }
                            }
                            assert(self.spec_grants() =~= pre.spec_grants().remove(
                                (account_id, id),
                            ));
                        }
                    },
                    None => {
                        proof {
                            assert(self.spec_grants() =~= pre.spec_grants().remove(
                                (account_id, id),
                            ));
                        }
                    },
                }
                true
            },
            None => false,
        };
        proof {
            Self::lemma_same_actions(pre, *self);
        }
        r
    }

    /// Hands the registry to a new owner. Only the current owner may.
    pub fn transfer_owner(&mut self, caller: AccountId, to: AccountId) -> (r: bool)
        requires
            old(self).wf(),
            caller == old(self).spec_owner(),
        ensures
            final(self).wf(),
            r == true,
            final(self).spec_owner() == to,
            final(self).spec_actions() == old(self).spec_actions(),
            final(self).spec_grants() == old(self).spec_grants(),
            final(self).spec_records() == old(self).spec_records(),
            final(self).spec_next_action_id() == old(self).spec_next_action_id(),
    {
        let ghost pre = *self;
        self.owner = to;
        proof {
            Self::lemma_same_actions(pre, *self);
            Self::lemma_same_grants(pre, *self);
        }
        true
    }

    /// Registers (or re-registers) the action named `(contract_name,
    /// function_name)`: assigns the next identifier, stores its record, and
    /// points the name at it. A re-registered name orphans its previous
    /// record, which stays retrievable by identifier.
    pub fn register_action(
        &mut self,
        caller: AccountId,
        contract_name: String,
        function_name: String,
        action_title: String,
    ) -> (r: bool)
        requires
            old(self).wf(),
            old(self).spec_can_register(caller),
            old(self).spec_next_action_id() < u32::MAX,
        ensures
            final(self).wf(),
            r == true,
            final(self).spec_owner() == old(self).spec_owner(),
            final(self).spec_next_action_id() == old(self).spec_next_action_id() + 1,
            final(self).spec_records().len() == old(self).spec_records().len() + 1,
            final(self).spec_records().last().action_id == old(self).spec_next_action_id(),
            final(self).spec_records().last().action_title@ == action_title@,
            final(self).spec_records().last().contract_name@ == contract_name@,
            final(self).spec_records().last().function_name@ == function_name@,
            final(self).spec_records() =~= old(self).spec_records().push(
                final(self).spec_records().last(),
            ),
            final(self).spec_actions() =~= old(self).spec_actions().insert(
                (contract_name@, function_name@),
                old(self).spec_next_action_id(),
            ),
            final(self).spec_grants() == old(self).spec_grants(),
    {
        let ghost pre = *self;
        let action_id = self.action_id;
        let action = Action {
            action_id,
            action_title,
            contract_name: contract_name.clone(),
            function_name: function_name.clone(),
        };
        self.actions_id.push(action);
        self.action_id = self.action_id + 1;
        match self.find_action_index(&contract_name, &function_name) {
            Some(i) => {
                proof {
                    pre.lemma_key_at_index(i as int);
                }
                let mut entry = (contract_name, function_name, action_id);
                core::mem::swap(&mut self.actions[i], &mut entry);
            },
            None => {
                self.actions.push((contract_name, function_name, action_id));
            },
        }
        proof {
            let post = *self;
            let n = pre.actions@.len() as int;
            let key = (contract_name@, function_name@);
            assert forall|a: int, b: int|
                0 <= a < b < post.actions@.len() implies !((#[trigger] post.actions@[a]).0@ == (
            #[trigger] post.actions@[b]).0@ && post.actions@[a].1@ == post.actions@[b].1@) by {
                if pre.key_contains(contract_name@, function_name@) {
                    let i = pre.key_index(contract_name@, function_name@);
                    assert(post.actions@.len() == n);
                    if a != i {
                        assert(post.actions@[a] == pre.actions@[a]);
                    }
                    if b != i {
                        assert(post.actions@[b] == pre.actions@[b]);
                    }
                    if a == i {
                        assert(post.actions@[a].0@ == pre.actions@[i].0@ && post.actions@[a].1@
                            == pre.actions@[i].1@);
                    }
                    if b == i {
                        assert(post.actions@[b].0@ == pre.actions@[i].0@ && post.actions@[b].1@
                            == pre.actions@[i].1@);
                    }
                } else {
                    if b == n {
                        assert(post.actions@[a] == pre.actions@[a]);
                        assert(!(pre.actions@[a].0@ == contract_name@ && pre.actions@[a].1@
                            == function_name@));
                    } else {
                        assert(post.actions@[a] == pre.actions@[a]);
                        assert(post.actions@[b] == pre.actions@[b]);
                    }
                }
            }
            assert(post.keys_unique());
            // The updated or appended entry is where the new key lives.
            let ki = if pre.key_contains(contract_name@, function_name@) {
                pre.key_index(contract_name@, function_name@)
            } else {
                n
            };
            assert(post.actions@[ki].0@ == contract_name@ && post.actions@[ki].1@
                == function_name@ && post.actions@[ki].2 == action_id);
            post.lemma_key_at_index(ki);
            assert forall|k: (Seq<char>, Seq<char>)|
                post.spec_actions().contains_key(k) == pre.spec_actions().insert(
                key,
                action_id,
            ).contains_key(k) by {
                if k != key {
                    if post.key_contains(k.0, k.1) {
                        let j = post.key_index(k.0, k.1);
                        assert(j != ki);
                        assert(pre.actions@[j] == post.actions@[j]);
                    }
                    if pre.key_contains(k.0, k.1) {
                        let j = pre.key_index(k.0, k.1);
                        assert(j != ki);
                        assert(post.actions@[j] == pre.actions@[j]);
                    }
                }
            }
            assert forall|k: (Seq<char>, Seq<char>)|
                post.spec_actions().contains_key(k) implies post.spec_actions()[k] == pre
                .spec_actions().insert(key, action_id)[k] by {
                let j = post.key_index(k.0, k.1);
                post.lemma_key_at_index(j);
                if k == key {
                    assert(j == ki);
                } else {
                    assert(j != ki);
                    assert(pre.actions@[j] == post.actions@[j]);
                    pre.lemma_key_at_index(j);
                }
            }
            assert(post.spec_actions() =~= pre.spec_actions().insert(key, action_id));
            Self::lemma_same_grants(pre, *self);
            assert(post.spec_records() =~= pre.spec_records().push(post.spec_records().last()));
        }
        true
    }

    /// Unregisters the name `(contract_name, function_name)`. The identifier
    /// and its record are retained, orphaned; existing grants of the
    /// identifier become unreachable through the name.
    pub fn cancel_action(
        &mut self,
        caller: AccountId,
        contract_name: String,
        function_name: String,
    ) -> (r: bool)
        requires
            old(self).wf(),
            old(self).spec_can_register(caller),
        ensures
            final(self).wf(),
            r == true,
            final(self).spec_owner() == old(self).spec_owner(),
            final(self).spec_actions() =~= old(self).spec_actions().remove(
                (contract_name@, function_name@),
            ),
            final(self).spec_grants() == old(self).spec_grants(),
            final(self).spec_records() == old(self).spec_records(),
            final(self).spec_next_action_id() == old(self).spec_next_action_id(),
    {
        let ghost pre = *self;
        let key = Ghost((contract_name@, function_name@));
        match self.find_action_index(&contract_name, &function_name) {
            Some(i) => {
                self.actions.remove(i);
                proof {
                    pre.lemma_key_at_index(i as int);
                    let ii = i as int;
                    assert forall|a: int, b: int|
                        0 <= a < b < self.actions@.len() implies !((
                    #[trigger] self.actions@[a]).0@ == (#[trigger] self.actions@[b]).0@
                        && self.actions@[a].1@ == self.actions@[b].1@) by {
                        let a0 = if a < ii {
                            a
                        } else {
                            a + 1
                        };
                        let b0 = if b < ii {
                            b
                        } else {
                            b + 1
                        };
                        assert(self.actions@[a] == pre.actions@[a0]);
                        assert(self.actions@[b] == pre.actions@[b0]);
                    }
                    assert forall|k: (Seq<char>, Seq<char>)|
                        self.spec_actions().contains_key(k) == pre.spec_actions().remove(
                        key@,
                    ).contains_key(k) by {
                        if self.key_contains(k.0, k.1) {
                            let j = self.key_index(k.0, k.1);
                            let j0 = if j < ii {
                                j
                            } else {
                                j + 1
                            };
                            assert(self.actions@[j] == pre.actions@[j0]);
                            assert(pre.key_contains(k.0, k.1));
                            if k == key@ {
                                pre.lemma_key_at_index(j0);
                                assert(false);
                            }
                        }
                        if pre.key_contains(k.0, k.1) && k != key@ {
                            let j = pre.key_index(k.0, k.1);
                            pre.lemma_key_at_index(j);
                            assert(j != ii);
                            let j2 = if j < ii {
                                j
                            } else {
                                j - 1
                            };
                            assert(self.actions@[j2] == pre.actions@[j]);
                        }
                    }
                    assert forall|k: (Seq<char>, Seq<char>)|
                        self.spec_actions().contains_key(k) implies self.spec_actions()[k] == pre
                        .spec_actions().remove(key@)[k] by {
                        let j = self.key_index(k.0, k.1);
                        self.lemma_key_at_index(j);
                        let j0 = if j < ii {
                            j
                        } else {
                            j + 1
                        };
                        assert(self.actions@[j] == pre.actions@[j0]);
                        pre.lemma_key_at_index(j0);
                    }
                    assert(self.spec_actions() =~= pre.spec_actions().remove(key@));
                    Self::lemma_same_grants(pre, *self);
                }
                true
            },
            None => {
                proof {
                    assert(self.spec_actions() =~= pre.spec_actions().remove(key@));
                }
                true
            },
        }
    }

    /// Builds the display copies of the records for the given identifiers,
    /// over the window `[start, end)`.
    fn collect_records(&self, ids: &Vec<u32>, start: u64, end: u64) -> (data: Vec<Action>)
        requires
            self.wf(),
            end <= ids@.len(),
            forall|j: int| 0 <= j < ids@.len() ==> (#[trigger] ids@[j]) < self.spec_next_action_id(),
        ensures
            data@.len() == if start <= end {
                end - start
            } else {
                0int
            },
            forall|j: int|
                0 <= j < data@.len() ==> data@[j] == self.spec_records()[ids@[start + j] as int],
    {
        let mut data: Vec<Action> = Vec::new();
        if start >= end {
            return data;
        }
        // learn that the identifier vector's length fits the machine's indices
        let _ids_len = ids.len();
        let mut i: u64 = start;
        while i < end
            invariant
                self.wf(),
                ids@.len() <= usize::MAX,
                end <= ids@.len(),
                forall|j: int|
                    0 <= j < ids@.len() ==> (#[trigger] ids@[j]) < self.spec_next_action_id(),
                start <= i <= end,
                data@.len() == i - start,
                forall|j: int|
                    0 <= j < data@.len() ==> data@[j] == self.spec_records()[ids@[start + j] as int],
            decreases end - i,
        {
            let id = ids[i as usize];
            let rec = &self.actions_id[id as usize];
            data.push(
                Action {
                    action_id: rec.action_id,
                    action_title: rec.action_title.clone(),
                    contract_name: rec.contract_name.clone(),
                    function_name: rec.function_name.clone(),
                },
            );
            i += 1;
        }
        data
    }

    /// One page of the actions currently registered under contract name
    /// `contract_name`, in table order.
    pub fn show_actions_by_contract(&self, contract_name: String, page: u64, size: u64) -> (r:
        PageResult<Action>)
        requires
            self.wf(),
            valid_page_params(page, size),
        ensures
            ({
                let ids = ids_for_contract(self.actions@, contract_name@);
                let start = spec_start(page, size);
                let end = spec_end(page, size, ids.len() as u64);
                &&& r.success == true
                &&& r.err@ == "success"@
                &&& r.total == ids.len()
                &&& r.pages == spec_pages(ids.len() as u64, size)
                &&& r.page == page
                &&& r.size == size
                &&& r.data@.len() == (if start <= end {
                    end - start
                } else {
                    0int
                })
                &&& forall|j: int|
                    0 <= j < r.data@.len() ==> r.data@[j] == self.spec_records()[ids[start
                        + j] as int]
            }),
    {
        let n = self.actions.len();
        let mut matching: Vec<u32> = Vec::new();
        let mut i: usize = 0;
        while i < n
            invariant
                self.wf(),
                n == self.actions@.len(),
                0 <= i <= n,
                matching@ =~= ids_for_contract(self.actions@.take(i as int), contract_name@),
                forall|j: int|
                    0 <= j < matching@.len() ==> (#[trigger] matching@[j])
                        < self.spec_next_action_id(),
            decreases n - i,
        {
            let e = &self.actions[i];
            if e.0 == contract_name {
                matching.push(e.2);
            }
            i += 1;
            proof {
                assert(self.actions@.take(i as int).drop_last() =~= self.actions@.take(i - 1));
            }
        }
        proof {
            assert(self.actions@.take(n as int) =~= self.actions@);
        }
        let total = matching.len() as u64;
        let (start, end, pages) = cal_pages(page, size, total);
        let data = self.collect_records(&matching, start, end);
        PageResult {
            success: true,
            err: String::from_str("success"),
            total,
            pages,
            page,
            size,
            data,
        }
    }

    /// One page of the actions currently granted to `owner`, in grant-table
    /// order.
    pub fn show_actions_by_user(&self, owner: AccountId, page: u64, size: u64) -> (r: PageResult<
        Action,
    >)
        requires
            self.wf(),
            valid_page_params(page, size),
        ensures
            ({
                let ids = ids_for_account(self.actions_auths@, owner);
                let start = spec_start(page, size);
                let end = spec_end(page, size, ids.len() as u64);
                &&& r.success == true
                &&& r.err@ == "success"@
                &&& r.total == ids.len()
                &&& r.pages == spec_pages(ids.len() as u64, size)
                &&& r.page == page
                &&& r.size == size
                &&& r.data@.len() == (if start <= end {
                    end - start
                } else {
                    0int
                })
                &&& forall|j: int|
                    0 <= j < r.data@.len() ==> r.data@[j] == self.spec_records()[ids[start
                        + j] as int]
            }),
    {
        let n = self.actions_auths.len();
        let mut matching: Vec<u32> = Vec::new();
        let mut i: usize = 0;
        while i < n
            invariant
                self.wf(),
                n == self.actions_auths@.len(),
                0 <= i <= n,
                matching@ =~= ids_for_account(self.actions_auths@.take(i as int), owner),
                forall|j: int|
                    0 <= j < matching@.len() ==> (#[trigger] matching@[j])
                        < self.spec_next_action_id(),
            decreases n - i,
        {
            let e = &self.actions_auths[i];
            if e.0 == owner {
                matching.push(e.1);
            }
            i += 1;
            proof {
                assert(self.actions_auths@.take(i as int).drop_last() =~= self.actions_auths@.take(
                    i - 1,
                ));
            }
        }
        proof {
            assert(self.actions_auths@.take(n as int) =~= self.actions_auths@);
        }
        let total = matching.len() as u64;
        let (start, end, pages) = cal_pages(page, size, total);
        let data = self.collect_records(&matching, start, end);
        PageResult {
            success: true,
            err: String::from_str("success"),
            total,
            pages,
            page,
            size,
            data,
        }
    }

    pub fn get_auth_owner(&self) -> (r: AccountId)
        ensures
            r == self.spec_owner(),
    {
        self.owner
    }
}

/// Two registries with equal name maps agree on name lookups.
pub proof fn lemma_same_name_table(pre: Auth, post: Auth, c: Seq<char>, f: Seq<char>)
    requires
        post.spec_actions() == pre.spec_actions(),
    ensures
        post.key_contains(c, f) == pre.key_contains(c, f),
        pre.key_contains(c, f) ==> post.spec_action_id(c, f) == pre.spec_action_id(c, f),
{
    assert(pre.key_contains(c, f) == pre.spec_actions().contains_key((c, f)));
    assert(post.key_contains(c, f) == post.spec_actions().contains_key((c, f)));
    if pre.key_contains(c, f) {
        assert(pre.spec_action_id(c, f) == pre.spec_actions()[(c, f)]);
        assert(post.spec_action_id(c, f) == post.spec_actions()[(c, f)]);
    }
}

/// Granting authority survives any change that keeps the owner and the name
/// map and only adds grants.
pub proof fn lemma_can_grant_preserved(pre: Auth, post: Auth, caller: AccountId)
    requires
        pre.spec_can_grant(caller),
        post.spec_owner() == pre.spec_owner(),
        post.spec_actions() == pre.spec_actions(),
        pre.spec_grants().subset_of(post.spec_grants()),
    ensures
        post.spec_can_grant(caller),
{
    if caller != pre.spec_owner() {
        assert(pre.spec_grants().contains((caller, pre.spec_actions()[("auth"@, "grant"@)])));
    }
}

/// Law: holding a permission is exactly "the name is registered and the pair
/// `(account, its identifier)` is granted" — registration and an unrevoked
/// grant are each necessary, and together sufficient.
pub proof fn lemma_permission_iff(a: Auth, account: AccountId, c: Seq<char>, f: Seq<char>)
    requires
        a.wf(),
    ensures
        a.spec_has_permission(account, c, f) <==> (a.spec_actions().contains_key((c, f))
            && a.spec_grants().contains((account, a.spec_actions()[(c, f)]))),
{
}

/// Law: an unregistered name never grants a permission, whatever the grant
/// table holds.
pub proof fn lemma_unregistered_no_permission(a: Auth, account: AccountId, c: Seq<char>, f: Seq<char>)
    requires
        !a.spec_actions().contains_key((c, f)),
    ensures
        !a.spec_has_permission(account, c, f),
{
}

/// Law: granting a registered capability makes `has_permission` hold.
pub proof fn lemma_grant_gives_permission(
    pre: Auth,
    post: Auth,
    account: AccountId,
    c: Seq<char>,
    f: Seq<char>,
)
    requires
        pre.spec_actions().contains_key((c, f)),
        post.spec_actions() == pre.spec_actions(),
        post.spec_grants() == pre.spec_grants().insert((account, pre.spec_actions()[(c, f)])),
    ensures
        post.spec_has_permission(account, c, f),
{
}

/// Law: a grant followed by a revocation of the same capability leaves the
/// account without the permission, whatever it held before.
pub proof fn lemma_grant_then_revoke(
    a0: Auth,
    a1: Auth,
    a2: Auth,
    account: AccountId,
    c: Seq<char>,
    f: Seq<char>,
)
    requires
        a0.spec_actions().contains_key((c, f)),
        a1.spec_actions() == a0.spec_actions(),
        a1.spec_grants() == a0.spec_grants().insert((account, a0.spec_actions()[(c, f)])),
        a2.spec_actions() == a1.spec_actions(),
        a2.spec_grants() == a1.spec_grants().remove((account, a1.spec_actions()[(c, f)])),
    ensures
        !a2.spec_has_permission(account, c, f),
{
}

} // verus!
