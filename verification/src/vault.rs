//! The treasury: token custody with an append-only transfer ledger.
//!
//! The treasury tracks every token ever registered (`tokens`, permanent) and
//! the subset currently eligible for withdrawal (`visible_tokens`); removing
//! a token only hides it. Every successful movement of funds appends one
//! immutable [`Transfer`] record whose identifier is one above its
//! predecessor's. The host's native currency is addressed by the reserved
//! [`NATIVE_TOKEN`] sentinel and its host-held balance is modeled by the
//! `native_balance` field; fungible tokens are reached through a
//! [`TokenPort`], of whose answers nothing is assumed.
//!
//! The base design's permission gate on mutating treasury calls is vacuous —
//! every caller passes — so these entry points take no caller identity beyond
//! what their ledger records need; gating is the permission registry's
//! business at the component boundary.

use crate::account::{AccountId, NATIVE_TOKEN};
use crate::amap::AddrMap;
use crate::page::{cal_pages, page_meta, spec_start, valid_page_params, PageResult};
use crate::token::TokenPort;
use vstd::prelude::*;

verus! {

/// One immutable ledger record.
pub struct Transfer {
    pub transfer_id: u64,
    /// `1` for funds leaving the treasury, `2` for funds entering it.
    pub transfer_direction: u64,
    pub token_name: String,
    pub from_address: AccountId,
    pub to_address: AccountId,
    pub value: u64,
    pub transfer_time: u64,
}

/// A token row of the balance listing.
pub struct TokenInfo {
    pub erc20: AccountId,
    pub symbol: String,
    pub name: String,
    pub balance: u64,
}

/// Failure vocabulary of the treasury. The entry points report failure as a
/// returned `false`; this names the condition.
#[derive(Debug, PartialEq, Eq, Structural)]
pub enum Error {
    InvalidTransferRecord,
}

/// A token was registered with the treasury.
pub struct AddVaultTokenEvent {
    pub token_address: AccountId,
}

/// A token was hidden from the withdrawable set.
pub struct RemoveVaultTokenEvent {
    pub token_address: AccountId,
}

/// A token balance was read. The balance query itself is pure, so this
/// event is vocabulary for the host's observers; the library never appends
/// it to the log.
pub struct GetTokenBalanceEvent {
    pub token_address: AccountId,
    pub balance: u64,
}

/// Funds entered the treasury.
pub struct DepositTokenEvent {
    pub token_name: String,
    pub from_address: AccountId,
    pub value: u64,
}

/// Funds left the treasury.
pub struct WithdrawTokenEvent {
    pub token_name: String,
    pub to_address: AccountId,
    pub value: u64,
}

/// A notification, as appended to the treasury's event log.
pub enum VaultEvent {
    AddVaultToken(AddVaultTokenEvent),
    RemoveVaultToken(RemoveVaultTokenEvent),
    GetTokenBalance(GetTokenBalanceEvent),
    DepositToken(DepositTokenEvent),
    WithdrawToken(WithdrawTokenEvent),
}

/// The fields of one ledger record other than its token name (which, for a
/// fungible token, comes from the token contract itself).
pub open spec fn entry_shape(
    t: Transfer,
    id: nat,
    dir: u64,
    from: AccountId,
    to: AccountId,
    value: u64,
    time: u64,
) -> bool {
    &&& t.transfer_id == id
    &&& t.transfer_direction == dir
    &&& t.from_address == from
    &&& t.to_address == to
    &&& t.value == value
    &&& t.transfer_time == time
}

/// The treasury.
pub struct VaultManager {
    pub tokens: AddrMap<AccountId>,
    pub visible_tokens: AddrMap<AccountId>,
    pub transfer_history: Vec<Transfer>,
    pub org_contract_address: AccountId,
    pub vault_contract_address: AccountId,
    pub auth_contract_address: AccountId,
    /// The treasury's host-held balance of the native currency.
    pub native_balance: u128,
    pub events: Vec<VaultEvent>,
}

impl VaultManager {
    /// Internal consistency: distinct keys in both token maps, every visible
    /// token tracked, every registration pointing at this vault, ledger
    /// identifiers dense from one, directions meaningful.
    pub open spec fn wf(self) -> bool {
        &&& self.tokens.wf()
        &&& self.visible_tokens.wf()
        &&& forall|k: AccountId|
            #[trigger] self.visible_tokens@.contains_key(k) ==> self.tokens@.contains_key(k)
        &&& forall|i: int|
            0 <= i < self.tokens.entries@.len() ==> (#[trigger] self.tokens.entries@[i]).1
                == self.vault_contract_address
        &&& forall|i: int|
            0 <= i < self.visible_tokens.entries@.len() ==> (
            #[trigger] self.visible_tokens.entries@[i]).1 == self.vault_contract_address
        &&& forall|i: int|
            0 <= i < self.transfer_history@.len() ==> (
            #[trigger] self.transfer_history@[i]).transfer_id == i + 1
        &&& forall|i: int|
            0 <= i < self.transfer_history@.len() ==> ((
            #[trigger] self.transfer_history@[i]).transfer_direction == 1
                || self.transfer_history@[i].transfer_direction == 2)
    }

    /// The addresses and the event log aside, nothing identifies a treasury
    /// but its three data fields; this names the configuration that mutating
    /// calls leave alone.
    pub open spec fn same_addresses(self, other: VaultManager) -> bool {
        &&& other.org_contract_address == self.org_contract_address
        &&& other.vault_contract_address == self.vault_contract_address
        &&& other.auth_contract_address == self.auth_contract_address
    }

    pub fn new(
        org_contract_address: AccountId,
        auth_contract_address: AccountId,
        vault_contract_address: AccountId,
    ) -> (r: Self)
        ensures
            r.wf(),
            r.org_contract_address == org_contract_address,
            r.auth_contract_address == auth_contract_address,
            r.vault_contract_address == vault_contract_address,
            r.native_balance == 0,
            r.tokens@ =~= Map::<AccountId, AccountId>::empty(),
            r.visible_tokens@ =~= Map::<AccountId, AccountId>::empty(),
            r.tokens.entries@ =~= Seq::<(AccountId, AccountId)>::empty(),
            r.visible_tokens.entries@ =~= Seq::<(AccountId, AccountId)>::empty(),
            r.transfer_history@ =~= Seq::<Transfer>::empty(),
            r.events@ =~= Seq::<VaultEvent>::empty(),
    {
        VaultManager {
            org_contract_address,
            auth_contract_address,
            tokens: AddrMap::new(),
            visible_tokens: AddrMap::new(),
            transfer_history: Vec::new(),
            vault_contract_address,
            native_balance: 0,
            events: Vec::new(),
        }
    }

    /// Registers a token: tracked forever, and immediately visible. Reports
    /// failure on a token already tracked (which stays as it was).
    pub fn add_vault_token(&mut self, erc_20_address: AccountId) -> (r: bool)
        requires
            old(self).wf(),
        ensures
            final(self).wf(),
            old(self).same_addresses(*final(self)),
            final(self).native_balance == old(self).native_balance,
            final(self).transfer_history@ == old(self).transfer_history@,
            r == !old(self).tokens@.contains_key(erc_20_address),
            r ==> {
                &&& final(self).tokens@ =~= old(self).tokens@.insert(
                    erc_20_address,
                    old(self).vault_contract_address,
                )
                &&& final(self).tokens.entries@ =~= old(self).tokens.entries@.push(
                    (erc_20_address, old(self).vault_contract_address),
                )
                &&& final(self).visible_tokens@ =~= old(self).visible_tokens@.insert(
                    erc_20_address,
                    old(self).vault_contract_address,
                )
                &&& final(self).visible_tokens.entries@ =~= old(self).visible_tokens.entries@.push(
                    (erc_20_address, old(self).vault_contract_address),
                )
                &&& final(self).events@ =~= old(self).events@.push(
                    VaultEvent::AddVaultToken(
                        (AddVaultTokenEvent { token_address: erc_20_address }),
                    ),
                )
            },
            !r ==> {
                &&& final(self).tokens@ == old(self).tokens@
                &&& final(self).tokens.entries@ =~= old(self).tokens.entries@
                &&& final(self).visible_tokens@ == old(self).visible_tokens@
                &&& final(self).visible_tokens.entries@ == old(self).visible_tokens.entries@
                &&& final(self).events@ == old(self).events@
            },
    {
        let ghost pre = *self;
        match self.tokens.insert(erc_20_address, self.vault_contract_address) {
            Some(_) => {
                proof {
                    let i = pre.tokens.spec_index_of(erc_20_address);
                    pre.tokens.lemma_at_index(i);
                    assert(self.tokens.entries@ =~= pre.tokens.entries@);
                    assert(self.tokens@ =~= pre.tokens@);
                }
                false
            },
            None => {
                self.visible_tokens.insert(erc_20_address, self.vault_contract_address);
                self.events.push(
                    VaultEvent::AddVaultToken(AddVaultTokenEvent { token_address: erc_20_address }),
                );
                proof {
                    if pre.visible_tokens@.contains_key(erc_20_address) {
                        assert(pre.tokens@.contains_key(erc_20_address));
                    }
                }
                true
            },
        }
    }

    /// Hides a token from the withdrawable set. The permanent registration
    /// and the ledger are untouched; reports whether the token was visible.
    pub fn remove_vault_token(&mut self, erc_20_address: AccountId) -> (r: bool)
        requires
            old(self).wf(),
        ensures
            final(self).wf(),
            old(self).same_addresses(*final(self)),
            final(self).native_balance == old(self).native_balance,
            final(self).transfer_history@ == old(self).transfer_history@,
            final(self).tokens@ == old(self).tokens@,
            final(self).tokens.entries@ == old(self).tokens.entries@,
            r == old(self).visible_tokens@.contains_key(erc_20_address),
            final(self).visible_tokens@ =~= old(self).visible_tokens@.remove(erc_20_address),
            r ==> final(self).events@ =~= old(self).events@.push(
                VaultEvent::RemoveVaultToken(
                    (RemoveVaultTokenEvent { token_address: erc_20_address }),
                ),
            ),
            !r ==> final(self).events@ == old(self).events@,
    {
        match self.visible_tokens.take(erc_20_address) {
            None => false,
            Some(_) => {
                self.events.push(
                    VaultEvent::RemoveVaultToken(
                        RemoveVaultTokenEvent { token_address: erc_20_address },
                    ),
                );
                true
            },
        }
    }

    /// One page of the withdrawable token addresses, the native sentinel
    /// appended as the logically-last entry.
    pub fn get_token_list(&self, page: u64, size: u64) -> (r: PageResult<AccountId>)
        requires
            self.wf(),
            valid_page_params(page, size),
            self.visible_tokens.entries@.len() < u64::MAX,
        ensures
            ({
                let total = self.visible_tokens.entries@.len() + 1;
                let start = spec_start(page, size);
                &&& page_meta(r, total as u64, page, size)
                &&& forall|j: int|
                    0 <= j < r.data@.len() ==> r.data@[j] == (if start + j == total - 1 {
                        NATIVE_TOKEN
                    } else {
                        self.visible_tokens.entries@[start + j].0
                    })
            }),
    {
        let total = self.visible_tokens.len() as u64 + 1;
        let (start, end, pages) = cal_pages(page, size, total);
        let mut data: Vec<AccountId> = Vec::new();
        if start < end {
            let mut i: u64 = start;
            while i < end
                invariant
                    self.wf(),
                    total == self.visible_tokens.entries@.len() + 1,
                    self.visible_tokens.entries@.len() <= usize::MAX,
                    end <= total,
                    start <= i <= end,
                    data@.len() == i - start,
                    forall|j: int|
                        0 <= j < data@.len() ==> data@[j] == (if start + j == total - 1 {
                            NATIVE_TOKEN
                        } else {
                            self.visible_tokens.entries@[start + j].0
                        }),
                decreases end - i,
            {
                if i == total - 1 {
                    data.push(NATIVE_TOKEN);
                } else {
                    data.push(self.visible_tokens.entry_at(i as usize).0);
                }
                i += 1;
            }
        }
        PageResult {
            success: true,
            err: String::from_str("success"),
            total,
            pages,
            page,
            size,
            data,
        }
    }

    /// The treasury's balance of one token: the modeled host balance for the
    /// native sentinel, the token contract's answer for a tracked token, and
    /// zero for anything untracked.
    pub fn get_balance_of<T: TokenPort>(&self, port: &T, erc_20_address: AccountId) -> (r: u64)
        requires
            self.wf(),
        ensures
            erc_20_address == NATIVE_TOKEN ==> r == self.native_balance as u64,
            erc_20_address != NATIVE_TOKEN && !self.tokens@.contains_key(erc_20_address) ==> r == 0,
    {
        if erc_20_address == NATIVE_TOKEN {
            let value = #[verifier::truncate] (self.native_balance as u64);
            return value;
        }
        if self.tokens.contains_key(erc_20_address) {
            port.balance_of(erc_20_address, self.vault_contract_address)
        } else {
            0
        }
    }

    /// One page of the withdrawable tokens with their symbols, names and
    /// balances, the native currency as the logically-last row. The fungible
    /// rows' texts and balances are whatever the token contracts answer.
    pub fn get_balance<T: TokenPort>(&self, port: &T, page: u64, size: u64) -> (r: PageResult<
        TokenInfo,
    >)
        requires
            self.wf(),
            valid_page_params(page, size),
            self.visible_tokens.entries@.len() < u64::MAX,
        ensures
            ({
                let total = self.visible_tokens.entries@.len() + 1;
                let start = spec_start(page, size);
                &&& page_meta(r, total as u64, page, size)
                &&& forall|j: int|
                    0 <= j < r.data@.len() ==> (#[trigger] r.data@[j]).erc20 == (
                    if start + j == total - 1 {
                        NATIVE_TOKEN
                    } else {
                        self.visible_tokens.entries@[start + j].0
                    })
                &&& forall|j: int|
                    0 <= j < r.data@.len() && start + j == total - 1 ==> (
                    #[trigger] r.data@[j]).symbol@ == "GOV"@ && r.data@[j].name@ == "SubDAO"@
                        && r.data@[j].balance == self.native_balance as u64
            }),
    {
        let total = self.visible_tokens.len() as u64 + 1;
        let (start, end, pages) = cal_pages(page, size, total);
        let mut data: Vec<TokenInfo> = Vec::new();
        if start < end {
            let mut i: u64 = start;
            while i < end
                invariant
                    self.wf(),
                    total == self.visible_tokens.entries@.len() + 1,
                    self.visible_tokens.entries@.len() <= usize::MAX,
                    end <= total,
                    start <= i <= end,
                    data@.len() == i - start,
                    forall|j: int|
                        0 <= j < data@.len() ==> (#[trigger] data@[j]).erc20 == (
                        if start + j == total - 1 {
                            NATIVE_TOKEN
                        } else {
                            self.visible_tokens.entries@[start + j].0
                        }),
                    forall|j: int|
                        0 <= j < data@.len() && start + j == total - 1 ==> (
                        #[trigger] data@[j]).symbol@ == "GOV"@ && data@[j].name@ == "SubDAO"@
                            && data@[j].balance == self.native_balance as u64,
                decreases end - i,
            {
                if i == total - 1 {
                    let value = #[verifier::truncate] (self.native_balance as u64);
                    data.push(
                        TokenInfo {
                            erc20: NATIVE_TOKEN,
                            symbol: String::from_str("GOV"),
                            name: String::from_str("SubDAO"),
                            balance: value,
                        },
                    );
                } else {
                    let address = self.visible_tokens.entry_at(i as usize).0;
                    data.push(
                        TokenInfo {
                            erc20: address,
                            symbol: port.symbol(address),
                            name: port.name(address),
                            balance: port.balance_of(address, self.vault_contract_address),
                        },
                    );
                }
                i += 1;
            }
        }
        PageResult {
            success: true,
            err: String::from_str("success"),
            total,
            pages,
            page,
            size,
            data,
        }
    }

    /// Deposits into the treasury: the native path records the value attached
    /// to the call, a tracked token is pulled from `from_address` through the
    /// token contract. A ledger record and a notification are appended
    /// exactly when funds moved; an untracked token or a refused transfer
    /// changes nothing and reports failure.
    pub fn deposit<T: TokenPort>(
        &mut self,
        port: &mut T,
        caller: AccountId,
        erc_20_address: AccountId,
        from_address: AccountId,
        value: u64,
        attached: u128,
        now: u64,
    ) -> (r: bool)
        requires
            old(self).wf(),
            erc_20_address == NATIVE_TOKEN ==> attached > 0 && old(self).native_balance + attached
                <= u128::MAX,
            erc_20_address == NATIVE_TOKEN || old(self).tokens@.contains_key(erc_20_address) ==> old(
                self,
            ).transfer_history@.len() < u64::MAX,
        ensures
            final(self).wf(),
            old(self).same_addresses(*final(self)),
            final(self).tokens@ == old(self).tokens@,
            final(self).tokens.entries@ == old(self).tokens.entries@,
            final(self).visible_tokens@ == old(self).visible_tokens@,
            final(self).visible_tokens.entries@ == old(self).visible_tokens.entries@,
            r ==> final(self).transfer_history@.len() == old(self).transfer_history@.len() + 1,
            !r ==> *final(self) == *old(self),
            r ==> final(self).transfer_history@.subrange(
                0,
                old(self).transfer_history@.len() as int,
            ) =~= old(self).transfer_history@,
            erc_20_address == NATIVE_TOKEN ==> {
                &&& r == true
                &&& final(self).native_balance == old(self).native_balance + attached
                &&& entry_shape(
                    final(self).transfer_history@.last(),
                    old(self).transfer_history@.len() + 1,
                    2,
                    caller,
                    old(self).vault_contract_address,
                    attached as u64,
                    now,
                )
                &&& final(self).transfer_history@.last().token_name@ == "SubDAO"@
            },
            erc_20_address != NATIVE_TOKEN && !old(self).tokens@.contains_key(erc_20_address) ==> r
                == false,
            erc_20_address != NATIVE_TOKEN ==> final(self).native_balance == old(
                self,
            ).native_balance,
            erc_20_address != NATIVE_TOKEN && r ==> entry_shape(
                final(self).transfer_history@.last(),
                old(self).transfer_history@.len() + 1,
                2,
                from_address,
                old(self).vault_contract_address,
                value,
                now,
            ),
            r ==> final(self).events@.len() == old(self).events@.len() + 1
                && final(self).events@.subrange(0, old(self).events@.len() as int) =~= old(
                self,
            ).events@ && final(self).events@.last() == VaultEvent::DepositToken(
                (DepositTokenEvent {
                    token_name: final(self).transfer_history@.last().token_name,
                    from_address: (if erc_20_address == NATIVE_TOKEN {
                        caller
                    } else {
                        from_address
                    }),
                    value: final(self).transfer_history@.last().value,
                }),
            ),
    {
        if erc_20_address == NATIVE_TOKEN {
            return self.deposit_native_token(caller, attached, now);
        }
        let to_address = self.vault_contract_address;
        if self.tokens.contains_key(erc_20_address) {
            let token_name = port.name(erc_20_address);
            let transfer_result = port.transfer_from(
                erc_20_address,
                from_address,
                to_address,
                value,
            );
            if transfer_result == false {
                return false;
            }
            let transfer_id = self.transfer_history.len() as u64 + 1;
            self.transfer_history.push(
                Transfer {
                    transfer_direction: 2,
                    token_name: token_name.clone(),
                    transfer_id,
                    from_address,
                    to_address,
                    value,
                    transfer_time: now,
                },
            );
            self.events.push(
                VaultEvent::DepositToken(
                    DepositTokenEvent { token_name, from_address, value },
                ),
            );
            true
        } else {
            false
        }
    }

    /// Records a deposit of the native currency itself: the attached value
    /// joins the treasury's balance and is entered in the ledger.
    pub fn deposit_native_token(&mut self, caller: AccountId, value: u128, now: u64) -> (r: bool)
        requires
            old(self).wf(),
            value > 0,
            old(self).native_balance + value <= u128::MAX,
            old(self).transfer_history@.len() < u64::MAX,
        ensures
            final(self).wf(),
            old(self).same_addresses(*final(self)),
            r == true,
            final(self).tokens@ == old(self).tokens@,
            final(self).tokens.entries@ == old(self).tokens.entries@,
            final(self).visible_tokens@ == old(self).visible_tokens@,
            final(self).visible_tokens.entries@ == old(self).visible_tokens.entries@,
            final(self).native_balance == old(self).native_balance + value,
            final(self).transfer_history@.len() == old(self).transfer_history@.len() + 1,
            final(self).transfer_history@.subrange(0, old(self).transfer_history@.len() as int)
                =~= old(self).transfer_history@,
            entry_shape(
                final(self).transfer_history@.last(),
                old(self).transfer_history@.len() + 1,
                2,
                caller,
                old(self).vault_contract_address,
                value as u64,
                now,
            ),
            final(self).transfer_history@.last().token_name@ == "SubDAO"@,
            final(self).events@.len() == old(self).events@.len() + 1,
            final(self).events@.subrange(0, old(self).events@.len() as int) =~= old(self).events@,
            final(self).events@.last() == VaultEvent::DepositToken(
                (DepositTokenEvent {
                    token_name: final(self).transfer_history@.last().token_name,
                    from_address: caller,
                    value: value as u64,
                }),
            ),
    {
        let from_address = caller;
        let to_address = self.vault_contract_address;
        let transfer_id = self.transfer_history.len() as u64 + 1;
        let value2 = #[verifier::truncate] (value as u64);
        self.native_balance = self.native_balance + value;
        let token_name = String::from_str("SubDAO");
        self.transfer_history.push(
            Transfer {
                transfer_direction: 2,
                token_name: token_name.clone(),
                transfer_id,
                from_address,
                to_address,
                value: value2,
                transfer_time: now,
            },
        );
        self.events.push(
            VaultEvent::DepositToken(
                DepositTokenEvent { token_name, from_address, value: value2 },
            ),
        );
        true
    }

    /// Withdraws from the treasury: the native path moves host currency and
    /// always succeeds under its balance precondition; a visible token is
    /// asked to transfer, and a refused transfer changes nothing. A ledger
    /// record and a notification are appended exactly when funds moved; a
    /// token outside the visible set reports failure.
    pub fn withdraw<T: TokenPort>(
        &mut self,
        port: &mut T,
        erc_20_address: AccountId,
        to_address: AccountId,
        value: u64,
        now: u64,
    ) -> (r: bool)
        requires
            old(self).wf(),
            erc_20_address == NATIVE_TOKEN ==> old(self).native_balance >= value,
            erc_20_address == NATIVE_TOKEN || old(self).visible_tokens@.contains_key(
                erc_20_address,
            ) ==> old(self).transfer_history@.len() < u64::MAX,
        ensures
            final(self).wf(),
            old(self).same_addresses(*final(self)),
            final(self).tokens@ == old(self).tokens@,
            final(self).tokens.entries@ == old(self).tokens.entries@,
            final(self).visible_tokens@ == old(self).visible_tokens@,
            final(self).visible_tokens.entries@ == old(self).visible_tokens.entries@,
            r ==> final(self).transfer_history@.len() == old(self).transfer_history@.len() + 1,
            !r ==> *final(self) == *old(self),
            r ==> final(self).transfer_history@.subrange(
                0,
                old(self).transfer_history@.len() as int,
            ) =~= old(self).transfer_history@,
            erc_20_address == NATIVE_TOKEN ==> {
                &&& r == true
                &&& final(self).native_balance == old(self).native_balance - value
                &&& entry_shape(
                    final(self).transfer_history@.last(),
                    old(self).transfer_history@.len() + 1,
                    1,
                    old(self).vault_contract_address,
                    to_address,
                    value,
                    now,
                )
                &&& final(self).transfer_history@.last().token_name@ == "SubDAO"@
            },
            erc_20_address != NATIVE_TOKEN && !old(self).visible_tokens@.contains_key(
                erc_20_address,
            ) ==> r == false,
            erc_20_address != NATIVE_TOKEN ==> final(self).native_balance == old(
                self,
            ).native_balance,
            erc_20_address != NATIVE_TOKEN && r ==> entry_shape(
                final(self).transfer_history@.last(),
                old(self).transfer_history@.len() + 1,
                1,
                old(self).vault_contract_address,
                to_address,
                value,
                now,
            ),
            r ==> final(self).events@.len() == old(self).events@.len() + 1
                && final(self).events@.subrange(0, old(self).events@.len() as int) =~= old(
                self,
            ).events@ && final(self).events@.last() == VaultEvent::WithdrawToken(
                (WithdrawTokenEvent {
                    token_name: final(self).transfer_history@.last().token_name,
                    to_address,
                    value: final(self).transfer_history@.last().value,
                }),
            ),
    {
        if erc_20_address == NATIVE_TOKEN {
            return self.withdraw_native_token(to_address, value as u128, now);
        }
        let from_address = self.vault_contract_address;
        if self.visible_tokens.contains_key(erc_20_address) {
            let token_name = port.name(erc_20_address);
            let transfer_result = port.transfer(erc_20_address, to_address, value);
            if transfer_result == false {
                return false;
            }
            let transfer_id = self.transfer_history.len() as u64 + 1;
            self.transfer_history.push(
                Transfer {
                    transfer_direction: 1,
                    token_name: token_name.clone(),
                    transfer_id,
                    from_address,
                    to_address,
                    value,
                    transfer_time: now,
                },
            );
            self.events.push(
                VaultEvent::WithdrawToken(
                    WithdrawTokenEvent { token_name, to_address, value },
                ),
            );
            true
        } else {
            false
        }
    }

    /// Moves native currency out of the treasury and enters it in the
    /// ledger. The treasury must hold at least the requested value.
    pub fn withdraw_native_token(
        &mut self,
        to_address: AccountId,
        value: u128,
        now: u64,
    ) -> (r: bool)
        requires
            old(self).wf(),
            old(self).native_balance >= value,
            old(self).transfer_history@.len() < u64::MAX,
        ensures
            final(self).wf(),
            old(self).same_addresses(*final(self)),
            r == true,
            final(self).tokens@ == old(self).tokens@,
            final(self).tokens.entries@ == old(self).tokens.entries@,
            final(self).visible_tokens@ == old(self).visible_tokens@,
            final(self).visible_tokens.entries@ == old(self).visible_tokens.entries@,
            final(self).native_balance == old(self).native_balance - value,
            final(self).transfer_history@.len() == old(self).transfer_history@.len() + 1,
            final(self).transfer_history@.subrange(0, old(self).transfer_history@.len() as int)
                =~= old(self).transfer_history@,
            entry_shape(
                final(self).transfer_history@.last(),
                old(self).transfer_history@.len() + 1,
                1,
                old(self).vault_contract_address,
                to_address,
                value as u64,
                now,
            ),
            final(self).transfer_history@.last().token_name@ == "SubDAO"@,
            final(self).events@.len() == old(self).events@.len() + 1,
            final(self).events@.subrange(0, old(self).events@.len() as int) =~= old(self).events@,
            final(self).events@.last() == VaultEvent::WithdrawToken(
                (WithdrawTokenEvent {
                    token_name: final(self).transfer_history@.last().token_name,
                    to_address,
                    value: value as u64,
                }),
            ),
    {
        let from_address = self.vault_contract_address;
        self.native_balance = self.native_balance - value;
        let value2 = #[verifier::truncate] (value as u64);
        let transfer_id = self.transfer_history.len() as u64 + 1;
        let token_name = String::from_str("SubDAO");
        self.transfer_history.push(
            Transfer {
                transfer_direction: 1,
                token_name: token_name.clone(),
                transfer_id,
                from_address,
                to_address,
                value: value2,
                transfer_time: now,
            },
        );
        self.events.push(
            VaultEvent::WithdrawToken(
                WithdrawTokenEvent { token_name, to_address, value: value2 },
            ),
        );
        true
    }

    /// One page of the ledger, newest record first.
    pub fn get_transfer_history(&self, page: u64, size: u64) -> (r: PageResult<Transfer>)
        requires
            self.wf(),
            valid_page_params(page, size),
        ensures
            ({
                let total = self.transfer_history@.len();
                let start = spec_start(page, size);
                &&& page_meta(r, total as u64, page, size)
                &&& forall|j: int|
                    0 <= j < r.data@.len() ==> r.data@[j] == self.transfer_history@[total - 1 - (
                    start + j)]
            }),
    {
        let total = self.transfer_history.len() as u64;
        let (start, end, pages) = cal_pages(page, size, total);
        let mut data: Vec<Transfer> = Vec::new();
        if start < end {
            let mut i: u64 = start;
            while i < end
                invariant
                    total == self.transfer_history@.len(),
                    self.transfer_history@.len() <= usize::MAX,
                    end <= total,
                    start <= i <= end,
                    data@.len() == i - start,
                    forall|j: int|
                        0 <= j < data@.len() ==> data@[j] == self.transfer_history@[total - 1 - (
                        start + j)],
                decreases end - i,
            {
                let idx = (total - 1 - i) as usize;
                let t = &self.transfer_history[idx];
                data.push(
                    Transfer {
                        transfer_id: t.transfer_id,
                        transfer_direction: t.transfer_direction,
                        token_name: t.token_name.clone(),
                        from_address: t.from_address,
                        to_address: t.to_address,
                        value: t.value,
                        transfer_time: t.transfer_time,
                    },
                );
                i += 1;
            }
        }
        PageResult {
            success: true,
            err: String::from_str("success"),
            total,
            pages,
            page,
            size,
            data,
        }
    }
}

/// Law: ledger identifiers strictly increase along the ledger — the history
/// is append-only and never renumbered.
pub proof fn lemma_ledger_ids_strictly_increase(v: VaultManager)
    requires
        v.wf(),
    ensures
        forall|i: int, j: int|
            0 <= i < j < v.transfer_history@.len() ==> (
            #[trigger] v.transfer_history@[i]).transfer_id < (
            #[trigger] v.transfer_history@[j]).transfer_id,
{
}

/// Law: every visible token is tracked — the withdrawable set is a subset of
/// the permanent registration set.
pub proof fn lemma_visible_subset(v: VaultManager)
    requires
        v.wf(),
    ensures
        forall|k: AccountId|
            #[trigger] v.visible_tokens@.contains_key(k) ==> v.tokens@.contains_key(k),
{
}

} // verus!
