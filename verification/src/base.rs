//! The profile component: an organization's display name, logo and
//! description, plus the account that created it.
//!
//! The creator is written at initialization and can only be rewritten by
//! itself (or while still unset, the all-zero account standing for "unset").

use crate::account::{AccountId, ZERO_ACCOUNT};
use vstd::prelude::*;

verus! {

/// The profile, as handed out to queries.
pub struct DisplayBase {
    pub creator: AccountId,
    pub name: String,
    pub logo: String,
    pub desc: String,
}

/// The profile component.
pub struct Base {
    pub creator: AccountId,
    pub name: String,
    pub logo: String,
    pub desc: String,
}

impl Base {
    pub fn new() -> (r: Self)
        ensures
            r.creator == ZERO_ACCOUNT,
            r.name@ == ""@,
            r.logo@ == ""@,
            r.desc@ == ""@,
    {
        proof {
            reveal_strlit("");
        }
        Base {
            name: String::new(),
            logo: String::new(),
            desc: String::new(),
            creator: ZERO_ACCOUNT,
        }
    }

    pub fn default() -> (r: Self)
        ensures
            r.creator == ZERO_ACCOUNT,
            r.name@ == ""@,
            r.logo@ == ""@,
            r.desc@ == ""@,
    {
        Self::new()
    }

    /// Sets the three display fields and records `caller` as the creator
    /// (where the creator rule allows it).
    pub fn init_base(&mut self, caller: AccountId, name: String, logo: String, desc: String)
        ensures
            final(self).name == name,
            final(self).logo == logo,
            final(self).desc == desc,
            final(self).creator == (if old(self).creator == ZERO_ACCOUNT || caller == old(
                self,
            ).creator {
                caller
            } else {
                old(self).creator
            }),
    {
        self.set_name(name);
        self.set_logo(logo);
        self.set_desc(desc);
        self._set_creator(caller, caller);
    }

    pub fn set_name(&mut self, name: String)
        ensures
            *final(self) == (Base { name, ..*old(self) }),
    {
        self.name = name;
    }

    pub fn get_name(&self) -> (r: String)
        ensures
            r == self.name,
    {
        self.name.clone()
    }

    pub fn set_logo(&mut self, logo: String)
        ensures
            *final(self) == (Base { logo, ..*old(self) }),
    {
        self.logo = logo;
    }

    pub fn get_logo(&self) -> (r: String)
        ensures
            r == self.logo,
    {
        self.logo.clone()
    }

    pub fn set_desc(&mut self, desc: String)
        ensures
            *final(self) == (Base { desc, ..*old(self) }),
    {
        self.desc = desc;
    }

    pub fn get_desc(&self) -> (r: String)
        ensures
            r == self.desc,
    {
        self.desc.clone()
    }

    /// Records `creator`, but only for the first writer or the current
    /// creator itself: set while unset, or rewritten by the creator.
    pub fn _set_creator(&mut self, caller: AccountId, creator: AccountId)
        ensures
            final(self).creator == (if old(self).creator == ZERO_ACCOUNT || caller == old(
                self,
            ).creator {
                creator
            } else {
                old(self).creator
            }),
            final(self).name == old(self).name,
            final(self).logo == old(self).logo,
            final(self).desc == old(self).desc,
    {
        if self.creator == ZERO_ACCOUNT || caller == self.creator {
            self.creator = creator;
        }
    }

    pub fn get_creator(&self) -> (r: AccountId)
        ensures
            r == self.creator,
    {
        self.creator
    }

    pub fn get_base(&self) -> (r: DisplayBase)
        ensures
            r.creator == self.creator,
            r.name == self.name,
            r.logo == self.logo,
            r.desc == self.desc,
    {
        DisplayBase {
            creator: self.creator,
            name: self.name.clone(),
            logo: self.logo.clone(),
            desc: self.desc.clone(),
        }
    }
}

} // verus!
