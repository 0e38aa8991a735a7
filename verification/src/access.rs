//! Who may do what: one owner, fixed when the ledger is made, and a roster of
//! admins that only the owner changes.

use vstd::prelude::*;
use crate::error::ContractError;
use crate::lookup::{lemma_position_absent, lemma_position_found, lemma_unique_by_first_positions, position_of};
use crate::player::id_views;
use crate::text::same_text;

verus! {

/// The owner and the admin roster.
#[derive(Debug)]
pub struct AccessControl {
    owner_id: String,
    admins: Vec<String>,
}

/// An [`AccessControl`] as a mathematical value.
pub struct AccessView {
    pub owner_id: Seq<char>,
    pub admins: Seq<Seq<char>>,
}

impl AccessView {
    /// Whether `caller` is the owner.
    pub open spec fn is_owner(self, caller: Seq<char>) -> bool {
        caller == self.owner_id
    }

    /// Whether `caller` holds admin rights: the owner does, and so does
    /// everyone on the roster.
    pub open spec fn is_admin(self, caller: Seq<char>) -> bool {
        caller == self.owner_id || self.admins.contains(caller)
    }

    /// Why `caller` may not add `admin_id` to the roster, if so.
    pub open spec fn add_refusal(self, caller: Seq<char>, admin_id: Seq<char>) -> Option<
        ContractError,
    > {
        if !self.is_owner(caller) {
            Some(ContractError::NotOwner)
        } else if self.admins.contains(admin_id) {
            Some(ContractError::AlreadyAdmin)
        } else {
            None
        }
    }

    /// Why `caller` may not take `admin_id` off the roster, if so.
    pub open spec fn remove_refusal(self, caller: Seq<char>, admin_id: Seq<char>) -> Option<
        ContractError,
    > {
        if !self.is_owner(caller) {
            Some(ContractError::NotOwner)
        } else if !self.admins.contains(admin_id) {
            Some(ContractError::NotAnAdmin)
        } else {
            None
        }
    }

    /// The roster after `admin_id` was added at its end.
    pub open spec fn with_admin(self, admin_id: Seq<char>) -> AccessView {
        AccessView { owner_id: self.owner_id, admins: self.admins.push(admin_id) }
    }

    /// The roster after `admin_id` was taken off: the last admin moves to the
    /// place that became free.
    pub open spec fn without_admin(self, admin_id: Seq<char>) -> AccessView {
        let i = position_of(self.admins, admin_id).unwrap();
        AccessView {
            owner_id: self.owner_id,
            admins: self.admins.update(i, self.admins.last()).drop_last(),
        }
    }
}

impl View for AccessControl {
    type V = AccessView;

    closed spec fn view(&self) -> AccessView {
        AccessView { owner_id: self.owner_id@, admins: id_views(self.admins@) }
    }
}

/// Finds `account` in a list of accounts.
pub fn find_account(accounts: &Vec<String>, account: &str) -> (found: Option<usize>)
    ensures
        found matches Some(i) ==> position_of(id_views(accounts@), account@) == Some(i as int),
        found is None ==> position_of(id_views(accounts@), account@) is None,
{
    let ghost ids = id_views(accounts@);
    let n: usize = accounts.len();
    let mut i: usize = 0;
    while i < n
        invariant
            n == accounts@.len(),
            ids == id_views(accounts@),
            i <= n,
            forall|j: int| 0 <= j < i ==> #[trigger] ids[j] != account@,
        decreases n - i,
    {
        if same_text(accounts[i].as_str(), account) {
            proof {
                assert(ids[i as int] == accounts@[i as int]@);
                lemma_position_found(ids, account@, i as int);
            }
            return Some(i);
        }
        proof {
            assert(ids[i as int] == accounts@[i as int]@);
        }
        i = i + 1;
    }
    proof {
        lemma_position_absent(ids, account@);
    }
    None
}

/// Whether no account is listed twice.
pub fn has_no_duplicates(accounts: &Vec<String>) -> (unique: bool)
    ensures
        unique == id_views(accounts@).no_duplicates(),
{
    let ghost ids = id_views(accounts@);
    let n: usize = accounts.len();
    let mut i: usize = 0;
    proof {
        lemma_unique_by_first_positions(ids);
    }
    while i < n
        invariant
            n == accounts@.len(),
            ids == id_views(accounts@),
            i <= n,
            forall|j: int| 0 <= j < i ==> position_of(ids, #[trigger] ids[j]) == Some(j),
        decreases n - i,
    {
        proof {
            assert(ids[i as int] == accounts@[i as int]@);
        }
        match find_account(accounts, accounts[i].as_str()) {
            Some(first) => {
                if first != i {
                    proof {
                        lemma_unique_by_first_positions(ids);
                    }
                    return false;
                }
            },
            None => {
                proof {
                    lemma_unique_by_first_positions(ids);
                }
                return false;
            },
        }
        i = i + 1;
    }
    proof {
        lemma_unique_by_first_positions(ids);
    }
    true
}

impl AccessControl {
    #[verifier::type_invariant]
    spec fn roster_has_no_duplicates(self) -> bool {
        id_views(self.admins@).no_duplicates()
    }

    /// Access control with the given owner and an empty roster.
    pub fn new(owner_id: String) -> (access: AccessControl)
        ensures
            access@.owner_id == owner_id@,
            access@.admins == Seq::<Seq<char>>::empty(),
    {
        let admins: Vec<String> = Vec::new();
        assert(id_views(admins@) =~= Seq::<Seq<char>>::empty());
        AccessControl { owner_id, admins }
    }

    /// Access control with the given owner and roster, unless the roster
    /// lists an account twice.
    pub fn from_parts(owner_id: String, admins: Vec<String>) -> (result: Option<AccessControl>)
        ensures
            result is Some <==> id_views(admins@).no_duplicates(),
            result matches Some(access) ==> access@.owner_id == owner_id@ && access@.admins
                == id_views(admins@),
    {
        if has_no_duplicates(&admins) {
            Some(AccessControl { owner_id, admins })
        } else {
            None
        }
    }

    /// The owner.
    pub fn owner_id(&self) -> (owner: &String)
        ensures
            owner@ == self@.owner_id,
    {
        &self.owner_id
    }

    /// The roster, in its stored order. It never lists an account twice.
    pub fn admins(&self) -> (admins: &Vec<String>)
        ensures
            id_views(admins@) == self@.admins,
            self@.admins.no_duplicates(),
    {
        proof {
            use_type_invariant(self);
        }
        &self.admins
    }

    /// Whether `caller` is the owner.
    pub fn is_owner(&self, caller: &str) -> (yes: bool)
        ensures
            yes == self@.is_owner(caller@),
    {
        same_text(caller, self.owner_id.as_str())
    }

    /// Whether `caller` is the owner or on the roster.
    pub fn is_admin(&self, caller: &str) -> (yes: bool)
        ensures
            yes == self@.is_admin(caller@),
    {
        if same_text(caller, self.owner_id.as_str()) {
            return true;
        }
        let found = find_account(&self.admins, caller);
        proof {
            crate::lookup::lemma_position_of(id_views(self.admins@), caller@);
        }
        found.is_some()
    }

    /// Lets the owner pass and refuses everyone else.
    pub fn assert_owner(&self, caller: &str) -> (result: Result<(), ContractError>)
        ensures
            result is Ok <==> self@.is_owner(caller@),
            result matches Err(e) ==> e == ContractError::NotOwner,
    {
        if self.is_owner(caller) {
            Ok(())
        } else {
            Err(ContractError::NotOwner)
        }
    }

    /// Lets the owner and the admins pass and refuses everyone else.
    pub fn assert_admin(&self, caller: &str) -> (result: Result<(), ContractError>)
        ensures
            result is Ok <==> self@.is_admin(caller@),
            result matches Err(e) ==> e == ContractError::NotAdmin,
    {
        if self.is_admin(caller) {
            Ok(())
        } else {
            Err(ContractError::NotAdmin)
        }
    }

    /// Puts `admin_id` on the roster. Only the owner may do so, and an
    /// account is listed once only.
    pub fn add_admin(&mut self, caller: &str, admin_id: String) -> (result: Result<
        (),
        ContractError,
    >)
        ensures
            match result {
                Ok(()) => {
                    &&& old(self)@.add_refusal(caller@, admin_id@) is None
                    &&& final(self)@ == old(self)@.with_admin(admin_id@)
                },
                Err(e) => {
                    &&& old(self)@.add_refusal(caller@, admin_id@) == Some(e)
                    &&& final(self)@ == old(self)@
                },
            },
    {
        proof {
            use_type_invariant(&*self);
        }
        if !self.is_owner(caller) {
            return Err(ContractError::NotOwner);
        }
        let found = find_account(&self.admins, admin_id.as_str());
        proof {
            crate::lookup::lemma_position_of(id_views(self.admins@), admin_id@);
        }
        if found.is_some() {
            return Err(ContractError::AlreadyAdmin);
        }
        let mut admins: Vec<String> = Vec::new();
        core::mem::swap(&mut self.admins, &mut admins);
        proof {
            assert(id_views(Seq::<String>::empty()) =~= Seq::<Seq<char>>::empty());
            crate::lookup::lemma_push_keeps_unique(id_views(admins@), admin_id@);
            assert(id_views(admins@.push(admin_id)) =~= id_views(admins@).push(admin_id@));
        }
        admins.push(admin_id);
        self.admins = admins;
        Ok(())
    }

    /// Takes `admin_id` off the roster. Only the owner may do so, and only an
    /// account that is listed can be taken off.
    pub fn remove_admin(&mut self, caller: &str, admin_id: &str) -> (result: Result<
        (),
        ContractError,
    >)
        ensures
            match result {
                Ok(()) => {
                    &&& old(self)@.remove_refusal(caller@, admin_id@) is None
                    &&& final(self)@ == old(self)@.without_admin(admin_id@)
                },
                Err(e) => {
                    &&& old(self)@.remove_refusal(caller@, admin_id@) == Some(e)
                    &&& final(self)@ == old(self)@
                },
            },
    {
        proof {
            use_type_invariant(&*self);
        }
        if !self.is_owner(caller) {
            return Err(ContractError::NotOwner);
        }
        let found = find_account(&self.admins, admin_id);
        proof {
            crate::lookup::lemma_position_of(id_views(self.admins@), admin_id@);
        }
        match found {
            None => Err(ContractError::NotAnAdmin),
            Some(index) => {
                let mut admins: Vec<String> = Vec::new();
                core::mem::swap(&mut self.admins, &mut admins);
                let ghost before = id_views(admins@);
                proof {
                    assert(id_views(Seq::<String>::empty()) =~= Seq::<Seq<char>>::empty());
                }
                let _ = admins.swap_remove(index);
                proof {
                    let after = before.update(index as int, before.last()).drop_last();
                    assert(id_views(admins@) =~= after);
                    assert forall|i: int, j: int|
                        0 <= i < after.len() && 0 <= j < after.len() && i != j implies after[i]
                        != after[j] by {
                        let a = if i == index { before.len() - 1 } else { i };
                        let b = if j == index { before.len() - 1 } else { j };
                        assert(after[i] == before[a] && after[j] == before[b]);
                    }
                }
                self.admins = admins;
                Ok(())
            },
        }
    }
}

/// Once an account is taken off the roster it holds no admin rights any
/// more, unless it is the owner; everyone else keeps what they had.
pub proof fn lemma_removed_admin_loses_rights(
    access: AccessView,
    admin_id: Seq<char>,
    other: Seq<char>,
)
    requires
        access.admins.no_duplicates(),
        access.admins.contains(admin_id),
        other != admin_id,
    ensures
        !access.without_admin(admin_id).admins.contains(admin_id),
        access.without_admin(admin_id).is_admin(other) == access.is_admin(other),
        access.without_admin(admin_id).admins.len() + 1 == access.admins.len(),
{
    crate::lookup::lemma_position_of(access.admins, admin_id);
    let i = position_of(access.admins, admin_id).unwrap();
    let before = access.admins;
    let after = access.without_admin(admin_id).admins;
    let last = before.len() - 1;
    if after.contains(admin_id) {
        let j = choose|j: int| 0 <= j < after.len() && after[j] == admin_id;
        let src = if j == i { last } else { j };
        assert(after[j] == before[src]);
        assert(before[src] == before[i]);
    }
    if before.contains(other) {
        let j = choose|j: int| 0 <= j < before.len() && before[j] == other;
        if j == last {
            assert(after[i] == other);
        } else {
            assert(after[j] == other);
        }
    }
    if after.contains(other) {
        let j = choose|j: int| 0 <= j < after.len() && after[j] == other;
        let src = if j == i { last } else { j };
        assert(before[src] == other);
    }
}

/// An added admin holds admin rights at once, and nobody loses any.
pub proof fn lemma_added_admin_has_rights(access: AccessView, admin_id: Seq<char>, other: Seq<char>)
    ensures
        access.with_admin(admin_id).is_admin(admin_id),
        access.is_admin(other) ==> access.with_admin(admin_id).is_admin(other),
{
    let after = access.with_admin(admin_id).admins;
    assert(after[after.len() - 1] == admin_id);
    if access.admins.contains(other) {
        let j = choose|j: int| 0 <= j < access.admins.len() && access.admins[j] == other;
        assert(after[j] == other);
    }
}

} // verus!
