//! Accounts: one per person, each holding one wallet per wallet type.
use vstd::prelude::*;
use vstd::string::StringExecFns;
use crate::clock::now_millis;
use crate::text::{
    all_ascii, ascii_lower_all, decimal_digits, is_code_char, lemma_code_text_lower, lowercase_text, prefixed_number,
    str_eq, to_lowercase, zero_padded,
};
use super::person::Person;
use super::wallet::{Wallet, WalletStatus, WalletType};

verus! {

/// The state of an account.
#[derive(Debug, Clone, Copy, PartialEq, Eq, Structural)]
pub enum AccountStatus {
    /// In normal use
    Active,
    /// Frozen (suspected fraud or a breach of the rules)
    Frozen,
    /// Closed
    Closed,
}

/// The code of an account status.
pub open spec fn account_status_text(s: AccountStatus) -> Seq<char> {
    match s {
        AccountStatus::Active => "active"@,
        AccountStatus::Frozen => "frozen"@,
        AccountStatus::Closed => "closed"@,
    }
}

/// The account status that a lower-cased code names.
pub open spec fn account_status_of(w: Seq<char>) -> Option<AccountStatus> {
    if w == "active"@ {
        Some(AccountStatus::Active)
    } else if w == "frozen"@ {
        Some(AccountStatus::Frozen)
    } else if w == "closed"@ {
        Some(AccountStatus::Closed)
    } else {
        None
    }
}

impl AccountStatus {
    /// The code string stored in the database.
    pub fn as_str(&self) -> (r: &'static str)
        ensures
            r@ == account_status_text(*self),
    {
        proof {
            reveal_strlit("active");
            reveal_strlit("frozen");
            reveal_strlit("closed");
        }
        match self {
            AccountStatus::Active => "active",
            AccountStatus::Frozen => "frozen",
            AccountStatus::Closed => "closed",
        }
    }

    /// Parses a code, ignoring case.
    pub fn from_str(s: &str) -> (r: Option<AccountStatus>)
        ensures
            r == account_status_of(lowercase_text(s@)),
            all_ascii(s@) ==> r == account_status_of(ascii_lower_all(s@)),
    {
        let lower = to_lowercase(s);
        let w = lower.as_str();
        proof {
            reveal_strlit("active");
            reveal_strlit("frozen");
            reveal_strlit("closed");
        }
        if str_eq(w, "active") {
            Some(AccountStatus::Active)
        } else if str_eq(w, "frozen") {
            Some(AccountStatus::Frozen)
        } else if str_eq(w, "closed") {
            Some(AccountStatus::Closed)
        } else {
            None
        }
    }
}

/// A user's account.
#[derive(Debug)]
pub struct Account {
    /// The identifier (ACC_001, ACC_002, ...)
    pub id: String,
    /// The owner's identifier
    pub person_id: String,
    /// The state
    pub status: AccountStatus,
    /// The wallets, at most one per wallet type
    pub wallets: Vec<Wallet>,
    /// The creation time, in milliseconds since the Unix epoch
    pub created_at: i64,
}

/// The index of the first wallet of a type among the first `n`.
pub open spec fn wallet_index(ws: Seq<Wallet>, t: WalletType, n: int) -> Option<int>
    decreases n,
{
    if n <= 0 {
        None
    } else {
        match wallet_index(ws, t, n - 1) {
            Some(k) => Some(k),
            None => if ws[n - 1].wallet_type == t { Some(n - 1) } else { None },
        }
    }
}

/// The wallet of a type in a list of wallets.
pub open spec fn wallet_of(ws: Seq<Wallet>, t: WalletType) -> Option<Wallet> {
    match wallet_index(ws, t, ws.len() as int) {
        Some(k) => Some(ws[k]),
        None => None,
    }
}

proof fn lemma_wallet_index(ws: Seq<Wallet>, t: WalletType, n: int)
    requires
        0 <= n <= ws.len(),
    ensures
        match wallet_index(ws, t, n) {
            Some(k) => 0 <= k < n && ws[k].wallet_type == t
                && forall|j: int| 0 <= j < k ==> ws[j].wallet_type != t,
            None => forall|j: int| 0 <= j < n ==> ws[j].wallet_type != t,
        },
    decreases n,
{
    if n > 0 {
        lemma_wallet_index(ws, t, n - 1);
    }
}

proof fn lemma_wallet_index_first(ws: Seq<Wallet>, t: WalletType, k: int, n: int)
    requires
        0 <= k < n <= ws.len(),
        ws[k].wallet_type == t,
        forall|j: int| 0 <= j < k ==> ws[j].wallet_type != t,
    ensures
        wallet_index(ws, t, n) == Some(k),
    decreases n,
{
    if n > k + 1 {
        lemma_wallet_index_first(ws, t, k, n - 1);
    } else {
        lemma_wallet_index(ws, t, k);
    }
}

/// Finds the index of the wallet of a type.
fn find_wallet(ws: &Vec<Wallet>, t: WalletType) -> (r: Option<usize>)
    ensures
        match r {
            Some(k) => k < ws@.len() && wallet_index(ws@, t, ws@.len() as int) == Some(k as int),
            None => wallet_index(ws@, t, ws@.len() as int) is None,
        },
{
    let n = ws.len();
    let mut i: usize = 0;
    while i < n
        invariant
            n == ws@.len(),
            i <= n,
            forall|j: int| 0 <= j < i ==> ws@[j].wallet_type != t,
        decreases n - i,
    {
        if ws[i].wallet_type == t {
            proof { lemma_wallet_index_first(ws@, t, i as int, n as int); }
            return Some(i);
        }
        i = i + 1;
    }
    proof { lemma_wallet_index(ws@, t, n as int); }
    None
}

/// The text of a wallet identifier: `WAL_` and the counter on three digits.
pub open spec fn wallet_id_text(counter: nat) -> Seq<char> {
    "WAL_"@ + zero_padded(counter, 3)
}

/// The text of an account identifier: `ACC_` and the counter on three digits.
pub open spec fn account_id_text(counter: nat) -> Seq<char> {
    "ACC_"@ + zero_padded(counter, 3)
}

impl Account {
    /// The account's invariant: at most one wallet per wallet type.
    pub open spec fn wf(&self) -> bool {
        forall|i: int, j: int| 0 <= i < j < self.wallets@.len()
            ==> self.wallets@[i].wallet_type != self.wallets@[j].wallet_type
    }

    /// The default wallets of a new account: a Spot wallet `WAL_001` and a
    /// Funding wallet `WAL_002`, both active, empty and owned by the account.
    pub open spec fn has_default_wallets(&self) -> bool {
        &&& self.wallets@.len() == 2
        &&& self.wallets@[0].wallet_type == WalletType::Spot
        &&& self.wallets@[1].wallet_type == WalletType::Funding
        &&& forall|i: int| 0 <= i < 2 ==> {
            &&& #[trigger] self.wallets@[i].id@ == wallet_id_text((i + 1) as nat)
            &&& self.wallets@[i].account_id@ == self.id@
            &&& self.wallets@[i].status == WalletStatus::Active
            &&& self.wallets@[i].balances@.len() == 0
            &&& self.wallets@[i].wf()
        }
    }

    /// A new active account with its default wallets, created now.
    pub fn new(id: String, person_id: String) -> (r: Account)
        ensures
            r.wf(),
            r.id@ == id@,
            r.person_id@ == person_id@,
            r.status == AccountStatus::Active,
            r.has_default_wallets(),
    {
        let mut account = Account {
            id,
            person_id,
            status: AccountStatus::Active,
            wallets: Vec::new(),
            created_at: now_millis(),
        };
        account.create_default_wallets();
        account
    }

    /// The account of a person.
    pub fn from_person(account_id: &str, person: &Person) -> (r: Account)
        ensures
            r.wf(),
            r.id@ == account_id@,
            r.person_id@ == person.id@,
            r.status == AccountStatus::Active,
            r.has_default_wallets(),
    {
        Self::new(account_id.to_string(), person.id.clone())
    }

    /// Adds the wallets of the first phase, Spot then Funding, numbered
    /// from `WAL_001`.
    fn create_default_wallets(&mut self)
        requires
            old(self).wallets@.len() == 0,
        ensures
            final(self).id == old(self).id,
            final(self).person_id == old(self).person_id,
            final(self).status == old(self).status,
            final(self).wf(),
            final(self).has_default_wallets(),
    {
        let types = WalletType::phase1_types();
        let mut counter: u64 = 1;
        let mut i: usize = 0;
        while i < types.len()
            invariant
                types@ == seq![WalletType::Spot, WalletType::Funding],
                i <= 2,
                counter == i + 1,
                self.wallets@.len() == i,
                self.id == old(self).id,
                self.person_id == old(self).person_id,
                self.status == old(self).status,
                forall|j: int| 0 <= j < i ==> {
                    &&& #[trigger] self.wallets@[j].wallet_type == types@[j]
                    &&& self.wallets@[j].id@ == wallet_id_text((j + 1) as nat)
                    &&& self.wallets@[j].account_id@ == self.id@
                    &&& self.wallets@[j].status == WalletStatus::Active
                    &&& self.wallets@[j].balances@.len() == 0
                    &&& self.wallets@[j].wf()
                },
            decreases types.len() - i,
        {
            let wallet_id = prefixed_number("WAL_", counter, 3);
            proof { reveal_strlit("WAL_"); }
            let wallet = Wallet::new(wallet_id, self.id.clone(), types[i]);
            self.wallets.push(wallet);
            counter = counter + 1;
            i = i + 1;
        }
        assert(self.wallets@[0].wallet_type == WalletType::Spot);
        assert(self.wallets@[1].wallet_type == WalletType::Funding);
    }

    /// The wallet of a type.
    pub fn get_wallet(&self, wallet_type: WalletType) -> (r: Option<&Wallet>)
        ensures
            match r {
                Some(w) => wallet_of(self.wallets@, wallet_type) == Some(*w),
                None => wallet_of(self.wallets@, wallet_type) is None,
            },
    {
        match find_wallet(&self.wallets, wallet_type) {
            Some(k) => Some(&self.wallets[k]),
            None => None,
        }
    }

    /// The wallet of a type, to change it.
    pub fn get_wallet_mut(&mut self, wallet_type: WalletType) -> (r: Option<&mut Wallet>)
        ensures
            match wallet_index(old(self).wallets@, wallet_type, old(self).wallets@.len() as int) {
                Some(k) => {
                    &&& r is Some
                    &&& *r->0 == old(self).wallets@[k]
                    &&& final(self).wallets@ == old(self).wallets@.update(k, *final(r->0))
                },
                None => r is None && final(self).wallets@ == old(self).wallets@,
            },
            final(self).id == old(self).id,
            final(self).person_id == old(self).person_id,
            final(self).status == old(self).status,
            final(self).created_at == old(self).created_at,
    {
        match find_wallet(&self.wallets, wallet_type) {
            Some(k) => Some(&mut self.wallets[k]),
            None => None,
        }
    }

    /// The Spot wallet.
    pub fn spot(&self) -> (r: Option<&Wallet>)
        ensures
            match r {
                Some(w) => wallet_of(self.wallets@, WalletType::Spot) == Some(*w),
                None => wallet_of(self.wallets@, WalletType::Spot) is None,
            },
    {
        self.get_wallet(WalletType::Spot)
    }

    /// The Funding wallet.
    pub fn funding(&self) -> (r: Option<&Wallet>)
        ensures
            match r {
                Some(w) => wallet_of(self.wallets@, WalletType::Funding) == Some(*w),
                None => wallet_of(self.wallets@, WalletType::Funding) is None,
            },
    {
        self.get_wallet(WalletType::Funding)
    }

    /// The Spot wallet, to change it.
    pub fn spot_mut(&mut self) -> (r: Option<&mut Wallet>)
        ensures
            match wallet_index(old(self).wallets@, WalletType::Spot, old(self).wallets@.len() as int) {
                Some(k) => {
                    &&& r is Some
                    &&& *r->0 == old(self).wallets@[k]
                    &&& final(self).wallets@ == old(self).wallets@.update(k, *final(r->0))
                },
                None => r is None && final(self).wallets@ == old(self).wallets@,
            },
            final(self).id == old(self).id,
            final(self).person_id == old(self).person_id,
            final(self).status == old(self).status,
            final(self).created_at == old(self).created_at,
    {
        self.get_wallet_mut(WalletType::Spot)
    }

    /// The Funding wallet, to change it.
    pub fn funding_mut(&mut self) -> (r: Option<&mut Wallet>)
        ensures
            match wallet_index(old(self).wallets@, WalletType::Funding, old(self).wallets@.len() as int) {
                Some(k) => {
                    &&& r is Some
                    &&& *r->0 == old(self).wallets@[k]
                    &&& final(self).wallets@ == old(self).wallets@.update(k, *final(r->0))
                },
                None => r is None && final(self).wallets@ == old(self).wallets@,
            },
            final(self).id == old(self).id,
            final(self).person_id == old(self).person_id,
            final(self).status == old(self).status,
            final(self).created_at == old(self).created_at,
    {
        self.get_wallet_mut(WalletType::Funding)
    }

    /// The account in words:
    /// "Account <id> (owner: <person>, status: <status>, wallets: <count>)".
    pub fn display_text(&self) -> (r: String)
        ensures
            r@ == "Account "@ + self.id@ + " (owner: "@ + self.person_id@ + ", status: "@
                + account_status_text(self.status) + ", wallets: "@ + decimal_digits(self.wallets@.len()) + ")"@,
    {
        proof {
            reveal_strlit("Account ");
            reveal_strlit(" (owner: ");
            reveal_strlit(", status: ");
            reveal_strlit(", wallets: ");
            reveal_strlit(")");
        }
        let mut s = crate::text::concat_str("Account ", self.id.as_str());
        s.append(" (owner: ");
        s.append(self.person_id.as_str());
        s.append(", status: ");
        s.append(self.status.as_str());
        s.append(", wallets: ");
        crate::text::push_decimal(&mut s, self.wallets.len() as u64);
        s.append(")");
        s
    }

    /// Whether the account is active.
    pub fn is_active(&self) -> (r: bool)
        ensures
            r == (self.status == AccountStatus::Active),
    {
        match self.status {
            AccountStatus::Active => true,
            _ => false,
        }
    }

    /// Freezes the account.
    pub fn freeze(&mut self)
        ensures
            final(self).status == AccountStatus::Frozen,
            final(self).id == old(self).id,
            final(self).person_id == old(self).person_id,
            final(self).wallets == old(self).wallets,
            final(self).created_at == old(self).created_at,
    {
        self.status = AccountStatus::Frozen;
    }

    /// Activates the account.
    pub fn activate(&mut self)
        ensures
            final(self).status == AccountStatus::Active,
            final(self).id == old(self).id,
            final(self).person_id == old(self).person_id,
            final(self).wallets == old(self).wallets,
            final(self).created_at == old(self).created_at,
    {
        self.status = AccountStatus::Active;
    }

    /// Closes the account.
    pub fn close(&mut self)
        ensures
            final(self).status == AccountStatus::Closed,
            final(self).id == old(self).id,
            final(self).person_id == old(self).person_id,
            final(self).wallets == old(self).wallets,
            final(self).created_at == old(self).created_at,
    {
        self.status = AccountStatus::Closed;
    }

    /// The identifier of the account numbered `counter`: `ACC_` and at least
    /// three digits.
    pub fn generate_id(counter: u32) -> (r: String)
        ensures
            r@ == account_id_text(counter as nat),
    {
        proof { reveal_strlit("ACC_"); }
        prefixed_number("ACC_", counter as u64, 3)
    }
}


/// The code of every account status reads back as that status.
pub proof fn lemma_status_code_round_trip(t: AccountStatus)
    ensures
        all_ascii(account_status_text(t)),
        account_status_of(ascii_lower_all(account_status_text(t))) == Some(t),
{
    reveal_strlit("active");
    reveal_strlit("frozen");
    reveal_strlit("closed");
    let c = account_status_text(t);
    assert(forall|i: int| 0 <= i < c.len() ==> is_code_char(#[trigger] c[i]));
    assert(account_status_text(AccountStatus::Active)[0] != account_status_text(AccountStatus::Frozen)[0]);
    assert(account_status_text(AccountStatus::Active)[0] != account_status_text(AccountStatus::Closed)[0]);
    assert(account_status_text(AccountStatus::Frozen)[0] != account_status_text(AccountStatus::Closed)[0]);
    lemma_code_text_lower(c);
}

} // verus!
