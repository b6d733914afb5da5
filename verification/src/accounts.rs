//! Account registration, lookup, update and removal on an account list.

use crate::error::{ErrorView, GitcoreError, err_view};
use crate::models::{
    Account, GitcoreConfig, Platform, accounts_valid, alias_taken, is_valid_account_name, key_taken,
    lemma_validation_ok_iff_valid, name_taken, valid_account_name, validate_accounts, validation,
};
use crate::text::{
    concat2, concat3, eq_ignore_ascii_case, eq_ignore_case, is_blank, is_prefix, same_text,
    str_starts_with, trim,
};
use vstd::prelude::*;
use vstd::string::*;

verus! {

/// Input required to register a new account.
#[derive(Debug, Clone)]
pub struct AddAccountRequest {
    /// Human-facing account name such as `work` or `personal`.
    pub name: String,
    /// Git hosting platform this identity belongs to.
    pub platform: Platform,
    /// Git author name to write into repository config.
    pub username: String,
    /// Email address used for commits and SSH key comments.
    pub email: String,
    /// Optional GPG signing key id to attach to cloned or switched repositories.
    pub gpg_key_id: Option<String>,
    /// Optional custom filename for the SSH key. Defaults to `id_ed25519_{name}`.
    pub key_path: Option<String>,
}

impl Default for AddAccountRequest {
    fn default() -> (r: AddAccountRequest)
        ensures
            r.name@.len() == 0,
            r.platform == Platform::Github,
            r.username@.len() == 0,
            r.email@.len() == 0,
            r.gpg_key_id is None,
            r.key_path is None,
    {
        AddAccountRequest {
            name: String::new(),
            platform: Platform::Github,
            username: String::new(),
            email: String::new(),
            gpg_key_id: None,
            key_path: None,
        }
    }
}

/// Input required to update an existing account; `None` keeps the current value.
#[derive(Debug, Clone)]
pub struct UpdateAccountRequest {
    /// New author name.
    pub username: Option<String>,
    /// New email address.
    pub email: Option<String>,
    /// New GPG signing key ID (`Some(None)` clears it).
    pub gpg_key_id: Option<Option<String>>,
}

impl Default for UpdateAccountRequest {
    fn default() -> (r: UpdateAccountRequest)
        ensures
            r.username is None,
            r.email is None,
            r.gpg_key_id is None,
    {
        UpdateAccountRequest { username: None, email: None, gpg_key_id: None }
    }
}

impl UpdateAccountRequest {
    /// The update that a prompt's answers ask for: a blank username or email keeps the
    /// current value; the GPG choice is passed on as given (`Some(None)` clears the key).
    pub fn from_answers(username: String, email: String, gpg_key_id: Option<Option<String>>) -> (r:
        UpdateAccountRequest)
        ensures
            r.username == (if username@.len() == 0 {
                None
            } else {
                Some(username)
            }),
            r.email == (if email@.len() == 0 {
                None
            } else {
                Some(email)
            }),
            r.gpg_key_id == gpg_key_id,
    {
        let username = if username.as_str().unicode_len() == 0 {
            None
        } else {
            Some(username)
        };
        let email = if email.as_str().unicode_len() == 0 {
            None
        } else {
            Some(email)
        };
        UpdateAccountRequest { username, email, gpg_key_id }
    }
}

/// Normalized account details produced during registration.
#[derive(Debug, Clone)]
pub struct RegisteredAccount {
    /// The persisted account record.
    pub account: Account,
    /// Generated host alias inserted into the managed SSH config block.
    pub host_alias: String,
}

/// `i` is the first account that `p` accepts.
pub open spec fn is_first_where(accounts: Seq<Account>, p: spec_fn(Account) -> bool, i: int) -> bool {
    0 <= i < accounts.len() && p(accounts[i]) && forall|j: int|
        0 <= j < i ==> !p(#[trigger] accounts[j])
}

/// The index of the first account that `p` accepts, if any.
pub open spec fn first_where(accounts: Seq<Account>, p: spec_fn(Account) -> bool) -> Option<int> {
    if exists|i: int| is_first_where(accounts, p, i) {
        Some(choose|i: int| is_first_where(accounts, p, i))
    } else {
        None
    }
}

/// The outcome of a lookup: the first account that `p` accepts, or `AccountNotFound(key)`.
pub open spec fn lookup(accounts: Seq<Account>, p: spec_fn(Account) -> bool, key: Seq<char>) -> Result<
    Account,
    ErrorView,
> {
    match first_where(accounts, p) {
        Some(i) => Ok(accounts[i]),
        None => Err(ErrorView::AccountNotFound(key)),
    }
}

pub proof fn lemma_first_where(accounts: Seq<Account>, p: spec_fn(Account) -> bool, i: int)
    requires
        is_first_where(accounts, p, i),
    ensures
        first_where(accounts, p) == Some(i),
{
    let k = choose|k: int| is_first_where(accounts, p, k);
    assert(is_first_where(accounts, p, k));
    if k < i {
        assert(!p(accounts[k]));
    } else if i < k {
        assert(!p(accounts[i]));
    }
}

pub proof fn lemma_first_where_none(accounts: Seq<Account>, p: spec_fn(Account) -> bool)
    requires
        forall|i: int| 0 <= i < accounts.len() ==> !p(#[trigger] accounts[i]),
    ensures
        first_where(accounts, p) is None,
{
}

/// The outcome of removing the first account named `name`: it must exist, and the
/// remaining list must be valid.
pub open spec fn remove_outcome(accounts: Seq<Account>, name: Seq<char>) -> Result<
    Account,
    ErrorView,
> {
    match first_where(accounts, has_name(name)) {
        None => Err(ErrorView::AccountNotFound(name)),
        Some(i) => match validation(accounts.remove(i)) {
            Ok(()) => Ok(accounts[i]),
            Err(m) => Err(ErrorView::InvalidConfig(m)),
        },
    }
}

/// The account list after removing the first account named `name`, when that succeeds.
pub open spec fn after_remove(accounts: Seq<Account>, name: Seq<char>) -> Seq<Account> {
    match remove_outcome(accounts, name) {
        Ok(_) => accounts.remove(first_where(accounts, has_name(name))->0),
        Err(_) => accounts,
    }
}

/// The account list with the first account named `name` updated by `req`.
pub open spec fn with_update(accounts: Seq<Account>, name: Seq<char>, req: UpdateAccountRequest) -> Seq<
    Account,
> {
    match first_where(accounts, has_name(name)) {
        None => accounts,
        Some(i) => accounts.update(i, updated(accounts[i], req)),
    }
}

/// The outcome of updating the first account named `name`: it must exist, and the
/// updated list must be valid.
pub open spec fn update_outcome(
    accounts: Seq<Account>,
    name: Seq<char>,
    req: UpdateAccountRequest,
) -> Result<Account, ErrorView> {
    match first_where(accounts, has_name(name)) {
        None => Err(ErrorView::AccountNotFound(name)),
        Some(i) => match validation(with_update(accounts, name, req)) {
            Ok(()) => Ok(updated(accounts[i], req)),
            Err(m) => Err(ErrorView::InvalidConfig(m)),
        },
    }
}

/// An account is selected by its exact name or by a prefix of its host alias.
pub open spec fn selected_by(sel: Seq<char>) -> spec_fn(Account) -> bool {
    |a: Account| a.name@ == sel || is_prefix(sel, a.host_alias@)
}

/// An account has exactly this host alias.
pub open spec fn has_alias(alias: Seq<char>) -> spec_fn(Account) -> bool {
    |a: Account| a.host_alias@ == alias
}

/// An account has exactly this name.
pub open spec fn has_name(name: Seq<char>) -> spec_fn(Account) -> bool {
    |a: Account| a.name@ == name
}

/// A remote URL goes through an account's host alias: it starts with `{alias}:`
/// or `git@{alias}:`.
pub open spec fn uses_remote(remote: Seq<char>) -> spec_fn(Account) -> bool {
    |a: Account|
        is_prefix(a.host_alias@.push(':'), remote) || is_prefix(
            "git@"@ + a.host_alias@.push(':'),
            remote,
        )
}

/// The host-alias prefix of a platform: the first label of its domain.
pub open spec fn alias_prefix(p: Platform) -> Seq<char> {
    match p {
        Platform::Github => "github"@,
        Platform::Gitlab => "gitlab"@,
        Platform::Codeberg => "codeberg"@,
        Platform::Bitbucket => "bitbucket"@,
    }
}

/// The host alias of a new account: `{platform label}-{name}`.
pub open spec fn spec_host_alias(p: Platform, name: Seq<char>) -> Seq<char> {
    alias_prefix(p) + "-"@ + name
}

/// The default SSH key filename of an account: `id_ed25519_{name}`.
pub open spec fn spec_default_key_path(name: Seq<char>) -> Seq<char> {
    "id_ed25519_"@ + name
}

/// The outcome of adding an account with these fields after the accounts `accounts`:
/// the account's own fields first, then uniqueness of name, host alias and key file
/// ignoring ASCII case, then the validity of the list it joins.
pub open spec fn add_outcome(
    accounts: Seq<Account>,
    name: Seq<char>,
    username: Seq<char>,
    email: Seq<char>,
    alias: Seq<char>,
    key_path: Seq<char>,
) -> Result<(), ErrorView> {
    if !valid_account_name(name) {
        Err(ErrorView::InvalidAccountName(name))
    } else if trim(username).len() == 0 {
        Err(ErrorView::EmptyUsername)
    } else if trim(email).len() == 0 {
        Err(ErrorView::EmptyEmail)
    } else if name_taken(accounts, name) {
        Err(ErrorView::DuplicateAccountName(name))
    } else if alias_taken(accounts, alias) {
        Err(ErrorView::DuplicateHostAlias(alias))
    } else if key_taken(accounts, key_path) {
        Err(ErrorView::DuplicateKeyPath(key_path))
    } else {
        match validation(accounts) {
            Err(m) => Err(ErrorView::InvalidConfig(m)),
            Ok(()) => Ok(()),
        }
    }
}

/// `a` with the fields that `req` sets replaced.
pub open spec fn updated(a: Account, req: UpdateAccountRequest) -> Account {
    Account {
        username: match req.username {
            Some(u) => u,
            None => a.username,
        },
        email: match req.email {
            Some(e) => e,
            None => a.email,
        },
        gpg_key_id: match req.gpg_key_id {
            Some(g) => g,
            None => a.gpg_key_id,
        },
        ..a
    }
}

/// The SSH host alias for an account named `name` on `platform`.
pub fn host_alias_for(platform: Platform, name: &str) -> (r: String)
    ensures
        r@ == spec_host_alias(platform, name@),
{
    let prefix = match platform {
        Platform::Github => "github",
        Platform::Gitlab => "gitlab",
        Platform::Codeberg => "codeberg",
        Platform::Bitbucket => "bitbucket",
    };
    concat3(prefix, "-", name)
}

/// The default SSH key filename for an account named `name`.
pub fn default_key_path(name: &str) -> (r: String)
    ensures
        r@ == spec_default_key_path(name@),
{
    concat2("id_ed25519_", name)
}

/// The account record that registering `request` creates.
pub open spec fn spec_registered_account(request: AddAccountRequest) -> (Seq<char>, Seq<char>) {
    (
        spec_host_alias(request.platform, request.name@),
        match request.key_path {
            Some(k) => k@,
            None => spec_default_key_path(request.name@),
        },
    )
}

impl GitcoreConfig {
    /// Returns every configured account in persisted order.
    pub fn list_accounts(&self) -> (r: Vec<Account>)
        ensures
            r@ == self.accounts@,
    {
        let mut r: Vec<Account> = Vec::new();
        let mut i: usize = 0;
        while i < self.accounts.len()
            invariant
                i <= self.accounts@.len(),
                r@ == self.accounts@.subrange(0, i as int),
            decreases self.accounts@.len() - i,
        {
            r.push(self.accounts[i].copy());
            i = i + 1;
        }
        assert(self.accounts@.subrange(0, self.accounts@.len() as int) =~= self.accounts@);
        r
    }

    /// Finds an account by exact name or by a host-alias prefix; the first match wins.
    pub fn find_account(&self, selector: &str) -> (r: Result<Account, GitcoreError>)
        ensures
            err_view(r) == lookup(self.accounts@, selected_by(selector@), selector@),
    {
        let mut i: usize = 0;
        while i < self.accounts.len()
            invariant
                i <= self.accounts@.len(),
                forall|j: int| 0 <= j < i ==> !selected_by(selector@)(#[trigger] self.accounts@[j]),
            decreases self.accounts@.len() - i,
        {
            let a = &self.accounts[i];
            if same_text(a.name.as_str(), selector) || str_starts_with(a.host_alias.as_str(), selector) {
                proof {
                    lemma_first_where(self.accounts@, selected_by(selector@), i as int);
                }
                return Ok(a.copy());
            }
            i = i + 1;
        }
        proof {
            lemma_first_where_none(self.accounts@, selected_by(selector@));
        }
        Err(GitcoreError::AccountNotFound(String::from_str(selector)))
    }

    /// Finds an account by its full host alias; the first match wins.
    pub fn find_account_by_host_alias(&self, host_alias: &str) -> (r: Result<Account, GitcoreError>)
        ensures
            err_view(r) == lookup(self.accounts@, has_alias(host_alias@), host_alias@),
    {
        let mut i: usize = 0;
        while i < self.accounts.len()
            invariant
                i <= self.accounts@.len(),
                forall|j: int| 0 <= j < i ==> !has_alias(host_alias@)(#[trigger] self.accounts@[j]),
            decreases self.accounts@.len() - i,
        {
            let a = &self.accounts[i];
            if same_text(a.host_alias.as_str(), host_alias) {
                proof {
                    lemma_first_where(self.accounts@, has_alias(host_alias@), i as int);
                }
                return Ok(a.copy());
            }
            i = i + 1;
        }
        proof {
            lemma_first_where_none(self.accounts@, has_alias(host_alias@));
        }
        Err(GitcoreError::AccountNotFound(String::from_str(host_alias)))
    }

    /// The first account whose host alias the remote URL goes through, if any.
    pub fn account_for_remote(&self, remote_url: &str) -> (r: Option<Account>)
        ensures
            match first_where(self.accounts@, uses_remote(remote_url@)) {
                Some(i) => r == Some(self.accounts@[i]),
                None => r is None,
            },
    {
        let mut i: usize = 0;
        while i < self.accounts.len()
            invariant
                i <= self.accounts@.len(),
                forall|j: int| 0 <= j < i ==> !uses_remote(remote_url@)(#[trigger] self.accounts@[j]),
            decreases self.accounts@.len() - i,
        {
            let a = &self.accounts[i];
            let plain = concat2(a.host_alias.as_str(), ":");
            let scp = concat3("git@", a.host_alias.as_str(), ":");
            assert(plain@ == a.host_alias@.push(':')) by {
                reveal_strlit(":");
                assert(plain@ =~= a.host_alias@.push(':'));
            }
            assert(scp@ == "git@"@ + a.host_alias@.push(':')) by {
                reveal_strlit(":");
                assert(scp@ =~= "git@"@ + a.host_alias@.push(':'));
            }
            if str_starts_with(remote_url, plain.as_str()) || str_starts_with(remote_url, scp.as_str()) {
                proof {
                    lemma_first_where(self.accounts@, uses_remote(remote_url@), i as int);
                }
                return Some(a.copy());
            }
            i = i + 1;
        }
        proof {
            lemma_first_where_none(self.accounts@, uses_remote(remote_url@));
        }
        None
    }

    /// Index of the first account named exactly `name`.
    pub fn position_of(&self, name: &str) -> (r: Option<usize>)
        ensures
            match r {
                Some(i) => first_where(self.accounts@, has_name(name@)) == Some(i as int) && i
                    < self.accounts@.len(),
                None => first_where(self.accounts@, has_name(name@)) is None,
            },
    {
        let mut i: usize = 0;
        while i < self.accounts.len()
            invariant
                i <= self.accounts@.len(),
                forall|j: int| 0 <= j < i ==> !has_name(name@)(#[trigger] self.accounts@[j]),
            decreases self.accounts@.len() - i,
        {
            if same_text(self.accounts[i].name.as_str(), name) {
                proof {
                    lemma_first_where(self.accounts@, has_name(name@), i as int);
                }
                return Some(i);
            }
            i = i + 1;
        }
        proof {
            lemma_first_where_none(self.accounts@, has_name(name@));
        }
        None
    }

    /// Validates and appends an already-constructed account record.
    ///
    /// The account's own fields are checked first, then name, host alias and key file
    /// uniqueness (ignoring ASCII case), then the whole resulting list.
    pub fn add_account(&mut self, account: Account) -> (r: Result<(), GitcoreError>)
        ensures
            err_view(r) == add_outcome(
                old(self).accounts@,
                account.name@,
                account.username@,
                account.email@,
                account.host_alias@,
                account.key_path@,
            ),
            r is Ok ==> final(self).accounts@ == old(self).accounts@.push(account),
            r is Err ==> final(self).accounts@ == old(self).accounts@,
    {
        if !is_valid_account_name(account.name.as_str()) {
            return Err(GitcoreError::InvalidAccountName(account.name));
        }
        if is_blank(account.username.as_str()) {
            return Err(GitcoreError::EmptyUsername);
        }
        if is_blank(account.email.as_str()) {
            return Err(GitcoreError::EmptyEmail);
        }
        let ghost prev = self.accounts@;
        let mut j: usize = 0;
        while j < self.accounts.len()
            invariant
                prev == self.accounts@,
                valid_account_name(account.name@),
                trim(account.username@).len() > 0,
                trim(account.email@).len() > 0,
                j <= prev.len(),
                forall|k: int| 0 <= k < j ==> !eq_ignore_case(#[trigger] prev[k].name@, account.name@),
            decreases prev.len() - j,
        {
            if eq_ignore_ascii_case(self.accounts[j].name.as_str(), account.name.as_str()) {
                assert(eq_ignore_case(prev[j as int].name@, account.name@));
                assert(name_taken(prev, account.name@));
                return Err(GitcoreError::DuplicateAccountName(account.name));
            }
            j = j + 1;
        }
        let mut j: usize = 0;
        while j < self.accounts.len()
            invariant
                prev == self.accounts@,
                valid_account_name(account.name@),
                trim(account.username@).len() > 0,
                trim(account.email@).len() > 0,
                !name_taken(prev, account.name@),
                j <= prev.len(),
                forall|k: int|
                    0 <= k < j ==> !eq_ignore_case(#[trigger] prev[k].host_alias@, account.host_alias@),
            decreases prev.len() - j,
        {
            if eq_ignore_ascii_case(self.accounts[j].host_alias.as_str(), account.host_alias.as_str()) {
                assert(eq_ignore_case(prev[j as int].host_alias@, account.host_alias@));
                assert(alias_taken(prev, account.host_alias@));
                return Err(GitcoreError::DuplicateHostAlias(account.host_alias));
            }
            j = j + 1;
        }
        let mut j: usize = 0;
        while j < self.accounts.len()
            invariant
                prev == self.accounts@,
                valid_account_name(account.name@),
                trim(account.username@).len() > 0,
                trim(account.email@).len() > 0,
                !name_taken(prev, account.name@),
                !alias_taken(prev, account.host_alias@),
                j <= prev.len(),
                forall|k: int|
                    0 <= k < j ==> !eq_ignore_case(#[trigger] prev[k].key_path@, account.key_path@),
            decreases prev.len() - j,
        {
            if eq_ignore_ascii_case(self.accounts[j].key_path.as_str(), account.key_path.as_str()) {
                assert(eq_ignore_case(prev[j as int].key_path@, account.key_path@));
                assert(key_taken(prev, account.key_path@));
                return Err(GitcoreError::DuplicateKeyPath(account.key_path));
            }
            j = j + 1;
        }
        let ghost a = account;
        self.accounts.push(account);
        assert(self.accounts@.drop_last() =~= prev);
        assert(self.accounts@.last() == a);
        match validate_accounts(self.accounts.as_slice()) {
            Ok(()) => Ok(()),
            Err(m) => {
                self.accounts.pop();
                assert(self.accounts@ =~= prev);
                Err(GitcoreError::InvalidConfig(m))
            },
        }
    }

    /// Builds the account that `request` describes and adds it: the host alias is
    /// `{platform label}-{name}`, the key file `request.key_path` or `id_ed25519_{name}`.
    /// A key file that another account already uses, custom or default, is refused.
    pub fn register_account(&mut self, request: AddAccountRequest) -> (r: Result<
        RegisteredAccount,
        GitcoreError,
    >)
        ensures
            match r {
                Ok(reg) => {
                    &&& reg.account.name == request.name
                    &&& reg.account.platform == request.platform
                    &&& reg.account.username == request.username
                    &&& reg.account.email == request.email
                    &&& reg.account.gpg_key_id == request.gpg_key_id
                    &&& reg.account.host_alias@ == spec_registered_account(request).0
                    &&& reg.account.key_path@ == spec_registered_account(request).1
                    &&& reg.host_alias@ == spec_registered_account(request).0
                    &&& final(self).accounts@ == old(self).accounts@.push(reg.account)
                    &&& forall|j: int|
                        0 <= j < old(self).accounts@.len() ==> !eq_ignore_case(
                            #[trigger] old(self).accounts@[j].key_path@,
                            reg.account.key_path@,
                        )
                    &&& add_outcome(
                        old(self).accounts@,
                        request.name@,
                        request.username@,
                        request.email@,
                        spec_registered_account(request).0,
                        spec_registered_account(request).1,
                    ) is Ok
                },
                Err(e) => {
                    &&& final(self).accounts@ == old(self).accounts@
                    &&& add_outcome(
                        old(self).accounts@,
                        request.name@,
                        request.username@,
                        request.email@,
                        spec_registered_account(request).0,
                        spec_registered_account(request).1,
                    ) == Err::<(), ErrorView>(e@)
                },
            },
    {
        let host_alias = host_alias_for(request.platform, request.name.as_str());
        let key_path = match request.key_path {
            Some(k) => k,
            None => default_key_path(request.name.as_str()),
        };
        let account = Account {
            name: request.name,
            platform: request.platform,
            key_path,
            host_alias: host_alias.clone(),
            username: request.username,
            email: request.email,
            gpg_key_id: request.gpg_key_id,
        };
        let kept = account.copy();
        match self.add_account(account) {
            Ok(()) => Ok(RegisteredAccount { account: kept, host_alias }),
            Err(e) => Err(e),
        }
    }

    /// Removes the first account named exactly `account_name` and returns it.
    pub fn remove_account(&mut self, account_name: &str) -> (r: Result<Account, GitcoreError>)
        ensures
            err_view(r) == remove_outcome(old(self).accounts@, account_name@),
            final(self).accounts@ == after_remove(old(self).accounts@, account_name@),
    {
        let ghost prev = self.accounts@;
        match self.position_of(account_name) {
            None => Err(GitcoreError::AccountNotFound(String::from_str(account_name))),
            Some(i) => {
                let removed = self.accounts.remove(i);
                match validate_accounts(self.accounts.as_slice()) {
                    Ok(()) => Ok(removed),
                    Err(m) => {
                        self.accounts.insert(i, removed);
                        assert(self.accounts@ =~= prev);
                        Err(GitcoreError::InvalidConfig(m))
                    },
                }
            },
        }
    }

    /// Updates the metadata of the first account named exactly `account_name`.
    pub fn update_account(&mut self, account_name: &str, request: UpdateAccountRequest) -> (r:
        Result<Account, GitcoreError>)
        ensures
            err_view(r) == update_outcome(old(self).accounts@, account_name@, request),
            r is Ok ==> final(self).accounts@ == with_update(
                old(self).accounts@,
                account_name@,
                request,
            ),
            r is Err ==> final(self).accounts@ == old(self).accounts@,
    {
        let ghost prev = self.accounts@;
        let ghost req = request;
        match self.position_of(account_name) {
            None => Err(GitcoreError::AccountNotFound(String::from_str(account_name))),
            Some(i) => {
                let previous = self.accounts[i].copy();
                let mut account = self.accounts[i].copy();
                if let Some(username) = request.username {
                    account.username = username;
                }
                if let Some(email) = request.email {
                    account.email = email;
                }
                if let Some(gpg_id) = request.gpg_key_id {
                    account.gpg_key_id = gpg_id;
                }
                assert(account == updated(prev[i as int], req));
                let result = account.copy();
                self.accounts.set(i, account);
                assert(self.accounts@ == with_update(prev, account_name@, req));
                match validate_accounts(self.accounts.as_slice()) {
                    Ok(()) => Ok(result),
                    Err(m) => {
                        self.accounts.set(i, previous);
                        assert(self.accounts@ =~= prev);
                        Err(GitcoreError::InvalidConfig(m))
                    },
                }
            },
        }
    }
}


/// Adding an account that the rules accept keeps the account-list invariant.
pub proof fn lemma_add_keeps_invariant(accounts: Seq<Account>, a: Account)
    requires
        add_outcome(accounts, a.name@, a.username@, a.email@, a.host_alias@, a.key_path@) is Ok,
    ensures
        accounts_valid(accounts.push(a)),
{
    let n = accounts.push(a);
    assert(n.drop_last() =~= accounts);
    lemma_validation_ok_iff_valid(n);
}

/// After an account is added, looking up its host alias finds that account.
pub proof fn lemma_add_then_find_by_alias(accounts: Seq<Account>, a: Account)
    requires
        add_outcome(accounts, a.name@, a.username@, a.email@, a.host_alias@, a.key_path@) is Ok,
    ensures
        lookup(accounts.push(a), has_alias(a.host_alias@), a.host_alias@) == Ok::<
            Account,
            ErrorView,
        >(a),
{
    let n = accounts.push(a);
    assert forall|j: int| 0 <= j < accounts.len() implies !has_alias(a.host_alias@)(
        #[trigger] n[j],
    ) by {
        assert(n[j] == accounts[j]);
        if n[j].host_alias@ == a.host_alias@ {
            assert(eq_ignore_case(accounts[j].host_alias@, a.host_alias@));
            assert(alias_taken(accounts, a.host_alias@));
        }
    }
    assert(is_first_where(n, has_alias(a.host_alias@), accounts.len() as int));
    lemma_first_where(n, has_alias(a.host_alias@), accounts.len() as int);
}

/// Removing an account right after adding it gives the account back and restores
/// the previous list.
pub proof fn lemma_add_then_remove(accounts: Seq<Account>, a: Account)
    requires
        add_outcome(accounts, a.name@, a.username@, a.email@, a.host_alias@, a.key_path@) is Ok,
    ensures
        remove_outcome(accounts.push(a), a.name@) == Ok::<Account, ErrorView>(a),
        after_remove(accounts.push(a), a.name@) == accounts,
{
    let n = accounts.push(a);
    assert forall|j: int| 0 <= j < accounts.len() implies !has_name(a.name@)(#[trigger] n[j]) by {
        assert(n[j] == accounts[j]);
        if n[j].name@ == a.name@ {
            assert(eq_ignore_case(accounts[j].name@, a.name@));
            assert(name_taken(accounts, a.name@));
        }
    }
    assert(is_first_where(n, has_name(a.name@), accounts.len() as int));
    lemma_first_where(n, has_name(a.name@), accounts.len() as int);
    assert(n.remove(accounts.len() as int) =~= accounts);
}

/// Every successful removal leaves a list that keeps the invariant.
pub proof fn lemma_remove_keeps_invariant(accounts: Seq<Account>, name: Seq<char>)
    requires
        remove_outcome(accounts, name) is Ok,
    ensures
        accounts_valid(after_remove(accounts, name)),
{
    lemma_validation_ok_iff_valid(after_remove(accounts, name));
}

/// Every successful update leaves a list that keeps the invariant.
pub proof fn lemma_update_keeps_invariant(
    accounts: Seq<Account>,
    name: Seq<char>,
    req: UpdateAccountRequest,
)
    requires
        update_outcome(accounts, name, req) is Ok,
    ensures
        accounts_valid(with_update(accounts, name, req)),
{
    lemma_validation_ok_iff_valid(with_update(accounts, name, req));
}


/// No host alias holds `:` or `@`.
pub open spec fn plain_aliases(accounts: Seq<Account>) -> bool {
    forall|k: int|
        0 <= k < accounts.len() ==> !(#[trigger] accounts[k].host_alias@).contains(':')
            && !accounts[k].host_alias@.contains('@')
}

/// A successful update changes exactly the fields the request gives: a given username,
/// email or GPG choice replaces the old one (a GPG choice of `None` clears the key), a
/// field the request leaves out keeps its old value, and the account's name, platform,
/// key file and host alias never change. The stored list holds the updated account in
/// place of the old one.
pub proof fn lemma_update_sets_requested_fields(
    accounts: Seq<Account>,
    name: Seq<char>,
    req: UpdateAccountRequest,
    a: Account,
)
    requires
        update_outcome(accounts, name, req) == Ok::<Account, ErrorView>(a),
    ensures
        exists|i: int|
            #![trigger accounts[i]]
            0 <= i < accounts.len() && accounts[i].name@ == name && with_update(accounts, name, req)
                == accounts.update(i, a) && {
                let old_a = accounts[i];
                &&& a.name == old_a.name
                &&& a.platform == old_a.platform
                &&& a.key_path == old_a.key_path
                &&& a.host_alias == old_a.host_alias
                &&& (req.username matches Some(u) ==> a.username == u)
                &&& (req.username is None ==> a.username == old_a.username)
                &&& (req.email matches Some(e) ==> a.email == e)
                &&& (req.email is None ==> a.email == old_a.email)
                &&& (req.gpg_key_id matches Some(g) ==> a.gpg_key_id == g)
                &&& (req.gpg_key_id is None ==> a.gpg_key_id == old_a.gpg_key_id)
            },
{
    let i = first_where(accounts, has_name(name))->0;
    let w = choose|k: int| is_first_where(accounts, has_name(name), k);
    assert(is_first_where(accounts, has_name(name), w));
    assert(i == w);
    assert(has_name(name)(accounts[i]));
}

/// No two accounts have the same host alias.
pub open spec fn distinct_aliases(accounts: Seq<Account>) -> bool {
    forall|i: int, j: int|
        0 <= i < j < accounts.len() ==> #[trigger] accounts[i].host_alias@ != #[trigger] accounts[j].host_alias@
}

/// A list that keeps the invariant has distinct host aliases.
pub proof fn lemma_valid_aliases_distinct(accounts: Seq<Account>)
    requires
        accounts_valid(accounts),
    ensures
        distinct_aliases(accounts),
{
    assert forall|i: int, j: int| 0 <= i < j < accounts.len() implies #[trigger] accounts[i].host_alias@
        != #[trigger] accounts[j].host_alias@ by {
        assert(!eq_ignore_case(accounts[i].name@, accounts[j].name@));
    }
}

/// A remote URL that starts with `{alias}:` of an account is detected as that account,
/// when no two accounts share a host alias and no alias holds `:` or `@`.
pub proof fn lemma_remote_detects_account(accounts: Seq<Account>, i: int, remote: Seq<char>)
    requires
        distinct_aliases(accounts),
        plain_aliases(accounts),
        0 <= i < accounts.len(),
        is_prefix(accounts[i].host_alias@.push(':'), remote),
    ensures
        first_where(accounts, uses_remote(remote)) == Some(i),
{
    let a = accounts[i].host_alias@;
    assert(!a.contains(':') && !a.contains('@'));
    assert(remote[a.len() as int] == ':') by {
        assert(remote.subrange(0, a.len() as int + 1)[a.len() as int] == a.push(':')[a.len() as int]);
    }
    assert forall|j: int| 0 <= j < i implies !uses_remote(remote)(#[trigger] accounts[j]) by {
        let b = accounts[j].host_alias@;
        assert(!b.contains(':') && !b.contains('@'));
        if is_prefix(b.push(':'), remote) {
            assert(remote[b.len() as int] == ':') by {
                assert(remote.subrange(0, b.len() as int + 1)[b.len() as int] == b.push(':')[b.len() as int]);
            }
            if a.len() < b.len() {
                assert(remote.subrange(0, b.len() as int + 1)[a.len() as int] == b[a.len() as int]);
                assert(b.contains(':'));
            } else if b.len() < a.len() {
                assert(remote.subrange(0, a.len() as int + 1)[b.len() as int] == a[b.len() as int]);
                assert(a.contains(':'));
            } else {
                assert forall|k: int| 0 <= k < a.len() implies a[k] == b[k] by {
                    assert(remote.subrange(0, a.len() as int + 1)[k] == a.push(':')[k]);
                    assert(remote.subrange(0, b.len() as int + 1)[k] == b.push(':')[k]);
                }
                assert(a =~= b);
                assert(accounts[j].host_alias@ != accounts[i].host_alias@);
            }
        }
        if is_prefix("git@"@ + b.push(':'), remote) {
            reveal_strlit("git@");
            let g = "git@"@ + b.push(':');
            assert(remote.subrange(0, g.len() as int) == g);
            if a.len() >= 4 {
                assert(remote.subrange(0, a.len() as int + 1)[3] == a[3]);
                assert(remote.subrange(0, g.len() as int)[3] == '@');
                assert(a.contains('@'));
            } else {
                assert(remote.subrange(0, g.len() as int)[a.len() as int] == g[a.len() as int]);
            }
        }
    }
    assert(is_first_where(accounts, uses_remote(remote), i));
    lemma_first_where(accounts, uses_remote(remote), i);
}

/// A URL rewritten for an account is detected, in a repository, as that account.
pub proof fn lemma_converted_remote_detects_account(accounts: Seq<Account>, i: int, url: Seq<char>)
    requires
        distinct_aliases(accounts),
        plain_aliases(accounts),
        0 <= i < accounts.len(),
        crate::git::rewritten(url),
    ensures
        first_where(
            accounts,
            uses_remote(crate::git::spec_convert_to_host(url, accounts[i].host_alias@)),
        ) == Some(i),
{
    crate::git::lemma_rewritten_starts_with_alias(url, accounts[i].host_alias@);
    lemma_remote_detects_account(
        accounts,
        i,
        crate::git::spec_convert_to_host(url, accounts[i].host_alias@),
    );
}

} // verus!
