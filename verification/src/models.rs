//! Account records, platforms and the invariants an account list must keep.

use crate::error::GitcoreError;
use crate::text::{chars_of, concat3, eq_ignore_ascii_case, eq_ignore_case, is_blank, same_text, trim};
use vstd::prelude::*;
use vstd::string::*;

verus! {

/// Supported Git hosting platforms.
#[derive(Debug, Clone, Copy, PartialEq, Eq, Structural)]
pub enum Platform {
    /// GitHub (github.com)
    Github,
    /// GitLab (gitlab.com)
    Gitlab,
    /// Codeberg (codeberg.org)
    Codeberg,
    /// Bitbucket (bitbucket.org)
    Bitbucket,
}

impl Default for Platform {
    fn default() -> (r: Platform)
        ensures
            r == Platform::Github,
    {
        Platform::Github
    }
}

/// The Git hosting domain of a platform.
pub open spec fn spec_host(p: Platform) -> Seq<char> {
    match p {
        Platform::Github => "github.com"@,
        Platform::Gitlab => "gitlab.com"@,
        Platform::Codeberg => "codeberg.org"@,
        Platform::Bitbucket => "bitbucket.org"@,
    }
}

/// The browser page where a platform manages SSH public keys.
pub open spec fn spec_provider_key_url(p: Platform) -> Seq<char> {
    match p {
        Platform::Github => "https://github.com/settings/keys"@,
        Platform::Gitlab => "https://gitlab.com/-/profile/keys"@,
        Platform::Codeberg => "https://codeberg.org/user/keys"@,
        Platform::Bitbucket => "https://bitbucket.org/account/settings/ssh-keys/"@,
    }
}

impl Platform {
    /// Returns the Git hosting domain used for SSH and URL rewriting.
    pub fn host(&self) -> (r: &'static str)
        ensures
            r@ == spec_host(*self),
    {
        match self {
            Platform::Github => "github.com",
            Platform::Gitlab => "gitlab.com",
            Platform::Codeberg => "codeberg.org",
            Platform::Bitbucket => "bitbucket.org",
        }
    }

    /// Returns the browser URL where SSH public keys are managed.
    pub fn provider_key_url(&self) -> (r: &'static str)
        ensures
            r@ == spec_provider_key_url(*self),
    {
        match self {
            Platform::Github => "https://github.com/settings/keys",
            Platform::Gitlab => "https://gitlab.com/-/profile/keys",
            Platform::Codeberg => "https://codeberg.org/user/keys",
            Platform::Bitbucket => "https://bitbucket.org/account/settings/ssh-keys/",
        }
    }
}

/// Unicode lowercase mapping of a string, as `str::to_lowercase` computes it.
pub uninterp spec fn unicode_lowercase(s: Seq<char>) -> Seq<char>;

/// `str::to_lowercase` maps every character to its Unicode lowercase form; the
/// mapping is a fixed function of the input text.
pub assume_specification[ str::to_lowercase ](s: &str) -> (r: String)
    ensures
        r@ == unicode_lowercase(s@),
;

/// The platform that a lowercased platform name denotes.
pub open spec fn platform_named(lowered: Seq<char>) -> Option<Platform> {
    if lowered == "github"@ {
        Some(Platform::Github)
    } else if lowered == "gitlab"@ {
        Some(Platform::Gitlab)
    } else if lowered == "codeberg"@ {
        Some(Platform::Codeberg)
    } else if lowered == "bitbucket"@ || lowered == "bb"@ {
        Some(Platform::Bitbucket)
    } else {
        None
    }
}

/// Parses a platform name, ignoring case (`github`, `gitlab`, `codeberg`, `bitbucket` or `bb`).
pub fn platform_from_name(s: &str) -> (r: Option<Platform>)
    ensures
        r == platform_named(unicode_lowercase(s@)),
{
    let lowered = s.to_lowercase();
    let l = lowered.as_str();
    if same_text(l, "github") {
        Some(Platform::Github)
    } else if same_text(l, "gitlab") {
        Some(Platform::Gitlab)
    } else if same_text(l, "codeberg") {
        Some(Platform::Codeberg)
    } else if same_text(l, "bitbucket") || same_text(l, "bb") {
        Some(Platform::Bitbucket)
    } else {
        None
    }
}

impl core::str::FromStr for Platform {
    type Err = ();

    fn from_str(s: &str) -> (r: Result<Platform, ()>)
        ensures
            match platform_named(unicode_lowercase(s@)) {
                Some(p) => r == Ok::<Platform, ()>(p),
                None => r == Err::<Platform, ()>(()),
            },
    {
        match platform_from_name(s) {
            Some(p) => Ok(p),
            None => Err(()),
        }
    }
}

/// Parses a user-facing platform string such as `github` or `gitlab`.
pub fn parse_platform(value: &str) -> (r: Result<Platform, GitcoreError>)
    ensures
        match r {
            Ok(p) => platform_named(unicode_lowercase(value@)) == Some(p),
            Err(e) => platform_named(unicode_lowercase(value@)) is None && e@
                == crate::error::ErrorView::UnsupportedPlatform(value@),
        },
{
    match platform_from_name(value) {
        Some(p) => Ok(p),
        None => Err(GitcoreError::UnsupportedPlatform(String::from_str(value))),
    }
}

/// A persisted identity record for a Git hosting platform.
#[derive(Debug, Clone)]
pub struct Account {
    /// Human-facing account name such as `work` or `personal`.
    pub name: String,
    /// Git hosting platform this identity belongs to.
    pub platform: Platform,
    /// Filename of the associated SSH private key in the managed SSH directory.
    pub key_path: String,
    /// Unique host alias used in SSH config and rewritten Git URLs.
    pub host_alias: String,
    /// Git author name (user.name).
    pub username: String,
    /// Git author email (user.email) and SSH key comment.
    pub email: String,
    /// Optional GPG signing key ID.
    pub gpg_key_id: Option<String>,
}

impl Account {
    /// A field-by-field copy of the account.
    pub fn copy(&self) -> (r: Account)
        ensures
            r == *self,
    {
        Account {
            name: self.name.clone(),
            platform: self.platform,
            key_path: self.key_path.clone(),
            host_alias: self.host_alias.clone(),
            username: self.username.clone(),
            email: self.email.clone(),
            gpg_key_id: match &self.gpg_key_id {
                Some(id) => Some(id.clone()),
                None => None,
            },
        }
    }
}

/// Root configuration object containing all managed accounts.
#[derive(Debug, Clone)]
pub struct GitcoreConfig {
    /// List of registered identities.
    pub accounts: Vec<Account>,
}

impl Default for GitcoreConfig {
    fn default() -> (r: GitcoreConfig)
        ensures
            r.accounts@.len() == 0,
    {
        GitcoreConfig { accounts: Vec::new() }
    }
}

/// Embedded SSH keypair material.
#[derive(Debug, Clone)]
pub struct VaultKey {
    /// Filename for the key (e.g., `id_ed25519_work`).
    pub filename: String,
    /// Full content of the private key file.
    pub private_content: String,
    /// Full content of the public key file.
    pub public_content: String,
}

/// An encrypted container's contents: configuration and private key material.
#[derive(Debug, Clone)]
pub struct Vault {
    /// The Gitcore configuration.
    pub config: GitcoreConfig,
    /// Embedded SSH key material.
    pub keys: Vec<VaultKey>,
}

/// Characters allowed in an account name.
pub open spec fn is_name_char(c: char) -> bool {
    ||| ('a' <= c && c <= 'z')
    ||| ('A' <= c && c <= 'Z')
    ||| ('0' <= c && c <= '9')
    ||| c == '-'
    ||| c == '_'
}

/// A non-empty name made of ASCII letters, digits, `-` and `_`.
pub open spec fn valid_account_name(s: Seq<char>) -> bool {
    s.len() > 0 && forall|i: int| 0 <= i < s.len() ==> is_name_char(#[trigger] s[i])
}

/// Validates that an account name contains only safe characters.
pub fn is_valid_account_name(name: &str) -> (r: bool)
    ensures
        r == valid_account_name(name@),
{
    let cs = chars_of(name);
    if cs.len() == 0 {
        return false;
    }
    let mut i: usize = 0;
    while i < cs.len()
        invariant
            cs@ == name@,
            i <= cs@.len(),
            forall|j: int| 0 <= j < i ==> is_name_char(#[trigger] cs@[j]),
        decreases cs@.len() - i,
    {
        let c = cs[i];
        if !(('a' <= c && c <= 'z') || ('A' <= c && c <= 'Z') || ('0' <= c && c <= '9') || c == '-'
            || c == '_') {
            return false;
        }
        i = i + 1;
    }
    true
}


/// Text of the error for an account whose name is not valid.
pub open spec fn msg_invalid_name(name: Seq<char>) -> Seq<char> {
    "Invalid account name '"@ + name + "'"@
}

/// Text of the error for an account with a blank username.
pub open spec fn msg_empty_username(name: Seq<char>) -> Seq<char> {
    "Account '"@ + name + "' has an empty username"@
}

/// Text of the error for an account with a blank email.
pub open spec fn msg_empty_email(name: Seq<char>) -> Seq<char> {
    "Account '"@ + name + "' has an empty email"@
}

/// Text of the error for a repeated account name.
pub open spec fn msg_duplicate_name(name: Seq<char>) -> Seq<char> {
    "Duplicate account name '"@ + name + "'"@
}

/// Text of the error for a repeated host alias.
pub open spec fn msg_duplicate_alias(alias: Seq<char>) -> Seq<char> {
    "Duplicate host alias '"@ + alias + "'"@
}

/// Text of the error for a key file that another account already uses.
pub open spec fn msg_duplicate_key(key_path: Seq<char>) -> Seq<char> {
    "Duplicate key path '"@ + key_path + "'"@
}

/// Some account of `prev` has a name equal to `name` ignoring ASCII case.
pub open spec fn name_taken(prev: Seq<Account>, name: Seq<char>) -> bool {
    exists|j: int| 0 <= j < prev.len() && eq_ignore_case(#[trigger] prev[j].name@, name)
}

/// Some account of `prev` has a host alias equal to `alias` ignoring ASCII case.
pub open spec fn alias_taken(prev: Seq<Account>, alias: Seq<char>) -> bool {
    exists|j: int| 0 <= j < prev.len() && eq_ignore_case(#[trigger] prev[j].host_alias@, alias)
}

/// Some account of `prev` uses the key file `key_path`, ignoring ASCII case.
pub open spec fn key_taken(prev: Seq<Account>, key_path: Seq<char>) -> bool {
    exists|j: int| 0 <= j < prev.len() && eq_ignore_case(#[trigger] prev[j].key_path@, key_path)
}

/// The first rule that `a` breaks when it follows the accounts `prev`, checked in order:
/// name syntax, blank username, blank email, repeated name, repeated alias, repeated key file.
pub open spec fn account_problem(prev: Seq<Account>, a: Account) -> Option<Seq<char>> {
    if !valid_account_name(a.name@) {
        Some(msg_invalid_name(a.name@))
    } else if trim(a.username@).len() == 0 {
        Some(msg_empty_username(a.name@))
    } else if trim(a.email@).len() == 0 {
        Some(msg_empty_email(a.name@))
    } else if name_taken(prev, a.name@) {
        Some(msg_duplicate_name(a.name@))
    } else if alias_taken(prev, a.host_alias@) {
        Some(msg_duplicate_alias(a.host_alias@))
    } else if key_taken(prev, a.key_path@) {
        Some(msg_duplicate_key(a.key_path@))
    } else {
        None
    }
}

/// The outcome of validating an account list: the problem of the first account that has one.
pub open spec fn validation(accounts: Seq<Account>) -> Result<(), Seq<char>>
    decreases accounts.len(),
{
    if accounts.len() == 0 {
        Ok(())
    } else {
        match validation(accounts.drop_last()) {
            Err(m) => Err(m),
            Ok(()) => match account_problem(accounts.drop_last(), accounts.last()) {
                Some(m) => Err(m),
                None => Ok(()),
            },
        }
    }
}

/// The invariant of a stored account list: every account is well-formed, and no two
/// accounts share a name, a host alias or a key file, ignoring ASCII case.
pub open spec fn accounts_valid(accounts: Seq<Account>) -> bool {
    &&& forall|i: int|
        0 <= i < accounts.len() ==> {
            &&& valid_account_name(#[trigger] accounts[i].name@)
            &&& trim(accounts[i].username@).len() > 0
            &&& trim(accounts[i].email@).len() > 0
        }
    &&& forall|i: int, j: int|
        0 <= i < j < accounts.len() ==> !eq_ignore_case(
            #[trigger] accounts[i].name@,
            #[trigger] accounts[j].name@,
        ) && !eq_ignore_case(accounts[i].host_alias@, accounts[j].host_alias@) && !eq_ignore_case(
            accounts[i].key_path@,
            accounts[j].key_path@,
        )
}

/// The view of a validation result.
pub open spec fn unit_result_view(r: Result<(), String>) -> Result<(), Seq<char>> {
    match r {
        Ok(()) => Ok(()),
        Err(m) => Err(m@),
    }
}

/// The problem of `accounts[i]` following `accounts[..i]`, as a message.
fn check_account(accounts: &[Account], i: usize) -> (r: Option<String>)
    requires
        i < accounts@.len(),
    ensures
        match r {
            Some(m) => account_problem(accounts@.subrange(0, i as int), accounts@[i as int]) == Some(
                m@,
            ),
            None => account_problem(accounts@.subrange(0, i as int), accounts@[i as int]) is None,
        },
{
    let ghost prev = accounts@.subrange(0, i as int);
    let a = &accounts[i];
    if !is_valid_account_name(a.name.as_str()) {
        return Some(concat3("Invalid account name '", a.name.as_str(), "'"));
    }
    if is_blank(a.username.as_str()) {
        return Some(concat3("Account '", a.name.as_str(), "' has an empty username"));
    }
    if is_blank(a.email.as_str()) {
        return Some(concat3("Account '", a.name.as_str(), "' has an empty email"));
    }
    let mut j: usize = 0;
    while j < i
        invariant
            i < accounts@.len(),
            prev == accounts@.subrange(0, i as int),
            a == accounts@[i as int],
            valid_account_name(a.name@),
            trim(a.username@).len() > 0,
            trim(a.email@).len() > 0,
            j <= i,
            forall|k: int| 0 <= k < j ==> !eq_ignore_case(#[trigger] prev[k].name@, a.name@),
        decreases i - j,
    {
        if eq_ignore_ascii_case(accounts[j].name.as_str(), a.name.as_str()) {
            assert(eq_ignore_case(prev[j as int].name@, a.name@));
            assert(name_taken(prev, a.name@));
            return Some(concat3("Duplicate account name '", a.name.as_str(), "'"));
        }
        j = j + 1;
    }
    let mut j: usize = 0;
    while j < i
        invariant
            i < accounts@.len(),
            prev == accounts@.subrange(0, i as int),
            a == accounts@[i as int],
            valid_account_name(a.name@),
            trim(a.username@).len() > 0,
            trim(a.email@).len() > 0,
            !name_taken(prev, a.name@),
            j <= i,
            forall|k: int| 0 <= k < j ==> !eq_ignore_case(#[trigger] prev[k].host_alias@, a.host_alias@),
        decreases i - j,
    {
        if eq_ignore_ascii_case(accounts[j].host_alias.as_str(), a.host_alias.as_str()) {
            assert(eq_ignore_case(prev[j as int].host_alias@, a.host_alias@));
            assert(alias_taken(prev, a.host_alias@));
            return Some(concat3("Duplicate host alias '", a.host_alias.as_str(), "'"));
        }
        j = j + 1;
    }
    let mut j: usize = 0;
    while j < i
        invariant
            i < accounts@.len(),
            prev == accounts@.subrange(0, i as int),
            a == accounts@[i as int],
            valid_account_name(a.name@),
            trim(a.username@).len() > 0,
            trim(a.email@).len() > 0,
            !name_taken(prev, a.name@),
            !alias_taken(prev, a.host_alias@),
            j <= i,
            forall|k: int| 0 <= k < j ==> !eq_ignore_case(#[trigger] prev[k].key_path@, a.key_path@),
        decreases i - j,
    {
        if eq_ignore_ascii_case(accounts[j].key_path.as_str(), a.key_path.as_str()) {
            assert(eq_ignore_case(prev[j as int].key_path@, a.key_path@));
            assert(key_taken(prev, a.key_path@));
            return Some(concat3("Duplicate key path '", a.key_path.as_str(), "'"));
        }
        j = j + 1;
    }
    None
}

/// Checks a list of accounts for name and alias collisions and valid fields.
///
/// Returns the message of the first problem found, scanning accounts in order.
pub fn validate_accounts(accounts: &[Account]) -> (r: Result<(), String>)
    ensures
        unit_result_view(r) == validation(accounts@),
{
    let mut i: usize = 0;
    while i < accounts.len()
        invariant
            i <= accounts@.len(),
            validation(accounts@.subrange(0, i as int)) == Ok::<(), Seq<char>>(()),
        decreases accounts@.len() - i,
    {
        let ghost prefix = accounts@.subrange(0, i + 1);
        assert(prefix.drop_last() =~= accounts@.subrange(0, i as int));
        match check_account(accounts, i) {
            Some(m) => {
                proof {
                    lemma_validation_extend_err(accounts@, i as int, m@);
                }
                return Err(m);
            },
            None => {},
        }
        i = i + 1;
    }
    assert(accounts@.subrange(0, accounts@.len() as int) =~= accounts@);
    Ok(())
}

proof fn lemma_validation_extend_err(accounts: Seq<Account>, i: int, m: Seq<char>)
    requires
        0 <= i < accounts.len(),
        validation(accounts.subrange(0, i)) == Ok::<(), Seq<char>>(()),
        account_problem(accounts.subrange(0, i), accounts[i]) == Some(m),
    ensures
        validation(accounts) == Err::<(), Seq<char>>(m),
    decreases accounts.len() - i,
{
    let p = accounts.subrange(0, i + 1);
    assert(p.drop_last() =~= accounts.subrange(0, i));
    if i + 1 < accounts.len() {
        lemma_validation_err_persists(accounts, i + 1, m);
    } else {
        assert(p =~= accounts);
    }
}

proof fn lemma_validation_err_persists(accounts: Seq<Account>, k: int, m: Seq<char>)
    requires
        0 <= k <= accounts.len(),
        validation(accounts.subrange(0, k)) == Err::<(), Seq<char>>(m),
    ensures
        validation(accounts) == Err::<(), Seq<char>>(m),
    decreases accounts.len() - k,
{
    if k < accounts.len() {
        assert(accounts.subrange(0, k + 1).drop_last() =~= accounts.subrange(0, k));
        lemma_validation_err_persists(accounts, k + 1, m);
    } else {
        assert(accounts.subrange(0, k) =~= accounts);
    }
}


/// `validate_accounts` accepts exactly the account lists that keep the invariant: every
/// account well-formed and no two sharing a name, host alias or key file, ignoring ASCII case.
pub proof fn lemma_validation_ok_iff_valid(accounts: Seq<Account>)
    ensures
        (validation(accounts) is Ok) <==> accounts_valid(accounts),
    decreases accounts.len(),
{
    if accounts.len() > 0 {
        let prev = accounts.drop_last();
        let a = accounts.last();
        let n = accounts.len() - 1;
        lemma_validation_ok_iff_valid(prev);
        if accounts_valid(accounts) {
            assert(accounts_valid(prev)) by {
                assert forall|i: int, j: int| 0 <= i < j < prev.len() implies !eq_ignore_case(
                    #[trigger] prev[i].name@,
                    #[trigger] prev[j].name@,
                ) && !eq_ignore_case(prev[i].host_alias@, prev[j].host_alias@) && !eq_ignore_case(
                    prev[i].key_path@,
                    prev[j].key_path@,
                ) by {
                    assert(prev[i] == accounts[i] && prev[j] == accounts[j]);
                }
                assert forall|i: int| 0 <= i < prev.len() implies {
                    &&& valid_account_name(#[trigger] prev[i].name@)
                    &&& trim(prev[i].username@).len() > 0
                    &&& trim(prev[i].email@).len() > 0
                } by {
                    assert(prev[i] == accounts[i]);
                }
            }
            assert(accounts[n] == a);
            assert(!name_taken(prev, a.name@)) by {
                if name_taken(prev, a.name@) {
                    let j = choose|j: int| 0 <= j < prev.len() && eq_ignore_case(#[trigger] prev[j].name@, a.name@);
                    assert(prev[j] == accounts[j]);
                    assert(!eq_ignore_case(accounts[j].name@, accounts[n].name@));
                }
            }
            assert(!alias_taken(prev, a.host_alias@)) by {
                if alias_taken(prev, a.host_alias@) {
                    let j = choose|j: int| 0 <= j < prev.len() && eq_ignore_case(#[trigger] prev[j].host_alias@, a.host_alias@);
                    assert(prev[j] == accounts[j]);
                    assert(!eq_ignore_case(accounts[j].name@, accounts[n].name@));
                    assert(!eq_ignore_case(accounts[j].host_alias@, accounts[n].host_alias@));
                }
            }
            assert(!key_taken(prev, a.key_path@)) by {
                if key_taken(prev, a.key_path@) {
                    let j = choose|j: int| 0 <= j < prev.len() && eq_ignore_case(#[trigger] prev[j].key_path@, a.key_path@);
                    assert(prev[j] == accounts[j]);
                    assert(!eq_ignore_case(accounts[j].name@, accounts[n].name@));
                    assert(!eq_ignore_case(accounts[j].key_path@, accounts[n].key_path@));
                }
            }
        }
        if validation(accounts) is Ok {
            assert(account_problem(prev, a) is None);
            assert forall|i: int| 0 <= i < accounts.len() implies {
                &&& valid_account_name(#[trigger] accounts[i].name@)
                &&& trim(accounts[i].username@).len() > 0
                &&& trim(accounts[i].email@).len() > 0
            } by {
                if i < n {
                    assert(accounts[i] == prev[i]);
                } else {
                    assert(accounts[i] == a);
                    assert(valid_account_name(a.name@));
                }
            }
            assert forall|i: int, j: int| 0 <= i < j < accounts.len() implies !eq_ignore_case(
                #[trigger] accounts[i].name@,
                #[trigger] accounts[j].name@,
            ) && !eq_ignore_case(accounts[i].host_alias@, accounts[j].host_alias@) && !eq_ignore_case(
                accounts[i].key_path@,
                accounts[j].key_path@,
            ) by {
                assert(accounts[i] == prev[i]);
                if j < n {
                    assert(accounts[j] == prev[j]);
                } else {
                    if eq_ignore_case(prev[i].name@, a.name@) {
                        assert(name_taken(prev, a.name@));
                    }
                    if eq_ignore_case(prev[i].host_alias@, a.host_alias@) {
                        assert(alias_taken(prev, a.host_alias@));
                    }
                    if eq_ignore_case(prev[i].key_path@, a.key_path@) {
                        assert(key_taken(prev, a.key_path@));
                    }
                }
            }
        }
    }
}

/// In a list that keeps the invariant, every identity has its own key file: two
/// different accounts never use the same key path.
pub proof fn lemma_valid_keys_distinct(accounts: Seq<Account>, i: int, j: int)
    requires
        accounts_valid(accounts),
        0 <= i < accounts.len(),
        0 <= j < accounts.len(),
        i != j,
    ensures
        accounts[i].key_path@ != accounts[j].key_path@,
{
    if i < j {
        assert(!eq_ignore_case(accounts[i].name@, accounts[j].name@));
    } else {
        assert(!eq_ignore_case(accounts[j].name@, accounts[i].name@));
    }
}

/// Each platform's SSH host is its own domain: no two platforms share a host, each host
/// starts with the platform's name and a `.`, and the platform's key-management page is
/// served from that host.
pub proof fn lemma_platform_hosts(p: Platform, q: Platform)
    ensures
        p != q ==> spec_host(p) != spec_host(q),
        crate::text::is_prefix(
            match p {
                Platform::Github => "github."@,
                Platform::Gitlab => "gitlab."@,
                Platform::Codeberg => "codeberg."@,
                Platform::Bitbucket => "bitbucket."@,
            },
            spec_host(p),
        ),
        crate::text::is_prefix("https://"@ + spec_host(p) + "/"@, spec_provider_key_url(p)),
{
    reveal_strlit("github.com");
    reveal_strlit("gitlab.com");
    reveal_strlit("codeberg.org");
    reveal_strlit("bitbucket.org");
    reveal_strlit("github.");
    reveal_strlit("gitlab.");
    reveal_strlit("codeberg.");
    reveal_strlit("bitbucket.");
    reveal_strlit("https://");
    reveal_strlit("/");
    reveal_strlit("https://github.com/settings/keys");
    reveal_strlit("https://gitlab.com/-/profile/keys");
    reveal_strlit("https://codeberg.org/user/keys");
    reveal_strlit("https://bitbucket.org/account/settings/ssh-keys/");
    assert("github.com"@[3] != "gitlab.com"@[3]);
    assert("github.com"@.len() != "codeberg.org"@.len());
    assert("github.com"@.len() != "bitbucket.org"@.len());
    assert("gitlab.com"@.len() != "codeberg.org"@.len());
    assert("gitlab.com"@.len() != "bitbucket.org"@.len());
    assert("codeberg.org"@.len() != "bitbucket.org"@.len());
    match p {
        Platform::Github => {
            assert(spec_host(p).subrange(0, 7) =~= "github."@);
            assert(spec_provider_key_url(p).subrange(0, 19) =~= "https://"@ + spec_host(p) + "/"@);
        },
        Platform::Gitlab => {
            assert(spec_host(p).subrange(0, 7) =~= "gitlab."@);
            assert(spec_provider_key_url(p).subrange(0, 19) =~= "https://"@ + spec_host(p) + "/"@);
        },
        Platform::Codeberg => {
            assert(spec_host(p).subrange(0, 9) =~= "codeberg."@);
            assert(spec_provider_key_url(p).subrange(0, 21) =~= "https://"@ + spec_host(p) + "/"@);
        },
        Platform::Bitbucket => {
            assert(spec_host(p).subrange(0, 10) =~= "bitbucket."@);
            assert(spec_provider_key_url(p).subrange(0, 22) =~= "https://"@ + spec_host(p) + "/"@);
        },
    }
}

} // verus!
