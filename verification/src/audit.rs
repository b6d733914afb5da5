//! Security audit: which managed files are missing or have permissions other than expected.

use crate::models::Account;
use crate::text::{concat2, concat3};
use std::path::PathBuf;
use vstd::prelude::*;
use vstd::string::*;

verus! {

/// Permission mode expected for a private key.
pub const PRIVATE_KEY_MODE: u32 = 0o600;

/// Permission mode expected for a public key.
pub const PUBLIC_KEY_MODE: u32 = 0o644;

/// Permission mode expected for the SSH config file and the Gitcore config file.
pub const CONFIG_FILE_MODE: u32 = 0o600;

/// Permission status for an audited file.
#[derive(Debug)]
pub struct FileAudit {
    /// Absolute path of the audited file.
    pub path: PathBuf,
    /// Whether the file currently exists.
    pub exists: bool,
    /// Effective filesystem permissions when available on the current platform.
    pub permissions: Option<u32>,
    /// Permission mode Gitcore expects for the file.
    pub expected_permissions: u32,
}

/// Audit result for a managed SSH keypair.
#[derive(Debug)]
pub struct KeyAudit {
    /// Account that owns the keypair.
    pub account: Account,
    /// Audit information for the private key.
    pub private_key: FileAudit,
    /// Audit information for the public key.
    pub public_key: FileAudit,
}

/// Security audit report for a Gitcore installation.
#[derive(Debug)]
pub struct AuditReport {
    /// Audit rows for each configured account keypair.
    pub key_audits: Vec<KeyAudit>,
    /// Audit information for the generated SSH config file.
    pub ssh_config: FileAudit,
    /// Audit information for the persisted Gitcore config file.
    pub config_file: FileAudit,
    /// Human-readable issues detected during the audit pass.
    pub issues: Vec<String>,
}

/// The octal digit for `d < 8`.
pub open spec fn octal_digit(d: nat) -> char {
    (('0' as u32) + d) as char
}

/// The octal numeral of `n`, without leading zeros (`format!("{:o}", n)`).
pub open spec fn octal(n: nat) -> Seq<char>
    decreases n,
{
    if n < 8 {
        seq![octal_digit(n)]
    } else {
        octal(n / 8).push(octal_digit(n % 8))
    }
}

/// The permissions are known and differ from those expected.
pub open spec fn mismatched(f: FileAudit) -> bool {
    f.permissions is Some && f.permissions->0 != f.expected_permissions
}

/// `" has insecure permissions ({actual:o}, expected {expected:o})"`.
pub open spec fn insecure_suffix(f: FileAudit) -> Seq<char> {
    " has insecure permissions ("@ + octal(f.permissions->0 as nat) + ", expected "@ + octal(
        f.expected_permissions as nat,
    ) + ")"@
}

/// The issues of one keypair: a missing private key, or else a private key with
/// unexpected permissions; and a public key with unexpected permissions.
pub open spec fn key_issues(k: KeyAudit) -> Seq<Seq<char>> {
    let kp = k.account.key_path@;
    let private = if !k.private_key.exists {
        seq!["SSH key missing: "@ + kp]
    } else if mismatched(k.private_key) {
        seq!["SSH private key '"@ + kp + "'"@ + insecure_suffix(k.private_key)]
    } else {
        Seq::empty()
    };
    let public = if mismatched(k.public_key) {
        seq!["SSH public key '"@ + kp + ".pub'"@ + insecure_suffix(k.public_key)]
    } else {
        Seq::empty()
    };
    private + public
}

/// The issues of all keypairs, in order.
pub open spec fn all_key_issues(ks: Seq<KeyAudit>) -> Seq<Seq<char>>
    decreases ks.len(),
{
    if ks.len() == 0 {
        Seq::empty()
    } else {
        all_key_issues(ks.drop_last()) + key_issues(ks.last())
    }
}

/// The issue of a config file called `label`: missing, or present with unexpected permissions.
pub open spec fn file_issues(f: FileAudit, label: Seq<char>) -> Seq<Seq<char>> {
    if !f.exists {
        seq![label + " missing"@]
    } else if mismatched(f) {
        seq![label + insecure_suffix(f)]
    } else {
        Seq::empty()
    }
}

/// All issues of an audit, in the order they are reported.
pub open spec fn audit_issues(ks: Seq<KeyAudit>, ssh_config: FileAudit, config_file: FileAudit) -> Seq<
    Seq<char>,
> {
    all_key_issues(ks) + file_issues(ssh_config, "SSH config file"@) + file_issues(
        config_file,
        "Gitcore config file"@,
    )
}

/// A file the audit looks at: its name inside the SSH directory and the mode expected.
#[derive(Debug)]
pub struct AuditTarget {
    /// File name relative to the SSH directory.
    pub file_name: String,
    /// Permission mode the file should have.
    pub expected_permissions: u32,
}

/// The two files of an account's keypair.
#[derive(Debug)]
pub struct KeyTargets {
    /// The private key file.
    pub private_key: AuditTarget,
    /// The public key file.
    pub public_key: AuditTarget,
}

/// Every file an audit looks at, with the modes expected.
#[derive(Debug)]
pub struct AuditTargets {
    /// One keypair per account, in account order.
    pub keys: Vec<KeyTargets>,
    /// The SSH config file.
    pub ssh_config: AuditTarget,
    /// The mode expected for the Gitcore config file, wherever it is stored.
    pub config_file_permissions: u32,
}

/// The files an audit of `accounts` looks at: for each account its private key
/// `{key_path}` (mode `0o600`) and public key `{key_path}.pub` (mode `0o644`) in the SSH
/// directory, then the SSH directory's `config` (mode `0o600`); the Gitcore config file is
/// expected at mode `0o600`.
pub fn audit_targets(accounts: &[Account]) -> (r: AuditTargets)
    ensures
        r.keys@.len() == accounts@.len(),
        forall|i: int|
            0 <= i < accounts@.len() ==> {
                &&& (#[trigger] r.keys@[i]).private_key.file_name@ == accounts@[i].key_path@
                &&& r.keys@[i].private_key.expected_permissions == PRIVATE_KEY_MODE
                &&& r.keys@[i].public_key.file_name@ == accounts@[i].key_path@ + ".pub"@
                &&& r.keys@[i].public_key.expected_permissions == PUBLIC_KEY_MODE
            },
        r.ssh_config.file_name@ == "config"@,
        r.ssh_config.expected_permissions == CONFIG_FILE_MODE,
        r.config_file_permissions == CONFIG_FILE_MODE,
{
    let mut keys: Vec<KeyTargets> = Vec::new();
    let mut i: usize = 0;
    while i < accounts.len()
        invariant
            i <= accounts@.len(),
            keys@.len() == i,
            forall|j: int|
                0 <= j < i ==> {
                    &&& (#[trigger] keys@[j]).private_key.file_name@ == accounts@[j].key_path@
                    &&& keys@[j].private_key.expected_permissions == PRIVATE_KEY_MODE
                    &&& keys@[j].public_key.file_name@ == accounts@[j].key_path@ + ".pub"@
                    &&& keys@[j].public_key.expected_permissions == PUBLIC_KEY_MODE
                },
        decreases accounts@.len() - i,
    {
        let kp = accounts[i].key_path.as_str();
        keys.push(
            KeyTargets {
                private_key: AuditTarget {
                    file_name: String::from_str(kp),
                    expected_permissions: PRIVATE_KEY_MODE,
                },
                public_key: AuditTarget {
                    file_name: concat2(kp, ".pub"),
                    expected_permissions: PUBLIC_KEY_MODE,
                },
            },
        );
        i = i + 1;
    }
    AuditTargets {
        keys,
        ssh_config: AuditTarget {
            file_name: String::from_str("config"),
            expected_permissions: CONFIG_FILE_MODE,
        },
        config_file_permissions: CONFIG_FILE_MODE,
    }
}

/// A file is in order: it exists, and its permissions, where known, are those expected.
pub open spec fn file_in_order(f: FileAudit) -> bool {
    f.exists && !mismatched(f)
}

/// The audit status of a file whose existence and permissions were observed.
pub fn audit_file(path: PathBuf, exists: bool, permissions: Option<u32>, expected_permissions: u32) -> (r:
    FileAudit)
    ensures
        r.path == path,
        r.exists == exists,
        r.permissions == permissions,
        r.expected_permissions == expected_permissions,
{
    FileAudit { path, exists, permissions, expected_permissions }
}

fn push_octal(out: &mut Vec<char>, n: u32)
    ensures
        final(out)@ == old(out)@ + octal(n as nat),
    decreases n,
{
    if n >= 8 {
        push_octal(out, n / 8);
    }
    let d = (n % 8) as u8;
    let c = (('0' as u8) + d) as char;
    assert(c == octal_digit((n % 8) as nat));
    out.push(c);
    assert(old(out)@ + octal(n as nat) =~= final(out)@) by {
        if n >= 8 {
            assert(octal(n as nat) == octal((n / 8) as nat).push(octal_digit((n % 8) as nat)));
        }
    }
}

/// `format!("{:o}", n)`.
pub fn format_octal(n: u32) -> (r: String)
    ensures
        r@ == octal(n as nat),
{
    let mut v: Vec<char> = Vec::new();
    push_octal(&mut v, n);
    assert(v@ =~= octal(n as nat));
    crate::text::string_of(&v)
}

fn insecure_message(label: &str, f: &FileAudit) -> (r: String)
    requires
        f.permissions is Some,
    ensures
        r@ == label@ + insecure_suffix(*f),
{
    let actual = match f.permissions {
        Some(p) => p,
        None => 0,
    };
    let mut r = String::from_str(label);
    r.append(" has insecure permissions (");
    r.append(format_octal(actual).as_str());
    r.append(", expected ");
    r.append(format_octal(f.expected_permissions).as_str());
    r.append(")");
    assert(r@ =~= label@ + insecure_suffix(*f));
    r
}

fn is_mismatched(f: &FileAudit) -> (r: bool)
    ensures
        r == mismatched(*f),
{
    match f.permissions {
        Some(p) => p != f.expected_permissions,
        None => false,
    }
}

fn push_key_issues(issues: &mut Vec<String>, k: &KeyAudit)
    ensures
        final(issues)@.map_values(|s: String| s@) == old(issues)@.map_values(|s: String| s@)
            + key_issues(*k),
{
    let ghost before = old(issues)@.map_values(|s: String| s@);
    let kp = k.account.key_path.as_str();
    let ghost mid: Seq<Seq<char>>;
    if !k.private_key.exists {
        issues.push(crate::text::concat2("SSH key missing: ", kp));
    } else if is_mismatched(&k.private_key) {
        let label = concat3("SSH private key '", kp, "'");
        issues.push(insecure_message(label.as_str(), &k.private_key));
    }
    proof {
        mid = issues@.map_values(|s: String| s@);
    }
    if is_mismatched(&k.public_key) {
        let label = concat3("SSH public key '", kp, ".pub'");
        issues.push(insecure_message(label.as_str(), &k.public_key));
    }
    assert(issues@.map_values(|s: String| s@) =~= before + key_issues(*k));
}

fn push_file_issues(issues: &mut Vec<String>, f: &FileAudit, label: &str)
    ensures
        final(issues)@.map_values(|s: String| s@) == old(issues)@.map_values(|s: String| s@)
            + file_issues(*f, label@),
{
    let ghost before = old(issues)@.map_values(|s: String| s@);
    if !f.exists {
        issues.push(crate::text::concat2(label, " missing"));
    } else if is_mismatched(f) {
        issues.push(insecure_message(label, f));
    }
    assert(issues@.map_values(|s: String| s@) =~= before + file_issues(*f, label@));
}

impl AuditReport {
    /// Assembles an audit report from the observed state of each file and lists its issues.
    pub fn from_audits(key_audits: Vec<KeyAudit>, ssh_config: FileAudit, config_file: FileAudit) -> (r:
        AuditReport)
        ensures
            r.key_audits@ == key_audits@,
            r.ssh_config == ssh_config,
            r.config_file == config_file,
            r.issues@.map_values(|s: String| s@) == audit_issues(
                key_audits@,
                ssh_config,
                config_file,
            ),
    {
        let mut issues: Vec<String> = Vec::new();
        let mut i: usize = 0;
        assert(key_audits@.subrange(0, 0) =~= Seq::<KeyAudit>::empty());
        assert(issues@.map_values(|s: String| s@) =~= Seq::<Seq<char>>::empty());
        while i < key_audits.len()
            invariant
                i <= key_audits@.len(),
                issues@.map_values(|s: String| s@) == all_key_issues(
                    key_audits@.subrange(0, i as int),
                ),
            decreases key_audits@.len() - i,
        {
            assert(key_audits@.subrange(0, i + 1).drop_last() =~= key_audits@.subrange(0, i as int));
            push_key_issues(&mut issues, &key_audits[i]);
            i = i + 1;
        }
        assert(key_audits@.subrange(0, key_audits@.len() as int) =~= key_audits@);
        push_file_issues(&mut issues, &ssh_config, "SSH config file");
        push_file_issues(&mut issues, &config_file, "Gitcore config file");
        proof {
            let a = all_key_issues(key_audits@);
            let b = file_issues(ssh_config, "SSH config file"@);
            let c = file_issues(config_file, "Gitcore config file"@);
            assert(a + b + c =~= audit_issues(key_audits@, ssh_config, config_file));
        }
        AuditReport { key_audits, ssh_config, config_file, issues }
    }
}

/// An audit reports no issue exactly when every private key exists, no key file has
/// known permissions other than expected, and both config files exist with the
/// expected permissions where known.
pub proof fn lemma_clean_audit(ks: Seq<KeyAudit>, ssh_config: FileAudit, config_file: FileAudit)
    ensures
        audit_issues(ks, ssh_config, config_file).len() == 0 <==> {
            &&& forall|i: int|
                0 <= i < ks.len() ==> file_in_order(#[trigger] ks[i].private_key) && !mismatched(
                    ks[i].public_key,
                )
            &&& file_in_order(ssh_config)
            &&& file_in_order(config_file)
        },
{
    lemma_key_issues_empty(ks);
}

proof fn lemma_key_issues_empty(ks: Seq<KeyAudit>)
    ensures
        all_key_issues(ks).len() == 0 <==> forall|i: int|
            0 <= i < ks.len() ==> file_in_order(#[trigger] ks[i].private_key) && !mismatched(
                ks[i].public_key,
            ),
    decreases ks.len(),
{
    if ks.len() > 0 {
        lemma_key_issues_empty(ks.drop_last());
        let n = ks.len() - 1;
        if all_key_issues(ks).len() == 0 {
            assert forall|i: int| 0 <= i < ks.len() implies file_in_order(
                #[trigger] ks[i].private_key,
            ) && !mismatched(ks[i].public_key) by {
                if i < n {
                    assert(ks[i] == ks.drop_last()[i]);
                }
            }
        }
        if forall|i: int|
            0 <= i < ks.len() ==> file_in_order(#[trigger] ks[i].private_key) && !mismatched(
                ks[i].public_key,
            ) {
            assert forall|i: int| 0 <= i < ks.drop_last().len() implies file_in_order(
                #[trigger] ks.drop_last()[i].private_key,
            ) && !mismatched(ks.drop_last()[i].public_key) by {
                assert(ks[i] == ks.drop_last()[i]);
            }
            assert(file_in_order(ks[n].private_key));
        }
    }
}

} // verus!
