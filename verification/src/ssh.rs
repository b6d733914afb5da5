//! The managed block of `~/.ssh/config`: one `Host` entry per account between two marker
//! lines, replaced in place so that the rest of the file is left as it was.

use crate::models::{Account, spec_host};
use crate::storage::texts;
use crate::text::{chars_of, contains, contains_seq, copy_range, matches_at, occurs_at, string_of};
use vstd::prelude::*;
use vstd::string::*;

verus! {

/// Whether the provider's host key is already trusted.
#[derive(Debug, Clone, Copy, PartialEq, Eq, Structural)]
pub enum HostKeyStatus {
    /// `known_hosts` mentions the host.
    Known,
    /// `known_hosts` exists but does not mention the host; SSH will add it.
    New,
    /// There is no `known_hosts` file; SSH will create it.
    Unknown,
}

/// The host-key status for `host` given the content of `known_hosts`, if the file exists.
pub open spec fn spec_host_key_status(known_hosts: Option<Seq<char>>, host: Seq<char>) -> HostKeyStatus {
    match known_hosts {
        None => HostKeyStatus::Unknown,
        Some(c) => if contains_seq(c, host) {
            HostKeyStatus::Known
        } else {
            HostKeyStatus::New
        },
    }
}

/// Classifies the provider's host key from the content of `known_hosts`, if the file exists.
pub fn host_key_status(known_hosts: Option<&str>, host: &str) -> (r: HostKeyStatus)
    ensures
        r == spec_host_key_status(
            match known_hosts {
                Some(c) => Some(c@),
                None => None,
            },
            host@,
        ),
{
    match known_hosts {
        None => HostKeyStatus::Unknown,
        Some(c) => if contains(&chars_of(c), &chars_of(host)) {
            HostKeyStatus::Known
        } else {
            HostKeyStatus::New
        },
    }
}

/// What an `ssh -T` probe of a provider showed.
#[derive(Debug, Clone, Copy, PartialEq, Eq, Structural)]
pub enum SshConnectionState {
    /// The provider greeted the account by name.
    Authenticated,
    /// The SSH exchange succeeded but the provider refused a shell without a greeting.
    ConnectedWithoutShell,
    /// Authentication or the connection failed.
    Failed,
}

/// The provider greets an authenticated key (GitHub and Gitea-based hosts, GitLab, Bitbucket).
pub open spec fn greets(stderr: Seq<char>) -> bool {
    ||| contains_seq(stderr, "successfully authenticated"@)
    ||| contains_seq(stderr, "Welcome to GitLab"@)
    ||| contains_seq(stderr, "You can use git to connect to Bitbucket"@)
}

/// The provider refused a shell.
pub open spec fn refuses_shell(stderr: Seq<char>) -> bool {
    ||| contains_seq(stderr, "does not provide shell access"@)
    ||| contains_seq(stderr, "PTY allocation request failed"@)
}

/// The state a probe's standard error shows: a greeting means authenticated, else a
/// refused shell means connected, else failed.
pub open spec fn spec_probe_state(stderr: Seq<char>) -> SshConnectionState {
    if greets(stderr) {
        SshConnectionState::Authenticated
    } else if refuses_shell(stderr) {
        SshConnectionState::ConnectedWithoutShell
    } else {
        SshConnectionState::Failed
    }
}

/// Classifies an `ssh -T` probe by the provider's message on standard error.
pub fn classify_probe(stderr: &str) -> (r: SshConnectionState)
    ensures
        r == spec_probe_state(stderr@),
{
    let e = chars_of(stderr);
    if contains(&e, &chars_of("successfully authenticated")) || contains(&e, &chars_of("Welcome to GitLab"))
        || contains(&e, &chars_of("You can use git to connect to Bitbucket")) {
        SshConnectionState::Authenticated
    } else if contains(&e, &chars_of("does not provide shell access")) || contains(
        &e,
        &chars_of("PTY allocation request failed"),
    ) {
        SshConnectionState::ConnectedWithoutShell
    } else {
        SshConnectionState::Failed
    }
}


/// A failed probe whose message says `Permission denied`: the key may need its
/// passphrase, which batch-mode SSH cannot ask for, so the user is told to add the key
/// to the agent first.
pub fn suggests_agent(detail: &str) -> (r: bool)
    ensures
        r == contains_seq(detail@, "Permission denied"@),
{
    contains(&chars_of(detail), &chars_of("Permission denied"))
}

/// First line of the managed block.
pub open spec fn block_start() -> Seq<char> {
    "# >>> gitcore managed block >>>"@
}

/// Last line of the managed block.
pub open spec fn block_end() -> Seq<char> {
    "# <<< gitcore managed block <<<"@
}

/// The `Host` entry of one account.
pub open spec fn host_entry(alias: Seq<char>, host: Seq<char>, identity_file: Seq<char>) -> Seq<char> {
    "Host "@ + alias + "\n  HostName "@ + host + "\n  User git\n  IdentityFile "@ + identity_file
        + "\n  AddKeysToAgent yes\n  IdentitiesOnly yes\n\n"@
}

/// The entries of all accounts, in order.
pub open spec fn host_entries(accounts: Seq<Account>, identity_files: Seq<Seq<char>>) -> Seq<char>
    decreases accounts.len(),
{
    if accounts.len() == 0 || identity_files.len() != accounts.len() {
        Seq::empty()
    } else {
        host_entries(accounts.drop_last(), identity_files.drop_last()) + host_entry(
            accounts.last().host_alias@,
            spec_host(accounts.last().platform),
            identity_files.last(),
        )
    }
}

/// The managed block for the accounts, whose keys are at `identity_files`.
pub open spec fn spec_managed_block(accounts: Seq<Account>, identity_files: Seq<Seq<char>>) -> Seq<
    char,
> {
    block_start() + "\n\n"@ + host_entries(accounts, identity_files) + block_end() + "\n"@
}

/// `i` is the first occurrence of `p` in `s` at or after `from`.
pub open spec fn is_first_occurrence_from(s: Seq<char>, p: Seq<char>, from: int, i: int) -> bool {
    from <= i && occurs_at(s, p, i) && forall|j: int| from <= j < i ==> !occurs_at(s, p, j)
}

/// The first occurrence of `p` in `s` at or after `from`, if any.
pub open spec fn find_from(s: Seq<char>, p: Seq<char>, from: int) -> Option<int> {
    if exists|i: int| is_first_occurrence_from(s, p, from, i) {
        Some(choose|i: int| is_first_occurrence_from(s, p, from, i))
    } else {
        None
    }
}

/// Where the managed block sits in a config text: from the first start marker to the end
/// of the first end marker after it, including the line break that follows.
pub open spec fn block_span(text: Seq<char>) -> Option<(int, int)> {
    match find_from(text, block_start(), 0) {
        None => None,
        Some(s) => match find_from(text, block_end(), s + block_start().len()) {
            None => None,
            Some(e) => {
                let t = e + block_end().len();
                if t < text.len() && text[t] == '\n' {
                    Some((s, t + 1))
                } else {
                    Some((s, t))
                }
            },
        },
    }
}

/// The config text with its managed block replaced by `block`; a text without a complete
/// block gets `block` appended after an empty line.
pub open spec fn spec_splice_block(text: Seq<char>, block: Seq<char>) -> Seq<char> {
    match block_span(text) {
        Some((s, t)) => text.subrange(0, s) + block + text.subrange(t, text.len() as int),
        None => if text.len() == 0 {
            block
        } else if text.last() == '\n' {
            text.push('\n') + block
        } else {
            text.push('\n').push('\n') + block
        },
    }
}

/// The managed block of a config text, if it has one.
pub open spec fn extract_block(text: Seq<char>) -> Option<Seq<char>> {
    match block_span(text) {
        Some((s, t)) => Some(text.subrange(s, t)),
        None => None,
    }
}

proof fn lemma_find_from(s: Seq<char>, p: Seq<char>, from: int, i: int)
    requires
        is_first_occurrence_from(s, p, from, i),
    ensures
        find_from(s, p, from) == Some(i),
{
    let k = choose|k: int| is_first_occurrence_from(s, p, from, k);
    assert(is_first_occurrence_from(s, p, from, k));
    if k < i {
        assert(!occurs_at(s, p, k));
    } else if i < k {
        assert(!occurs_at(s, p, i));
    }
}

/// The first occurrence of `p` in `s` at or after `from`.
fn find_from_exec(s: &[char], p: &[char], from: usize) -> (r: Option<usize>)
    ensures
        match r {
            Some(i) => find_from(s@, p@, from as int) == Some(i as int),
            None => find_from(s@, p@, from as int) is None,
        },
{
    let mut i = from;
    while i < s.len()
        invariant
            from <= i,
            forall|j: int| from <= j < i ==> !occurs_at(s@, p@, j),
        decreases s@.len() - i,
    {
        if matches_at(s, p, i) {
            proof {
                lemma_find_from(s@, p@, from as int, i as int);
            }
            return Some(i);
        }
        i = i + 1;
    }
    if matches_at(s, p, i) {
        proof {
            lemma_find_from(s@, p@, from as int, i as int);
        }
        return Some(i);
    }
    assert forall|k: int| !is_first_occurrence_from(s@, p@, from as int, k) by {
        if from <= k && occurs_at(s@, p@, k) {
            assert(k <= s@.len());
            assert(k < i || k == i);
        }
    }
    None
}

fn push_all(v: &mut Vec<char>, s: &[char])
    ensures
        final(v)@ == old(v)@ + s@,
{
    let mut i: usize = 0;
    let ghost base = old(v)@;
    while i < s.len()
        invariant
            i <= s@.len(),
            v@ == base + s@.subrange(0, i as int),
        decreases s@.len() - i,
    {
        v.push(s[i]);
        i = i + 1;
        assert(base + s@.subrange(0, i as int) =~= (base + s@.subrange(0, i - 1)).push(s@[i - 1]));
    }
    assert(s@.subrange(0, s@.len() as int) =~= s@);
}

fn push_str(v: &mut Vec<char>, s: &str)
    ensures
        final(v)@ == old(v)@ + s@,
{
    push_all(v, &chars_of(s));
}

/// The managed block for the accounts, whose private keys are at `identity_files`.
pub fn managed_block(accounts: &[Account], identity_files: &[String]) -> (r: String)
    requires
        identity_files@.len() == accounts@.len(),
    ensures
        r@ == spec_managed_block(accounts@, texts(identity_files@)),
{
    let mut v: Vec<char> = Vec::new();
    push_str(&mut v, "# >>> gitcore managed block >>>");
    push_str(&mut v, "\n\n");
    let ghost head = v@;
    let mut i: usize = 0;
    assert(v@ =~= head + host_entries(accounts@.subrange(0, 0), texts(identity_files@).subrange(0, 0)));
    while i < accounts.len()
        invariant
            identity_files@.len() == accounts@.len(),
            i <= accounts@.len(),
            v@ == head + host_entries(
                accounts@.subrange(0, i as int),
                texts(identity_files@).subrange(0, i as int),
            ),
        decreases accounts@.len() - i,
    {
        let a = &accounts[i];
        assert(accounts@.subrange(0, i + 1).drop_last() =~= accounts@.subrange(0, i as int));
        assert(texts(identity_files@).subrange(0, i + 1).drop_last() =~= texts(
            identity_files@,
        ).subrange(0, i as int));
        let ghost before = v@;
        push_str(&mut v, "Host ");
        push_str(&mut v, a.host_alias.as_str());
        push_str(&mut v, "\n  HostName ");
        push_str(&mut v, a.platform.host());
        push_str(&mut v, "\n  User git\n  IdentityFile ");
        push_str(&mut v, identity_files[i].as_str());
        push_str(&mut v, "\n  AddKeysToAgent yes\n  IdentitiesOnly yes\n\n");
        assert(v@ =~= before + host_entry(a.host_alias@, spec_host(a.platform), identity_files@[i as int]@));
        i = i + 1;
    }
    assert(accounts@.subrange(0, i as int) =~= accounts@);
    assert(texts(identity_files@).subrange(0, i as int) =~= texts(identity_files@));
    push_str(&mut v, "# <<< gitcore managed block <<<");
    push_str(&mut v, "\n");
    string_of(&v)
}

/// Replaces the managed block of a config text with `block`, keeping everything else.
pub fn splice_block(text: &str, block: &str) -> (r: String)
    ensures
        r@ == spec_splice_block(text@, block@),
{
    let t = chars_of(text);
    let start = chars_of("# >>> gitcore managed block >>>");
    let end = chars_of("# <<< gitcore managed block <<<");
    let mut out: Vec<char> = Vec::new();
    if let Some(s) = find_from_exec(&t, &start, 0) {
        if s <= t.len() && start.len() <= t.len() - s {
            if let Some(e) = find_from_exec(&t, &end, s + start.len()) {
                let stop = e + end.len();
                let after = if stop < t.len() && t[stop] == '\n' {
                    stop + 1
                } else {
                    stop
                };
                push_all(&mut out, &copy_range(&t, 0, s));
                push_str(&mut out, block);
                push_all(&mut out, &copy_range(&t, after, t.len()));
                return string_of(&out);
            }
        }
    }
    push_all(&mut out, &t);
    if t.len() > 0 {
        if t[t.len() - 1] != '\n' {
            out.push('\n');
        }
        out.push('\n');
    }
    push_str(&mut out, block);
    string_of(&out)
}


/// A block fit for a config file: it starts with the start marker, ends with the end
/// marker and a line break, and holds `#` only where the two markers begin.
pub open spec fn proper_block(b: Seq<char>) -> bool {
    &&& b.len() >= block_start().len() + block_end().len() + 1
    &&& crate::text::is_prefix(block_start(), b)
    &&& crate::text::is_suffix(block_end().push('\n'), b)
    &&& forall|i: int|
        0 <= i < b.len() && #[trigger] b[i] == '#' ==> i == 0 || i == b.len() - block_end().len() - 1
}

/// The markers begin with `#`, hold no other `#`, and hold no line break.
proof fn lemma_markers()
    ensures
        block_start().len() == 31,
        block_end().len() == 31,
        block_start()[0] == '#',
        block_end()[0] == '#',
        forall|k: int| 0 < k < block_start().len() ==> #[trigger] block_start()[k] != '#',
        forall|k: int| 0 < k < block_end().len() ==> #[trigger] block_end()[k] != '#',
        forall|k: int| 0 <= k < block_start().len() ==> #[trigger] block_start()[k] != '\n',
{
    reveal_strlit("# >>> gitcore managed block >>>");
    reveal_strlit("# <<< gitcore managed block <<<");
}

/// A block placed after text without a start marker is found again exactly.
proof fn lemma_span_of_placed_block(pre: Seq<char>, b: Seq<char>, post: Seq<char>)
    requires
        proper_block(b),
        forall|j: int| !occurs_at(pre, block_start(), j),
    ensures
        block_span(pre + b + post) == Some((pre.len() as int, (pre.len() + b.len()) as int)),
{
    lemma_markers();
    let x = pre + b + post;
    let st = block_start();
    let en = block_end();
    let n = pre.len() as int;
    assert(x.subrange(n, n + st.len()) =~= b.subrange(0, st.len() as int));
    assert(occurs_at(x, st, n));
    assert forall|j: int| 0 <= j < n implies !occurs_at(x, st, j) by {
        if occurs_at(x, st, j) {
            if j + st.len() <= n {
                assert(pre.subrange(j, j + st.len()) =~= x.subrange(j, j + st.len()));
                assert(occurs_at(pre, st, j));
            } else {
                let k = n - j;
                assert(x.subrange(j, j + st.len())[k] == x[n]);
                assert(x[n] == b[0]);
                assert(b[0] == st[0]);
                assert(st[k] == '#');
            }
        }
    }
    lemma_find_from(x, st, 0, n);
    let e = n + b.len() - en.len() - 1;
    assert(x.subrange(e, e + en.len()) =~= b.subrange(b.len() - en.len() - 1, b.len() - 1));
    assert(b.subrange(b.len() - en.len() - 1, b.len() - 1) =~= en) by {
        assert(b.subrange(b.len() - (en.len() + 1), b.len() as int) == en.push('\n'));
        assert forall|k: int| 0 <= k < en.len() implies b.subrange(
            b.len() - en.len() - 1,
            b.len() - 1,
        )[k] == en[k] by {
            assert(b.subrange(b.len() - (en.len() + 1), b.len() as int)[k] == en.push('\n')[k]);
        }
    }
    assert(occurs_at(x, en, e));
    assert forall|j: int| n + st.len() <= j < e implies !occurs_at(x, en, j) by {
        if occurs_at(x, en, j) {
            assert(x.subrange(j, j + en.len())[0] == x[j]);
            assert(x[j] == b[j - n]);
            assert(b[j - n] == '#');
        }
    }
    lemma_find_from(x, en, n + st.len(), e);
    let t = e + en.len();
    assert(x[t] == b[b.len() - 1]);
    assert(b[b.len() - 1] == '\n') by {
        assert(b.subrange(b.len() - (en.len() + 1), b.len() as int) == en.push('\n'));
        assert(b.subrange(b.len() - (en.len() + 1), b.len() as int)[en.len() as int] == '\n');
    }
}

/// A config text with a complete managed block, or without any start marker.
pub open spec fn spliceable(text: Seq<char>) -> bool {
    block_span(text) is Some || !contains_seq(text, block_start())
}

/// The text kept before the block when a block is spliced in.
pub open spec fn kept_before(text: Seq<char>) -> Seq<char> {
    match block_span(text) {
        Some((s, t)) => text.subrange(0, s),
        None => if text.len() == 0 {
            text
        } else if text.last() == '\n' {
            text.push('\n')
        } else {
            text.push('\n').push('\n')
        },
    }
}

/// The text kept after the block when a block is spliced in.
pub open spec fn kept_after(text: Seq<char>) -> Seq<char> {
    match block_span(text) {
        Some((s, t)) => text.subrange(t, text.len() as int),
        None => Seq::empty(),
    }
}

proof fn lemma_splice_shape(text: Seq<char>, block: Seq<char>)
    requires
        spliceable(text),
    ensures
        spec_splice_block(text, block) == kept_before(text) + block + kept_after(text),
        forall|j: int| !occurs_at(kept_before(text), block_start(), j),
{
    lemma_markers();
    let st = block_start();
    match block_span(text) {
        Some((s, t)) => {
            assert(spec_splice_block(text, block) =~= kept_before(text) + block + kept_after(text));
            let pre = text.subrange(0, s);
            let s0 = choose|i: int| is_first_occurrence_from(text, st, 0, i);
            assert(is_first_occurrence_from(text, st, 0, s0));
            assert forall|j: int| !occurs_at(pre, st, j) by {
                if occurs_at(pre, st, j) {
                    assert(text.subrange(j, j + st.len()) =~= pre.subrange(j, j + st.len()));
                    assert(occurs_at(text, st, j));
                }
            }
        },
        None => {
            assert(spec_splice_block(text, block) =~= kept_before(text) + block + kept_after(text));
            let pre = kept_before(text);
            assert forall|j: int| !occurs_at(pre, st, j) by {
                if occurs_at(pre, st, j) {
                    if j + st.len() <= text.len() {
                        assert(text.subrange(j, j + st.len()) =~= pre.subrange(j, j + st.len()));
                        assert(occurs_at(text, st, j));
                        assert(contains_seq(text, st));
                    } else {
                        let k = text.len() - j;
                        assert(pre.subrange(j, j + st.len())[k] == pre[text.len() as int]);
                        assert(pre[text.len() as int] == '\n');
                    }
                }
            }
        },
    }
}

/// After the managed block is replaced by a proper block, reading the block back gives
/// exactly that block.
pub proof fn lemma_splice_then_extract(text: Seq<char>, block: Seq<char>)
    requires
        spliceable(text),
        proper_block(block),
    ensures
        extract_block(spec_splice_block(text, block)) == Some(block),
{
    lemma_splice_shape(text, block);
    let pre = kept_before(text);
    let post = kept_after(text);
    lemma_span_of_placed_block(pre, block, post);
    let x = pre + block + post;
    assert(x.subrange(pre.len() as int, (pre.len() + block.len()) as int) =~= block);
}

/// Replacing the managed block twice is the same as replacing it once with the second
/// block; everything outside the block is left as it was.
pub proof fn lemma_splice_twice(text: Seq<char>, b1: Seq<char>, b2: Seq<char>)
    requires
        spliceable(text),
        proper_block(b1),
        proper_block(b2),
    ensures
        spec_splice_block(spec_splice_block(text, b1), b2) == spec_splice_block(text, b2),
{
    lemma_splice_shape(text, b1);
    lemma_splice_shape(text, b2);
    let pre = kept_before(text);
    let post = kept_after(text);
    lemma_span_of_placed_block(pre, b1, post);
    let x = pre + b1 + post;
    assert(x.subrange(0, pre.len() as int) =~= pre);
    assert(x.subrange((pre.len() + b1.len()) as int, x.len() as int) =~= post);
}


/// The text holds no `#`.
pub open spec fn hash_free(s: Seq<char>) -> bool {
    forall|i: int| 0 <= i < s.len() ==> #[trigger] s[i] != '#'
}

proof fn lemma_hash_free_concat(a: Seq<char>, b: Seq<char>)
    requires
        hash_free(a),
        hash_free(b),
    ensures
        hash_free(a + b),
{
    assert forall|i: int| 0 <= i < (a + b).len() implies #[trigger] (a + b)[i] != '#' by {
        if i < a.len() {
            assert((a + b)[i] == a[i]);
        } else {
            assert((a + b)[i] == b[i - a.len()]);
        }
    }
}

proof fn lemma_entries_hash_free(accounts: Seq<Account>, files: Seq<Seq<char>>)
    requires
        files.len() == accounts.len(),
        forall|i: int| 0 <= i < accounts.len() ==> hash_free(#[trigger] accounts[i].host_alias@),
        forall|i: int| 0 <= i < files.len() ==> hash_free(#[trigger] files[i]),
    ensures
        hash_free(host_entries(accounts, files)),
    decreases accounts.len(),
{
    if accounts.len() > 0 {
        let pa = accounts.drop_last();
        let pf = files.drop_last();
        assert forall|i: int| 0 <= i < pa.len() implies hash_free(#[trigger] pa[i].host_alias@) by {
            assert(pa[i] == accounts[i]);
        }
        assert forall|i: int| 0 <= i < pf.len() implies hash_free(#[trigger] pf[i]) by {
            assert(pf[i] == files[i]);
        }
        lemma_entries_hash_free(pa, pf);
        let a = accounts.last();
        let f = files.last();
        assert(hash_free(a.host_alias@)) by {
            assert(accounts[accounts.len() - 1] == a);
        }
        assert(hash_free(f)) by {
            assert(files[files.len() - 1] == f);
        }
        let host = spec_host(a.platform);
        reveal_strlit("github.com");
        reveal_strlit("gitlab.com");
        reveal_strlit("codeberg.org");
        reveal_strlit("bitbucket.org");
        reveal_strlit("Host ");
        reveal_strlit("\n  HostName ");
        reveal_strlit("\n  User git\n  IdentityFile ");
        reveal_strlit("\n  AddKeysToAgent yes\n  IdentitiesOnly yes\n\n");
        assert(hash_free(host));
        assert(hash_free("Host "@));
        assert(hash_free("\n  HostName "@));
        assert(hash_free("\n  User git\n  IdentityFile "@));
        assert(hash_free("\n  AddKeysToAgent yes\n  IdentitiesOnly yes\n\n"@));
        lemma_hash_free_concat("Host "@, a.host_alias@);
        lemma_hash_free_concat("Host "@ + a.host_alias@, "\n  HostName "@);
        lemma_hash_free_concat("Host "@ + a.host_alias@ + "\n  HostName "@, host);
        lemma_hash_free_concat(
            "Host "@ + a.host_alias@ + "\n  HostName "@ + host,
            "\n  User git\n  IdentityFile "@,
        );
        lemma_hash_free_concat(
            "Host "@ + a.host_alias@ + "\n  HostName "@ + host + "\n  User git\n  IdentityFile "@,
            f,
        );
        lemma_hash_free_concat(
            "Host "@ + a.host_alias@ + "\n  HostName "@ + host + "\n  User git\n  IdentityFile "@
                + f,
            "\n  AddKeysToAgent yes\n  IdentitiesOnly yes\n\n"@,
        );
        lemma_hash_free_concat(host_entries(pa, pf), host_entry(a.host_alias@, host, f));
    }
}

/// The block rendered for accounts whose host aliases and key paths hold no `#` is a
/// proper block, so it is found again in the config file it is spliced into.
pub proof fn lemma_managed_block_proper(accounts: Seq<Account>, identity_files: Seq<Seq<char>>)
    requires
        identity_files.len() == accounts.len(),
        forall|i: int| 0 <= i < accounts.len() ==> hash_free(#[trigger] accounts[i].host_alias@),
        forall|i: int| 0 <= i < identity_files.len() ==> hash_free(#[trigger] identity_files[i]),
    ensures
        proper_block(spec_managed_block(accounts, identity_files)),
{
    lemma_markers();
    lemma_entries_hash_free(accounts, identity_files);
    reveal_strlit("\n\n");
    reveal_strlit("\n");
    let st = block_start();
    let en = block_end();
    let mid = "\n\n"@ + host_entries(accounts, identity_files);
    assert(hash_free("\n\n"@));
    lemma_hash_free_concat("\n\n"@, host_entries(accounts, identity_files));
    let b = spec_managed_block(accounts, identity_files);
    assert(b =~= st + mid + en.push('\n'));
    assert(b.subrange(0, st.len() as int) =~= st);
    assert(b.subrange(b.len() - (en.len() + 1), b.len() as int) =~= en.push('\n'));
    assert forall|i: int| 0 <= i < b.len() && #[trigger] b[i] == '#' implies i == 0 || i == b.len()
        - en.len() - 1 by {
        if i < st.len() {
            assert(b[i] == st[i]);
        } else if i < st.len() + mid.len() {
            assert(b[i] == mid[i - st.len()]);
        } else if i < st.len() + mid.len() + en.len() {
            assert(b[i] == en[i - st.len() - mid.len()]);
        } else {
            assert(b[i] == '\n');
        }
    }
}

proof fn lemma_occurs_inside(a: Seq<char>, s: Seq<char>, b: Seq<char>, p: Seq<char>, k: int)
    requires
        occurs_at(s, p, k),
    ensures
        occurs_at(a + s + b, p, a.len() + k),
{
    assert((a + s + b).subrange(a.len() + k, a.len() + k + p.len()) =~= s.subrange(k, k + p.len()));
}

proof fn lemma_entries_hold_entry(accounts: Seq<Account>, files: Seq<Seq<char>>, i: int) -> (k: int)
    requires
        files.len() == accounts.len(),
        0 <= i < accounts.len(),
    ensures
        occurs_at(
            host_entries(accounts, files),
            host_entry(accounts[i].host_alias@, spec_host(accounts[i].platform), files[i]),
            k,
        ),
    decreases accounts.len(),
{
    let n = accounts.len() - 1;
    let pa = accounts.drop_last();
    let pf = files.drop_last();
    let e = host_entry(accounts[i].host_alias@, spec_host(accounts[i].platform), files[i]);
    let last = host_entry(accounts.last().host_alias@, spec_host(accounts.last().platform), files.last());
    assert(host_entries(accounts, files) == host_entries(pa, pf) + last);
    if i == n {
        assert(e.subrange(0, e.len() as int) =~= e);
        assert(occurs_at(e, e, 0));
        lemma_occurs_inside(host_entries(pa, pf), e, Seq::empty(), e, 0);
        assert(host_entries(pa, pf) + e + Seq::<char>::empty() =~= host_entries(pa, pf) + e);
        host_entries(pa, pf).len() as int
    } else {
        assert(pa[i] == accounts[i]);
        assert(pf[i] == files[i]);
        let k = lemma_entries_hold_entry(pa, pf, i);
        lemma_occurs_inside(Seq::empty(), host_entries(pa, pf), last, e, k);
        assert(Seq::<char>::empty() + host_entries(pa, pf) + last =~= host_entries(pa, pf) + last);
        k
    }
}

/// Every account of the list gets its `Host` entry in the managed block: its alias, its
/// platform's host and its key file. So after an account is added and the block is
/// rewritten, SSH finds an entry for each account, the new one included.
pub proof fn lemma_block_has_entry(accounts: Seq<Account>, identity_files: Seq<Seq<char>>, i: int)
    requires
        identity_files.len() == accounts.len(),
        0 <= i < accounts.len(),
    ensures
        contains_seq(
            spec_managed_block(accounts, identity_files),
            host_entry(accounts[i].host_alias@, spec_host(accounts[i].platform), identity_files[i]),
        ),
{
    let e = host_entry(accounts[i].host_alias@, spec_host(accounts[i].platform), identity_files[i]);
    let k = lemma_entries_hold_entry(accounts, identity_files, i);
    let head = block_start() + "\n\n"@;
    let tail = block_end() + "\n"@;
    lemma_occurs_inside(head, host_entries(accounts, identity_files), tail, e, k);
    assert(spec_managed_block(accounts, identity_files) =~= head + host_entries(accounts, identity_files)
        + tail);
    assert(occurs_at(spec_managed_block(accounts, identity_files), e, head.len() + k));
}

/// Replacing the managed block keeps everything outside it: a config text made of
/// user text `pre` (with no start marker), a proper block and user text `post` becomes
/// `pre`, the new block, then `post`, unchanged on both sides.
pub proof fn lemma_splice_keeps_user_text(pre: Seq<char>, old_block: Seq<char>, post: Seq<char>, block: Seq<char>)
    requires
        !contains_seq(pre, block_start()),
        proper_block(old_block),
    ensures
        spec_splice_block(pre + old_block + post, block) == pre + block + post,
{
    assert forall|j: int| !occurs_at(pre, block_start(), j) by {
        if occurs_at(pre, block_start(), j) {
            assert(contains_seq(pre, block_start()));
        }
    }
    lemma_span_of_placed_block(pre, old_block, post);
    let x = pre + old_block + post;
    assert(x.subrange(0, pre.len() as int) =~= pre);
    assert(x.subrange((pre.len() + old_block.len()) as int, x.len() as int) =~= post);
}

} // verus!
