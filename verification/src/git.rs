//! Rewriting repository URLs so that they go through an account's SSH host alias.

use crate::models::{is_name_char, is_valid_account_name, valid_account_name};
use crate::text::{
    after_first, chars_of, occurs_at, contains, contains_seq, copy_range, find_char, first_index,
    is_first_index, is_prefix, join, join_chars, lemma_first_index, non_empty, non_empty_chars, split, split_chars,
    starts_with, string_of, strip_suffix_all, strip_suffix_all_chars, trim, trim_chars, views,
};
use vstd::prelude::*;

verus! {

/// The host names a known hosting provider: it contains one of the supported domains.
pub open spec fn known_provider(host: Seq<char>) -> bool {
    ||| contains_seq(host, "github.com"@)
    ||| contains_seq(host, "gitlab.com"@)
    ||| contains_seq(host, "codeberg.org"@)
    ||| contains_seq(host, "bitbucket.org"@)
}

/// `alias:rest`.
pub open spec fn aliased(alias: Seq<char>, rest: Seq<char>) -> Seq<char> {
    alias.push(':') + rest
}

/// The URL with surrounding whitespace and any trailing `.git` suffixes removed.
pub open spec fn normalized_url(url: Seq<char>) -> Seq<char> {
    strip_suffix_all(trim(url), ".git"@)
}

/// The part after `https://` (or else after `http://`), when the URL has such a scheme.
pub open spec fn http_path(u: Seq<char>) -> Option<Seq<char>> {
    if is_prefix("https://"@, u) {
        Some(u.skip("https://"@.len() as int))
    } else if is_prefix("http://"@, u) {
        Some(u.skip("http://"@.len() as int))
    } else {
        None
    }
}

/// `i` is the first segment that names a known provider.
pub open spec fn is_first_provider(parts: Seq<Seq<char>>, i: int) -> bool {
    0 <= i < parts.len() && known_provider(parts[i]) && forall|j: int|
        0 <= j < i ==> !known_provider(#[trigger] parts[j])
}

/// The first segment that names a known provider (meaningful when there is one).
pub open spec fn first_provider(parts: Seq<Seq<char>>) -> int {
    choose|i: int| is_first_provider(parts, i)
}

/// The `git@host:path` form: the part after the first `:` following `git@`.
pub open spec fn scp_rest(u: Seq<char>) -> Option<Seq<char>> {
    if is_prefix("git@"@, u) && u.skip("git@"@.len() as int).contains(':') {
        Some(after_first(u.skip("git@"@.len() as int), ':'))
    } else {
        None
    }
}

/// The `http(s)://provider/path` form: the non-empty path segments after the provider.
pub open spec fn http_rest(u: Seq<char>) -> Option<Seq<char>> {
    match http_path(u) {
        Some(path) => {
            let parts = non_empty(split(path, '/'));
            if parts.len() >= 2 && known_provider(parts[0]) {
                Some(join(parts.skip(1), '/'))
            } else {
                None
            }
        },
        None => None,
    }
}

/// The `ssh://provider/path` form: everything after the provider segment.
pub open spec fn ssh_rest(u: Seq<char>) -> Option<Seq<char>> {
    if is_prefix("ssh://"@, u) {
        let parts = split(u.skip("ssh://"@.len() as int), '/');
        if parts.len() >= 2 && known_provider(parts[0]) {
            Some(join(parts.skip(1), '/'))
        } else {
            None
        }
    } else {
        None
    }
}

/// A URL without user or scheme: the segments after the first provider segment, if that
/// segment is not the last one; otherwise the whole URL.
pub open spec fn bare_rest(u: Seq<char>) -> Seq<char> {
    let parts = split(u, '/');
    if (exists|i: int| is_first_provider(parts, i)) && first_provider(parts) + 1 < parts.len() {
        join(parts.skip(first_provider(parts) + 1), '/')
    } else {
        u
    }
}

/// The `alias:path` form that the rewriting itself produces: the part after the first
/// `:`, when the text before it is a non-empty run of account-name characters (ASCII
/// letters, digits, `-`, `_`; so no `/`, `@` or `.`).
pub open spec fn alias_rest(u: Seq<char>) -> Option<Seq<char>> {
    if u.contains(':') && valid_account_name(u.take(first_index(u, ':'))) {
        Some(after_first(u, ':'))
    } else {
        None
    }
}

/// The remote URL that reaches the repository of `url` through the SSH host alias `alias`.
pub open spec fn spec_convert_to_host(url: Seq<char>, alias: Seq<char>) -> Seq<char> {
    let u = normalized_url(url);
    if scp_rest(u) is Some {
        aliased(alias, scp_rest(u)->0)
    } else if http_rest(u) is Some {
        aliased(alias, http_rest(u)->0)
    } else if ssh_rest(u) is Some {
        aliased(alias, ssh_rest(u)->0)
    } else if !u.contains('@') && !contains_seq(u, "://"@) {
        if alias_rest(u) is Some {
            aliased(alias, alias_rest(u)->0)
        } else {
            aliased(alias, bare_rest(u))
        }
    } else {
        u
    }
}

/// The URL is rewritten to go through the alias (it is not kept as it was).
pub open spec fn rewritten(url: Seq<char>) -> bool {
    let u = normalized_url(url);
    ||| scp_rest(u) is Some
    ||| http_rest(u) is Some
    ||| ssh_rest(u) is Some
    ||| (!u.contains('@') && !contains_seq(u, "://"@))
}

proof fn lemma_split_whole(s: Seq<char>, d: char)
    requires
        !s.contains(d),
    ensures
        split(s, d) == seq![s],
    decreases s.len(),
{
    if s.len() == 0 {
        assert(s =~= Seq::<char>::empty());
    } else {
        let h = s.drop_last();
        assert(!h.contains(d)) by {
            if h.contains(d) {
                let k = choose|k: int| 0 <= k < h.len() && h[k] == d;
                assert(s[k] == d);
            }
        }
        lemma_split_whole(h, d);
        assert(h.push(s.last()) =~= s);
        assert(split(s, d) =~= seq![s]);
    }
}

proof fn lemma_split_after(a: Seq<char>, b: Seq<char>, d: char)
    requires
        !b.contains(d),
    ensures
        split(a.push(d) + b, d) == split(a, d).push(b),
    decreases b.len(),
{
    let s = a.push(d) + b;
    if b.len() == 0 {
        assert(s =~= a.push(d));
        assert(s.drop_last() =~= a);
        assert(b =~= Seq::<char>::empty());
    } else {
        let h = b.drop_last();
        assert(!h.contains(d)) by {
            if h.contains(d) {
                let k = choose|k: int| 0 <= k < h.len() && h[k] == d;
                assert(b[k] == d);
            }
        }
        lemma_split_after(a, h, d);
        assert(s.drop_last() =~= a.push(d) + h);
        assert(s.last() == b.last());
        assert(h.push(b.last()) =~= b);
        assert(split(s, d) =~= split(a, d).push(b));
    }
}

/// The repository URL `https://{host}/{owner}/{repo}` of a supported provider.
pub open spec fn provider_https_url(host: Seq<char>, owner: Seq<char>, repo: Seq<char>) -> Seq<char> {
    ("https://"@ + host).push('/') + owner.push('/') + repo
}

/// A supported provider's domain.
spec fn provider_domain(host: Seq<char>) -> bool {
    host == "github.com"@ || host == "gitlab.com"@ || host == "codeberg.org"@ || host
        == "bitbucket.org"@
}

proof fn lemma_no_slash_in_name(s: Seq<char>)
    requires
        valid_account_name(s),
    ensures
        !s.contains('/'),
        forall|k: int| 0 <= k < s.len() ==> #[trigger] s[k] != '.' && !crate::text::is_ws(s[k]),
{
    if s.contains('/') {
        let k = choose|k: int| 0 <= k < s.len() && s[k] == '/';
        assert(is_name_char(s[k]));
    }
    assert forall|k: int| 0 <= k < s.len() implies #[trigger] s[k] != '.' && !crate::text::is_ws(s[k]) by {
        assert(is_name_char(s[k]));
    }
}

proof fn lemma_provider_url_kept_whole(host: Seq<char>, owner: Seq<char>, repo: Seq<char>)
    requires
        provider_domain(host),
        valid_account_name(owner),
        valid_account_name(repo),
    ensures
        normalized_url(provider_https_url(host, owner, repo)) == provider_https_url(host, owner, repo),
        scp_rest(provider_https_url(host, owner, repo)) is None,
{
    reveal_strlit("https://");
    reveal_strlit("git@");
    reveal_strlit(".git");
    lemma_no_slash_in_name(owner);
    lemma_no_slash_in_name(repo);
    let u = provider_https_url(host, owner, repo);
    let head = "https://"@ + host;
    let n = head.len() as int;
    assert(u =~= head.push('/') + owner.push('/') + repo);
    assert(u[0] == 'h');
    assert(u.last() == repo[repo.len() - 1]);
    assert(crate::text::trim_start(u) == u);
    assert(crate::text::trim_end(u) == u);
    assert forall|k: int| n <= k < u.len() implies u[k] != '.' by {
        if k == n {
            assert(u[k] == '/');
        } else if k < n + 1 + owner.len() {
            assert(u[k] == owner[k - n - 1]);
        } else if k == n + 1 + owner.len() {
            assert(u[k] == '/');
        } else {
            assert(u[k] == repo[k - n - 2 - owner.len()]);
        }
    }
    if crate::text::is_suffix(".git"@, u) {
        assert(u.subrange(u.len() - 4, u.len() as int)[0] == ".git"@[0]);
        assert(u[u.len() - 4] == '.');
    }
    if is_prefix("git@"@, u) {
        assert(u.subrange(0, 4)[0] == 'g');
    }
}

proof fn lemma_three_parts(host: Seq<char>, owner: Seq<char>, repo: Seq<char>)
    requires
        !host.contains('/'),
        !owner.contains('/'),
        !repo.contains('/'),
    ensures
        split(host.push('/') + owner.push('/') + repo, '/') == seq![host, owner, repo],
{
    lemma_split_whole(host, '/');
    lemma_split_after(host, owner, '/');
    assert(host.push('/') + owner.push('/') + repo =~= (host.push('/') + owner).push('/') + repo);
    lemma_split_after(host.push('/') + owner, repo, '/');
    assert(seq![host].push(owner).push(repo) =~= seq![host, owner, repo]);
}

proof fn lemma_three_parts_kept(host: Seq<char>, owner: Seq<char>, repo: Seq<char>)
    requires
        host.len() > 0,
        owner.len() > 0,
        repo.len() > 0,
    ensures
        non_empty(seq![host, owner, repo]) == seq![host, owner, repo],
        join(seq![host, owner, repo].skip(1), '/') == owner.push('/') + repo,
{
    let parts = seq![host, owner, repo];
    assert(parts.drop_last() =~= seq![host, owner]);
    assert(seq![host, owner].drop_last() =~= seq![host]);
    assert(seq![host].drop_last() =~= Seq::<Seq<char>>::empty());
    assert(non_empty(Seq::<Seq<char>>::empty()) =~= Seq::<Seq<char>>::empty());
    assert(seq![host].last() == host);
    assert(non_empty(seq![host]) =~= seq![host]);
    assert(non_empty(seq![host, owner]) =~= seq![host, owner]);
    assert(non_empty(parts) =~= parts);
    assert(parts.skip(1) =~= seq![owner, repo]);
    assert(seq![owner, repo].drop_last() =~= seq![owner]);
    assert(join(seq![owner], '/') == owner);
}

proof fn lemma_whole_occurs(host: Seq<char>)
    ensures
        contains_seq(host, host),
{
    assert(host.subrange(0, host.len() as int) =~= host);
    assert(occurs_at(host, host, 0));
}

proof fn lemma_literal_no_slash(host: Seq<char>)
    requires
        host.len() > 0,
        forall|k: int| 0 <= k < host.len() ==> #[trigger] host[k] != '/',
    ensures
        !host.contains('/'),
{
}

proof fn lemma_provider_domain_known(host: Seq<char>)
    requires
        provider_domain(host),
    ensures
        known_provider(host),
        !host.contains('/'),
        host.len() > 0,
{
    lemma_whole_occurs(host);
    if host == "github.com"@ {
        assert(contains_seq(host, "github.com"@));
        reveal_strlit("github.com");
        lemma_literal_no_slash(host);
    } else if host == "gitlab.com"@ {
        assert(contains_seq(host, "gitlab.com"@));
        reveal_strlit("gitlab.com");
        lemma_literal_no_slash(host);
    } else if host == "codeberg.org"@ {
        assert(contains_seq(host, "codeberg.org"@));
        reveal_strlit("codeberg.org");
        lemma_literal_no_slash(host);
    } else {
        assert(contains_seq(host, "bitbucket.org"@));
        reveal_strlit("bitbucket.org");
        lemma_literal_no_slash(host);
    }
}

proof fn lemma_provider_url_path_text(host: Seq<char>, owner: Seq<char>, repo: Seq<char>)
    ensures
        http_path(provider_https_url(host, owner, repo)) == Some(host.push('/') + owner.push('/') + repo),
{
    reveal_strlit("https://");
    let u = provider_https_url(host, owner, repo);
    assert(u.subrange(0, 8) =~= "https://"@);
    assert(u.skip(8) =~= host.push('/') + owner.push('/') + repo);
}

proof fn lemma_provider_url_path(host: Seq<char>, owner: Seq<char>, repo: Seq<char>)
    requires
        provider_domain(host),
        valid_account_name(owner),
        valid_account_name(repo),
    ensures
        http_rest(provider_https_url(host, owner, repo)) == Some(owner.push('/') + repo),
{
    lemma_no_slash_in_name(owner);
    lemma_no_slash_in_name(repo);
    lemma_provider_domain_known(host);
    lemma_three_parts(host, owner, repo);
    lemma_three_parts_kept(host, owner, repo);
    lemma_provider_url_path_text(host, owner, repo);
    let u = provider_https_url(host, owner, repo);
    let path = host.push('/') + owner.push('/') + repo;
    let parts = non_empty(split(path, '/'));
    assert(parts == seq![host, owner, repo]);
    assert(parts[0] == host);
    assert(parts.len() >= 2);
}

/// An `https` URL of a repository on any supported provider (GitHub, GitLab, Codeberg,
/// Bitbucket) is rewritten to `{alias}:{owner}/{repo}`, so that SSH reaches it with the
/// account's key; it is never returned unchanged.
pub proof fn lemma_provider_https_url_rewritten(
    host: Seq<char>,
    owner: Seq<char>,
    repo: Seq<char>,
    alias: Seq<char>,
)
    requires
        host == "github.com"@ || host == "gitlab.com"@ || host == "codeberg.org"@ || host
            == "bitbucket.org"@,
        valid_account_name(owner),
        valid_account_name(repo),
    ensures
        spec_convert_to_host(provider_https_url(host, owner, repo), alias) == alias.push(':')
            + owner.push('/') + repo,
        spec_convert_to_host(provider_https_url(host, owner, repo), alias) != provider_https_url(
            host,
            owner,
            repo,
        ),
{
    lemma_provider_url_kept_whole(host, owner, repo);
    lemma_provider_url_path(host, owner, repo);
    let u = provider_https_url(host, owner, repo);
    let r = alias.push(':') + owner.push('/') + repo;
    assert(spec_convert_to_host(u, alias) == r);
    reveal_strlit("https://");
    let n = ("https://"@ + host).len() as int;
    assert(u =~= ("https://"@ + host).push('/') + (owner.push('/') + repo));
    assert(r =~= alias.push(':') + (owner.push('/') + repo));
    if r == u {
        assert(alias.len() == n);
        assert(r[n] == ':');
        assert(u[n] == '/');
    }
}

/// For every platform, the `https` URL of a repository on the platform's host is
/// rewritten to `{alias}:{owner}/{repo}`.
pub proof fn lemma_platform_https_url_rewritten(
    p: crate::models::Platform,
    owner: Seq<char>,
    repo: Seq<char>,
    alias: Seq<char>,
)
    requires
        valid_account_name(owner),
        valid_account_name(repo),
    ensures
        spec_convert_to_host(provider_https_url(crate::models::spec_host(p), owner, repo), alias)
            == alias.push(':') + owner.push('/') + repo,
{
    lemma_provider_https_url_rewritten(crate::models::spec_host(p), owner, repo, alias);
}

/// A rewritten URL starts with `alias:`.
pub proof fn lemma_rewritten_starts_with_alias(url: Seq<char>, alias: Seq<char>)
    requires
        rewritten(url),
    ensures
        is_prefix(alias.push(':'), spec_convert_to_host(url, alias)),
{
    let r = spec_convert_to_host(url, alias);
    let u = normalized_url(url);
    let rest = if scp_rest(u) is Some {
        scp_rest(u)->0
    } else if http_rest(u) is Some {
        http_rest(u)->0
    } else if ssh_rest(u) is Some {
        ssh_rest(u)->0
    } else if alias_rest(u) is Some {
        alias_rest(u)->0
    } else {
        bare_rest(u)
    };
    assert(r == alias.push(':') + rest);
    assert(r.subrange(0, alias.push(':').len() as int) =~= alias.push(':'));
}

/// Re-pointing a URL in the `alias:path` form at another alias swaps the alias instead of
/// nesting it: `a:rest` becomes `b:rest`, for an alias `a` made of account-name
/// characters and a URL without `@`, `://`, surrounding whitespace or `.git` ending.
pub proof fn lemma_switch_alias(a: Seq<char>, rest: Seq<char>, b: Seq<char>)
    requires
        valid_account_name(a),
        normalized_url(a.push(':') + rest) == a.push(':') + rest,
        !(a.push(':') + rest).contains('@'),
        !contains_seq(a.push(':') + rest, "://"@),
    ensures
        spec_convert_to_host(a.push(':') + rest, b) == b.push(':') + rest,
{
    let v = a.push(':') + rest;
    let k = a.len() as int;
    assert(v[k] == ':');
    assert forall|j: int| 0 <= j < k implies v[j] != ':' by {
        assert(v[j] == a[j]);
        assert(is_name_char(a[j]));
    }
    assert(is_first_index(v, ':', k));
    lemma_first_index(v, ':', k);
    assert(v.take(k) =~= a);
    assert(after_first(v, ':') =~= rest);
    reveal_strlit("git@");
    if is_prefix("git@"@, v) {
        assert(v.subrange(0, 4)[3] == v[3]);
        assert(v.contains('@'));
    }
    assert(scp_rest(v) is None);
    reveal_strlit("://");
    reveal_strlit("https://");
    reveal_strlit("http://");
    reveal_strlit("ssh://");
    if is_prefix("https://"@, v) {
        assert(v.subrange(5, 8) =~= v.subrange(0, 8).subrange(5, 8));
        assert("https://"@.subrange(5, 8) =~= "://"@);
        assert(v.subrange(0, 8) == "https://"@);
        assert(v.subrange(5, 8) == "://"@);
        assert(occurs_at(v, "://"@, 5));
    }
    if is_prefix("http://"@, v) {
        assert(v.subrange(4, 7) =~= v.subrange(0, 7).subrange(4, 7));
        assert("http://"@.subrange(4, 7) =~= "://"@);
        assert(v.subrange(0, 7) == "http://"@);
        assert(v.subrange(4, 7) == "://"@);
        assert(occurs_at(v, "://"@, 4));
    }
    if is_prefix("ssh://"@, v) {
        assert(v.subrange(3, 6) =~= v.subrange(0, 6).subrange(3, 6));
        assert("ssh://"@.subrange(3, 6) =~= "://"@);
        assert(v.subrange(0, 6) == "ssh://"@);
        assert(v.subrange(3, 6) == "://"@);
        assert(occurs_at(v, "://"@, 3));
    }
    assert(http_rest(v) is None);
    assert(ssh_rest(v) is None);
    assert(alias_rest(v) == Some(rest));
}

pub fn is_known_provider(host: &[char]) -> (r: bool)
    ensures
        r == known_provider(host@),
{
    contains(host, &chars_of("github.com")) || contains(host, &chars_of("gitlab.com")) || contains(
        host,
        &chars_of("codeberg.org"),
    ) || contains(host, &chars_of("bitbucket.org"))
}

fn aliased_string(alias: &[char], rest: &[char]) -> (r: String)
    ensures
        r@ == aliased(alias@, rest@),
{
    let mut v = copy_range(alias, 0, alias.len());
    v.push(':');
    let mut i: usize = 0;
    let ghost base = v@;
    while i < rest.len()
        invariant
            i <= rest@.len(),
            v@ == base + rest@.subrange(0, i as int),
        decreases rest@.len() - i,
    {
        v.push(rest[i]);
        i = i + 1;
        assert(base + rest@.subrange(0, i as int) =~= (base + rest@.subrange(0, i - 1)).push(
            rest@[i - 1],
        ));
    }
    assert(alias@.subrange(0, alias@.len() as int) =~= alias@);
    assert(v@ =~= aliased(alias@, rest@));
    string_of(&v)
}

fn scp_rest_exec(u: &[char]) -> (r: Option<Vec<char>>)
    ensures
        match r {
            Some(v) => scp_rest(u@) == Some(v@),
            None => scp_rest(u@) is None,
        },
{
    let git_at = chars_of("git@");
    if !starts_with(u, &git_at) {
        return None;
    }
    let p = copy_range(u, git_at.len(), u.len());
    match find_char(&p, ':') {
        Some(k) => {
            proof {
                lemma_first_index(p@, ':', k as int);
            }
            Some(copy_range(&p, k + 1, p.len()))
        },
        None => None,
    }
}

fn http_rest_exec(u: &[char]) -> (r: Option<Vec<char>>)
    ensures
        match r {
            Some(v) => http_rest(u@) == Some(v@),
            None => http_rest(u@) is None,
        },
{
    let https = chars_of("https://");
    let http = chars_of("http://");
    let path = if starts_with(u, &https) {
        copy_range(u, https.len(), u.len())
    } else if starts_with(u, &http) {
        copy_range(u, http.len(), u.len())
    } else {
        return None;
    };
    assert(http_path(u@) == Some(path@));
    let pieces = split_chars(&path, '/');
    let parts = non_empty_chars(&pieces);
    if parts.len() >= 2 && is_known_provider(&parts[0]) {
        let rest = join_chars(&parts, 1, '/');
        assert(views(parts@).subrange(1, parts@.len() as int) =~= views(parts@).skip(1));
        Some(rest)
    } else {
        None
    }
}

fn ssh_rest_exec(u: &[char]) -> (r: Option<Vec<char>>)
    ensures
        match r {
            Some(v) => ssh_rest(u@) == Some(v@),
            None => ssh_rest(u@) is None,
        },
{
    let ssh = chars_of("ssh://");
    if !starts_with(u, &ssh) {
        return None;
    }
    let path = copy_range(u, ssh.len(), u.len());
    let parts = split_chars(&path, '/');
    if parts.len() >= 2 && is_known_provider(&parts[0]) {
        let rest = join_chars(&parts, 1, '/');
        assert(views(parts@).subrange(1, parts@.len() as int) =~= views(parts@).skip(1));
        Some(rest)
    } else {
        None
    }
}

fn alias_rest_exec(u: &[char]) -> (r: Option<Vec<char>>)
    ensures
        match r {
            Some(v) => alias_rest(u@) == Some(v@),
            None => alias_rest(u@) is None,
        },
{
    match find_char(u, ':') {
        Some(k) => {
            proof {
                lemma_first_index(u@, ':', k as int);
            }
            assert(k < u.len());
            let head = copy_range(u, 0, k);
            assert(head@ =~= u@.take(k as int));
            if is_valid_account_name(string_of(&head).as_str()) {
                Some(copy_range(u, k + 1, u.len()))
            } else {
                None
            }
        },
        None => None,
    }
}

fn bare_rest_exec(u: &[char]) -> (r: Vec<char>)
    ensures
        r@ == bare_rest(u@),
{
    let parts = split_chars(u, '/');
    let ghost ps = views(parts@);
    let mut i: usize = 0;
    while i < parts.len()
        invariant
            i <= parts@.len(),
            ps == views(parts@),
            ps == split(u@, '/'),
            forall|j: int| 0 <= j < i ==> !known_provider(#[trigger] ps[j]),
        decreases parts@.len() - i,
    {
        if is_known_provider(&parts[i]) {
            assert(is_first_provider(ps, i as int));
            proof {
                lemma_first_provider(ps, i as int);
            }
            if i + 1 < parts.len() {
                let rest = join_chars(&parts, i + 1, '/');
                assert(ps.subrange(i + 1, parts@.len() as int) =~= ps.skip(i + 1));
                return rest;
            } else {
                return copy_range(u, 0, u.len());
            }
        }
        i = i + 1;
    }
    assert(!exists|k: int| is_first_provider(ps, k));
    copy_range(u, 0, u.len())
}

proof fn lemma_first_provider(parts: Seq<Seq<char>>, i: int)
    requires
        is_first_provider(parts, i),
    ensures
        first_provider(parts) == i,
{
    let k = first_provider(parts);
    assert(is_first_provider(parts, k));
    if k < i {
        assert(!known_provider(parts[k]));
    } else if i < k {
        assert(!known_provider(parts[i]));
    }
}

/// Rewrites a repository URL (`git@host:path`, `https://provider/path`,
/// `ssh://provider/path`, `provider/path` or `owner/repo`) into `alias:path`,
/// so that SSH connects with the account's key. URLs of unknown hosts that carry
/// a user or a scheme are returned normalized but otherwise unchanged.
pub fn convert_to_host(url: &str, host_alias: &str) -> (r: String)
    ensures
        r@ == spec_convert_to_host(url@, host_alias@),
{
    let raw = chars_of(url);
    let t = trim_chars(&raw);
    let u = strip_suffix_all_chars(&t, &chars_of(".git"));
    let alias = chars_of(host_alias);
    if let Some(rest) = scp_rest_exec(&u) {
        return aliased_string(&alias, &rest);
    }
    if let Some(rest) = http_rest_exec(&u) {
        return aliased_string(&alias, &rest);
    }
    if let Some(rest) = ssh_rest_exec(&u) {
        return aliased_string(&alias, &rest);
    }
    let at = find_char(&u, '@');
    if at.is_none() && !contains(&u, &chars_of("://")) {
        if let Some(rest) = alias_rest_exec(&u) {
            return aliased_string(&alias, &rest);
        }
        let rest = bare_rest_exec(&u);
        aliased_string(&alias, &rest)
    } else {
        string_of(&u)
    }
}

} // verus!
