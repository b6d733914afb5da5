//! Reading the secret signing keys out of `gpg --list-secret-keys --with-colons` output.

use crate::text::{
    chars_of, copy_range, find_char, first_index, lemma_first_index,
    lemma_split_nonempty, same_chars, split, split_chars, string_of, trim, trim_chars, views,
};
use vstd::prelude::*;

verus! {

/// A GPG secret key usable for commit signing.
#[derive(Debug, Clone)]
pub struct GpgKey {
    /// The key ID.
    pub id: String,
    /// The user name of the key's identity.
    pub name: String,
    /// The email address of the key's identity.
    pub email: String,
}

/// The text content of a key: `(id, name, email)`.
pub open spec fn key_view(k: GpgKey) -> (Seq<char>, Seq<char>, Seq<char>) {
    (k.id@, k.name@, k.email@)
}

/// A line with the `\r` of a `\r\n` ending removed.
pub open spec fn strip_cr(l: Seq<char>) -> Seq<char> {
    if l.len() > 0 && l.last() == '\r' {
        l.drop_last()
    } else {
        l
    }
}

/// `str::lines`: the text split at `\n` (or `\r\n`), with no empty line after a final ending.
pub open spec fn lines(s: Seq<char>) -> Seq<Seq<char>> {
    let p = split(s, '\n');
    let body = p.drop_last().map_values(|l: Seq<char>| strip_cr(l));
    if p.last().len() > 0 {
        body.push(p.last())
    } else {
        body
    }
}

/// The parser's state: the ID of the last `sec` record not yet paired with an identity,
/// and the keys found so far.
pub type GpgState = (Seq<char>, Seq<(Seq<char>, Seq<char>, Seq<char>)>);

/// One line of colon-separated output. A `sec` record with a key-ID field sets the
/// pending ID; a `uid` record with a user-ID field, while an ID is pending, yields a key
/// when the user ID holds `<` and `>`. `None` when the first `>` comes before the
/// first `<`, where the text cannot be cut into name and email.
pub open spec fn gpg_step(st: GpgState, line: Seq<char>) -> Option<GpgState> {
    let parts = split(line, ':');
    if parts[0] == "sec"@ {
        if parts.len() > 4 {
            Some((parts[4], st.1))
        } else {
            Some(st)
        }
    } else if parts[0] == "uid"@ && st.0.len() > 0 && parts.len() > 9 {
        let identity = parts[9];
        if identity.contains('<') && identity.contains('>') {
            let lt = first_index(identity, '<');
            let gt = first_index(identity, '>');
            if gt <= lt {
                None
            } else {
                Some(
                    (
                        Seq::<char>::empty(),
                        st.1.push(
                            (
                                st.0,
                                trim(identity.subrange(0, lt)),
                                trim(identity.subrange(lt + 1, gt)),
                            ),
                        ),
                    ),
                )
            }
        } else {
            Some(st)
        }
    } else {
        Some(st)
    }
}

/// The state after reading the lines `ls` in order, or `None` if a line cannot be read.
pub open spec fn gpg_fold(ls: Seq<Seq<char>>) -> Option<GpgState>
    decreases ls.len(),
{
    if ls.len() == 0 {
        Some((Seq::<char>::empty(), Seq::empty()))
    } else {
        match gpg_fold(ls.drop_last()) {
            None => None,
            Some(st) => gpg_step(st, ls.last()),
        }
    }
}

/// The keys listed in the output of a `gpg` run: none when the run failed, otherwise
/// those read from its standard output (`None` when the output cannot be read).
pub open spec fn spec_gpg_keys(success: bool, stdout: Seq<char>) -> Option<
    Seq<(Seq<char>, Seq<char>, Seq<char>)>,
> {
    if !success {
        Some(Seq::empty())
    } else {
        match gpg_fold(lines(stdout)) {
            Some(st) => Some(st.1),
            None => None,
        }
    }
}

proof fn lemma_fold_none_persists(ls: Seq<Seq<char>>, k: int)
    requires
        0 <= k <= ls.len(),
        gpg_fold(ls.subrange(0, k)) is None,
    ensures
        gpg_fold(ls) is None,
    decreases ls.len() - k,
{
    if k < ls.len() {
        assert(ls.subrange(0, k + 1).drop_last() =~= ls.subrange(0, k));
        lemma_fold_none_persists(ls, k + 1);
    } else {
        assert(ls.subrange(0, k) =~= ls);
    }
}

/// The lines of a text.
pub fn lines_of(s: &[char]) -> (r: Vec<Vec<char>>)
    ensures
        views(r@) == lines(s@),
{
    let parts = split_chars(s, '\n');
    proof {
        lemma_split_nonempty(s@, '\n');
    }
    let ghost p = views(parts@);
    let mut r: Vec<Vec<char>> = Vec::new();
    let mut i: usize = 0;
    while i < parts.len() - 1
        invariant
            p == views(parts@),
            p == split(s@, '\n'),
            parts@.len() >= 1,
            i + 1 <= parts@.len(),
            views(r@) == p.drop_last().subrange(0, i as int).map_values(|l: Seq<char>| strip_cr(l)),
        decreases parts@.len() - i,
    {
        let line = &parts[i];
        let n = line.len();
        let stripped = if n > 0 && line[n - 1] == '\r' {
            copy_range(line, 0, n - 1)
        } else {
            copy_range(line, 0, n)
        };
        assert(line@.subrange(0, n as int) =~= line@);
        if n > 0 {
            assert(line@.subrange(0, n - 1) =~= line@.drop_last());
        }
        let ghost rv = views(r@);
        r.push(stripped);
        assert(views(r@) =~= rv.push(strip_cr(p[i as int])));
        assert(p.drop_last().subrange(0, i + 1).map_values(|l: Seq<char>| strip_cr(l)) =~= p.drop_last().subrange(
            0,
            i as int,
        ).map_values(|l: Seq<char>| strip_cr(l)).push(strip_cr(p[i as int])));
        i = i + 1;
    }
    assert(p.drop_last().subrange(0, i as int) =~= p.drop_last());
    let last = &parts[parts.len() - 1];
    if last.len() > 0 {
        let ghost rv = views(r@);
        r.push(copy_range(last, 0, last.len()));
        assert(last@.subrange(0, last@.len() as int) =~= last@);
        assert(views(r@) =~= rv.push(p.last()));
    }
    r
}

fn is_word(s: &[char], w: &str) -> (r: bool)
    ensures
        r == (s@ == w@),
{
    same_chars(s, &chars_of(w))
}

/// The keys that a `gpg --list-secret-keys --with-colons` run lists: none when the
/// run did not succeed, otherwise those read from its standard output. `None` when a
/// user ID puts `>` before `<`, which cannot be cut into name and email.
pub fn list_gpg_keys(success: bool, stdout: &str) -> (r: Option<Vec<GpgKey>>)
    ensures
        match r {
            Some(keys) => spec_gpg_keys(success, stdout@) == Some(keys@.map_values(|k: GpgKey| key_view(k))),
            None => spec_gpg_keys(success, stdout@) is None,
        },
{
    let mut keys: Vec<GpgKey> = Vec::new();
    if !success {
        assert(keys@.map_values(|k: GpgKey| key_view(k)) =~= Seq::empty());
        return Some(keys);
    }
    let text = chars_of(stdout);
    let ls = lines_of(&text);
    let ghost lv = views(ls@);
    let mut current: Vec<char> = Vec::new();
    let mut i: usize = 0;
    assert(lv.subrange(0, 0) =~= Seq::<Seq<char>>::empty());
    assert(keys@.map_values(|k: GpgKey| key_view(k)) =~= Seq::empty());
    while i < ls.len()
        invariant
            lv == views(ls@),
            lv == lines(stdout@),
            success,
            i <= ls@.len(),
            gpg_fold(lv.subrange(0, i as int)) == Some::<GpgState>(
                (current@, keys@.map_values(|k: GpgKey| key_view(k))),
            ),
        decreases ls@.len() - i,
    {
        let ghost st: GpgState = (current@, keys@.map_values(|k: GpgKey| key_view(k)));
        assert(lv.subrange(0, i + 1).drop_last() =~= lv.subrange(0, i as int));
        let line = &ls[i];
        let parts = split_chars(line, ':');
        proof {
            lemma_split_nonempty(line@, ':');
        }
        let ghost pv = views(parts@);
        assert(pv[0] == parts@[0]@);
        if is_word(&parts[0], "sec") {
            if parts.len() > 4 {
                current = copy_range(&parts[4], 0, parts[4].len());
                assert(parts@[4]@.subrange(0, parts@[4]@.len() as int) =~= parts@[4]@);
            }
        } else if is_word(&parts[0], "uid") && current.len() > 0 && parts.len() > 9 {
            let identity = &parts[9];
            match (find_char(identity, '<'), find_char(identity, '>')) {
                (Some(lt), Some(gt)) => {
                    proof {
                        lemma_first_index(identity@, '<', lt as int);
                        lemma_first_index(identity@, '>', gt as int);
                    }
                    if gt <= lt {
                        assert(gpg_fold(lv.subrange(0, i + 1)) is None);
                        proof {
                            lemma_fold_none_persists(lv, i + 1);
                        }
                        return None;
                    }
                    let name = trim_chars(&copy_range(identity, 0, lt));
                    let email = trim_chars(&copy_range(identity, lt + 1, gt));
                    let key = GpgKey {
                        id: string_of(&current),
                        name: string_of(&name),
                        email: string_of(&email),
                    };
                    let ghost kv = keys@.map_values(|k: GpgKey| key_view(k));
                    keys.push(key);
                    assert(keys@.map_values(|k: GpgKey| key_view(k)) =~= kv.push(
                        (current@, name@, email@),
                    ));
                    current = Vec::new();
                },
                _ => {},
            }
        }
        assert(gpg_fold(lv.subrange(0, i + 1)) == Some::<GpgState>(
            (current@, keys@.map_values(|k: GpgKey| key_view(k))),
        ));
        i = i + 1;
    }
    assert(lv.subrange(0, lv.len() as int) =~= lv);
    Some(keys)
}

} // verus!
