use crate::text::{
    after_last, after_last_at, chars_of, matches_at, occurs_at, string_of, trim_bounds, trimmed,
};
use vstd::prelude::*;

verus! {

/// `pat` stands somewhere in `s`.
pub open spec fn occurs(s: Seq<char>, pat: Seq<char>) -> bool {
    exists|i: int| occurs_at(s, pat, i)
}

/// `pat` stands in `s` at place `i` and nowhere after it.
pub open spec fn is_last_occurrence(s: Seq<char>, pat: Seq<char>, i: int) -> bool {
    occurs_at(s, pat, i) && forall|j: int| i < j ==> !occurs_at(s, pat, j)
}

/// The last place at which `pat` stands in `s`.
pub open spec fn last_occurrence(s: Seq<char>, pat: Seq<char>) -> int {
    choose|i: int| is_last_occurrence(s, pat, i)
}

/// What follows the last `pat` in `s`.
pub open spec fn after_last_text(s: Seq<char>, pat: Seq<char>) -> Seq<char> {
    s.skip(last_occurrence(s, pat) + pat.len())
}

/// The last two of the parts that slashes divide `s` into, with the slash
/// between them; all of `s` where it holds no slash.
pub open spec fn last_two_segments(s: Seq<char>) -> Seq<char> {
    let tail = after_last(s, '/');
    if tail.len() == s.len() {
        s
    } else {
        let head = s.take(s.len() - tail.len() - 1);
        after_last(head, '/') + seq!['/'] + tail
    }
}

/// `s` ends with `suffix`.
pub open spec fn ends_with(s: Seq<char>, suffix: Seq<char>) -> bool {
    suffix.len() <= s.len() && s.skip(s.len() - suffix.len()) == suffix
}

/// `s` without `suffix` at its end, as often as it stands there.
pub open spec fn strip_suffixes(s: Seq<char>, suffix: Seq<char>) -> Seq<char>
    decreases s.len(),
{
    if suffix.len() > 0 && ends_with(s, suffix) {
        strip_suffixes(s.take(s.len() - suffix.len()), suffix)
    } else {
        s
    }
}

/// The part of a remote address that names the repository: what follows the
/// host's name, given with a colon or with a slash, or the last two parts of
/// the path where the host's name is not in the address.
pub open spec fn repo_path_of(url: Seq<char>) -> Seq<char> {
    if occurs(url, "github.com:"@) {
        after_last_text(url, "github.com:"@)
    } else if occurs(url, "github.com/"@) {
        after_last_text(url, "github.com/"@)
    } else {
        last_two_segments(url)
    }
}

/// The owner and the name of the repository that a remote address points
/// at, with the slash between them: the repository's part of the address
/// without white space around the address and without `.git` at its end.
/// An address that leaves nothing, or nothing with a slash in it, names no
/// repository.
pub open spec fn repo_identifier_of(remote_url: Seq<char>) -> Option<Seq<char>> {
    let id = strip_suffixes(repo_path_of(trimmed(remote_url)), ".git"@);
    if id.len() == 0 || !id.contains('/') {
        None
    } else {
        Some(id)
    }
}

/// The last place at which `pat` stands in `chars`.
fn find_last(chars: &Vec<char>, pat: &Vec<char>) -> (r: Option<usize>)
    ensures
        match r {
            Some(i) => is_last_occurrence(chars@, pat@, i as int) && last_occurrence(chars@, pat@)
                == i,
            None => !occurs(chars@, pat@),
        },
{
    let n = chars.len();
    if pat.len() > n {
        return None;
    }
    let mut i: usize = n - pat.len();
    loop
        invariant
            i <= n - pat.len(),
            n == chars.len(),
            pat.len() <= n,
            chars@.take(n as int) == chars@,
            forall|j: int| i < j ==> !occurs_at(chars@, pat@, j),
        decreases i,
    {
        if matches_at(chars, n, pat, i) {
            return Some(i);
        }
        if i == 0 {
            return None;
        }
        i -= 1;
    }
}

/// The place from which on `chars` holds the part that names the repository.
fn repo_path_start(chars: &Vec<char>) -> (start: usize)
    ensures
        start <= chars.len(),
        chars@.skip(start as int) == repo_path_of(chars@),
{
    let n = chars.len();
    let with_colon = chars_of("github.com:");
    let with_slash = chars_of("github.com/");
    match find_last(chars, &with_colon) {
        Some(i) => {
            return i + with_colon.len();
        },
        None => {},
    }
    match find_last(chars, &with_slash) {
        Some(i) => {
            return i + with_slash.len();
        },
        None => {},
    }
    assert(chars@.take(n as int) =~= chars@);
    let k1 = after_last_at(chars, n, '/');
    let ghost tail = after_last(chars@, '/');
    if k1 == 0 {
        return 0;
    }
    let k0 = after_last_at(chars, k1 - 1, '/');
    proof {
        let head = chars@.take(n - tail.len() - 1);
        assert(chars@.skip(k0 as int) =~= chars@.subrange(k0 as int, k1 - 1) + seq!['/']
            + chars@.subrange(k1 as int, n as int));
    }
    k0
}

/// The place up to which the characters `start..end` hold their text without
/// `.git` at its end.
fn strip_git(chars: &Vec<char>, start: usize, end: usize) -> (stop: usize)
    requires
        start <= end <= chars.len(),
    ensures
        start <= stop <= end,
        chars@.subrange(start as int, stop as int) == strip_suffixes(
            chars@.subrange(start as int, end as int),
            ".git"@,
        ),
{
    let suffix = chars_of(".git");
    proof {
        reveal_strlit(".git");
    }
    let mut stop: usize = end;
    loop
        invariant
            start <= stop <= end <= chars.len(),
            suffix@ == ".git"@,
            suffix.len() == 4,
            strip_suffixes(chars@.subrange(start as int, end as int), ".git"@) == strip_suffixes(
                chars@.subrange(start as int, stop as int),
                ".git"@,
            ),
        decreases stop,
    {
        let ghost s = chars@.subrange(start as int, stop as int);
        if stop - start < 4 {
            return stop;
        }
        let found = matches_at(chars, stop, &suffix, stop - 4);
        proof {
            assert(chars@.take(stop as int).subrange(stop - 4, stop as int) =~= s.skip(
                s.len() - 4,
            ));
        }
        if !found {
            return stop;
        }
        assert(s.take(s.len() - 4) =~= chars@.subrange(start as int, stop - 4));
        stop = stop - 4;
    }
}

fn has_slash(chars: &Vec<char>, start: usize, end: usize) -> (r: bool)
    requires
        start <= end <= chars.len(),
    ensures
        r == chars@.subrange(start as int, end as int).contains('/'),
{
    let ghost s = chars@.subrange(start as int, end as int);
    let mut i: usize = start;
    while i < end
        invariant
            start <= i <= end <= chars.len(),
            s == chars@.subrange(start as int, end as int),
            forall|k: int| 0 <= k < i - start ==> s[k] != '/',
        decreases end - i,
    {
        if chars[i] == '/' {
            assert(s[i - start] == '/');
            return true;
        }
        i += 1;
    }
    false
}

/// The owner and the name of the repository that the address of the remote
/// points at, as `owner/name`; nothing where the address names none.
pub fn get_repo_identifier(remote_url: &str) -> (r: Option<String>)
    ensures
        match r {
            Some(id) => repo_identifier_of(remote_url@) == Some(id@),
            None => repo_identifier_of(remote_url@) is None,
        },
{
    let all = chars_of(remote_url);
    let (a, b) = trim_bounds(&all);
    let url = string_of(&all, a, b);
    let chars = chars_of(url.as_str());
    let n = chars.len();
    let start = repo_path_start(&chars);
    let stop = strip_git(&chars, start, n);
    if stop == start || !has_slash(&chars, start, stop) {
        return None;
    }
    Some(string_of(&chars, start, stop))
}

} // verus!
