//! Reading the owner and repository out of a GitHub remote URL.

use vstd::prelude::*;
use crate::circleci::first_occurrence;
use crate::text::{chars_of, find_in, has_infix, occurs_at, before_char, index_of_char, find_char, string_of};

verus! {

/// `s` without a trailing `.git`.
pub open spec fn strip_git(s: Seq<char>) -> Seq<char> {
    if s.len() >= 4 && s.subrange(s.len() - 4, s.len() as int) == ".git"@ {
        s.subrange(0, s.len() - 4)
    } else {
        s
    }
}

/// `s` without its leading `c` characters.
pub open spec fn drop_leading(s: Seq<char>, c: char) -> Seq<char>
    decreases s.len(),
{
    if s.len() > 0 && s[0] == c { drop_leading(s.subrange(1, s.len() as int), c) } else { s }
}

/// The first two `/`-separated parts of a path, when it has at least two.
pub open spec fn two_parts(path: Seq<char>) -> Option<(Seq<char>, Seq<char>)> {
    let i = index_of_char(path, '/');
    if i < path.len() {
        Some((path.subrange(0, i), before_char(path.subrange(i + 1, path.len() as int), '/')))
    } else {
        None
    }
}

/// The text between the first and the second `github.com` (or the end).
pub open spec fn after_host(url: Seq<char>) -> Seq<char> {
    let rest = url.subrange(first_occurrence(url, "github.com"@) + 10, url.len() as int);
    if has_infix(rest, "github.com"@) {
        rest.subrange(0, first_occurrence(rest, "github.com"@))
    } else {
        rest
    }
}

/// Owner and repository of a GitHub remote, in SSH (`git@github.com:o/r.git`)
/// or HTTPS (`https://github.com/o/r.git`) form.
pub open spec fn github_url_parts(url: Seq<char>) -> Option<(Seq<char>, Seq<char>)> {
    let ssh = "git@github.com:"@;
    if url.len() >= 15 && url.subrange(0, 15) == ssh && two_parts(
        strip_git(url.subrange(15, url.len() as int)),
    ) is Some {
        two_parts(strip_git(url.subrange(15, url.len() as int)))
    } else if has_infix(url, "github.com"@) {
        two_parts(strip_git(drop_leading(drop_leading(after_host(url), '/'), ':')))
    } else {
        None
    }
}

fn strip_git_chars(v: &Vec<char>) -> (r: Vec<char>)
    ensures
        r@ == strip_git(v@),
{
    proof {
        reveal_strlit(".git");
    }
    let n = v.len();
    if n >= 4 && v[n - 4] == '.' && v[n - 3] == 'g' && v[n - 2] == 'i' && v[n - 1] == 't' {
        assert(v@.subrange(n - 4, n as int) =~= ".git"@);
        let mut r: Vec<char> = Vec::new();
        let mut i: usize = 0;
        while i < n - 4
            invariant
                n == v@.len(),
                n >= 4,
                i <= n - 4,
                r@ == v@.subrange(0, i as int),
            decreases n - 4 - i,
        {
            r.push(v[i]);
            i += 1;
            assert(r@ =~= v@.subrange(0, i as int));
        }
        r
    } else {
        if n >= 4 {
            assert(v@.subrange(n - 4, n as int)[0] == v@[n - 4]);
            assert(v@.subrange(n - 4, n as int)[1] == v@[n - 3]);
            assert(v@.subrange(n - 4, n as int)[2] == v@[n - 2]);
            assert(v@.subrange(n - 4, n as int)[3] == v@[n - 1]);
        }
        let mut r: Vec<char> = Vec::new();
        let mut i: usize = 0;
        while i < n
            invariant
                n == v@.len(),
                i <= n,
                r@ == v@.subrange(0, i as int),
            decreases n - i,
        {
            r.push(v[i]);
            i += 1;
            assert(r@ =~= v@.subrange(0, i as int));
        }
        assert(r@ =~= v@);
        r
    }
}

fn drop_leading_chars(v: &Vec<char>, from: usize, c: char) -> (r: usize)
    requires
        from <= v@.len(),
    ensures
        from <= r <= v@.len(),
        v@.subrange(r as int, v@.len() as int) == drop_leading(v@.subrange(from as int, v@.len() as int), c),
    decreases v@.len() - from,
{
    if from < v.len() && v[from] == c {
        assert(v@.subrange(from as int, v@.len() as int).subrange(1, v@.len() - from) =~= v@.subrange(from + 1, v@.len() as int));
        drop_leading_chars(v, from + 1, c)
    } else {
        from
    }
}

fn split_two(path: &Vec<char>) -> (r: Option<(String, String)>)
    ensures
        match r {
            Some((a, b)) => two_parts(path@) == Some((a@, b@)),
            None => two_parts(path@) is None,
        },
{
    let i = find_char(path, '/');
    if i >= path.len() {
        return None;
    }
    let first = string_of(path, 0, i);
    let rest_s = string_of(path, i + 1, path.len());
    let rest = chars_of(rest_s.as_str());
    let j = find_char(&rest, '/');
    let second = string_of(&rest, 0, j);
    Some((first, second))
}

fn copy_range(v: &Vec<char>, from: usize, to: usize) -> (r: Vec<char>)
    requires
        from <= to <= v@.len(),
    ensures
        r@ == v@.subrange(from as int, to as int),
{
    let s = string_of(v, from, to);
    chars_of(s.as_str())
}

/// Owner and repository of a GitHub remote URL.
pub fn parse_github_url(url: &str) -> (r: Option<(String, String)>)
    ensures
        match r {
            Some((o, n)) => github_url_parts(url@) == Some((o@, n@)),
            None => github_url_parts(url@) is None,
        },
{
    proof {
        reveal_strlit("git@github.com:");
        reveal_strlit("github.com");
    }
    let u = chars_of(url);
    let ssh = chars_of("git@github.com:");
    assert(ssh@.len() == 15);
    let n = u.len();
    let mut is_ssh = n >= 15;
    let mut k: usize = 0;
    while is_ssh && k < 15
        invariant
            k <= 15,
            ssh@ == "git@github.com:"@,
            ssh@.len() == 15,
            is_ssh ==> n >= 15 && u@.subrange(0, k as int) == ssh@.subrange(0, k as int),
            !is_ssh ==> !(n >= 15 && u@.subrange(0, 15) == ssh@),
            n == u@.len(),
        decreases 15 - k, if is_ssh { 1int } else { 0int },
    {
        if u[k] != ssh[k] {
            assert(u@.subrange(0, 15)[k as int] != ssh@[k as int]);
            is_ssh = false;
        } else {
            assert(u@.subrange(0, k + 1) =~= u@.subrange(0, k as int).push(u@[k as int]));
            assert(ssh@.subrange(0, k + 1) =~= ssh@.subrange(0, k as int).push(ssh@[k as int]));
            k += 1;
        }
    }
    if is_ssh {
        assert(ssh@.subrange(0, 15) =~= ssh@);
        let path = strip_git_chars(&copy_range(&u, 15, n));
        let r = split_two(&path);
        if r.is_some() {
            return r;
        }
    }
    let host = chars_of("github.com");
    match find_in(&u, &host) {
        Some(i) => {
            proof {
                let f = first_occurrence(u@, "github.com"@);
                assert(occurs_at(u@, "github.com"@, i as int));
                assert(f == i);
            }
            let rest = copy_range(&u, i + 10, n);
            let seg = match find_in(&rest, &host) {
                Some(j) => {
                    proof {
                        let f = first_occurrence(rest@, "github.com"@);
                        assert(occurs_at(rest@, "github.com"@, j as int));
                        assert(f == j);
                    }
                    copy_range(&rest, 0, j)
                },
                None => copy_range(&rest, 0, rest.len()),
            };
            assert(rest@.subrange(0, rest@.len() as int) =~= rest@);
            assert(seg@ == after_host(u@));
            let a = drop_leading_chars(&seg, 0, '/');
            assert(seg@.subrange(0, seg@.len() as int) =~= seg@);
            let b = drop_leading_chars(&seg, a, ':');
            let path = strip_git_chars(&copy_range(&seg, b, seg.len()));
            split_two(&path)
        },
        None => None,
    }
}

} // verus!
