//! A model of `/`-separated paths: final component, stem, extension, re-rooting.
use crate::text::{matches_at, occurs_at, str_eq};
use vstd::prelude::*;
use vstd::string::*;

verus! {

/// The last character of `s` adds no component: a `/`, or a `.` that stands
/// alone after a `/`.
pub open spec fn ends_in_no_component(s: Seq<char>) -> bool {
    s.len() > 0 && (s.last() == '/' || (s.len() >= 2 && s.last() == '.' && s[s.len() - 2]
        == '/'))
}

/// The length of `s` without its trailing `/` characters and `.` components.
pub open spec fn trimmed_len(s: Seq<char>) -> int
    decreases s.len(),
{
    if ends_in_no_component(s) {
        trimmed_len(s.drop_last())
    } else {
        s.len() as int
    }
}

/// The position of the last `c` in `s`, or -1.
pub open spec fn last_index_of(s: Seq<char>, c: char) -> int
    decreases s.len(),
{
    if s.len() == 0 {
        -1
    } else if s.last() == c {
        s.len() - 1
    } else {
        last_index_of(s.drop_last(), c)
    }
}

pub proof fn lemma_trimmed_len_bounds(s: Seq<char>)
    ensures
        0 <= trimmed_len(s) <= s.len(),
    decreases s.len(),
{
    if ends_in_no_component(s) {
        lemma_trimmed_len_bounds(s.drop_last());
    }
}

pub proof fn lemma_last_index_bounds(s: Seq<char>, c: char)
    ensures
        -1 <= last_index_of(s, c) < s.len(),
        last_index_of(s, c) >= 0 ==> s[last_index_of(s, c)] == c,
        forall|i: int| last_index_of(s, c) < i < s.len() ==> s[i] != c,
    decreases s.len(),
{
    if s.len() > 0 && s.last() != c {
        lemma_last_index_bounds(s.drop_last(), c);
        assert forall|i: int| last_index_of(s, c) < i < s.len() implies s[i] != c by {
            if i < s.len() - 1 {
                assert(s[i] == s.drop_last()[i]);
            }
        }
    }
}

/// The final component of `p`: what follows its last `/`, trailing `/`s and
/// `.` components left out. A path that ends in `.` or `..`, or in nothing, has none.
pub open spec fn file_name(p: Seq<char>) -> Option<Seq<char>> {
    let t = p.subrange(0, trimmed_len(p));
    let name = t.subrange(last_index_of(t, '/') + 1, t.len() as int);
    if name.len() == 0 || name == seq!['.'] || name == seq!['.', '.'] {
        None
    } else {
        Some(name)
    }
}

/// The file name without its extension. A name with no `.` after its first
/// character is its own stem.
pub open spec fn stem_of_name(name: Seq<char>) -> Seq<char> {
    let k = last_index_of(name, '.');
    if k <= 0 {
        name
    } else {
        name.subrange(0, k)
    }
}

/// What follows the last `.` of a file name, unless that `.` is its first
/// character.
pub open spec fn extension_of_name(name: Seq<char>) -> Option<Seq<char>> {
    let k = last_index_of(name, '.');
    if k <= 0 {
        None
    } else {
        Some(name.subrange(k + 1, name.len() as int))
    }
}

pub open spec fn file_stem(p: Seq<char>) -> Option<Seq<char>> {
    match file_name(p) {
        Some(name) => Some(stem_of_name(name)),
        None => None,
    }
}

pub open spec fn extension(p: Seq<char>) -> Option<Seq<char>> {
    match file_name(p) {
        Some(name) => extension_of_name(name),
        None => None,
    }
}

/// `src` relative to `root`, where `root` is one of its leading components.
pub open spec fn relative_to(src: Seq<char>, root: Seq<char>) -> Option<Seq<char>> {
    let r = root.subrange(0, trimmed_len(root));
    if root.len() == 0 {
        Some(src)
    } else if src == r {
        Some(Seq::empty())
    } else if r.len() < src.len() && src.subrange(0, r.len() as int) == r && src[r.len() as int]
        == '/' {
        Some(src.subrange(r.len() as int + 1, src.len() as int))
    } else {
        None
    }
}

/// `rel` placed under the directory `dir`.
pub open spec fn join(dir: Seq<char>, rel: Seq<char>) -> Seq<char> {
    if dir.len() == 0 || dir.last() == '/' {
        dir + rel
    } else {
        dir + seq!['/'] + rel
    }
}

/// `p` with its extension replaced by `html`, or `.html` added where it has none.
pub open spec fn html_path(p: Seq<char>) -> Seq<char> {
    let t = p.subrange(0, trimmed_len(p));
    match extension(p) {
        Some(e) => t.subrange(0, t.len() - e.len()) + "html"@,
        None => t + ".html"@,
    }
}

/// The length of `s` without its trailing `/` characters and `.` components.
pub fn trimmed_length(s: &str) -> (r: usize)
    ensures
        r == trimmed_len(s@),
{
    let mut i = s.unicode_len();
    assert(s@.subrange(0, i as int) =~= s@);
    while i > 0 && (s.get_char(i - 1) == '/' || (i >= 2 && s.get_char(i - 1) == '.'
        && s.get_char(i - 2) == '/'))
        invariant
            i <= s@.len(),
            trimmed_len(s@) == trimmed_len(s@.subrange(0, i as int)),
        decreases i,
    {
        assert(s@.subrange(0, i as int).drop_last() =~= s@.subrange(0, i - 1));
        i = i - 1;
    }
    i
}

/// The position of the last `c` among the first `end` characters of `s`.
pub fn last_index(s: &str, c: char, end: usize) -> (r: Option<usize>)
    requires
        end <= s@.len(),
    ensures
        match r {
            Some(k) => last_index_of(s@.subrange(0, end as int), c) == k,
            None => last_index_of(s@.subrange(0, end as int), c) == -1,
        },
{
    let mut i = end;
    while i > 0
        invariant
            i <= end <= s@.len(),
            last_index_of(s@.subrange(0, end as int), c) == last_index_of(
                s@.subrange(0, i as int),
                c,
            ),
        decreases i,
    {
        assert(s@.subrange(0, i as int).drop_last() =~= s@.subrange(0, i - 1));
        if s.get_char(i - 1) == c {
            return Some(i - 1);
        }
        i = i - 1;
    }
    None
}

/// Start and end of the final component of `p`, as character positions.
fn file_name_span(p: &str) -> (r: Option<(usize, usize)>)
    ensures
        match r {
            Some((a, b)) => a <= b <= p@.len() && b == trimmed_len(p@) && file_name(p@) == Some(
                p@.subrange(a as int, b as int),
            ),
            None => file_name(p@) is None,
        },
{
    let t = trimmed_length(p);
    proof {
        lemma_trimmed_len_bounds(p@);
    }
    let ghost ts = p@.subrange(0, t as int);
    proof {
        lemma_last_index_bounds(ts, '/');
    }
    let start = match last_index(p, '/', t) {
        Some(k) => k + 1,
        None => 0,
    };
    proof {
        lemma_last_index_bounds(ts, '/');
    }
    assert(p@.subrange(start as int, t as int) =~= ts.subrange(start as int, t as int));
    let len = t - start;
    if len == 0 {
        return None;
    }
    if len == 1 && p.get_char(start) == '.' {
        assert(ts.subrange(start as int, t as int) =~= seq!['.']);
        return None;
    }
    if len == 2 && p.get_char(start) == '.' && p.get_char(start + 1) == '.' {
        assert(ts.subrange(start as int, t as int) =~= seq!['.', '.']);
        return None;
    }
    proof {
        let name = ts.subrange(start as int, t as int);
        if name == seq!['.'] {
            assert(name[0] == '.');
        }
        if name == seq!['.', '.'] {
            assert(name[0] == '.' && name[1] == '.');
        }
    }
    Some((start, t))
}

/// The file name of `p` without its extension.
pub fn stem(p: &str) -> (r: Option<String>)
    ensures
        match r {
            Some(s) => file_stem(p@) == Some(s@),
            None => file_stem(p@) is None,
        },
{
    match file_name_span(p) {
        None => None,
        Some((a, b)) => {
            let name = p.substring_char(a, b);
            let n = b - a;
            assert(name@.subrange(0, n as int) =~= name@);
            let dot = last_index(name, '.', n);
            proof {
                lemma_last_index_bounds(name@, '.');
            }
            match dot {
                Some(k) if k > 0 => Some(String::from_str(name.substring_char(0, k))),
                _ => Some(String::from_str(name)),
            }
        },
    }
}

/// The extension of the final component of `p`.
pub fn extension_str(p: &str) -> (r: Option<String>)
    ensures
        match r {
            Some(s) => extension(p@) == Some(s@),
            None => extension(p@) is None,
        },
{
    match file_name_span(p) {
        None => None,
        Some((a, b)) => {
            let name = p.substring_char(a, b);
            let n = b - a;
            assert(name@.subrange(0, n as int) =~= name@);
            let dot = last_index(name, '.', n);
            proof {
                lemma_last_index_bounds(name@, '.');
            }
            match dot {
                Some(k) if k > 0 => Some(String::from_str(name.substring_char(k + 1, n))),
                _ => None,
            }
        },
    }
}

/// `src` relative to `root`, where `root` is one of its leading components.
pub fn relative_path(src: &str, root: &str) -> (r: Option<String>)
    ensures
        match r {
            Some(rel) => relative_to(src@, root@) == Some(rel@),
            None => relative_to(src@, root@) is None,
        },
{
    let n = src.unicode_len();
    if root.unicode_len() == 0 {
        return Some(String::from_str(src));
    }
    let t = trimmed_length(root);
    proof {
        lemma_trimmed_len_bounds(root@);
    }
    let r = root.substring_char(0, t);
    if str_eq(src, r) {
        return Some(String::new());
    }
    if t < n && matches_at(src, r, 0) && src.get_char(t) == '/' {
        return Some(String::from_str(src.substring_char(t + 1, n)));
    }
    assert(t < n && src@.subrange(0, t as int) == r@ ==> occurs_at(src@, r@, 0));
    None
}

/// `rel` placed under the directory `dir`.
pub fn join_path(dir: &str, rel: &str) -> (r: String)
    ensures
        r@ == join(dir@, rel@),
{
    let n = dir.unicode_len();
    let mut r = String::from_str(dir);
    if n > 0 && dir.get_char(n - 1) != '/' {
        proof {
            reveal_strlit("/");
        }
        r.append("/");
    }
    r.append(rel);
    r
}

/// `p` with its extension replaced by `html`, or `.html` added where it has none.
pub fn with_html_extension(p: &str) -> (r: String)
    ensures
        r@ == html_path(p@),
{
    let t = trimmed_length(p);
    proof {
        lemma_trimmed_len_bounds(p@);
    }
    match file_name_span(p) {
        Some((a, b)) => {
            let name = p.substring_char(a, b);
            let n = b - a;
            assert(name@.subrange(0, n as int) =~= name@);
            let dot = last_index(name, '.', n);
            proof {
                lemma_last_index_bounds(name@, '.');
            }
            match dot {
                Some(k) if k > 0 => {
                    let mut r = String::from_str(p.substring_char(0, a + k + 1));
                    proof {
                        reveal_strlit("html");
                        assert(p@.subrange(0, a + k + 1) =~= p@.subrange(0, t as int).subrange(
                            0,
                            t - (n - k - 1),
                        ));
                    }
                    r.append("html");
                    return r;
                },
                _ => {},
            }
        },
        None => {},
    }
    let mut r = String::from_str(p.substring_char(0, t));
    r.append(".html");
    r
}

/// Whether a file or directory name marks it hidden: it begins with `.`.
pub fn is_hidden_name(name: &str) -> (r: bool)
    ensures
        r == (name@.len() > 0 && name@[0] == '.'),
{
    name.unicode_len() > 0 && name.get_char(0) == '.'
}

} // verus!
