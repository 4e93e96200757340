//! The text metadata inside packages: `.PKGINFO` files of Arch and Alpine
//! packages (`key = value` lines) and the `control` stanza of Debian packages
//! (`Key: value` lines).

use vstd::prelude::*;
use crate::processor::RepoError;
use crate::text::{has_prefix, starts_with};

verus! {

/// The position of the first `c` in `s`, or the length of `s` if there is none.
pub open spec fn first_index(s: Seq<char>, c: char) -> int
    decreases s.len(),
{
    if s.len() == 0 {
        0
    } else if s[0] == c {
        0
    } else {
        1 + first_index(s.drop_first(), c)
    }
}

/// The pieces of `s` between occurrences of `c`, as `str::split` gives them.
pub open spec fn pieces(s: Seq<char>, c: char) -> Seq<Seq<char>>
    decreases s.len(),
{
    let e = first_index(s, c);
    if e < 0 || e >= s.len() {
        seq![s]
    } else {
        seq![s.take(e)] + pieces(s.skip(e + 1), c)
    }
}

/// `first_index` is the position found by scanning for `c`.
proof fn lemma_first_index(s: Seq<char>, c: char, m: int)
    requires
        0 <= m <= s.len(),
        forall|k: int| 0 <= k < m ==> s[k] != c,
        m == s.len() || s[m] == c,
    ensures
        first_index(s, c) == m,
    decreases s.len(),
{
    if s.len() > 0 && m > 0 {
        lemma_first_index(s.drop_first(), c, m - 1);
    }
}

/// The views of a vector of strings.
pub open spec fn views(v: Seq<String>) -> Seq<Seq<char>> {
    v.map_values(|x: String| x@)
}

/// Splits `s` at every `c`.
pub fn split_on(s: &str, c: char) -> (r: Vec<String>)
    ensures
        views(r@) == pieces(s@, c),
{
    let n = s.unicode_len();
    let mut out: Vec<String> = Vec::new();
    let mut i: usize = 0;
    assert(s@.skip(0) =~= s@);
    assert(views(out@) =~= Seq::<Seq<char>>::empty());
    loop
        invariant
            n == s@.len(),
            i <= n,
            pieces(s@, c) == views(out@) + pieces(s@.skip(i as int), c),
        decreases n - i,
    {
        let mut j: usize = i;
        while j < n && s.get_char(j) != c
            invariant
                n == s@.len(),
                i <= j <= n,
                forall|k: int| i <= k < j ==> s@[k] != c,
            decreases n - j,
        {
            j = j + 1;
        }
        let ghost rest = s@.skip(i as int);
        proof {
            lemma_first_index(rest, c, j - i);
        }
        let piece = s.substring_char(i, j).to_owned();
        let ghost before = out@;
        out.push(piece);
        proof {
            assert(views(out@) =~= views(before).push(piece@));
            assert(rest.take(j - i) =~= piece@);
        }
        if j == n {
            assert(rest.skip(0) =~= rest);
            assert(pieces(rest, c) == seq![rest]);
            assert(rest =~= piece@);
            assert(views(out@) =~= views(before) + pieces(rest, c));
            return out;
        }
        proof {
            assert(rest.skip(j - i + 1) =~= s@.skip(j + 1));
            assert(pieces(rest, c) == seq![piece@] + pieces(s@.skip(j + 1), c));
            assert(views(before) + pieces(rest, c) =~= views(out@) + pieces(s@.skip(j + 1), c));
        }
        i = j + 1;
    }
}

/// The value that `line` gives `key`, where the line reads `<key><sep><value>`.
pub open spec fn line_value(line: Seq<char>, key: Seq<char>, sep: Seq<char>) -> Option<Seq<char>> {
    if has_prefix(line, key + sep) {
        Some(line.skip((key + sep).len() as int))
    } else {
        None
    }
}

/// The value of the first line that gives `key` one.
pub open spec fn first_value(lines: Seq<Seq<char>>, key: Seq<char>, sep: Seq<char>) -> Option<
    Seq<char>,
>
    decreases lines.len(),
{
    if lines.len() == 0 {
        None
    } else if line_value(lines[0], key, sep) is Some {
        line_value(lines[0], key, sep)
    } else {
        first_value(lines.drop_first(), key, sep)
    }
}

/// The values of every line that gives `key` one, in order.
pub open spec fn all_values(lines: Seq<Seq<char>>, key: Seq<char>, sep: Seq<char>) -> Seq<
    Seq<char>,
>
    decreases lines.len(),
{
    if lines.len() == 0 {
        Seq::empty()
    } else if let Some(v) = line_value(lines[0], key, sep) {
        seq![v] + all_values(lines.drop_first(), key, sep)
    } else {
        all_values(lines.drop_first(), key, sep)
    }
}

/// The value that `line` gives `key`, if it reads `<key><sep><value>`.
fn value_of_line(line: &str, key: &str, sep: &str) -> (r: Option<String>)
    ensures
        match r {
            Some(v) => line_value(line@, key@, sep@) == Some(v@),
            None => line_value(line@, key@, sep@) is None,
        },
{
    let mut head = String::from_str(key);
    head.append(sep);
    if starts_with(line, head.as_str()) {
        let n = line.unicode_len();
        let k = head.as_str().unicode_len();
        Some(line.substring_char(k, n).to_owned())
    } else {
        None
    }
}

/// The value of the first of `lines` that gives `key` one.
pub fn first_value_in(lines: &Vec<String>, key: &str, sep: &str) -> (r: Option<String>)
    ensures
        match r {
            Some(v) => first_value(views(lines@), key@, sep@) == Some(v@),
            None => first_value(views(lines@), key@, sep@) is None,
        },
{
    let ghost ls = views(lines@);
    let mut i: usize = 0;
    assert(ls.skip(0) =~= ls);
    while i < lines.len()
        invariant
            ls == views(lines@),
            i <= lines@.len(),
            first_value(ls, key@, sep@) == first_value(ls.skip(i as int), key@, sep@),
        decreases lines@.len() - i,
    {
        let ghost rest = ls.skip(i as int);
        assert(rest[0] == lines@[i as int]@);
        assert(rest.drop_first() =~= ls.skip(i + 1));
        match value_of_line(lines[i].as_str(), key, sep) {
            Some(v) => {
                return Some(v);
            },
            None => {},
        }
        i = i + 1;
    }
    None
}

/// The values of all of `lines` that give `key` one, in order.
pub fn all_values_in(lines: &Vec<String>, key: &str, sep: &str) -> (r: Vec<String>)
    ensures
        views(r@) == all_values(views(lines@), key@, sep@),
{
    let ghost ls = views(lines@);
    let mut out: Vec<String> = Vec::new();
    let mut i: usize = 0;
    assert(ls.skip(0) =~= ls);
    assert(views(out@) =~= Seq::<Seq<char>>::empty());
    while i < lines.len()
        invariant
            ls == views(lines@),
            i <= lines@.len(),
            all_values(ls, key@, sep@) == views(out@) + all_values(ls.skip(i as int), key@, sep@),
        decreases lines@.len() - i,
    {
        let ghost rest = ls.skip(i as int);
        assert(rest[0] == lines@[i as int]@);
        assert(rest.drop_first() =~= ls.skip(i + 1));
        match value_of_line(lines[i].as_str(), key, sep) {
            Some(v) => {
                let ghost before = out@;
                out.push(v);
                assert(views(out@) =~= views(before).push(v@));
                assert(views(before) + all_values(rest, key@, sep@) =~= views(out@) + all_values(
                    ls.skip(i + 1),
                    key@,
                    sep@,
                ));
            },
            None => {},
        }
        i = i + 1;
    }
    assert(ls.skip(i as int) =~= Seq::<Seq<char>>::empty());
    assert(views(out@) + Seq::<Seq<char>>::empty() =~= views(out@));
    out
}

/// `s` without its leading spaces.
pub open spec fn trim_start(s: Seq<char>) -> Seq<char>
    decreases s.len(),
{
    if s.len() > 0 && s[0] == ' ' {
        trim_start(s.drop_first())
    } else {
        s
    }
}

/// `s` without its trailing spaces.
pub open spec fn trim_end(s: Seq<char>) -> Seq<char>
    decreases s.len(),
{
    if s.len() > 0 && s.last() == ' ' {
        trim_end(s.drop_last())
    } else {
        s
    }
}

/// `s` without its leading and trailing spaces.
pub open spec fn trimmed(s: Seq<char>) -> Seq<char> {
    trim_end(trim_start(s))
}

/// `s` without its leading and trailing spaces.
pub fn trim_spaces(s: &str) -> (r: String)
    ensures
        r@ == trimmed(s@),
{
    let n = s.unicode_len();
    let mut a: usize = 0;
    assert(s@.skip(0) =~= s@);
    while a < n && s.get_char(a) == ' '
        invariant
            n == s@.len(),
            a <= n,
            trim_start(s@) == trim_start(s@.skip(a as int)),
        decreases n - a,
    {
        assert(s@.skip(a as int).drop_first() =~= s@.skip(a + 1));
        a = a + 1;
    }
    let ghost t = s@.skip(a as int);
    assert(trim_start(s@) == t);
    let mut b: usize = n;
    assert(t.take(n - a) =~= t);
    while b > a && s.get_char(b - 1) == ' '
        invariant
            n == s@.len(),
            a <= b <= n,
            t == s@.skip(a as int),
            trim_end(t) == trim_end(t.take(b - a)),
        decreases b - a,
    {
        assert(t.take(b - a).drop_last() =~= t.take(b - 1 - a));
        b = b - 1;
    }
    let r = s.substring_char(a, b).to_owned();
    assert(r@ =~= t.take(b - a));
    r
}

/// The items of a comma-separated list, without surrounding spaces.
pub open spec fn list_items(s: Seq<char>) -> Seq<Seq<char>> {
    pieces(s, ',').map_values(|p: Seq<char>| trimmed(p))
}

/// Splits a comma-separated list into its items, without surrounding spaces.
pub fn split_list(s: &str) -> (r: Vec<String>)
    ensures
        views(r@) == list_items(s@),
{
    let parts = split_on(s, ',');
    let mut out: Vec<String> = Vec::new();
    let mut i: usize = 0;
    while i < parts.len()
        invariant
            i <= parts@.len(),
            views(parts@) == pieces(s@, ','),
            out@.len() == i,
            forall|k: int| 0 <= k < i ==> out@[k]@ == trimmed(#[trigger] parts@[k]@),
        decreases parts@.len() - i,
    {
        let item = trim_spaces(parts[i].as_str());
        out.push(item);
        i = i + 1;
    }
    assert(views(out@) =~= list_items(s@)) by {
        assert forall|k: int| 0 <= k < out@.len() implies views(out@)[k] == list_items(s@)[k] by {
            assert(views(parts@)[k] == parts@[k]@);
        }
    }
    out
}

} // verus!
