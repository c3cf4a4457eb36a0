//! The reference tables (time zones, locales, keyboard layouts), read from
//! their text: one entry a line, a keyboard as `code,name`.

use vstd::prelude::*;
use vstd::string::*;
use crate::text::push_char;

verus! {

pub open spec fn strip_cr(l: Seq<char>) -> Seq<char> {
    if l.len() > 0 && l.last() == '\r' {
        l.drop_last()
    } else {
        l
    }
}

/// The non-empty lines finished within `s` (a `\r` before the `\n` is not
/// part of a line), and the text of the line still open.
pub open spec fn scan_lines(s: Seq<char>) -> (Seq<Seq<char>>, Seq<char>)
    decreases s.len(),
{
    if s.len() == 0 {
        (Seq::empty(), Seq::empty())
    } else {
        let (done, cur) = scan_lines(s.drop_last());
        if s.last() == '\n' {
            if strip_cr(cur).len() > 0 {
                (done.push(strip_cr(cur)), Seq::empty())
            } else {
                (done, Seq::empty())
            }
        } else {
            (done, cur.push(s.last()))
        }
    }
}

/// The non-empty lines of `s`, in order; the last line needs no `\n`.
pub open spec fn nonempty_lines(s: Seq<char>) -> Seq<Seq<char>> {
    let (done, cur) = scan_lines(s);
    if cur.len() > 0 {
        done.push(cur)
    } else {
        done
    }
}

pub open spec fn strings_view(v: Seq<String>) -> Seq<Seq<char>> {
    v.map_values(|x: String| x@)
}

/// Returns the non-empty lines of `text`.
pub fn non_empty_lines(text: &str) -> (r: Vec<String>)
    ensures
        strings_view(r@) == nonempty_lines(text@),
{
    let mut out: Vec<String> = Vec::new();
    let mut cur = String::new();
    let ghost mut seen: Seq<char> = Seq::empty();
    for c in it: text.chars()
        invariant
            it.seq() == text@,
            seen == text@.take(it.index() as int),
            (strings_view(out@), cur@) == scan_lines(seen),
    {
        let ghost before = seen;
        proof {
            seen = text@.take(it.index() + 1);
            assert(seen.drop_last() =~= before);
            assert(seen.last() == c);
        }
        if c == '\n' {
            let n = cur.as_str().unicode_len();
            let mut line = cur;
            if n > 0 && line.as_str().get_char(n - 1) == '\r' {
                let trimmed = String::from_str(line.as_str().substring_char(0, n - 1));
                proof {
                    assert(trimmed@ =~= line@.drop_last());
                }
                line = trimmed;
            }
            let ghost old_out = strings_view(out@);
            if line.as_str().unicode_len() > 0 {
                out.push(line);
                proof {
                    assert(strings_view(out@) =~= old_out.push(out@.last()@));
                }
            }
            cur = String::new();
        } else {
            push_char(&mut cur, c);
        }
    }
    proof {
        assert(seen =~= text@);
    }
    if cur.as_str().unicode_len() > 0 {
        let ghost old_out = strings_view(out@);
        out.push(cur);
        proof {
            assert(strings_view(out@) =~= old_out.push(out@.last()@));
        }
    }
    out
}

/// The time zones listed in `text`, one a line.
pub fn get_timezones(text: &str) -> (r: Vec<String>)
    ensures
        strings_view(r@) == nonempty_lines(text@),
{
    non_empty_lines(text)
}

/// The locales listed in `text`, one a line.
pub fn get_locales(text: &str) -> (r: Vec<String>)
    ensures
        strings_view(r@) == nonempty_lines(text@),
{
    non_empty_lines(text)
}

/// Whether `i` is the first comma of `l`.
pub open spec fn first_comma_at(l: Seq<char>, i: int) -> bool {
    0 <= i < l.len() && l[i] == ',' && forall|j: int| 0 <= j < i ==> l[j] != ','
}

/// A line split at its first comma, if it has one.
pub open spec fn comma_split(l: Seq<char>) -> Option<(Seq<char>, Seq<char>)> {
    if exists|i: int| first_comma_at(l, i) {
        let i = choose|i: int| first_comma_at(l, i);
        Some((l.take(i), l.skip(i + 1)))
    } else {
        None
    }
}

/// The `code,name` pairs of the lines of `ls` that have a comma.
pub open spec fn keyboard_pairs(ls: Seq<Seq<char>>) -> Seq<(Seq<char>, Seq<char>)>
    decreases ls.len(),
{
    if ls.len() == 0 {
        Seq::empty()
    } else {
        let r = keyboard_pairs(ls.drop_last());
        match comma_split(ls.last()) {
            Some(p) => r.push(p),
            None => r,
        }
    }
}

pub open spec fn pairs_view(v: Seq<(String, String)>) -> Seq<(Seq<char>, Seq<char>)> {
    v.map_values(|p: (String, String)| (p.0@, p.1@))
}

/// Splits `l` at its first comma.
pub fn split_at_comma(l: &str) -> (r: Option<(String, String)>)
    ensures
        match r {
            Some(p) => comma_split(l@) == Some((p.0@, p.1@)),
            None => comma_split(l@) is None,
        },
{
    let n = l.unicode_len();
    let mut i: usize = 0;
    while i < n
        invariant
            n == l@.len(),
            i <= n,
            forall|j: int| 0 <= j < i ==> l@[j] != ',',
        decreases n - i,
    {
        if l.get_char(i) == ',' {
            let code = String::from_str(l.substring_char(0, i));
            let name = String::from_str(l.substring_char(i + 1, n));
            proof {
                assert(first_comma_at(l@, i as int));
                let k = choose|k: int| first_comma_at(l@, k);
                assert(k == i) by {
                    if k < i {
                        assert(l@[k] != ',');
                    } else if k > i {
                        assert(l@[i as int] != ',');
                    }
                }
                assert(l@.subrange(0, i as int) =~= l@.take(i as int));
                assert(l@.subrange(i + 1, n as int) =~= l@.skip(i + 1));
            }
            return Some((code, name));
        }
        i = i + 1;
    }
    proof {
        assert forall|k: int| !first_comma_at(l@, k) by {
            if 0 <= k < n {
                assert(l@[k] != ',');
            }
        }
    }
    None
}

/// The keyboard layouts listed in `text`, a `code,name` pair a line; lines
/// without a comma are left out.
pub fn get_keyboards(text: &str) -> (r: Vec<(String, String)>)
    ensures
        pairs_view(r@) == keyboard_pairs(nonempty_lines(text@)),
{
    let lines = non_empty_lines(text);
    let ghost ls = strings_view(lines@);
    let mut out: Vec<(String, String)> = Vec::new();
    let mut i: usize = 0;
    while i < lines.len()
        invariant
            ls == strings_view(lines@),
            ls == nonempty_lines(text@),
            i <= lines@.len(),
            pairs_view(out@) == keyboard_pairs(ls.take(i as int)),
        decreases lines@.len() - i,
    {
        proof {
            assert(ls.take(i + 1).drop_last() =~= ls.take(i as int));
            assert(ls.take(i + 1).last() == lines@[i as int]@);
        }
        let ghost old_out = pairs_view(out@);
        match split_at_comma(lines[i].as_str()) {
            Some(p) => {
                out.push(p);
                proof {
                    assert(pairs_view(out@) =~= old_out.push((out@.last().0@, out@.last().1@)));
                }
            },
            None => {},
        }
        i = i + 1;
    }
    proof {
        assert(ls.take(lines@.len() as int) =~= ls);
    }
    out
}

} // verus!
