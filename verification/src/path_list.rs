//! The user's `PATH`: whether it already names the app's folder, and the
//! value that adds it.
use vstd::prelude::*;

use crate::mods_list::{lines_of, lines_spec, trim_chars, trim_ws};
use crate::packaging::split_all;
use crate::std_ext::{lowercase_of, to_lowercase};
use crate::text::{
    chars_of, find_char, first_index_of, has_char, has_substring, lemma_first_index_of, occurs_at,
    occurs_at_exec, push_str, str_eq, string_of, string_of_range, sub_chars, trim_end_char,
    trim_end_char_len, contains_chars,
};

verus! {

/// A `PATH` entry names folder `dir` when both, lowercased and without
/// trailing backslashes, are equal.
pub open spec fn names_dir(entry: Seq<char>, dir: Seq<char>) -> bool {
    trim_end_char(lowercase_of(entry), '\\') == trim_end_char(lowercase_of(dir), '\\')
}

/// Some `;`-separated entry of `path_var` names folder `dir`.
pub open spec fn path_has_dir_spec(path_var: Seq<char>, dir: Seq<char>) -> bool {
    exists|i: int|
        0 <= i < split_all(path_var, ';').len() && names_dir(
            #[trigger] split_all(path_var, ';')[i],
            dir,
        )
}

/// `s` lowercased and without trailing backslashes.
fn folded(s: &str) -> (r: Vec<char>)
    ensures
        r@ == trim_end_char(lowercase_of(s@), '\\'),
{
    let low = chars_of(to_lowercase(s).as_str());
    let n = trim_end_char_len(&low, low.len(), '\\');
    assert(low@.subrange(0, low@.len() as int) =~= low@);
    sub_chars(&low, 0, n)
}

/// Whether two character lists are equal.
fn chars_equal(a: &Vec<char>, b: &Vec<char>) -> (r: bool)
    ensures
        r == (a@ == b@),
{
    if a.len() != b.len() {
        return false;
    }
    let mut i: usize = 0;
    while i < a.len()
        invariant
            a@.len() == b@.len(),
            i <= a@.len(),
            forall|j: int| 0 <= j < i ==> a@[j] == b@[j],
        decreases a.len() - i,
    {
        if a[i] != b[i] {
            return false;
        }
        i = i + 1;
    }
    assert(a@ =~= b@);
    true
}

/// Whether the `;`-separated list `path_var` names folder `dir`.
pub fn path_has_dir(path_var: &str, dir: &str) -> (r: bool)
    ensures
        r == path_has_dir_spec(path_var@, dir@),
{
    let want = folded(dir);
    let ghost pieces = split_all(path_var@, ';');
    let mut rest = chars_of(path_var);
    let ghost mut seen: int = 0;
    loop
        invariant
            0 <= seen <= pieces.len(),
            pieces.subrange(seen, pieces.len() as int) == split_all(rest@, ';'),
            pieces == split_all(path_var@, ';'),
            want@ == trim_end_char(lowercase_of(dir@), '\\'),
            forall|j: int| 0 <= j < seen ==> !names_dir(#[trigger] pieces[j], dir@),
        decreases rest@.len(),
    {
        proof {
            lemma_first_index_of(rest@, ';');
        }
        let ghost rest_pieces = split_all(rest@, ';');
        let (piece, next) = match find_char(&rest, ';') {
            Some(i) => {
                let n = rest.len();
                let tail = sub_chars(&rest, i + 1, n);
                assert(tail@ =~= rest@.skip(i + 1));
                assert(rest_pieces == seq![rest@.take(i as int)] + split_all(tail@, ';'));
                (string_of(&sub_chars(&rest, 0, i)), Some(tail))
            },
            None => (string_of(&rest), None),
        };
        assert(rest_pieces[0] =~= piece@);
        assert(rest_pieces.len() >= 1);
        assert(pieces.subrange(seen, pieces.len() as int)[0] == pieces[seen]);
        assert(pieces[seen] == rest_pieces[0]);
        if chars_equal(&folded(piece.as_str()), &want) {
            assert(names_dir(pieces[seen], dir@));
            return true;
        }
        match next {
            Some(tail) => {
                assert(pieces.subrange(seen + 1, pieces.len() as int) =~= pieces.subrange(
                    seen,
                    pieces.len() as int,
                ).drop_first());
                rest = tail;
                proof {
                    seen = seen + 1;
                }
            },
            None => {
                assert(seen + 1 == pieces.len());
                assert forall|j: int| 0 <= j < pieces.len() implies !names_dir(
                    #[trigger] pieces[j],
                    dir@,
                ) by {
                    if j == seen {
                    }
                }
                return false;
            },
        }
    }
}

/// The user `PATH` value after adding folder `dir` to `current`: none when
/// it is already there; `dir` alone when `current` is empty; otherwise
/// `current` (trailing `;`s dropped), `;` and `dir`.
pub open spec fn path_with_dir_spec(current: Seq<char>, dir: Seq<char>) -> Option<Seq<char>> {
    if path_has_dir_spec(current, dir) {
        None
    } else if current.len() == 0 {
        Some(dir)
    } else {
        Some(trim_end_char(current, ';') + ";"@ + dir)
    }
}

/// The user `PATH` value after adding folder `dir` to `current`, or none
/// when it is already there.
pub fn path_with_dir(current: &str, dir: &str) -> (r: Option<String>)
    ensures
        match r {
            Some(v) => path_with_dir_spec(current@, dir@) == Some(v@),
            None => path_with_dir_spec(current@, dir@) is None,
        },
{
    if path_has_dir(current, dir) {
        return None;
    }
    if current.is_empty() {
        return Some(dir.to_owned());
    }
    let v = chars_of(current);
    let n = trim_end_char_len(&v, v.len(), ';');
    assert(v@.subrange(0, v@.len() as int) =~= v@);
    let mut out = string_of_range(&v, 0, n);
    push_str(&mut out, ";");
    push_str(&mut out, dir);
    Some(out)
}

/// The position of the first occurrence of `p` in `s` (at or after `from`),
/// or -1 when there is none.
pub open spec fn find_from(s: Seq<char>, p: Seq<char>, from: int) -> int
    decreases s.len() + 1 - from,
{
    if from < 0 || from + p.len() > s.len() {
        -1
    } else if occurs_at(s, p, from) {
        from
    } else {
        find_from(s, p, from + 1)
    }
}

/// Where `find_from` finds `p`, it fits in `s`.
pub proof fn lemma_find_from_bound(s: Seq<char>, p: Seq<char>, from: int)
    ensures
        find_from(s, p, from) >= 0 ==> from <= find_from(s, p, from) && find_from(s, p, from)
            + p.len() <= s.len(),
    decreases s.len() + 1 - from,
{
    if from >= 0 && from + p.len() <= s.len() && !occurs_at(s, p, from) {
        lemma_find_from_bound(s, p, from + 1);
    }
}

/// The part of `s` after the second occurrence of `sep` (occurrences taken
/// left to right without overlap), if there are two: the third piece of
/// `splitn(3, sep)`.
pub open spec fn third_piece(s: Seq<char>, sep: Seq<char>) -> Option<Seq<char>> {
    let a = find_from(s, sep, 0);
    if a < 0 {
        None
    } else {
        let b = find_from(s, sep, a + sep.len());
        if b < 0 {
            None
        } else {
            Some(s.skip(b + sep.len()))
        }
    }
}

/// The first of `lines` holding both `REG_` and `Path`.
pub open spec fn first_path_line(lines: Seq<Seq<char>>) -> Option<Seq<char>>
    decreases lines.len(),
{
    if lines.len() == 0 {
        None
    } else if has_substring(lines[0], "REG_"@) && has_substring(lines[0], "Path"@) {
        Some(lines[0])
    } else {
        first_path_line(lines.drop_first())
    }
}

/// The user `PATH` as a registry query prints it: on the first line naming
/// `REG_` and `Path`, the trimmed text after the second run of four spaces;
/// empty when there is no such line or text.
pub open spec fn reg_query_path_spec(output: Seq<char>) -> Seq<char> {
    match first_path_line(lines_spec(output)) {
        Some(line) => match third_piece(line, "    "@) {
            Some(v) => trim_ws(v),
            None => Seq::empty(),
        },
        None => Seq::empty(),
    }
}

/// The first occurrence of `p` in `v` at or after `from`, or none.
fn find_from_exec(v: &Vec<char>, p: &Vec<char>, from: usize) -> (r: Option<usize>)
    requires
        from <= v@.len(),
    ensures
        match r {
            Some(i) => find_from(v@, p@, from as int) == i,
            None => find_from(v@, p@, from as int) == -1,
        },
{
    let mut i = from;
    while i <= v.len()
        invariant
            from <= i,
            find_from(v@, p@, from as int) == find_from(v@, p@, i as int),
        decreases v.len() + 1 - i,
    {
        if p.len() > v.len() - i {
            return None;
        }
        if occurs_at_exec(v, p, i) {
            return Some(i);
        }
        if i == v.len() {
            assert(find_from(v@, p@, i + 1) == -1);
            return None;
        }
        i = i + 1;
    }
    None
}

/// The user `PATH` from the output of a registry query.
pub fn reg_query_path(output: &str) -> (r: String)
    ensures
        r@ == reg_query_path_spec(output@),
{
    let lines = lines_of(output);
    let ghost lv = lines@.map_values(|l: String| l@);
    proof {
        reveal_strlit("REG_");
        reveal_strlit("Path");
        reveal_strlit("    ");
    }
    let reg = chars_of("REG_");
    let path = chars_of("Path");
    let sep = chars_of("    ");
    let mut i: usize = 0;
    assert(lv.skip(0) =~= lv);
    while i < lines.len()
        invariant
            lv == lines@.map_values(|l: String| l@),
            lv == lines_spec(output@),
            i <= lines@.len(),
            first_path_line(lv) == first_path_line(lv.skip(i as int)),
            reg@ == "REG_"@,
            path@ == "Path"@,
            sep@ == "    "@,
        decreases lines.len() - i,
    {
        let line = chars_of(lines[i].as_str());
        assert(lv.skip(i as int)[0] == line@);
        assert(lv.skip(i as int).drop_first() =~= lv.skip(i + 1));
        if contains_chars(&line, &reg) && contains_chars(&line, &path) {
            proof {
                reveal_strlit("    ");
                lemma_find_from_bound(line@, sep@, 0);
            }
            let found = match find_from_exec(&line, &sep, 0) {
                Some(a) => {
                    proof {
                        lemma_find_from_bound(line@, sep@, a + 4);
                    }
                    if a <= line.len() - 4 {
                        match find_from_exec(&line, &sep, a + 4) {
                            Some(b) => {
                                if b <= line.len() - 4 {
                                    let rest = sub_chars(&line, b + 4, line.len());
                                    assert(rest@ =~= line@.skip(b + 4));
                                    Some(rest)
                                } else {
                                    None
                                }
                            },
                            None => None,
                        }
                    } else {
                        None
                    }
                },
                None => None,
            };
            assert(first_path_line(lv.skip(i as int)) == Some(line@));
            return match found {
                Some(rest) => string_of(&trim_chars(&rest)),
                None => String::new(),
            };
        }
        i = i + 1;
    }
    String::new()
}

/// `x`, a `;` and `d` (which holds no `;`) split at `;`: the last piece is `d`.
proof fn lemma_split_all_last(x: Seq<char>, d: Seq<char>)
    requires
        !has_char(d, ';'),
    ensures
        split_all(x + ";"@ + d, ';').len() > 0,
        split_all(x + ";"@ + d, ';').last() == d,
    decreases x.len(),
{
    reveal_strlit(";");
    let s = x + ";"@ + d;
    lemma_first_index_of(s, ';');
    lemma_first_index_of(x, ';');
    let i = first_index_of(s, ';');
    assert(s[x.len() as int] == ';');
    if first_index_of(x, ';') >= 0 {
        let j = first_index_of(x, ';');
        assert(s[j] == ';');
        assert forall|k: int| 0 <= k < j implies s[k] != ';' by {
            assert(s[k] == x[k]);
        }
        assert(i == j);
        let rest = x.skip(j + 1);
        assert(s.skip(i + 1) =~= rest + ";"@ + d);
        lemma_split_all_last(rest, d);
    } else {
        assert forall|k: int| 0 <= k < x.len() implies s[k] != ';' by {
            assert(s[k] == x[k]);
            if x[k] == ';' {
                assert(has_char(x, ';'));
            }
        }
        assert(i == x.len());
        assert(s.skip(i + 1) =~= d);
        lemma_first_index_of(d, ';');
        assert(split_all(d, ';') == seq![d]);
    }
}

/// After adding a folder (whose path holds no `;`) to the user `PATH`, the
/// `PATH` names that folder; and a `PATH` that already names it is left as
/// it is.
pub proof fn lemma_added_dir_is_on_path(current: Seq<char>, dir: Seq<char>)
    requires
        !has_char(dir, ';'),
    ensures
        path_with_dir_spec(current, dir) matches Some(n) ==> path_has_dir_spec(n, dir),
        path_has_dir_spec(current, dir) ==> path_with_dir_spec(current, dir) is None,
{
    match path_with_dir_spec(current, dir) {
        Some(n) => {
            if current.len() == 0 {
                lemma_first_index_of(dir, ';');
                assert(split_all(dir, ';') == seq![dir]);
                assert(names_dir(split_all(n, ';')[0], dir));
            } else {
                let x = trim_end_char(current, ';');
                assert(n == x + ";"@ + dir);
                lemma_split_all_last(x, dir);
                let pieces = split_all(n, ';');
                assert(names_dir(pieces[pieces.len() - 1], dir));
            }
        },
        None => {},
    }
}

} // verus!
