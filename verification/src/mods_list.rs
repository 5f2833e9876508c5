//! UE4SS's `mods.txt`: one `name : 0|1` line per mod, telling UE4SS which
//! mods to load. Installing a mod enables its line, or adds one in front.
use vstd::prelude::*;

use crate::std_ext::{is_whitespace, is_whitespace_char};
use crate::text::{
    chars_of, find_char, first_index_of, has_char, join_seqs, join_strings,
    lemma_first_index_of, push_str, string_of, string_of_range, sub_chars,
};

verus! {

/// `s` without one trailing carriage return.
pub open spec fn strip_cr(s: Seq<char>) -> Seq<char> {
    if s.len() > 0 && s.last() == '\r' {
        s.drop_last()
    } else {
        s
    }
}

/// The lines of a text, as `str::lines` gives them: split at each line
/// feed, one carriage return before it dropped; a final line feed ends the
/// last line rather than starting an empty one.
pub open spec fn lines_spec(s: Seq<char>) -> Seq<Seq<char>>
    decreases s.len(),
{
    if s.len() == 0 {
        Seq::empty()
    } else {
        let i = first_index_of(s, '\n');
        if i < 0 {
            seq![s]
        } else {
            proof {
                lemma_first_index_of(s, '\n');
            }
            seq![strip_cr(s.take(i))] + lines_spec(s.skip(i + 1))
        }
    }
}

/// `s` without its leading whitespace.
pub open spec fn trim_start_ws(s: Seq<char>) -> Seq<char>
    decreases s.len(),
{
    if s.len() > 0 && is_whitespace_char(s[0]) {
        trim_start_ws(s.drop_first())
    } else {
        s
    }
}

/// `s` without its trailing whitespace.
pub open spec fn trim_end_ws(s: Seq<char>) -> Seq<char>
    decreases s.len(),
{
    if s.len() > 0 && is_whitespace_char(s.last()) {
        trim_end_ws(s.drop_last())
    } else {
        s
    }
}

/// `s` without leading and trailing whitespace, as `str::trim` gives it.
pub open spec fn trim_ws(s: Seq<char>) -> Seq<char> {
    trim_end_ws(trim_start_ws(s))
}

/// The part of `s` before its first colon (all of it when there is none).
pub open spec fn before_colon(s: Seq<char>) -> Seq<char> {
    let i = first_index_of(s, ':');
    if i < 0 {
        s
    } else {
        s.take(i)
    }
}

/// The mod a `mods.txt` line names: the trimmed text before the colon of
/// the trimmed line.
pub open spec fn entry_name(line: Seq<char>) -> Seq<char> {
    trim_ws(before_colon(trim_ws(line)))
}

/// The line that enables mod `slug`.
pub open spec fn enabled_line(slug: Seq<char>) -> Seq<char> {
    slug + " : 1"@
}

/// The position of the first line that names `slug`, or -1 when none does.
pub open spec fn first_entry(lines: Seq<Seq<char>>, slug: Seq<char>) -> int
    decreases lines.len(),
{
    if lines.len() == 0 {
        -1
    } else if entry_name(lines[0]) == slug {
        0
    } else {
        let r = first_entry(lines.drop_first(), slug);
        if r < 0 {
            -1
        } else {
            r + 1
        }
    }
}

/// The lines after enabling `slug`: its first line replaced by the enabled
/// line, or the enabled line put in front when no line names it.
pub open spec fn enable_lines(lines: Seq<Seq<char>>, slug: Seq<char>) -> Seq<Seq<char>> {
    let k = first_entry(lines, slug);
    if k >= 0 {
        lines.update(k, enabled_line(slug))
    } else {
        seq![enabled_line(slug)] + lines
    }
}

/// The new `mods.txt` text, from the old one (none when the file is missing).
pub open spec fn enabled_mods_txt(existing: Option<Seq<char>>, slug: Seq<char>) -> Seq<char> {
    let lines = match existing {
        Some(t) => lines_spec(t),
        None => Seq::empty(),
    };
    join_seqs(enable_lines(lines, slug), "\n"@) + "\n"@
}

/// What `first_entry` is, stated by quantifiers.
pub proof fn lemma_first_entry(lines: Seq<Seq<char>>, slug: Seq<char>)
    ensures
        -1 <= first_entry(lines, slug) < lines.len(),
        first_entry(lines, slug) >= 0 ==> entry_name(lines[first_entry(lines, slug)]) == slug,
        forall|j: int|
            0 <= j < lines.len() && (first_entry(lines, slug) < 0 || j < first_entry(lines, slug))
                ==> entry_name(#[trigger] lines[j]) != slug,
    decreases lines.len(),
{
    if lines.len() > 0 && entry_name(lines[0]) != slug {
        let t = lines.drop_first();
        lemma_first_entry(t, slug);
        assert forall|j: int|
            0 <= j < lines.len() && (first_entry(lines, slug) < 0 || j < first_entry(lines, slug))
                implies entry_name(#[trigger] lines[j]) != slug by {
            if j > 0 {
                assert(lines[j] == t[j - 1]);
            }
        }
    }
}

/// The lines of `text`, as `str::lines` gives them.
pub fn lines_of(text: &str) -> (r: Vec<String>)
    ensures
        r@.map_values(|l: String| l@) == lines_spec(text@),
{
    let v = chars_of(text);
    let mut out: Vec<String> = Vec::new();
    let mut start: usize = 0;
    assert(v@.skip(0) =~= v@);
    assert(out@.map_values(|l: String| l@) =~= Seq::<Seq<char>>::empty());
    assert(Seq::<Seq<char>>::empty() + lines_spec(v@) =~= lines_spec(v@));
    while start < v.len()
        invariant
            v@ == text@,
            start <= v@.len(),
            out@.map_values(|l: String| l@) + lines_spec(v@.skip(start as int)) == lines_spec(
                v@,
            ),
        decreases v.len() - start,
    {
        let rest = sub_chars(&v, start, v.len());
        assert(rest@ =~= v@.skip(start as int));
        let ghost before = out@.map_values(|l: String| l@);
        match find_char(&rest, '\n') {
            None => {
                out.push(string_of(&rest));
                assert(out@.map_values(|l: String| l@) =~= before.push(rest@));
                assert(v@.skip(v@.len() as int) =~= Seq::<char>::empty());
                assert(lines_spec(rest@) =~= seq![rest@]);
                start = v.len();
            },
            Some(i) => {
                proof {
                    lemma_first_index_of(rest@, '\n');
                }
                let mut end = start + i;
                if i > 0 && v[end - 1] == '\r' {
                    end = end - 1;
                }
                out.push(string_of_range(&v, start, end));
                let ghost line = v@.subrange(start as int, end as int);
                assert(line =~= strip_cr(rest@.take(i as int)));
                assert(out@.map_values(|l: String| l@) =~= before.push(line));
                assert(rest@.skip(i + 1) =~= v@.skip(start + i + 1));
                assert(lines_spec(rest@) =~= seq![line] + lines_spec(v@.skip(start + i + 1)));
                assert(before.push(line) + lines_spec(v@.skip(start + i + 1)) =~= before
                    + lines_spec(rest@));
                start = start + i + 1;
            },
        }
    }
    assert(v@.skip(v@.len() as int) =~= Seq::<char>::empty());
    assert(out@.map_values(|l: String| l@) + lines_spec(Seq::<char>::empty()) =~= out@.map_values(
        |l: String| l@,
    ));
    out
}

/// `v` without leading and trailing whitespace.
pub fn trim_chars(v: &Vec<char>) -> (r: Vec<char>)
    ensures
        r@ == trim_ws(v@),
{
    let mut a: usize = 0;
    assert(v@.skip(0) =~= v@);
    while a < v.len() && is_whitespace(v[a])
        invariant
            a <= v@.len(),
            trim_start_ws(v@) == trim_start_ws(v@.skip(a as int)),
        decreases v.len() - a,
    {
        assert(v@.skip(a as int).drop_first() =~= v@.skip(a + 1));
        a = a + 1;
    }
    assert(trim_start_ws(v@.skip(a as int)) == v@.skip(a as int));
    let mut b: usize = v.len();
    assert(v@.subrange(a as int, b as int) =~= v@.skip(a as int));
    while b > a && is_whitespace(v[b - 1])
        invariant
            a <= b <= v@.len(),
            trim_ws(v@) == trim_end_ws(v@.subrange(a as int, b as int)),
        decreases b - a,
    {
        assert(v@.subrange(a as int, b as int).drop_last() =~= v@.subrange(a as int, b - 1));
        b = b - 1;
    }
    sub_chars(v, a, b)
}

/// The mod a `mods.txt` line names.
pub fn entry_name_of(line: &str) -> (r: Vec<char>)
    ensures
        r@ == entry_name(line@),
{
    let t = trim_chars(&chars_of(line));
    proof {
        lemma_first_index_of(t@, ':');
    }
    let head = match find_char(&t, ':') {
        Some(i) => sub_chars(&t, 0, i),
        None => t,
    };
    assert(head@ =~= before_colon(trim_ws(line@)));
    trim_chars(&head)
}

/// Whether two character lists are equal.
fn same_chars(a: &Vec<char>, b: &Vec<char>) -> (r: bool)
    ensures
        r == (a@ == b@),
{
    if a.len() != b.len() {
        return false;
    }
    let mut i: usize = 0;
    while i < a.len()
        invariant
            a@.len() == b@.len(),
            i <= a@.len(),
            forall|j: int| 0 <= j < i ==> a@[j] == b@[j],
        decreases a.len() - i,
    {
        if a[i] != b[i] {
            return false;
        }
        i = i + 1;
    }
    assert(a@ =~= b@);
    true
}

/// Enable mod `mod_slug` in a `mods.txt` whose text is `existing` (none
/// when the file does not exist yet): its first line becomes
/// `mod_slug : 1`, or that line is added in front. The text ends with a line feed.
pub fn enable_mod_entry(existing: Option<&str>, mod_slug: &str) -> (r: String)
    ensures
        r@ == enabled_mods_txt(
            match existing {
                Some(t) => Some(t@),
                None => None,
            },
            mod_slug@,
        ),
{
    let mut lines: Vec<String> = match existing {
        Some(t) => lines_of(t),
        None => Vec::new(),
    };
    let ghost old_lines = lines@.map_values(|l: String| l@);
    assert(old_lines == match existing {
        Some(t) => lines_spec(t@),
        None => Seq::<Seq<char>>::empty(),
    });
    let slug = chars_of(mod_slug);
    let mut line = String::new();
    push_str(&mut line, mod_slug);
    push_str(&mut line, " : 1");
    proof {
        lemma_first_entry(old_lines, mod_slug@);
    }
    let mut i: usize = 0;
    let mut found = false;
    while i < lines.len() && !found
        invariant
            lines@.map_values(|l: String| l@) == old_lines,
            i <= lines@.len(),
            slug@ == mod_slug@,
            forall|j: int| 0 <= j < i ==> entry_name(#[trigger] old_lines[j]) != mod_slug@,
            found ==> i < lines@.len() && entry_name(old_lines[i as int]) == mod_slug@,
        decreases lines.len() - i + (if found { 0int } else { 1int }),
    {
        let name = entry_name_of(lines[i].as_str());
        assert(old_lines[i as int] == lines@[i as int]@);
        if same_chars(&name, &slug) {
            found = true;
        } else {
            i = i + 1;
        }
    }
    let ghost new_lines = enable_lines(old_lines, mod_slug@);
    if found {
        assert(first_entry(old_lines, mod_slug@) == i);
        lines.set(i, line);
        assert(lines@.map_values(|l: String| l@) =~= new_lines);
    } else {
        assert(first_entry(old_lines, mod_slug@) == -1);
        lines.insert(0, line);
        assert(lines@.map_values(|l: String| l@) =~= new_lines);
    }
    let mut out = join_strings(&lines, "\n");
    push_str(&mut out, "\n");
    out
}

/// The enabled line of a mod names that mod, when the name has no colon and
/// no whitespace at either end.
pub proof fn lemma_enabled_line_names(slug: Seq<char>)
    requires
        !has_char(slug, ':'),
        slug.len() > 0 ==> !is_whitespace_char(slug[0]) && !is_whitespace_char(slug.last()),
    ensures
        entry_name(enabled_line(slug)) == slug,
{
    reveal_strlit(" : 1");
    reveal_strlit(": 1");
    reveal_strlit(" ");
    let l = enabled_line(slug);
    let n: int = slug.len() as int;
    assert(l[n] == ' ');
    assert(l[n + 1] == ':');
    assert(l.last() == '1');
    assert forall|j: int| 0 <= j < n implies l[j] != ':' by {
        assert(l[j] == slug[j]);
    }
    let spaced = slug + " "@;
    if n > 0 {
        assert(trim_start_ws(l) == l);
        assert(trim_ws(l) == l);
        lemma_first_index_of(l, ':');
        assert(first_index_of(l, ':') == n + 1);
        assert(before_colon(l) =~= spaced);
        assert(trim_start_ws(spaced) == spaced);
        assert(spaced.drop_last() =~= slug);
        assert(trim_end_ws(spaced) == trim_end_ws(slug));
        assert(trim_end_ws(slug) == slug);
    } else {
        assert(l.drop_first() =~= ": 1"@);
        assert(trim_start_ws(l) == trim_start_ws(l.drop_first()));
        let c = l.drop_first();
        assert(trim_start_ws(c) == c);
        assert(trim_ws(l) == c);
        assert(first_index_of(c, ':') == 0);
        assert(before_colon(c) =~= Seq::<char>::empty());
    }
}

/// Enabling a mod (whose name has no colon and no whitespace at either end)
/// makes the first line naming it its enabled line, and keeps every other
/// line: the old first line naming it is replaced, or when there was none,
/// the enabled line is put in front of the old lines.
pub proof fn lemma_enable_lines(lines: Seq<Seq<char>>, slug: Seq<char>)
    requires
        !has_char(slug, ':'),
        slug.len() > 0 ==> !is_whitespace_char(slug[0]) && !is_whitespace_char(slug.last()),
    ensures
        ({
            let e = enable_lines(lines, slug);
            let k = first_entry(lines, slug);
            &&& first_entry(e, slug) >= 0
            &&& e[first_entry(e, slug)] == enabled_line(slug)
            &&& k >= 0 ==> first_entry(e, slug) == k && e.len() == lines.len() && forall|j: int|
                0 <= j < lines.len() && j != k ==> e[j] == lines[j]
            &&& k < 0 ==> first_entry(e, slug) == 0 && e.drop_first() == lines
        }),
{
    lemma_enabled_line_names(slug);
    lemma_first_entry(lines, slug);
    let e = enable_lines(lines, slug);
    let k = first_entry(lines, slug);
    lemma_first_entry(e, slug);
    if k >= 0 {
        assert(entry_name(e[k]) == slug);
        assert forall|j: int| 0 <= j < k implies entry_name(#[trigger] e[j]) != slug by {
            assert(e[j] == lines[j]);
        }
    } else {
        assert(entry_name(e[0]) == slug);
        assert(e.drop_first() =~= lines);
    }
}

/// Enabling a mod twice gives the same lines as enabling it once (for mod
/// names without a colon and without whitespace at either end).
pub proof fn lemma_enable_lines_idempotent(lines: Seq<Seq<char>>, slug: Seq<char>)
    requires
        !has_char(slug, ':'),
        slug.len() > 0 ==> !is_whitespace_char(slug[0]) && !is_whitespace_char(slug.last()),
    ensures
        enable_lines(enable_lines(lines, slug), slug) == enable_lines(lines, slug),
{
    lemma_enable_lines(lines, slug);
    let e = enable_lines(lines, slug);
    lemma_first_entry(e, slug);
    assert(e.update(first_entry(e, slug), enabled_line(slug)) =~= e);
}


/// Joining splits off the first part.
proof fn lemma_join_front(parts: Seq<Seq<char>>, sep: Seq<char>)
    requires
        parts.len() >= 2,
    ensures
        join_seqs(parts, sep) == parts[0] + sep + join_seqs(parts.drop_first(), sep),
    decreases parts.len(),
{
    if parts.len() == 2 {
        assert(parts.drop_last() =~= seq![parts[0]]);
        assert(parts.drop_first() =~= seq![parts[1]]);
        assert(join_seqs(parts.drop_last(), sep) == parts[0]);
        assert(join_seqs(parts.drop_first(), sep) == parts[1]);
        assert(join_seqs(parts, sep) == join_seqs(parts.drop_last(), sep) + sep + parts.last());
    } else {
        lemma_join_front(parts.drop_last(), sep);
        let a = parts.drop_first();
        assert(parts.drop_last().drop_first() =~= a.drop_last());
        assert(a.last() == parts.last());
        assert(join_seqs(a, sep) == join_seqs(a.drop_last(), sep) + sep + a.last());
        assert(join_seqs(parts, sep) =~= parts[0] + sep + join_seqs(a, sep));
    }
}

/// No line of a text holds a line feed.
proof fn lemma_lines_without_newline(s: Seq<char>)
    ensures
        forall|k: int| 0 <= k < lines_spec(s).len() ==> !has_char(#[trigger] lines_spec(s)[k], '\n'),
    decreases s.len(),
{
    lemma_first_index_of(s, '\n');
    if s.len() > 0 {
        let i = first_index_of(s, '\n');
        if i >= 0 {
            lemma_lines_without_newline(s.skip(i + 1));
            let first = strip_cr(s.take(i));
            assert(!has_char(first, '\n')) by {
                if has_char(first, '\n') {
                    let j = choose|j: int| 0 <= j < first.len() && first[j] == '\n';
                    assert(s[j] == '\n');
                }
            }
            assert forall|k: int| 0 <= k < lines_spec(s).len() implies !has_char(
                #[trigger] lines_spec(s)[k],
                '\n',
            ) by {
                if k > 0 {
                    assert(lines_spec(s)[k] == lines_spec(s.skip(i + 1))[k - 1]);
                }
            }
        }
    }
}

/// Lines without line feeds and without a carriage return at the end,
/// written one per line, read back as the same lines.
proof fn lemma_lines_read_back(lines: Seq<Seq<char>>)
    requires
        lines.len() > 0,
        forall|k: int| 0 <= k < lines.len() ==> !has_char(#[trigger] lines[k], '\n'),
        forall|k: int| 0 <= k < lines.len() ==> strip_cr(#[trigger] lines[k]) == lines[k],
    ensures
        lines_spec(join_seqs(lines, "\n"@) + "\n"@) == lines,
    decreases lines.len(),
{
    reveal_strlit("\n");
    let l0 = lines[0];
    lemma_first_index_of(l0, '\n');
    let rest_text = if lines.len() == 1 {
        Seq::<char>::empty()
    } else {
        join_seqs(lines.drop_first(), "\n"@) + "\n"@
    };
    let text = join_seqs(lines, "\n"@) + "\n"@;
    if lines.len() >= 2 {
        lemma_join_front(lines, "\n"@);
    }
    assert(text =~= l0 + seq!['\n'] + rest_text);
    lemma_first_index_of(text, '\n');
    assert(first_index_of(text, '\n') == l0.len()) by {
        let f = first_index_of(text, '\n');
        assert(text[l0.len() as int] == '\n');
        if f < l0.len() {
            assert(text[f] == l0[f]);
        }
    }
    assert(text.take(l0.len() as int) =~= l0);
    assert(strip_cr(lines[0]) == lines[0]);
    assert(text.skip(l0.len() as int + 1) =~= rest_text);
    if lines.len() >= 2 {
        lemma_lines_read_back(lines.drop_first());
        assert(lines_spec(text) =~= seq![l0] + lines.drop_first());
    } else {
        assert(lines_spec(rest_text) == Seq::<Seq<char>>::empty());
        assert(lines_spec(text) =~= seq![l0]);
    }
    assert(lines =~= seq![l0] + lines.drop_first());
}

/// Every carriage return of `t` stands just before a line feed: the text
/// has Unix (`\n`) or Windows (`\r\n`) line ends and no other `\r`.
pub open spec fn cr_only_before_lf(t: Seq<char>) -> bool {
    forall|i: int| 0 <= i < t.len() && #[trigger] t[i] == '\r' ==> i + 1 < t.len() && t[i + 1] == '\n'
}

/// A text with Unix or Windows line ends has no line ending in a carriage
/// return, so it meets the condition of `lemma_enabled_mods_txt_idempotent`.
pub proof fn lemma_crlf_lines(t: Seq<char>)
    requires
        cr_only_before_lf(t),
    ensures
        forall|k: int|
            0 <= k < lines_spec(t).len() ==> strip_cr(#[trigger] lines_spec(t)[k]) == lines_spec(t)[k],
    decreases t.len(),
{
    lemma_first_index_of(t, '\n');
    if t.len() > 0 {
        let i = first_index_of(t, '\n');
        if i < 0 {
            assert(lines_spec(t) == seq![t]);
            if t.last() == '\r' {
                assert(t[t.len() - 1] == '\r');
            }
        } else {
            let rest = t.skip(i + 1);
            assert forall|j: int| 0 <= j < rest.len() && #[trigger] rest[j] == '\r' implies j + 1
                < rest.len() && rest[j + 1] == '\n' by {
                assert(t[i + 1 + j] == '\r');
            }
            lemma_crlf_lines(rest);
            let line = strip_cr(t.take(i));
            assert(strip_cr(line) == line) by {
                if line.len() > 0 && line.last() == '\r' {
                    if i > 0 && t[i - 1] == '\r' {
                        assert(t[i - 2] == '\r');
                    } else {
                        assert(t[i - 1] == '\r');
                    }
                }
            }
            assert forall|k: int| 0 <= k < lines_spec(t).len() implies strip_cr(
                #[trigger] lines_spec(t)[k],
            ) == lines_spec(t)[k] by {
                if k > 0 {
                    assert(lines_spec(t)[k] == lines_spec(rest)[k - 1]);
                }
            }
        }
    }
}

/// Enabling a mod in `mods.txt` twice writes the same text as enabling it
/// once: the written text reads back as the lines that were written, and
/// enabling a mod whose line is already enabled changes no line. This holds
/// for mod names without a colon or line feed and without whitespace at
/// either end, and for an old file none of whose lines ends with a carriage
/// return; files with Windows line ends meet that (`lemma_crlf_lines`). For
/// a line that does end in one (from `a\r\r\n`), the first write keeps it
/// and the second drops it, so the two texts differ.
pub proof fn lemma_enabled_mods_txt_idempotent(existing: Option<Seq<char>>, slug: Seq<char>)
    requires
        !has_char(slug, ':'),
        !has_char(slug, '\n'),
        slug.len() > 0 ==> !is_whitespace_char(slug[0]) && !is_whitespace_char(slug.last()),
        existing matches Some(t) ==> forall|k: int|
            0 <= k < lines_spec(t).len() ==> strip_cr(#[trigger] lines_spec(t)[k]) == lines_spec(t)[k],
    ensures
        enabled_mods_txt(Some(enabled_mods_txt(existing, slug)), slug) == enabled_mods_txt(
            existing,
            slug,
        ),
{
    reveal_strlit(" : 1");
    let lines = match existing {
        Some(t) => lines_spec(t),
        None => Seq::empty(),
    };
    if let Some(t) = existing {
        lemma_lines_without_newline(t);
    }
    let e = enable_lines(lines, slug);
    let line = enabled_line(slug);
    assert(!has_char(line, '\n')) by {
        if has_char(line, '\n') {
            let j = choose|j: int| 0 <= j < line.len() && line[j] == '\n';
            if j < slug.len() {
                assert(line[j] == slug[j]);
            }
        }
    }
    assert(line.last() == '1');
    assert(strip_cr(line) == line);
    lemma_first_entry(lines, slug);
    assert forall|k: int| 0 <= k < e.len() implies !has_char(#[trigger] e[k], '\n') && strip_cr(e[k])
        == e[k] by {
        let f = first_entry(lines, slug);
        if f >= 0 {
            if k != f {
                assert(e[k] == lines[k]);
            }
        } else if k > 0 {
            assert(e[k] == lines[k - 1]);
        }
    }
    lemma_lines_read_back(e);
    lemma_enable_lines_idempotent(lines, slug);
}


/// Enabling a mod twice writes the same text as enabling it once, for a
/// `mods.txt` with Unix or Windows line ends (or none yet).
pub proof fn lemma_enable_twice_with_crlf(existing: Option<Seq<char>>, slug: Seq<char>)
    requires
        !has_char(slug, ':'),
        !has_char(slug, '\n'),
        slug.len() > 0 ==> !is_whitespace_char(slug[0]) && !is_whitespace_char(slug.last()),
        existing matches Some(t) ==> cr_only_before_lf(t),
    ensures
        enabled_mods_txt(Some(enabled_mods_txt(existing, slug)), slug) == enabled_mods_txt(
            existing,
            slug,
        ),
{
    if let Some(t) = existing {
        lemma_crlf_lines(t);
    }
    lemma_enabled_mods_txt_idempotent(existing, slug);
}

} // verus!
