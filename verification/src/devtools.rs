//! Pure parts of the developer commands: reading a git remote, quoting
//! values for YAML, and writing a new manifest.
use vstd::prelude::*;

use crate::manifest::{
    Source, SourceError, first_two_segments, github_http, github_https, slug_spec, slugify,
    split_at_first, parse_source_spec, SourceSpec,
};
use crate::text::{
    chars_of, first_index_of, has_char, has_prefix, has_suffix, contains_char, push_decimal,
    decimal_spec, push_str, starts_with_chars, ends_with_chars, string_of, sub_chars,
    trim_end_char, trim_end_char_len, trim_end_seq, trim_end_seq_len, lemma_first_index_of,
};

verus! {

/// `"git@github.com:"`
pub open spec fn github_ssh() -> Seq<char> {
    "git@github.com:"@
}

/// `path` with trailing `/`s and then trailing `.git`s removed.
pub open spec fn clean_repo_path(path: Seq<char>) -> Seq<char> {
    trim_end_seq(trim_end_char(path, '/'), ".git"@)
}

/// Owner and repo from a GitHub remote URL: `https://github.com/owner/repo[.git]`
/// (or `http://`), or `git@github.com:owner/repo[.git]`.
pub open spec fn parse_github_url_spec(url: Seq<char>) -> Option<(Seq<char>, Seq<char>)> {
    if has_prefix(url, github_https()) || has_prefix(url, github_http()) {
        let path = if has_prefix(url, github_https()) {
            url.skip(github_https().len() as int)
        } else {
            url.skip(github_http().len() as int)
        };
        first_two_segments(clean_repo_path(path))
    } else if has_prefix(url, github_ssh()) {
        let p = clean_repo_path(url.skip(github_ssh().len() as int));
        let i = first_index_of(p, '/');
        if i > 0 && i + 1 < p.len() {
            Some((p.take(i), p.skip(i + 1)))
        } else {
            None
        }
    } else {
        None
    }
}

/// `v[..len]` with trailing `/`s and then trailing `.git`s removed.
fn clean_repo_path_exec(v: &Vec<char>) -> (r: Vec<char>)
    ensures
        r@ == clean_repo_path(v@),
{
    let n = trim_end_char_len(v, v.len(), '/');
    assert(v@.subrange(0, v@.len() as int) =~= v@);
    let git = chars_of(".git");
    let m = trim_end_seq_len(v, n, &git);
    let r = sub_chars(v, 0, m);
    r
}

/// Parse a GitHub URL into (owner, repo).
pub fn parse_github_url(url: &str) -> (r: (Option<String>, Option<String>))
    ensures
        r.0 is Some <==> parse_github_url_spec(url@) is Some,
        r.1 is Some <==> parse_github_url_spec(url@) is Some,
        parse_github_url_spec(url@) matches Some((o, p)) ==> r.0->0@ == o && r.1->0@ == p,
{
    let v = chars_of(url);
    let https = chars_of("https://github.com/");
    let http = chars_of("http://github.com/");
    let ssh = chars_of("git@github.com:");
    if starts_with_chars(&v, &https) || starts_with_chars(&v, &http) {
        let path = if starts_with_chars(&v, &https) {
            sub_chars(&v, https.len(), v.len())
        } else {
            sub_chars(&v, http.len(), v.len())
        };
        let cleaned = clean_repo_path_exec(&path);
        return match crate::manifest::first_two_segments_exec(&cleaned) {
            Some((owner, repo)) => (Some(string_of(&owner)), Some(string_of(&repo))),
            None => (None, None),
        };
    }
    if starts_with_chars(&v, &ssh) {
        let path = sub_chars(&v, ssh.len(), v.len());
        let p = clean_repo_path_exec(&path);
        proof {
            lemma_first_index_of(p@, '/');
        }
        return match split_at_first(&p, '/') {
            Some((owner, repo)) => {
                if owner.len() > 0 && repo.len() > 0 {
                    (Some(string_of(&owner)), Some(string_of(&repo)))
                } else {
                    (None, None)
                }
            },
            None => (None, None),
        };
    }
    (None, None)
}

/// The characters that, at the start of a value, make YAML read something
/// other than a plain string (an alias, anchor, tag, block scalar, directive,
/// sequence or mapping entry, or flow collection).
pub open spec fn yaml_indicator(c: char) -> bool {
    c == '*' || c == '&' || c == '!' || c == '@' || c == '`' || c == '|' || c == '>' || c == '%'
        || c == '?' || c == '-' || c == ',' || c == '[' || c == ']' || c == '{' || c == '}'
}

/// Whether a value must be quoted to stay a plain YAML string: it is empty,
/// starts with an indicator, holds a character that ends or comments a plain
/// value (`:`, `#`), a quote or a line break, or has a space at either end.
pub open spec fn needs_yaml_quotes(s: Seq<char>) -> bool {
    ||| s.len() == 0
    ||| yaml_indicator(s[0])
    ||| has_char(s, ':')
    ||| has_char(s, '#')
    ||| has_char(s, '\'')
    ||| has_char(s, '"')
    ||| has_char(s, '\n')
    ||| has_prefix(s, " "@)
    ||| has_suffix(s, " "@)
}

/// The escape for one character inside double quotes.
pub open spec fn yaml_escape_char(c: char) -> Seq<char> {
    if c == '\\' {
        seq!['\\', '\\']
    } else if c == '"' {
        seq!['\\', '"']
    } else {
        seq![c]
    }
}

/// `s` with backslashes and double quotes escaped by a backslash.
pub open spec fn yaml_escape(s: Seq<char>) -> Seq<char>
    decreases s.len(),
{
    if s.len() == 0 {
        Seq::empty()
    } else {
        yaml_escape(s.drop_last()) + yaml_escape_char(s.last())
    }
}

/// What `yaml_quote` gives: the value itself, or the escaped value in double
/// quotes when it needs quoting.
pub open spec fn yaml_quote_spec(s: Seq<char>) -> Seq<char> {
    if needs_yaml_quotes(s) {
        seq!['"'] + yaml_escape(s) + seq!['"']
    } else {
        s
    }
}

/// Quote a string for YAML if it contains special characters.
pub fn yaml_quote(s: &str) -> (r: String)
    ensures
        r@ == yaml_quote_spec(s@),
{
    let v = chars_of(s);
    let starts_with_indicator = v.len() > 0 && {
        let c = v[0];
        c == '*' || c == '&' || c == '!' || c == '@' || c == '`' || c == '|' || c == '>' || c
            == '%' || c == '?' || c == '-' || c == ',' || c == '[' || c == ']' || c == '{' || c
            == '}'
    };
    let needs = v.len() == 0 || starts_with_indicator || contains_char(&v, ':') || contains_char(
        &v,
        '#',
    ) || contains_char(&v, '\'') || contains_char(&v, '"') || contains_char(&v, '\n')
        || starts_with_chars(&v, &chars_of(" ")) || ends_with_chars(&v, &chars_of(" "));
    if !needs {
        return string_of(&v);
    }
    let mut out = String::new();
    out.push('"');
    let mut i: usize = 0;
    assert(v@.take(0) =~= Seq::<char>::empty());
    while i < v.len()
        invariant
            i <= v@.len(),
            v@ == s@,
            out@ == seq!['"'] + yaml_escape(v@.take(i as int)),
        decreases v.len() - i,
    {
        let ghost t = v@.take(i + 1);
        assert(t.drop_last() =~= v@.take(i as int));
        assert(t.last() == v@[i as int]);
        let c = v[i];
        if c == '\\' {
            out.push('\\');
            out.push('\\');
        } else if c == '"' {
            out.push('\\');
            out.push('"');
        } else {
            out.push(c);
        }
        assert(out@ =~= seq!['"'] + yaml_escape(t));
        i = i + 1;
    }
    assert(v@.take(v@.len() as int) =~= v@);
    out.push('"');
    out
}

/// Reads a double-quoted YAML body back: a backslash takes the character
/// after it literally.
pub open spec fn yaml_unescape(t: Seq<char>) -> Seq<char>
    decreases t.len(),
{
    if t.len() == 0 {
        Seq::empty()
    } else if t[0] == '\\' && t.len() >= 2 {
        seq![t[1]] + yaml_unescape(t.skip(2))
    } else {
        seq![t[0]] + yaml_unescape(t.drop_first())
    }
}

/// Escaping a concatenation escapes each part.
proof fn lemma_yaml_escape_concat(a: Seq<char>, b: Seq<char>)
    ensures
        yaml_escape(a + b) == yaml_escape(a) + yaml_escape(b),
    decreases b.len(),
{
    if b.len() == 0 {
        assert(a + b =~= a);
        assert(yaml_escape(a) + yaml_escape(b) =~= yaml_escape(a));
    } else {
        lemma_yaml_escape_concat(a, b.drop_last());
        assert((a + b).drop_last() =~= a + b.drop_last());
        assert((a + b).last() == b.last());
        assert(yaml_escape(a) + yaml_escape(b) =~= yaml_escape(a) + yaml_escape(b.drop_last())
            + yaml_escape_char(b.last()));
    }
}

/// Quoting loses nothing. A value that needs quotes is written as its
/// escaped form between double quotes, and that text reads back, by YAML's
/// backslash escapes, as the value. A value written as it is is not empty,
/// does not start with a YAML indicator, and holds no `:`, `#`, quote or
/// line break and no space at either end, so YAML reads it as that string.
pub proof fn lemma_yaml_quote_reversible(s: Seq<char>)
    ensures
        yaml_unescape(yaml_escape(s)) == s,
        needs_yaml_quotes(s) ==> yaml_quote_spec(s) == seq!['"'] + yaml_escape(s) + seq!['"'],
        !needs_yaml_quotes(s) ==> {
            &&& yaml_quote_spec(s) == s
            &&& s.len() > 0
            &&& !yaml_indicator(s[0])
            &&& forall|i: int|
                0 <= i < s.len() ==> s[i] != ':' && s[i] != '#' && s[i] != '\'' && s[i] != '"'
                    && s[i] != '\n'
            &&& s[0] != ' ' && s[s.len() - 1] != ' '
        },
    decreases s.len(),
{
    if !needs_yaml_quotes(s) {
        assert(s.subrange(0, 1) =~= seq![s[0]]);
        assert(s.subrange(s.len() - 1, s.len() as int) =~= seq![s[s.len() - 1]]);
        assert(" "@ =~= seq![' ']) by {
            reveal_strlit(" ");
        }
    }
    if s.len() > 0 {
        let rest = s.drop_first();
        lemma_yaml_quote_reversible(rest);
        lemma_yaml_escape_concat(seq![s[0]], rest);
        assert(seq![s[0]] + rest =~= s);
        assert(yaml_escape(seq![s[0]]) =~= yaml_escape_char(s[0])) by {
            let one = seq![s[0]];
            assert(one.drop_last() =~= Seq::<char>::empty());
            assert(yaml_escape(one.drop_last()) =~= Seq::<char>::empty());
            assert(one.last() == s[0]);
            assert(yaml_escape(one) == yaml_escape(one.drop_last()) + yaml_escape_char(one.last()));
        }
        let e = yaml_escape(s);
        let er = yaml_escape(rest);
        assert(e == yaml_escape_char(s[0]) + er);
        if s[0] == '\\' || s[0] == '"' {
            assert(e.skip(2) =~= er);
        } else {
            assert(e.drop_first() =~= er);
        }
        assert(seq![s[0]] + rest =~= s);
    } else {
        assert(yaml_unescape(yaml_escape(s)) =~= s);
    }
}

/// The manifest `init` writes, from the answers given.
pub open spec fn init_manifest_yaml_spec(
    mod_name: Seq<char>,
    description: Seq<char>,
    author: Seq<char>,
    source: Seq<char>,
    game_name: Seq<char>,
    steam_id: Option<u32>,
    loader: Seq<char>,
) -> Seq<char> {
    let id = slug_spec(mod_name);
    let head = "spec: 1\n\nid: "@ + id + "\nname: "@ + yaml_quote_spec(mod_name) + "\ndescription: "@
        + yaml_quote_spec(description) + "\nauthor: "@ + yaml_quote_spec(author)
        + "\nversion: \"0.1.0\"\nsource: "@ + source + "\n\ngame:\n  name: "@ + yaml_quote_spec(
        game_name,
    ) + "\n"@;
    let store = match steam_id {
        Some(n) => "  store:\n    steam: "@ + decimal_spec(n as nat) + "\n"@,
        None => Seq::empty(),
    };
    head + store + "\nloader:\n  name: "@ + loader + "\n\nrelease:\n  asset: \""@ + id
        + "-{version}.zip\"\n"@
}

/// The `store` block `init` writes for Steam app id `n`.
pub open spec fn steam_store_block(n: u32) -> Seq<char> {
    "  store:\n    steam: "@ + decimal_spec(n as nat) + "\n"@
}

/// The store block is written exactly when a Steam app id is given: the
/// manifest written without an id is the one written with id `n` with that
/// id's `store` block cut out, and nothing else differs.
pub proof fn lemma_store_block_only_with_steam_id(
    mod_name: Seq<char>,
    description: Seq<char>,
    author: Seq<char>,
    source: Seq<char>,
    game_name: Seq<char>,
    loader: Seq<char>,
    n: u32,
)
    ensures
        ({
            let with = init_manifest_yaml_spec(mod_name, description, author, source, game_name, Some(n), loader);
            let without = init_manifest_yaml_spec(mod_name, description, author, source, game_name, None, loader);
            let b = steam_store_block(n);
            exists|k: int|
                0 <= k && k + b.len() <= with.len() && #[trigger] with.subrange(k, k + b.len()) == b
                    && without == with.take(k) + with.skip(k + b.len())
        }),
{
    let id = slug_spec(mod_name);
    let head = "spec: 1\n\nid: "@ + id + "\nname: "@ + yaml_quote_spec(mod_name) + "\ndescription: "@
        + yaml_quote_spec(description) + "\nauthor: "@ + yaml_quote_spec(author)
        + "\nversion: \"0.1.0\"\nsource: "@ + source + "\n\ngame:\n  name: "@ + yaml_quote_spec(
        game_name,
    ) + "\n"@;
    let tail = "\nloader:\n  name: "@ + loader + "\n\nrelease:\n  asset: \""@ + id
        + "-{version}.zip\"\n"@;
    let b = steam_store_block(n);
    let with = init_manifest_yaml_spec(mod_name, description, author, source, game_name, Some(n), loader);
    let without = init_manifest_yaml_spec(mod_name, description, author, source, game_name, None, loader);
    assert(with =~= head + b + tail);
    assert(without =~= head + Seq::<char>::empty() + tail);
    let k = head.len() as int;
    assert(with.subrange(k, k + b.len()) =~= b);
    assert(with.take(k) =~= head);
    assert(with.skip(k + b.len()) =~= tail);
    assert(without =~= with.take(k) + with.skip(k + b.len()));
}

/// The manifest text `init` writes: the mod's id is the slug of its name, its
/// version starts at 0.1.0, and its release asset is `{id}-{version}.zip`.
pub fn init_manifest_yaml(
    mod_name: &str,
    description: &str,
    author: &str,
    source: &str,
    game_name: &str,
    steam_id: Option<u32>,
    loader: &str,
) -> (r: String)
    ensures
        r@ == init_manifest_yaml_spec(
            mod_name@,
            description@,
            author@,
            source@,
            game_name@,
            steam_id,
            loader@,
        ),
{
    let id = slugify(mod_name);
    let mut y = String::new();
    push_str(&mut y, "spec: 1\n\nid: ");
    push_str(&mut y, id.as_str());
    push_str(&mut y, "\nname: ");
    push_str(&mut y, yaml_quote(mod_name).as_str());
    push_str(&mut y, "\ndescription: ");
    push_str(&mut y, yaml_quote(description).as_str());
    push_str(&mut y, "\nauthor: ");
    push_str(&mut y, yaml_quote(author).as_str());
    push_str(&mut y, "\nversion: \"0.1.0\"\nsource: ");
    push_str(&mut y, source);
    push_str(&mut y, "\n\ngame:\n  name: ");
    push_str(&mut y, yaml_quote(game_name).as_str());
    push_str(&mut y, "\n");
    match steam_id {
        Some(n) => {
            push_str(&mut y, "  store:\n    steam: ");
            push_decimal(&mut y, n as u64);
            push_str(&mut y, "\n");
        },
        None => {},
    }
    push_str(&mut y, "\nloader:\n  name: ");
    push_str(&mut y, loader);
    push_str(&mut y, "\n\nrelease:\n  asset: \"");
    push_str(&mut y, id.as_str());
    push_str(&mut y, "-{version}.zip\"\n");
    assert(y@ =~= init_manifest_yaml_spec(
        mod_name@,
        description@,
        author@,
        source@,
        game_name@,
        steam_id,
        loader@,
    ));
    y
}

/// Check an answer for the source prompt: it must parse as a source.
pub fn validate_source(v: &str) -> (r: Result<(), SourceError>)
    ensures
        r is Ok <==> parse_source_spec(v@) is Ok,
        r matches Err(e) ==> parse_source_spec(v@) == Err::<SourceSpec, SourceError>(e),
{
    match Source::parse(v) {
        Ok(_) => Ok(()),
        Err(e) => Err(e),
    }
}

} // verus!
