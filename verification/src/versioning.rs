//! Version ordering through the `versions` crate, and the tag order built on it.
use vstd::prelude::*;

use crate::manifest::{normalize_version, normalize_version_spec};
use crate::text::chars_of;

verus! {

/// Whether `versions::Versioning::new` accepts the string (as SemVer, as a
/// general version, or as a "mess"). It depends on the characters alone.
pub uninterp spec fn versioning_valid(s: Seq<char>) -> bool;

/// How `versions::Versioning`'s `Ord` orders the versions that two accepted
/// strings parse to: -1 less, 0 equal, 1 greater. It depends on the
/// characters alone.
pub uninterp spec fn versioning_order(a: Seq<char>, b: Seq<char>) -> int;

/// Calls `versions::Versioning::new` and reports whether it accepted `s`.
#[verifier::external_body]
fn versioning_parses(s: &str) -> (r: bool)
    ensures
        r == versioning_valid(s@),
{
    versions::Versioning::new(s).is_some()
}

/// Parses both strings with `versions::Versioning::new` and compares the
/// results with `Versioning`'s `Ord::cmp`, as -1, 0 or 1.
#[verifier::external_body]
fn versioning_compare(a: &str, b: &str) -> (r: i8)
    requires
        versioning_valid(a@),
        versioning_valid(b@),
    ensures
        r == versioning_order(a@, b@),
        -1 <= r <= 1,
{
    let x = versions::Versioning::new(a).unwrap();
    let y = versions::Versioning::new(b).unwrap();
    match x.cmp(&y) {
        std::cmp::Ordering::Less => -1,
        std::cmp::Ordering::Equal => 0,
        std::cmp::Ordering::Greater => 1,
    }
}

/// Lexicographic order of two character sequences: -1, 0 or 1. For strings
/// this is the order of `str`'s `Ord` (UTF-8 byte order follows code point order).
pub open spec fn lex_order(a: Seq<char>, b: Seq<char>) -> int
    decreases a.len(),
{
    if a.len() == 0 && b.len() == 0 {
        0
    } else if a.len() == 0 {
        -1
    } else if b.len() == 0 {
        1
    } else if (a[0] as u32) < (b[0] as u32) {
        -1
    } else if (a[0] as u32) > (b[0] as u32) {
        1
    } else {
        lex_order(a.drop_first(), b.drop_first())
    }
}

/// Compares two strings lexicographically, as `lex_order`.
pub fn lex_compare(a: &str, b: &str) -> (r: i8)
    ensures
        r == lex_order(a@, b@),
{
    let x = chars_of(a);
    let y = chars_of(b);
    let mut i: usize = 0;
    assert(x@.skip(0) =~= x@);
    assert(y@.skip(0) =~= y@);
    while i < x.len() && i < y.len()
        invariant
            x@ == a@,
            y@ == b@,
            i <= x@.len(),
            i <= y@.len(),
            lex_order(x@, y@) == lex_order(x@.skip(i as int), y@.skip(i as int)),
        decreases x.len() - i,
    {
        let ghost xs = x@.skip(i as int);
        let ghost ys = y@.skip(i as int);
        assert(xs[0] == x@[i as int]);
        assert(ys[0] == y@[i as int]);
        if (x[i] as u32) < (y[i] as u32) {
            return -1;
        }
        if (x[i] as u32) > (y[i] as u32) {
            return 1;
        }
        assert(xs.drop_first() =~= x@.skip(i + 1));
        assert(ys.drop_first() =~= y@.skip(i + 1));
        i = i + 1;
    }
    assert(i == x@.len() ==> x@.skip(i as int).len() == 0);
    assert(i == y@.len() ==> y@.skip(i as int).len() == 0);
    if i == x.len() && i == y.len() {
        0
    } else if i == x.len() {
        -1
    } else {
        1
    }
}

/// The order of two release tags, as the loader version resolution uses it:
/// versions (after stripping a leading `v`) compare by `Versioning`; a tag
/// that parses is greater than one that does not; two tags that do not parse
/// compare as strings.
pub open spec fn tag_order(a: Seq<char>, b: Seq<char>) -> int {
    let na = normalize_version_spec(a);
    let nb = normalize_version_spec(b);
    if versioning_valid(na) && versioning_valid(nb) {
        versioning_order(na, nb)
    } else if versioning_valid(na) {
        1
    } else if versioning_valid(nb) {
        -1
    } else {
        lex_order(a, b)
    }
}

/// The order of tags `a` and `b` once `Versioning` has answered: `pa` and
/// `pb` say whether their versions (without a leading `v`) parse, and
/// `order` is how they compare when both do.
pub fn tag_order_given(a: &str, b: &str, pa: bool, pb: bool, order: i8) -> (r: i8)
    ensures
        r == if pa && pb {
            order as int
        } else if pa {
            1
        } else if pb {
            -1
        } else {
            lex_order(a@, b@)
        },
{
    if pa && pb {
        order
    } else if pa {
        1
    } else if pb {
        -1
    } else {
        lex_compare(a, b)
    }
}

/// Compares two release tags, as `tag_order`.
pub fn compare_tags(a: &str, b: &str) -> (r: i8)
    ensures
        r == tag_order(a@, b@),
{
    let na = normalize_version(a);
    let nb = normalize_version(b);
    let pa = versioning_parses(na.as_str());
    let pb = versioning_parses(nb.as_str());
    let order = if pa && pb {
        versioning_compare(na.as_str(), nb.as_str())
    } else {
        0
    };
    tag_order_given(a, b, pa, pb, order)
}

/// Whether `latest` is a newer version than `installed`: when both parse,
/// by `Versioning`; otherwise whenever they differ.
pub open spec fn is_newer_spec(installed: Seq<char>, latest: Seq<char>) -> bool {
    if versioning_valid(installed) && versioning_valid(latest) {
        versioning_order(latest, installed) > 0
    } else {
        installed != latest
    }
}

/// Whether `latest` is newer than `installed` once `Versioning` has
/// answered: `order` is how `latest` compares to `installed` when both parse,
/// `None` when one of them does not.
pub fn is_newer_given(installed: &str, latest: &str, order: Option<i8>) -> (r: bool)
    ensures
        r == match order {
            Some(o) => o > 0,
            None => installed@ != latest@,
        },
{
    match order {
        Some(o) => o > 0,
        None => !crate::text::str_eq(installed, latest),
    }
}

/// Whether `latest` is a newer version than `installed`, as `is_newer_spec`.
pub fn is_newer(installed: &str, latest: &str) -> (r: bool)
    ensures
        r == is_newer_spec(installed@, latest@),
{
    let order = if versioning_parses(installed) && versioning_parses(latest) {
        Some(versioning_compare(latest, installed))
    } else {
        None
    };
    is_newer_given(installed, latest, order)
}

/// Whether `latest` parses, `current` parses, and `latest` is greater.
pub open spec fn strictly_newer_spec(current: Seq<char>, latest: Seq<char>) -> bool {
    versioning_valid(current) && versioning_valid(latest) && versioning_order(latest, current) > 0
}

/// Whether `latest` is strictly newer than `current` once `Versioning` has
/// answered: `order` is how `latest` compares to `current` when both parse,
/// `None` when one of them does not.
pub fn strictly_newer_given(order: Option<i8>) -> (r: bool)
    ensures
        r == (order matches Some(o) && o > 0),
{
    match order {
        Some(o) => o > 0,
        None => false,
    }
}

/// Whether both strings parse as versions and `latest` is the greater one.
pub fn strictly_newer(current: &str, latest: &str) -> (r: bool)
    ensures
        r == strictly_newer_spec(current@, latest@),
{
    let order = if versioning_parses(current) && versioning_parses(latest) {
        Some(versioning_compare(latest, current))
    } else {
        None
    };
    strictly_newer_given(order)
}

} // verus!
