//! Updates: how two version numbers compare, which release asset is the
//! installer, and which download addresses are accepted.

use vstd::prelude::*;
use crate::text::{
    all_digits, chars_end_with, chars_of, chars_start_with, digit_of, digits_value, ends_with_seq,
    is_digit, lowercase, lowercase_of, parse_digits, slice_chars, spec_split, split_chars,
    starts_with_seq, string_of, trim_chars, trim_seq,
};

verus! {

/// What the user interface is told about a newer release.
#[derive(Debug, Clone)]
pub struct UpdateInfoPayload {
    pub version: String,
    pub changelog: String,
    pub msi_url: Option<String>,
}

/// Why an update is not installed.
#[derive(Debug, Clone, Copy, PartialEq, Eq, Structural)]
pub enum UpdateError {
    /// The address does not end in `.msi`.
    NotAnInstaller,
    /// The address is not one of the code host's.
    UntrustedHost,
}

/// The number of decimal digits that `part` begins with.
pub open spec fn leading_digits(part: Seq<char>) -> nat
    decreases part.len(),
{
    if part.len() == 0 || !is_digit(part[0]) {
        0
    } else {
        1 + leading_digits(part.drop_first())
    }
}

/// Counting the leading digits may start after `k` characters that are
/// known to be digits.
proof fn lemma_leading_digits_step(part: Seq<char>, k: int)
    requires
        0 <= k <= part.len(),
        forall|j: int| 0 <= j < k ==> is_digit(#[trigger] part[j]),
    ensures
        leading_digits(part) == k + leading_digits(part.skip(k)),
    decreases k,
{
    if k == 0 {
        assert(part.skip(0) =~= part);
    } else {
        let rest = part.drop_first();
        assert(is_digit(part[0]));
        assert forall|j: int| 0 <= j < k - 1 implies is_digit(#[trigger] rest[j]) by {
            assert(rest[j] == part[j + 1]);
        }
        lemma_leading_digits_step(rest, k - 1);
        assert(rest.skip(k - 1) =~= part.skip(k));
    }
}

/// The number that one part of a version stands for: the value of the digits
/// that it begins with, or zero if it begins with none or the value does not
/// fit in 64 bits with a sign.
pub open spec fn spec_part_value(part: Seq<char>) -> int {
    let digits = part.take(leading_digits(part) as int);
    if digits.len() == 0 || digits_value(digits) > i64::MAX {
        0
    } else {
        digits_value(digits)
    }
}

/// The number that one part of a version stands for.
pub fn part_value(part: &Vec<char>) -> (value: i64)
    ensures
        value == spec_part_value(part@),
{
    let mut k: usize = 0;
    while k < part.len() && digit_of(part[k]).is_some()
        invariant
            k <= part.len(),
            forall|j: int| 0 <= j < k ==> is_digit(#[trigger] part@[j]),
        decreases part.len() - k,
    {
        k = k + 1;
    }
    proof {
        lemma_leading_digits_step(part@, k as int);
        if k < part.len() {
            assert(part@.skip(k as int)[0] == part@[k as int]);
        }
        assert(leading_digits(part@) == k);
    }
    let digits = slice_chars(part, 0, k);
    proof {
        assert(digits@ =~= part@.take(k as int));
        assert(digits@.subrange(0, digits.len() as int) =~= digits@);
        assert(all_digits(digits@));
    }
    match parse_digits(&digits, 0, 0x7fff_ffff_ffff_ffff) {
        Some(v) => v as i64,
        None => 0,
    }
}

/// The numbers that a version text stands for, part by part.
pub open spec fn spec_version_parts(text: Seq<char>) -> Seq<int> {
    spec_split(text, '.').map_values(|part: Seq<char>| spec_part_value(part))
}

/// The numbers that a version text stands for, part by part.
pub fn parse_parts(text: &str) -> (values: Vec<i64>)
    ensures
        values@.map_values(|v: i64| v as int) == spec_version_parts(text@),
{
    let chars = chars_of(text);
    let parts = split_chars(&chars, '.');
    let ghost part_views = parts@.map_values(|p: Vec<char>| p@);
    let mut values: Vec<i64> = Vec::new();
    let mut i: usize = 0;
    while i < parts.len()
        invariant
            i <= parts.len(),
            values.len() == i,
            part_views == parts@.map_values(|p: Vec<char>| p@),
            forall|j: int| 0 <= j < i ==> values[j] == spec_part_value(#[trigger] part_views[j]),
        decreases parts.len() - i,
    {
        assert(part_views[i as int] == parts[i as int]@);
        values.push(part_value(&parts[i]));
        i = i + 1;
    }
    assert(values@.map_values(|v: i64| v as int) =~= spec_version_parts(text@));
    values
}

/// The number at position `i` of a version, which is zero beyond its end.
pub open spec fn part_at(parts: Seq<int>, i: int) -> int {
    if 0 <= i < parts.len() {
        parts[i]
    } else {
        0
    }
}

/// The length of the longer of two versions.
pub open spec fn longer_len(a: Seq<int>, b: Seq<int>) -> int {
    if a.len() >= b.len() {
        a.len() as int
    } else {
        b.len() as int
    }
}

/// Whether `latest` is above `current` from position `i` on: at the first
/// position where the two differ, `latest` holds the greater number.
pub open spec fn spec_newer_from(latest: Seq<int>, current: Seq<int>, i: int) -> bool
    decreases longer_len(latest, current) - i,
{
    if i < 0 || i >= longer_len(latest, current) {
        false
    } else if part_at(latest, i) > part_at(current, i) {
        true
    } else if part_at(latest, i) < part_at(current, i) {
        false
    } else {
        spec_newer_from(latest, current, i + 1)
    }
}

/// Whether the version `latest` is above the version `current`.
pub open spec fn spec_version_newer(latest: Seq<char>, current: Seq<char>) -> bool {
    spec_newer_from(spec_version_parts(latest), spec_version_parts(current), 0)
}

/// Whether the version `latest` is above the version `current`. The two are
/// split at their dots, each part counts for the number it begins with, the
/// shorter version is filled up with zeros, and the first difference
/// decides.
pub fn is_version_newer(latest: &str, current: &str) -> (newer: bool)
    ensures
        newer == spec_version_newer(latest@, current@),
{
    let l = parse_parts(latest);
    let c = parse_parts(current);
    let ghost lv = l@.map_values(|v: i64| v as int);
    let ghost cv = c@.map_values(|v: i64| v as int);
    let len: usize = if l.len() >= c.len() {
        l.len()
    } else {
        c.len()
    };
    let mut i: usize = 0;
    while i < len
        invariant
            i <= len,
            len == longer_len(lv, cv),
            lv == spec_version_parts(latest@),
            cv == spec_version_parts(current@),
            lv == l@.map_values(|v: i64| v as int),
            cv == c@.map_values(|v: i64| v as int),
            spec_newer_from(lv, cv, 0) == spec_newer_from(lv, cv, i as int),
        decreases len - i,
    {
        let la: i64 = if i < l.len() {
            l[i]
        } else {
            0
        };
        let cu: i64 = if i < c.len() {
            c[i]
        } else {
            0
        };
        assert(la == part_at(lv, i as int));
        assert(cu == part_at(cv, i as int));
        if la > cu {
            return true;
        } else if la < cu {
            return false;
        }
        i = i + 1;
    }
    false
}

/// No version is above itself.
pub proof fn lemma_version_not_newer_than_itself(version: Seq<int>, i: int)
    ensures
        !spec_newer_from(version, version, i),
    decreases longer_len(version, version) - i,
{
    if 0 <= i < longer_len(version, version) {
        lemma_version_not_newer_than_itself(version, i + 1);
    }
}

/// Of two versions at most one is above the other.
pub proof fn lemma_version_order_is_asymmetric(a: Seq<int>, b: Seq<int>, i: int)
    ensures
        !(spec_newer_from(a, b, i) && spec_newer_from(b, a, i)),
    decreases longer_len(a, b) - i,
{
    if 0 <= i < longer_len(a, b) {
        lemma_version_order_is_asymmetric(a, b, i + 1);
    }
}

/// Whether an address ends in `.msi`, whatever the case of its letters.
pub open spec fn spec_is_msi(address: Seq<char>) -> bool {
    ends_with_seq(lowercase_of(address), ".msi"@)
}

/// Whether an asset or an address names an installer package.
pub fn is_msi(address: &str) -> (msi: bool)
    ensures
        msi == spec_is_msi(address@),
{
    let lower = lowercase(address);
    let chars = chars_of(lower.as_str());
    chars_end_with(&chars, ".msi")
}

/// Whether an address is accepted for an update, and if not, why.
pub open spec fn spec_validate_update_url(address: Seq<char>) -> Result<(), UpdateError> {
    if !spec_is_msi(address) {
        Err(UpdateError::NotAnInstaller)
    } else if !starts_with_seq(address, "https://github.com/"@) && !starts_with_seq(
        address,
        "https://objects.githubusercontent.com/"@,
    ) {
        Err(UpdateError::UntrustedHost)
    } else {
        Ok(())
    }
}

/// Accepts the address of an installer only if it ends in `.msi` and begins
/// with one of the two addresses of the code host.
pub fn validate_update_url(msi_url: &str) -> (checked: Result<(), UpdateError>)
    ensures
        checked == spec_validate_update_url(msi_url@),
{
    if !is_msi(msi_url) {
        return Err(UpdateError::NotAnInstaller);
    }
    let chars = chars_of(msi_url);
    if !chars_start_with(&chars, "https://github.com/") && !chars_start_with(
        &chars,
        "https://objects.githubusercontent.com/",
    ) {
        return Err(UpdateError::UntrustedHost);
    }
    Ok(())
}

/// The number of times that `text` begins with the character `c`.
pub open spec fn leading_run(text: Seq<char>, c: char) -> nat
    decreases text.len(),
{
    if text.len() == 0 || text[0] != c {
        0
    } else {
        1 + leading_run(text.drop_first(), c)
    }
}

/// Counting a leading run may start after `k` characters that are known to
/// belong to it.
proof fn lemma_leading_run_step(text: Seq<char>, c: char, k: int)
    requires
        0 <= k <= text.len(),
        forall|j: int| 0 <= j < k ==> #[trigger] text[j] == c,
    ensures
        leading_run(text, c) == k + leading_run(text.skip(k), c),
    decreases k,
{
    if k == 0 {
        assert(text.skip(0) =~= text);
    } else {
        let rest = text.drop_first();
        assert(text[0] == c);
        assert forall|j: int| 0 <= j < k - 1 implies #[trigger] rest[j] == c by {
            assert(rest[j] == text[j + 1]);
        }
        lemma_leading_run_step(rest, c, k - 1);
        assert(rest.skip(k - 1) =~= text.skip(k));
    }
}

/// The version that a release tag names: the tag without the white space
/// around it and without the letters `v` at its start.
pub open spec fn spec_tag_version(tag: Seq<char>) -> Seq<char> {
    trim_seq(tag).skip(leading_run(trim_seq(tag), 'v') as int)
}

/// The version that a release tag names.
pub fn tag_version(tag_name: &str) -> (version: String)
    ensures
        version@ == spec_tag_version(tag_name@),
{
    let chars = chars_of(tag_name);
    let trimmed = trim_chars(&chars);
    let mut k: usize = 0;
    while k < trimmed.len() && trimmed[k] == 'v'
        invariant
            k <= trimmed.len(),
            forall|j: int| 0 <= j < k ==> #[trigger] trimmed@[j] == 'v',
        decreases trimmed.len() - k,
    {
        k = k + 1;
    }
    proof {
        lemma_leading_run_step(trimmed@, 'v', k as int);
        if k < trimmed.len() {
            assert(trimmed@.skip(k as int)[0] == trimmed@[k as int]);
        }
        assert(trimmed@.subrange(k as int, trimmed.len() as int) =~= trimmed@.skip(k as int));
    }
    let rest = slice_chars(&trimmed, k, trimmed.len());
    string_of(&rest)
}

/// Whether `names[i]` is the first asset that is an installer package.
pub open spec fn is_first_msi(names: Seq<String>, i: int) -> bool {
    &&& 0 <= i < names.len()
    &&& spec_is_msi(names[i]@)
    &&& forall|j: int| 0 <= j < i ==> !spec_is_msi(#[trigger] names[j]@)
}

/// The position of the first asset that is an installer package.
pub fn find_msi_asset(names: &Vec<String>) -> (found: Option<usize>)
    ensures
        match found {
            Some(i) => is_first_msi(names@, i as int),
            None => forall|j: int| 0 <= j < names.len() ==> !spec_is_msi(#[trigger] names[j]@),
        },
{
    let mut i: usize = 0;
    while i < names.len()
        invariant
            i <= names.len(),
            forall|j: int| 0 <= j < i ==> !spec_is_msi(#[trigger] names[j]@),
        decreases names.len() - i,
    {
        if is_msi(names[i].as_str()) {
            return Some(i);
        }
        i = i + 1;
    }
    None
}

} // verus!
