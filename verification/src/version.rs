use vstd::prelude::*;
use crate::text::{
    all_digits, decimal, is_whitespace, lemma_decimal_digits, lemma_index_of_absent,
    lemma_index_of_separator, lemma_parse_decimal, lemma_trim_unpadded,
    chars_of, index_of, index_of_exec, parse_u64, parse_u64_exec, push_str, slice_chars,
    strip_leading, strip_leading_exec, strip_trailing, strip_trailing_exec, string_of, trim,
    trim_chars,
};

verus! {

broadcast use vstd::string::group_string_axioms;

pub open spec fn or_zero(v: Option<u64>) -> u64 {
    match v {
        Some(n) => n,
        None => 0,
    }
}

/// `(major, minor, patch)` of a version string: trimmed, leading `v`s dropped, split on the first
/// two dots; a missing or unparsable field counts as 0 and the patch stops at its first `-`.
pub open spec fn semver_fields(v: Seq<char>) -> (u64, u64, u64) {
    let t = strip_leading(trim(v), 'v');
    let i1 = index_of(t, '.');
    let rest = t.skip(i1 + 1);
    let i2 = index_of(rest, '.');
    let tail = rest.skip(i2 + 1);
    let patch = tail.take(index_of(tail, '-'));
    (
        or_zero(parse_u64(t.take(i1))),
        if i1 < t.len() { or_zero(parse_u64(rest.take(i2))) } else { 0 },
        if i1 < t.len() && i2 < rest.len() { or_zero(parse_u64(patch)) } else { 0 },
    )
}

/// Lexicographic order on version triples.
pub open spec fn triple_gt(a: (u64, u64, u64), b: (u64, u64, u64)) -> bool {
    ||| a.0 > b.0
    ||| (a.0 == b.0 && a.1 > b.1)
    ||| (a.0 == b.0 && a.1 == b.1 && a.2 > b.2)
}

pub fn parse_semver(v: &str) -> (r: (u64, u64, u64))
    ensures
        r == semver_fields(v@),
{
    let chars = chars_of(v);
    let trimmed_chars = trim_chars(chars.as_slice());
    let t = strip_leading_exec(trimmed_chars.as_slice(), 'v');
    let i1 = index_of_exec(t.as_slice(), '.');
    let p1 = slice_chars(t.as_slice(), 0, i1);
    let major = match parse_u64_exec(p1.as_slice()) { Some(n) => n, None => 0 };
    if i1 >= t.len() {
        assert(p1@ =~= t@.take(i1 as int));
        return (major, 0, 0);
    }
    let rest = slice_chars(t.as_slice(), i1 + 1, t.len());
    assert(rest@ =~= t@.skip(i1 + 1));
    let i2 = index_of_exec(rest.as_slice(), '.');
    let p2 = slice_chars(rest.as_slice(), 0, i2);
    let minor = match parse_u64_exec(p2.as_slice()) { Some(n) => n, None => 0 };
    assert(p1@ =~= t@.take(i1 as int));
    assert(p2@ =~= rest@.take(i2 as int));
    if i2 >= rest.len() {
        return (major, minor, 0);
    }
    let tail = slice_chars(rest.as_slice(), i2 + 1, rest.len());
    assert(tail@ =~= rest@.skip(i2 + 1));
    let dash = index_of_exec(tail.as_slice(), '-');
    let p3 = slice_chars(tail.as_slice(), 0, dash);
    assert(p3@ =~= tail@.take(dash as int));
    let patch = match parse_u64_exec(p3.as_slice()) { Some(n) => n, None => 0 };
    (major, minor, patch)
}

/// Returns `true` when `candidate` is strictly newer than `current` by semver.
pub fn semver_is_newer(candidate: &str, current: &str) -> (r: bool)
    ensures
        r == triple_gt(semver_fields(candidate@), semver_fields(current@)),
{
    let a = parse_semver(candidate);
    let b = parse_semver(current);
    a.0 > b.0 || (a.0 == b.0 && a.1 > b.1) || (a.0 == b.0 && a.1 == b.1 && a.2 > b.2)
}

/// The latest version to offer as an update: when it is known and the current version is unknown
/// (`?`) or older.
pub fn update_available(current: &str, latest: Option<&str>) -> (r: Option<String>)
    ensures
        latest is None ==> r is None,
        latest matches Some(l) ==> (r is Some <==> (current@ == "?"@ || triple_gt(semver_fields(l@), semver_fields(current@)))),
        r matches Some(s) ==> latest matches Some(l) && s@ == l@,
{
    let latest = match latest {
        Some(l) => l,
        None => return None,
    };
    let cur = chars_of(current);
    let unknown = cur.len() == 1 && cur[0] == '?';
    proof {
        reveal_strlit("?");
        if current@ == "?"@ {
            assert(cur@.len() == 1 && cur@[0] == '?');
        }
        if unknown {
            assert(current@ =~= "?"@);
        }
    }
    if unknown || semver_is_newer(latest, current) {
        Some(latest.to_string())
    } else {
        None
    }
}

/// The text of the string field `key` of the JSON object `body`, as serde_json reads it; `None`
/// when `body` is not JSON, not an object, has no such field, or the field is not a string.
pub uninterp spec fn json_text_field(body: Seq<char>, key: Seq<char>) -> Option<Seq<char>>;

/// `serde_json::from_str` into a `serde_json::Value`, then `Value::get` and `Value::as_str`. Only
/// the name of the result is stated: JSON parsing is not written out here.
#[verifier::external_body]
fn read_json_text_field(body: &str, key: &str) -> (r: Option<String>)
    ensures
        match r {
            Some(s) => json_text_field(body@, key@) == Some(s@),
            None => json_text_field(body@, key@) is None,
        },
{
    let value: serde_json::Value = match serde_json::from_str(body) {
        Ok(v) => v,
        Err(_) => return None,
    };
    match value.get(key) {
        Some(field) => match field.as_str() {
            Some(text) => Some(text.to_string()),
            None => None,
        },
        None => None,
    }
}

/// The version a release tag names: trimmed, leading `v`s dropped; `None` when nothing is left.
pub open spec fn tag_version(tag: Seq<char>) -> Option<Seq<char>> {
    let v = strip_leading(trim(tag), 'v');
    if v.len() == 0 {
        None
    } else {
        Some(v)
    }
}

/// The version named by a release's `tag_name`, if it has one.
pub fn version_from_tag(tag: Option<String>) -> (r: Option<String>)
    ensures
        match tag {
            Some(t) => match tag_version(t@) {
                Some(v) => r matches Some(s) && s@ == v,
                None => r is None,
            },
            None => r is None,
        },
{
    let tag = match tag {
        Some(t) => t,
        None => return None,
    };
    let chars = chars_of(tag.as_str());
    let trimmed_chars = trim_chars(chars.as_slice());
    let v = strip_leading_exec(trimmed_chars.as_slice(), 'v');
    if v.len() == 0 {
        None
    } else {
        Some(string_of(v.as_slice()))
    }
}

/// The version of the latest release in a GitHub `releases/latest` reply.
pub fn parse_github_tag(body: &str) -> (r: Option<String>)
    ensures
        match json_text_field(body@, "tag_name"@) {
            Some(t) => match tag_version(t) {
                Some(v) => r matches Some(s) && s@ == v,
                None => r is None,
            },
            None => r is None,
        },
{
    version_from_tag(read_json_text_field(body, "tag_name"))
}

/// The GitHub API address of a repository's latest release.
pub fn github_release_url(repo: &str) -> (r: String)
    ensures
        r@ == "https://api.github.com/repos/"@ + repo@ + "/releases/latest"@,
{
    let mut v: Vec<char> = Vec::new();
    push_str(&mut v, "https://api.github.com/repos/");
    push_str(&mut v, repo);
    push_str(&mut v, "/releases/latest");
    string_of(v.as_slice())
}

/// The address of `version.txt` under a CDN base, without the base's trailing slashes.
pub fn cdn_version_url(base: &str) -> (r: String)
    ensures
        r@ == strip_trailing(base@, '/') + "/version.txt"@,
{
    let chars = chars_of(base);
    let mut v = strip_trailing_exec(chars.as_slice(), '/');
    push_str(&mut v, "/version.txt");
    string_of(v.as_slice())
}

/// What a download returned, trimmed; `None` when nothing is left.
pub fn fetched_text(body: &str) -> (r: Option<String>)
    ensures
        trim(body@).len() == 0 ==> r is None,
        trim(body@).len() > 0 ==> (r matches Some(s) && s@ == trim(body@)),
{
    let chars = chars_of(body);
    let t = trim_chars(chars.as_slice());
    if t.len() == 0 {
        None
    } else {
        Some(string_of(t.as_slice()))
    }
}

/// The CDN base to ask for the latest version: the configured one unless it is blank.
pub fn cdn_base(configured: Option<String>) -> (r: Option<String>)
    ensures
        match configured {
            Some(c) => if trim(c@).len() == 0 {
                r is None
            } else {
                r matches Some(s) && s@ == c@
            },
            None => r is None,
        },
{
    match configured {
        Some(c) => {
            let chars = chars_of(c.as_str());
            let t = trim_chars(chars.as_slice());
            if t.len() == 0 {
                None
            } else {
                Some(c)
            }
        },
        None => None,
    }
}

/// No version is newer than itself.
pub proof fn lemma_newer_irreflexive(v: Seq<char>)
    ensures
        !triple_gt(semver_fields(v), semver_fields(v)),
{
}

/// Of two versions at most one is newer than the other.
pub proof fn lemma_newer_asymmetric(a: Seq<char>, b: Seq<char>)
    ensures
        !(triple_gt(semver_fields(a), semver_fields(b)) && triple_gt(semver_fields(b), semver_fields(a))),
{
}

/// Being newer is transitive.
pub proof fn lemma_newer_transitive(a: Seq<char>, b: Seq<char>, c: Seq<char>)
    requires
        triple_gt(semver_fields(a), semver_fields(b)),
        triple_gt(semver_fields(b), semver_fields(c)),
    ensures
        triple_gt(semver_fields(a), semver_fields(c)),
{
}

/// Versions compare by major number first: a larger major is newer whatever the minor and
/// patch numbers, and a smaller one is not.
pub proof fn lemma_newer_by_major(a: (u64, u64, u64), b: (u64, u64, u64))
    ensures
        a.0 > b.0 ==> triple_gt(a, b),
        a.0 < b.0 ==> !triple_gt(a, b),
{
}

/// With equal majors the minor number decides: a larger minor is newer whatever the patch
/// numbers (1.3.0 is newer than 1.2.5), and a smaller one is not.
pub proof fn lemma_newer_by_minor(a: (u64, u64, u64), b: (u64, u64, u64))
    requires
        a.0 == b.0,
    ensures
        a.1 > b.1 ==> triple_gt(a, b),
        a.1 < b.1 ==> !triple_gt(a, b),
{
}

/// With equal majors and minors the patch number decides.
pub proof fn lemma_newer_by_patch(a: (u64, u64, u64), b: (u64, u64, u64))
    requires
        a.0 == b.0,
        a.1 == b.1,
    ensures
        triple_gt(a, b) <==> a.2 > b.2,
{
}

/// Of two different versions exactly one is newer.
pub proof fn lemma_newer_total(a: (u64, u64, u64), b: (u64, u64, u64))
    requires
        a != b,
    ensures
        triple_gt(a, b) != triple_gt(b, a),
{
}

/// `major.minor.patch` in decimal.
pub open spec fn dotted(a: nat, b: nat, c: nat) -> Seq<char> {
    decimal(a) + seq!['.'] + decimal(b) + seq!['.'] + decimal(c)
}

proof fn lemma_digit_facts(n: nat, k: int)
    requires
        0 <= k < decimal(n).len(),
    ensures
        decimal(n)[k] != '.',
        decimal(n)[k] != '-',
        decimal(n)[k] != 'v',
        !is_whitespace(decimal(n)[k]),
{
    lemma_decimal_digits(n);
    assert(all_digits(decimal(n)));
    assert('0' <= decimal(n)[k] && decimal(n)[k] <= '9');
}

/// A version written as `major.minor.patch`, with or without a leading `v`, reads back as those
/// three numbers.
pub proof fn lemma_semver_reads_back(a: u64, b: u64, c: u64)
    ensures
        semver_fields(dotted(a as nat, b as nat, c as nat)) == (a, b, c),
        semver_fields(seq!['v'] + dotted(a as nat, b as nat, c as nat)) == (a, b, c),
{
    let da = decimal(a as nat);
    let db = decimal(b as nat);
    let dc = decimal(c as nat);
    lemma_decimal_digits(a as nat);
    lemma_decimal_digits(b as nat);
    lemma_decimal_digits(c as nat);
    lemma_parse_decimal(a);
    lemma_parse_decimal(b);
    lemma_parse_decimal(c);
    assert forall|k: int| 0 <= k < da.len() implies da[k] != '.' by {
        lemma_digit_facts(a as nat, k);
    }
    assert forall|k: int| 0 <= k < db.len() implies db[k] != '.' by {
        lemma_digit_facts(b as nat, k);
    }
    assert forall|k: int| 0 <= k < dc.len() implies dc[k] != '-' by {
        lemma_digit_facts(c as nat, k);
    }
    let v = dotted(a as nat, b as nat, c as nat);
    lemma_digit_facts(a as nat, 0);
    lemma_digit_facts(c as nat, dc.len() - 1);
    assert(v[0] == da[0]);
    assert(v[v.len() - 1] == dc[dc.len() - 1]);
    lemma_trim_unpadded(v);
    assert(strip_leading(v, 'v') == v);
    let rest = db + seq!['.'] + dc;
    assert(v =~= da + seq!['.'] + rest);
    lemma_index_of_separator(da, '.', rest);
    assert(v.take(da.len() as int) =~= da);
    assert(v.skip(da.len() as int + 1) =~= rest);
    lemma_index_of_separator(db, '.', dc);
    assert(rest.take(db.len() as int) =~= db);
    assert(rest.skip(db.len() as int + 1) =~= dc);
    lemma_index_of_absent(dc, '-');
    assert(dc.take(dc.len() as int) =~= dc);
    assert(semver_fields(v) == (a, b, c));

    let w = seq!['v'] + v;
    assert(w[0] == 'v');
    assert(w[w.len() - 1] == v[v.len() - 1]);
    lemma_trim_unpadded(w);
    assert(w.drop_first() =~= v);
    assert(strip_leading(w, 'v') == strip_leading(v, 'v'));
}

} // verus!
