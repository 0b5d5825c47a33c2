//! Derivation of the rows that the store persists for each advisory.
use vstd::prelude::*;
use crate::osv::{ecosystem_name, Affected, Ecosystem, GitHubAdvisory, GitHubMetadata, Range};

verus! {

/// The row of the `advisories` table for one advisory. Text columns borrow
/// from the advisory; `ecosystems` is its derived ecosystem set.
#[derive(Debug)]
pub struct AdvisoryRow<'a> {
    pub ghsa: &'a String,
    pub modified: &'a String,
    pub published: &'a Option<String>,
    pub withdrawn: &'a Option<String>,
    pub cve: Option<&'a String>,
    pub ecosystems: Vec<Ecosystem>,
    pub summary: &'a Option<String>,
    pub details: &'a Option<String>,
    pub severity: Option<&'a String>,
    pub cwes: Option<&'a Vec<String>>,
}

/// The row of the `affected_packages` table for one affected entry.
#[derive(Debug)]
pub struct AffectedRow<'a> {
    pub ghsa: &'a String,
    pub name: &'a String,
    pub ecosystem: Ecosystem,
    pub ranges: &'a Option<Vec<Range>>,
    pub versions: &'a Option<Vec<String>>,
}

/// The affected entries of an advisory; none where the field is absent.
pub open spec fn affected_of(a: GitHubAdvisory) -> Seq<Affected> {
    match a.affected {
        Some(v) => v@,
        None => Seq::empty(),
    }
}

/// The ecosystems of a list of affected entries, in order, repeats kept.
pub open spec fn ecosystems_seq(s: Seq<Affected>) -> Seq<Ecosystem> {
    s.map_values(|x: Affected| x.package.ecosystem)
}

/// The derived ecosystem set of an advisory.
pub open spec fn ecosystem_set_of(a: GitHubAdvisory) -> Set<Ecosystem> {
    ecosystems_seq(affected_of(a)).to_set()
}

/// The first alias of an advisory, kept as its CVE reference.
pub open spec fn cve_of(a: GitHubAdvisory) -> Option<String> {
    match a.aliases {
        Some(v) => if v@.len() > 0 { Some(v@[0]) } else { None },
        None => None,
    }
}

/// The severity string of the extension record.
pub open spec fn severity_of(a: GitHubAdvisory) -> Option<String> {
    match a.database_specific {
        Some(d) => d.severity,
        None => None,
    }
}

/// The weakness identifiers of the extension record.
pub open spec fn cwes_of(a: GitHubAdvisory) -> Option<Vec<String>> {
    match a.database_specific {
        Some(d) => d.cwe_ids,
        None => None,
    }
}

/// `row` is the `advisories` row of `a`.
pub open spec fn is_advisory_row(row: AdvisoryRow, a: GitHubAdvisory) -> bool {
    &&& *row.ghsa == a.id
    &&& *row.modified == a.modified
    &&& *row.published == a.published
    &&& *row.withdrawn == a.withdrawn
    &&& (match row.cve {
        Some(c) => cve_of(a) == Some(*c),
        None => cve_of(a) is None,
    })
    &&& row.ecosystems@.no_duplicates()
    &&& row.ecosystems@.to_set() == ecosystem_set_of(a)
    &&& *row.summary == a.summary
    &&& *row.details == a.details
    &&& (match row.severity {
        Some(s) => severity_of(a) == Some(*s),
        None => severity_of(a) is None,
    })
    &&& (match row.cwes {
        Some(c) => cwes_of(a) == Some(*c),
        None => cwes_of(a) is None,
    })
}

/// `row` is the `affected_packages` row of the entry `x` of the advisory `a`.
pub open spec fn is_affected_row(row: AffectedRow, a: GitHubAdvisory, x: Affected) -> bool {
    &&& *row.ghsa == a.id
    &&& *row.name == x.package.name
    &&& row.ecosystem == x.package.ecosystem
    &&& *row.ranges == x.ranges
    &&& *row.versions == x.versions
}

/// `rows` are the `affected_packages` rows of `a`, one per entry, in order.
pub open spec fn are_affected_rows(rows: Seq<AffectedRow>, a: GitHubAdvisory) -> bool {
    &&& rows.len() == affected_of(a).len()
    &&& forall|j: int| 0 <= j < rows.len() ==> #[trigger] is_affected_row(rows[j], a, affected_of(a)[j])
}

/// The distinct ecosystems of an advisory's affected entries, each once, in
/// order of first appearance.
pub fn ecosystem_set(a: &GitHubAdvisory) -> (r: Vec<Ecosystem>)
    ensures
        r@.no_duplicates(),
        r@.to_set() == ecosystem_set_of(*a),
{
    let mut r: Vec<Ecosystem> = Vec::new();
    match &a.affected {
        None => {
            assert(r@.to_set() =~= ecosystem_set_of(*a));
        },
        Some(list) => {
            let ghost es = ecosystems_seq(list@);
            let mut i: usize = 0;
            while i < list.len()
                invariant
                    i <= list.len(),
                    es == ecosystems_seq(list@),
                    r@.no_duplicates(),
                    forall|j: int| 0 <= j < r@.len() ==> exists|t: int| 0 <= t < i && es[t] == #[trigger] r@[j],
                    forall|t: int| 0 <= t < i ==> r@.contains(#[trigger] es[t]),
                decreases list.len() - i,
            {
                let e = list[i].package.ecosystem;
                let mut found = false;
                let mut k: usize = 0;
                while k < r.len()
                    invariant
                        k <= r.len(),
                        found <==> exists|j: int| 0 <= j < k && r@[j] == e,
                    decreases r.len() - k,
                {
                    if r[k] == e {
                        found = true;
                    }
                    k += 1;
                }
                let ghost before = r@;
                if !found {
                    r.push(e);
                    assert(r@[r@.len() - 1] == e);
                }
                assert(es[i as int] == e);
                assert forall|t: int| 0 <= t < i + 1 implies r@.contains(#[trigger] es[t]) by {
                    if t < i {
                        let j = choose|j: int| 0 <= j < before.len() && before[j] == es[t];
                        assert(r@[j] == es[t]);
                    } else if found {
                        let j = choose|j: int| 0 <= j < before.len() && before[j] == e;
                        assert(r@[j] == e);
                    } else {
                        assert(r@[r@.len() - 1] == e);
                    }
                };
                assert forall|j: int| 0 <= j < r@.len() implies exists|t: int| 0 <= t < i + 1 && es[t] == #[trigger] r@[j] by {
                    if j < before.len() {
                        assert(r@[j] == before[j]);
                    } else {
                        assert(es[i as int] == r@[j]);
                    }
                };
                i += 1;
            }
            assert forall|x: Ecosystem| r@.contains(x) <==> es.contains(x) by {
                if r@.contains(x) {
                    let j = choose|j: int| 0 <= j < r@.len() && r@[j] == x;
                    assert(exists|t: int| 0 <= t < i && es[t] == #[trigger] r@[j]);
                }
                if es.contains(x) {
                    let t = choose|t: int| 0 <= t < es.len() && es[t] == x;
                    assert(r@.contains(es[t]));
                }
            };
            assert(r@.to_set() =~= ecosystem_set_of(*a));
        },
    }
    r
}

/// The `advisories` row of an advisory.
pub fn advisory_row<'a>(a: &'a GitHubAdvisory) -> (r: AdvisoryRow<'a>)
    ensures
        is_advisory_row(r, *a),
{
    let cve: Option<&'a String> = match &a.aliases {
        Some(v) => if v.len() > 0 { Some(&v[0]) } else { None },
        None => None,
    };
    let meta: &'a Option<GitHubMetadata> = &a.database_specific;
    let severity: Option<&'a String> = match meta {
        Some(d) => match &d.severity {
            Some(s) => Some(s),
            None => None,
        },
        None => None,
    };
    let cwes: Option<&'a Vec<String>> = match meta {
        Some(d) => match &d.cwe_ids {
            Some(c) => Some(c),
            None => None,
        },
        None => None,
    };
    AdvisoryRow {
        ghsa: &a.id,
        modified: &a.modified,
        published: &a.published,
        withdrawn: &a.withdrawn,
        cve,
        ecosystems: ecosystem_set(a),
        summary: &a.summary,
        details: &a.details,
        severity,
        cwes,
    }
}

/// The `affected_packages` rows of an advisory: one per affected entry, in
/// order, none where it lists no entry.
pub fn affected_rows<'a>(a: &'a GitHubAdvisory) -> (r: Vec<AffectedRow<'a>>)
    ensures
        are_affected_rows(r@, *a),
{
    let mut r: Vec<AffectedRow<'a>> = Vec::new();
    match &a.affected {
        None => {},
        Some(list) => {
            let mut i: usize = 0;
            while i < list.len()
                invariant
                    i <= list.len(),
                    a.affected == Some(*list),
                    r@.len() == i,
                    forall|j: int| 0 <= j < i ==> #[trigger] is_affected_row(r@[j], *a, list@[j]),
                decreases list.len() - i,
            {
                let x: &'a Affected = &list[i];
                r.push(AffectedRow {
                    ghsa: &a.id,
                    name: &x.package.name,
                    ecosystem: x.package.ecosystem,
                    ranges: &x.ranges,
                    versions: &x.versions,
                });
                i += 1;
            }
        },
    }
    r
}

/// The derived ecosystem set does not depend on the order of the affected
/// entries, nor on how often an ecosystem repeats: two advisories whose
/// entries are a permutation of one another get the same set.
pub proof fn lemma_ecosystem_set_order_independent(a: GitHubAdvisory, b: GitHubAdvisory)
    requires
        affected_of(a).to_multiset() == affected_of(b).to_multiset(),
    ensures
        ecosystem_set_of(a) == ecosystem_set_of(b),
{
    broadcast use vstd::seq_lib::group_to_multiset_ensures;
    let sa = affected_of(a);
    let sb = affected_of(b);
    assert forall|e: Ecosystem| ecosystem_set_of(a).contains(e) implies ecosystem_set_of(b).contains(e) by {
        let i = choose|i: int| 0 <= i < sa.len() && #[trigger] ecosystems_seq(sa)[i] == e;
        assert(sa.contains(sa[i]));
        assert(sa.to_multiset().count(sa[i]) > 0);
        assert(sb.to_multiset().count(sa[i]) > 0);
        assert(sb.contains(sa[i]));
        let j = choose|j: int| 0 <= j < sb.len() && sb[j] == sa[i];
        assert(ecosystems_seq(sb)[j] == e);
    };
    assert forall|e: Ecosystem| ecosystem_set_of(b).contains(e) implies ecosystem_set_of(a).contains(e) by {
        let i = choose|i: int| 0 <= i < sb.len() && #[trigger] ecosystems_seq(sb)[i] == e;
        assert(sb.contains(sb[i]));
        assert(sb.to_multiset().count(sb[i]) > 0);
        assert(sa.to_multiset().count(sb[i]) > 0);
        assert(sa.contains(sb[i]));
        let j = choose|j: int| 0 <= j < sa.len() && sa[j] == sb[i];
        assert(ecosystems_seq(sa)[j] == e);
    };
    assert(ecosystem_set_of(a) =~= ecosystem_set_of(b));
}

#[verifier::external_type_specification]
#[verifier::external_body]
pub struct ExJsonError(serde_json::Error);

/// How one character of a string is written inside a JSON string literal:
/// quote and backslash are escaped, control characters take their short
/// escape or `\u00` and two lower-case hex digits, all others stand as they are.
pub open spec fn json_escaped_char(c: char) -> Seq<char> {
    if c == '"' {
        seq!['\\', '"']
    } else if c == '\\' {
        seq!['\\', '\\']
    } else if c == '\u{8}' {
        seq!['\\', 'b']
    } else if c == '\t' {
        seq!['\\', 't']
    } else if c == '\n' {
        seq!['\\', 'n']
    } else if c == '\u{c}' {
        seq!['\\', 'f']
    } else if c == '\r' {
        seq!['\\', 'r']
    } else if (c as u32) < 0x20 {
        seq!['\\', 'u', '0', '0', "0123456789abcdef"@[(c as u32) as int / 16], "0123456789abcdef"@[(c as u32) as int % 16]]
    } else {
        seq![c]
    }
}

/// A string as a JSON string literal.
pub open spec fn json_string(s: Seq<char>) -> Seq<char> {
    seq!['"'] + s.map_values(|c: char| json_escaped_char(c)).flatten() + seq!['"']
}

/// The string literals of a list, separated by commas.
pub open spec fn json_list_items(v: Seq<Seq<char>>) -> Seq<char>
    decreases v.len(),
{
    if v.len() == 0 {
        Seq::empty()
    } else if v.len() == 1 {
        json_string(v[0])
    } else {
        json_list_items(v.drop_last()) + seq![','] + json_string(v.last())
    }
}

/// The compact JSON text of an optional list of strings: `null`, or the
/// string literals between brackets, separated by commas.
pub open spec fn json_text_of(v: Option<Seq<Seq<char>>>) -> Seq<char> {
    match v {
        None => seq!['n', 'u', 'l', 'l'],
        Some(l) => seq!['['] + json_list_items(l) + seq![']'],
    }
}

/// The views of a list of strings.
pub open spec fn string_views(v: Seq<String>) -> Seq<Seq<char>> {
    v.map_values(|s: String| s@)
}

/// Relies on serde_json::to_string: the compact JSON text of an optional
/// list of strings. Serialising strings into an in-memory buffer cannot fail.
#[verifier::external_body]
fn strings_to_json(v: Option<&Vec<String>>) -> (r: Result<String, serde_json::Error>)
    ensures
        r is Ok,
        r->Ok_0@ == json_text_of(
            match v {
                Some(l) => Some(string_views(l@)),
                None => None,
            },
        ),
{
    serde_json::to_string(&v)
}

/// A derived column could not be encoded as text. The string-list columns
/// always encode; the variant is kept for the error taxonomy of a load.
#[derive(Debug, PartialEq, Eq, Structural)]
pub enum NormalizationError {
    Encoding,
}

/// The names of a list of ecosystems, in the same order.
pub fn ecosystem_names(v: &Vec<Ecosystem>) -> (r: Vec<String>)
    ensures
        string_views(r@) == v@.map_values(|e: Ecosystem| ecosystem_name(e)),
{
    let mut r: Vec<String> = Vec::new();
    let mut i: usize = 0;
    while i < v.len()
        invariant
            i <= v@.len(),
            string_views(r@) == v@.subrange(0, i as int).map_values(|e: Ecosystem| ecosystem_name(e)),
        decreases v@.len() - i,
    {
        let name: &str = v[i].name();
        let ghost before = r@;
        r.push(name.to_owned());
        assert(v@.subrange(0, i + 1).map_values(|e: Ecosystem| ecosystem_name(e))
            =~= v@.subrange(0, i as int).map_values(|e: Ecosystem| ecosystem_name(e)).push(ecosystem_name(v@[i as int])));
        assert(string_views(r@) =~= string_views(r@.drop_last()).push(r@.last()@));
        assert(r@.drop_last() =~= before);
        i += 1;
    }
    assert(v@.subrange(0, i as int) =~= v@);
    r
}

/// The `ecosystems` column of an advisory row: the JSON array of the names
/// of its ecosystem set.
pub fn ecosystems_column(row: &AdvisoryRow) -> (r: Result<String, NormalizationError>)
    ensures
        r matches Ok(t) && t@ == json_text_of(Some(row.ecosystems@.map_values(|e: Ecosystem| ecosystem_name(e)))),
{
    let names = ecosystem_names(&row.ecosystems);
    match strings_to_json(Some(&names)) {
        Ok(t) => Ok(t),
        Err(_) => Err(NormalizationError::Encoding),
    }
}

/// The `cwes` column of an advisory row: the JSON array of its weakness
/// identifiers, or no value where the advisory gives none.
pub fn cwes_column(row: &AdvisoryRow) -> (r: Result<Option<String>, NormalizationError>)
    ensures
        row.cwes is None ==> r == Ok::<Option<String>, NormalizationError>(None),
        row.cwes is Some ==> (r matches Ok(Some(t)) && t@ == json_text_of(Some(string_views(row.cwes.unwrap()@)))),
{
    match row.cwes {
        None => Ok(None),
        Some(c) => match strings_to_json(Some(c)) {
            Ok(t) => Ok(Some(t)),
            Err(_) => Err(NormalizationError::Encoding),
        },
    }
}

/// The `versions` column of an affected-package row: the JSON text of its
/// optional version list (absent versions encode as JSON null).
pub fn versions_column(row: &AffectedRow) -> (r: Result<String, NormalizationError>)
    ensures
        r matches Ok(t) && t@ == json_text_of(
            match *row.versions {
                Some(l) => Some(string_views(l@)),
                None => None,
            },
        ),
{
    let v: Option<&Vec<String>> = match row.versions {
        Some(l) => Some(l),
        None => None,
    };
    match strings_to_json(v) {
        Ok(t) => Ok(t),
        Err(_) => Err(NormalizationError::Encoding),
    }
}

} // verus!
