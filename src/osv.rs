//! The advisory record model.
use vstd::prelude::*;
use vstd::string::StrSliceExecFns;

verus! {

/// Opaque extension payloads are carried through unread.
#[verifier::external_type_specification]
#[verifier::external_body]
pub struct ExJsonValue(serde_json::Value);

/// One security advisory. `T` is the source-specific extension record.
#[derive(Debug)]
pub struct Advisory<T> {
    pub id: String,
    pub modified: String,
    pub published: Option<String>,
    pub withdrawn: Option<String>,
    pub aliases: Option<Vec<String>>,
    pub related: Option<Vec<String>>,
    pub summary: Option<String>,
    pub details: Option<String>,
    pub severity: Option<Vec<Severity>>,
    pub affected: Option<Vec<Affected>>,
    pub references: Option<Vec<Reference>>,
    pub credits: Option<Vec<Credit>>,
    pub database_specific: Option<T>,
}

/// An advisory whose extension record is the GitHub one.
pub type GitHubAdvisory = Advisory<GitHubMetadata>;

/// A scored severity, tagged by its scoring scheme.
#[derive(Debug)]
pub enum Severity {
    CvssV2 { score: String },
    CvssV3 { score: String },
}

/// One package affected by an advisory.
#[derive(Debug)]
pub struct Affected {
    pub package: Package,
    pub versions: Option<Vec<String>>,
    pub ranges: Option<Vec<Range>>,
    pub ecosystem_specific: Option<serde_json::Value>,
    pub database_specific: Option<serde_json::Value>,
}

#[derive(Debug)]
pub struct Package {
    pub ecosystem: Ecosystem,
    pub name: String,
    pub purl: Option<String>,
}

/// The closed set of package ecosystems.
#[derive(Debug, Clone, Copy, PartialEq, Eq, Structural, Hash)]
pub enum Ecosystem {
    Go,
    Npm,
    OssFuzz,
    PyPi,
    RubyGems,
    CratesIo,
    Packagist,
    Maven,
    NuGet,
    Linux,
    Debian,
    Hex,
    Android,
    GitHubActions,
    Pub,
}

/// A version range, dispatched on its kind.
#[derive(Debug)]
#[allow(inconsistent_fields)]
pub enum Range {
    Semver { events: Vec<Event>, repo: Option<String>, database_specific: Option<serde_json::Value> },
    Ecosystem { events: Vec<Event>, repo: Option<String>, database_specific: Option<serde_json::Value> },
    Git { events: Vec<Event>, repo: String, database_specific: Option<serde_json::Value> },
}

#[derive(Debug)]
pub enum Event {
    Introduced(String),
    Fixed(String),
    LastAffected(String),
    Limit(String),
}

#[derive(Debug)]
pub struct Reference {
    pub typ: String,
    pub url: String,
}

#[derive(Debug)]
pub struct Credit {
    pub name: String,
    pub contact: Option<Vec<String>>,
}

/// The GitHub extension record of an advisory.
#[derive(Debug)]
pub struct GitHubMetadata {
    pub cwe_ids: Option<Vec<String>>,
    pub severity: Option<String>,
    pub github_reviewed: Option<bool>,
}

/// The name under which an ecosystem is written in documents and in the store.
pub open spec fn ecosystem_name(e: Ecosystem) -> Seq<char> {
    match e {
        Ecosystem::Go => "Go"@,
        Ecosystem::Npm => "npm"@,
        Ecosystem::OssFuzz => "OSS-Fuzz"@,
        Ecosystem::PyPi => "PyPI"@,
        Ecosystem::RubyGems => "RubyGems"@,
        Ecosystem::CratesIo => "crates.io"@,
        Ecosystem::Packagist => "Packagist"@,
        Ecosystem::Maven => "Maven"@,
        Ecosystem::NuGet => "NuGet"@,
        Ecosystem::Linux => "Linux"@,
        Ecosystem::Debian => "Debian"@,
        Ecosystem::Hex => "Hex"@,
        Ecosystem::Android => "Android"@,
        Ecosystem::GitHubActions => "GitHub Actions"@,
        Ecosystem::Pub => "Pub"@,
    }
}

impl Ecosystem {
    /// The ecosystem's name as documents and the store write it.
    pub fn name(&self) -> (r: &'static str)
        ensures
            r@ == ecosystem_name(*self),
    {
        match self {
            Ecosystem::Go => "Go",
            Ecosystem::Npm => "npm",
            Ecosystem::OssFuzz => "OSS-Fuzz",
            Ecosystem::PyPi => "PyPI",
            Ecosystem::RubyGems => "RubyGems",
            Ecosystem::CratesIo => "crates.io",
            Ecosystem::Packagist => "Packagist",
            Ecosystem::Maven => "Maven",
            Ecosystem::NuGet => "NuGet",
            Ecosystem::Linux => "Linux",
            Ecosystem::Debian => "Debian",
            Ecosystem::Hex => "Hex",
            Ecosystem::Android => "Android",
            Ecosystem::GitHubActions => "GitHub Actions",
            Ecosystem::Pub => "Pub",
        }
    }
}

/// Whether two strings hold the same characters.
fn same_text(a: &str, b: &str) -> (r: bool)
    ensures
        r == (a@ == b@),
{
    let n = a.unicode_len();
    if n != b.unicode_len() {
        return false;
    }
    let mut i: usize = 0;
    while i < n
        invariant
            n == a@.len() == b@.len(),
            i <= n,
            forall|j: int| 0 <= j < i ==> a@[j] == b@[j],
        decreases n - i,
    {
        if a.get_char(i) != b.get_char(i) {
            return false;
        }
        i += 1;
    }
    assert(a@ =~= b@);
    true
}

impl Ecosystem {
    /// The ecosystem written under `name`; none for a name outside the
    /// closed set.
    pub fn from_name(name: &str) -> (r: Option<Ecosystem>)
        ensures
            r matches Some(e) ==> ecosystem_name(e) == name@,
            r is None ==> forall|e: Ecosystem| ecosystem_name(e) != name@,
    {
        let all: [Ecosystem; 15] = [
            Ecosystem::Go,
            Ecosystem::Npm,
            Ecosystem::OssFuzz,
            Ecosystem::PyPi,
            Ecosystem::RubyGems,
            Ecosystem::CratesIo,
            Ecosystem::Packagist,
            Ecosystem::Maven,
            Ecosystem::NuGet,
            Ecosystem::Linux,
            Ecosystem::Debian,
            Ecosystem::Hex,
            Ecosystem::Android,
            Ecosystem::GitHubActions,
            Ecosystem::Pub,
        ];
        assert(forall|e: Ecosystem| #[trigger] all@.contains(e)) by {
            assert forall|e: Ecosystem| #[trigger] all@.contains(e) by {
                match e {
                    Ecosystem::Go => assert(all@[0] == e),
                    Ecosystem::Npm => assert(all@[1] == e),
                    Ecosystem::OssFuzz => assert(all@[2] == e),
                    Ecosystem::PyPi => assert(all@[3] == e),
                    Ecosystem::RubyGems => assert(all@[4] == e),
                    Ecosystem::CratesIo => assert(all@[5] == e),
                    Ecosystem::Packagist => assert(all@[6] == e),
                    Ecosystem::Maven => assert(all@[7] == e),
                    Ecosystem::NuGet => assert(all@[8] == e),
                    Ecosystem::Linux => assert(all@[9] == e),
                    Ecosystem::Debian => assert(all@[10] == e),
                    Ecosystem::Hex => assert(all@[11] == e),
                    Ecosystem::Android => assert(all@[12] == e),
                    Ecosystem::GitHubActions => assert(all@[13] == e),
                    Ecosystem::Pub => assert(all@[14] == e),
                }
            };
        };
        let mut i: usize = 0;
        while i < 15
            invariant
                i <= 15,
                all@.len() == 15,
                forall|j: int| 0 <= j < i ==> ecosystem_name(#[trigger] all@[j]) != name@,
            decreases 15 - i,
        {
            let e = all[i];
            if same_text(e.name(), name) {
                return Some(e);
            }
            i += 1;
        }
        assert forall|e: Ecosystem| ecosystem_name(e) != name@ by {
            assert(all@.contains(e));
            let j = choose|j: int| 0 <= j < all@.len() && all@[j] == e;
            assert(ecosystem_name(all@[j]) != name@);
        };
        None
    }
}

/// The length and the first character of an ecosystem's name, which tell
/// the ecosystems apart.
spec fn name_key(e: Ecosystem) -> (nat, char) {
    match e {
        Ecosystem::Go => (2, 'G'),
        Ecosystem::Npm => (3, 'n'),
        Ecosystem::OssFuzz => (8, 'O'),
        Ecosystem::PyPi => (4, 'P'),
        Ecosystem::RubyGems => (8, 'R'),
        Ecosystem::CratesIo => (9, 'c'),
        Ecosystem::Packagist => (9, 'P'),
        Ecosystem::Maven => (5, 'M'),
        Ecosystem::NuGet => (5, 'N'),
        Ecosystem::Linux => (5, 'L'),
        Ecosystem::Debian => (6, 'D'),
        Ecosystem::Hex => (3, 'H'),
        Ecosystem::Android => (7, 'A'),
        Ecosystem::GitHubActions => (14, 'G'),
        Ecosystem::Pub => (3, 'P'),
    }
}

proof fn lemma_name_key(e: Ecosystem)
    ensures
        ecosystem_name(e).len() == name_key(e).0,
        ecosystem_name(e)[0] == name_key(e).1,
{
    match e {
        Ecosystem::Go => reveal_strlit("Go"),
        Ecosystem::Npm => reveal_strlit("npm"),
        Ecosystem::OssFuzz => reveal_strlit("OSS-Fuzz"),
        Ecosystem::PyPi => reveal_strlit("PyPI"),
        Ecosystem::RubyGems => reveal_strlit("RubyGems"),
        Ecosystem::CratesIo => reveal_strlit("crates.io"),
        Ecosystem::Packagist => reveal_strlit("Packagist"),
        Ecosystem::Maven => reveal_strlit("Maven"),
        Ecosystem::NuGet => reveal_strlit("NuGet"),
        Ecosystem::Linux => reveal_strlit("Linux"),
        Ecosystem::Debian => reveal_strlit("Debian"),
        Ecosystem::Hex => reveal_strlit("Hex"),
        Ecosystem::Android => reveal_strlit("Android"),
        Ecosystem::GitHubActions => reveal_strlit("GitHub Actions"),
        Ecosystem::Pub => reveal_strlit("Pub"),
    }
}

/// Each ecosystem has a name of its own, so a name that was written reads
/// back as the same ecosystem.
pub proof fn lemma_ecosystem_name_round_trip(e: Ecosystem, other: Ecosystem)
    requires
        ecosystem_name(other) == ecosystem_name(e),
    ensures
        other == e,
{
    lemma_name_key(e);
    lemma_name_key(other);
}

} // verus!
