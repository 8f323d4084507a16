//! Rule identifiers and severities.
use vstd::prelude::*;
use crate::text::{ascii_lowercase, digit_char, is_ascii_text, spec_eq_ignore_ascii_case, std_to_lowercase, str_eq, to_lowercase};

verus! {

/// How serious a finding is, from least to most.
#[derive(Debug, Clone, Copy, PartialEq, Eq, PartialOrd, Ord, Hash, Structural)]
pub enum Severity {
    Info,
    Minor,
    Major,
    Critical,
    Blocker,
}

/// Rank of a severity: `Info` is 0, `Blocker` is 4.
pub open spec fn severity_rank(s: Severity) -> int {
    match s {
        Severity::Info => 0,
        Severity::Minor => 1,
        Severity::Major => 2,
        Severity::Critical => 3,
        Severity::Blocker => 4,
    }
}

/// The lowercase configuration spelling of each severity.
pub open spec fn severity_config_name(s: Severity) -> Seq<char> {
    match s {
        Severity::Info => "info"@,
        Severity::Minor => "minor"@,
        Severity::Major => "major"@,
        Severity::Critical => "critical"@,
        Severity::Blocker => "blocker"@,
    }
}

/// The severity that a lowercased configuration word names, if any.
pub open spec fn spec_severity_from_word(w: Seq<char>) -> Option<Severity> {
    if w == "info"@ {
        Some(Severity::Info)
    } else if w == "minor"@ {
        Some(Severity::Minor)
    } else if w == "major"@ {
        Some(Severity::Major)
    } else if w == "critical"@ {
        Some(Severity::Critical)
    } else if w == "blocker"@ {
        Some(Severity::Blocker)
    } else {
        None
    }
}

/// Each severity is named by its configuration word, and by no other's.
pub proof fn lemma_severity_word_round_trip(s: Severity)
    ensures
        spec_severity_from_word(severity_config_name(s)) == Some(s),
{
    reveal_strlit("info");
    reveal_strlit("minor");
    reveal_strlit("major");
    reveal_strlit("critical");
    reveal_strlit("blocker");
    assert("major"@[1] != "minor"@[1]);
    assert("info"@.len() != "minor"@.len() && "info"@.len() != "major"@.len());
    assert("critical"@.len() != "info"@.len() && "critical"@.len() != "minor"@.len());
    assert("blocker"@.len() != "info"@.len() && "blocker"@.len() != "minor"@.len() && "blocker"@.len() != "critical"@.len());
}

/// Severity words are read without regard to ASCII case: two ASCII words
/// that differ only in case name the same severity (or both none).
pub proof fn lemma_severity_word_ignores_case(a: Seq<char>, b: Seq<char>)
    requires
        spec_eq_ignore_ascii_case(a, b),
    ensures
        spec_severity_from_word(ascii_lowercase(a)) == spec_severity_from_word(ascii_lowercase(b)),
{
    crate::text::lemma_ascii_lowercase_ignores_case(a, b);
}

impl Severity {
    /// Parse a configuration string, ignoring case.
    pub fn parse(s: &str) -> (r: Option<Severity>)
        ensures
            r == spec_severity_from_word(std_to_lowercase(s@)),
            is_ascii_text(s@) ==> r == spec_severity_from_word(ascii_lowercase(s@)),
    {
        let lower = to_lowercase(s);
        let w = lower.as_str();
        if str_eq(w, "info") {
            Some(Severity::Info)
        } else if str_eq(w, "minor") {
            Some(Severity::Minor)
        } else if str_eq(w, "major") {
            Some(Severity::Major)
        } else if str_eq(w, "critical") {
            Some(Severity::Critical)
        } else if str_eq(w, "blocker") {
            Some(Severity::Blocker)
        } else {
            None
        }
    }

    /// Title-case spelling for documentation output.
    pub fn title_case(&self) -> (r: &'static str)
        ensures
            r@ == spec_title_case(*self),
    {
        match self {
            Severity::Info => "Info",
            Severity::Minor => "Minor",
            Severity::Major => "Major",
            Severity::Critical => "Critical",
            Severity::Blocker => "Blocker",
        }
    }

    /// SonarQube spelling (upper case).
    pub fn sonarqube_str(&self) -> (r: &'static str)
        ensures
            r@ == spec_sonarqube_str(*self),
    {
        match self {
            Severity::Info => "INFO",
            Severity::Minor => "MINOR",
            Severity::Major => "MAJOR",
            Severity::Critical => "CRITICAL",
            Severity::Blocker => "BLOCKER",
        }
    }

    /// Whether `self` is at most as severe as `other`.
    pub fn at_most(&self, other: Severity) -> (r: bool)
        ensures
            r == (severity_rank(*self) <= severity_rank(other)),
    {
        self.rank() <= other.rank()
    }

    /// The rank of this severity (`Info` is 0, `Blocker` is 4).
    pub fn rank(&self) -> (r: u8)
        ensures
            r as int == severity_rank(*self),
    {
        match self {
            Severity::Info => 0,
            Severity::Minor => 1,
            Severity::Major => 2,
            Severity::Critical => 3,
            Severity::Blocker => 4,
        }
    }
}

pub open spec fn spec_title_case(s: Severity) -> Seq<char> {
    match s {
        Severity::Info => "Info"@,
        Severity::Minor => "Minor"@,
        Severity::Major => "Major"@,
        Severity::Critical => "Critical"@,
        Severity::Blocker => "Blocker"@,
    }
}

pub open spec fn spec_sonarqube_str(s: Severity) -> Seq<char> {
    match s {
        Severity::Info => "INFO"@,
        Severity::Minor => "MINOR"@,
        Severity::Major => "MAJOR"@,
        Severity::Critical => "CRITICAL"@,
        Severity::Blocker => "BLOCKER"@,
    }
}

/// Identifier of a rule. `Pgm901` is a meta behaviour (down-migration
/// severity capping), not a rule that produces findings.
#[derive(Debug, Clone, Copy, PartialEq, Eq, PartialOrd, Ord, Hash, Structural)]
pub enum RuleId {
    Pgm001,
    Pgm002,
    Pgm003,
    Pgm004,
    Pgm005,
    Pgm006,
    Pgm007,
    /// Has a code, description and explanation but no check: it reports
    /// nothing.
    Pgm008,
    Pgm009,
    Pgm010,
    Pgm011,
    Pgm012,
    Pgm013,
    /// Has a code, description and explanation but no check: it reports
    /// nothing.
    Pgm014,
    Pgm015,
    Pgm016,
    Pgm017,
    Pgm018,
    Pgm019,
    Pgm020,
    Pgm101,
    Pgm102,
    Pgm103,
    Pgm104,
    Pgm105,
    /// Has a code, description and explanation but no check: it reports
    /// nothing.
    Pgm106,
    Pgm201,
    Pgm202,
    Pgm203,
    Pgm204,
    Pgm205,
    Pgm301,
    Pgm302,
    Pgm303,
    Pgm401,
    /// Has a code, description and explanation but no check: it reports
    /// nothing.
    Pgm402,
    /// Has a code, description and explanation but no check: it reports
    /// nothing.
    Pgm403,
    /// Has a code, description and explanation but no check: it reports
    /// nothing.
    Pgm501,
    /// Has a code, description and explanation but no check: it reports
    /// nothing.
    Pgm502,
    /// Has a code, description and explanation but no check: it reports
    /// nothing.
    Pgm503,
    /// Has a code, description and explanation but no check: it reports
    /// nothing.
    Pgm504,
    /// Has a code, description and explanation but no check: it reports
    /// nothing.
    Pgm505,
    /// Has a code, description and explanation but no check: it reports
    /// nothing.
    Pgm506,
    Pgm901,
}

/// The number in a rule's code (`PGM007` has number 7).
pub open spec fn rule_number(id: RuleId) -> int {
    match id {
        RuleId::Pgm001 => 1,
        RuleId::Pgm002 => 2,
        RuleId::Pgm003 => 3,
        RuleId::Pgm004 => 4,
        RuleId::Pgm005 => 5,
        RuleId::Pgm006 => 6,
        RuleId::Pgm007 => 7,
        RuleId::Pgm008 => 8,
        RuleId::Pgm009 => 9,
        RuleId::Pgm010 => 10,
        RuleId::Pgm011 => 11,
        RuleId::Pgm012 => 12,
        RuleId::Pgm013 => 13,
        RuleId::Pgm014 => 14,
        RuleId::Pgm015 => 15,
        RuleId::Pgm016 => 16,
        RuleId::Pgm017 => 17,
        RuleId::Pgm018 => 18,
        RuleId::Pgm019 => 19,
        RuleId::Pgm020 => 20,
        RuleId::Pgm101 => 101,
        RuleId::Pgm102 => 102,
        RuleId::Pgm103 => 103,
        RuleId::Pgm104 => 104,
        RuleId::Pgm105 => 105,
        RuleId::Pgm106 => 106,
        RuleId::Pgm201 => 201,
        RuleId::Pgm202 => 202,
        RuleId::Pgm203 => 203,
        RuleId::Pgm204 => 204,
        RuleId::Pgm205 => 205,
        RuleId::Pgm301 => 301,
        RuleId::Pgm302 => 302,
        RuleId::Pgm303 => 303,
        RuleId::Pgm401 => 401,
        RuleId::Pgm402 => 402,
        RuleId::Pgm403 => 403,
        RuleId::Pgm501 => 501,
        RuleId::Pgm502 => 502,
        RuleId::Pgm503 => 503,
        RuleId::Pgm504 => 504,
        RuleId::Pgm505 => 505,
        RuleId::Pgm506 => 506,
        RuleId::Pgm901 => 901,
    }
}

/// Three decimal digits of `n` (`0 <= n < 1000`), zero-padded.
pub open spec fn three_digits(n: int) -> Seq<char> {
    seq![digit_char(n / 100), digit_char((n / 10) % 10), digit_char(n % 10)]
}

/// The code of a rule: `PGM` followed by its three-digit number.
pub open spec fn spec_rule_code(id: RuleId) -> Seq<char> {
    seq!['P', 'G', 'M'] + three_digits(rule_number(id))
}

/// Every rule identifier, in declaration order.
pub open spec fn all_rule_ids() -> Seq<RuleId> {
    seq![
        RuleId::Pgm001, RuleId::Pgm002, RuleId::Pgm003, RuleId::Pgm004, RuleId::Pgm005,
        RuleId::Pgm006, RuleId::Pgm007, RuleId::Pgm008, RuleId::Pgm009, RuleId::Pgm010,
        RuleId::Pgm011, RuleId::Pgm012, RuleId::Pgm013, RuleId::Pgm014, RuleId::Pgm015,
        RuleId::Pgm016, RuleId::Pgm017, RuleId::Pgm018, RuleId::Pgm019, RuleId::Pgm020,
        RuleId::Pgm101, RuleId::Pgm102, RuleId::Pgm103, RuleId::Pgm104, RuleId::Pgm105,
        RuleId::Pgm106, RuleId::Pgm201, RuleId::Pgm202, RuleId::Pgm203, RuleId::Pgm204,
        RuleId::Pgm205, RuleId::Pgm301, RuleId::Pgm302, RuleId::Pgm303, RuleId::Pgm401,
        RuleId::Pgm402, RuleId::Pgm403, RuleId::Pgm501, RuleId::Pgm502, RuleId::Pgm503,
        RuleId::Pgm504, RuleId::Pgm505, RuleId::Pgm506, RuleId::Pgm901
    ]
}

/// The position of each identifier in [`all_rule_ids`].
pub open spec fn rule_position(id: RuleId) -> int {
    match id {
        RuleId::Pgm001 => 0,
        RuleId::Pgm002 => 1,
        RuleId::Pgm003 => 2,
        RuleId::Pgm004 => 3,
        RuleId::Pgm005 => 4,
        RuleId::Pgm006 => 5,
        RuleId::Pgm007 => 6,
        RuleId::Pgm008 => 7,
        RuleId::Pgm009 => 8,
        RuleId::Pgm010 => 9,
        RuleId::Pgm011 => 10,
        RuleId::Pgm012 => 11,
        RuleId::Pgm013 => 12,
        RuleId::Pgm014 => 13,
        RuleId::Pgm015 => 14,
        RuleId::Pgm016 => 15,
        RuleId::Pgm017 => 16,
        RuleId::Pgm018 => 17,
        RuleId::Pgm019 => 18,
        RuleId::Pgm020 => 19,
        RuleId::Pgm101 => 20,
        RuleId::Pgm102 => 21,
        RuleId::Pgm103 => 22,
        RuleId::Pgm104 => 23,
        RuleId::Pgm105 => 24,
        RuleId::Pgm106 => 25,
        RuleId::Pgm201 => 26,
        RuleId::Pgm202 => 27,
        RuleId::Pgm203 => 28,
        RuleId::Pgm204 => 29,
        RuleId::Pgm205 => 30,
        RuleId::Pgm301 => 31,
        RuleId::Pgm302 => 32,
        RuleId::Pgm303 => 33,
        RuleId::Pgm401 => 34,
        RuleId::Pgm402 => 35,
        RuleId::Pgm403 => 36,
        RuleId::Pgm501 => 37,
        RuleId::Pgm502 => 38,
        RuleId::Pgm503 => 39,
        RuleId::Pgm504 => 40,
        RuleId::Pgm505 => 41,
        RuleId::Pgm506 => 42,
        RuleId::Pgm901 => 43,
    }
}

pub open spec fn spec_is_meta(id: RuleId) -> bool {
    id == RuleId::Pgm901
}

/// The severity each rule reports by default.
pub open spec fn spec_default_severity(id: RuleId) -> Severity {
    match id {
        RuleId::Pgm001 | RuleId::Pgm002 | RuleId::Pgm003 | RuleId::Pgm004 | RuleId::Pgm007
        | RuleId::Pgm008 | RuleId::Pgm013 | RuleId::Pgm014 | RuleId::Pgm015 | RuleId::Pgm017
        | RuleId::Pgm018 | RuleId::Pgm019 | RuleId::Pgm205 => Severity::Critical,
        RuleId::Pgm005 | RuleId::Pgm011 | RuleId::Pgm016 | RuleId::Pgm202 | RuleId::Pgm204
        | RuleId::Pgm501 | RuleId::Pgm502 => Severity::Major,
        RuleId::Pgm006 | RuleId::Pgm010 | RuleId::Pgm012 | RuleId::Pgm020 | RuleId::Pgm101
        | RuleId::Pgm102 | RuleId::Pgm103 | RuleId::Pgm104 | RuleId::Pgm106 | RuleId::Pgm201
        | RuleId::Pgm203 | RuleId::Pgm302 | RuleId::Pgm303 | RuleId::Pgm401 | RuleId::Pgm402
        | RuleId::Pgm403 => Severity::Minor,
        RuleId::Pgm009 | RuleId::Pgm105 | RuleId::Pgm301 | RuleId::Pgm503 | RuleId::Pgm504
        | RuleId::Pgm505 | RuleId::Pgm506 | RuleId::Pgm901 => Severity::Info,
    }
}

proof fn lemma_digit_char_injective(a: int, b: int)
    requires
        0 <= a < 10,
        0 <= b < 10,
        digit_char(a) == digit_char(b),
    ensures
        a == b,
{
}

/// The one-line description of a rule.
pub open spec fn spec_description(id: RuleId) -> Seq<char> {
    match id {
        RuleId::Pgm001 => "Missing CONCURRENTLY on CREATE INDEX"@,
        RuleId::Pgm002 => "Missing CONCURRENTLY on DROP INDEX"@,
        RuleId::Pgm003 => "CONCURRENTLY inside transaction"@,
        RuleId::Pgm004 => "DETACH PARTITION on existing table without CONCURRENTLY"@,
        RuleId::Pgm005 => "ATTACH PARTITION of existing table without pre-validated CHECK"@,
        RuleId::Pgm006 => "Volatile default on column"@,
        RuleId::Pgm007 => "ALTER COLUMN TYPE on existing table causes table rewrite"@,
        RuleId::Pgm008 => "Adding a NOT NULL column without a DEFAULT to an existing table"@,
        RuleId::Pgm009 => "ALTER COLUMN TYPE on existing table causes table rewrite"@,
        RuleId::Pgm010 => "DROP COLUMN silently removes unique constraint"@,
        RuleId::Pgm011 => "DROP COLUMN silently removes primary key"@,
        RuleId::Pgm012 => "DROP COLUMN silently removes foreign key"@,
        RuleId::Pgm013 => "SET NOT NULL on existing table requires ACCESS EXCLUSIVE lock"@,
        RuleId::Pgm014 => "Adding a FOREIGN KEY without NOT VALID on an existing table"@,
        RuleId::Pgm015 => "ADD CHECK on existing table without NOT VALID"@,
        RuleId::Pgm016 => "ADD PRIMARY KEY on existing table without USING INDEX"@,
        RuleId::Pgm017 => "ADD UNIQUE on existing table without USING INDEX"@,
        RuleId::Pgm018 => "CLUSTER on existing table"@,
        RuleId::Pgm019 => "ADD EXCLUDE constraint on existing table"@,
        RuleId::Pgm020 => "DISABLE TRIGGER on table suppresses FK enforcement"@,
        RuleId::Pgm101 => "Column uses timestamp without time zone"@,
        RuleId::Pgm102 => "Column uses timestamp or timestamptz with precision 0"@,
        RuleId::Pgm103 => "Column uses char(n) type"@,
        RuleId::Pgm104 => "Column uses the money type"@,
        RuleId::Pgm105 => "Column uses serial/bigserial instead of identity column"@,
        RuleId::Pgm106 => "Column uses json type instead of jsonb"@,
        RuleId::Pgm201 => "DROP TABLE on existing table"@,
        RuleId::Pgm202 => "DROP TABLE CASCADE on existing table"@,
        RuleId::Pgm203 => "TRUNCATE TABLE on existing table"@,
        RuleId::Pgm204 => "TRUNCATE TABLE CASCADE on existing table"@,
        RuleId::Pgm205 => "DROP SCHEMA CASCADE"@,
        RuleId::Pgm301 => "INSERT INTO existing table in migration"@,
        RuleId::Pgm302 => "UPDATE on existing table in migration"@,
        RuleId::Pgm303 => "DELETE FROM existing table in migration"@,
        RuleId::Pgm401 => "Missing IF EXISTS on DROP TABLE / DROP INDEX"@,
        RuleId::Pgm402 => "Missing IF NOT EXISTS on CREATE TABLE / CREATE INDEX"@,
        RuleId::Pgm403 => "CREATE TABLE IF NOT EXISTS for already-existing table"@,
        RuleId::Pgm501 => "Foreign key without a covering index on the referencing table"@,
        RuleId::Pgm502 => "Table created without a primary key"@,
        RuleId::Pgm503 => "Table uses UNIQUE NOT NULL instead of a PRIMARY KEY"@,
        RuleId::Pgm504 => "ALTER TABLE RENAME TO on existing table"@,
        RuleId::Pgm505 => "RENAME COLUMN on existing table"@,
        RuleId::Pgm506 => "CREATE UNLOGGED TABLE"@,
        RuleId::Pgm901 => "Meta rules alter the behavior of other rules, they are not rules themselves"@,
    }
}

/// Distinct rules have distinct codes.
pub proof fn lemma_rule_code_injective(a: RuleId, b: RuleId)
    requires
        spec_rule_code(a) == spec_rule_code(b),
    ensures
        a == b,
{
    let na = rule_number(a);
    let nb = rule_number(b);
    let ca = spec_rule_code(a);
    let cb = spec_rule_code(b);
    assert(ca[3] == cb[3] && ca[4] == cb[4] && ca[5] == cb[5]);
    lemma_digit_char_injective(na / 100, nb / 100);
    lemma_digit_char_injective((na / 10) % 10, (nb / 10) % 10);
    lemma_digit_char_injective(na % 10, nb % 10);
    assert(na == nb);
}

impl RuleId {
    /// The rule's code, e.g. `"PGM001"`.
    pub fn as_str(&self) -> (r: &'static str)
        ensures
            r@ == spec_rule_code(*self),
    {
        let r = match self {
            RuleId::Pgm001 => "PGM001",
            RuleId::Pgm002 => "PGM002",
            RuleId::Pgm003 => "PGM003",
            RuleId::Pgm004 => "PGM004",
            RuleId::Pgm005 => "PGM005",
            RuleId::Pgm006 => "PGM006",
            RuleId::Pgm007 => "PGM007",
            RuleId::Pgm008 => "PGM008",
            RuleId::Pgm009 => "PGM009",
            RuleId::Pgm010 => "PGM010",
            RuleId::Pgm011 => "PGM011",
            RuleId::Pgm012 => "PGM012",
            RuleId::Pgm013 => "PGM013",
            RuleId::Pgm014 => "PGM014",
            RuleId::Pgm015 => "PGM015",
            RuleId::Pgm016 => "PGM016",
            RuleId::Pgm017 => "PGM017",
            RuleId::Pgm018 => "PGM018",
            RuleId::Pgm019 => "PGM019",
            RuleId::Pgm020 => "PGM020",
            RuleId::Pgm101 => "PGM101",
            RuleId::Pgm102 => "PGM102",
            RuleId::Pgm103 => "PGM103",
            RuleId::Pgm104 => "PGM104",
            RuleId::Pgm105 => "PGM105",
            RuleId::Pgm106 => "PGM106",
            RuleId::Pgm201 => "PGM201",
            RuleId::Pgm202 => "PGM202",
            RuleId::Pgm203 => "PGM203",
            RuleId::Pgm204 => "PGM204",
            RuleId::Pgm205 => "PGM205",
            RuleId::Pgm301 => "PGM301",
            RuleId::Pgm302 => "PGM302",
            RuleId::Pgm303 => "PGM303",
            RuleId::Pgm401 => "PGM401",
            RuleId::Pgm402 => "PGM402",
            RuleId::Pgm403 => "PGM403",
            RuleId::Pgm501 => "PGM501",
            RuleId::Pgm502 => "PGM502",
            RuleId::Pgm503 => "PGM503",
            RuleId::Pgm504 => "PGM504",
            RuleId::Pgm505 => "PGM505",
            RuleId::Pgm506 => "PGM506",
            RuleId::Pgm901 => "PGM901",
        };
        proof {
            reveal_strlit("PGM001"); reveal_strlit("PGM002"); reveal_strlit("PGM003");
            reveal_strlit("PGM004"); reveal_strlit("PGM005"); reveal_strlit("PGM006");
            reveal_strlit("PGM007"); reveal_strlit("PGM008"); reveal_strlit("PGM009");
            reveal_strlit("PGM010"); reveal_strlit("PGM011"); reveal_strlit("PGM012");
            reveal_strlit("PGM013"); reveal_strlit("PGM014"); reveal_strlit("PGM015");
            reveal_strlit("PGM016"); reveal_strlit("PGM017"); reveal_strlit("PGM018");
            reveal_strlit("PGM019"); reveal_strlit("PGM020"); reveal_strlit("PGM101");
            reveal_strlit("PGM102"); reveal_strlit("PGM103"); reveal_strlit("PGM104");
            reveal_strlit("PGM105"); reveal_strlit("PGM106"); reveal_strlit("PGM201");
            reveal_strlit("PGM202"); reveal_strlit("PGM203"); reveal_strlit("PGM204");
            reveal_strlit("PGM205"); reveal_strlit("PGM301"); reveal_strlit("PGM302");
            reveal_strlit("PGM303"); reveal_strlit("PGM401"); reveal_strlit("PGM402");
            reveal_strlit("PGM403"); reveal_strlit("PGM501"); reveal_strlit("PGM502");
            reveal_strlit("PGM503"); reveal_strlit("PGM504"); reveal_strlit("PGM505");
            reveal_strlit("PGM506"); reveal_strlit("PGM901");
            assert(r@ =~= spec_rule_code(*self));
        }
        r
    }

    /// Whether this is a meta behaviour rather than a rule that reports findings.
    pub fn is_meta(&self) -> (r: bool)
        ensures
            r == spec_is_meta(*self),
    {
        match self {
            RuleId::Pgm901 => true,
            _ => false,
        }
    }

    /// Every rule identifier, in declaration order.
    pub fn all() -> (v: Vec<RuleId>)
        ensures
            v@ == all_rule_ids(),
    {
        let v = vec![
            RuleId::Pgm001, RuleId::Pgm002, RuleId::Pgm003, RuleId::Pgm004, RuleId::Pgm005,
            RuleId::Pgm006, RuleId::Pgm007, RuleId::Pgm008, RuleId::Pgm009, RuleId::Pgm010,
            RuleId::Pgm011, RuleId::Pgm012, RuleId::Pgm013, RuleId::Pgm014, RuleId::Pgm015,
            RuleId::Pgm016, RuleId::Pgm017, RuleId::Pgm018, RuleId::Pgm019, RuleId::Pgm020,
            RuleId::Pgm101, RuleId::Pgm102, RuleId::Pgm103, RuleId::Pgm104, RuleId::Pgm105,
            RuleId::Pgm106, RuleId::Pgm201, RuleId::Pgm202, RuleId::Pgm203, RuleId::Pgm204,
            RuleId::Pgm205, RuleId::Pgm301, RuleId::Pgm302, RuleId::Pgm303, RuleId::Pgm401,
            RuleId::Pgm402, RuleId::Pgm403, RuleId::Pgm501, RuleId::Pgm502, RuleId::Pgm503,
            RuleId::Pgm504, RuleId::Pgm505, RuleId::Pgm506, RuleId::Pgm901
        ];
        assert(v@ =~= all_rule_ids());
        v
    }

    /// Every rule that produces findings (all but the meta behaviours), in
    /// declaration order.
    pub fn lint_rules() -> (v: Vec<RuleId>)
        ensures
            v@ == all_rule_ids().filter(|id: RuleId| !spec_is_meta(id)),
    {
        let all = RuleId::all();
        let mut v: Vec<RuleId> = Vec::new();
        let mut i: usize = 0;
        while i < all.len()
            invariant
                all@ == all_rule_ids(),
                i <= all.len(),
                v@ == all_rule_ids().take(i as int).filter(|id: RuleId| !spec_is_meta(id)),
            decreases all.len() - i,
        {
            proof {
                let pred = |id: RuleId| !spec_is_meta(id);
                assert(all_rule_ids().take(i + 1).drop_last() =~= all_rule_ids().take(i as int));
                reveal_with_fuel(Seq::filter, 1);
            }
            if !all[i].is_meta() {
                v.push(all[i]);
            }
            i = i + 1;
        }
        assert(all_rule_ids().take(all@.len() as int) =~= all_rule_ids());
        v
    }

    /// The rule whose code is exactly `code` (case-sensitive), if any.
    pub fn from_code(code: &str) -> (r: Option<RuleId>)
        ensures
            match r {
                Some(id) => spec_rule_code(id) == code@,
                None => forall|id: RuleId| spec_rule_code(id) != code@,
            },
            forall|id: RuleId| spec_rule_code(id) == code@ ==> r == Some(id),
    {
        proof {
            assert forall|a: RuleId, b: RuleId| spec_rule_code(a) == code@ && spec_rule_code(b) == code@ implies a == b by {
                lemma_rule_code_injective(a, b);
            }
        }
        let all = RuleId::all();
        let mut i: usize = 0;
        while i < all.len()
            invariant
                all@ == all_rule_ids(),
                i <= all.len(),
                forall|j: int| 0 <= j < i ==> spec_rule_code(all_rule_ids()[j]) != code@,
                forall|a: RuleId, b: RuleId| spec_rule_code(a) == code@ && spec_rule_code(b) == code@ ==> a == b,
            decreases all.len() - i,
        {
            if str_eq(all[i].as_str(), code) {
                return Some(all[i]);
            }
            i = i + 1;
        }
        proof {
            assert forall|id: RuleId| spec_rule_code(id) != code@ by {
                let k = rule_position(id);
                assert(all_rule_ids()[k] == id);
            }
        }
        None
    }

    /// The one-line description of this rule.
    pub fn description(&self) -> (r: &'static str)
        ensures
            r@ == spec_description(*self),
    {
        match self {
            RuleId::Pgm001 => "Missing CONCURRENTLY on CREATE INDEX",
            RuleId::Pgm002 => "Missing CONCURRENTLY on DROP INDEX",
            RuleId::Pgm003 => "CONCURRENTLY inside transaction",
            RuleId::Pgm004 => "DETACH PARTITION on existing table without CONCURRENTLY",
            RuleId::Pgm005 => "ATTACH PARTITION of existing table without pre-validated CHECK",
            RuleId::Pgm006 => "Volatile default on column",
            RuleId::Pgm007 => "ALTER COLUMN TYPE on existing table causes table rewrite",
            RuleId::Pgm008 => "Adding a NOT NULL column without a DEFAULT to an existing table",
            RuleId::Pgm009 => "ALTER COLUMN TYPE on existing table causes table rewrite",
            RuleId::Pgm010 => "DROP COLUMN silently removes unique constraint",
            RuleId::Pgm011 => "DROP COLUMN silently removes primary key",
            RuleId::Pgm012 => "DROP COLUMN silently removes foreign key",
            RuleId::Pgm013 => "SET NOT NULL on existing table requires ACCESS EXCLUSIVE lock",
            RuleId::Pgm014 => "Adding a FOREIGN KEY without NOT VALID on an existing table",
            RuleId::Pgm015 => "ADD CHECK on existing table without NOT VALID",
            RuleId::Pgm016 => "ADD PRIMARY KEY on existing table without USING INDEX",
            RuleId::Pgm017 => "ADD UNIQUE on existing table without USING INDEX",
            RuleId::Pgm018 => "CLUSTER on existing table",
            RuleId::Pgm019 => "ADD EXCLUDE constraint on existing table",
            RuleId::Pgm020 => "DISABLE TRIGGER on table suppresses FK enforcement",
            RuleId::Pgm101 => "Column uses timestamp without time zone",
            RuleId::Pgm102 => "Column uses timestamp or timestamptz with precision 0",
            RuleId::Pgm103 => "Column uses char(n) type",
            RuleId::Pgm104 => "Column uses the money type",
            RuleId::Pgm105 => "Column uses serial/bigserial instead of identity column",
            RuleId::Pgm106 => "Column uses json type instead of jsonb",
            RuleId::Pgm201 => "DROP TABLE on existing table",
            RuleId::Pgm202 => "DROP TABLE CASCADE on existing table",
            RuleId::Pgm203 => "TRUNCATE TABLE on existing table",
            RuleId::Pgm204 => "TRUNCATE TABLE CASCADE on existing table",
            RuleId::Pgm205 => "DROP SCHEMA CASCADE",
            RuleId::Pgm301 => "INSERT INTO existing table in migration",
            RuleId::Pgm302 => "UPDATE on existing table in migration",
            RuleId::Pgm303 => "DELETE FROM existing table in migration",
            RuleId::Pgm401 => "Missing IF EXISTS on DROP TABLE / DROP INDEX",
            RuleId::Pgm402 => "Missing IF NOT EXISTS on CREATE TABLE / CREATE INDEX",
            RuleId::Pgm403 => "CREATE TABLE IF NOT EXISTS for already-existing table",
            RuleId::Pgm501 => "Foreign key without a covering index on the referencing table",
            RuleId::Pgm502 => "Table created without a primary key",
            RuleId::Pgm503 => "Table uses UNIQUE NOT NULL instead of a PRIMARY KEY",
            RuleId::Pgm504 => "ALTER TABLE RENAME TO on existing table",
            RuleId::Pgm505 => "RENAME COLUMN on existing table",
            RuleId::Pgm506 => "CREATE UNLOGGED TABLE",
            RuleId::Pgm901 => "Meta rules alter the behavior of other rules, they are not rules themselves",
        }
    }

    /// The severity this rule reports unless a rule-specific case says otherwise.
    pub fn default_severity(&self) -> (r: Severity)
        ensures
            r == spec_default_severity(*self),
    {
        match self {
            RuleId::Pgm001 | RuleId::Pgm002 | RuleId::Pgm003 | RuleId::Pgm004 | RuleId::Pgm007
            | RuleId::Pgm008 | RuleId::Pgm013 | RuleId::Pgm014 | RuleId::Pgm015 | RuleId::Pgm017
            | RuleId::Pgm018 | RuleId::Pgm019 | RuleId::Pgm205 => Severity::Critical,
            RuleId::Pgm005 | RuleId::Pgm011 | RuleId::Pgm016 | RuleId::Pgm202 | RuleId::Pgm204
            | RuleId::Pgm501 | RuleId::Pgm502 => Severity::Major,
            RuleId::Pgm006 | RuleId::Pgm010 | RuleId::Pgm012 | RuleId::Pgm020 | RuleId::Pgm101
            | RuleId::Pgm102 | RuleId::Pgm103 | RuleId::Pgm104 | RuleId::Pgm106 | RuleId::Pgm201
            | RuleId::Pgm203 | RuleId::Pgm302 | RuleId::Pgm303 | RuleId::Pgm401 | RuleId::Pgm402
            | RuleId::Pgm403 => Severity::Minor,
            RuleId::Pgm009 | RuleId::Pgm105 | RuleId::Pgm301 | RuleId::Pgm503 | RuleId::Pgm504
            | RuleId::Pgm505 | RuleId::Pgm506 | RuleId::Pgm901 => Severity::Info,
        }
    }
}

#[verifier::external_type_specification]
#[verifier::external_body]
pub struct ExStrumParseError(strum::ParseError);

/// `strum::ParseError::VariantNotFound`: the error strum's parsers report for
/// a string that names no variant. Nothing is claimed of the value.
#[verifier::external_body]
fn variant_not_found() -> (e: strum::ParseError) {
    strum::ParseError::VariantNotFound
}

impl core::str::FromStr for RuleId {
    type Err = strum::ParseError;

    /// Parse a rule code (`PGM001`, case-sensitive).
    fn from_str(s: &str) -> (r: Result<RuleId, strum::ParseError>)
        ensures
            match r {
                Ok(id) => spec_rule_code(id) == s@,
                Err(_) => forall|id: RuleId| spec_rule_code(id) != s@,
            },
            forall|id: RuleId| spec_rule_code(id) == s@ ==> r == Ok::<RuleId, strum::ParseError>(id),
    {
        match RuleId::from_code(s) {
            Some(id) => Ok(id),
            None => Err(variant_not_found()),
        }
    }
}

} // verus!
