//! Volatility of PostgreSQL's built-in functions, as `pg_proc.provolatile`
//! classifies them, for the functions a column default commonly calls.
use vstd::prelude::*;
use crate::text::{ascii_lower, chars_of, eq_ignore_ascii_case, lower_char, spec_eq_ignore_ascii_case, string_of_chars};

verus! {

/// How a function's result may vary between calls.
#[derive(Debug, Clone, Copy, PartialEq, Eq, Structural)]
pub enum FnVolatility {
    /// May change between calls within one statement (`random()`).
    Volatile,
    /// Fixed within one statement (`now()`).
    Stable,
    /// Depends on the arguments alone (`lower()`).
    Immutable,
}

/// The volatile built-in functions known here, lowercase.
pub open spec fn volatile_names() -> Seq<Seq<char>> {
    seq![
        "clock_timestamp"@, "currval"@, "gen_random_uuid"@, "lastval"@, "nextval"@,
        "pg_advisory_lock"@, "pg_advisory_xact_lock"@, "pg_cancel_backend"@, "pg_notify"@,
        "pg_sleep"@, "pg_terminate_backend"@, "pg_try_advisory_lock"@, "random"@,
        "random_normal"@, "set_config"@, "setseed"@, "setval"@, "timeofday"@,
    ]
}

/// The stable built-in functions known here, lowercase.
pub open spec fn stable_names() -> Seq<Seq<char>> {
    seq![
        "current_database"@, "current_schema"@, "current_schemas"@, "current_setting"@,
        "current_user"@, "inet_client_addr"@, "now"@, "pg_backend_pid"@,
        "pg_postmaster_start_time"@, "session_user"@, "statement_timestamp"@,
        "transaction_timestamp"@, "txid_current"@, "txid_current_snapshot"@, "version"@,
    ]
}

/// The immutable built-in functions known here, lowercase.
pub open spec fn immutable_names() -> Seq<Seq<char>> {
    seq![
        "abs"@, "ascii"@, "btrim"@, "ceil"@, "char_length"@, "chr"@, "floor"@, "initcap"@,
        "left"@, "length"@, "lower"@, "lpad"@, "ltrim"@, "md5"@, "octet_length"@, "repeat"@,
        "replace"@, "reverse"@, "right"@, "round"@, "rpad"@, "rtrim"@, "split_part"@, "sqrt"@,
        "strpos"@, "translate"@, "trunc"@, "upper"@,
    ]
}

/// `s` with ASCII letters lowercased.
pub open spec fn spec_ascii_lowercase(s: Seq<char>) -> Seq<char> {
    s.map_values(|c: char| ascii_lower(c))
}

/// The volatility of a function by name, ignoring ASCII case; `None` for a
/// function not known here (user-defined or from an extension).
pub open spec fn spec_lookup(name: Seq<char>) -> Option<FnVolatility> {
    let l = spec_ascii_lowercase(name);
    if volatile_names().contains(l) {
        Some(FnVolatility::Volatile)
    } else if stable_names().contains(l) {
        Some(FnVolatility::Stable)
    } else if immutable_names().contains(l) {
        Some(FnVolatility::Immutable)
    } else {
        None
    }
}

fn volatile_list() -> (v: Vec<&'static str>)
    ensures
        v@.map_values(|s: &str| s@) == volatile_names(),
{
    let v = vec![
        "clock_timestamp", "currval", "gen_random_uuid", "lastval", "nextval",
        "pg_advisory_lock", "pg_advisory_xact_lock", "pg_cancel_backend", "pg_notify",
        "pg_sleep", "pg_terminate_backend", "pg_try_advisory_lock", "random",
        "random_normal", "set_config", "setseed", "setval", "timeofday",
    ];
    assert(v@.map_values(|s: &str| s@) =~= volatile_names());
    v
}

fn stable_list() -> (v: Vec<&'static str>)
    ensures
        v@.map_values(|s: &str| s@) == stable_names(),
{
    let v = vec![
        "current_database", "current_schema", "current_schemas", "current_setting",
        "current_user", "inet_client_addr", "now", "pg_backend_pid",
        "pg_postmaster_start_time", "session_user", "statement_timestamp",
        "transaction_timestamp", "txid_current", "txid_current_snapshot", "version",
    ];
    assert(v@.map_values(|s: &str| s@) =~= stable_names());
    v
}

fn immutable_list() -> (v: Vec<&'static str>)
    ensures
        v@.map_values(|s: &str| s@) == immutable_names(),
{
    let v = vec![
        "abs", "ascii", "btrim", "ceil", "char_length", "chr", "floor", "initcap",
        "left", "length", "lower", "lpad", "ltrim", "md5", "octet_length", "repeat",
        "replace", "reverse", "right", "round", "rpad", "rtrim", "split_part", "sqrt",
        "strpos", "translate", "trunc", "upper",
    ];
    assert(v@.map_values(|s: &str| s@) =~= immutable_names());
    v
}

fn list_contains(v: &Vec<&'static str>, name: &str) -> (r: bool)
    ensures
        r == v@.map_values(|s: &str| s@).contains(name@),
{
    let mut i: usize = 0;
    while i < v.len()
        invariant
            i <= v.len(),
            forall|k: int| 0 <= k < i ==> v@[k]@ != name@,
        decreases v.len() - i,
    {
        if crate::text::str_eq(v[i], name) {
            assert(v@.map_values(|s: &str| s@)[i as int] == name@);
            return true;
        }
        i = i + 1;
    }
    proof {
        let m = v@.map_values(|s: &str| s@);
        assert forall|k: int| 0 <= k < m.len() implies #[trigger] m[k] != name@ by {
            assert(m[k] == v@[k]@);
        }
    }
    false
}

/// `s` with ASCII letters lowercased.
pub fn ascii_lowercase(s: &str) -> (r: String)
    ensures
        r@ == spec_ascii_lowercase(s@),
{
    let cs = chars_of(s);
    let mut out: Vec<char> = Vec::new();
    let mut i: usize = 0;
    while i < cs.len()
        invariant
            i <= cs.len(),
            out@ == cs@.take(i as int).map_values(|c: char| ascii_lower(c)),
        decreases cs.len() - i,
    {
        out.push(lower_char(cs[i]));
        proof {
            assert(cs@.take(i + 1).map_values(|c: char| ascii_lower(c)) =~= cs@.take(i as int).map_values(|c: char| ascii_lower(c)).push(ascii_lower(cs@[i as int])));
        }
        i = i + 1;
    }
    proof {
        assert(cs@.take(cs@.len() as int) =~= cs@);
    }
    string_of_chars(&out)
}

/// The volatility of a built-in function, by name, ignoring ASCII case.
pub fn lookup(name: &str) -> (r: Option<FnVolatility>)
    ensures
        r == spec_lookup(name@),
{
    let l = ascii_lowercase(name);
    if list_contains(&volatile_list(), l.as_str()) {
        Some(FnVolatility::Volatile)
    } else if list_contains(&stable_list(), l.as_str()) {
        Some(FnVolatility::Stable)
    } else if list_contains(&immutable_list(), l.as_str()) {
        Some(FnVolatility::Immutable)
    } else {
        None
    }
}

/// Whether a function name is `nextval`, ignoring ASCII case.
pub fn is_nextval(func_name: &str) -> (r: bool)
    ensures
        r == spec_eq_ignore_ascii_case(func_name@, "nextval"@),
{
    eq_ignore_ascii_case(func_name, "nextval")
}

} // verus!
