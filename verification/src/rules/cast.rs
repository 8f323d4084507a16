//! Which column type changes PostgreSQL can do without rewriting the table.
use vstd::prelude::*;
use crate::parser::ir::TypeName;
use crate::text::{ascii_lowercase, is_ascii_text, std_to_lowercase, str_eq, to_lowercase};

verus! {

/// Outcome of checking a column type change.
#[derive(Debug, Clone, Copy, PartialEq, Eq, Structural)]
pub enum CastSafety {
    /// No table rewrite: no finding.
    Safe,
    /// Conditionally safe: an `Info` finding.
    Info,
    /// Requires a table rewrite: a finding at the rule's severity.
    Unsafe,
}

pub open spec fn spec_is_varchar(n: Seq<char>) -> bool {
    n == "varchar"@ || n == "character varying"@
}

pub open spec fn spec_is_numeric(n: Seq<char>) -> bool {
    n == "numeric"@ || n == "decimal"@
}

pub open spec fn spec_is_varbit(n: Seq<char>) -> bool {
    n == "varbit"@ || n == "bit varying"@
}

pub open spec fn spec_is_timestamp(n: Seq<char>) -> bool {
    n == "timestamp"@ || n == "timestamp without time zone"@
}

pub open spec fn spec_is_timestamptz(n: Seq<char>) -> bool {
    n == "timestamptz"@ || n == "timestamp with time zone"@
}

/// Widening rule for types with one length modifier (`varchar(n)`,
/// `varbit(n)`): safe when the new bound is at least the old one or is
/// removed; unsafe when a bound is added.
pub open spec fn spec_single_modifier(old: Seq<i64>, new: Seq<i64>) -> CastSafety {
    if old.len() > 0 && new.len() > 0 {
        if new[0] >= old[0] {
            CastSafety::Safe
        } else {
            CastSafety::Unsafe
        }
    } else if old.len() > 0 {
        CastSafety::Safe
    } else if new.len() > 0 {
        CastSafety::Unsafe
    } else {
        CastSafety::Safe
    }
}

/// `numeric(p)` means `numeric(p, 0)`; anything other than one or two
/// modifiers maps to `(-1, -1)`.
pub open spec fn spec_normalize_numeric(m: Seq<i64>) -> (i64, i64) {
    if m.len() == 2 {
        (m[0], m[1])
    } else if m.len() == 1 {
        (m[0], 0i64)
    } else {
        (-1i64, -1i64)
    }
}

/// Numeric widening: safe when the precision does not shrink and the scale
/// stays the same, or when the constraint is removed.
pub open spec fn spec_numeric_widening(old: Seq<i64>, new: Seq<i64>) -> CastSafety {
    if new.len() == 0 {
        CastSafety::Safe
    } else if old.len() == 0 {
        CastSafety::Unsafe
    } else {
        let (op, os) = spec_normalize_numeric(old);
        let (np, ns) = spec_normalize_numeric(new);
        if np >= op && ns == os {
            CastSafety::Safe
        } else {
            CastSafety::Unsafe
        }
    }
}

/// Classification of a change from a type named `o` (lowercased) with
/// modifiers `om` to one named `n` with modifiers `nm`.
pub open spec fn spec_cast_safety(o: Seq<char>, om: Seq<i64>, n: Seq<char>, nm: Seq<i64>) -> CastSafety {
    if spec_is_varchar(o) && spec_is_varchar(n) {
        spec_single_modifier(om, nm)
    } else if spec_is_varchar(o) && n == "text"@ {
        CastSafety::Safe
    } else if spec_is_numeric(o) && spec_is_numeric(n) {
        spec_numeric_widening(om, nm)
    } else if spec_is_varbit(o) && spec_is_varbit(n) {
        spec_single_modifier(om, nm)
    } else if spec_is_timestamp(o) && spec_is_timestamptz(n) {
        CastSafety::Info
    } else {
        CastSafety::Unsafe
    }
}

/// The classification PGM009 uses: that of [`spec_cast_safety`], except
/// that `bit(n)` to `bit(m)` follows the widening rule for one length
/// modifier (safe when `m >= n` or the bound is removed).
pub open spec fn spec_cast_safety_with_bit(o: Seq<char>, om: Seq<i64>, n: Seq<char>, nm: Seq<i64>) -> CastSafety {
    if o == "bit"@ && n == "bit"@ {
        spec_single_modifier(om, nm)
    } else {
        spec_cast_safety(o, om, n, nm)
    }
}

/// Whether `name` spells varchar.
pub fn is_varchar_type(name: &str) -> (r: bool)
    ensures
        r == spec_is_varchar(name@),
{
    str_eq(name, "varchar") || str_eq(name, "character varying")
}

/// Whether `name` spells numeric.
pub fn is_numeric_type(name: &str) -> (r: bool)
    ensures
        r == spec_is_numeric(name@),
{
    str_eq(name, "numeric") || str_eq(name, "decimal")
}

/// Whether `name` spells bit varying.
pub fn is_varbit_type(name: &str) -> (r: bool)
    ensures
        r == spec_is_varbit(name@),
{
    str_eq(name, "varbit") || str_eq(name, "bit varying")
}

/// Whether `name` spells timestamp without time zone.
pub fn is_timestamp_type(name: &str) -> (r: bool)
    ensures
        r == spec_is_timestamp(name@),
{
    str_eq(name, "timestamp") || str_eq(name, "timestamp without time zone")
}

/// Whether `name` spells timestamp with time zone.
pub fn is_timestamptz_type(name: &str) -> (r: bool)
    ensures
        r == spec_is_timestamptz(name@),
{
    str_eq(name, "timestamptz") || str_eq(name, "timestamp with time zone")
}

/// Widening check for a single length modifier.
pub fn check_widening_single_modifier(old: &TypeName, new: &TypeName) -> (r: CastSafety)
    ensures
        r == spec_single_modifier(old.modifiers@, new.modifiers@),
{
    if old.modifiers.len() > 0 && new.modifiers.len() > 0 {
        if new.modifiers[0] >= old.modifiers[0] {
            CastSafety::Safe
        } else {
            CastSafety::Unsafe
        }
    } else if old.modifiers.len() > 0 {
        CastSafety::Safe
    } else if new.modifiers.len() > 0 {
        CastSafety::Unsafe
    } else {
        CastSafety::Safe
    }
}

/// `numeric(p, s)` as `(p, s)`, `numeric(p)` as `(p, 0)`, anything else as `(-1, -1)`.
pub fn normalize_numeric_modifiers(mods: &[i64]) -> (r: (i64, i64))
    ensures
        r == spec_normalize_numeric(mods@),
{
    if mods.len() == 2 {
        (mods[0], mods[1])
    } else if mods.len() == 1 {
        (mods[0], 0)
    } else {
        (-1, -1)
    }
}

/// `numeric(p, s)` to `numeric(p2, s2)` widening check.
pub fn check_numeric_widening(old: &TypeName, new: &TypeName) -> (r: CastSafety)
    ensures
        r == spec_numeric_widening(old.modifiers@, new.modifiers@),
{
    if new.modifiers.len() == 0 {
        CastSafety::Safe
    } else if old.modifiers.len() == 0 {
        CastSafety::Unsafe
    } else {
        let (op, os) = normalize_numeric_modifiers(old.modifiers.as_slice());
        let (np, ns) = normalize_numeric_modifiers(new.modifiers.as_slice());
        if np >= op && ns == os {
            CastSafety::Safe
        } else {
            CastSafety::Unsafe
        }
    }
}

/// Whether changing a column from `old` to `new` is binary-coercible
/// (`Safe`), needs only an informational note (`Info`: timestamp to
/// timestamptz), or rewrites the table (`Unsafe`). Type names are compared
/// after lowercasing.
pub fn is_safe_cast(old: &TypeName, new: &TypeName) -> (r: CastSafety)
    ensures
        r == spec_cast_safety(
            std_to_lowercase(old.name@),
            old.modifiers@,
            std_to_lowercase(new.name@),
            new.modifiers@,
        ),
        is_ascii_text(old.name@) && is_ascii_text(new.name@) ==> r == spec_cast_safety(
            ascii_lowercase(old.name@),
            old.modifiers@,
            ascii_lowercase(new.name@),
            new.modifiers@,
        ),
{
    let old_lower = to_lowercase(old.name.as_str());
    let new_lower = to_lowercase(new.name.as_str());
    let o = old_lower.as_str();
    let n = new_lower.as_str();
    if is_varchar_type(o) {
        if is_varchar_type(n) {
            return check_widening_single_modifier(old, new);
        }
        if str_eq(n, "text") {
            return CastSafety::Safe;
        }
    }
    if is_numeric_type(o) && is_numeric_type(n) {
        return check_numeric_widening(old, new);
    }
    if is_varbit_type(o) && is_varbit_type(n) {
        return check_widening_single_modifier(old, new);
    }
    if is_timestamp_type(o) && is_timestamptz_type(n) {
        return CastSafety::Info;
    }
    CastSafety::Unsafe
}

/// Like [`is_safe_cast`], but `bit(n)` to `bit(m)` is classified by the
/// widening rule for one length modifier, as PGM009 does.
pub fn is_safe_cast_with_bit(old: &TypeName, new: &TypeName) -> (r: CastSafety)
    ensures
        r == spec_cast_safety_with_bit(
            std_to_lowercase(old.name@),
            old.modifiers@,
            std_to_lowercase(new.name@),
            new.modifiers@,
        ),
        is_ascii_text(old.name@) && is_ascii_text(new.name@) ==> r == spec_cast_safety_with_bit(
            ascii_lowercase(old.name@),
            old.modifiers@,
            ascii_lowercase(new.name@),
            new.modifiers@,
        ),
{
    let old_lower = to_lowercase(old.name.as_str());
    let new_lower = to_lowercase(new.name.as_str());
    if str_eq(old_lower.as_str(), "bit") && str_eq(new_lower.as_str(), "bit") {
        check_widening_single_modifier(old, new)
    } else {
        is_safe_cast(old, new)
    }
}

/// Keeping the same bounds is never a narrowing: a varchar, varbit or
/// numeric column changed to the same type with the same modifiers is safe.
pub proof fn lemma_same_bounds_safe(name: Seq<char>, m: Seq<i64>)
    requires
        spec_is_varchar(name) || spec_is_numeric(name) || spec_is_varbit(name),
    ensures
        spec_cast_safety(name, m, name, m) == CastSafety::Safe,
{
}

/// Dropping the bound of a varchar or varbit column is safe, and adding
/// one where there was none is not.
pub proof fn lemma_bound_removed_or_added(old: Seq<i64>, new: Seq<i64>)
    ensures
        new.len() == 0 ==> spec_single_modifier(old, new) == CastSafety::Safe,
        old.len() == 0 && new.len() > 0 ==> spec_single_modifier(old, new) == CastSafety::Unsafe,
{
}

/// The classification of a type change sees the type names only as
/// lowercased: two changes whose names lowercase alike and whose modifiers
/// agree are classified alike. Only a timestamp to timestamptz change (under
/// either spelling of each) is `Info`, whatever the modifiers.
pub proof fn lemma_cast_by_lowercase_names(old: TypeName, new: TypeName, old2: TypeName, new2: TypeName)
    requires
        std_to_lowercase(old.name@) == std_to_lowercase(old2.name@),
        std_to_lowercase(new.name@) == std_to_lowercase(new2.name@),
        old.modifiers@ == old2.modifiers@,
        new.modifiers@ == new2.modifiers@,
    ensures
        spec_cast_safety(std_to_lowercase(old.name@), old.modifiers@, std_to_lowercase(new.name@), new.modifiers@)
            == spec_cast_safety(std_to_lowercase(old2.name@), old2.modifiers@, std_to_lowercase(new2.name@), new2.modifiers@),
        (spec_cast_safety(std_to_lowercase(old.name@), old.modifiers@, std_to_lowercase(new.name@), new.modifiers@)
            == CastSafety::Info) <==> (spec_is_timestamp(std_to_lowercase(old.name@)) && spec_is_timestamptz(
            std_to_lowercase(new.name@),
        )),
{
    reveal_strlit("varchar");
    reveal_strlit("character varying");
    reveal_strlit("numeric");
    reveal_strlit("decimal");
    reveal_strlit("varbit");
    reveal_strlit("bit varying");
    reveal_strlit("timestamp");
    reveal_strlit("timestamp without time zone");
    reveal_strlit("timestamptz");
    reveal_strlit("timestamp with time zone");
    reveal_strlit("text");
    lemma_info_only_for_timestamps(std_to_lowercase(old.name@), old.modifiers@, std_to_lowercase(new.name@), new.modifiers@);
}

proof fn lemma_info_only_for_timestamps(o: Seq<char>, om: Seq<i64>, n: Seq<char>, nm: Seq<i64>)
    ensures
        (spec_cast_safety(o, om, n, nm) == CastSafety::Info) <==> (spec_is_timestamp(o) && spec_is_timestamptz(n)),
{
    reveal_strlit("varchar");
    reveal_strlit("character varying");
    reveal_strlit("numeric");
    reveal_strlit("decimal");
    reveal_strlit("varbit");
    reveal_strlit("bit varying");
    reveal_strlit("timestamp");
    reveal_strlit("timestamp without time zone");
    reveal_strlit("timestamptz");
    reveal_strlit("timestamp with time zone");
    reveal_strlit("text");
    assert(spec_single_modifier(om, nm) != CastSafety::Info);
    assert(spec_numeric_widening(om, nm) != CastSafety::Info);
    assert("timestamp"@.len() == 9 && "timestamp without time zone"@.len() == 27);
    assert("varchar"@.len() == 7 && "character varying"@.len() == 17 && "numeric"@.len() == 7);
    assert("decimal"@.len() == 7 && "varbit"@.len() == 6 && "bit varying"@.len() == 11);
}

} // verus!
