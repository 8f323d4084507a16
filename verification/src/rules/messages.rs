//! The messages the rules report, as specifications and as builders.
use vstd::prelude::*;
use crate::text::{join3, join5, join7};

verus! {

pub open spec fn m_pgm001_partitioned(t: Seq<char>) -> Seq<char> {
    "CREATE INDEX on partitioned table '"@ + t + "' will lock all partitions. Use CREATE INDEX ON ONLY, then CREATE INDEX CONCURRENTLY on each partition, then ALTER INDEX ... ATTACH PARTITION."@
}

pub fn msg_pgm001_partitioned(t: &str) -> (r: String)
    ensures
        r@ == m_pgm001_partitioned(t@),
{
    join3("CREATE INDEX on partitioned table '", t, "' will lock all partitions. Use CREATE INDEX ON ONLY, then CREATE INDEX CONCURRENTLY on each partition, then ALTER INDEX ... ATTACH PARTITION.")
}

pub open spec fn m_pgm001_plain(t: Seq<char>) -> Seq<char> {
    "CREATE INDEX on existing table '"@ + t + "' should use CONCURRENTLY to avoid holding a SHARE lock that blocks writes."@
}

pub fn msg_pgm001_plain(t: &str) -> (r: String)
    ensures
        r@ == m_pgm001_plain(t@),
{
    join3("CREATE INDEX on existing table '", t, "' should use CONCURRENTLY to avoid holding a SHARE lock that blocks writes.")
}

pub open spec fn m_pgm002_partitioned(i: Seq<char>, t: Seq<char>) -> Seq<char> {
    "DROP INDEX '"@ + i + "' on partitioned table '"@ + t + "' will lock all partitions. CONCURRENTLY is not supported for partitioned parent indexes."@
}

pub fn msg_pgm002_partitioned(i: &str, t: &str) -> (r: String)
    ensures
        r@ == m_pgm002_partitioned(i@, t@),
{
    join5("DROP INDEX '", i, "' on partitioned table '", t, "' will lock all partitions. CONCURRENTLY is not supported for partitioned parent indexes.")
}

pub open spec fn m_pgm002_plain(i: Seq<char>, t: Seq<char>) -> Seq<char> {
    "DROP INDEX '"@ + i + "' on existing table '"@ + t + "' should use CONCURRENTLY to avoid holding an exclusive lock."@
}

pub fn msg_pgm002_plain(i: &str, t: &str) -> (r: String)
    ensures
        r@ == m_pgm002_plain(i@, t@),
{
    join5("DROP INDEX '", i, "' on existing table '", t, "' should use CONCURRENTLY to avoid holding an exclusive lock.")
}

pub open spec fn m_pgm004(t: Seq<char>) -> Seq<char> {
    "DETACH PARTITION on existing partitioned table '"@ + t + "' without CONCURRENTLY acquires ACCESS EXCLUSIVE on the entire table, blocking all reads and writes. Use DETACH PARTITION ... CONCURRENTLY (PostgreSQL 14+)."@
}

pub fn msg_pgm004(t: &str) -> (r: String)
    ensures
        r@ == m_pgm004(t@),
{
    join3("DETACH PARTITION on existing partitioned table '", t, "' without CONCURRENTLY acquires ACCESS EXCLUSIVE on the entire table, blocking all reads and writes. Use DETACH PARTITION ... CONCURRENTLY (PostgreSQL 14+).")
}

pub open spec fn m_pgm005(c: Seq<char>, t: Seq<char>) -> Seq<char> {
    "ATTACH PARTITION of existing table '"@ + c + "' to '"@ + t + "' will scan the entire child table under ACCESS EXCLUSIVE lock to verify the partition bound. Add a CHECK constraint mirroring the partition bound, validate it separately, then attach."@
}

pub fn msg_pgm005(c: &str, t: &str) -> (r: String)
    ensures
        r@ == m_pgm005(c@, t@),
{
    join5("ATTACH PARTITION of existing table '", c, "' to '", t, "' will scan the entire child table under ACCESS EXCLUSIVE lock to verify the partition bound. Add a CHECK constraint mirroring the partition bound, validate it separately, then attach.")
}

pub open spec fn m_pgm010(c: Seq<char>, t: Seq<char>, d: Seq<char>) -> Seq<char> {
    "Dropping column '"@ + c + "' from table '"@ + t + "' silently removes unique constraint "@ + d + ". Verify that the uniqueness guarantee is no longer needed."@
}

pub fn msg_pgm010(c: &str, t: &str, d: &str) -> (r: String)
    ensures
        r@ == m_pgm010(c@, t@, d@),
{
    join7("Dropping column '", c, "' from table '", t, "' silently removes unique constraint ", d, ". Verify that the uniqueness guarantee is no longer needed.")
}

pub open spec fn m_pgm011(c: Seq<char>, t: Seq<char>) -> Seq<char> {
    "Dropping column '"@ + c + "' from table '"@ + t + "' silently removes the primary key. The table will have no row identity. Add a new primary key or reconsider the column drop."@
}

pub fn msg_pgm011(c: &str, t: &str) -> (r: String)
    ensures
        r@ == m_pgm011(c@, t@),
{
    join5("Dropping column '", c, "' from table '", t, "' silently removes the primary key. The table will have no row identity. Add a new primary key or reconsider the column drop.")
}

pub open spec fn m_pgm012(c: Seq<char>, t: Seq<char>, d: Seq<char>) -> Seq<char> {
    "Dropping column '"@ + c + "' from table '"@ + t + "' silently removes foreign key "@ + d + ". Verify that the referential integrity guarantee is no longer needed."@
}

pub fn msg_pgm012(c: &str, t: &str, d: &str) -> (r: String)
    ensures
        r@ == m_pgm012(c@, t@, d@),
{
    join7("Dropping column '", c, "' from table '", t, "' silently removes foreign key ", d, ". Verify that the referential integrity guarantee is no longer needed.")
}

pub open spec fn m_pgm013(c: Seq<char>, t: Seq<char>) -> Seq<char> {
    "SET NOT NULL on column '"@ + c + "' of existing table '"@ + t + "' requires an ACCESS EXCLUSIVE lock and full table scan. Use a CHECK constraint with NOT VALID, validate it, then set NOT NULL."@
}

pub fn msg_pgm013(c: &str, t: &str) -> (r: String)
    ensures
        r@ == m_pgm013(c@, t@),
{
    join5("SET NOT NULL on column '", c, "' of existing table '", t, "' requires an ACCESS EXCLUSIVE lock and full table scan. Use a CHECK constraint with NOT VALID, validate it, then set NOT NULL.")
}

pub open spec fn m_pgm015(t: Seq<char>) -> Seq<char> {
    "Adding CHECK constraint on existing table '"@ + t + "' without NOT VALID will scan the entire table while holding a SHARE ROW EXCLUSIVE lock, blocking concurrent writes. Use ADD CONSTRAINT ... NOT VALID, then VALIDATE CONSTRAINT in a separate statement."@
}

pub fn msg_pgm015(t: &str) -> (r: String)
    ensures
        r@ == m_pgm015(t@),
{
    join3("Adding CHECK constraint on existing table '", t, "' without NOT VALID will scan the entire table while holding a SHARE ROW EXCLUSIVE lock, blocking concurrent writes. Use ADD CONSTRAINT ... NOT VALID, then VALIDATE CONSTRAINT in a separate statement.")
}

pub open spec fn m_pgm016_missing(i: Seq<char>, t: Seq<char>) -> Seq<char> {
    "ADD PRIMARY KEY USING INDEX '"@ + i + "' on table '"@ + t + "': referenced index does not exist."@
}

pub fn msg_pgm016_missing(i: &str, t: &str) -> (r: String)
    ensures
        r@ == m_pgm016_missing(i@, t@),
{
    join5("ADD PRIMARY KEY USING INDEX '", i, "' on table '", t, "': referenced index does not exist.")
}

pub open spec fn m_pgm016_not_unique(i: Seq<char>, t: Seq<char>) -> Seq<char> {
    "ADD PRIMARY KEY USING INDEX '"@ + i + "' on table '"@ + t + "': referenced index is not UNIQUE."@
}

pub fn msg_pgm016_not_unique(i: &str, t: &str) -> (r: String)
    ensures
        r@ == m_pgm016_not_unique(i@, t@),
{
    join5("ADD PRIMARY KEY USING INDEX '", i, "' on table '", t, "': referenced index is not UNIQUE.")
}

pub open spec fn m_pgm016_not_btree(i: Seq<char>, t: Seq<char>, m: Seq<char>) -> Seq<char> {
    "ADD PRIMARY KEY USING INDEX '"@ + i + "' on table '"@ + t + "': referenced index uses access method '"@ + m + "', but only btree indexes can back a PRIMARY KEY constraint."@
}

pub fn msg_pgm016_not_btree(i: &str, t: &str, m: &str) -> (r: String)
    ensures
        r@ == m_pgm016_not_btree(i@, t@, m@),
{
    join7("ADD PRIMARY KEY USING INDEX '", i, "' on table '", t, "': referenced index uses access method '", m, "', but only btree indexes can back a PRIMARY KEY constraint.")
}

pub open spec fn m_pgm016_nullable(i: Seq<char>, t: Seq<char>, cols: Seq<char>) -> Seq<char> {
    "ADD PRIMARY KEY USING INDEX '"@ + i + "' on table '"@ + t + "': column(s) ["@ + cols + "] are nullable. PostgreSQL will implicitly SET NOT NULL under ACCESS EXCLUSIVE lock. Run ALTER COLUMN ... SET NOT NULL with a CHECK constraint first."@
}

pub fn msg_pgm016_nullable(i: &str, t: &str, cols: &str) -> (r: String)
    ensures
        r@ == m_pgm016_nullable(i@, t@, cols@),
{
    join7("ADD PRIMARY KEY USING INDEX '", i, "' on table '", t, "': column(s) [", cols, "] are nullable. PostgreSQL will implicitly SET NOT NULL under ACCESS EXCLUSIVE lock. Run ALTER COLUMN ... SET NOT NULL with a CHECK constraint first.")
}

pub open spec fn m_pgm016_no_index(t: Seq<char>, cols: Seq<char>) -> Seq<char> {
    "ADD PRIMARY KEY on existing table '"@ + t + "' without USING INDEX on column(s) ["@ + cols + "]. Create a UNIQUE index CONCURRENTLY first, then use ADD PRIMARY KEY USING INDEX."@
}

pub fn msg_pgm016_no_index(t: &str, cols: &str) -> (r: String)
    ensures
        r@ == m_pgm016_no_index(t@, cols@),
{
    join5("ADD PRIMARY KEY on existing table '", t, "' without USING INDEX on column(s) [", cols, "]. Create a UNIQUE index CONCURRENTLY first, then use ADD PRIMARY KEY USING INDEX.")
}

pub open spec fn m_pgm017_missing(i: Seq<char>, t: Seq<char>) -> Seq<char> {
    "ADD UNIQUE USING INDEX '"@ + i + "' on table '"@ + t + "': referenced index does not exist."@
}

pub fn msg_pgm017_missing(i: &str, t: &str) -> (r: String)
    ensures
        r@ == m_pgm017_missing(i@, t@),
{
    join5("ADD UNIQUE USING INDEX '", i, "' on table '", t, "': referenced index does not exist.")
}

pub open spec fn m_pgm017_not_unique(i: Seq<char>, t: Seq<char>) -> Seq<char> {
    "ADD UNIQUE USING INDEX '"@ + i + "' on table '"@ + t + "': referenced index is not UNIQUE."@
}

pub fn msg_pgm017_not_unique(i: &str, t: &str) -> (r: String)
    ensures
        r@ == m_pgm017_not_unique(i@, t@),
{
    join5("ADD UNIQUE USING INDEX '", i, "' on table '", t, "': referenced index is not UNIQUE.")
}

pub open spec fn m_pgm017_not_btree(i: Seq<char>, t: Seq<char>, m: Seq<char>) -> Seq<char> {
    "ADD UNIQUE USING INDEX '"@ + i + "' on table '"@ + t + "': referenced index uses access method '"@ + m + "', but only btree indexes can back a UNIQUE constraint."@
}

pub fn msg_pgm017_not_btree(i: &str, t: &str, m: &str) -> (r: String)
    ensures
        r@ == m_pgm017_not_btree(i@, t@, m@),
{
    join7("ADD UNIQUE USING INDEX '", i, "' on table '", t, "': referenced index uses access method '", m, "', but only btree indexes can back a UNIQUE constraint.")
}

pub open spec fn m_pgm017_no_index(t: Seq<char>, cols: Seq<char>) -> Seq<char> {
    "ADD UNIQUE on existing table '"@ + t + "' without USING INDEX on column(s) ["@ + cols + "]. Create a unique index CONCURRENTLY first, then use ADD CONSTRAINT ... UNIQUE USING INDEX."@
}

pub fn msg_pgm017_no_index(t: &str, cols: &str) -> (r: String)
    ensures
        r@ == m_pgm017_no_index(t@, cols@),
{
    join5("ADD UNIQUE on existing table '", t, "' without USING INDEX on column(s) [", cols, "]. Create a unique index CONCURRENTLY first, then use ADD CONSTRAINT ... UNIQUE USING INDEX.")
}

pub open spec fn m_pgm018_using(t: Seq<char>, i: Seq<char>) -> Seq<char> {
    "CLUSTER on table '"@ + t + "' USING '"@ + i + "' rewrites the entire table under ACCESS EXCLUSIVE lock for the full duration. All reads and writes are blocked. This is rarely appropriate in an online migration."@
}

pub fn msg_pgm018_using(t: &str, i: &str) -> (r: String)
    ensures
        r@ == m_pgm018_using(t@, i@),
{
    join5("CLUSTER on table '", t, "' USING '", i, "' rewrites the entire table under ACCESS EXCLUSIVE lock for the full duration. All reads and writes are blocked. This is rarely appropriate in an online migration.")
}

pub open spec fn m_pgm018_plain(t: Seq<char>) -> Seq<char> {
    "CLUSTER on table '"@ + t + "' rewrites the entire table under ACCESS EXCLUSIVE lock for the full duration. All reads and writes are blocked. This is rarely appropriate in an online migration."@
}

pub fn msg_pgm018_plain(t: &str) -> (r: String)
    ensures
        r@ == m_pgm018_plain(t@),
{
    join3("CLUSTER on table '", t, "' rewrites the entire table under ACCESS EXCLUSIVE lock for the full duration. All reads and writes are blocked. This is rarely appropriate in an online migration.")
}

pub open spec fn m_pgm019(t: Seq<char>) -> Seq<char> {
    "Adding EXCLUDE constraint on existing table '"@ + t + "' acquires ACCESS EXCLUSIVE lock and scans all rows. There is no online alternative \u{2014} consider scheduling this during a maintenance window."@
}

pub fn msg_pgm019(t: &str) -> (r: String)
    ensures
        r@ == m_pgm019(t@),
{
    join3("Adding EXCLUDE constraint on existing table '", t, "' acquires ACCESS EXCLUSIVE lock and scans all rows. There is no online alternative \u{2014} consider scheduling this during a maintenance window.")
}

pub open spec fn m_pgm020(l: Seq<char>, t: Seq<char>, d: Seq<char>) -> Seq<char> {
    "DISABLE TRIGGER "@ + l + " on table '"@ + t + "' "@ + d + ""@
}

pub fn msg_pgm020(l: &str, t: &str, d: &str) -> (r: String)
    ensures
        r@ == m_pgm020(l@, t@, d@),
{
    join7("DISABLE TRIGGER ", l, " on table '", t, "' ", d, "")
}

pub open spec fn m_pgm101(c: Seq<char>, t: Seq<char>) -> Seq<char> {
    "Column '"@ + c + "' on '"@ + t + "' uses 'timestamp without time zone'. Use 'timestamptz' (timestamp with time zone) instead to store unambiguous points in time."@
}

pub fn msg_pgm101(c: &str, t: &str) -> (r: String)
    ensures
        r@ == m_pgm101(c@, t@),
{
    join5("Column '", c, "' on '", t, "' uses 'timestamp without time zone'. Use 'timestamptz' (timestamp with time zone) instead to store unambiguous points in time.")
}

pub open spec fn m_pgm102(c: Seq<char>, t: Seq<char>, n: Seq<char>) -> Seq<char> {
    "Column '"@ + c + "' on '"@ + t + "' uses '"@ + n + "(0)'. Precision 0 causes rounding, not truncation \u{2014} a value of '23:59:59.9' rounds to the next day. Use full precision and format on output instead."@
}

pub fn msg_pgm102(c: &str, t: &str, n: &str) -> (r: String)
    ensures
        r@ == m_pgm102(c@, t@, n@),
{
    join7("Column '", c, "' on '", t, "' uses '", n, "(0)'. Precision 0 causes rounding, not truncation \u{2014} a value of '23:59:59.9' rounds to the next day. Use full precision and format on output instead.")
}

pub open spec fn m_pgm103(c: Seq<char>, t: Seq<char>, n: Seq<char>) -> Seq<char> {
    "Column '"@ + c + "' on '"@ + t + "' uses '"@ + n + "'. The char(n) type pads with spaces, wastes storage, and is no faster than text or varchar in PostgreSQL. Use text or varchar instead."@
}

pub fn msg_pgm103(c: &str, t: &str, n: &str) -> (r: String)
    ensures
        r@ == m_pgm103(c@, t@, n@),
{
    join7("Column '", c, "' on '", t, "' uses '", n, "'. The char(n) type pads with spaces, wastes storage, and is no faster than text or varchar in PostgreSQL. Use text or varchar instead.")
}

pub open spec fn m_pgm104(c: Seq<char>, t: Seq<char>) -> Seq<char> {
    "Column '"@ + c + "' on '"@ + t + "' uses the 'money' type. The money type depends on the lc_monetary locale setting, making it unreliable across environments. Use numeric(p,s) instead."@
}

pub fn msg_pgm104(c: &str, t: &str) -> (r: String)
    ensures
        r@ == m_pgm104(c@, t@),
{
    join5("Column '", c, "' on '", t, "' uses the 'money' type. The money type depends on the lc_monetary locale setting, making it unreliable across environments. Use numeric(p,s) instead.")
}

pub open spec fn m_pgm105(c: Seq<char>, t: Seq<char>) -> Seq<char> {
    "Column '"@ + c + "' on '"@ + t + "' uses a sequence default (serial/bigserial). Prefer GENERATED { ALWAYS | BY DEFAULT } AS IDENTITY for new tables (PostgreSQL 10+). Identity columns have better ownership semantics and are the SQL standard approach."@
}

pub fn msg_pgm105(c: &str, t: &str) -> (r: String)
    ensures
        r@ == m_pgm105(c@, t@),
{
    join5("Column '", c, "' on '", t, "' uses a sequence default (serial/bigserial). Prefer GENERATED { ALWAYS | BY DEFAULT } AS IDENTITY for new tables (PostgreSQL 10+). Identity columns have better ownership semantics and are the SQL standard approach.")
}

pub open spec fn m_pgm201(t: Seq<char>) -> Seq<char> {
    "DROP TABLE '"@ + t + "' removes an existing table. This is irreversible and all data will be lost."@
}

pub fn msg_pgm201(t: &str) -> (r: String)
    ensures
        r@ == m_pgm201(t@),
{
    join3("DROP TABLE '", t, "' removes an existing table. This is irreversible and all data will be lost.")
}

pub open spec fn m_pgm202_plain(t: Seq<char>) -> Seq<char> {
    "DROP TABLE CASCADE on '"@ + t + "' will silently drop dependent objects. Views, triggers, and rules referencing this table are not tracked by the catalog and may also be affected."@
}

pub fn msg_pgm202_plain(t: &str) -> (r: String)
    ensures
        r@ == m_pgm202_plain(t@),
{
    join3("DROP TABLE CASCADE on '", t, "' will silently drop dependent objects. Views, triggers, and rules referencing this table are not tracked by the catalog and may also be affected.")
}

pub open spec fn m_pgm202_deps(t: Seq<char>, d: Seq<char>) -> Seq<char> {
    "DROP TABLE CASCADE on '"@ + t + "' will silently drop dependent objects. Known FK dependencies from: "@ + d + "."@
}

pub fn msg_pgm202_deps(t: &str, d: &str) -> (r: String)
    ensures
        r@ == m_pgm202_deps(t@, d@),
{
    join5("DROP TABLE CASCADE on '", t, "' will silently drop dependent objects. Known FK dependencies from: ", d, ".")
}

pub open spec fn m_pgm204_plain(t: Seq<char>) -> Seq<char> {
    "TRUNCATE TABLE '"@ + t + "' CASCADE silently extends to all tables with foreign key references to '"@ + t + "', and recursively to their dependents. Verify the full cascade chain is intentionally truncated."@
}

pub fn msg_pgm204_plain(t: &str) -> (r: String)
    ensures
        r@ == m_pgm204_plain(t@),
{
    join5("TRUNCATE TABLE '", t, "' CASCADE silently extends to all tables with foreign key references to '", t, "', and recursively to their dependents. Verify the full cascade chain is intentionally truncated.")
}

pub open spec fn m_pgm204_deps(t: Seq<char>, d: Seq<char>) -> Seq<char> {
    "TRUNCATE TABLE '"@ + t + "' CASCADE silently extends to all tables with foreign key references to '"@ + t + "', and recursively to their dependents. Known FK dependencies from: "@ + d + "."@
}

pub fn msg_pgm204_deps(t: &str, d: &str) -> (r: String)
    ensures
        r@ == m_pgm204_deps(t@, d@),
{
    join7("TRUNCATE TABLE '", t, "' CASCADE silently extends to all tables with foreign key references to '", t, "', and recursively to their dependents. Known FK dependencies from: ", d, ".")
}

pub open spec fn m_pgm205_plain(s: Seq<char>) -> Seq<char> {
    "DROP SCHEMA '"@ + s + "' CASCADE drops every object in the schema \u{2014} tables, views, sequences, functions, and types. This is irreversible."@
}

pub fn msg_pgm205_plain(s: &str) -> (r: String)
    ensures
        r@ == m_pgm205_plain(s@),
{
    join3("DROP SCHEMA '", s, "' CASCADE drops every object in the schema \u{2014} tables, views, sequences, functions, and types. This is irreversible.")
}

pub open spec fn m_pgm205_deps(s: Seq<char>, d: Seq<char>) -> Seq<char> {
    "DROP SCHEMA '"@ + s + "' CASCADE drops every object in the schema \u{2014} tables, views, sequences, functions, and types. This is irreversible. Known affected tables: "@ + d + "."@
}

pub fn msg_pgm205_deps(s: &str, d: &str) -> (r: String)
    ensures
        r@ == m_pgm205_deps(s@, d@),
{
    join5("DROP SCHEMA '", s, "' CASCADE drops every object in the schema \u{2014} tables, views, sequences, functions, and types. This is irreversible. Known affected tables: ", d, ".")
}

pub open spec fn m_pgm203(t: Seq<char>) -> Seq<char> {
    "TRUNCATE TABLE '"@ + t + "' removes all rows from an existing table. This is irreversible and does not fire ON DELETE triggers."@
}

pub fn msg_pgm203(t: &str) -> (r: String)
    ensures
        r@ == m_pgm203(t@),
{
    join3("TRUNCATE TABLE '", t, "' removes all rows from an existing table. This is irreversible and does not fire ON DELETE triggers.")
}

pub open spec fn m_pgm301(t: Seq<char>) -> Seq<char> {
    "INSERT INTO existing table '"@ + t + "' in a migration. Ensure this is intentional seed data and that row volume is bounded."@
}

pub fn msg_pgm301(t: &str) -> (r: String)
    ensures
        r@ == m_pgm301(t@),
{
    join3("INSERT INTO existing table '", t, "' in a migration. Ensure this is intentional seed data and that row volume is bounded.")
}

pub open spec fn m_pgm302(t: Seq<char>) -> Seq<char> {
    "UPDATE on existing table '"@ + t + "' in a migration. Unbatched updates hold row locks for the full statement duration. Verify row volume and consider batched execution."@
}

pub fn msg_pgm302(t: &str) -> (r: String)
    ensures
        r@ == m_pgm302(t@),
{
    join3("UPDATE on existing table '", t, "' in a migration. Unbatched updates hold row locks for the full statement duration. Verify row volume and consider batched execution.")
}

pub open spec fn m_pgm303(t: Seq<char>) -> Seq<char> {
    "DELETE FROM existing table '"@ + t + "' in a migration. Unbatched deletes hold row locks and generate significant WAL. Verify row volume and consider batched execution."@
}

pub fn msg_pgm303(t: &str) -> (r: String)
    ensures
        r@ == m_pgm303(t@),
{
    join3("DELETE FROM existing table '", t, "' in a migration. Unbatched deletes hold row locks and generate significant WAL. Verify row volume and consider batched execution.")
}

pub open spec fn m_pgm401_table(t: Seq<char>) -> Seq<char> {
    "DROP TABLE '"@ + t + "': add IF EXISTS for idempotent migrations."@
}

pub fn msg_pgm401_table(t: &str) -> (r: String)
    ensures
        r@ == m_pgm401_table(t@),
{
    join3("DROP TABLE '", t, "': add IF EXISTS for idempotent migrations.")
}

pub open spec fn m_pgm401_index(i: Seq<char>) -> Seq<char> {
    "DROP INDEX '"@ + i + "': add IF EXISTS for idempotent migrations."@
}

pub fn msg_pgm401_index(i: &str) -> (r: String)
    ensures
        r@ == m_pgm401_index(i@),
{
    join3("DROP INDEX '", i, "': add IF EXISTS for idempotent migrations.")
}

pub open spec fn m_quoted(n: Seq<char>) -> Seq<char> {
    "'"@ + n + "'"@
}

pub fn msg_quoted(n: &str) -> (r: String)
    ensures
        r@ == m_quoted(n@),
{
    join3("'", n, "'")
}

pub open spec fn m_unique_cols(cols: Seq<char>) -> Seq<char> {
    "UNIQUE("@ + cols + ")"@
}

pub fn msg_unique_cols(cols: &str) -> (r: String)
    ensures
        r@ == m_unique_cols(cols@),
{
    join3("UNIQUE(", cols, ")")
}

pub open spec fn m_fk_named(n: Seq<char>, r: Seq<char>) -> Seq<char> {
    "'"@ + n + "' referencing '"@ + r + "'"@
}

pub fn msg_fk_named(n: &str, referenced: &str) -> (r: String)
    ensures
        r@ == m_fk_named(n@, referenced@),
{
    join5("'", n, "' referencing '", referenced, "'")
}

pub open spec fn m_fk_unnamed(cols: Seq<char>, r: Seq<char>) -> Seq<char> {
    "("@ + cols + ") \u{2192} "@ + r + ""@
}

pub fn msg_fk_unnamed(cols: &str, referenced: &str) -> (r: String)
    ensures
        r@ == m_fk_unnamed(cols@, referenced@),
{
    join5("(", cols, ") \u{2192} ", referenced, "")
}

pub open spec fn m_char_n(n: Seq<char>) -> Seq<char> {
    "char("@ + n + ")"@
}

pub fn msg_char_n(n: &str) -> (r: String)
    ensures
        r@ == m_char_n(n@),
{
    join3("char(", n, ")")
}

pub open spec fn m_pgm003() -> Seq<char> {
    "CONCURRENTLY cannot run inside a transaction. Set runInTransaction=\"false\" (Liquibase) or disable transactions for this migration."@
}

pub fn msg_pgm003() -> (r: String)
    ensures
        r@ == m_pgm003(),
{
    String::from_str("CONCURRENTLY cannot run inside a transaction. Set runInTransaction=\"false\" (Liquibase) or disable transactions for this migration.")
}

pub open spec fn m_pgm007(t: Seq<char>, c: Seq<char>, old: Seq<char>, new: Seq<char>) -> Seq<char> {
    "Changing column type on existing table '"@ + t + "' ('"@ + c + "': "@ + old + " \u{2192} "@ + new
        + ") rewrites the entire table under an ACCESS EXCLUSIVE lock. For large tables, this causes extended downtime. Consider creating a new column, backfilling, and swapping instead."@
}

pub fn msg_pgm007(t: &str, c: &str, old: &str, new: &str) -> (r: String)
    ensures
        r@ == m_pgm007(t@, c@, old@, new@),
{
    let mut r = join7("Changing column type on existing table '", t, "' ('", c, "': ", old, " \u{2192} ");
    r.append(new);
    r.append(") rewrites the entire table under an ACCESS EXCLUSIVE lock. For large tables, this causes extended downtime. Consider creating a new column, backfilling, and swapping instead.");
    r
}

pub open spec fn m_pgm020_detail_named() -> Seq<char> {
    "suppresses the named trigger. If this trigger enforces business logic and is not re-enabled in the same migration, those guarantees are lost."@
}

pub open spec fn m_pgm020_detail_all() -> Seq<char> {
    "suppresses all triggers including foreign key enforcement. If this is not re-enabled in the same migration, referential integrity guarantees are lost."@
}

pub open spec fn m_pgm020_detail_user() -> Seq<char> {
    "suppresses user-defined triggers (FK enforcement triggers are not affected). If this is not re-enabled in the same migration, business logic guarantees are lost."@
}

pub fn detail_named() -> (r: &'static str)
    ensures
        r@ == m_pgm020_detail_named(),
{
    "suppresses the named trigger. If this trigger enforces business logic and is not re-enabled in the same migration, those guarantees are lost."
}

pub fn detail_all() -> (r: &'static str)
    ensures
        r@ == m_pgm020_detail_all(),
{
    "suppresses all triggers including foreign key enforcement. If this is not re-enabled in the same migration, referential integrity guarantees are lost."
}

pub fn detail_user() -> (r: &'static str)
    ensures
        r@ == m_pgm020_detail_user(),
{
    "suppresses user-defined triggers (FK enforcement triggers are not affected). If this is not re-enabled in the same migration, business logic guarantees are lost."
}

pub open spec fn m_pgm006_add_nextval(c: Seq<char>, t: Seq<char>) -> Seq<char> {
    "Column '"@ + c + "' on '"@ + t + "' uses a sequence default (serial/bigserial). This is standard usage \u{2014} suppress if intentional. Note: on ADD COLUMN to an existing table, this is volatile and forces a table rewrite."@
}

pub fn msg_pgm006_add_nextval(c: &str, t: &str) -> (r: String)
    ensures
        r@ == m_pgm006_add_nextval(c@, t@),
{
    join5("Column '", c, "' on '", t, "' uses a sequence default (serial/bigserial). This is standard usage \u{2014} suppress if intentional. Note: on ADD COLUMN to an existing table, this is volatile and forces a table rewrite.")
}

pub open spec fn m_pgm006_add_volatile(c: Seq<char>, t: Seq<char>, f: Seq<char>) -> Seq<char> {
    "Column '"@ + c + "' on '"@ + t + "' uses '"@ + f + "()' as default (known volatile). Unlike non-volatile defaults, this forces a full table rewrite under an ACCESS EXCLUSIVE lock \u{2014} every existing row must be physically updated with a computed value. For large tables, this causes extended downtime. Consider adding the column without a default, then backfilling with batched UPDATEs."@
}

pub fn msg_pgm006_add_volatile(c: &str, t: &str, f: &str) -> (r: String)
    ensures
        r@ == m_pgm006_add_volatile(c@, t@, f@),
{
    join7("Column '", c, "' on '", t, "' uses '", f, "()' as default (known volatile). Unlike non-volatile defaults, this forces a full table rewrite under an ACCESS EXCLUSIVE lock \u{2014} every existing row must be physically updated with a computed value. For large tables, this causes extended downtime. Consider adding the column without a default, then backfilling with batched UPDATEs.")
}

pub open spec fn m_pgm006_add_unknown(c: Seq<char>, t: Seq<char>, f: Seq<char>) -> Seq<char> {
    "Column '"@ + c + "' on '"@ + t + "' uses function '"@ + f + "()' as default. If this function is volatile (the default for user-defined functions), it forces a full table rewrite under an ACCESS EXCLUSIVE lock instead of a cheap catalog-only change. Verify the function's volatility classification."@
}

pub fn msg_pgm006_add_unknown(c: &str, t: &str, f: &str) -> (r: String)
    ensures
        r@ == m_pgm006_add_unknown(c@, t@, f@),
{
    join7("Column '", c, "' on '", t, "' uses function '", f, "()' as default. If this function is volatile (the default for user-defined functions), it forces a full table rewrite under an ACCESS EXCLUSIVE lock instead of a cheap catalog-only change. Verify the function's volatility classification.")
}

pub open spec fn m_pgm006_set_nextval(c: Seq<char>, t: Seq<char>) -> Seq<char> {
    "SET DEFAULT 'nextval()' on column '"@ + c + "' of '"@ + t + "' (serial/bigserial). This is standard usage \u{2014} suppress if intentional. Note: SET DEFAULT only affects future INSERTs \u{2014} existing rows are NOT backfilled."@
}

pub fn msg_pgm006_set_nextval(c: &str, t: &str) -> (r: String)
    ensures
        r@ == m_pgm006_set_nextval(c@, t@),
{
    join5("SET DEFAULT 'nextval()' on column '", c, "' of '", t, "' (serial/bigserial). This is standard usage \u{2014} suppress if intentional. Note: SET DEFAULT only affects future INSERTs \u{2014} existing rows are NOT backfilled.")
}

pub open spec fn m_pgm006_set_volatile(f: Seq<char>, c: Seq<char>, t: Seq<char>) -> Seq<char> {
    "SET DEFAULT '"@ + f + "()' on column '"@ + c + "' of '"@ + t + "' (known volatile). Note: SET DEFAULT only affects future INSERTs \u{2014} existing rows are NOT backfilled. If you need to populate existing rows, use a batched UPDATE."@
}

pub fn msg_pgm006_set_volatile(f: &str, c: &str, t: &str) -> (r: String)
    ensures
        r@ == m_pgm006_set_volatile(f@, c@, t@),
{
    join7("SET DEFAULT '", f, "()' on column '", c, "' of '", t, "' (known volatile). Note: SET DEFAULT only affects future INSERTs \u{2014} existing rows are NOT backfilled. If you need to populate existing rows, use a batched UPDATE.")
}

pub open spec fn m_pgm006_set_unknown(f: Seq<char>, c: Seq<char>, t: Seq<char>) -> Seq<char> {
    "SET DEFAULT '"@ + f + "()' on column '"@ + c + "' of '"@ + t + "' uses a function default. If this function is volatile, note that SET DEFAULT only affects future INSERTs \u{2014} existing rows are NOT backfilled."@
}

pub fn msg_pgm006_set_unknown(f: &str, c: &str, t: &str) -> (r: String)
    ensures
        r@ == m_pgm006_set_unknown(f@, c@, t@),
{
    join7("SET DEFAULT '", f, "()' on column '", c, "' of '", t, "' uses a function default. If this function is volatile, note that SET DEFAULT only affects future INSERTs \u{2014} existing rows are NOT backfilled.")
}

} // verus!
