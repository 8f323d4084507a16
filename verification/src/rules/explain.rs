//! The long explanations of the rules.
use vstd::prelude::*;
use crate::rules::ids::RuleId;

verus! {

/// The long explanation of a rule: what it detects, why it matters and
/// what to do instead.
pub open spec fn spec_explain(id: RuleId) -> Seq<char> {
    match id {
        RuleId::Pgm001 => "PGM001 \u{2014} Missing CONCURRENTLY on CREATE INDEX\n\nWhat it detects:\nA CREATE INDEX statement that does not use the CONCURRENTLY option,\ntargeting a table that already exists in the database (i.e., the table\nwas not created in the same set of changed files).\n\nWhy it's dangerous:\nWithout CONCURRENTLY, PostgreSQL acquires a SHARE lock on the table\nfor the entire duration of the index build. This blocks all writes\n(inserts, updates, deletes) on the table while allowing reads.\nFor large tables, index creation can take minutes or hours, blocking\nall write traffic for that duration.\n\nExample (bad):\nCREATE INDEX idx_orders_status ON orders (status);\n\nFix:\nCREATE INDEX CONCURRENTLY idx_orders_status ON orders (status);\n\nNote: CONCURRENTLY cannot run inside a transaction. If your migration\nframework wraps each file in a transaction (e.g., Liquibase default),\nyou must also disable that. See PGM003.\n\nThis rule does NOT fire when the table is created in the same set of\nchanged files, because locking an empty/new table is harmless.\n\nPartitioned tables: CREATE INDEX on a partitioned parent propagates\nthe index build to every partition, locking all of them. The safe\npattern is: CREATE INDEX ON ONLY parent (creates an invalid parent-\nonly index with no lock on children), then CREATE INDEX CONCURRENTLY\non each partition, then ALTER INDEX parent_idx ATTACH PARTITION\nchild_idx for each. CREATE INDEX ON ONLY is suppressed by this rule\nbecause it does not lock child partitions."@,
        RuleId::Pgm002 => "PGM002 \u{2014} Missing CONCURRENTLY on DROP INDEX\n\nWhat it detects:\nA DROP INDEX statement that does not use the CONCURRENTLY option,\nwhere the index belongs to a table that already exists in the database.\n\nWhy it's dangerous:\nWithout CONCURRENTLY, PostgreSQL acquires an ACCESS EXCLUSIVE lock on\nthe table associated with the index for the duration of the drop\noperation. This blocks ALL queries \u{2014} reads and writes \u{2014} on the table.\nWhile DROP INDEX is usually fast, it still briefly blocks concurrent\naccess and can queue behind long-running queries, amplifying the impact.\n\nExample (bad):\nDROP INDEX idx_orders_status;\n\nFix:\nDROP INDEX CONCURRENTLY idx_orders_status;\n\nNote: CONCURRENTLY cannot run inside a transaction. If your migration\nframework wraps each file in a transaction, you must disable that.\nSee PGM003.\n\nPartitioned tables:\nPostgreSQL does NOT support DROP INDEX CONCURRENTLY on partitioned\nparent indexes. Dropping a partitioned parent index acquires locks on\nall partitions. However, dropping an ON ONLY index (before child\nindexes are attached) is safe \u{2014} it only affects the invalid parent stub.\n\nSafe pattern for partitioned indexes:\n1. CREATE INDEX ON ONLY parent_table (col);     -- parent stub\n2. CREATE INDEX CONCURRENTLY ON child (col);    -- per-child\n3. ALTER INDEX idx_parent ATTACH PARTITION idx_child;\n-- To remove: reverse the process before dropping the parent."@,
        RuleId::Pgm003 => "PGM003 \u{2014} CONCURRENTLY inside transaction\n\nWhat it detects:\nA CREATE INDEX CONCURRENTLY or DROP INDEX CONCURRENTLY statement\ninside a migration unit that runs in a transaction.\n\nWhy it's dangerous:\nPostgreSQL does not allow CONCURRENTLY operations inside a\ntransaction block. The command will fail with:\nERROR: CREATE INDEX CONCURRENTLY cannot run inside a transaction block\nThis means the migration will fail at deploy time.\n\nExample (bad \u{2014} Liquibase changeset with default runInTransaction):\n<changeSet id=\"1\" author=\"dev\">\n<sql>CREATE INDEX CONCURRENTLY idx_foo ON bar (col);</sql>\n</changeSet>\n\nFix:\n<changeSet id=\"1\" author=\"dev\" runInTransaction=\"false\">\n<sql>CREATE INDEX CONCURRENTLY idx_foo ON bar (col);</sql>\n</changeSet>\n\nFor go-migrate, add `-- +goose NO TRANSACTION` or equivalent to\nthe migration file header."@,
        RuleId::Pgm004 => "PGM004 \u{2014} DETACH PARTITION without CONCURRENTLY\n\nWhat it detects:\n  ALTER TABLE parent DETACH PARTITION child where the parent table\n  already exists and the CONCURRENTLY option is not used.\n\nWhy it's dangerous:\n  Plain DETACH PARTITION acquires ACCESS EXCLUSIVE on both the parent\n  partitioned table and the child partition for the full duration of\n  the operation. This blocks all reads and writes on the parent (and\n  therefore all its partitions) until detach completes.\n\nSafe alternative:\n  Use DETACH PARTITION ... CONCURRENTLY (PostgreSQL 14+). It takes\n  only SHARE UPDATE EXCLUSIVE on the parent instead of ACCESS\n  EXCLUSIVE, so it does not block readers and writers through the\n  parent the way the plain form does.\n\nTwo things to plan for with CONCURRENTLY:\n  1. It cannot run inside a transaction block, so the statement must\n     be issued on its own (runInTransaction=\"false\" for Liquibase,\n     the equivalent setting elsewhere). PGM003 does not currently\n     detect this: it only checks CREATE/DROP INDEX CONCURRENTLY.\n  2. It still waits for conflicting traffic on the parent, and an\n     interrupted wait does not roll back. The first phase has already\n     committed, so the child is left pending-detach in pg_inherits\n     (inhdetachpending). Queries routed through the parent already\n     skip the partition's rows while the rows remain in it, and the\n     state does not self-resolve. A retry of the same DETACH ...\n     CONCURRENTLY fails with SQLSTATE 55000 (hint: FINALIZE).\n     Recovery is DETACH PARTITION ... FINALIZE or DROP TABLE on the\n     child. While pending, that DROP TABLE still takes ACCESS\n     EXCLUSIVE on the parent. It can lose to the same traffic that\n     caused the interruption.\n\nExample (bad):\n  ALTER TABLE measurements DETACH PARTITION measurements_2023;\n\nFix (safe):\n  ALTER TABLE measurements DETACH PARTITION measurements_2023 CONCURRENTLY;\n\nNote: DETACH PARTITION CONCURRENTLY requires PostgreSQL 14+."@,
        RuleId::Pgm005 => "PGM005 \u{2014} ATTACH PARTITION without pre-validated CHECK constraint\n\nWhat it detects:\n  ALTER TABLE parent ATTACH PARTITION child FOR VALUES ... where the\n  child table already exists and has no CHECK constraint that references\n  the partition key columns.\n\nWhy it's dangerous:\n  When attaching a partition, PostgreSQL must verify that every existing\n  row in the child satisfies the partition bound. Without a pre-validated\n  CHECK constraint whose expression implies the partition bound, PostgreSQL\n  performs a full table scan under ACCESS EXCLUSIVE lock on the child\n  table. For large child tables this causes extended unavailability.\n\nSafe alternative (3-step pattern):\n  -- Step 1: Add a CHECK constraint mirroring the partition bound (NOT VALID)\n  ALTER TABLE orders_2024 ADD CONSTRAINT orders_2024_bound_check\n      CHECK (created_at >= '2024-01-01' AND created_at < '2025-01-01')\n      NOT VALID;\n\n  -- Step 2: Validate separately (SHARE UPDATE EXCLUSIVE \u{2014} allows reads & writes)\n  ALTER TABLE orders_2024 VALIDATE CONSTRAINT orders_2024_bound_check;\n\n  -- Step 3: Attach (scan skipped because constraint is already validated)\n  ALTER TABLE orders_partitioned ATTACH PARTITION orders_2024\n      FOR VALUES FROM ('2024-01-01') TO ('2025-01-01');\n\nNote: The rule checks that at least one CHECK constraint on the child\nreferences all of the parent's partition key columns. It does not verify\nthat the CHECK expression values semantically match the partition bound."@,
        RuleId::Pgm006 => "PGM006 \u{2014} Volatile default on column\n\nWhat it detects:\nA column definition (in ALTER TABLE ... ADD COLUMN) that uses a\nvolatile function call as the DEFAULT expression on an existing table.\n\nWhy it's dangerous:\nOn PostgreSQL 11+, non-volatile defaults on ADD COLUMN don't rewrite\nthe table \u{2014} they are applied lazily. Volatile defaults (random(),\ngen_random_uuid(), clock_timestamp(), etc.) must be evaluated per-row\nat write time, forcing a full table rewrite under an ACCESS EXCLUSIVE\nlock.\n\nNote: now() and current_timestamp are STABLE in PostgreSQL, not\nvolatile. They return the transaction start time and are evaluated\nonce at ALTER TABLE time. The resulting value is stored in the\ncatalog and applied lazily \u{2014} no table rewrite occurs.\n\nVolatility classification is derived from PostgreSQL's pg_proc catalog\ncovering all ~2700 built-in functions.\n\nSeverity levels:\n- MINOR (WARNING): Volatile built-in functions (ADD COLUMN)\n- MINOR (WARNING): nextval (serial/bigserial) \u{2014} standard but volatile (ADD COLUMN)\n- INFO: SET DEFAULT with volatile or unrecognized function\n- INFO: Unrecognized functions on ADD COLUMN \u{2014} developer should verify volatility\n- No finding: Literal defaults, stable/immutable functions\n\nExample (flagged \u{2014} ADD COLUMN):\nALTER TABLE orders ADD COLUMN token uuid DEFAULT gen_random_uuid();\n\nFix:\nALTER TABLE orders ADD COLUMN token uuid;\n-- Then backfill:\nUPDATE orders SET token = gen_random_uuid() WHERE token IS NULL;\n\nAlso detects SET DEFAULT with volatile functions (INFO):\nALTER TABLE orders ALTER COLUMN token SET DEFAULT gen_random_uuid();\nUnlike ADD COLUMN, SET DEFAULT does NOT cause a table rewrite \u{2014} it only\naffects future INSERTs. Existing rows are NOT backfilled.\n\nNote: For CREATE TABLE, volatile defaults are harmless (no existing\nrows) and are not flagged."@,
        RuleId::Pgm007 => "PGM007 \u{2014} ALTER COLUMN TYPE on existing table\n\nWhat it detects:\nALTER TABLE ... ALTER COLUMN ... TYPE ... on a table that already\nexists in the database (not created in the same set of changed files).\n\nWhy it's dangerous:\nMost type changes require a full table rewrite and an ACCESS EXCLUSIVE\nlock for the duration. For large tables, this causes extended downtime.\nBinary-coercible casts (e.g., varchar widening) do NOT rewrite.\n\nSafe casts (no finding):\n- varchar(N) -> varchar(M) where M > N\n- varchar(N) -> text\n- numeric(P,S) -> numeric(P2,S) where P2 > P and same scale\n- varbit(N) -> varbit(M) where M > N\n\nINFO cast:\n- timestamp -> timestamptz (no rewrite in PG 9.2+; the cast uses the\nsession TimeZone at ALTER time, so verify that the executing session\nhas TimeZone=UTC \u{2014} a server default of UTC is not sufficient if the\nconnection overrides it)\n\nAll other type changes fire as CRITICAL.\n\nExample (bad):\nALTER TABLE orders ALTER COLUMN amount TYPE bigint;\n\nFix:\n-- Create a new column, backfill, and swap:\nALTER TABLE orders ADD COLUMN amount_new bigint;\nUPDATE orders SET amount_new = amount;\nALTER TABLE orders DROP COLUMN amount;\nALTER TABLE orders RENAME COLUMN amount_new TO amount;"@,
        RuleId::Pgm008 => "PGM008 \u{2014} Adding a NOT NULL column without a DEFAULT to an existing table"@,
        RuleId::Pgm009 => "PGM009 \u{2014} ALTER COLUMN TYPE on existing table\n\nWhat it detects:\nALTER TABLE ... ALTER COLUMN ... TYPE ... on a table that already\nexists in the database (not created in the same set of changed files).\n\nWhy it's dangerous:\nMost type changes require a full table rewrite and an ACCESS EXCLUSIVE\nlock for the duration. For large tables, this causes extended downtime.\nBinary-coercible casts (e.g., varchar widening) do NOT rewrite.\n\nSafe casts (no finding):\n- varchar(N) -> varchar(M) where M > N\n- varchar(N) -> text\n- numeric(P,S) -> numeric(P2,S) where P2 > P and same scale\n- bit(N) -> bit(M) where M > N\n- varbit(N) -> varbit(M) where M > N\n\nINFO cast:\n- timestamp -> timestamptz (safe in PG 15+ with UTC timezone;\nverify your timezone config)\n\nAll other type changes fire as CRITICAL.\n\nExample (bad):\nALTER TABLE orders ALTER COLUMN amount TYPE bigint;\n\nFix:\n-- Create a new column, backfill, and swap:\nALTER TABLE orders ADD COLUMN amount_new bigint;\nUPDATE orders SET amount_new = amount;\nALTER TABLE orders DROP COLUMN amount;\nALTER TABLE orders RENAME COLUMN amount_new TO amount;"@,
        RuleId::Pgm010 => "PGM010 \u{2014} DROP COLUMN silently removes unique constraint\n\nWhat it detects:\nALTER TABLE ... DROP COLUMN where the dropped column participates\nin a UNIQUE constraint or unique index on the table.\n\nWhy it matters:\nPostgreSQL automatically drops any index or constraint that depends\non a dropped column. If the column was part of a UNIQUE constraint\nor unique index, the uniqueness guarantee is silently lost. This can\nlead to duplicate data being inserted without any error.\n\nExample (bad):\n-- Table has UNIQUE(email)\nALTER TABLE users DROP COLUMN email;\n-- The unique constraint on email is silently removed.\n\nFix:\nVerify that the uniqueness guarantee provided by the constraint or\nindex is no longer needed before dropping the column. If uniqueness\nis still required on the remaining columns, create a new constraint\nor index covering those columns."@,
        RuleId::Pgm011 => "PGM011 \u{2014} DROP COLUMN silently removes primary key\n\nWhat it detects:\nALTER TABLE ... DROP COLUMN where the dropped column participates\nin the table's primary key constraint.\n\nWhy it matters:\nDropping a PK column (with CASCADE) silently removes the primary key\nconstraint. The table loses its row identity, which affects replication,\nORMs, query planning, and data integrity.\n\nExample (bad):\n-- Table has PRIMARY KEY (id)\nALTER TABLE orders DROP COLUMN id;\n-- The primary key constraint is silently removed.\n\nFix:\nAdd a new primary key on the remaining columns before or after\ndropping the column, or reconsider whether the column drop is\nnecessary."@,
        RuleId::Pgm012 => "PGM012 \u{2014} DROP COLUMN silently removes foreign key\n\nWhat it detects:\nALTER TABLE ... DROP COLUMN where the dropped column participates\nin a FOREIGN KEY constraint on the table.\n\nWhy it matters:\nDropping a column that is part of a foreign key (with CASCADE)\nsilently removes the FK constraint. The referential integrity\nguarantee is lost. This can lead to orphaned rows and data\ninconsistency without any error or warning from PostgreSQL.\n\nExample (bad):\n-- Table has FOREIGN KEY (customer_id) REFERENCES customers(id)\nALTER TABLE orders DROP COLUMN customer_id;\n-- The foreign key constraint is silently removed.\n\nFix:\nVerify that the referential integrity guarantee provided by the\nforeign key is no longer needed before dropping the column."@,
        RuleId::Pgm013 => "PGM013 \u{2014} SET NOT NULL on existing table requires ACCESS EXCLUSIVE lock"@,
        RuleId::Pgm014 => "PGM014 \u{2014} Adding a FOREIGN KEY without NOT VALID on an existing table"@,
        RuleId::Pgm015 => "PGM015 \u{2014} ADD CHECK on existing table without NOT VALID"@,
        RuleId::Pgm016 => "PGM016 \u{2014} ADD PRIMARY KEY on existing table without USING INDEX\n\nWhat it detects:\nALTER TABLE ... ADD PRIMARY KEY on an existing table that does not\nuse USING INDEX, or where the referenced index does not exist, is\nnot UNIQUE, or covers nullable columns.\n\nWhy it's dangerous:\nWithout USING INDEX, PostgreSQL always builds a new unique index\ninline under an ACCESS EXCLUSIVE lock, even if a matching unique\nindex already exists. For large tables this causes extended downtime.\n\nEven with USING INDEX, if any of the PK columns are nullable,\nPostgreSQL implicitly runs ALTER COLUMN SET NOT NULL which requires\na full table scan under ACCESS EXCLUSIVE lock.\n\nExample (bad):\nALTER TABLE orders ADD PRIMARY KEY (id);\n\nFix (safe pattern \u{2014} build unique index concurrently first):\n-- Ensure columns are NOT NULL (use CHECK constraint trick if needed)\nCREATE UNIQUE INDEX CONCURRENTLY idx_orders_pk ON orders (id);\nALTER TABLE orders ADD PRIMARY KEY USING INDEX idx_orders_pk;"@,
        RuleId::Pgm017 => "PGM017 \u{2014} ADD UNIQUE on existing table without USING INDEX\n\nWhat it detects:\nALTER TABLE ... ADD CONSTRAINT ... UNIQUE on an existing table that\ndoes not use USING INDEX, or where the referenced index does not\nexist or is not UNIQUE.\n\nWhy it's dangerous:\nWithout USING INDEX, PostgreSQL always builds a new unique index\ninline under an ACCESS EXCLUSIVE lock, even if a matching unique\nindex already exists. For large tables this causes extended downtime.\nNOT VALID does NOT apply to UNIQUE constraints.\n\nWhen USING INDEX is specified, PostgreSQL validates that the\nreferenced index exists and is unique, then promotes it to a\nconstraint without rebuilding.\n\nExample (bad):\nALTER TABLE orders ADD CONSTRAINT uq_email UNIQUE (email);\n\nFix (safe pattern \u{2014} build unique index concurrently first):\nCREATE UNIQUE INDEX CONCURRENTLY idx_orders_email ON orders (email);\nALTER TABLE orders ADD CONSTRAINT uq_email UNIQUE USING INDEX idx_orders_email;"@,
        RuleId::Pgm018 => "PGM018 \u{2014} CLUSTER on existing table"@,
        RuleId::Pgm019 => "PGM019 \u{2014} ADD EXCLUDE constraint on existing table"@,
        RuleId::Pgm020 => "PGM020 \u{2014} DISABLE TRIGGER on table suppresses FK enforcement"@,
        RuleId::Pgm101 => "PGM101 \u{2014} Don't use `timestamp` (without time zone)\n\nWhat it detects:\nA column declared as `timestamp` (which PostgreSQL interprets as\n`timestamp without time zone`).\n\nWhy it's problematic:\n`timestamp` (without time zone) stores a date/time value with no\ntimezone context. This makes the stored values ambiguous \u{2014} they could\nrepresent any timezone, and PostgreSQL performs no conversion on\ninput or output. When servers, clients, or applications use different\ntimezones, this leads to subtle, hard-to-debug data corruption.\n\n`timestamptz` (timestamp with time zone) stores values as UTC\ninternally and converts to the session's timezone on output. This\nensures unambiguous points in time.\n\nExample (bad):\nCREATE TABLE events (created_at timestamp NOT NULL);\n\nFix:\nCREATE TABLE events (created_at timestamptz NOT NULL);"@,
        RuleId::Pgm102 => "PGM102 \u{2014} Column uses timestamp or timestamptz with precision 0"@,
        RuleId::Pgm103 => "PGM103 \u{2014} Column uses char(n) type"@,
        RuleId::Pgm104 => "PGM104 \u{2014} Column uses the money type"@,
        RuleId::Pgm105 => "PGM105 \u{2014} Column uses serial/bigserial instead of identity column"@,
        RuleId::Pgm106 => "PGM106 \u{2014} Column uses json type instead of jsonb"@,
        RuleId::Pgm201 => "PGM201 \u{2014} DROP TABLE on existing table"@,
        RuleId::Pgm202 => "PGM202 \u{2014} DROP TABLE CASCADE on existing table"@,
        RuleId::Pgm203 => "PGM203 \u{2014} TRUNCATE TABLE on existing table\n\nWhat it detects:\nA TRUNCATE TABLE statement targeting a table that already exists in the\ndatabase (i.e., the table was not created in the same set of changed\nfiles).\n\nWhy it matters:\nTRUNCATE removes all rows from a table instantly without scanning them.\nUnlike DELETE, it does not fire ON DELETE triggers, does not log\nindividual row deletions, and cannot be filtered with a WHERE clause.\nThe operation is irreversible once committed.\n\nExample:\nTRUNCATE TABLE audit_trail;\n\nRecommended approach:\n1. Ensure the data is truly disposable or has been backed up.\n2. Consider whether ON DELETE triggers need to fire \u{2014} if so, use DELETE.\n3. If truncating for a schema migration, document the intent clearly.\n\nThis rule is MINOR severity to flag the operation for human review."@,
        RuleId::Pgm204 => "PGM204 \u{2014} TRUNCATE TABLE CASCADE on existing table\n\nWhat it detects:\nA TRUNCATE TABLE ... CASCADE statement targeting a table that already\nexists in the database.\n\nWhy it matters:\nCASCADE silently extends the truncation to all tables that have foreign\nkey references to the truncated table, and recursively to their\ndependents. The developer may not be aware of the full cascade chain,\nleading to unexpected data loss across multiple tables.\n\nA plain TRUNCATE (without CASCADE) would fail if FK dependencies exist,\nwhich is a safer default. CASCADE bypasses that safety net.\n\nExample:\nTRUNCATE TABLE customers CASCADE;\n\nIf the 'orders' table has a FK referencing 'customers', CASCADE will\nsilently truncate 'orders' as well.\n\nRecommended approach:\n1. Identify all dependent tables before truncating.\n2. Explicitly truncate each table in the correct order.\n3. Use plain TRUNCATE (without CASCADE) so PostgreSQL will error\nif unexpected dependencies remain.\n\nThis rule is MAJOR severity because CASCADE silently destroys\ndata in dependent tables the developer may not be aware of."@,
        RuleId::Pgm205 => "PGM205 \u{2014} DROP SCHEMA CASCADE\n\nWhat it detects:\nA DROP SCHEMA ... CASCADE statement.\n\nWhy it matters:\nDROP SCHEMA CASCADE drops every object in the schema \u{2014} tables, views,\nsequences, functions, types, and indexes \u{2014} in a single statement. It is\nthe most destructive single DDL statement in PostgreSQL and cannot be\nselectively undone.\n\nUnlike DROP TABLE CASCADE (which only removes objects that depend on one\ntable), DROP SCHEMA CASCADE destroys the entire namespace and everything\nin it.\n\nExample:\nDROP SCHEMA myschema CASCADE;\n\nThis silently drops every table, view, function, sequence, and type\ndefined in 'myschema'.\n\nRecommended approach:\n1. Enumerate all objects in the schema before dropping.\n2. Explicitly drop or migrate each object in separate migration steps.\n3. Use plain DROP SCHEMA (without CASCADE) so PostgreSQL will error\nif the schema is non-empty.\n\nThis rule is CRITICAL severity because CASCADE silently destroys\nevery object in the schema."@,
        RuleId::Pgm301 => "PGM301 \u{2014} INSERT INTO existing table in migration"@,
        RuleId::Pgm302 => "PGM302 \u{2014} UPDATE on existing table in migration"@,
        RuleId::Pgm303 => "PGM303 \u{2014} DELETE FROM existing table in migration"@,
        RuleId::Pgm401 => "PGM401 \u{2014} Missing IF EXISTS on DROP TABLE / DROP INDEX"@,
        RuleId::Pgm402 => "PGM402 \u{2014} Missing IF NOT EXISTS on CREATE TABLE / CREATE INDEX"@,
        RuleId::Pgm403 => "PGM403 \u{2014} CREATE TABLE IF NOT EXISTS for already-existing table"@,
        RuleId::Pgm501 => "PGM501 \u{2014} Foreign key without a covering index on the referencing table"@,
        RuleId::Pgm502 => "PGM502 \u{2014} Table created without a primary key"@,
        RuleId::Pgm503 => "PGM503 \u{2014} Table uses UNIQUE NOT NULL instead of a PRIMARY KEY"@,
        RuleId::Pgm504 => "PGM504 \u{2014} ALTER TABLE RENAME TO on existing table"@,
        RuleId::Pgm505 => "PGM505 \u{2014} RENAME COLUMN on existing table"@,
        RuleId::Pgm506 => "PGM506 \u{2014} CREATE UNLOGGED TABLE"@,
        RuleId::Pgm901 => "This rule caps severity of triggered rules to INFO (not in SonarQube)"@,
    }
}

impl RuleId {
    /// The long explanation of this rule.
    pub fn explain(&self) -> (r: &'static str)
        ensures
            r@ == spec_explain(*self),
    {
        match self {
            RuleId::Pgm001 => "PGM001 \u{2014} Missing CONCURRENTLY on CREATE INDEX\n\nWhat it detects:\nA CREATE INDEX statement that does not use the CONCURRENTLY option,\ntargeting a table that already exists in the database (i.e., the table\nwas not created in the same set of changed files).\n\nWhy it's dangerous:\nWithout CONCURRENTLY, PostgreSQL acquires a SHARE lock on the table\nfor the entire duration of the index build. This blocks all writes\n(inserts, updates, deletes) on the table while allowing reads.\nFor large tables, index creation can take minutes or hours, blocking\nall write traffic for that duration.\n\nExample (bad):\nCREATE INDEX idx_orders_status ON orders (status);\n\nFix:\nCREATE INDEX CONCURRENTLY idx_orders_status ON orders (status);\n\nNote: CONCURRENTLY cannot run inside a transaction. If your migration\nframework wraps each file in a transaction (e.g., Liquibase default),\nyou must also disable that. See PGM003.\n\nThis rule does NOT fire when the table is created in the same set of\nchanged files, because locking an empty/new table is harmless.\n\nPartitioned tables: CREATE INDEX on a partitioned parent propagates\nthe index build to every partition, locking all of them. The safe\npattern is: CREATE INDEX ON ONLY parent (creates an invalid parent-\nonly index with no lock on children), then CREATE INDEX CONCURRENTLY\non each partition, then ALTER INDEX parent_idx ATTACH PARTITION\nchild_idx for each. CREATE INDEX ON ONLY is suppressed by this rule\nbecause it does not lock child partitions.",
            RuleId::Pgm002 => "PGM002 \u{2014} Missing CONCURRENTLY on DROP INDEX\n\nWhat it detects:\nA DROP INDEX statement that does not use the CONCURRENTLY option,\nwhere the index belongs to a table that already exists in the database.\n\nWhy it's dangerous:\nWithout CONCURRENTLY, PostgreSQL acquires an ACCESS EXCLUSIVE lock on\nthe table associated with the index for the duration of the drop\noperation. This blocks ALL queries \u{2014} reads and writes \u{2014} on the table.\nWhile DROP INDEX is usually fast, it still briefly blocks concurrent\naccess and can queue behind long-running queries, amplifying the impact.\n\nExample (bad):\nDROP INDEX idx_orders_status;\n\nFix:\nDROP INDEX CONCURRENTLY idx_orders_status;\n\nNote: CONCURRENTLY cannot run inside a transaction. If your migration\nframework wraps each file in a transaction, you must disable that.\nSee PGM003.\n\nPartitioned tables:\nPostgreSQL does NOT support DROP INDEX CONCURRENTLY on partitioned\nparent indexes. Dropping a partitioned parent index acquires locks on\nall partitions. However, dropping an ON ONLY index (before child\nindexes are attached) is safe \u{2014} it only affects the invalid parent stub.\n\nSafe pattern for partitioned indexes:\n1. CREATE INDEX ON ONLY parent_table (col);     -- parent stub\n2. CREATE INDEX CONCURRENTLY ON child (col);    -- per-child\n3. ALTER INDEX idx_parent ATTACH PARTITION idx_child;\n-- To remove: reverse the process before dropping the parent.",
            RuleId::Pgm003 => "PGM003 \u{2014} CONCURRENTLY inside transaction\n\nWhat it detects:\nA CREATE INDEX CONCURRENTLY or DROP INDEX CONCURRENTLY statement\ninside a migration unit that runs in a transaction.\n\nWhy it's dangerous:\nPostgreSQL does not allow CONCURRENTLY operations inside a\ntransaction block. The command will fail with:\nERROR: CREATE INDEX CONCURRENTLY cannot run inside a transaction block\nThis means the migration will fail at deploy time.\n\nExample (bad \u{2014} Liquibase changeset with default runInTransaction):\n<changeSet id=\"1\" author=\"dev\">\n<sql>CREATE INDEX CONCURRENTLY idx_foo ON bar (col);</sql>\n</changeSet>\n\nFix:\n<changeSet id=\"1\" author=\"dev\" runInTransaction=\"false\">\n<sql>CREATE INDEX CONCURRENTLY idx_foo ON bar (col);</sql>\n</changeSet>\n\nFor go-migrate, add `-- +goose NO TRANSACTION` or equivalent to\nthe migration file header.",
            RuleId::Pgm004 => "PGM004 \u{2014} DETACH PARTITION without CONCURRENTLY\n\nWhat it detects:\n  ALTER TABLE parent DETACH PARTITION child where the parent table\n  already exists and the CONCURRENTLY option is not used.\n\nWhy it's dangerous:\n  Plain DETACH PARTITION acquires ACCESS EXCLUSIVE on both the parent\n  partitioned table and the child partition for the full duration of\n  the operation. This blocks all reads and writes on the parent (and\n  therefore all its partitions) until detach completes.\n\nSafe alternative:\n  Use DETACH PARTITION ... CONCURRENTLY (PostgreSQL 14+). It takes\n  only SHARE UPDATE EXCLUSIVE on the parent instead of ACCESS\n  EXCLUSIVE, so it does not block readers and writers through the\n  parent the way the plain form does.\n\nTwo things to plan for with CONCURRENTLY:\n  1. It cannot run inside a transaction block, so the statement must\n     be issued on its own (runInTransaction=\"false\" for Liquibase,\n     the equivalent setting elsewhere). PGM003 does not currently\n     detect this: it only checks CREATE/DROP INDEX CONCURRENTLY.\n  2. It still waits for conflicting traffic on the parent, and an\n     interrupted wait does not roll back. The first phase has already\n     committed, so the child is left pending-detach in pg_inherits\n     (inhdetachpending). Queries routed through the parent already\n     skip the partition's rows while the rows remain in it, and the\n     state does not self-resolve. A retry of the same DETACH ...\n     CONCURRENTLY fails with SQLSTATE 55000 (hint: FINALIZE).\n     Recovery is DETACH PARTITION ... FINALIZE or DROP TABLE on the\n     child. While pending, that DROP TABLE still takes ACCESS\n     EXCLUSIVE on the parent. It can lose to the same traffic that\n     caused the interruption.\n\nExample (bad):\n  ALTER TABLE measurements DETACH PARTITION measurements_2023;\n\nFix (safe):\n  ALTER TABLE measurements DETACH PARTITION measurements_2023 CONCURRENTLY;\n\nNote: DETACH PARTITION CONCURRENTLY requires PostgreSQL 14+.",
            RuleId::Pgm005 => "PGM005 \u{2014} ATTACH PARTITION without pre-validated CHECK constraint\n\nWhat it detects:\n  ALTER TABLE parent ATTACH PARTITION child FOR VALUES ... where the\n  child table already exists and has no CHECK constraint that references\n  the partition key columns.\n\nWhy it's dangerous:\n  When attaching a partition, PostgreSQL must verify that every existing\n  row in the child satisfies the partition bound. Without a pre-validated\n  CHECK constraint whose expression implies the partition bound, PostgreSQL\n  performs a full table scan under ACCESS EXCLUSIVE lock on the child\n  table. For large child tables this causes extended unavailability.\n\nSafe alternative (3-step pattern):\n  -- Step 1: Add a CHECK constraint mirroring the partition bound (NOT VALID)\n  ALTER TABLE orders_2024 ADD CONSTRAINT orders_2024_bound_check\n      CHECK (created_at >= '2024-01-01' AND created_at < '2025-01-01')\n      NOT VALID;\n\n  -- Step 2: Validate separately (SHARE UPDATE EXCLUSIVE \u{2014} allows reads & writes)\n  ALTER TABLE orders_2024 VALIDATE CONSTRAINT orders_2024_bound_check;\n\n  -- Step 3: Attach (scan skipped because constraint is already validated)\n  ALTER TABLE orders_partitioned ATTACH PARTITION orders_2024\n      FOR VALUES FROM ('2024-01-01') TO ('2025-01-01');\n\nNote: The rule checks that at least one CHECK constraint on the child\nreferences all of the parent's partition key columns. It does not verify\nthat the CHECK expression values semantically match the partition bound.",
            RuleId::Pgm006 => "PGM006 \u{2014} Volatile default on column\n\nWhat it detects:\nA column definition (in ALTER TABLE ... ADD COLUMN) that uses a\nvolatile function call as the DEFAULT expression on an existing table.\n\nWhy it's dangerous:\nOn PostgreSQL 11+, non-volatile defaults on ADD COLUMN don't rewrite\nthe table \u{2014} they are applied lazily. Volatile defaults (random(),\ngen_random_uuid(), clock_timestamp(), etc.) must be evaluated per-row\nat write time, forcing a full table rewrite under an ACCESS EXCLUSIVE\nlock.\n\nNote: now() and current_timestamp are STABLE in PostgreSQL, not\nvolatile. They return the transaction start time and are evaluated\nonce at ALTER TABLE time. The resulting value is stored in the\ncatalog and applied lazily \u{2014} no table rewrite occurs.\n\nVolatility classification is derived from PostgreSQL's pg_proc catalog\ncovering all ~2700 built-in functions.\n\nSeverity levels:\n- MINOR (WARNING): Volatile built-in functions (ADD COLUMN)\n- MINOR (WARNING): nextval (serial/bigserial) \u{2014} standard but volatile (ADD COLUMN)\n- INFO: SET DEFAULT with volatile or unrecognized function\n- INFO: Unrecognized functions on ADD COLUMN \u{2014} developer should verify volatility\n- No finding: Literal defaults, stable/immutable functions\n\nExample (flagged \u{2014} ADD COLUMN):\nALTER TABLE orders ADD COLUMN token uuid DEFAULT gen_random_uuid();\n\nFix:\nALTER TABLE orders ADD COLUMN token uuid;\n-- Then backfill:\nUPDATE orders SET token = gen_random_uuid() WHERE token IS NULL;\n\nAlso detects SET DEFAULT with volatile functions (INFO):\nALTER TABLE orders ALTER COLUMN token SET DEFAULT gen_random_uuid();\nUnlike ADD COLUMN, SET DEFAULT does NOT cause a table rewrite \u{2014} it only\naffects future INSERTs. Existing rows are NOT backfilled.\n\nNote: For CREATE TABLE, volatile defaults are harmless (no existing\nrows) and are not flagged.",
            RuleId::Pgm007 => "PGM007 \u{2014} ALTER COLUMN TYPE on existing table\n\nWhat it detects:\nALTER TABLE ... ALTER COLUMN ... TYPE ... on a table that already\nexists in the database (not created in the same set of changed files).\n\nWhy it's dangerous:\nMost type changes require a full table rewrite and an ACCESS EXCLUSIVE\nlock for the duration. For large tables, this causes extended downtime.\nBinary-coercible casts (e.g., varchar widening) do NOT rewrite.\n\nSafe casts (no finding):\n- varchar(N) -> varchar(M) where M > N\n- varchar(N) -> text\n- numeric(P,S) -> numeric(P2,S) where P2 > P and same scale\n- varbit(N) -> varbit(M) where M > N\n\nINFO cast:\n- timestamp -> timestamptz (no rewrite in PG 9.2+; the cast uses the\nsession TimeZone at ALTER time, so verify that the executing session\nhas TimeZone=UTC \u{2014} a server default of UTC is not sufficient if the\nconnection overrides it)\n\nAll other type changes fire as CRITICAL.\n\nExample (bad):\nALTER TABLE orders ALTER COLUMN amount TYPE bigint;\n\nFix:\n-- Create a new column, backfill, and swap:\nALTER TABLE orders ADD COLUMN amount_new bigint;\nUPDATE orders SET amount_new = amount;\nALTER TABLE orders DROP COLUMN amount;\nALTER TABLE orders RENAME COLUMN amount_new TO amount;",
            RuleId::Pgm008 => "PGM008 \u{2014} Adding a NOT NULL column without a DEFAULT to an existing table",
            RuleId::Pgm009 => "PGM009 \u{2014} ALTER COLUMN TYPE on existing table\n\nWhat it detects:\nALTER TABLE ... ALTER COLUMN ... TYPE ... on a table that already\nexists in the database (not created in the same set of changed files).\n\nWhy it's dangerous:\nMost type changes require a full table rewrite and an ACCESS EXCLUSIVE\nlock for the duration. For large tables, this causes extended downtime.\nBinary-coercible casts (e.g., varchar widening) do NOT rewrite.\n\nSafe casts (no finding):\n- varchar(N) -> varchar(M) where M > N\n- varchar(N) -> text\n- numeric(P,S) -> numeric(P2,S) where P2 > P and same scale\n- bit(N) -> bit(M) where M > N\n- varbit(N) -> varbit(M) where M > N\n\nINFO cast:\n- timestamp -> timestamptz (safe in PG 15+ with UTC timezone;\nverify your timezone config)\n\nAll other type changes fire as CRITICAL.\n\nExample (bad):\nALTER TABLE orders ALTER COLUMN amount TYPE bigint;\n\nFix:\n-- Create a new column, backfill, and swap:\nALTER TABLE orders ADD COLUMN amount_new bigint;\nUPDATE orders SET amount_new = amount;\nALTER TABLE orders DROP COLUMN amount;\nALTER TABLE orders RENAME COLUMN amount_new TO amount;",
            RuleId::Pgm010 => "PGM010 \u{2014} DROP COLUMN silently removes unique constraint\n\nWhat it detects:\nALTER TABLE ... DROP COLUMN where the dropped column participates\nin a UNIQUE constraint or unique index on the table.\n\nWhy it matters:\nPostgreSQL automatically drops any index or constraint that depends\non a dropped column. If the column was part of a UNIQUE constraint\nor unique index, the uniqueness guarantee is silently lost. This can\nlead to duplicate data being inserted without any error.\n\nExample (bad):\n-- Table has UNIQUE(email)\nALTER TABLE users DROP COLUMN email;\n-- The unique constraint on email is silently removed.\n\nFix:\nVerify that the uniqueness guarantee provided by the constraint or\nindex is no longer needed before dropping the column. If uniqueness\nis still required on the remaining columns, create a new constraint\nor index covering those columns.",
            RuleId::Pgm011 => "PGM011 \u{2014} DROP COLUMN silently removes primary key\n\nWhat it detects:\nALTER TABLE ... DROP COLUMN where the dropped column participates\nin the table's primary key constraint.\n\nWhy it matters:\nDropping a PK column (with CASCADE) silently removes the primary key\nconstraint. The table loses its row identity, which affects replication,\nORMs, query planning, and data integrity.\n\nExample (bad):\n-- Table has PRIMARY KEY (id)\nALTER TABLE orders DROP COLUMN id;\n-- The primary key constraint is silently removed.\n\nFix:\nAdd a new primary key on the remaining columns before or after\ndropping the column, or reconsider whether the column drop is\nnecessary.",
            RuleId::Pgm012 => "PGM012 \u{2014} DROP COLUMN silently removes foreign key\n\nWhat it detects:\nALTER TABLE ... DROP COLUMN where the dropped column participates\nin a FOREIGN KEY constraint on the table.\n\nWhy it matters:\nDropping a column that is part of a foreign key (with CASCADE)\nsilently removes the FK constraint. The referential integrity\nguarantee is lost. This can lead to orphaned rows and data\ninconsistency without any error or warning from PostgreSQL.\n\nExample (bad):\n-- Table has FOREIGN KEY (customer_id) REFERENCES customers(id)\nALTER TABLE orders DROP COLUMN customer_id;\n-- The foreign key constraint is silently removed.\n\nFix:\nVerify that the referential integrity guarantee provided by the\nforeign key is no longer needed before dropping the column.",
            RuleId::Pgm013 => "PGM013 \u{2014} SET NOT NULL on existing table requires ACCESS EXCLUSIVE lock",
            RuleId::Pgm014 => "PGM014 \u{2014} Adding a FOREIGN KEY without NOT VALID on an existing table",
            RuleId::Pgm015 => "PGM015 \u{2014} ADD CHECK on existing table without NOT VALID",
            RuleId::Pgm016 => "PGM016 \u{2014} ADD PRIMARY KEY on existing table without USING INDEX\n\nWhat it detects:\nALTER TABLE ... ADD PRIMARY KEY on an existing table that does not\nuse USING INDEX, or where the referenced index does not exist, is\nnot UNIQUE, or covers nullable columns.\n\nWhy it's dangerous:\nWithout USING INDEX, PostgreSQL always builds a new unique index\ninline under an ACCESS EXCLUSIVE lock, even if a matching unique\nindex already exists. For large tables this causes extended downtime.\n\nEven with USING INDEX, if any of the PK columns are nullable,\nPostgreSQL implicitly runs ALTER COLUMN SET NOT NULL which requires\na full table scan under ACCESS EXCLUSIVE lock.\n\nExample (bad):\nALTER TABLE orders ADD PRIMARY KEY (id);\n\nFix (safe pattern \u{2014} build unique index concurrently first):\n-- Ensure columns are NOT NULL (use CHECK constraint trick if needed)\nCREATE UNIQUE INDEX CONCURRENTLY idx_orders_pk ON orders (id);\nALTER TABLE orders ADD PRIMARY KEY USING INDEX idx_orders_pk;",
            RuleId::Pgm017 => "PGM017 \u{2014} ADD UNIQUE on existing table without USING INDEX\n\nWhat it detects:\nALTER TABLE ... ADD CONSTRAINT ... UNIQUE on an existing table that\ndoes not use USING INDEX, or where the referenced index does not\nexist or is not UNIQUE.\n\nWhy it's dangerous:\nWithout USING INDEX, PostgreSQL always builds a new unique index\ninline under an ACCESS EXCLUSIVE lock, even if a matching unique\nindex already exists. For large tables this causes extended downtime.\nNOT VALID does NOT apply to UNIQUE constraints.\n\nWhen USING INDEX is specified, PostgreSQL validates that the\nreferenced index exists and is unique, then promotes it to a\nconstraint without rebuilding.\n\nExample (bad):\nALTER TABLE orders ADD CONSTRAINT uq_email UNIQUE (email);\n\nFix (safe pattern \u{2014} build unique index concurrently first):\nCREATE UNIQUE INDEX CONCURRENTLY idx_orders_email ON orders (email);\nALTER TABLE orders ADD CONSTRAINT uq_email UNIQUE USING INDEX idx_orders_email;",
            RuleId::Pgm018 => "PGM018 \u{2014} CLUSTER on existing table",
            RuleId::Pgm019 => "PGM019 \u{2014} ADD EXCLUDE constraint on existing table",
            RuleId::Pgm020 => "PGM020 \u{2014} DISABLE TRIGGER on table suppresses FK enforcement",
            RuleId::Pgm101 => "PGM101 \u{2014} Don't use `timestamp` (without time zone)\n\nWhat it detects:\nA column declared as `timestamp` (which PostgreSQL interprets as\n`timestamp without time zone`).\n\nWhy it's problematic:\n`timestamp` (without time zone) stores a date/time value with no\ntimezone context. This makes the stored values ambiguous \u{2014} they could\nrepresent any timezone, and PostgreSQL performs no conversion on\ninput or output. When servers, clients, or applications use different\ntimezones, this leads to subtle, hard-to-debug data corruption.\n\n`timestamptz` (timestamp with time zone) stores values as UTC\ninternally and converts to the session's timezone on output. This\nensures unambiguous points in time.\n\nExample (bad):\nCREATE TABLE events (created_at timestamp NOT NULL);\n\nFix:\nCREATE TABLE events (created_at timestamptz NOT NULL);",
            RuleId::Pgm102 => "PGM102 \u{2014} Column uses timestamp or timestamptz with precision 0",
            RuleId::Pgm103 => "PGM103 \u{2014} Column uses char(n) type",
            RuleId::Pgm104 => "PGM104 \u{2014} Column uses the money type",
            RuleId::Pgm105 => "PGM105 \u{2014} Column uses serial/bigserial instead of identity column",
            RuleId::Pgm106 => "PGM106 \u{2014} Column uses json type instead of jsonb",
            RuleId::Pgm201 => "PGM201 \u{2014} DROP TABLE on existing table",
            RuleId::Pgm202 => "PGM202 \u{2014} DROP TABLE CASCADE on existing table",
            RuleId::Pgm203 => "PGM203 \u{2014} TRUNCATE TABLE on existing table\n\nWhat it detects:\nA TRUNCATE TABLE statement targeting a table that already exists in the\ndatabase (i.e., the table was not created in the same set of changed\nfiles).\n\nWhy it matters:\nTRUNCATE removes all rows from a table instantly without scanning them.\nUnlike DELETE, it does not fire ON DELETE triggers, does not log\nindividual row deletions, and cannot be filtered with a WHERE clause.\nThe operation is irreversible once committed.\n\nExample:\nTRUNCATE TABLE audit_trail;\n\nRecommended approach:\n1. Ensure the data is truly disposable or has been backed up.\n2. Consider whether ON DELETE triggers need to fire \u{2014} if so, use DELETE.\n3. If truncating for a schema migration, document the intent clearly.\n\nThis rule is MINOR severity to flag the operation for human review.",
            RuleId::Pgm204 => "PGM204 \u{2014} TRUNCATE TABLE CASCADE on existing table\n\nWhat it detects:\nA TRUNCATE TABLE ... CASCADE statement targeting a table that already\nexists in the database.\n\nWhy it matters:\nCASCADE silently extends the truncation to all tables that have foreign\nkey references to the truncated table, and recursively to their\ndependents. The developer may not be aware of the full cascade chain,\nleading to unexpected data loss across multiple tables.\n\nA plain TRUNCATE (without CASCADE) would fail if FK dependencies exist,\nwhich is a safer default. CASCADE bypasses that safety net.\n\nExample:\nTRUNCATE TABLE customers CASCADE;\n\nIf the 'orders' table has a FK referencing 'customers', CASCADE will\nsilently truncate 'orders' as well.\n\nRecommended approach:\n1. Identify all dependent tables before truncating.\n2. Explicitly truncate each table in the correct order.\n3. Use plain TRUNCATE (without CASCADE) so PostgreSQL will error\nif unexpected dependencies remain.\n\nThis rule is MAJOR severity because CASCADE silently destroys\ndata in dependent tables the developer may not be aware of.",
            RuleId::Pgm205 => "PGM205 \u{2014} DROP SCHEMA CASCADE\n\nWhat it detects:\nA DROP SCHEMA ... CASCADE statement.\n\nWhy it matters:\nDROP SCHEMA CASCADE drops every object in the schema \u{2014} tables, views,\nsequences, functions, types, and indexes \u{2014} in a single statement. It is\nthe most destructive single DDL statement in PostgreSQL and cannot be\nselectively undone.\n\nUnlike DROP TABLE CASCADE (which only removes objects that depend on one\ntable), DROP SCHEMA CASCADE destroys the entire namespace and everything\nin it.\n\nExample:\nDROP SCHEMA myschema CASCADE;\n\nThis silently drops every table, view, function, sequence, and type\ndefined in 'myschema'.\n\nRecommended approach:\n1. Enumerate all objects in the schema before dropping.\n2. Explicitly drop or migrate each object in separate migration steps.\n3. Use plain DROP SCHEMA (without CASCADE) so PostgreSQL will error\nif the schema is non-empty.\n\nThis rule is CRITICAL severity because CASCADE silently destroys\nevery object in the schema.",
            RuleId::Pgm301 => "PGM301 \u{2014} INSERT INTO existing table in migration",
            RuleId::Pgm302 => "PGM302 \u{2014} UPDATE on existing table in migration",
            RuleId::Pgm303 => "PGM303 \u{2014} DELETE FROM existing table in migration",
            RuleId::Pgm401 => "PGM401 \u{2014} Missing IF EXISTS on DROP TABLE / DROP INDEX",
            RuleId::Pgm402 => "PGM402 \u{2014} Missing IF NOT EXISTS on CREATE TABLE / CREATE INDEX",
            RuleId::Pgm403 => "PGM403 \u{2014} CREATE TABLE IF NOT EXISTS for already-existing table",
            RuleId::Pgm501 => "PGM501 \u{2014} Foreign key without a covering index on the referencing table",
            RuleId::Pgm502 => "PGM502 \u{2014} Table created without a primary key",
            RuleId::Pgm503 => "PGM503 \u{2014} Table uses UNIQUE NOT NULL instead of a PRIMARY KEY",
            RuleId::Pgm504 => "PGM504 \u{2014} ALTER TABLE RENAME TO on existing table",
            RuleId::Pgm505 => "PGM505 \u{2014} RENAME COLUMN on existing table",
            RuleId::Pgm506 => "PGM506 \u{2014} CREATE UNLOGGED TABLE",
            RuleId::Pgm901 => "This rule caps severity of triggered rules to INFO (not in SonarQube)",
        }
    }
}

} // verus!
