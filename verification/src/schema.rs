//! Whether an existing database file belongs to this application and which
//! migrations it still needs: the product marker, the schema version and
//! the recorded migration history.

use crate::text::owned;
use vstd::prelude::*;

verus! {

broadcast use vstd::string::group_string_axioms;

/// The SQLite application id that marks the product's databases.
pub const APPLICATION_ID: i64 = 1414810417;

/// The schema version this build writes.
pub const SCHEMA_VERSION: i64 = 2;

/// One row of a database's migration history.
#[derive(Debug, Clone)]
pub struct MigrationRecord {
    pub version: i64,
    pub success: bool,
    pub checksum: Vec<u8>,
}

/// A migration this build knows.
#[derive(Debug, Clone)]
pub struct KnownMigration {
    pub version: i64,
    pub checksum: Vec<u8>,
}

/// The check on the markers of an existing database: a schema newer than
/// this build's is refused, and so is another application's id.
pub open spec fn marker_problem(app_id: i64, schema: i64) -> Option<Seq<char>> {
    if schema > SCHEMA_VERSION {
        Some("DATABASE_TOO_NEW: 数据库版本较新，请使用匹配版本，原数据未修改"@)
    } else if app_id != 0 && app_id != APPLICATION_ID {
        Some("DATABASE_NOT_OWNED: 不是 TailTask 数据库"@)
    } else {
        None
    }
}

/// The marker check.
pub fn check_markers(app_id: i64, schema: i64) -> (r: Result<(), String>)
    ensures
        match marker_problem(app_id, schema) {
            None => r is Ok,
            Some(p) => r matches Err(e) && e@ == p,
        },
{
    if schema > SCHEMA_VERSION {
        return Err(owned("DATABASE_TOO_NEW: 数据库版本较新，请使用匹配版本，原数据未修改"));
    }
    if app_id != 0 && app_id != APPLICATION_ID {
        return Err(owned("DATABASE_NOT_OWNED: 不是 TailTask 数据库"));
    }
    Ok(())
}

/// The checksum this build knows for migration `version`, if it knows it.
pub open spec fn known_checksum(known: Seq<KnownMigration>, version: i64) -> Option<Seq<u8>>
    decreases known.len(),
{
    if known.len() == 0 {
        None
    } else if known[0].version == version {
        Some(known[0].checksum@)
    } else {
        known_checksum(known.drop_first(), version)
    }
}

/// The migration history read row by row: each row must be a known,
/// successful migration with the known checksum, one version after the
/// previous row. The result is the last version, or the first problem.
pub open spec fn history_scan(rows: Seq<MigrationRecord>, known: Seq<KnownMigration>) -> Result<i64, Seq<char>>
    decreases rows.len(),
{
    if rows.len() == 0 {
        Ok(0)
    } else {
        match history_scan(rows.drop_last(), known) {
            Err(e) => Err(e),
            Ok(current) => {
                let row = rows.last();
                match known_checksum(known, row.version) {
                    None => Err("DATABASE_TOO_NEW: 存在不兼容迁移，原数据未修改"@),
                    Some(sum) => if !row.success || row.checksum@ != sum {
                        Err("DATABASE_MIGRATION: 迁移校验不一致，停止写入"@)
                    } else if row.version != current + 1 {
                        Err("DATABASE_MIGRATION: 迁移记录不连续"@)
                    } else {
                        Ok(row.version)
                    },
                }
            },
        }
    }
}

/// The outcome of reading a database's migration history: an empty
/// history is no product database.
pub open spec fn history_outcome(rows: Seq<MigrationRecord>, known: Seq<KnownMigration>) -> Result<i64, Seq<char>> {
    if rows.len() == 0 {
        Err("DATABASE_NOT_OWNED: 数据库缺少产品标记和已知模式"@)
    } else {
        history_scan(rows, known)
    }
}

fn lookup(known: &Vec<KnownMigration>, version: i64) -> (r: Option<&Vec<u8>>)
    ensures
        match r {
            Some(c) => known_checksum(known@, version) == Some(c@),
            None => known_checksum(known@, version) is None,
        },
{
    let mut i: usize = 0;
    assert(known@.skip(0) =~= known@);
    while i < known.len()
        invariant
            i <= known.len(),
            known_checksum(known@, version) == known_checksum(known@.skip(i as int), version),
        decreases known.len() - i,
    {
        let ghost rest = known@.skip(i as int);
        assert(rest.drop_first() =~= known@.skip(i + 1));
        assert(rest[0] == known@[i as int]);
        if known[i].version == version {
            return Some(&known[i].checksum);
        }
        i += 1;
    }
    None
}

fn same_bytes(a: &Vec<u8>, b: &Vec<u8>) -> (r: bool)
    ensures
        r == (a@ == b@),
{
    if a.len() != b.len() {
        return false;
    }
    let mut i: usize = 0;
    while i < a.len()
        invariant
            a.len() == b.len(),
            i <= a.len(),
            forall|k: int| 0 <= k < i ==> a@[k] == b@[k],
        decreases a.len() - i,
    {
        if a[i] != b[i] {
            return false;
        }
        i += 1;
    }
    assert(a@ =~= b@);
    true
}

/// Reads a migration history against the migrations this build knows:
/// the last recorded version, or the problem.
pub fn check_history(rows: &Vec<MigrationRecord>, known: &Vec<KnownMigration>) -> (r: Result<i64, String>)
    ensures
        match history_outcome(rows@, known@) {
            Ok(v) => r == Ok::<i64, String>(v),
            Err(e) => r matches Err(m) && m@ == e,
        },
{
    if rows.len() == 0 {
        return Err(owned("DATABASE_NOT_OWNED: 数据库缺少产品标记和已知模式"));
    }
    let mut current: i64 = 0;
    let mut i: usize = 0;
    while i < rows.len()
        invariant
            i <= rows.len(),
            history_scan(rows@.take(i as int), known@) == Ok::<i64, Seq<char>>(current),
            0 <= current <= i,
        decreases rows.len() - i,
    {
        let row = &rows[i];
        assert(rows@.take(i + 1).drop_last() =~= rows@.take(i as int));
        assert(rows@.take(i + 1).last() == rows@[i as int]);
        let sum = match lookup(known, row.version) {
            None => {
                proof {
                    scan_stops(rows@, known@, i as int);
                }
                return Err(owned("DATABASE_TOO_NEW: 存在不兼容迁移，原数据未修改"));
            },
            Some(s) => s,
        };
        if !row.success || !same_bytes(&row.checksum, sum) {
            proof {
                scan_stops(rows@, known@, i as int);
            }
            return Err(owned("DATABASE_MIGRATION: 迁移校验不一致，停止写入"));
        }
        if current == i64::MAX || row.version != current + 1 {
            proof {
                scan_stops(rows@, known@, i as int);
            }
            return Err(owned("DATABASE_MIGRATION: 迁移记录不连续"));
        }
        current = row.version;
        i += 1;
    }
    assert(rows@.take(rows.len() as int) =~= rows@);
    Ok(current)
}

proof fn scan_stops(rows: Seq<MigrationRecord>, known: Seq<KnownMigration>, i: int)
    requires
        0 <= i < rows.len(),
        history_scan(rows.take(i + 1), known) is Err,
    ensures
        history_scan(rows, known) == history_scan(rows.take(i + 1), known),
    decreases rows.len() - i,
{
    if i + 1 < rows.len() {
        assert(rows.drop_last().take(i + 1) =~= rows.take(i + 1));
        scan_stops(rows.drop_last(), known, i);
    } else {
        assert(rows.take(i + 1) =~= rows);
    }
}

/// The final check on an existing database whose history reaches
/// `current`: a database at the current schema must carry the product
/// marker and version. The result says whether migrations remain to run.
pub open spec fn migration_outcome(current: i64, app_id: i64, schema: i64) -> Result<bool, Seq<char>> {
    if current >= 2 && (app_id != APPLICATION_ID || schema != SCHEMA_VERSION) {
        Err("DATABASE_NOT_OWNED: 产品标记不一致"@)
    } else {
        Ok(current < SCHEMA_VERSION)
    }
}

/// Whether an existing database still needs migrations.
pub fn migration_needed(current: i64, app_id: i64, schema: i64) -> (r: Result<bool, String>)
    ensures
        match migration_outcome(current, app_id, schema) {
            Ok(b) => r == Ok::<bool, String>(b),
            Err(e) => r matches Err(m) && m@ == e,
        },
{
    if current >= 2 && (app_id != APPLICATION_ID || schema != SCHEMA_VERSION) {
        return Err(owned("DATABASE_NOT_OWNED: 产品标记不一致"));
    }
    Ok(current < SCHEMA_VERSION)
}

proof fn scan_is_contiguous(rows: Seq<MigrationRecord>, known: Seq<KnownMigration>)
    ensures
        history_scan(rows, known) is Ok ==> history_scan(rows, known) == Ok::<i64, Seq<char>>(
            rows.len() as i64,
        ) && forall|i: int| 0 <= i < rows.len() ==> (#[trigger] rows[i]).version == i + 1,
    decreases rows.len(),
{
    if rows.len() > 0 {
        scan_is_contiguous(rows.drop_last(), known);
        if history_scan(rows, known) is Ok {
            assert forall|i: int| 0 <= i < rows.len() implies (#[trigger] rows[i]).version == i + 1 by {
                if i < rows.len() - 1 {
                    assert(rows.drop_last()[i] == rows[i]);
                }
            }
        }
    }
}

/// An accepted migration history is exactly the known migrations 1, 2, …,
/// n in order, each recorded as successful with its known checksum; its
/// last version is n.
pub proof fn accepted_histories_are_complete(rows: Seq<MigrationRecord>, known: Seq<KnownMigration>)
    ensures
        history_outcome(rows, known) matches Ok(v) ==> {
            &&& v == rows.len()
            &&& forall|i: int| 0 <= i < rows.len() ==> (#[trigger] rows[i]).version == i + 1
        },
{
    scan_is_contiguous(rows, known);
}

} // verus!
