use tailtask::schema::{check_history, check_markers, migration_needed, KnownMigration, MigrationRecord, APPLICATION_ID};

fn known() -> Vec<KnownMigration> {
    vec![KnownMigration { version: 1, checksum: vec![1] }, KnownMigration { version: 2, checksum: vec![2] }]
}

fn row(version: i64, checksum: u8) -> MigrationRecord {
    MigrationRecord { version, success: true, checksum: vec![checksum] }
}

#[test]
fn rejects_unrelated_and_newer_database_markers() {
    assert!(check_markers(0, 0).is_ok());
    assert!(check_markers(APPLICATION_ID, 2).is_ok());
    assert!(check_markers(7, 1).unwrap_err().starts_with("DATABASE_NOT_OWNED"));
    assert!(check_markers(APPLICATION_ID, 999).unwrap_err().starts_with("DATABASE_TOO_NEW"));
}

#[test]
fn migration_histories_must_be_known_and_contiguous() {
    assert_eq!(check_history(&vec![row(1, 1)], &known()), Ok(1));
    assert_eq!(check_history(&vec![row(1, 1), row(2, 2)], &known()), Ok(2));
    assert!(check_history(&vec![], &known()).unwrap_err().starts_with("DATABASE_NOT_OWNED"));
    assert!(check_history(&vec![row(3, 3)], &known()).unwrap_err().starts_with("DATABASE_TOO_NEW"));
    assert_eq!(check_history(&vec![row(1, 0)], &known()).unwrap_err(), "DATABASE_MIGRATION: 迁移校验不一致，停止写入");
    assert_eq!(check_history(&vec![row(2, 2)], &known()).unwrap_err(), "DATABASE_MIGRATION: 迁移记录不连续");
    let failed = MigrationRecord { success: false, ..row(1, 1) };
    assert!(check_history(&vec![failed], &known()).is_err());
}

#[test]
fn current_databases_need_their_marker() {
    assert_eq!(migration_needed(1, 0, 1), Ok(true));
    assert_eq!(migration_needed(2, APPLICATION_ID, 2), Ok(false));
    assert!(migration_needed(2, 0, 2).unwrap_err().starts_with("DATABASE_NOT_OWNED"));
}
