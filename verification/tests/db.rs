use image_client::db::{
    after_backup_step, backup_directory, backup_file_name, backup_files, backup_prefix,
    backup_timestamp, check_backup_time, check_row_limit, json_to_sql, migrate,
    migrate_with_backup, migration_error, new_migration, next_migration, prepare_statement,
    retain_recent_backups, row_to_json, run_migration, sql_to_json, validate_backup,
    validate_bind_values, validate_query, BackupNext, BackupStep, MigrationAction, MigrationEvent,
    MigrationOperation, MigrationStage, NextMigration, SqlCell, SqlValue, SCHEMA_VERSION,
};
use image_client::json::Json;

fn json(text: &str) -> Json {
    Json::from_text(text).unwrap()
}

#[test]
fn restricts_sql_to_expected_operations_and_tables() {
    assert!(validate_query("SELECT value FROM settings WHERE key = ?", true).is_ok());
    assert!(validate_query("INSERT OR REPLACE INTO assets (id) VALUES (?)", false).is_ok());
    assert!(validate_query("DROP TABLE settings", false).is_err());
    assert!(validate_query("SELECT * FROM sqlite_master", true).is_err());
    assert!(validate_query("SELECT * FROM settings; DELETE FROM settings", true).is_err());
    assert!(validate_query("SELECT * FROM settings UNION SELECT * FROM tasks", true).is_err());
    assert!(validate_query(
        "SELECT * FROM settings WHERE value IN (SELECT value FROM settings)",
        true
    )
    .is_err());
    assert!(validate_query("x", true).is_err());
}

#[test]
fn refused_statements_say_why() {
    let error = |query: &str, select: bool| validate_query(query, select).unwrap_err();
    assert_eq!(error(&"x".repeat(8_193), true), "SQLite 语句超过 8192 个字符");
    let hidden = "SQLite 语句为空或包含不允许的多语句/注释";
    assert_eq!(error(" \n ", true), hidden);
    assert_eq!(error("SELECT 1; ", true), hidden);
    assert_eq!(error("SELECT * FROM settings -- x", true), hidden);
    assert_eq!(error("SELECT /* x */ * FROM settings", true), hidden);
    assert_eq!(
        error("SELECT * FROM settings\tJOIN tasks", true),
        "SQLite 语句包含不允许的关键字: join"
    );
    assert_eq!(error("pragma user_version", true), "SQLite 语句包含不允许的关键字: pragma");
    assert_eq!(error("DELETE FROM tasks", true), "SQLite 操作类型不允许");
    assert_eq!(error("SELECT * FROM tasks", false), "SQLite 操作类型不允许");
    assert_eq!(
        error("DELETE FROM tasks WHERE id IN (select id FROM tasks)", false),
        "SQLite 不允许子查询"
    );
    assert_eq!(error("SELECT 1", true), "无法识别 SQLite 表名");
    assert_eq!(error("INSERT tasks", false), "无法识别 SQLite 表名");
    assert_eq!(error("UPDATE \"users\" SET a = 1", false), "SQLite 表不允许访问: users");
    assert!(validate_query("  update\n \"Tasks\"  SET a = 1", false).is_ok());
    assert!(validate_query("delete from workflows", false).is_ok());
}

#[test]
fn values_of_statements_are_limited_and_converted() {
    let values = vec![
        json("null"),
        json("true"),
        json("-5"),
        json("18446744073709551615"),
        json("0.5"),
        json("\"t\""),
        json("[1, 2]"),
    ];
    let bound = prepare_statement("SELECT * FROM tasks", true, &values).unwrap();
    assert_eq!(
        bound,
        vec![
            SqlValue::Null,
            SqlValue::Integer(1),
            SqlValue::Integer(-5),
            SqlValue::Real("18446744073709551615".into()),
            SqlValue::Real("0.5".into()),
            SqlValue::Text("t".into()),
            SqlValue::Text("[1,2]".into()),
        ]
    );
    assert_eq!(json_to_sql(&Json::Uint(7)), SqlValue::Integer(7));
    let many: Vec<Json> = (0..129).map(Json::Int).collect();
    assert_eq!(validate_bind_values(&many).unwrap_err(), "SQLite 参数数量超过 128");
    let large = vec![Json::Str("x".repeat(33_554_433))];
    assert_eq!(
        prepare_statement("SELECT * FROM tasks", true, &large).unwrap_err(),
        "SQLite 单个参数超过 32 MiB 大小限制"
    );
    assert!(validate_bind_values(&[Json::Str("x".repeat(33_554_432))]).is_ok());
    assert_eq!(
        prepare_statement("DROP TABLE tasks", false, &[]).unwrap_err(),
        "SQLite 操作类型不允许"
    );
}

#[test]
fn rows_become_objects() {
    assert_eq!(sql_to_json(&SqlCell::Blob(b"hello".to_vec())), Json::Str("aGVsbG8=".into()));
    assert_eq!(
        sql_to_json(&SqlCell::Text(vec![b'a', 0xff, b'b'])),
        Json::Str("a\u{fffd}b".into())
    );
    assert_eq!(sql_to_json(&SqlCell::Real(None)), Json::Null);
    let names = vec!["a".to_string(), "b".to_string(), "a".to_string()];
    let cells = vec![
        SqlCell::Integer(1),
        SqlCell::Real(Some("0.5".into())),
        SqlCell::Null,
    ];
    assert_eq!(row_to_json(&names, &cells).to_text(), r#"{"a":null,"b":0.5}"#);
    assert!(check_row_limit(49_999).is_ok());
    assert_eq!(check_row_limit(50_000).unwrap_err(), "SQLite 查询结果超过 50000 行限制");
}

#[test]
fn refuses_a_database_from_a_newer_application() {
    assert!(migrate(SCHEMA_VERSION + 1).unwrap_err().contains("高于当前程序支持"));
    assert_eq!(migrate(26).unwrap_err(), "数据库 schema v26 高于当前程序支持的 v25，请升级应用");
}

#[test]
fn missing_migrations_run_in_order() {
    assert_eq!(migrate(23).unwrap(), vec![24, 25]);
    assert_eq!(migrate(25).unwrap(), Vec::<i64>::new());
    assert_eq!(migrate(0).unwrap(), (1..=25).collect::<Vec<i64>>());
    assert_eq!(migrate(-3).unwrap().len(), 25);
    assert_eq!(
        migration_error(MigrationStage::Begin, 3, "locked"),
        "开始 SQLite v3 迁移事务失败: locked"
    );
    assert_eq!(migration_error(MigrationStage::Run, 3, "bad"), "执行 v3 SQLite 迁移失败: bad");
    assert_eq!(migration_error(MigrationStage::Commit, 3, "io"), "提交 SQLite v3 迁移失败: io");
}

/// How the operations of a migration go in a test: those that are named fail.
struct Failing(&'static [&'static str]);

impl Failing {
    fn result(&self, name: &str) -> Result<(), String> {
        if self.0.contains(&name) {
            Err(name.to_string())
        } else {
            Ok(())
        }
    }
}

/// Runs one migration. The result is what was done, and how it ends.
fn course_of(version: i64, failing: &Failing) -> (Vec<&'static str>, Result<(), String>) {
    let mut run = new_migration(version);
    let mut event = MigrationEvent::Begin;
    let mut done = Vec::new();
    loop {
        event = match run_migration(&mut run, event) {
            MigrationOperation::ReadSettings => {
                done.push("read");
                MigrationEvent::SettingsRead(failing.result("read"))
            }
            MigrationOperation::SwitchOff => {
                done.push("off");
                MigrationEvent::SwitchedOff(failing.result("off"))
            }
            MigrationOperation::Begin => {
                done.push("begin");
                MigrationEvent::Begun(failing.result("begin"))
            }
            MigrationOperation::RunScript => {
                done.push("script");
                MigrationEvent::Ran(failing.result("script"))
            }
            MigrationOperation::CheckReferences => {
                done.push("check");
                MigrationEvent::Checked(
                    failing.result("check").map(|_| failing.result("references").is_err()),
                )
            }
            MigrationOperation::EnterVersion => {
                done.push("enter");
                MigrationEvent::Entered(failing.result("enter"))
            }
            MigrationOperation::Commit => {
                done.push("commit");
                MigrationEvent::Committed(failing.result("commit"))
            }
            MigrationOperation::RollBack => {
                done.push("rollback");
                MigrationEvent::RolledBack
            }
            MigrationOperation::RestoreAltering => {
                done.push("altering");
                MigrationEvent::AlteringRestored(failing.result("altering"))
            }
            MigrationOperation::RestoreChecks => {
                done.push("checks");
                MigrationEvent::ChecksRestored(failing.result("checks"))
            }
            MigrationOperation::Finish => return (done, Ok(())),
            MigrationOperation::Fail(error) => return (done, Err(error)),
        };
    }
}

#[test]
fn rebuilding_a_table_restores_the_connection() {
    let whole = vec!["read", "off", "begin", "script", "check", "enter", "commit"];
    let (done, end) = course_of(22, &Failing(&[]));
    assert_eq!(done, [whole.clone(), vec!["altering", "checks"]].concat());
    assert_eq!(end, Ok(()));
    let (done, end) = course_of(22, &Failing(&["references"]));
    assert_eq!(
        done,
        vec!["read", "off", "begin", "script", "check", "rollback", "altering", "checks"]
    );
    assert_eq!(
        end.unwrap_err(),
        "执行 v22 SQLite 迁移失败: v22 foreign key validation failed"
    );
    let (done, end) = course_of(22, &Failing(&["commit"]));
    assert_eq!(done, [whole, vec!["rollback", "altering", "checks"]].concat());
    assert_eq!(end.unwrap_err(), "执行 v22 SQLite 迁移失败: commit");
    let error = |names: &'static [&'static str]| course_of(22, &Failing(names)).1.unwrap_err();
    assert_eq!(error(&["read"]), "read");
    assert_eq!(error(&["off"]), "off");
    assert_eq!(error(&["begin"]), "执行 v22 SQLite 迁移失败: begin");
    assert_eq!(error(&["script"]), "执行 v22 SQLite 迁移失败: script");
    assert_eq!(error(&["check"]), "执行 v22 SQLite 迁移失败: check");
    assert_eq!(error(&["enter"]), "执行 v22 SQLite 迁移失败: enter");
    assert_eq!(error(&["script", "altering", "checks"]), "altering");
    assert_eq!(error(&["script", "checks"]), "checks");
}

#[test]
fn new_database_does_not_create_a_pre_migration_backup() {
    match migrate_with_backup(false, 0, None) {
        MigrationAction::Run(versions) => assert_eq!(versions.len(), 25),
        other => panic!("a new database is migrated at once: {other:?}"),
    }
}

#[test]
fn backup_failure_prevents_schema_advance_and_migration_failure_keeps_verified_backup() {
    assert!(matches!(migrate_with_backup(true, 5, None), MigrationAction::BackUp));
    match migrate_with_backup(true, 5, Some(Err("backup failed".into()))) {
        MigrationAction::Refuse(error) => assert_eq!(error, "backup failed"),
        other => panic!("no migration without a backup: {other:?}"),
    }
    match migrate_with_backup(true, 5, Some(Ok(()))) {
        MigrationAction::Run(versions) => assert_eq!(versions[0], 6),
        other => panic!("migrated after the backup: {other:?}"),
    }
    assert!(matches!(migrate_with_backup(true, 26, None), MigrationAction::Refuse(_)));
}

#[test]
fn pre_migration_backups_keep_only_the_latest_three_for_one_database_prefix() {
    let prefix = backup_prefix(Some("retention")).unwrap();
    let names: Vec<String> = (1..=4)
        .map(|time| {
            backup_file_name(&prefix, 5, time, "00000000-0000-4000-8000-000000000000")
        })
        .collect();
    let expired = retain_recent_backups(&names, &prefix).unwrap();
    assert_eq!(expired, vec![names[0].clone()]);
    assert_eq!(names.len() - expired.len(), 3);
    assert!(retain_recent_backups(&names[..2].to_vec(), &prefix).unwrap().is_empty());
}

#[test]
fn backup_retention_orders_mixed_source_versions_by_backup_time_not_filename() {
    let prefix = backup_prefix(Some("mixed")).unwrap();
    let mut names = Vec::new();
    for (version, timestamp, serial) in [
        (9, 100_u128, 1),
        (1, 400, 2),
        (8, 200, 3),
        (2, 300, 4),
        (-1, 500, 5),
    ] {
        names.push(format!(
            "{prefix}{version}-{timestamp}-00000000-0000-4000-8000-{serial:012}.sqlite"
        ));
    }
    let ordered = backup_files(&names, &prefix).unwrap();
    assert_eq!(
        ordered,
        vec![
            format!("{prefix}-1-500-00000000-0000-4000-8000-000000000005.sqlite"),
            format!("{prefix}1-400-00000000-0000-4000-8000-000000000002.sqlite"),
            format!("{prefix}2-300-00000000-0000-4000-8000-000000000004.sqlite"),
            format!("{prefix}8-200-00000000-0000-4000-8000-000000000003.sqlite"),
            format!("{prefix}9-100-00000000-0000-4000-8000-000000000001.sqlite"),
        ]
    );
    let expired = retain_recent_backups(&names, &prefix).unwrap();
    let retained: Vec<String> = names.into_iter().filter(|name| !expired.contains(name)).collect();
    assert_eq!(retained.len(), 3);
    assert!(retained.iter().all(|name| !name.contains("9-100")));
    assert!(retained.iter().any(|name| name.contains("-1-500-")));
}

#[test]
fn names_of_backups_hold_their_time() {
    let id = "936da01f-9abd-4d9d-80c7-02AF85C822A8";
    let name = backup_file_name("db-pre-migration-v", -7, u128::MAX, id);
    assert_eq!(
        name,
        "db-pre-migration-v-7-340282366920938463463374607431768211455-936da01f-9abd-4d9d-80c7-02AF85C822A8.sqlite"
    );
    assert_eq!(backup_timestamp(&name, "db-pre-migration-v").unwrap(), u128::MAX);
    let invalid = "SQLite 迁移前备份文件名无效";
    for bad in [
        "other-5-1-936da01f-9abd-4d9d-80c7-02af85c822a8.sqlite",
        "p5-1-936da01f-9abd-4d9d-80c7-02af85c822a8.db",
        "p5-1-936da01f-9abd-4d9d-80c7-02af85c822ag.sqlite",
        "p5-1-936da01f.sqlite",
        "p5-936da01f-9abd-4d9d-80c7-02af85c822a8.sqlite",
        "px-1-936da01f-9abd-4d9d-80c7-02af85c822a8.sqlite",
        "p9223372036854775808-1-936da01f-9abd-4d9d-80c7-02af85c822a8.sqlite",
        "p5-x-936da01f-9abd-4d9d-80c7-02af85c822a8.sqlite",
        "p5-340282366920938463463374607431768211456-936da01f-9abd-4d9d-80c7-02af85c822a8.sqlite",
    ] {
        assert_eq!(backup_timestamp(bad, "p").unwrap_err(), invalid, "{bad}");
    }
    assert!(backup_timestamp(
        "p-9223372036854775808-1-936da01f-9abd-4d9d-80c7-02af85c822a8.sqlite",
        "p"
    )
    .is_ok());
    let names = vec!["p-unrelated.txt".to_string(), "p-broken.sqlite".to_string()];
    assert_eq!(backup_files(&names, "p").unwrap_err(), invalid);
    assert!(backup_files(&names[..1].to_vec(), "p").unwrap().is_empty());
    assert_eq!(
        backup_prefix(None).unwrap_err(),
        "SQLite 数据库文件名无效，无法创建迁移前备份"
    );
    assert!(backup_prefix(Some("")).is_err());
    let parent = vec!["data".to_string()];
    assert_eq!(backup_directory(Some(&parent)).unwrap(), vec!["data", "backups"]);
    assert_eq!(
        backup_directory(None).unwrap_err(),
        "SQLite 数据库路径缺少父目录，无法创建迁移前备份"
    );
}

#[test]
fn backups_are_stepped_and_validated() {
    assert_eq!(after_backup_step(BackupStep::Done).unwrap(), BackupNext::Finish);
    assert_eq!(after_backup_step(BackupStep::More).unwrap(), BackupNext::Step);
    assert_eq!(after_backup_step(BackupStep::Busy).unwrap(), BackupNext::WaitAndStep);
    assert_eq!(after_backup_step(BackupStep::Locked).unwrap(), BackupNext::WaitAndStep);
    assert_eq!(
        after_backup_step(BackupStep::Other).unwrap_err(),
        "SQLite Online Backup 返回了不支持的步骤状态"
    );
    assert!(check_backup_time(false).is_ok());
    assert_eq!(
        check_backup_time(true).unwrap_err(),
        "SQLite 迁移前备份在 3 秒内未获得可用锁"
    );
    assert!(validate_backup("ok", 5, 5).is_ok());
    assert_eq!(
        validate_backup("row missing", 5, 5).unwrap_err(),
        "SQLite 迁移前备份完整性校验未通过"
    );
    assert_eq!(
        validate_backup("ok", 4, 5).unwrap_err(),
        "SQLite 迁移前备份 schema 版本与源数据库不一致"
    );
}

#[test]
fn migrations_run_one_after_the_other_until_one_fails() {
    /// Runs the migrations that are due, of which one may fail. The result is the version that
    /// is committed at the end, and how the run ends.
    fn bring_up(current: i64, failing: Option<i64>) -> (i64, Result<(), String>) {
        let versions = match migrate(current) {
            Ok(versions) => versions,
            Err(error) => return (current, Err(error)),
        };
        let (mut committed, mut done, mut last) = (current, 0, Ok(()));
        loop {
            match next_migration(&versions, done, last) {
                NextMigration::Run(version) => {
                    let script: &'static [&'static str] =
                        if failing == Some(version) { &["script"] } else { &[] };
                    let (steps, end) = course_of(version, &Failing(script));
                    if steps.contains(&"commit") {
                        committed = version;
                    }
                    last = end;
                    done += 1;
                }
                NextMigration::Finish => return (committed, Ok(())),
                NextMigration::Fail(error) => return (committed, Err(error)),
            }
        }
    }
    assert_eq!(bring_up(0, None), (SCHEMA_VERSION, Ok(())));
    assert_eq!(bring_up(-4, None), (SCHEMA_VERSION, Ok(())));
    assert_eq!(bring_up(SCHEMA_VERSION, None), (SCHEMA_VERSION, Ok(())));
    assert_eq!(bring_up(3, Some(9)), (8, Err("执行 v9 SQLite 迁移失败: script".into())));
    assert_eq!(bring_up(8, None), (SCHEMA_VERSION, Ok(())));
    assert_eq!(bring_up(26, None).0, 26);
    assert!(bring_up(26, None).1.is_err());
    assert_eq!(
        bring_up(20, Some(22)),
        (21, Err("执行 v22 SQLite 迁移失败: script".into()))
    );
    assert_eq!(course_of(4, &Failing(&[])).0, vec!["begin", "script", "enter", "commit"]);
    let error = |names: &'static [&'static str]| course_of(4, &Failing(names)).1.unwrap_err();
    assert_eq!(error(&["begin"]), "开始 SQLite v4 迁移事务失败: begin");
    assert_eq!(error(&["enter"]), "执行 v4 SQLite 迁移失败: enter");
    assert_eq!(error(&["commit"]), "提交 SQLite v4 迁移失败: commit");
    assert_eq!(
        course_of(4, &Failing(&["script"])).0,
        vec!["begin", "script", "rollback"]
    );
}
