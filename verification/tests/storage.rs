use shard::config::{config_path, Settings};
use shard::db::schema::{
    can_read_datetime, db_path, db_url, prune_count_sql, prune_sql,
    sqlite_datetime_to_epoch, DbHistoryRow, DbJobRow,
};

fn days_in_month(year: i64, month: i64) -> i64 {
    match month {
        2 if (year % 4 == 0 && year % 100 != 0) || year % 400 == 0 => 29,
        2 => 28,
        4 | 6 | 9 | 11 => 30,
        _ => 31,
    }
}

#[test]
fn timestamps_count_from_1970() {
    assert_eq!(sqlite_datetime_to_epoch("1970-01-01 00:00:00"), Some(0));
    assert_eq!(sqlite_datetime_to_epoch("2000-02-29 12:34:56"), Some(951_827_696));
    assert_eq!(sqlite_datetime_to_epoch("2024-03-01 00:00:00"), Some(1_709_251_200));
    assert_eq!(sqlite_datetime_to_epoch("2023-11-14 22:13:20"), Some(1_700_000_000));
}

#[test]
fn days_follow_each_other() {
    let mut expected = 0i64;
    for year in 1970..2110i64 {
        for month in 1..=12i64 {
            for day in 1..=days_in_month(year, month) {
                let s = format!("{year:04}-{month:02}-{day:02} 00:00:00");
                assert_eq!(sqlite_datetime_to_epoch(&s), Some(expected), "{s}");
                expected += 86400;
            }
        }
    }
}

#[test]
fn days_before_1970_are_negative() {
    let mut expected = 0i64;
    for year in (0..1970i64).rev() {
        for month in (1..=12i64).rev() {
            expected -= days_in_month(year, month) * 86400;
            let s = format!("{year:04}-{month:02}-01 00:00:00");
            assert_eq!(sqlite_datetime_to_epoch(&s), Some(expected), "{s}");
        }
    }
    assert_eq!(sqlite_datetime_to_epoch("0001-01-01 00:00:00"), Some(-62_135_596_800));
}

#[test]
fn odd_timestamps() {
    assert_eq!(sqlite_datetime_to_epoch(""), None);
    assert_eq!(sqlite_datetime_to_epoch("2024-01-01"), None);
    assert_eq!(sqlite_datetime_to_epoch("2024-01-01 00:00:00:00"), None);
    assert_eq!(sqlite_datetime_to_epoch("2024-01-01 00:00:xx"), None);
    assert_eq!(sqlite_datetime_to_epoch("2024-01-01T00:00:00"), None);
    // Separators are interchangeable, and signs are read.
    assert_eq!(sqlite_datetime_to_epoch("1970:01 01-00 +1-+5"), Some(65));
    // Months beyond the year count as its end, and day 0 is the day before the first.
    assert_eq!(sqlite_datetime_to_epoch("1970-13-01 00:00:00"), Some(365 * 86400));
    assert_eq!(sqlite_datetime_to_epoch("1970-00-00 00:00:00"), Some(-86400));
    assert_eq!(sqlite_datetime_to_epoch("1968-01-01 00:00:00"), Some(-63_158_400));
    assert_eq!(sqlite_datetime_to_epoch("1968-03-01 00:00:00"), Some((-731 + 31 + 29) * 86400));
}

#[test]
fn timestamps_out_of_range_are_noticed() {
    assert!(can_read_datetime("2024-01-01 00:00:00"));
    assert!(can_read_datetime("nonsense"));
    assert!(!can_read_datetime("9223372036854775807-01-01 00:00:00"));
    assert!(!can_read_datetime("1970-01-01 9223372036854775807:00:00"));
    assert!(can_read_datetime("1970-01-01 00:00:9223372036854775807"));
    assert!(!can_read_datetime("1970-01-02 00:00:9223372036854775807"));
}

fn row() -> DbJobRow {
    DbJobRow {
        id: 7,
        url: "u".to_string(),
        output_path: "p".to_string(),
        connections: 260,
        total_size: 100,
        downloaded: 40,
        status: "Paused".to_string(),
        created_at: Some("1970-01-01 00:00:09".to_string()),
        updated_at: None,
    }
}

#[test]
fn job_rows_become_summaries() {
    assert!(row().can_read());
    let s = row().into_summary();
    assert_eq!((s.id, s.url.as_str(), s.output_path.as_str()), (7, "u", "p"));
    assert_eq!((s.total_size, s.downloaded, s.status.as_str()), (100, 40, "Paused"));
    assert_eq!(s.chunks_total, 260i64 as u8);
    assert_eq!((s.started_at, s.ended_at), (Some(9), None));
    let mut far = row();
    far.updated_at = Some("9223372036854775807-01-01 00:00:00".to_string());
    assert!(!far.can_read());
}

#[test]
fn history_rows_become_summaries() {
    let s = DbHistoryRow {
        id: 8,
        url: "u".to_string(),
        output_path: "p".to_string(),
        connections: 4,
        total_size: 5,
        downloaded: 5,
        status: "Done".to_string(),
        completed_at: "1970-01-01 00:00:09".to_string(),
    }
    .into_summary();
    assert_eq!((s.id, s.chunks_total, s.total_size, s.downloaded), (8, 4, 5, 5));
    assert_eq!((s.started_at, s.ended_at, s.chunks_done), (None, None, 0));
}

#[test]
fn pruning_statements() {
    assert_eq!(prune_sql(30, &vec![]), None);
    assert_eq!(prune_count_sql(30, &vec![]), None);
    let statuses = vec!["Done".to_string(), "Failed".to_string()];
    assert_eq!(
        prune_sql(30, &statuses).unwrap(),
        "DELETE FROM job_history WHERE completed_at < datetime('now', '-30 days') AND (status = 'Done' OR status LIKE 'Failed%')"
    );
    assert_eq!(
        prune_count_sql(1, &vec!["Cancelled".to_string()]).unwrap(),
        "SELECT COUNT(*) FROM job_history WHERE completed_at < datetime('now', '-1 days') AND (status = 'Cancelled')"
    );
}

#[test]
fn counting_meets_what_deletion_removes() {
    let statuses = vec!["Done".to_string(), "Failed".to_string()];
    let delete = prune_sql(7, &statuses).unwrap();
    let count = prune_count_sql(7, &statuses).unwrap();
    assert_eq!(
        delete.strip_prefix("DELETE FROM job_history WHERE "),
        count.strip_prefix("SELECT COUNT(*) FROM job_history WHERE ")
    );
}

#[test]
fn the_database_lies_with_the_data() {
    assert_eq!(db_path(Some("/data".to_string())), "/data/shard/shard.db");
    assert_eq!(db_path(None), "./shard/shard.db");
    assert_eq!(db_url("/a/b.db"), "sqlite:///a/b.db?mode=rwc");
}

#[test]
fn settings_have_defaults() {
    let s = Settings::with_download_dir(None);
    assert_eq!((s.download_dir.as_str(), s.max_connections, s.speed_limit), (".", 4, 0));
    assert!(!s.prune_enabled);
    assert!(s.prune_statuses.is_empty());
    assert_eq!(Settings::with_download_dir(Some("/d".to_string())).download_dir, "/d");
}

#[test]
fn settings_lie_in_the_home_directory() {
    assert_eq!(config_path(Some("/h".to_string())), "/h/.config/shard/config.toml");
    assert_eq!(config_path(None), "./.config/shard/config.toml");
}
