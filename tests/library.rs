use sqlv::error::Error;
use sqlv::model::{AccessLogMac, UserMac, UserPatch};
use sqlv::pagination::{paginate, try_paginate, Pagination};
use sqlv::query::{
    count_rows, list_access_logs, list_users, search_access_logs, search_users,
    substring_pattern, Bind, Table,
};
use sqlv::registry::Registry;
use sqlv::rows::{
    project_access_log, project_access_logs, project_user, project_user_with, project_users,
    AccessLog, Cell, CurrentState, Timestamp, User,
};

fn int_bind(b: &Bind) -> i64 {
    match b {
        Bind::Int(n) => *n,
        Bind::Text(t) => panic!("expected an integer, got {t}"),
    }
}

fn text_bind(b: &Bind) -> String {
    match b {
        Bind::Text(t) => t.clone(),
        Bind::Int(n) => panic!("expected a text, got {n}"),
    }
}

fn text_cell(c: &Cell) -> String {
    match c {
        Cell::Text(t) => t.clone(),
        other => panic!("expected a text, got {other:?}"),
    }
}

fn user(id: i64, name: &str, rf_id: &str) -> User {
    User {
        id,
        full_name: name.to_string(),
        rf_id: rf_id.to_string(),
        created_at: Timestamp { secs: 0, nanos: 0 },
        updated_at: Timestamp { secs: 86_400, nanos: 500_000_000 },
    }
}

#[test]
fn pagination_of_twenty_five_rows_third_page() {
    let p = paginate(25, 10, 3);
    assert_eq!(
        p,
        Pagination { offset: 20, total_pages: 2, current_page: 3, page: 3, count: 25, limit: 10 }
    );
    let s = list_users(10, p.offset as i32);
    assert_eq!(int_bind(&s.binds[0]), 10);
    assert_eq!(int_bind(&s.binds[1]), 20);
}

#[test]
fn pagination_offset_and_floor_pages() {
    let p = paginate(95, 10, 5);
    assert_eq!(p.offset, 40);
    assert_eq!(p.total_pages, 9);
    assert_eq!(p.current_page, 5);
    let p = paginate(9, 10, 1);
    assert_eq!(p.offset, 0);
    assert_eq!(p.total_pages, 0);
    let p = paginate(0, 3, 2);
    assert_eq!(p.offset, 3);
    assert_eq!(p.total_pages, 0);
}

#[test]
fn pagination_nonpositive_page_is_first() {
    let p = paginate(7, 5, 0);
    assert_eq!(p.current_page, 1);
    assert_eq!(p.offset, 0);
    assert_eq!(p.page, 0);
    let p = paginate(7, 5, -3);
    assert_eq!(p.current_page, 1);
    assert_eq!(p.offset, 0);
    assert_eq!(p.page, -3);
    assert_eq!(p.total_pages, 1);
}

#[test]
fn try_paginate_rejects_bad_input() {
    assert_eq!(try_paginate(25, 0, 1), None);
    assert_eq!(try_paginate(25, -4, 1), None);
    assert_eq!(try_paginate(-1, 10, 1), None);
    assert_eq!(try_paginate(0, i64::MAX, 3), None);
    assert_eq!(try_paginate(0, i64::MAX, 2).map(|p| p.offset), Some(i64::MAX));
    assert_eq!(try_paginate(25, 10, 3), Some(paginate(25, 10, 3)));
}

#[test]
fn pagination_entries_in_order() {
    let e = paginate(25, 10, 3).entries();
    let keys: Vec<&str> = e.iter().map(|(k, _)| k.as_str()).collect();
    assert_eq!(keys, vec!["offset", "totalPages", "currentPage", "page", "count", "limit"]);
    let values: Vec<i64> = e.iter().map(|(_, v)| *v).collect();
    assert_eq!(values, vec![20, 2, 3, 3, 25, 10]);
}

#[test]
fn resolve_unregistered_name_is_not_loaded() {
    let r: Registry<u32> = Registry::new();
    match r.resolve(&"rfid".to_string()) {
        Err(Error::DatabaseNotLoaded(n)) => assert_eq!(n, "rfid"),
        other => panic!("unexpected {other:?}"),
    }
    let mut r = r;
    r.load("other".to_string(), 1);
    assert!(matches!(r.resolve(&"rfid".to_string()), Err(Error::DatabaseNotLoaded(_))));
    assert!(!r.is_loaded(&"rfid".to_string()));
}

#[test]
fn load_twice_keeps_the_second_pool() {
    let mut r: Registry<u32> = Registry::new();
    r.load("rfid".to_string(), 1);
    r.load("audit".to_string(), 7);
    r.load("rfid".to_string(), 2);
    assert_eq!(*r.resolve(&"rfid".to_string()).unwrap(), 2);
    assert_eq!(*r.resolve(&"audit".to_string()).unwrap(), 7);
    assert!(r.is_loaded(&"rfid".to_string()));
}

#[test]
fn error_messages() {
    assert_eq!(Error::DatabaseNotLoaded("rfid".to_string()).message(), "database rfid not loaded");
    assert_eq!(Error::Sql("connection refused".to_string()).message(), "connection refused");
}

#[test]
fn search_binds_the_query_as_a_substring_pattern() {
    let s = search_users("42");
    assert_eq!(s.binds.len(), 1);
    assert_eq!(text_bind(&s.binds[0]), "%42%");
    assert!(!s.sql.contains("42"));
    assert!(s.sql.contains("LIKE $1"));
    let s = search_access_logs("RF42A");
    assert_eq!(text_bind(&s.binds[0]), "%RF42A%");
    assert!(s.sql.contains("INNER JOIN users"));
}

#[test]
fn substring_pattern_escapes_wildcards() {
    assert_eq!(substring_pattern(""), "%%");
    assert_eq!(substring_pattern("a%b_c\\d"), "%a\\%b\\_c\\\\d%");
    assert_eq!(substring_pattern("' OR 1=1 --"), "%' OR 1=1 --%");
    assert_eq!(substring_pattern("Zoë"), "%Zoë%");
}

#[test]
fn listing_statements_order_by_id_and_bind_paging() {
    let s = list_users(10, 20);
    assert!(s.sql.ends_with("ORDER BY id ASC LIMIT $1 OFFSET $2"));
    let s = list_access_logs(5, 15);
    assert!(s.sql.contains("INNER JOIN users AS u ON m.rf_id = u.rf_id"));
    assert!(s.sql.ends_with("ORDER BY m.id ASC LIMIT $1 OFFSET $2"));
    assert_eq!(int_bind(&s.binds[0]), 5);
    assert_eq!(int_bind(&s.binds[1]), 15);
    assert_eq!(count_rows(Table::Users).sql, "SELECT COUNT(id) FROM users");
    assert_eq!(count_rows(Table::AccessLogs).sql, "SELECT COUNT(id) FROM access_logs");
    assert!(count_rows(Table::Users).binds.is_empty());
}

#[test]
fn table_names_are_an_allow_list() {
    assert_eq!(Table::from_name("users"), Some(Table::Users));
    assert_eq!(Table::from_name("access_logs"), Some(Table::AccessLogs));
    assert_eq!(Table::from_name("users; DROP TABLE users"), None);
    assert_eq!(Table::from_name("Users"), None);
    assert_eq!(Table::from_name(""), None);
}

#[test]
fn model_statements() {
    let s = UserMac::list();
    assert_eq!(s.sql, "SELECT id, full_name, rf_id FROM users ORDER BY id ASC");
    assert!(s.binds.is_empty());
    let s = AccessLogMac::list();
    assert_eq!(int_bind(&s.binds[0]), 10);
    assert_eq!(int_bind(&s.binds[1]), 0);
    let p = UserPatch::default();
    assert!(p.full_name.is_none() && p.rf_id.is_none());
}

#[test]
fn current_state_labels() {
    assert_eq!(CurrentState::IN.label(), "IN");
    assert_eq!(CurrentState::OUT.label(), "OUT");
}

#[test]
fn user_projection_formats_timestamps() {
    let rec = project_user(&user(42, "Ada", "RF42A"));
    let keys: Vec<&str> = rec.iter().map(|(k, _)| k.as_str()).collect();
    assert_eq!(keys, vec!["id", "full_name", "rf_id", "created_at", "updated_at"]);
    assert!(matches!(rec[0].1, Cell::Number(42)));
    assert_eq!(text_cell(&rec[1].1), "Ada");
    assert_eq!(text_cell(&rec[2].1), "RF42A");
    assert_eq!(text_cell(&rec[3].1), "1970-01-01 00:00:00 UTC");
    assert_eq!(text_cell(&rec[4].1), "1970-01-02 00:00:00.500 UTC");
}

#[test]
fn unrepresentable_timestamp_projects_to_null() {
    let mut u = user(1, "Ada", "RF1");
    u.created_at = Timestamp { secs: i64::MAX, nanos: 0 };
    u.updated_at = Timestamp { secs: 0, nanos: 2_000_000_000 };
    let rec = project_user(&u);
    assert!(matches!(rec[3].1, Cell::Null));
    assert!(matches!(rec[4].1, Cell::Null));
    let rec = project_user_with(&u, Some("then".to_string()), None);
    assert_eq!(text_cell(&rec[3].1), "then");
    assert!(matches!(rec[4].1, Cell::Null));
}

#[test]
fn access_log_projection() {
    let a = AccessLog {
        id: 3,
        rf_id: "RF99".to_string(),
        full_name: "Bo".to_string(),
        current_state: CurrentState::OUT,
        created_at: Timestamp { secs: 1_600_000_000, nanos: 0 },
        updated_at: Timestamp { secs: 1_600_000_000, nanos: 0 },
    };
    let rec = project_access_log(&a);
    let keys: Vec<&str> = rec.iter().map(|(k, _)| k.as_str()).collect();
    assert_eq!(keys, vec!["id", "full_name", "current_state", "rf_id", "created_at", "updated_at"]);
    assert_eq!(text_cell(&rec[2].1), "OUT");
    assert_eq!(text_cell(&rec[3].1), "RF99");
    assert_eq!(text_cell(&rec[4].1), "2020-09-13 12:26:40 UTC");
    assert_eq!(project_access_logs(&vec![a.clone(), a]).len(), 2);
}

#[test]
fn projected_lists_keep_order_and_empty_stays_empty() {
    assert!(project_users(&Vec::new()).is_empty());
    assert!(project_access_logs(&Vec::new()).is_empty());
    let recs = project_users(&vec![user(1, "A", "RF1"), user(2, "B", "RF2"), user(5, "C", "RF5")]);
    let ids: Vec<i64> = recs
        .iter()
        .map(|r| match r[0].1 {
            Cell::Number(n) => n,
            _ => panic!("id is a number"),
        })
        .collect();
    assert_eq!(ids, vec![1, 2, 5]);
}
