use clickdown::clickup::{
    comment_payload, get_request_header, get_tasks_url, is_assigned, member_choices, member_id,
    print_comment, print_task_details, rename_payload, status_names, status_payload, Comment,
    Comments, Endpoint, Folder, List, Status, Task, TaskListsFilters, User,
};
use clickdown::token_handler::{clickdown_dir_path, token_read_path, token_save_path, token_to_save};
use clickdown::utils::{is_color_sliceable, is_readable_date, render_task_table, unix_date_to_readable};

fn user(id: usize, name: &str) -> User {
    User { id, username: name.to_string(), color: "#ff0000".to_string() }
}

fn task(name: &str, status: &str, color: &str) -> Task {
    Task {
        id: "t1".to_string(),
        name: name.to_string(),
        url: "https://app.clickup.com/t/t1".to_string(),
        status: Status { id: "s1".to_string(), status: status.to_string(), color: color.to_string() },
        folder: Folder { id: "f1".to_string(), name: "F".to_string(), task_count: None, statuses: None },
        list: List { id: "l1".to_string(), name: "L".to_string(), task_count: None },
        date_created: "1700000000000".to_string(),
        assignees: vec![user(7, "ann"), user(8, "bob")],
    }
}

fn comment(id: &str, text: &str) -> Comment {
    Comment {
        id: id.to_string(),
        comment_text: text.to_string(),
        user: user(7, "ann"),
        date: "947638923004".to_string(),
        reply_count: 2,
    }
}

#[test]
fn readable_dates() {
    assert_eq!(unix_date_to_readable("947638923004"), "2000-01-12");
    assert_eq!(unix_date_to_readable("0"), "1970-01-01");
    assert_eq!(unix_date_to_readable("-1"), "1969-12-31");
    assert_eq!(unix_date_to_readable("1700000000000"), "2023-11-14");
    assert!(is_readable_date("8210266876799999"));
    assert!(!is_readable_date("8210266876800000"));
    assert!(is_readable_date("-8334601228800000"));
    assert!(!is_readable_date("-8334601228800001"));
    assert!(!is_readable_date("yesterday"));
}

#[test]
fn date_range_matches_chrono() {
    for ms in [8210266876799999i64, 8210266876800000, -8334601228800000, -8334601228800001] {
        assert_eq!(
            is_readable_date(&ms.to_string()),
            chrono::DateTime::from_timestamp_millis(ms).is_some(),
            "{}",
            ms
        );
    }
}

#[test]
fn endpoint_urls() {
    assert_eq!(Endpoint::Teams.url(), "https://api.clickup.com/api/v2/team");
    assert_eq!(Endpoint::Spaces("9".to_string()).url(), "https://api.clickup.com/api/v2/team/9/space");
    assert_eq!(Endpoint::Folders("s".to_string()).url(), "https://api.clickup.com/api/v2/space/s/folder");
    assert_eq!(Endpoint::Lists("f".to_string()).url(), "https://api.clickup.com/api/v2/folder/f/list");
    assert_eq!(Endpoint::Tasks("l".to_string()).url(), "https://api.clickup.com/api/v2/list/l/task");
    assert_eq!(Endpoint::Task("t".to_string()).url(), "https://api.clickup.com/api/v2/task/t");
    assert_eq!(Endpoint::TaskComments("t".to_string()).url(), "https://api.clickup.com/api/v2/task/t/comment");
    assert_eq!(Endpoint::CommentReplies("c".to_string()).url(), "https://api.clickup.com/api/v2/comment/c/reply");
    assert_eq!(Endpoint::Folder("f".to_string()).url(), "https://api.clickup.com/api/v2/folder/f");
    assert_eq!(Endpoint::ListMembers("l".to_string()).url(), "https://api.clickup.com/api/v2/list/l/member");
}

#[test]
fn task_listing_url_keeps_last_assignee() {
    let none = TaskListsFilters { assignees: vec![], statuses: vec![] };
    assert_eq!(get_tasks_url("abc", &none).unwrap(), "https://api.clickup.com/api/v2/list/abc/task");
    let two = TaskListsFilters { assignees: vec![1, 2], statuses: vec![] };
    assert_eq!(
        get_tasks_url("abc", &two).unwrap(),
        "https://api.clickup.com/api/v2/list/abc/task?assignees[]=2"
    );
    let both = TaskListsFilters { assignees: vec![5], statuses: vec!["to do".to_string()] };
    assert_eq!(
        get_tasks_url("abc", &both).unwrap(),
        "https://api.clickup.com/api/v2/list/abc/task?assignees[]=5&statuses[]=to%20do"
    );
}

#[test]
fn authorization_header_values() {
    assert_eq!(get_request_header("pk_123_ABC").unwrap(), "pk_123_ABC");
    assert_eq!(get_request_header("").unwrap(), "");
    assert_eq!(get_request_header("tab\tok").unwrap(), "tab\tok");
    assert_eq!(get_request_header("é").unwrap(), "é");
    assert_eq!(get_request_header("line\nbreak").unwrap_err().position, 4);
    assert_eq!(get_request_header("del\u{7f}").unwrap_err().position, 3);
    for token in ["pk_1", "a\rb", "\u{1}", "ü\u{7f}", "x y"] {
        assert_eq!(
            get_request_header(token).is_ok(),
            reqwest::header::HeaderValue::from_str(token).is_ok(),
            "{:?}",
            token
        );
    }
}

#[test]
fn payloads() {
    let t = task("Fix bug", "open", "#00ff00");
    let p = rename_payload(&t, "New title".to_string());
    assert_eq!(p.status, "open");
    assert_eq!(p.name, "New title");
    let q = status_payload(&t, "closed");
    assert_eq!(q.status, "closed");
    assert_eq!(q.name, "Fix bug");
    let c = comment_payload("hello".to_string());
    assert_eq!(c.comment_text, "hello");
    assert!(!c.notify_all);
}

#[test]
fn folder_status_names() {
    let mut f = Folder { id: "f".to_string(), name: "F".to_string(), task_count: None, statuses: None };
    assert!(status_names(&f).is_empty());
    f.statuses = Some(vec![
        Status { id: "1".to_string(), status: "open".to_string(), color: "#000000".to_string() },
        Status { id: "2".to_string(), status: "done".to_string(), color: "#ffffff".to_string() },
    ]);
    assert_eq!(status_names(&f), vec!["open".to_string(), "done".to_string()]);
}

#[test]
fn assignees_and_members() {
    let t = task("x", "open", "#000000");
    assert!(is_assigned(&t, "ann"));
    assert!(!is_assigned(&t, "carl"));
    let members = vec![user(1, "ann"), user(2, "bob"), user(3, "ann")];
    let choices = member_choices(&members);
    assert_eq!(choices.len(), 2);
    assert_eq!(choices[0].username, "ann");
    assert_eq!(choices[0].id, 3);
    assert_eq!(choices[1].username, "bob");
    assert_eq!(member_id(&choices, "ann"), Some(3));
    assert_eq!(member_id(&choices, "bob"), Some(2));
    assert_eq!(member_id(&choices, "zed"), None);
}

#[test]
fn comment_text() {
    let v = print_comment(&comment("c9", "looks good"));
    assert_eq!(v.author, "ann");
    assert_eq!(v.author_color, "#ff0000");
    assert_eq!(v.heading, " (c9) 2 replies");
    assert_eq!(v.date_line, Some("Date: 2000-01-12".to_string()));
    let mut bad = comment("c1", "x");
    bad.date = "soon".to_string();
    let w = print_comment(&bad);
    assert_eq!(w.heading, " (c1) 2 replies");
    assert!(w.date_line.is_none());
    assert_eq!(v.text, "looks good");
}

#[test]
fn task_details_text() {
    let t = task("Fix bug", "in progress", "#7b68ee");
    let cs = Comments { comments: vec![comment("a", "one"), comment("b", "two")] };
    let v = print_task_details(&t, &cs);
    assert_eq!(v.title_line, "Title: Fix bug (t1)");
    assert_eq!(v.url_line, "URL: https://app.clickup.com/t/t1");
    assert_eq!(v.created_line, Some("Created on: 2023-11-14".to_string()));
    assert_eq!(v.status, "IN PROGRESS");
    assert_eq!(v.status_color, "#7b68ee");
    assert_eq!(v.comments.len(), 2);
    assert_eq!(v.comments[1].text, "two");
    let empty = print_task_details(&t, &Comments { comments: vec![] });
    assert!(empty.comments.is_empty());
}

#[test]
fn task_table_rows() {
    let tasks = vec![task("Fix bug", "in progress", "#7b68ee"), task("Other", "", "##+a0Fz9")];
    let table = render_task_table(&tasks, 5);
    assert_eq!(table.rows.len(), 2);
    let r = &table.rows[0];
    assert_eq!(r.status_mark, 'I');
    assert_eq!((r.red, r.green, r.blue), (0x7b, 0x68, 0xee));
    assert_eq!(r.id, "t1");
    assert_eq!(r.created, "2023-11-14");
    assert_eq!(r.assignees, "ann 7,bob 8");
    assert_eq!(r.name, "Fix bug");
    let s = &table.rows[1];
    assert_eq!(s.status_mark, '-');
    assert_eq!((s.red, s.green, s.blue), (10, 15, 0));
    assert_eq!(table.footer, "Showing 2 of 5.");
}

#[test]
fn token_locations() {
    assert_eq!(clickdown_dir_path("/home/u"), "/home/u/.config/clickdown");
    assert_eq!(token_read_path(&clickdown_dir_path("/home/u")), "/home/u/.config/clickdown/token");
    assert_eq!(token_save_path("/home/u"), "/home/u/.config/clickdown/token");
    assert_eq!(token_read_path(&clickdown_dir_path("/h/")), token_save_path("/h/"));
    assert_eq!(token_read_path(&clickdown_dir_path("")), token_save_path(""));
}

#[test]
fn colour_channels_check() {
    assert!(is_color_sliceable("#7b68ee"));
    assert!(is_color_sliceable("##abcdefgh"));
    assert!(!is_color_sliceable("#abcde"));
    assert!(!is_color_sliceable(""));
    assert!(is_color_sliceable("é1234"));
    assert!(!is_color_sliceable("aé234"));
    assert!(!is_color_sliceable("1234aé"));
    for color in ["#7b68ee", "#abc", "aé234", "1234é", "1234aé", "ab€x", "######", "#12345é"] {
        let hex = color.trim_start_matches('#');
        let sliceable = hex.get(0..2).is_some() && hex.get(2..4).is_some() && hex.get(4..6).is_some();
        assert_eq!(is_color_sliceable(color), sliceable, "{:?}", color);
    }
}

#[test]
fn dates_read_in_order() {
    let stamps = ["0", "86399999", "86400000", "947638923004", "1700000000000", "253402300799999"];
    let dates: Vec<String> = stamps.iter().map(|s| unix_date_to_readable(s)).collect();
    for d in &dates {
        assert_eq!(d.len(), 10);
    }
    for w in dates.windows(2) {
        assert!(w[0] <= w[1]);
    }
    assert_eq!(dates[0], dates[1]);
    assert!(dates[1] < dates[2]);
    assert_eq!(dates[5], "9999-12-31");
}

#[test]
fn years_outside_four_digits_carry_a_sign() {
    assert_eq!(unix_date_to_readable("-8334601228800000"), "-262143-01-01");
    assert_eq!(unix_date_to_readable("8210266876799999"), "+262142-12-31");
    assert_eq!(unix_date_to_readable("253402300800000"), "+10000-01-01");
    assert_eq!(unix_date_to_readable("-62135596800001"), "0000-12-31");
    assert_eq!(unix_date_to_readable("-62167219200001"), "-0001-12-31");
    assert_eq!(unix_date_to_readable("951782400000"), "2000-02-29");
}

#[test]
fn empty_status_is_marked_with_a_dash() {
    let table = render_task_table(&vec![task("a", "", "#102030"), task("b", "open", "#102030")], 2);
    assert_eq!(table.rows[0].status_mark, '-');
    assert_eq!(table.rows[1].status_mark, 'O');
    assert_eq!((table.rows[0].red, table.rows[0].green, table.rows[0].blue), (16, 32, 48));
}

#[test]
fn test_skip_empty_token() {
    assert_eq!(token_to_save(""), None);
    assert_eq!(token_to_save("token"), Some("token".to_string()));
    let res = token_to_save("token").unwrap_or_default();
    assert_eq!(res, "token");
}
