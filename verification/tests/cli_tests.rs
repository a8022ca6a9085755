use clickdown::alias::AliasType;
use clickdown::cli::{
    assign_step, comment_endpoint, confirm_comment, AssignStep, CommentStep, filter_tasks_by_search, folders_table, lists_table, list_tasks_args, plan_delete, plan_get, task_listing,
    plan_main, spaces_table, task_details_alias, task_filters, task_list_alias, workspaces_table,
    Add, Args, Delete, DeleteAction, Domain, GetAction, MainAction,
};
use clickdown::clickup::{
    member_choices, Endpoint, User, AuthorizedWorkspaces, Folder, Folders, List, Lists, Space, Spaces, Status, Task, Team,
};

fn task(name: &str) -> Task {
    Task {
        id: name.to_string(),
        name: name.to_string(),
        url: String::new(),
        status: Status { id: "s".to_string(), status: "open".to_string(), color: "#000000".to_string() },
        folder: Folder { id: "f".to_string(), name: "F".to_string(), task_count: None, statuses: None },
        list: List { id: "l".to_string(), name: "L".to_string(), task_count: None },
        date_created: "0".to_string(),
        assignees: vec![],
    }
}

fn names(tasks: &[Task]) -> Vec<String> {
    tasks.iter().map(|t| t.name.clone()).collect()
}

#[test]
fn main_action_priority() {
    let mut a = Args::default();
    assert!(plan_main(&a) == MainAction::Get);
    a.run = "3".to_string();
    assert!(plan_main(&a) == MainAction::RunAlias(3));
    a.run = "x".to_string();
    assert!(plan_main(&a) == MainAction::Get);
    a.list_alias = true;
    assert!(plan_main(&a) == MainAction::ListAliases);
    a.modify = Some(Domain::Status);
    assert!(plan_main(&a) == MainAction::Modify);
    a.delete = Some(Delete::Alias);
    assert!(plan_main(&a) == MainAction::Delete);
    a.add = Some(Add::Task);
    assert!(plan_main(&a) == MainAction::Add);
}

#[test]
fn get_action_priority() {
    let mut a = Args::default();
    assert!(plan_get(&a) == GetAction::Workspaces);
    a.task_id = "t".to_string();
    assert!(plan_get(&a) == GetAction::TaskDetails);
    a.space_id = "s".to_string();
    assert!(plan_get(&a) == GetAction::Folders);
    a.list_id = "l".to_string();
    assert!(plan_get(&a) == GetAction::Tasks);
    a.folder_id = "f".to_string();
    assert!(plan_get(&a) == GetAction::Lists);
    a.team_id = "w".to_string();
    assert!(plan_get(&a) == GetAction::Spaces);
    a.thread_id = "c".to_string();
    assert!(plan_get(&a) == GetAction::Thread);
}

#[test]
fn delete_action() {
    let mut a = Args::default();
    assert!(plan_delete(&a) == DeleteAction::Nothing);
    a.delete = Some(Delete::Alias);
    a.alias_id = "12".to_string();
    assert!(plan_delete(&a) == DeleteAction::DeleteAlias(12));
    a.alias_id = "twelve".to_string();
    assert!(plan_delete(&a) == DeleteAction::InvalidAliasId);
}

#[test]
fn filters_from_arguments() {
    let mut a = Args::default();
    let f = task_filters(&a).unwrap();
    assert!(f.assignees.is_empty());
    assert!(f.statuses.is_empty());
    a.assignee = "42".to_string();
    a.status = "open".to_string();
    let f = task_filters(&a).unwrap();
    assert_eq!(f.assignees, vec![42]);
    assert_eq!(f.statuses, vec!["open".to_string()]);
    a.assignee = "bob".to_string();
    assert!(task_filters(&a).is_none());
}

#[test]
fn search_filters_by_lowercase_name() {
    let tasks = vec![task("Fix BUG in login"), task("Feature"), task("debug output")];
    let kept = filter_tasks_by_search(tasks, "Bug");
    assert_eq!(names(&kept), vec!["Fix BUG in login".to_string(), "debug output".to_string()]);
    let all = filter_tasks_by_search(vec![task("a"), task("b")], "");
    assert_eq!(names(&all), vec!["a".to_string(), "b".to_string()]);
    let none = filter_tasks_by_search(vec![task("a")], "zzz");
    assert!(none.is_empty());
}

#[test]
fn search_twice_changes_nothing() {
    let tasks = vec![task("alpha"), task("beta"), task("Alphabet")];
    let once = filter_tasks_by_search(tasks, "ALPHA");
    let once_names = names(&once);
    let twice = filter_tasks_by_search(once, "ALPHA");
    assert_eq!(names(&twice), once_names);
    assert!(once_names.len() <= 3);
}

#[test]
fn saved_aliases_from_arguments() {
    let mut a = Args::default();
    a.alias = "mine".to_string();
    a.list_id = "L".to_string();
    a.status = "open".to_string();
    a.assignee = "3".to_string();
    a.task_id = "T".to_string();
    let l = task_list_alias(&a);
    assert!(l.alias_type == AliasType::Task);
    assert_eq!(l.name, "mine");
    assert_eq!(l.args.list_id, "L");
    assert_eq!(l.args.status, "open");
    assert_eq!(l.args.assignee, "3");
    assert_eq!(l.args.task_id, "");
    let d = task_details_alias(&a);
    assert!(d.alias_type == AliasType::TaskDetails);
    assert_eq!(d.args.task_id, "T");
    assert_eq!(d.args.list_id, "");
}

#[test]
fn after_adding_a_task_its_list_is_shown() {
    let a = list_tasks_args("L7");
    assert_eq!(a.list_id, "L7");
    assert!(plan_get(&a) == GetAction::Tasks);
    assert!(plan_main(&a) == MainAction::Get);
}

#[test]
fn tables() {
    let w = AuthorizedWorkspaces { teams: vec![Team { id: "1".to_string(), name: "Home".to_string() }] };
    let t = workspaces_table(&w);
    assert_eq!(t.header, vec!["ID".to_string(), "Name".to_string()]);
    assert_eq!(t.rows, vec![vec!["1".to_string(), "Home".to_string()]]);
    let s = Spaces { spaces: vec![Space { id: "2".to_string(), name: "Dev".to_string(), statuses: vec![] }] };
    assert_eq!(spaces_table(&s).rows, vec![vec!["2".to_string(), "Dev".to_string()]]);
    let l = Lists {
        lists: vec![
            List { id: "3".to_string(), name: "Todo".to_string(), task_count: Some(12) },
            List { id: "4".to_string(), name: "Done".to_string(), task_count: None },
        ],
    };
    let lt = lists_table(&l);
    assert_eq!(lt.header, vec!["ID".to_string(), "Name".to_string(), "Task count".to_string()]);
    assert_eq!(lt.rows[0], vec!["3".to_string(), "Todo".to_string(), "12".to_string()]);
    assert_eq!(lt.rows[1], vec!["4".to_string(), "Done".to_string(), "0".to_string()]);
    let f = Folders {
        folders: vec![
            Folder { id: "5".to_string(), name: "A".to_string(), task_count: Some("7".to_string()), statuses: None },
            Folder { id: "6".to_string(), name: "B".to_string(), task_count: None, statuses: None },
        ],
    };
    let ft = folders_table(&f);
    assert_eq!(ft.rows[0], vec!["5".to_string(), "A".to_string(), "7".to_string()]);
    assert_eq!(ft.rows[1], vec!["6".to_string(), "B".to_string(), "".to_string()]);
}

#[test]
fn comment_flow_steps() {
    match confirm_comment("hi".to_string(), Some(true)) {
        CommentStep::Send(p) => {
            assert_eq!(p.comment_text, "hi");
            assert!(!p.notify_all);
        }
        _ => panic!("expected a send"),
    }
    assert!(matches!(confirm_comment("hi".to_string(), Some(false)), CommentStep::Cancelled));
    assert!(matches!(confirm_comment("hi".to_string(), None), CommentStep::Failed));

    let mut a = Args::default();
    a.task_id = "T".to_string();
    a.thread_id = "C".to_string();
    assert!(comment_endpoint(&a).is_none());
    a.modify = Some(Domain::Comment);
    assert_eq!(comment_endpoint(&a).unwrap().url(), "https://api.clickup.com/api/v2/task/T/comment");
    a.modify = Some(Domain::Thread);
    assert_eq!(comment_endpoint(&a).unwrap().url(), "https://api.clickup.com/api/v2/comment/C/reply");
    assert!(matches!(comment_endpoint(&a), Some(Endpoint::CommentReplies(_))));
    a.modify = Some(Domain::Name);
    assert!(comment_endpoint(&a).is_none());
}

#[test]
fn assign_flow_steps() {
    let mut t = task("x");
    t.assignees = vec![User { id: 1, username: "ann".to_string(), color: String::new() }];
    let members = vec![
        User { id: 1, username: "ann".to_string(), color: String::new() },
        User { id: 2, username: "bob".to_string(), color: String::new() },
    ];
    let choices = member_choices(&members);
    assert!(assign_step(&t, &choices, "ann") == AssignStep::AlreadyAssigned);
    assert!(assign_step(&t, &choices, "bob") == AssignStep::Assign(2));
    assert!(assign_step(&t, &choices, "zed") == AssignStep::NotAMember);
}

#[test]
fn listing_counts_tasks_before_the_search() {
    let tasks = vec![task("Fix BUG in login"), task("Feature"), task("debug output")];
    let listing = task_listing(tasks, "bug");
    assert_eq!(listing.total, 3);
    assert_eq!(names(&listing.tasks), vec!["Fix BUG in login".to_string(), "debug output".to_string()]);
    let listing = task_listing(vec![task("a"), task("b")], "");
    assert_eq!(listing.total, 2);
    assert_eq!(listing.tasks.len(), 2);
    let listing = task_listing(Vec::new(), "x");
    assert_eq!(listing.total, 0);
    assert!(listing.tasks.is_empty());
}
