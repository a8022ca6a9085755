use std::collections::HashMap;

use clickdown::alias::{
    delete_alias, get_alias_file_path_buf, print_aliases, run_alias, save_alias, AliasEntity,
    AliasType, ArgsDTO,
};

fn entity(name: &str, kind: AliasType, list_id: &str) -> AliasEntity {
    AliasEntity {
        alias_type: kind,
        name: name.to_string(),
        args: ArgsDTO { list_id: list_id.to_string(), ..Default::default() },
    }
}

#[test]
fn default_alias_is_an_empty_task_alias() {
    let a = AliasEntity::default();
    assert!(a.alias_type == AliasType::Task);
    assert_eq!(a.name, "");
    assert_eq!(a.args.list_id, "");
    assert_eq!(a.args.thread_id, "");
}

#[test]
fn save_numbers_aliases_from_one() {
    let mut m = HashMap::new();
    save_alias(&mut m, entity("first", AliasType::Task, "L1"));
    save_alias(&mut m, entity("second", AliasType::TaskDetails, "L2"));
    assert_eq!(m.len(), 2);
    assert_eq!(m[&1].name, "first");
    assert_eq!(m[&2].name, "second");
}

#[test]
fn save_replaces_alias_with_colliding_id() {
    // ids 2 and 3 left after deleting 1: the next id is 3 and replaces it
    let mut m = HashMap::new();
    save_alias(&mut m, entity("a", AliasType::Task, "1"));
    save_alias(&mut m, entity("b", AliasType::Task, "2"));
    save_alias(&mut m, entity("c", AliasType::Task, "3"));
    delete_alias(&mut m, 1);
    save_alias(&mut m, entity("d", AliasType::Task, "4"));
    assert_eq!(m.len(), 2);
    assert_eq!(m[&3].name, "d");
    assert_eq!(m[&2].name, "b");
}

#[test]
fn delete_undoes_save() {
    let mut m = HashMap::new();
    save_alias(&mut m, entity("a", AliasType::Task, "1"));
    save_alias(&mut m, entity("b", AliasType::Task, "2"));
    delete_alias(&mut m, 2);
    assert_eq!(m.len(), 1);
    assert!(m.contains_key(&1));
    delete_alias(&mut m, 42);
    assert_eq!(m.len(), 1);
}

#[test]
fn run_alias_restores_the_arguments() {
    let mut m = HashMap::new();
    let mut e = entity("mine", AliasType::Task, "L9");
    e.args.status = "open".to_string();
    e.args.assignee = "77".to_string();
    save_alias(&mut m, e);
    let args = run_alias(&m, 1).expect("alias 1");
    assert_eq!(args.list_id, "L9");
    assert_eq!(args.status, "open");
    assert_eq!(args.assignee, "77");
    assert_eq!(args.alias, "");
    assert!(args.add.is_none());
    assert!(run_alias(&m, 2).is_none());
}

#[test]
fn alias_listing_lines() {
    let mut m = HashMap::new();
    save_alias(&mut m, entity("sprint", AliasType::Task, "L1"));
    save_alias(&mut m, entity("bug", AliasType::TaskDetails, "L2"));
    let lines = print_aliases(&m);
    assert_eq!(lines.len(), 3);
    assert_eq!(lines[0], format!("{:<15} {:<15} {:<15}", "ID", "Type", "Name"));
    let mut rest: Vec<String> = lines[1..].to_vec();
    rest.sort();
    assert_eq!(rest[0], format!("{:<15} {:<15} {:<15}", 1, "task", "sprint"));
    assert_eq!(rest[1], format!("{:<15} {:<15} {:<15}", 2, "task_details", "bug"));
}

#[test]
fn alias_file_location() {
    assert_eq!(get_alias_file_path_buf("/home/u"), "/home/u/.config/clickdown/aliases.json");
    assert_eq!(get_alias_file_path_buf("/home/u/"), "/home/u/.config/clickdown/aliases.json");
    assert_eq!(get_alias_file_path_buf(""), ".config/clickdown/aliases.json");
    let mut p = std::path::PathBuf::from("/home/u");
    p.push(".config/clickdown/aliases.json");
    assert_eq!(p.to_str().unwrap(), get_alias_file_path_buf("/home/u"));
}
