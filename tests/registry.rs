use switch::command::{export_line, remove, resolve, ApplyError, RemoveOutcome, SetOutcome};
use switch::command;
use switch::opt::SwitchCommand;
use switch::store::{plan_load, LoadPlan};
use switch::switch::{SwitchCategory, SwitchRegistry, SwitchVariable};

#[test]
fn add_then_get_returns_value() {
    let mut c = SwitchCategory::new("net");
    assert!(c.add_variable("proxy", "http://x"));
    assert_eq!(c.get_variable("proxy").unwrap().value, "http://x");
    assert!(!c.add_variable("proxy", "http://y"));
    assert_eq!(c.get_variable("proxy").unwrap().value, "http://x");
    assert_eq!(c.variables.len(), 1);
}

#[test]
fn get_variable_is_case_sensitive() {
    let mut c = SwitchCategory::new("net");
    c.add_variable("Proxy", "a");
    assert!(c.get_variable("proxy").is_none());
    assert!(c.add_variable("proxy", "b"));
    assert_eq!(c.get_variable("Proxy").unwrap().value, "a");
    assert_eq!(c.get_variable("proxy").unwrap().value, "b");
}

#[test]
fn remove_variable_keeps_order_of_others() {
    let mut c = SwitchCategory::new("c");
    c.add_variable("a", "1");
    c.add_variable("b", "2");
    c.add_variable("d", "3");
    assert!(c.remove_variable("b"));
    assert!(!c.remove_variable("b"));
    let keys: Vec<&str> = c.variables.iter().map(|v| v.key.as_str()).collect();
    assert_eq!(keys, vec!["a", "d"]);
}

#[test]
fn variable_new_keeps_key_and_value() {
    let v = SwitchVariable::new("k", "v");
    assert_eq!(v.key, "k");
    assert_eq!(v.value, "v");
}

#[test]
fn remove_category_absent_and_present() {
    let mut r = SwitchRegistry::new();
    r.add_category(SwitchCategory::new("a"));
    let mut b = SwitchCategory::new("b");
    b.add_variable("x", "1");
    r.add_category(b);
    r.add_category(SwitchCategory::new("c"));
    assert!(!r.remove_category("zz"));
    assert_eq!(r.categories.len(), 3);
    assert!(r.remove_category("a"));
    let names: Vec<&str> = r.categories.iter().map(|c| c.name.as_str()).collect();
    assert_eq!(names, vec!["b", "c"]);
    assert_eq!(r.categories[0].variables[0].value, "1");
}

#[test]
fn get_category_first_match() {
    let mut r = SwitchRegistry::new();
    assert!(r.get_category("a").is_none());
    let mut first = SwitchCategory::new("a");
    first.add_variable("k", "first");
    r.add_category(first);
    let mut second = SwitchCategory::new("a");
    second.add_variable("k", "second");
    r.add_category(second);
    let c = r.get_category("a").unwrap();
    assert_eq!(c.get_variable("k").unwrap().value, "first");
    assert_eq!(r.category_index("a"), Some(0));
}

#[test]
fn load_plan_missing_file_then_empty() {
    assert_eq!(plan_load(false, 0), LoadPlan::CreateEmpty);
    assert_eq!(plan_load(true, 0), LoadPlan::Empty);
}

#[test]
fn load_plan_zero_bytes_is_empty() {
    assert_eq!(plan_load(true, 0), LoadPlan::Empty);
    assert_eq!(plan_load(true, 12), LoadPlan::Parse);
}

#[test]
fn end_to_end_add_list_remove() {
    let mut r = SwitchRegistry::new();
    assert_eq!(command::set(&mut r, "net", "proxy", "http://x"), SetOutcome::CategoryCreated);
    let listed = r.render();
    assert!(listed.contains("Category: net"));
    assert_eq!(
        listed,
        "┌─ Category: net\n| \n└─ proxy\n       └─ http://x\n"
    );
    assert_eq!(remove(&mut r, "net", Some("proxy")), RemoveOutcome::VariableRemoved);
    assert_eq!(r.categories.len(), 1);
    assert!(r.categories[0].variables.is_empty());
    assert_eq!(remove(&mut r, "net", None), RemoveOutcome::CategoryRemoved);
    assert!(r.categories.is_empty());
}

#[test]
fn render_two_variables_and_two_categories() {
    let mut r = SwitchRegistry::new();
    command::set(&mut r, "a", "k1", "v1");
    command::set(&mut r, "a", "key2", "v2");
    command::set(&mut r, "b", "x", "y");
    assert_eq!(
        r.categories[0].render(),
        "┌─ Category: a\n| \n├─ k1\n|   └─ v1\n└─ key2\n      └─ v2\n"
    );
    assert_eq!(
        r.render(),
        format!("{}\n{}", r.categories[0].render(), r.categories[1].render())
    );
    assert_eq!(SwitchRegistry::new().render(), "");
}

#[test]
fn set_outcomes() {
    let mut r = SwitchRegistry::new();
    assert_eq!(command::set(&mut r, "a", "k", "1"), SetOutcome::CategoryCreated);
    assert_eq!(command::set(&mut r, "a", "j", "2"), SetOutcome::Added);
    assert_eq!(command::set(&mut r, "a", "k", "3"), SetOutcome::AlreadyExists);
    assert_eq!(r.categories.len(), 1);
    assert_eq!(r.categories[0].get_variable("k").unwrap().value, "1");
    assert_eq!(r.categories[0].variables.len(), 2);
}

#[test]
fn remove_outcomes() {
    let mut r = SwitchRegistry::new();
    assert_eq!(remove(&mut r, "a", None), RemoveOutcome::CategoryMissing);
    command::set(&mut r, "a", "k", "1");
    assert_eq!(remove(&mut r, "a", Some("z")), RemoveOutcome::VariableMissing);
    assert_eq!(r.categories[0].variables.len(), 1);
    assert_eq!(remove(&mut r, "b", Some("k")), RemoveOutcome::CategoryMissing);
}

#[test]
fn resolve_and_export() {
    let mut r = SwitchRegistry::new();
    command::set(&mut r, "net", "proxy", "HTTP_PROXY=http://x");
    assert_eq!(resolve(&r, "net", "proxy"), Ok("HTTP_PROXY=http://x".to_string()));
    assert_eq!(resolve(&r, "nope", "proxy"), Err(ApplyError::UnknownCategory));
    assert_eq!(resolve(&r, "net", "nope"), Err(ApplyError::UnknownVariable));
    assert_eq!(export_line("A=b"), "export A=b && clear");
}

#[test]
fn command_mutates() {
    let add = SwitchCommand::Add {
        category: "a".to_string(),
        name: "b".to_string(),
        value: "c".to_string(),
    };
    assert!(add.mutates());
    assert!(SwitchCommand::Remove { category: "a".to_string(), name: None }.mutates());
    assert!(!SwitchCommand::List.mutates());
    assert!(!SwitchCommand::Apply { category: String::new(), name: String::new() }.mutates());
}

#[test]
fn get_category_changes_in_place() {
    let mut r = SwitchRegistry::new();
    r.add_category(SwitchCategory::new("a"));
    r.add_category(SwitchCategory::new("b"));
    assert!(r.get_category("b").unwrap().add_variable("k", "v"));
    assert!(r.categories[0].variables.is_empty());
    assert_eq!(r.categories[1].get_variable("k").unwrap().value, "v");
}

#[test]
fn render_pads_by_key_bytes() {
    let mut c = SwitchCategory::new("u");
    c.add_variable("é", "1");
    assert_eq!(c.render(), "┌─ Category: u\n| \n└─ é\n    └─ 1\n");
    c.add_variable("ab", "2");
    assert_eq!(
        c.render(),
        "┌─ Category: u\n| \n├─ é\n|   └─ 1\n└─ ab\n    └─ 2\n"
    );
}
