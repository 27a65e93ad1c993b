use dotter::context::Context;
use dotter::error::Error;
use dotter::group::Group;
use dotter::homebrew::Brew;
use dotter::inventory::Inventory;
use dotter::plan::Command;
use dotter::shell::ShellCommand;
use dotter::symlinks::Symlink;

fn vim() -> Group {
    Group {
        brew: vec![Brew::Simple("vim".to_string())],
        symlinks: vec![Symlink { from: "vimrc".to_string(), to: "$HOME/.vimrc".to_string() }],
        shell: vec![],
    }
}

fn homebrew() -> Group {
    Group {
        brew: vec![Brew::Simple("parallel".to_string())],
        symlinks: vec![],
        shell: vec![ShellCommand { run: "brew update".to_string() }],
    }
}

fn sample() -> Inventory {
    let mut inventory = Inventory::new();
    inventory.insert("vim".to_string(), vim());
    inventory.insert("homebrew".to_string(), homebrew());
    inventory
}

#[test]
fn it_can_read_the_inventory() {
    let mut inventory: Inventory = sample();

    assert!(inventory.group("vim").is_some());
    assert!(inventory.group("homebrew").is_some());
}

#[test]
fn a_group_is_handed_over_once() {
    let mut inventory = sample();
    assert_eq!(inventory.group("vim"), Some(vim()));
    assert_eq!(inventory.group("vim"), None);
    assert_eq!(inventory.0.len(), 1);
    assert_eq!(inventory.0.name(0), "homebrew");
}

#[test]
fn an_unknown_group_is_not_found() {
    let mut inventory = sample();
    assert_eq!(inventory.group("emacs"), None);
    assert_eq!(inventory.0.len(), 2);
}

#[test]
fn insert_replaces_a_group_of_the_same_name() {
    let mut inventory = sample();
    assert_eq!(inventory.insert("vim".to_string(), Group::default()), Some(vim()));
    assert_eq!(inventory.0.len(), 2);
    assert_eq!(inventory.0.name(0), "vim");
    assert_eq!(inventory.group("vim"), Some(Group::default()));
}

#[test]
fn an_inventory_plans_its_groups_in_order() {
    let context = Context::new("/work".to_string());
    let inventory = sample();
    let mut expected = vim().execute(&context);
    expected.extend(homebrew().execute(&context));
    assert_eq!(inventory.execute(&context), expected);

    let mut expected = vim().rollback(&context);
    expected.extend(homebrew().rollback(&context));
    assert_eq!(inventory.rollback(&context), expected);

    let mut expected = vim().explain(&context);
    expected.extend(homebrew().explain(&context));
    assert_eq!(inventory.explain(&context), expected);

    assert_eq!(Inventory::new().execute(&context), vec![]);
}

#[test]
fn select_picks_one_group() {
    let context = Context::new("/work".to_string());
    let mut inventory = sample();
    assert_eq!(inventory.select(Some("homebrew"), &context), Ok(homebrew().execute(&context)));
    assert_eq!(inventory.0.len(), 1);
}

#[test]
fn select_takes_the_whole_inventory_without_a_name() {
    let mut context = Context::new("/work".to_string());
    context.explain = true;
    let mut inventory = sample();
    assert_eq!(inventory.select(None, &context), Ok(sample().explain(&context)));
    assert_eq!(inventory.0.len(), 2);
}

#[test]
fn select_reports_an_unknown_group() {
    let context = Context::new("/work".to_string());
    let mut inventory = sample();
    assert_eq!(
        inventory.select(Some("emacs"), &context),
        Err(Error::Lookup("emacs".to_string()))
    );
    assert_eq!(inventory.0.len(), 2);
}
