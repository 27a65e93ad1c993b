use dotter::context::{Context, Direction, Explanation};
use dotter::group::Group;
use dotter::homebrew::{
    brew, install, is_homebrew_installed, ls, remove, Brew, BrewSource, BrewStatus, CaskBrew,
    TappedBrew,
};
use dotter::operation::Operation;
use dotter::plan::{Command, Task};
use dotter::shell::ShellCommand;
use dotter::symlinks::Symlink;

fn words(line: &[&str]) -> Vec<String> {
    line.iter().map(|word| word.to_string()).collect()
}

fn rolling_back(working_directory: &str) -> Context {
    let mut context = Context::new(working_directory.to_string());
    context.direction = Direction::Rollback;
    context
}

fn tapped() -> Brew {
    Brew::FromTap(TappedBrew { tap: "brewsci/bio".to_string(), name: "abacas".to_string() })
}

fn cask() -> Brew {
    Brew::FromCask(CaskBrew { cask: "couleurs".to_string() })
}

#[test]
fn the_store_is_looked_for_where_it_installs_itself() {
    assert_eq!(
        is_homebrew_installed(),
        Operation::Exists { path: "/usr/local/bin/brew".to_string() }
    );
}

#[test]
fn brew_command_lines_name_the_namespace() {
    assert_eq!(brew(BrewSource::Regular), words(&["brew"]));
    assert_eq!(brew(BrewSource::Cask), words(&["brew", "cask"]));
    assert_eq!(install("vim", BrewSource::Regular), words(&["brew", "install", "vim"]));
    assert_eq!(
        install("couleurs", BrewSource::Cask),
        words(&["brew", "cask", "install", "couleurs"])
    );
    assert_eq!(remove("vim", BrewSource::Regular), words(&["brew", "remove", "vim"]));
    assert_eq!(
        remove("couleurs", BrewSource::Cask),
        words(&["brew", "cask", "remove", "couleurs"])
    );
    assert_eq!(ls("vim", BrewSource::Regular), words(&["brew", "ls", "--versions", "vim"]));
    assert_eq!(
        ls("couleurs", BrewSource::Cask),
        words(&["brew", "cask", "ls", "--versions", "couleurs"])
    );
}

#[test]
fn operations_render_their_command_lines() {
    let list = Operation::List { source: BrewSource::Cask, name: "couleurs".to_string() };
    assert_eq!(
        list.command_line(),
        Some(words(&["brew", "cask", "ls", "--versions", "couleurs"]))
    );
    let install = Operation::Install { source: BrewSource::Regular, name: "vim".to_string() };
    assert_eq!(install.command_line(), Some(words(&["brew", "install", "vim"])));
    let remove = Operation::Remove { source: BrewSource::Regular, name: "vim".to_string() };
    assert_eq!(remove.command_line(), Some(words(&["brew", "remove", "vim"])));
    let shell = Operation::Shell { line: "echo \"Hi there\"".to_string() };
    assert_eq!(shell.command_line(), Some(words(&["sh", "-c", "echo \"Hi there\""])));
    assert_eq!(Operation::Exists { path: "/a".to_string() }.command_line(), None);
    assert_eq!(Operation::MakeParents { path: "/a".to_string() }.command_line(), None);
    let link = Operation::Link { from: "/a".to_string(), to: "/b".to_string() };
    assert_eq!(link.command_line(), None);
    assert_eq!(Operation::Unlink { path: "/a".to_string() }.command_line(), None);
}

#[test]
fn only_questions_leave_the_machine_alone() {
    let name = || "vim".to_string();
    let path = || "/a".to_string();
    assert!(!Operation::List { source: BrewSource::Regular, name: name() }.mutates());
    assert!(!Operation::Exists { path: path() }.mutates());
    assert!(Operation::Install { source: BrewSource::Regular, name: name() }.mutates());
    assert!(Operation::Remove { source: BrewSource::Regular, name: name() }.mutates());
    assert!(Operation::MakeParents { path: path() }.mutates());
    assert!(Operation::Link { from: path(), to: path() }.mutates());
    assert!(Operation::Unlink { path: path() }.mutates());
    assert!(Operation::Shell { line: name() }.mutates());
}

#[test]
fn brew_names_are_qualified_by_the_tap() {
    assert_eq!(Brew::Simple("parallel".to_string()).name(), "parallel");
    assert_eq!(tapped().name(), "brewsci/bio/abacas");
    assert_eq!(cask().name(), "couleurs");
}

#[test]
fn brew_sources_tell_casks_apart() {
    assert_eq!(Brew::Simple("parallel".to_string()).source(), BrewSource::Regular);
    assert_eq!(tapped().source(), BrewSource::Regular);
    assert_eq!(cask().source(), BrewSource::Cask);
}

#[test]
fn brew_status_is_asked_by_listing() {
    assert_eq!(
        Brew::Simple("parallel".to_string()).status(),
        Operation::List { source: BrewSource::Regular, name: "parallel".to_string() }
    );
    assert_eq!(
        tapped().status(),
        Operation::List { source: BrewSource::Regular, name: "brewsci/bio/abacas".to_string() }
    );
    assert_eq!(
        cask().status(),
        Operation::List { source: BrewSource::Cask, name: "couleurs".to_string() }
    );
    assert_eq!(BrewStatus::listed(true), BrewStatus::Installed);
    assert_eq!(BrewStatus::listed(false), BrewStatus::Missing);
}

#[test]
fn brew_messages_depend_on_status_and_direction() {
    let brew = Brew::Simple("parallel".to_string());
    assert_eq!(
        brew.message(BrewStatus::Installed, Direction::Execute),
        "parallel is already installed, nothing to do"
    );
    assert_eq!(brew.message(BrewStatus::Missing, Direction::Execute), "Will install parallel");
    assert_eq!(
        brew.message(BrewStatus::Installed, Direction::Rollback),
        "WIll uninstall parallel."
    );
    assert_eq!(
        brew.message(BrewStatus::Missing, Direction::Rollback),
        "parallel is not installed, nothing to do."
    );
    assert_eq!(
        tapped().message(BrewStatus::Missing, Direction::Execute),
        "Will install brewsci/bio/abacas"
    );
}

#[test]
fn brew_plans_guard_their_action() {
    let context = Context::new("/work".to_string());
    let brew = cask();
    let probe = || Operation::List { source: BrewSource::Cask, name: "couleurs".to_string() };
    assert_eq!(
        brew.execute(&context),
        vec![Task::When {
            probe: probe(),
            found: false,
            actions: vec![Operation::Install {
                source: BrewSource::Cask,
                name: "couleurs".to_string()
            }],
        }]
    );
    assert_eq!(
        brew.rollback(&context),
        vec![Task::When {
            probe: probe(),
            found: true,
            actions: vec![Operation::Remove {
                source: BrewSource::Cask,
                name: "couleurs".to_string()
            }],
        }]
    );
    assert_eq!(
        brew.explain(&context),
        vec![Task::Report {
            probe: probe(),
            present: Explanation::new("couleurs is already installed, nothing to do".to_string()),
            absent: Explanation::new("Will install couleurs".to_string()),
        }]
    );
    assert_eq!(
        brew.explain(&rolling_back("/work")),
        vec![Task::Report {
            probe: probe(),
            present: Explanation::new("WIll uninstall couleurs.".to_string()),
            absent: Explanation::new("couleurs is not installed, nothing to do.".to_string()),
        }]
    );
}

#[test]
fn tapped_brew_goes_by_its_full_name_throughout() {
    let context = Context::new("/work".to_string());
    let name = || "brewsci/bio/abacas".to_string();
    let probe = || Operation::List { source: BrewSource::Regular, name: name() };
    assert_eq!(
        tapped().execute(&context),
        vec![Task::When {
            probe: probe(),
            found: false,
            actions: vec![Operation::Install { source: BrewSource::Regular, name: name() }],
        }]
    );
    assert_eq!(
        tapped().rollback(&context),
        vec![Task::When {
            probe: probe(),
            found: true,
            actions: vec![Operation::Remove { source: BrewSource::Regular, name: name() }],
        }]
    );
}

#[test]
fn symlink_messages_depend_on_status_and_direction() {
    let linker = Symlink { from: "original.txt".to_string(), to: "the_copy.txt".to_string() };
    let forward = Context::new("/work".to_string());
    assert_eq!(linker.message(true, &forward), "Symlink to /work/the_copy.txt already exists");
    assert_eq!(
        linker.message(false, &forward),
        "adding a link from original.txt to /work/the_copy.txt"
    );
    let back = rolling_back("/work");
    assert_eq!(linker.message(true, &back), "Removing symmlink to /work/the_copy.txt");
    assert_eq!(linker.message(false, &back), "Symmlink to /work/the_copy.txt did not exist");
}

#[test]
fn symlink_plans_make_parents_before_the_link() {
    let context = Context::new("/work".to_string());
    let linker = Symlink { from: "original.txt".to_string(), to: "sub/the_copy.txt".to_string() };
    assert_eq!(linker.destination(&context), "/work/sub/the_copy.txt");
    assert_eq!(
        linker.status(&context),
        Operation::Exists { path: "/work/sub/the_copy.txt".to_string() }
    );
    assert_eq!(
        linker.execute(&context),
        vec![Task::When {
            probe: Operation::Exists { path: "/work/sub/the_copy.txt".to_string() },
            found: false,
            actions: vec![
                Operation::MakeParents { path: "/work/sub/the_copy.txt".to_string() },
                Operation::Link {
                    from: "/work/original.txt".to_string(),
                    to: "/work/sub/the_copy.txt".to_string(),
                },
            ],
        }]
    );
    assert_eq!(
        linker.rollback(&context),
        vec![Task::When {
            probe: Operation::Exists { path: "/work/sub/the_copy.txt".to_string() },
            found: true,
            actions: vec![Operation::Unlink { path: "/work/sub/the_copy.txt".to_string() }],
        }]
    );
    assert_eq!(
        linker.explain(&context),
        vec![Task::Report {
            probe: Operation::Exists { path: "/work/sub/the_copy.txt".to_string() },
            present: Explanation::new("Symlink to /work/sub/the_copy.txt already exists".to_string()),
            absent: Explanation::new(
                "adding a link from original.txt to /work/sub/the_copy.txt".to_string()
            ),
        }]
    );
}

#[test]
fn symlink_is_made_and_removed_where_its_status_is_asked() {
    for working_directory in ["work", "/work", ""] {
        let context = Context::new(working_directory.to_string());
        let linker = Symlink { from: "a".to_string(), to: "b".to_string() };
        let target = linker.destination(&context);
        assert_eq!(
            linker.execute(&context),
            vec![Task::When {
                probe: Operation::Exists { path: target.clone() },
                found: false,
                actions: vec![
                    Operation::MakeParents { path: target.clone() },
                    Operation::Link {
                        from: dotter::path::join(working_directory, "a"),
                        to: target.clone(),
                    },
                ],
            }]
        );
        assert_eq!(
            linker.rollback(&context),
            vec![Task::When {
                probe: Operation::Exists { path: target.clone() },
                found: true,
                actions: vec![Operation::Unlink { path: target.clone() }],
            }]
        );
    }
    let context = Context::new("work".to_string());
    let linker = Symlink { from: "a".to_string(), to: "b".to_string() };
    assert_eq!(linker.destination(&context), "work/b");
}

#[test]
fn it_runs_a_simple_shell_command() {
    let context = Context::new("/work".to_string());

    let echo_command = ShellCommand { run: "echo \"Hi there\"".to_string() };

    let plan = echo_command.execute(&context);
    assert_eq!(
        plan,
        vec![Task::Always {
            actions: vec![Operation::Shell { line: "echo \"Hi there\"".to_string() }]
        }]
    );
}

#[test]
fn shell_command_has_no_inverse() {
    let context = Context::new("/work".to_string());
    let echo_command = ShellCommand { run: "echo \"Hi there\"".to_string() };
    assert_eq!(echo_command.rollback(&context), vec![]);
    assert_eq!(echo_command.dispatch(&rolling_back("/work")), vec![]);
}

#[test]
fn shell_command_explains_itself() {
    let echo_command = ShellCommand { run: "echo \"Hi there\"".to_string() };
    assert_eq!(echo_command.message(), "About to run \"echo \"Hi there\"\"");
    assert_eq!(
        echo_command.explain(&Context::new("/work".to_string())),
        vec![Task::Say {
            message: Explanation::new("About to run \"echo \"Hi there\"\"".to_string())
        }]
    );
}

#[test]
fn dispatch_follows_the_direction() {
    let brew = Brew::Simple("parallel".to_string());
    let forward = Context::new("/work".to_string());
    let back = rolling_back("/work");
    assert_eq!(brew.dispatch(&forward), brew.execute(&forward));
    assert_eq!(brew.dispatch(&back), brew.rollback(&back));
}

#[test]
fn prepare_explains_only_when_asked() {
    let brew = Brew::Simple("parallel".to_string());
    let mut context = rolling_back("/work");
    assert_eq!(brew.prepare(&context), brew.rollback(&context));
    context.explain = true;
    assert_eq!(brew.prepare(&context), brew.explain(&context));
}

#[test]
fn a_list_plans_its_items_in_order() {
    let context = Context::new("/work".to_string());
    let first = Brew::Simple("parallel".to_string());
    let second = cask();
    let mut expected = first.execute(&context);
    expected.extend(second.execute(&context));
    let list = vec![first, second];
    assert_eq!(list.execute(&context), expected);
    assert_eq!(list.execute(&context).len(), 2);
    assert_eq!(Vec::<Brew>::new().execute(&context), vec![]);
}

#[test]
fn a_group_plans_packages_then_links_then_shell() {
    let context = Context::new("/work".to_string());
    let group = Group {
        brew: vec![Brew::Simple("parallel".to_string())],
        symlinks: vec![Symlink { from: "a".to_string(), to: "b".to_string() }],
        shell: vec![ShellCommand { run: "true".to_string() }],
    };
    let mut expected = group.brew.execute(&context);
    expected.extend(group.symlinks.execute(&context));
    expected.extend(group.shell.execute(&context));
    assert_eq!(group.execute(&context), expected);
    assert_eq!(expected.len(), 3);

    let mut expected = group.brew.rollback(&context);
    expected.extend(group.symlinks.rollback(&context));
    assert_eq!(group.rollback(&context), expected);
    assert_eq!(expected.len(), 2);

    let mut expected = group.brew.explain(&context);
    expected.extend(group.symlinks.explain(&context));
    expected.extend(group.shell.explain(&context));
    assert_eq!(group.explain(&context), expected);
    assert_eq!(expected.len(), 3);
}

#[test]
fn a_group_is_empty_by_default() {
    let group = Group::default();
    assert!(group.brew.is_empty());
    assert!(group.symlinks.is_empty());
    assert!(group.shell.is_empty());
    assert_eq!(group.execute(&Context::new("/work".to_string())), vec![]);
}
