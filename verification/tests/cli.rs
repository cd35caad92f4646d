use cmdnav::resolve::{cli_decision, path_names, resolve_cli_path, siblings_at, ResolveError};
use cmdnav::tree::{CommandNode, CommandTree};

fn leaf(name: &str, description: &str, action: &str) -> CommandNode {
    CommandNode {
        name: String::from(name),
        description: String::from(description),
        action: Some(String::from(action)),
        children: Vec::new(),
    }
}

fn container(name: &str, description: &str, children: Vec<CommandNode>) -> CommandNode {
    CommandNode {
        name: String::from(name),
        description: String::from(description),
        action: None,
        children,
    }
}

fn tokens(words: &[&str]) -> Vec<String> {
    words.iter().map(|w| String::from(*w)).collect()
}

fn nested_tree() -> CommandTree {
    CommandTree {
        commands: vec![
            container(
                "tools",
                "t",
                vec![
                    leaf("fmt", "f", "fmt.sh"),
                    container("db", "d", vec![leaf("migrate", "m", "migrate.sh")]),
                ],
            ),
            leaf("build", "b", "build.sh"),
        ],
    }
}

#[test]
fn cli_direct_match_runs_action() {
    let tree = CommandTree {
        commands: vec![leaf("build", "d", "build.sh")],
    };
    let decision = cli_decision(&tree, &tokens(&["build"]));
    assert_eq!(decision.as_deref(), Some("build.sh"));
}

#[test]
fn cli_without_tokens_never_matches() {
    let tree = CommandTree {
        commands: vec![leaf("build", "d", "build.sh")],
    };
    let r = resolve_cli_path(&tree, &Vec::new());
    assert!(matches!(r, Err(ResolveError::NoTokens)));
    assert!(cli_decision(&tree, &Vec::new()).is_none());
}

#[test]
fn cli_resolves_nested_path() {
    let tree = nested_tree();
    let r = resolve_cli_path(&tree, &tokens(&["tools", "db", "migrate"]));
    let node = r.expect("full path should resolve");
    assert_eq!(node.name, "migrate");
    let decision = cli_decision(&tree, &tokens(&["tools", "db", "migrate"]));
    assert_eq!(decision.as_deref(), Some("migrate.sh"));
}

#[test]
fn cli_unknown_first_token_reports_level() {
    let tree = nested_tree();
    let r = resolve_cli_path(&tree, &tokens(&["nope"]));
    assert!(matches!(r, Err(ResolveError::UnknownToken(0))));
    assert!(cli_decision(&tree, &tokens(&["nope"])).is_none());
}

#[test]
fn cli_unknown_deeper_token_reports_level() {
    let tree = nested_tree();
    let r = resolve_cli_path(&tree, &tokens(&["tools", "nope"]));
    assert!(matches!(r, Err(ResolveError::UnknownToken(1))));
    let r2 = resolve_cli_path(&tree, &tokens(&["build", "extra"]));
    assert!(matches!(r2, Err(ResolveError::UnknownToken(1))));
}

#[test]
fn cli_container_match_falls_back_to_interactive() {
    let tree = nested_tree();
    let r = resolve_cli_path(&tree, &tokens(&["tools"]));
    let node = r.expect("container should still resolve");
    assert_eq!(node.name, "tools");
    assert!(cli_decision(&tree, &tokens(&["tools"])).is_none());
}

#[test]
fn cli_first_match_wins_among_duplicates() {
    let tree = CommandTree {
        commands: vec![leaf("run", "first", "first.sh"), leaf("run", "second", "second.sh")],
    };
    let decision = cli_decision(&tree, &tokens(&["run"]));
    assert_eq!(decision.as_deref(), Some("first.sh"));
}

#[test]
fn cli_dead_end_match_falls_back_to_interactive() {
    let dead_end = CommandNode {
        name: String::from("stub"),
        description: String::from("s"),
        action: None,
        children: Vec::new(),
    };
    let tree = CommandTree { commands: vec![dead_end] };
    let r = resolve_cli_path(&tree, &tokens(&["stub"]));
    assert!(r.is_ok());
    assert!(cli_decision(&tree, &tokens(&["stub"])).is_none());
}

#[test]
fn cli_on_empty_tree_reports_first_token() {
    let tree = CommandTree { commands: Vec::new() };
    let r = resolve_cli_path(&tree, &tokens(&["anything"]));
    assert!(matches!(r, Err(ResolveError::UnknownToken(0))));
}

#[test]
fn siblings_at_root_and_below() {
    let tree = nested_tree();
    let root = siblings_at(&tree, &Vec::new());
    assert_eq!(root.len(), 2);
    assert_eq!(root[0].name, "tools");
    let inner = siblings_at(&tree, &vec![0]);
    assert_eq!(inner.len(), 2);
    assert_eq!(inner[0].name, "fmt");
    let leaf_level = siblings_at(&tree, &vec![0, 1]);
    assert_eq!(leaf_level.len(), 1);
    assert_eq!(leaf_level[0].name, "migrate");
}

#[test]
fn path_names_lists_breadcrumb() {
    let tree = nested_tree();
    let names = path_names(&tree, &vec![0, 1]);
    assert_eq!(names, vec![String::from("tools"), String::from("db")]);
    let empty = path_names(&tree, &Vec::new());
    assert!(empty.is_empty());
}
