use pixi_install::task::{quote, quote_arguments, Alias, CmdArgs, Execute, Task};

#[test]
fn test_quote() {
    assert_eq!(quote("foobar"), "foobar");
    assert_eq!(quote("foo bar"), "\"foo bar\"");
    assert_eq!(quote("\""), "\"");
    assert_eq!(quote("foo \" bar"), "\"foo \\\" bar\"");
    assert_eq!(quote(""), "\"\"");
    assert_eq!(quote("$PATH"), "$PATH");
    assert_eq!(
        quote("PATH=\"$PATH;build/Debug\""),
        "PATH=\"$PATH;build/Debug\""
    );
}

#[test]
fn quote_escapes_backslashes_and_tabs() {
    assert_eq!(quote("a\\b c"), "\"a\\\\b c\"");
    assert_eq!(quote("a\tb"), "\"a\tb\"");
    assert_eq!(quote("a\\b"), "a\\b");
}

#[test]
fn quote_arguments_joins_with_spaces() {
    assert_eq!(quote_arguments(&["echo", "hello world", ""]), "echo \"hello world\" \"\"");
    assert_eq!(quote_arguments(&[]), "");
    assert_eq!(quote_arguments(&["one"]), "one");
}

fn strings(v: &[&str]) -> Vec<String> {
    v.iter().map(|s| s.to_string()).collect()
}

#[test]
fn cmd_args_single_forms() {
    let multiple = CmdArgs::from(strings(&["python", "-c", "print(1 + 1)"]));
    assert_eq!(multiple.as_single(), "python -c \"print(1 + 1)\"");
    assert_eq!(multiple.into_single(), "python -c \"print(1 + 1)\"");
    let single = CmdArgs::from("ls -la".to_string());
    assert_eq!(single.as_single(), "ls -la");
    assert_eq!(single.into_single(), "ls -la");
}

#[test]
fn task_accessors() {
    let plain = Task::Plain("make".to_string());
    let exe = Task::from(Execute {
        cmd: CmdArgs::from(strings(&["cargo", "build"])),
        depends_on: strings(&["fmt"]),
    });
    let alias = Task::Alias(Alias { depends_on: strings(&["a", "b"]) });

    assert!(plain.depends_on().is_empty());
    assert_eq!(exe.depends_on(), &["fmt".to_string()][..]);
    assert_eq!(alias.depends_on().len(), 2);

    assert_eq!(plain.as_plain().map(|s| s.as_str()), Some("make"));
    assert!(exe.as_plain().is_none());
    assert!(exe.as_execute().is_some());
    assert!(plain.as_execute().is_none());
    assert!(alias.as_alias().is_some());
    assert!(exe.as_alias().is_none());

    assert!(plain.is_executable());
    assert!(exe.is_executable());
    assert!(!alias.is_executable());

    assert_eq!(plain.as_command().map(|c| c.into_single()), Some("make".to_string()));
    assert_eq!(exe.as_command().map(|c| c.into_single()), Some("cargo build".to_string()));
    assert!(alias.as_command().is_none());

    assert_eq!(plain.as_single_command(), Some("make".to_string()));
    assert_eq!(exe.as_single_command(), Some("cargo build".to_string()));
    assert_eq!(alias.as_single_command(), None);
}

#[test]
fn task_display_text() {
    let plain = Task::Plain("make".to_string());
    assert_eq!(plain.display_string(), "make");
    let exe = Task::from(Execute {
        cmd: CmdArgs::from(strings(&["cargo", "build", "--release"])),
        depends_on: strings(&["fmt"]),
    });
    assert_eq!(exe.display_string(), "cargo build --release, depends_on = 'fmt'");
    let exe_many = Task::from(Execute {
        cmd: CmdArgs::from("pytest -x".to_string()),
        depends_on: strings(&["a", "b"]),
    });
    assert_eq!(exe_many.display_string(), "pytest -x, depends_on = [a,b]");
    let exe_none = Task::from(Execute {
        cmd: CmdArgs::from(strings(&["echo", "hi there"])),
        depends_on: vec![],
    });
    assert_eq!(exe_none.display_string(), "echo hi there");
    let alias = Task::Alias(Alias { depends_on: strings(&["x", "y", "z"]) });
    assert_eq!(alias.display_string(), "depends_on = [x,y,z]");
    let empty_alias = Task::Alias(Alias { depends_on: vec![] });
    assert_eq!(empty_alias.display_string(), "");
}
