use codecrafters_shell::completer::{begins_with, text_precedes, ShellCompleter};
use codecrafters_shell::finder::ExecutablesFinder;
use codecrafters_shell::text::same_text;
use codecrafters_shell::History;

fn words(items: &[&str]) -> Vec<String> {
    items.iter().map(|s| s.to_string()).collect()
}

#[test]
fn history_keeps_lines_in_order() {
    let mut history = History::new();
    assert!(history.items.is_empty());
    history.add_history_item("ls -l");
    history.add_history_item("");
    history.add_history_item("echo 'a b'");
    assert_eq!(history.items, vec!["ls -l", "", "echo 'a b'"]);
}

#[test]
fn the_completer_sorts_its_names() {
    let completer = ShellCompleter::new(words(&["pwd", "echo", "ls", "cd", "echo", "Ls", "e", ""]));
    assert_eq!(completer.commands(), &words(&["", "Ls", "cd", "e", "echo", "echo", "ls", "pwd"]));
    assert_eq!(ShellCompleter::new(Vec::new()).commands(), &Vec::<String>::new());
}

#[test]
fn sorting_agrees_with_the_order_of_strings() {
    let names = words(&["zeta", "é", "e", "ab", "a", "abc", "B", "~", "ß", "10", "9", "日本"]);
    let mut expected = names.clone();
    expected.sort();
    assert_eq!(ShellCompleter::new(names).commands(), &expected);
}

#[test]
fn text_order() {
    assert!(text_precedes("", ""));
    assert!(text_precedes("", "a"));
    assert!(!text_precedes("a", ""));
    assert!(text_precedes("a", "a"));
    assert!(text_precedes("a", "ab"));
    assert!(!text_precedes("ab", "a"));
    assert!(text_precedes("ab", "b"));
    assert!(!text_precedes("b", "ab"));
    assert!(text_precedes("Z", "a"));
    assert!(text_precedes("z", "é"));
}

#[test]
fn completion_takes_the_last_word() {
    let completer = ShellCompleter::new(words(&["echo", "exit", "ls", "env", "cd"]));
    assert_eq!(completer.complete("e"), ("e".to_string(), words(&["echo", "env", "exit"])));
    assert_eq!(completer.complete("ls | ec"), ("ec".to_string(), words(&["echo"])));
    assert_eq!(completer.complete("x"), ("x".to_string(), Vec::new()));
    assert_eq!(
        completer.complete("echo "),
        ("".to_string(), words(&["cd", "echo", "env", "exit", "ls"]))
    );
    assert_eq!(
        completer.complete(""),
        ("".to_string(), words(&["cd", "echo", "env", "exit", "ls"]))
    );
    assert_eq!(completer.complete("a\tex"), ("a\tex".to_string(), Vec::new()));
}

#[test]
fn prefixes() {
    assert!(begins_with("echo", ""));
    assert!(begins_with("echo", "ec"));
    assert!(begins_with("echo", "echo"));
    assert!(!begins_with("echo", "echoo"));
    assert!(!begins_with("echo", "ex"));
    assert!(!begins_with("", "e"));
    assert!(begins_with("", ""));
}

#[test]
fn equal_texts() {
    assert!(same_text("", ""));
    assert!(same_text("añb", "añb"));
    assert!(!same_text("a", "ab"));
    assert!(!same_text("ab", "a"));
    assert!(!same_text("ab", "ac"));
}

#[test]
fn search_path_directories() {
    let finder = ExecutablesFinder::new();
    assert_eq!(finder.directories("/usr/bin:/bin"), vec!["/usr/bin", "/bin"]);
    assert_eq!(finder.directories("/bin"), vec!["/bin"]);
    assert_eq!(finder.directories(""), vec![""]);
    assert_eq!(finder.directories(":a::b:"), vec!["", "a", "", "b", ""]);
}

#[test]
fn executables_are_files_with_an_execute_bit() {
    let finder = ExecutablesFinder::new();
    assert!(finder.is_executable(true, 0o755));
    assert!(finder.is_executable(true, 0o100));
    assert!(finder.is_executable(true, 0o010));
    assert!(finder.is_executable(true, 0o001));
    assert!(finder.is_executable(true, 0o100644 | 0o001));
    assert!(!finder.is_executable(true, 0o644));
    assert!(!finder.is_executable(true, 0));
    assert!(!finder.is_executable(true, 0o100666));
    assert!(!finder.is_executable(false, 0o755));
    assert!(!finder.is_executable(false, 0));
}
