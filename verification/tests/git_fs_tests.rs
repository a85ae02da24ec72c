use cg_core::fs::{is_typescript_file, path_extension, Project};
use cg_core::error::Error;
use cg_core::git::{
    current_commit_command, current_commit_from, file_changes_command, file_changes_from,
    get_changed_files, is_repository_command, parse_name_status, parse_status_line, FileChange,
    FileChangeType,
};
use cg_core::text::{slice_text, split_lines, split_text, starts_with_char, str_eq};

#[test]
fn name_status_lines_become_changes() {
    let output = "A\tsrc/new.ts\nM\tsrc/main.ts\nD\tsrc/old.ts\nR100\tsrc/a.ts\tsrc/b.ts\n";
    let changes = parse_name_status(output);
    assert_eq!(changes.len(), 4);
    assert_eq!(changes[0].path, "src/new.ts");
    assert_eq!(changes[0].change_type, FileChangeType::Added);
    assert_eq!(changes[1].path, "src/main.ts");
    assert_eq!(changes[1].change_type, FileChangeType::Modified);
    assert_eq!(changes[2].path, "src/old.ts");
    assert_eq!(changes[2].change_type, FileChangeType::Deleted);
    assert_eq!(changes[3].path, "src/b.ts");
    assert_eq!(
        changes[3].change_type,
        FileChangeType::Renamed { old_path: "src/a.ts".to_string() }
    );
}

#[test]
fn other_statuses_and_short_lines_are_ignored() {
    let output = "C75\tsrc/a.ts\tsrc/copy.ts\nT\tsrc/t.ts\nU\tsrc/u.ts\n\nM\nR090\tonly_one.ts\n\tx.ts\nX\ty.ts\nM\tkept.ts";
    let changes = parse_name_status(output);
    assert_eq!(changes.len(), 1);
    assert_eq!(changes[0].path, "kept.ts");
    assert_eq!(changes[0].change_type, FileChangeType::Modified);
    assert!(parse_name_status("").is_empty());
    assert!(parse_name_status("\n\n").is_empty());
}

#[test]
fn status_is_decided_by_its_first_character() {
    let c = parse_status_line("Axyz\tp.ts").unwrap();
    assert_eq!(c.change_type, FileChangeType::Added);
    let c = parse_status_line("M\ta b.ts\textra").unwrap();
    assert_eq!(c.path, "a b.ts");
    let c = parse_status_line("R\told.ts\tnew.ts\tmore").unwrap();
    assert_eq!(c.path, "new.ts");
    assert_eq!(c.change_type, FileChangeType::Renamed { old_path: "old.ts".to_string() });
    assert!(parse_status_line("a\tlower.ts").is_none());
    assert!(parse_status_line("M p.ts").is_none());
    let c = parse_status_line("D\t").unwrap();
    assert_eq!(c.path, "");
}

#[test]
fn carriage_returns_before_line_feeds_are_dropped() {
    let changes = parse_name_status("A\ta.ts\r\nM\tb.ts\r\n");
    assert_eq!(changes.len(), 2);
    assert_eq!(changes[0].path, "a.ts");
    assert_eq!(changes[1].path, "b.ts");
    let last = parse_name_status("A\ta.ts\r");
    assert_eq!(last[0].path, "a.ts\r");
}

#[test]
fn split_lines_agrees_with_std() {
    let samples = ["", "a", "a\n", "a\nb", "a\r\nb\r\n", "\n", "\n\n", "a\r", "a\r\n\r\n", "\r\n", "x\n\ny", "\u{e9}\n\u{4e16}\r\n"];
    for s in samples {
        let expect: Vec<String> = s.lines().map(|l| l.to_string()).collect();
        assert_eq!(split_lines(s), expect, "for {:?}", s);
    }
}

#[test]
fn split_text_agrees_with_std() {
    let samples = ["", "a", "\t", "a\tb", "a\t\tb\t", "\ta", "no tabs here"];
    for s in samples {
        let expect: Vec<String> = s.split('\t').map(|l| l.to_string()).collect();
        assert_eq!(split_text(s, '\t'), expect, "for {:?}", s);
    }
}

#[test]
fn text_helpers() {
    assert!(str_eq("", ""));
    assert!(str_eq("ab\u{e9}", "ab\u{e9}"));
    assert!(!str_eq("ab", "abc"));
    assert!(!str_eq("abc", "abd"));
    assert!(starts_with_char(".x", '.'));
    assert!(!starts_with_char("x.", '.'));
    assert!(!starts_with_char("", '.'));
    assert_eq!(slice_text("h\u{e9}llo", 0, 1), Some("h"));
    assert_eq!(slice_text("h\u{e9}llo", 1, 3), Some("\u{e9}"));
    assert_eq!(slice_text("h\u{e9}llo", 1, 2), None);
    assert_eq!(slice_text("h\u{e9}llo", 2, 3), None);
    assert_eq!(slice_text("hello", 3, 2), None);
    assert_eq!(slice_text("hello", 2, 6), None);
    assert_eq!(slice_text("hello", 5, 5), Some(""));
    assert_eq!(slice_text("hello", 0, 5), Some("hello"));
}

#[test]
fn changed_files_are_the_paths() {
    let changes = vec![
        FileChange { path: "/r/a.ts".to_string(), change_type: FileChangeType::Added },
        FileChange {
            path: "/r/new.ts".to_string(),
            change_type: FileChangeType::Renamed { old_path: "/r/old.ts".to_string() },
        },
        FileChange { path: "/r/gone.ts".to_string(), change_type: FileChangeType::Deleted },
    ];
    assert_eq!(get_changed_files(&changes), vec!["/r/a.ts", "/r/new.ts", "/r/gone.ts"]);
    assert!(get_changed_files(&Vec::new()).is_empty());
}

#[test]
fn git_commands() {
    assert_eq!(current_commit_command("/repo"), vec!["-C", "/repo", "rev-parse", "HEAD"]);
    assert_eq!(is_repository_command("/repo"), vec!["-C", "/repo", "rev-parse", "--git-dir"]);
    assert_eq!(
        file_changes_command("/repo", "abc", "def"),
        vec!["-C", "/repo", "diff", "--name-status", "abc..def"]
    );
}

#[test]
fn extensions() {
    assert_eq!(path_extension("a.ts"), Some("ts".to_string()));
    assert_eq!(path_extension("/x/y/a.test.tsx"), Some("tsx".to_string()));
    assert_eq!(path_extension("/x/y.d/a"), None);
    assert_eq!(path_extension("/x/.gitignore"), None);
    assert_eq!(path_extension("/x/..ts"), Some("ts".to_string()));
    assert_eq!(path_extension("/x/.."), None);
    assert_eq!(path_extension(".."), None);
    assert_eq!(path_extension("a."), Some(String::new()));
    assert_eq!(path_extension(""), None);
    assert_eq!(path_extension("types.d.ts"), Some("ts".to_string()));
    assert_eq!(path_extension("C:\\src\\a.ts"), Some("ts".to_string()));
}

#[test]
fn extension_agrees_with_std_on_file_paths() {
    let samples = ["a.ts", "/a/b/c.tsx", "/a.b/c", ".hidden", "/a/.hidden.ts", "x.d.ts", "noext", "/a/b.js", "a..ts", "..", "a."];
    for s in samples {
        let expect = std::path::Path::new(s)
            .extension()
            .map(|e| e.to_str().unwrap().to_string());
        assert_eq!(path_extension(s), expect, "for {:?}", s);
    }
}

#[test]
fn typescript_files_are_ts_and_tsx() {
    assert!(is_typescript_file("test1.ts"));
    assert!(is_typescript_file("/p/test2.tsx"));
    assert!(is_typescript_file("/p/types.d.ts"));
    assert!(!is_typescript_file("ignore.js"));
    assert!(!is_typescript_file("ts"));
    assert!(!is_typescript_file(".ts"));
    assert!(!is_typescript_file("a.TS"));
    assert!(!is_typescript_file("a.tsx.bak"));
}

#[test]
fn test_find_typescript_files() {
    let project = Project { root: "/tmp/project".to_string() };
    let walked = vec![
        "/tmp/project".to_string(),
        "/tmp/project/test1.ts".to_string(),
        "/tmp/project/test2.tsx".to_string(),
        "/tmp/project/ignore.js".to_string(),
        "/tmp/project/src".to_string(),
        "/tmp/project/src/nested.ts".to_string(),
    ];
    let files = project.find_typescript_files(&walked);
    assert_eq!(files.len(), 3);

    let filenames: Vec<&str> = files
        .iter()
        .filter_map(|p| std::path::Path::new(p).file_name().and_then(|n| n.to_str()))
        .collect();

    assert!(filenames.contains(&"test1.ts"));
    assert!(filenames.contains(&"test2.tsx"));
    assert!(filenames.contains(&"nested.ts"));
    assert!(!filenames.contains(&"ignore.js"));
    assert_eq!(
        files,
        vec!["/tmp/project/test1.ts", "/tmp/project/test2.tsx", "/tmp/project/src/nested.ts"]
    );
}

#[test]
fn test_find_git_root() {
    let ancestors = vec![
        ("/tmp/root/src/nested".to_string(), false),
        ("/tmp/root/src".to_string(), false),
        ("/tmp/root".to_string(), true),
        ("/tmp".to_string(), false),
        ("/".to_string(), true),
    ];
    let git_root = Project::find_git_root(&ancestors);
    assert!(git_root.is_some());
    assert_eq!(git_root.unwrap(), "/tmp/root");
}

#[test]
fn project_without_repository_is_rooted_at_its_path() {
    let ancestors = vec![("/a/b".to_string(), false), ("/a".to_string(), false), ("/".to_string(), false)];
    assert_eq!(Project::find_git_root(&ancestors), None);
    assert_eq!(Project::discover("/a/b", &ancestors).root, "/a/b");
    assert_eq!(Project::discover("/a/b", &Vec::new()).root, "/a/b");
    let inside = vec![("/a/b".to_string(), false), ("/a".to_string(), true)];
    assert_eq!(Project::discover("/a/b", &inside).root, "/a");
    let at = vec![("/a/b".to_string(), true), ("/a".to_string(), true)];
    assert_eq!(Project::discover("/a/b", &at).root, "/a/b");
}

#[test]
fn current_commit_is_the_trimmed_output() {
    assert_eq!(
        current_commit_from(true, "0123456789abcdef0123456789abcdef01234567\n", ""),
        Ok("0123456789abcdef0123456789abcdef01234567".to_string())
    );
    assert_eq!(current_commit_from(true, "  abc \r\n", "ignored"), Ok("abc".to_string()));
    assert_eq!(current_commit_from(true, "", ""), Ok(String::new()));
    let commit = current_commit_from(true, "0123456789abcdef0123456789abcdef01234567\n", "").unwrap();
    assert_eq!(commit.len(), 40);
}

#[test]
fn failed_probe_reports_the_error_stream() {
    assert_eq!(
        current_commit_from(false, "junk", "fatal: not a git repository"),
        Err(Error::Vcs("Failed to get git commit: fatal: not a git repository".to_string()))
    );
    let err = file_changes_from(false, "M\ta.ts\n", "fatal: bad object 0000").unwrap_err();
    assert_eq!(err, Error::Vcs("Failed to get changed files: fatal: bad object 0000".to_string()));
    assert_eq!(
        err.message(),
        "Version control error: Failed to get changed files: fatal: bad object 0000"
    );
}

#[test]
fn successful_diff_is_read() {
    let changes = file_changes_from(true, "M\ta.ts\nD\tb.ts\n", "warning: ignored").unwrap();
    assert_eq!(changes.len(), 2);
    assert_eq!(changes[0].path, "a.ts");
    assert_eq!(changes[1].change_type, FileChangeType::Deleted);
}
