use mvx::arguments::{apply_program_name, Args};
use mvx::command::{copy_fn, mv_fn, operation, process, run, target_name, Effect, Operation};
use mvx::error::MvxError;
use mvx::utils::{check_files, get_basename};

fn args(files: &[&str], dry_run: bool, copy: bool, add: Option<&str>, remove: Option<&str>) -> Args {
    Args {
        filenames: files.iter().map(|f| f.to_string()).collect(),
        dry_run,
        man_page: false,
        copy,
        add: add.map(|s| s.to_string()),
        remove: remove.map(|s| s.to_string()),
    }
}

fn renames(effects: &[Effect]) -> Vec<(String, String)> {
    effects
        .iter()
        .map(|e| match e {
            Effect::Rename(s, t) => (s.clone(), t.clone()),
            other => panic!("expected a rename, got {:?}", other),
        })
        .collect()
}

fn pair(s: &str, t: &str) -> (String, String) {
    (s.to_string(), t.to_string())
}

#[test]
fn extension_is_wrong() {
    let a = args(&["empty.txt"], false, false, None, Some(".bak"));
    let e = run(&a, &vec![true]).unwrap_err();
    assert!(e.message().contains("empty.txt does not end with .bak"));
    assert!(matches!(e, MvxError::SuffixMismatch(..)));
}

#[test]
fn file_is_missing() {
    let a = args(&["phantom.txt"], false, false, None, Some(".txt"));
    let e = run(&a, &vec![false]).unwrap_err();
    assert!(e.message().contains("phantom.txt does not exist."));
}

#[test]
fn add_extension_ok() {
    let a = args(&["empty_a.txt", "empty_b.txt"], false, false, Some(".bak"), None);
    let v = run(&a, &vec![true, true]).unwrap();
    assert_eq!(
        renames(&v),
        vec![pair("empty_a.txt", "empty_a.txt.bak"), pair("empty_b.txt", "empty_b.txt.bak")]
    );
}

#[test]
fn remove_extension_ok() {
    let a = args(&["empty_a.txt.bak", "empty_b.txt.bak"], false, false, None, Some(".bak"));
    let v = run(&a, &vec![true, true]).unwrap();
    assert_eq!(
        renames(&v),
        vec![pair("empty_a.txt.bak", "empty_a.txt"), pair("empty_b.txt.bak", "empty_b.txt")]
    );
}

#[test]
fn mv_extension_ok() {
    let a = args(&["empty_a.txt", "empty_b.txt"], false, false, Some(".md"), Some(".txt"));
    let v = run(&a, &vec![true, true]).unwrap();
    assert_eq!(
        renames(&v),
        vec![pair("empty_a.txt", "empty_a.md"), pair("empty_b.txt", "empty_b.md")]
    );
}

#[test]
fn add_suffix_moves_report() {
    let a = args(&["report.txt"], false, false, Some(".bak"), None);
    let v = run(&a, &vec![true]).unwrap();
    assert_eq!(renames(&v), vec![pair("report.txt", "report.txt.bak")]);
}

#[test]
fn remove_and_add_changes_suffix() {
    let a = args(&["archive.bak"], false, false, Some(".md"), Some(".bak"));
    let v = run(&a, &vec![true]).unwrap();
    assert_eq!(renames(&v), vec![pair("archive.bak", "archive.md")]);
}

#[test]
fn missing_file_is_not_found() {
    let a = args(&["missing.txt"], false, false, None, Some(".txt"));
    match run(&a, &vec![false]) {
        Err(MvxError::NotFound(f)) => assert_eq!(f, "missing.txt"),
        other => panic!("unexpected {:?}", other),
    }
}

#[test]
fn copy_alias_copies() {
    let mut a = args(&["note.txt"], false, false, Some(".bak"), None);
    apply_program_name(&mut a, "cpx");
    assert!(a.copy);
    let v = run(&a, &vec![true]).unwrap();
    assert_eq!(v.len(), 1);
    match &v[0] {
        Effect::Copy(s, t) => {
            assert_eq!(s, "note.txt");
            assert_eq!(t, "note.txt.bak");
        }
        other => panic!("expected a copy, got {:?}", other),
    }
}

#[test]
fn other_program_name_keeps_mode() {
    let mut a = args(&["note.txt"], false, false, Some(".bak"), None);
    apply_program_name(&mut a, "mvx");
    assert!(!a.copy);
    apply_program_name(&mut a, "cpxx");
    assert!(!a.copy);
    let mut b = args(&["note.txt"], false, true, Some(".bak"), None);
    apply_program_name(&mut b, "mvx");
    assert!(b.copy);
}

#[test]
fn dry_run_prints_move() {
    let a = args(&["a.txt"], true, false, Some(".bak"), None);
    let v = run(&a, &vec![true]).unwrap();
    assert_eq!(v.len(), 1);
    match &v[0] {
        Effect::Print(l) => assert_eq!(l, "mv a.txt a.txt.bak"),
        other => panic!("expected a line, got {:?}", other),
    }
}

#[test]
fn dry_run_prints_copy_only() {
    let a = args(&["x.md", "y.md"], true, true, Some(".txt"), Some(".md"));
    let v = run(&a, &vec![true, true]).unwrap();
    let lines: Vec<String> = v
        .iter()
        .map(|e| match e {
            Effect::Print(l) => l.clone(),
            other => panic!("a dry run must only print, got {:?}", other),
        })
        .collect();
    assert_eq!(lines, vec!["cp x.md x.txt".to_string(), "cp y.md y.txt".to_string()]);
}

#[test]
fn second_file_missing_stops_everything() {
    let a = args(&["one.txt", "two.txt", "three.txt"], false, false, Some(".bak"), None);
    match run(&a, &vec![true, false, false]) {
        Err(MvxError::NotFound(f)) => assert_eq!(f, "two.txt"),
        other => panic!("unexpected {:?}", other),
    }
}

#[test]
fn add_then_remove_round_trip() {
    let add = args(&["notes.txt"], false, false, Some(".old"), None);
    let t = target_name("notes.txt", &add).unwrap();
    assert_eq!(t, "notes.txt.old");
    let remove = args(&[], false, false, None, Some(".old"));
    assert_eq!(target_name(&t, &remove).unwrap(), "notes.txt");
}

#[test]
fn basename_takes_leftmost_occurrence() {
    assert_eq!(get_basename("foo.bar", ".bar"), Some("foo"));
    assert_eq!(get_basename("a.bak.bak", ".bak"), Some("a"));
    assert_eq!(get_basename("x.bak.y", ".bak"), Some("x"));
    assert_eq!(get_basename("foo.bar", ".baz"), None);
    assert_eq!(get_basename("ab", "abc"), None);
    assert_eq!(get_basename("", ".bak"), None);
}

#[test]
fn basename_matches_literally() {
    assert_eq!(get_basename("axbak", ".bak"), None);
    assert_eq!(get_basename("a+b", "+b"), Some("a"));
    assert_eq!(get_basename("ab", "(b)"), None);
    assert_eq!(get_basename("abc", ""), Some(""));
    assert_eq!(get_basename("été.bak", ".bak"), Some("été"));
}

#[test]
fn target_name_rules() {
    let both = args(&[], false, false, Some(".md"), Some(".txt"));
    assert_eq!(target_name("dir/a.txt", &both).unwrap(), "dir/a.md");
    let remove = args(&[], false, false, None, Some(".txt"));
    assert_eq!(target_name("a.txt", &remove).unwrap(), "a");
    match target_name("a.md", &remove) {
        Err(MvxError::SuffixMismatch(f, x)) => {
            assert_eq!(f, "a.md");
            assert_eq!(x, ".txt");
        }
        other => panic!("unexpected {:?}", other),
    }
    let none = args(&[], false, false, None, None);
    assert!(matches!(target_name("a.txt", &none), Err(MvxError::NoOperation)));
}

#[test]
fn no_filenames_is_refused() {
    let a = args(&[], false, false, Some(".bak"), None);
    let e = run(&a, &vec![]).unwrap_err();
    assert!(matches!(e, MvxError::NoFilenames));
    assert_eq!(e.message(), "At least one filename  must be provided");
}

#[test]
fn no_suffix_is_refused() {
    let a = args(&["a.txt"], false, false, None, None);
    let e = run(&a, &vec![true]).unwrap_err();
    assert!(matches!(e, MvxError::NoOperation));
    assert_eq!(e.message(), "One must provide either --remove or --add command");
    assert!(matches!(process(&a, Operation::Move), Err(MvxError::NoOperation)));
}

#[test]
fn check_files_reports_first_failure() {
    let a = args(&["a.bak", "b.txt", "c.txt"], false, false, None, Some(".bak"));
    assert!(check_files(&a, &vec![true, true, false]).unwrap_err().message() == "b.txt does not end with .bak");
    let b = args(&["a.bak", "b.txt"], false, false, Some(".x"), None);
    assert!(check_files(&b, &vec![true, true]).is_ok());
    assert_eq!(
        check_files(&b, &vec![true, false]).unwrap_err().message(),
        "b.txt does not exist."
    );
}

#[test]
fn executor_steps() {
    let wet = args(&[], false, false, Some(".x"), None);
    let dry = args(&[], true, false, Some(".x"), None);
    assert!(matches!(copy_fn(&wet, "s", "t"), Effect::Copy(ref s, ref t) if s == "s" && t == "t"));
    assert!(matches!(mv_fn(&wet, "s", "t"), Effect::Rename(ref s, ref t) if s == "s" && t == "t"));
    assert!(matches!(copy_fn(&dry, "s", "t"), Effect::Print(ref l) if l == "cp s t"));
    assert!(matches!(mv_fn(&dry, "s", "t"), Effect::Print(ref l) if l == "mv s t"));
    assert_eq!(operation(&wet), Operation::Move);
    let copying = args(&[], false, true, None, None);
    assert_eq!(operation(&copying), Operation::Copy);
}

#[test]
fn io_error_message_is_kept() {
    let e = MvxError::Io("permission denied".to_string());
    assert_eq!(e.message(), "permission denied");
}
