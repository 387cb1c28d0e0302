use cli_shell::error::ShellError;
use cli_shell::fsops::{
    cd_action, contains_flag, create_directory_action, first_non_flag, list_path_action,
    mkdir_request, move_file_action, mv_request, non_flag_args, remove_directory_action,
    remove_path_action, rm_request, touch_action, CdAction, ListAction, MkdirAction, MoveAction,
    RemoveAction, RmdirAction, TouchAction,
};

fn args(items: &[&str]) -> Vec<String> {
    items.iter().map(|s| s.to_string()).collect()
}

#[test]
fn test_flag_and_operand_handling() {
    let a = args(&["-p", "one", "-v", "two"]);
    assert!(contains_flag(&a, "-p"));
    assert!(!contains_flag(&a, "-r"));
    assert_eq!(non_flag_args(&a), args(&["one", "two"]));
    assert_eq!(first_non_flag(&a), Some("one".to_string()));
    assert_eq!(first_non_flag(&args(&["-l"])), None);
}

#[test]
fn test_mkdir_and_rm_requests() {
    let (parents, dirs) = mkdir_request(&args(&["-p", "a/b"]));
    assert!(parents);
    assert_eq!(dirs, args(&["a/b"]));

    let (recursive, files) = rm_request(&args(&["-R", "x", "y"]));
    assert!(recursive);
    assert_eq!(files, args(&["x", "y"]));
    let (recursive, _) = rm_request(&args(&["x"]));
    assert!(!recursive);
}

#[test]
fn test_mv_request_needs_two_operands() {
    let pair = mv_request(&args(&["a", "b"])).unwrap();
    assert_eq!(pair, ("a".to_string(), "b".to_string()));
    match mv_request(&args(&["only"])) {
        Err(ShellError::Builtin(m)) => {
            assert_eq!(m, "mv: missing destination file operand");
        }
        _ => panic!("one operand should be refused"),
    }
}

#[test]
fn test_create_directory_decisions() {
    assert_eq!(create_directory_action(true, false), MkdirAction::RefuseExisting);
    assert_eq!(create_directory_action(true, true), MkdirAction::KeepExisting);
    assert_eq!(create_directory_action(false, true), MkdirAction::CreateWithParents);
    assert_eq!(create_directory_action(false, false), MkdirAction::Create);
}

#[test]
fn test_touch_decisions() {
    assert_eq!(touch_action(true, false), TouchAction::UpdateTimestamp);
    assert_eq!(touch_action(true, true), TouchAction::UpdateTimestamp);
    assert_eq!(touch_action(false, true), TouchAction::SkipMissing);
    assert_eq!(touch_action(false, false), TouchAction::CreateFile);
}

#[test]
fn test_remove_path_decisions() {
    assert_eq!(remove_path_action(false, false, false, true, false), RemoveAction::SkipMissing);
    assert_eq!(remove_path_action(false, false, false, false, false), RemoveAction::RefuseMissing);
    assert_eq!(remove_path_action(true, true, true, false, false), RemoveAction::RemoveTree);
    assert_eq!(remove_path_action(true, true, false, false, true), RemoveAction::RemoveEmptyDir);
    assert_eq!(remove_path_action(true, true, false, false, false), RemoveAction::RefuseDirectory);
    assert_eq!(remove_path_action(true, false, false, false, false), RemoveAction::RemoveFile);
}

#[test]
fn test_remove_directory_decisions() {
    assert_eq!(remove_directory_action(false, false, false), RmdirAction::RefuseMissing);
    assert_eq!(remove_directory_action(true, false, false), RmdirAction::RefuseNotDirectory);
    assert_eq!(remove_directory_action(true, true, false), RmdirAction::RefuseNotEmpty);
    assert_eq!(remove_directory_action(true, true, true), RmdirAction::RemoveDir);
}

#[test]
fn test_move_file_decisions() {
    assert_eq!(move_file_action(false, false, false, false, false), MoveAction::RefuseMissing);
    assert_eq!(move_file_action(true, false, true, false, true), MoveAction::SkipExisting);
    assert_eq!(move_file_action(true, false, true, true, false), MoveAction::MoveIntoDirectory);
    assert_eq!(move_file_action(true, false, false, false, false), MoveAction::Rename);
    assert_eq!(move_file_action(true, true, true, true, false), MoveAction::Rename);
}

#[test]
fn test_cd_decisions() {
    assert_eq!(cd_action(false, false, false), CdAction::GoHome);
    assert_eq!(cd_action(true, false, false), CdAction::RefuseMissing);
    assert_eq!(cd_action(true, true, false), CdAction::RefuseNotDirectory);
    assert_eq!(cd_action(true, true, true), CdAction::ChangeTo);
}

#[test]
fn test_list_path_decisions() {
    assert_eq!(list_path_action(false, false, false), ListAction::RefuseMissing);
    assert_eq!(list_path_action(true, true, false), ListAction::ListFile);
    assert_eq!(list_path_action(true, false, true), ListAction::ListDirectory);
    assert_eq!(list_path_action(true, false, false), ListAction::Ignore);
}
