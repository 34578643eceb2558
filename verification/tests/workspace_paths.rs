use hybridtrade::workspace::{
    command_cwd_candidate, ensure_components_within_workspace, invalid_path_message,
    not_a_directory_message, rejoin_missing_suffix, workspace_candidate,
};

fn parts(items: &[&str]) -> Vec<String> {
    items.iter().map(|s| s.to_string()).collect()
}

#[test]
fn relative_requests_join_the_root() {
    let root = parts(&["/", "work"]);
    assert_eq!(workspace_candidate(&root, &parts(&["notes", "a.txt"]), false), parts(&["/", "work", "notes", "a.txt"]));
    assert_eq!(workspace_candidate(&root, &parts(&["/", "etc", "passwd"]), true), parts(&["/", "etc", "passwd"]));
    assert_eq!(command_cwd_candidate(&root, None, false), root);
    assert_eq!(command_cwd_candidate(&root, Some(&parts(&["src"])), false), parts(&["/", "work", "src"]));
}

#[test]
fn missing_parts_are_reattached_in_order() {
    // `/work/new/dir/file.txt` where only `/work` exists: the suffix is
    // collected from the last component back.
    let existing = parts(&["/", "work"]);
    let suffix_rev = parts(&["file.txt", "dir", "new"]);
    assert_eq!(rejoin_missing_suffix(&existing, &suffix_rev), parts(&["/", "work", "new", "dir", "file.txt"]));
    assert_eq!(rejoin_missing_suffix(&existing, &Vec::new()), existing);
}

#[test]
fn containment_is_decided_by_components() {
    let root = parts(&["/", "work"]);
    assert_eq!(
        ensure_components_within_workspace(&parts(&["/", "work", "a.txt"]), &root, "/work/a.txt", "/work"),
        Ok(())
    );
    assert_eq!(ensure_components_within_workspace(&root, &root, "/work", "/work"), Ok(()));
    assert_eq!(
        ensure_components_within_workspace(&parts(&["/", "workspace", "a"]), &root, "/workspace/a", "/work"),
        Err("path `/workspace/a` nằm ngoài workspace `/work`".to_string())
    );
    // `../escape.txt` asked of `/tmp/ws` resolves beside the workspace.
    let escaped = rejoin_missing_suffix(&parts(&["/", "tmp"]), &parts(&["escape.txt"]));
    let error = ensure_components_within_workspace(&escaped, &parts(&["/", "tmp", "ws"]), "/tmp/escape.txt", "/tmp/ws")
        .unwrap_err();
    assert!(error.contains("nằm ngoài workspace"));
}

#[test]
fn path_error_messages() {
    assert_eq!(invalid_path_message("/"), "path `/` không hợp lệ");
    assert_eq!(not_a_directory_message("/work/a.txt"), "cwd `/work/a.txt` không phải thư mục");
}
