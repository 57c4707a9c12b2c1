use catimini::cmdline::CLIArgs;
use catimini::workspace::{AppState, RootCandidate};
use std::path::{Path, PathBuf};

fn candidates<P: AsRef<Path>>(paths: &[P]) -> Vec<RootCandidate> {
    paths
        .iter()
        .map(|p| RootCandidate {
            path: p.as_ref().display().to_string(),
            is_dir: p.as_ref().is_dir(),
        })
        .collect()
}

fn shown(paths: &[PathBuf]) -> Vec<String> {
    paths.iter().map(|p| p.display().to_string()).collect()
}

#[test]
fn no_path_no_state() {
    let result = AppState::new(&candidates(&(vec![] as Vec<String>)));
    assert!(result.is_none());
}

#[test]
fn single_dir_state() {
    let dir = tempfile::TempDir::new().unwrap();
    let result = AppState::new(&candidates(&vec![dir.path()]));
    assert!(result.is_some());
    let state = result.unwrap();
    assert_eq!(state.root_folders.len(), 1);
    assert_eq!(dir.path().display().to_string(), state.root_folders[0]);
}

#[test]
fn reject_normal_files() {
    let file = tempfile::NamedTempFile::new().unwrap();
    let result = AppState::new(&candidates(&vec![file.path()]));
    assert!(result.is_none());
}

#[test]
fn multiple_dirs_state() {
    let mut dir_paths = vec![];
    let mut temp_dirs = vec![];
    for _ in 0..5 {
        temp_dirs.push(tempfile::TempDir::new().unwrap());
        dir_paths.push(temp_dirs.last().unwrap().path().to_path_buf());
    }
    let result = AppState::new(&candidates(&dir_paths));
    assert!(result.is_some());
    let state = result.unwrap();
    assert_eq!(state.root_folders.len(), 5);
    assert_eq!(shown(&dir_paths), state.root_folders);
}

#[test]
fn mixed_dirs_and_files_state() {
    let dir1 = tempfile::TempDir::new().unwrap();
    let dir2 = tempfile::TempDir::new().unwrap();
    let file1 = tempfile::NamedTempFile::new().unwrap();
    let dir3 = tempfile::TempDir::new().unwrap();
    let file2 = tempfile::NamedTempFile::new().unwrap();
    let file3 = tempfile::NamedTempFile::new().unwrap();
    let dir4 = tempfile::TempDir::new().unwrap();

    let result = AppState::new(&candidates(&vec![
        dir1.path(),
        dir2.path(),
        file1.path(),
        dir3.path(),
        file2.path(),
        file3.path(),
        dir4.path(),
    ]));
    assert!(result.is_some());
    let state = result.unwrap();
    assert_eq!(state.root_folders.len(), 4);
    let expected = vec![dir1.path(), dir2.path(), dir3.path(), dir4.path()];
    let expected: Vec<PathBuf> = expected.iter().map(|p| p.to_path_buf()).collect();
    assert_eq!(shown(&expected), state.root_folders);
}

#[test]
fn only_files_and_missing_paths_give_no_state() {
    let file = tempfile::NamedTempFile::new().unwrap();
    let dir = tempfile::TempDir::new().unwrap();
    let missing = dir.path().join("missing");
    let result = AppState::new(&candidates(&vec![file.path(), missing.as_path()]));
    assert!(result.is_none());
}

#[test]
fn candidates_judged_by_flag_in_order() {
    let given = vec![
        RootCandidate { path: "/b".to_string(), is_dir: true },
        RootCandidate { path: "/x".to_string(), is_dir: false },
        RootCandidate { path: "/a".to_string(), is_dir: true },
    ];
    let state = AppState::new(&given).unwrap();
    assert_eq!(state.root_folders, vec!["/b".to_string(), "/a".to_string()]);
}

#[test]
fn command_line_roots_are_kept() {
    let args = CLIArgs {
        root_directories: vec!["/p".to_string(), "/q".to_string()],
        debug_front: false,
    };
    assert_eq!(args.root_paths("/cwd".to_string()), vec!["/p".to_string(), "/q".to_string()]);
}

#[test]
fn current_dir_is_the_default_root() {
    let args = CLIArgs { root_directories: vec![], debug_front: true };
    assert_eq!(args.root_paths("/cwd".to_string()), vec!["/cwd".to_string()]);
}
