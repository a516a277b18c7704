//! The ancestor scan: nearest-module precedence, the wrapper and repository
//! boundaries, and the stop at the user's home directory.
use javabox::locator::{
    is_scm_wc_root, module_index, project_index, scan_ancestors, DirMarks, ScanState,
};

fn plain() -> DirMarks {
    DirMarks {
        has_module_descriptor: false,
        has_wrapper_marker: false,
        is_repo_root: false,
        is_user_home: false,
    }
}

#[test]
fn nearest_module_wins() {
    // modules at depth 0 and 2: the nearest (index 0) is selected
    let mut inner = plain();
    inner.has_module_descriptor = true;
    let mut outer = plain();
    outer.has_module_descriptor = true;
    let mut home = plain();
    home.is_user_home = true;
    let marks = vec![inner, plain(), outer, home];
    let st = scan_ancestors(&marks);
    assert_eq!(Some(0), st.module);
    assert_eq!(0, module_index(&st));
}

#[test]
fn wrapper_bounds_module_search_and_names_project() {
    // module at 0, wrapper at 1, another module at 2: the wrapper is the
    // project and the later module is ignored
    let mut m0 = plain();
    m0.has_module_descriptor = true;
    let mut w1 = plain();
    w1.has_wrapper_marker = true;
    let mut m2 = plain();
    m2.has_module_descriptor = true;
    let mut home = plain();
    home.is_user_home = true;
    let marks = vec![m0, w1, m2, home];
    let st = scan_ancestors(&marks);
    assert_eq!(Some(0), st.module);
    assert_eq!(Some(1), st.wrapper);
    assert_eq!(0, module_index(&st));
    assert_eq!(1, project_index(&st));
}

#[test]
fn wrapper_without_module_falls_back_to_start() {
    // a wrapper marker above a start directory with no module descriptor:
    // the delegate runs in place, so both directories are the start
    let mut wrapper = plain();
    wrapper.has_wrapper_marker = true;
    let mut home = plain();
    home.is_user_home = true;
    let marks = vec![plain(), wrapper, home];
    let st = scan_ancestors(&marks);
    assert_eq!(None, st.module);
    assert_eq!(Some(1), st.wrapper);
    assert_eq!(0, module_index(&st));
    assert_eq!(0, project_index(&st));
}

#[test]
fn repo_root_freezes_search() {
    // a repository root at 1 stops module and wrapper recording above it
    let mut r1 = plain();
    r1.is_repo_root = true;
    let mut m2 = plain();
    m2.has_module_descriptor = true;
    let mut home = plain();
    home.is_user_home = true;
    let marks = vec![plain(), r1, m2, home];
    let st = scan_ancestors(&marks);
    assert_eq!(None, st.module);
    assert_eq!(Some(1), st.repo);
    // with nothing found, both directories fall back to the start
    assert_eq!(0, module_index(&st));
    assert_eq!(0, project_index(&st));
}

#[test]
fn scan_stops_at_home() {
    // a module descriptor beyond the home directory is never seen
    let mut home = plain();
    home.is_user_home = true;
    let mut beyond = plain();
    beyond.has_module_descriptor = true;
    let marks = vec![plain(), home, beyond];
    let st = scan_ancestors(&marks);
    assert!(st.stopped);
    assert_eq!(None, st.module);
    let truncated = vec![plain(), home];
    let st2 = scan_ancestors(&truncated);
    assert_eq!(st, st2);
}

#[test]
fn scan_without_markers_visits_all() {
    let marks = vec![plain(), plain()];
    let st = scan_ancestors(&marks);
    assert_eq!(
        ScanState { module: None, wrapper: None, repo: None, stopped: false },
        st
    );
}

#[test]
fn scm_root_detection() {
    assert!(is_scm_wc_root(true, false, false));
    assert!(is_scm_wc_root(false, true, false));
    assert!(is_scm_wc_root(false, false, true));
    assert!(!is_scm_wc_root(false, false, false));
}
