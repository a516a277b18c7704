//! The ancestor-directory scan: classifying the module root, the project
//! (wrapper) root and the repository root from per-directory markers.
//!
//! The scan is a fold over the chain of ancestors of the starting directory,
//! index 0 being the starting directory itself and higher indices its
//! ancestors in order.
use vstd::prelude::*;

verus! {

/// What one directory of the ancestor chain shows the scan.
#[derive(Clone, Copy, Debug, PartialEq, Eq, Structural)]
pub struct DirMarks {
    /// The directory holds the tool family's module descriptor.
    pub has_module_descriptor: bool,
    /// The directory holds a wrapper marker (script or wrapper directory).
    pub has_wrapper_marker: bool,
    /// The directory is a source-control working-copy root.
    pub is_repo_root: bool,
    /// The directory is the user's home directory.
    pub is_user_home: bool,
}

/// The scan's accumulated state: first matches, and whether the walk stopped.
#[derive(Clone, Copy, Debug, PartialEq, Eq, Structural)]
pub struct ScanState {
    /// Index of the nearest directory with a module descriptor, if any.
    pub module: Option<usize>,
    /// Index of the nearest directory with a wrapper marker, if any.
    pub wrapper: Option<usize>,
    /// Index of the nearest source-control root, if any.
    pub repo: Option<usize>,
    /// The user's home directory was reached.
    pub stopped: bool,
}

/// The state before any directory is visited.
pub open spec fn scan_init() -> ScanState {
    ScanState { module: None, wrapper: None, repo: None, stopped: false }
}

/// One step of the scan at directory `i`: while no repository root is known,
/// the first module descriptor (still outside any wrapper) and the first
/// wrapper marker are recorded; the first repository root freezes the search;
/// reaching the user home stops the walk. A stopped state never changes.
pub open spec fn scan_step(st: ScanState, m: DirMarks, i: usize) -> ScanState {
    if st.stopped {
        st
    } else {
        let module = if st.repo is None && st.wrapper is None && st.module is None
            && m.has_module_descriptor {
            Some(i)
        } else {
            st.module
        };
        let wrapper = if st.repo is None && st.wrapper is None && m.has_wrapper_marker {
            Some(i)
        } else {
            st.wrapper
        };
        let repo = if st.repo is None && m.is_repo_root {
            Some(i)
        } else {
            st.repo
        };
        ScanState { module, wrapper, repo, stopped: m.is_user_home }
    }
}

/// The state after the first `n` directories of the chain.
pub open spec fn scan_upto(marks: Seq<DirMarks>, n: int) -> ScanState
    decreases n,
{
    if n <= 0 {
        scan_init()
    } else {
        scan_step(scan_upto(marks, n - 1), marks[n - 1], (n - 1) as usize)
    }
}

/// The state after the whole chain.
pub open spec fn scan_spec(marks: Seq<DirMarks>) -> ScanState {
    scan_upto(marks, marks.len() as int)
}

/// Classifies the ancestor chain. Visits the directories from the start
/// outward and stops at the user's home directory.
pub fn scan_ancestors(marks: &Vec<DirMarks>) -> (r: ScanState)
    ensures
        r == scan_spec(marks@),
{
    let n = marks.len();
    let mut st = ScanState { module: None, wrapper: None, repo: None, stopped: false };
    let mut i: usize = 0;
    while i < n && !st.stopped
        invariant
            n == marks@.len(),
            i <= n,
            st == scan_upto(marks@, i as int),
            st.stopped ==> st == scan_spec(marks@),
        decreases n - i,
    {
        let m = marks[i];
        if !st.stopped {
            if st.repo.is_none() {
                if st.wrapper.is_none() && st.module.is_none() && m.has_module_descriptor {
                    st.module = Some(i);
                }
                if st.wrapper.is_none() && m.has_wrapper_marker {
                    st.wrapper = Some(i);
                }
                if m.is_repo_root {
                    st.repo = Some(i);
                }
            }
            st.stopped = m.is_user_home;
        }
        i = i + 1;
        proof {
            if st.stopped {
                lemma_scan_frozen(marks@, i as int, marks@.len() as int);
            }
        }
    }
    st
}

/// Once the scan has stopped, later directories change nothing.
pub proof fn lemma_scan_frozen(marks: Seq<DirMarks>, n: int, m: int)
    requires
        0 <= n <= m <= marks.len(),
        scan_upto(marks, n).stopped,
    ensures
        scan_upto(marks, m) == scan_upto(marks, n),
    decreases m - n,
{
    if n < m {
        lemma_scan_frozen(marks, n, m - 1);
    }
}

/// The walk terminates at or before the user's home directory: the state of
/// the whole chain is already the state just past the first home directory,
/// whatever lies beyond it.
pub proof fn lemma_scan_stops_at_home(marks: Seq<DirMarks>, k: int)
    requires
        0 <= k < marks.len(),
        marks[k].is_user_home,
    ensures
        scan_spec(marks) == scan_upto(marks, k + 1),
{
    assert(scan_upto(marks, k + 1).stopped);
    lemma_scan_frozen(marks, k + 1, marks.len() as int);
}

/// The recorded indices point inside the visited prefix, at directories that
/// carry the matching marker, and the module lies at or below the wrapper.
pub open spec fn scan_wf(marks: Seq<DirMarks>, st: ScanState) -> bool {
    &&& (st.module matches Some(m) ==> m < marks.len() && marks[m as int].has_module_descriptor)
    &&& (st.wrapper matches Some(w) ==> w < marks.len() && marks[w as int].has_wrapper_marker)
    &&& (st.repo matches Some(p) ==> p < marks.len() && marks[p as int].is_repo_root)
    &&& (st.module matches Some(m) ==> st.wrapper matches Some(w) ==> m <= w)
}

/// The inductive invariant of the scan after `n` steps: recorded indices lie
/// in the visited prefix at directories with the matching marker, the module
/// is the first module descriptor of the chain, the module lies at or below
/// the wrapper, and a state with nothing found has seen no module descriptor.
pub open spec fn scan_inv(marks: Seq<DirMarks>, n: int, st: ScanState) -> bool {
    &&& (st.module matches Some(m) ==> m < n && marks[m as int].has_module_descriptor
        && (forall|j: int| 0 <= j < m ==> !marks[j].has_module_descriptor))
    &&& (st.wrapper matches Some(w) ==> w < n && marks[w as int].has_wrapper_marker)
    &&& (st.repo matches Some(p) ==> p < n && marks[p as int].is_repo_root)
    &&& (st.module matches Some(m) ==> (st.wrapper matches Some(w) ==> m <= w))
    &&& (st.module is None && st.wrapper is None && st.repo is None && !st.stopped
        ==> forall|j: int| 0 <= j < n ==> !marks[j].has_module_descriptor)
}

/// Nothing recorded is forgotten, and a state that has found no marker at all
/// has seen none: the scan records the nearest (first) match of each kind.
pub proof fn lemma_scan_invariants(marks: Seq<DirMarks>, n: int)
    requires
        0 <= n <= marks.len(),
        marks.len() <= usize::MAX,
    ensures
        scan_inv(marks, n, scan_upto(marks, n)),
        scan_wf(marks, scan_upto(marks, n)),
    decreases n,
{
    if n > 0 {
        lemma_scan_invariants(marks, n - 1);
        let prev = scan_upto(marks, n - 1);
        let st = scan_upto(marks, n);
        assert(st == scan_step(prev, marks[n - 1], (n - 1) as usize));
        if !prev.stopped && prev.repo is None && prev.wrapper is None && prev.module is None
            && marks[n - 1].has_module_descriptor {
            assert(st.module == Some((n - 1) as usize));
            assert(forall|j: int| 0 <= j < n - 1 ==> !marks[j].has_module_descriptor);
        }
    }
}

/// Nearest-module precedence: of two directories that both hold a module
/// descriptor, the scan never selects the farther one, and what it selects
/// is at or below the nearer.
pub proof fn lemma_nearest_module_wins(marks: Seq<DirMarks>, d1: int, d2: int)
    requires
        marks.len() <= usize::MAX,
        0 <= d1 < d2 < marks.len(),
        marks[d1].has_module_descriptor,
        marks[d2].has_module_descriptor,
        scan_spec(marks).module is Some,
    ensures
        scan_spec(marks).module matches Some(m) ==> m <= d1 && m < d2,
{
    lemma_scan_invariants(marks, marks.len() as int);
}

/// The resolved module directory: the nearest module descriptor, or the
/// starting directory itself when none was found.
pub fn module_index(st: &ScanState) -> (r: usize)
    ensures
        st.module matches Some(m) ==> r == m,
        st.module is None ==> r == 0,
{
    match st.module {
        Some(m) => m,
        None => 0,
    }
}

/// The resolved project directory: the nearest wrapper marker when a module
/// was found, the module directory itself when no wrapper was, and the
/// starting directory when no module descriptor was found anywhere - the
/// delegate then runs in place, wrapper or not.
pub fn project_index(st: &ScanState) -> (r: usize)
    ensures
        st.module is None ==> r == 0,
        st.module is Some ==> (st.wrapper matches Some(w) ==> r == w),
        st.module matches Some(m) ==> (st.wrapper is None ==> r == m),
{
    match st.module {
        None => 0,
        Some(m) => match st.wrapper {
            Some(w) => w,
            None => m,
        },
    }
}

/// The project directory is an ancestor-or-self of the module directory,
/// which is an ancestor-or-self of the starting directory.
pub proof fn lemma_location_ordered(marks: Seq<DirMarks>)
    requires
        marks.len() <= usize::MAX,
    ensures
        ({
            let st = scan_spec(marks);
            st.module matches Some(m) ==> st.wrapper matches Some(w) ==> m <= w
        }),
{
    lemma_scan_invariants(marks, marks.len() as int);
}

/// Whether a directory is a source-control working-copy root, judged from
/// the presence of version-control metadata: a `.git/config` file, a `.svn`
/// directory or a `.hg` directory.
pub fn is_scm_wc_root(git_config_is_file: bool, svn_is_dir: bool, hg_is_dir: bool) -> (r: bool)
    ensures
        r == (git_config_is_file || svn_is_dir || hg_is_dir),
{
    git_config_is_file || svn_is_dir || hg_is_dir
}

} // verus!
