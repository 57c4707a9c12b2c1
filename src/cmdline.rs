//! The options the program is started with.
use vstd::prelude::*;

verus! {

/// The command line: the root directories to browse, and whether the
/// front end opens its debug console.
pub struct CLIArgs {
    pub root_directories: Vec<String>,
    pub debug_front: bool,
}

impl CLIArgs {
    /// The root directories asked for, or the current directory when none was.
    pub open spec fn chosen_roots(&self, current_dir: Seq<char>) -> Seq<Seq<char>> {
        if self.root_directories@.len() == 0 {
            seq![current_dir]
        } else {
            self.root_directories@.map_values(|s: String| s@)
        }
    }

    /// The paths to offer as roots: those given on the command line, or the
    /// current directory `current_dir` when none was given.
    pub fn root_paths(&self, current_dir: String) -> (r: Vec<String>)
        ensures
            r@.map_values(|s: String| s@) == self.chosen_roots(current_dir@),
    {
        let mut r: Vec<String> = Vec::new();
        if self.root_directories.len() == 0 {
            r.push(current_dir);
            assert(r@.map_values(|s: String| s@) =~= seq![current_dir@]);
            return r;
        }
        let mut i: usize = 0;
        while i < self.root_directories.len()
            invariant
                i <= self.root_directories@.len(),
                r@.len() == i,
                forall|j: int| 0 <= j < i ==> (#[trigger] r@[j])@ == self.root_directories@[j]@,
            decreases self.root_directories@.len() - i,
        {
            r.push(self.root_directories[i].clone());
            i = i + 1;
        }
        assert(r@.map_values(|s: String| s@) =~= self.root_directories@.map_values(|s: String| s@));
        r
    }
}

} // verus!
