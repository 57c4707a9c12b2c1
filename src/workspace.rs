use vstd::prelude::*;

use crate::confine::{is_below, lies_below, within_roots};
use vstd::utf8::encode_utf8;

verus! {

/// A path offered as a root, with what the filesystem said of it.
pub struct RootCandidate {
    pub path: String,
    pub is_dir: bool,
}

/// The paths of the candidates that are directories, in the order given.
pub open spec fn accepted_roots(candidates: Seq<RootCandidate>) -> Seq<Seq<char>>
    decreases candidates.len(),
{
    if candidates.len() == 0 {
        seq![]
    } else {
        let rest = accepted_roots(candidates.drop_last());
        if candidates.last().is_dir {
            rest.push(candidates.last().path@)
        } else {
            rest
        }
    }
}

/// Where no candidate is a directory, no root is accepted.
pub proof fn lemma_no_directory_no_root(candidates: Seq<RootCandidate>)
    requires
        forall|i: int| 0 <= i < candidates.len() ==> !(#[trigger] candidates[i]).is_dir,
    ensures
        accepted_roots(candidates).len() == 0,
    decreases candidates.len(),
{
    if candidates.len() > 0 {
        let rest = candidates.drop_last();
        assert forall|i: int| 0 <= i < rest.len() implies !(#[trigger] rest[i]).is_dir by {
            assert(rest[i] == candidates[i]);
        }
        lemma_no_directory_no_root(rest);
    }
}

/// The root directories that may be browsed; never empty once built.
pub struct AppState {
    pub root_folders: Vec<String>,
}

impl AppState {
    /// The roots, as character sequences.
    pub open spec fn roots(&self) -> Seq<Seq<char>> {
        self.root_folders@.map_values(|r: String| r@)
    }

    pub open spec fn wf(&self) -> bool {
        self.root_folders@.len() > 0
    }

    /// Keeps the candidates that are directories, in order; `None` when
    /// none is (there is nothing to browse).
    pub fn new(candidates: &Vec<RootCandidate>) -> (r: Option<AppState>)
        ensures
            r is None <==> accepted_roots(candidates@).len() == 0,
            r matches Some(s) ==> s.wf() && s.roots() == accepted_roots(candidates@),
    {
        let mut state = AppState { root_folders: Vec::new() };
        let mut i: usize = 0;
        while i < candidates.len()
            invariant
                i <= candidates@.len(),
                state.roots() == accepted_roots(candidates@.subrange(0, i as int)),
            decreases candidates@.len() - i,
        {
            let c = &candidates[i];
            proof {
                let next = candidates@.subrange(0, i + 1);
                assert(next.drop_last() == candidates@.subrange(0, i as int));
                assert(next.last() == candidates@[i as int]);
            }
            if c.is_dir {
                state.root_folders.push(c.path.clone());
                assert(state.roots() =~= accepted_roots(candidates@.subrange(0, i as int)).push(c.path@));
            }
            i = i + 1;
        }
        assert(candidates@.subrange(0, candidates@.len() as int) == candidates@);
        if state.root_folders.len() == 0 {
            None
        } else {
            Some(state)
        }
    }

    /// Whether `path` lies strictly below one of the roots. This is decided
    /// from the text of the paths alone, before anything is looked up on disk.
    pub fn permits(&self, path: &String) -> (r: bool)
        ensures
            r == within_roots(self.roots(), path@),
    {
        let p: &[u8] = path.as_str().as_bytes();
        let mut k: usize = 0;
        while k < self.root_folders.len()
            invariant
                k <= self.root_folders@.len(),
                p@ == encode_utf8(path@),
                forall|kk: int|
                    0 <= kk < k ==> !lies_below(encode_utf8(#[trigger] self.roots()[kk]), p@),
            decreases self.root_folders@.len() - k,
        {
            let root: &[u8] = self.root_folders[k].as_str().as_bytes();
            if is_below(root, p) {
                assert(self.roots()[k as int] == self.root_folders@[k as int]@);
                return true;
            }
            k = k + 1;
        }
        false
    }
}

} // verus!
