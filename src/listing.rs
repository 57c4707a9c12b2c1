//! Listing a folder: its children sorted into sub-folders, images and others.
use vstd::prelude::*;

use crate::sniff::{is_image, recognized_image};
use crate::workspace::AppState;

verus! {

/// A child of a listed folder, as the filesystem reported it.
pub enum DirChild {
    /// A directory, by its full path.
    Folder { path: String },
    /// Any other entry, by its full path, with its leading bytes (none where
    /// they could not be read).
    File { path: String, head: Vec<u8> },
    /// An entry that could not be read at all.
    Unreadable,
}

/// Where a child of a folder goes in its listing.
pub enum Bucket {
    Folders,
    Images,
    Others,
    Dropped,
}

/// Directories go to the folders, images to the images; other files go to
/// the others only when the caller asked not to ignore them.
pub open spec fn bucket_of(is_dir: bool, is_image: bool, ignore_others: Option<bool>) -> Bucket {
    if is_dir {
        Bucket::Folders
    } else if is_image {
        Bucket::Images
    } else if ignore_others == Some(false) {
        Bucket::Others
    } else {
        Bucket::Dropped
    }
}

/// A listing as three sequences of paths.
pub struct Listing {
    pub folders: Seq<Seq<char>>,
    pub images: Seq<Seq<char>>,
    pub others: Seq<Seq<char>>,
}

pub open spec fn empty_listing() -> Listing {
    Listing { folders: seq![], images: seq![], others: seq![] }
}

/// `l` with `path` added to the bucket `b`.
pub open spec fn with_entry(l: Listing, path: Seq<char>, b: Bucket) -> Listing {
    match b {
        Bucket::Folders => Listing { folders: l.folders.push(path), ..l },
        Bucket::Images => Listing { images: l.images.push(path), ..l },
        Bucket::Others => Listing { others: l.others.push(path), ..l },
        Bucket::Dropped => l,
    }
}

/// `l` with the child `c` sorted in; an unreadable child is skipped.
pub open spec fn with_child(l: Listing, c: DirChild, ignore_others: Option<bool>) -> Listing {
    match c {
        DirChild::Folder { path } => with_entry(l, path@, bucket_of(true, false, ignore_others)),
        DirChild::File { path, head } => with_entry(
            l,
            path@,
            bucket_of(false, recognized_image(head@), ignore_others),
        ),
        DirChild::Unreadable => l,
    }
}

/// The listing of a folder whose children are `children`.
pub open spec fn listing_of(children: Seq<DirChild>, ignore_others: Option<bool>) -> Listing
    decreases children.len(),
{
    if children.len() == 0 {
        empty_listing()
    } else {
        with_child(listing_of(children.drop_last(), ignore_others), children.last(), ignore_others)
    }
}

/// Why a folder could not be listed.
pub enum ListError {
    /// The path could not be opened as a directory.
    DirectoryUnreadable(String),
}

/// The content of a folder, by full paths.
pub struct FolderContent {
    pub folders: Vec<String>,
    pub images: Vec<String>,
    pub others: Vec<String>,
}

impl View for FolderContent {
    type V = Listing;

    open spec fn view(&self) -> Listing {
        Listing {
            folders: self.folders@.map_values(|s: String| s@),
            images: self.images@.map_values(|s: String| s@),
            others: self.others@.map_values(|s: String| s@),
        }
    }
}

impl FolderContent {
    /// A listing with nothing in it.
    pub fn new() -> (r: FolderContent)
        ensures
            r@ == empty_listing(),
    {
        let r = FolderContent { folders: Vec::new(), images: Vec::new(), others: Vec::new() };
        assert(r@.folders =~= seq![]);
        assert(r@.images =~= seq![]);
        assert(r@.others =~= seq![]);
        r
    }

    /// Adds `path` to the bucket that `bucket_of` gives.
    pub fn place(&mut self, path: String, is_dir: bool, is_image: bool, ignore_others: Option<bool>)
        ensures
            final(self)@ == with_entry(old(self)@, path@, bucket_of(is_dir, is_image, ignore_others)),
    {
        if is_dir {
            self.folders.push(path);
            assert(final(self)@.folders =~= old(self)@.folders.push(path@));
        } else if is_image {
            self.images.push(path);
            assert(final(self)@.images =~= old(self)@.images.push(path@));
        } else if let Some(false) = ignore_others {
            self.others.push(path);
            assert(final(self)@.others =~= old(self)@.others.push(path@));
        }
    }

    /// Sorts one child of the listed folder in; files are told apart by
    /// their content, never by their name.
    pub fn add_dir_entry(&mut self, entry: &DirChild, ignore_others: Option<bool>)
        ensures
            final(self)@ == with_child(old(self)@, *entry, ignore_others),
    {
        match entry {
            DirChild::Folder { path } => self.place(path.clone(), true, false, ignore_others),
            DirChild::File { path, head } => {
                let image = is_image(head.as_slice());
                self.place(path.clone(), false, image, ignore_others);
            },
            DirChild::Unreadable => {},
        }
    }
}

/// The listing of a folder whose children are `children`.
pub fn list_children(children: &Vec<DirChild>, ignore_others: Option<bool>) -> (r: FolderContent)
    ensures
        r@ == listing_of(children@, ignore_others),
{
    let mut res = FolderContent::new();
    let mut i: usize = 0;
    while i < children.len()
        invariant
            i <= children@.len(),
            res@ == listing_of(children@.subrange(0, i as int), ignore_others),
        decreases children@.len() - i,
    {
        proof {
            let next = children@.subrange(0, i + 1);
            assert(next.drop_last() == children@.subrange(0, i as int));
            assert(next.last() == children@[i as int]);
        }
        res.add_dir_entry(&children[i], ignore_others);
        i = i + 1;
    }
    assert(children@.subrange(0, children@.len() as int) == children@);
    res
}

/// The home view: the roots as folders, and nothing else.
pub open spec fn roots_listing(roots: Seq<Seq<char>>) -> Listing {
    Listing { folders: roots, images: seq![], others: seq![] }
}

/// `r` is the answer for the folder `path`, given what opening it gave:
/// nothing when it could not be opened as a directory, else its children.
pub open spec fn answers(
    path: Seq<char>,
    opened: Option<Vec<DirChild>>,
    ignore_others: Option<bool>,
    r: Result<FolderContent, ListError>,
) -> bool {
    match opened {
        None => (r matches Err(ListError::DirectoryUnreadable(q)) && q@ == path),
        Some(children) => (r matches Ok(c) && c@ == listing_of(children@, ignore_others)),
    }
}

/// The answer for the folder `path`, given what opening it gave.
pub fn list_opened(path: String, opened: Option<Vec<DirChild>>, ignore_others: Option<bool>) -> (r:
    Result<FolderContent, ListError>)
    ensures
        answers(path@, opened, ignore_others, r),
{
    match opened {
        None => Err(ListError::DirectoryUnreadable(path)),
        Some(children) => Ok(list_children(&children, ignore_others)),
    }
}

/// The roots, each as a folder.
pub fn list_roots(state: &AppState) -> (r: FolderContent)
    ensures
        r@ == roots_listing(state.roots()),
{
    let mut res = FolderContent::new();
    let mut i: usize = 0;
    assert(state.roots().subrange(0, 0) =~= seq![]);
    while i < state.root_folders.len()
        invariant
            i <= state.root_folders@.len(),
            res@ == roots_listing(state.roots().subrange(0, i as int)),
        decreases state.root_folders@.len() - i,
    {
        let ghost before = res@.folders;
        res.folders.push(state.root_folders[i].clone());
        assert(res@.folders =~= before.push(state.root_folders@[i as int]@));
        assert(res@.folders =~= state.roots().subrange(0, i + 1));
        i = i + 1;
    }
    assert(state.roots().subrange(0, state.roots().len() as int) == state.roots());
    res
}

/// Lists the folder `path`, or the roots when no path is given. The folder
/// is opened through `open_dir`, which gives its children, or nothing when
/// the path cannot be opened as a directory; for the roots it is not called.
pub fn list_folder_files<D>(
    state: &AppState,
    path: Option<String>,
    ignore_others: Option<bool>,
    open_dir: D,
) -> (r: Result<FolderContent, ListError>) where D: FnOnce(String) -> Option<Vec<DirChild>>
    requires
        path matches Some(p) ==> open_dir.requires((p,)),
    ensures
        path is None ==> (r matches Ok(c) && c@ == roots_listing(state.roots())),
        path matches Some(p) ==> exists|opened: Option<Vec<DirChild>>|
            open_dir.ensures((p,), opened) && #[trigger] answers(p@, opened, ignore_others, r),
{
    match path {
        None => Ok(list_roots(state)),
        Some(p) => {
            let opened = open_dir(p.clone());
            list_opened(p, opened, ignore_others)
        },
    }
}

} // verus!
