//! Serving the bytes of an image that lies below one of the roots.
use vstd::prelude::*;

use crate::confine::within_roots;
use crate::sniff::{is_image, recognized_image};
use crate::workspace::AppState;

verus! {

/// What is served for a file: its whole content where its leading bytes
/// were recognised as an image and it could be read, and nothing otherwise.
pub open spec fn served(recognized: bool, content: Option<Vec<u8>>) -> Seq<u8> {
    match content {
        Some(bytes) if recognized => bytes@,
        _ => seq![],
    }
}

/// The bytes to serve for a file, given whether it was recognised as an
/// image and what reading it gave.
pub fn image_payload(recognized: bool, content: Option<Vec<u8>>) -> (r: Vec<u8>)
    ensures
        r@ == served(recognized, content),
{
    match content {
        Some(bytes) if recognized => bytes,
        _ => Vec::new(),
    }
}

/// `r` is what is served for a file below the roots whose leading bytes were
/// `head`: where they are those of an image, what one read of the whole file
/// through `read` gave; nothing otherwise.
pub open spec fn fetched<R: FnOnce(String) -> Option<Vec<u8>>>(
    path: String,
    head: Option<Vec<u8>>,
    read: R,
    r: Seq<u8>,
) -> bool {
    match head {
        Some(h) if recognized_image(h@) => exists|content: Option<Vec<u8>>|
            read.ensures((path,), content) && r == #[trigger] served(true, content),
        _ => r == Seq::<u8>::empty(),
    }
}

/// Serves the image at `path`. A path that does not lie below one of the
/// roots gets nothing, and neither `peek` nor `read` is called for it. Else
/// `peek` gives the leading bytes of the file (nothing when it cannot be
/// opened); unless they are those of an image the file is not read, and
/// nothing is served. Else `read` gives the whole file, which is served as
/// it is; a failed read serves nothing.
pub fn fetch_image<P, R>(state: &AppState, path: String, peek: P, read: R) -> (r: Vec<u8>) where
    P: FnOnce(String) -> Option<Vec<u8>>,
    R: FnOnce(String) -> Option<Vec<u8>>,

    requires
        peek.requires((path,)),
        read.requires((path,)),
    ensures
        !within_roots(state.roots(), path@) ==> r@ == Seq::<u8>::empty(),
        within_roots(state.roots(), path@) ==> exists|head: Option<Vec<u8>>|
            peek.ensures((path,), head) && #[trigger] fetched(path, head, read, r@),
{
    if !state.permits(&path) {
        return Vec::new();
    }
    let head = peek(path.clone());
    let recognized = match &head {
        Some(h) => is_image(h.as_slice()),
        None => false,
    };
    if !recognized {
        assert(fetched(path, head, read, Seq::<u8>::empty()));
        return Vec::new();
    }
    let content = read(path.clone());
    let r = image_payload(true, content);
    assert(fetched(path, head, read, r@));
    r
}

} // verus!
