//! The last component of a Unix path.
use vstd::prelude::*;

verus! {

/// What a path is made of: bytes, or characters.
pub trait PathUnit: Sized + Copy {
    /// Whether this is the separator `/`.
    spec fn is_separator(self) -> bool;

    /// Whether this is a full stop.
    spec fn is_dot(self) -> bool;

    fn separator(self) -> (yes: bool)
        ensures
            yes == self.is_separator(),
    ;

    fn dot(self) -> (yes: bool)
        ensures
            yes == self.is_dot(),
    ;
}

impl PathUnit for u8 {
    open spec fn is_separator(self) -> bool {
        self == 0x2f
    }

    open spec fn is_dot(self) -> bool {
        self == 0x2e
    }

    fn separator(self) -> (yes: bool) {
        self == 0x2f
    }

    fn dot(self) -> (yes: bool) {
        self == 0x2e
    }
}

impl PathUnit for char {
    open spec fn is_separator(self) -> bool {
        self == '/'
    }

    open spec fn is_dot(self) -> bool {
        self == '.'
    }

    fn separator(self) -> (yes: bool) {
        self == '/'
    }

    fn dot(self) -> (yes: bool) {
        self == '.'
    }
}

/// Where the part of `path` after its last separator starts.
pub open spec fn last_piece_start<U: PathUnit>(path: Seq<U>) -> int
    decreases path.len(),
{
    if path.len() == 0 || path.last().is_separator() {
        path.len() as int
    } else {
        last_piece_start(path.drop_last())
    }
}

/// A piece between separators that stands for nothing: an empty one, or a single full stop.
pub open spec fn is_empty_piece<U: PathUnit>(piece: Seq<U>) -> bool {
    piece.len() == 0 || (piece.len() == 1 && piece[0].is_dot())
}

/// The piece that leads to the parent directory.
pub open spec fn is_parent_piece<U: PathUnit>(piece: Seq<U>) -> bool {
    piece.len() == 2 && piece[0].is_dot() && piece[1].is_dot()
}

/// The last piece of `path` that is not empty and not a single full stop. There is none for the
/// root, the empty path, or a path that ends in the parent directory.
pub open spec fn file_name_of<U: PathUnit>(path: Seq<U>) -> Option<Seq<U>>
    decreases path.len(),
{
    let start = last_piece_start(path);
    let piece = path.skip(start);
    if is_empty_piece(piece) {
        if start <= 0 {
            None
        } else {
            proof {
                lemma_last_piece_start(path);
            }
            file_name_of(path.take(start - 1))
        }
    } else if is_parent_piece(piece) {
        None
    } else {
        Some(piece)
    }
}

/// The last piece starts right behind a separator or at the start of the path, and holds none.
pub proof fn lemma_last_piece_start<U: PathUnit>(path: Seq<U>)
    ensures
        0 <= last_piece_start(path) <= path.len(),
        last_piece_start(path) > 0 ==> path[last_piece_start(path) - 1].is_separator(),
        forall|i: int|
            last_piece_start(path) <= i < path.len() ==> !(#[trigger] path[i]).is_separator(),
    decreases path.len(),
{
    if path.len() > 0 && !path.last().is_separator() {
        lemma_last_piece_start(path.drop_last());
        assert forall|i: int| last_piece_start(path) <= i < path.len() implies !(
        #[trigger] path[i]).is_separator() by {
            if i < path.len() - 1 {
                assert(path[i] == path.drop_last()[i]);
            }
        }
    }
}

/// Where the last component of `path` starts and ends, if it has one.
pub fn file_name<U: PathUnit>(path: &Vec<U>) -> (range: Option<(usize, usize)>)
    ensures
        match range {
            Some((start, end)) => start <= end <= path@.len() && file_name_of(path@) == Some(
                path@.subrange(start as int, end as int),
            ),
            None => file_name_of(path@) is None,
        },
{
    let mut end: usize = path.len();
    assert(path@.take(end as int) == path@);
    loop
        invariant
            end <= path.len(),
            file_name_of(path@.take(end as int)) == file_name_of(path@),
        decreases end,
    {
        let ghost whole = path@.take(end as int);
        let mut start: usize = end;
        assert(whole.take(start as int) == whole);
        while start > 0 && !path[start - 1].separator()
            invariant
                start <= end <= path.len(),
                whole == path@.take(end as int),
                last_piece_start(whole.take(start as int)) == last_piece_start(whole),
            decreases start,
        {
            assert(whole.take(start as int).drop_last() == whole.take(start - 1));
            start = start - 1;
        }
        assert(last_piece_start(whole) == start);
        let ghost piece = whole.skip(start as int);
        assert(piece == path@.subrange(start as int, end as int));
        let length: usize = end - start;
        if length == 0 || (length == 1 && path[start].dot()) {
            if start == 0 {
                return None;
            }
            assert(whole.take(start - 1) == path@.take(start - 1));
            end = start - 1;
        } else if length == 2 && path[start].dot() && path[start + 1].dot() {
            return None;
        } else {
            return Some((start, end));
        }
    }
}

} // verus!
