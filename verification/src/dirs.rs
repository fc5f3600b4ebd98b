//! The target directories, a directory among them, and the traversing.
use vstd::prelude::*;

use crate::nexter::NexterType;

verus! {

/// The model of [`Dirs`]: the target directories in their order, the parent
/// directory, and the index of the current directory, if it is known.
pub struct DirsView {
    pub entries: Seq<Seq<char>>,
    pub parent: Seq<char>,
    pub current: Option<int>,
}

impl DirsView {
    /// The current position, when known, points an entry.
    pub open spec fn valid(self) -> bool {
        self.current matches Some(i) ==> 0 <= i < self.entries.len()
    }

    pub open spec fn len(self) -> int {
        self.entries.len() as int
    }
}

/// The model of [`Dir`]: the target directories it belongs to, and its index.
pub struct DirView {
    pub siblings: DirsView,
    pub index: int,
}

/// An index as an optional mathematical integer.
pub open spec fn opt_int(i: Option<usize>) -> Option<int> {
    match i {
        Some(i) => Some(i as int),
        None => None,
    }
}

/// The index of the found directory, if one was found.
pub open spec fn found_index(found: Option<Dir<'_>>) -> Option<int> {
    match found {
        Some(d) => Some(d@.index),
        None => None,
    }
}

/// The position the traversing starts from: the index of the current directory,
/// or -1, the position before the first directory, when it is unknown.
pub open spec fn start_of(current: Option<int>) -> int {
    match current {
        Some(i) => i,
        None => -1,
    }
}

/// The index `delta` entries away from the start, if it is in the list.
pub open spec fn shifted(len: int, current: Option<int>, delta: int) -> Option<int> {
    let target = start_of(current) + delta;
    if 0 <= target < len {
        Some(target)
    } else {
        None
    }
}

/// The index that the traversing of `kind` finds; [`NexterType::Random`] is
/// described by [`found_by`] instead.
pub open spec fn target_index(kind: NexterType, len: int, current: Option<int>, step: int) -> Option<
    int,
> {
    match kind {
        NexterType::First => if len > 0 {
            Some(0)
        } else {
            None
        },
        NexterType::Last => if len > 0 {
            Some(len - 1)
        } else {
            None
        },
        NexterType::Previous => shifted(len, current, -step),
        NexterType::Next => shifted(len, current, step),
        NexterType::Keep => match current {
            Some(i) => if 0 <= i < len {
                Some(i)
            } else {
                None
            },
            None => None,
        },
        NexterType::Random => None,
    }
}

/// What the traversing of `kind` may find: the [`target_index`], or, for
/// [`NexterType::Random`], any index of a non-empty list.
pub open spec fn found_by(
    kind: NexterType,
    len: int,
    current: Option<int>,
    step: int,
    found: Option<int>,
) -> bool {
    if kind == NexterType::Random {
        &&& (found is Some <==> len > 0)
        &&& (found matches Some(i) ==> 0 <= i < len)
    } else {
        found == target_index(kind, len, current, step)
    }
}

/// The traversing by a step takes the length of the list as an `i32`: the list
/// of [`NexterType::Next`] and [`NexterType::Previous`] must not be longer.
/// Any step is accepted; a target out of the list finds nothing.
pub open spec fn step_fits(kind: NexterType, len: int, current: Option<int>, step: int) -> bool {
    match kind {
        NexterType::Next => len <= i32::MAX,
        NexterType::Previous => len <= i32::MAX,
        _ => true,
    }
}

/// Stores the target directories, the parent directory, and the index of the
/// current directory among the targets.
#[derive(Debug)]
pub struct Dirs {
    entries: Vec<String>,
    parent: String,
    current: Option<usize>,
}

impl Dirs {
    #[verifier::type_invariant]
    spec fn current_in_entries(self) -> bool {
        self.current matches Some(i) ==> i < self.entries.len()
    }
}

impl Clone for Dirs {
    fn clone(&self) -> (r: Dirs)
        ensures
            r@ == self@,
    {
        proof {
            use_type_invariant(self);
        }
        let entries = self.entries.clone();
        proof {
            assert(entries.deep_view() =~= self.entries.deep_view());
        }
        Dirs { entries, parent: self.parent.clone(), current: self.current }
    }
}

impl View for Dirs {
    type V = DirsView;

    closed spec fn view(&self) -> DirsView {
        DirsView {
            entries: self.entries.deep_view(),
            parent: self.parent@,
            current: opt_int(self.current),
        }
    }
}

/// A directory of the target directories.
#[derive(Debug, Clone, Copy)]
pub struct Dir<'a> {
    siblings: &'a Dirs,
    index: usize,
}

impl<'a> Dir<'a> {
    #[verifier::type_invariant]
    spec fn index_in_entries(self) -> bool {
        self.index < self.siblings.entries.len()
    }
}

impl<'a> View for Dir<'a> {
    type V = DirView;

    closed spec fn view(&self) -> DirView {
        DirView { siblings: self.siblings@, index: self.index as int }
    }
}

/// Something the traversing can start from: [`Dirs`] starts from its current
/// directory, and [`Dir`] from itself.
pub trait Nextable {
    /// The target directories of the traversing.
    spec fn siblings(&self) -> DirsView;

    /// The index of the start of the traversing, or `None` when it is unknown.
    spec fn position(&self) -> Option<int>;

    /// The index of the current directory in the list.
    ///
    /// `None` means that the current directory is unknown; it is not in the
    /// list. Such a position is treated as the one before the first directory,
    /// hence, [`NexterType::Next`] finds the first directory from it, and
    /// [`NexterType::Previous`] and [`NexterType::Keep`] find nothing.
    fn current_index(&self) -> (r: Option<usize>)
        ensures
            opt_int(r) == self.position(),
            r matches Some(i) ==> i < self.siblings().entries.len(),
    ;

    /// The target directories.
    fn dirs(&self) -> (r: &Dirs)
        ensures
            r@ == self.siblings(),
    ;

    /// Get the next directory using the given [`NexterType`], one step away.
    fn next(&self, nexter: NexterType) -> (r: Option<Dir<'_>>)
        requires
            step_fits(nexter, self.siblings().len(), self.position(), 1),
        ensures
            found_by(nexter, self.siblings().len(), self.position(), 1, found_index(r)),
            r matches Some(d) ==> d@.siblings == self.siblings(),
    {
        self.next_with(nexter, 1)
    }

    /// Get the next directory using the given [`NexterType`] and step.
    /// The negative step goes in the opposite direction, and 0 points the
    /// start itself; the step is ignored but by `Next` and `Previous`.
    fn next_with(&self, nexter: NexterType, step: i32) -> (r: Option<Dir<'_>>)
        requires
            step_fits(nexter, self.siblings().len(), self.position(), step as int),
        ensures
            found_by(nexter, self.siblings().len(), self.position(), step as int, found_index(r)),
            r matches Some(d) ==> d@.siblings == self.siblings(),
    ;
}

/// A random index of a list of `len` entries.
///
/// Calls `rand::random_range(0..len)`, which panics on an empty range and
/// otherwise returns some index in it; which one is left to chance.
#[verifier::external_body]
fn random_index(len: usize) -> (r: usize)
    requires
        len > 0,
    ensures
        r < len,
{
    rand::random_range(0..len)
}

/// The directory `delta` entries away from the start, if it is in the list.
/// The target is computed in `i64`, where no start and step overflow.
fn shift<'a>(dirs: &'a Dirs, current: Option<usize>, delta: i64) -> (r: Option<Dir<'a>>)
    requires
        current matches Some(i) ==> i < dirs@.entries.len(),
        dirs@.len() <= i32::MAX,
        -(i32::MAX as int) - 1 <= delta <= i32::MAX as int + 1,
    ensures
        found_index(r) == shifted(dirs@.len(), opt_int(current), delta as int),
        r matches Some(d) ==> d@.siblings == dirs@,
{
    let start: i64 = match current {
        Some(i) => i as i64,
        None => -1,
    };
    let next: i64 = start + delta;
    let length: i64 = dirs.entries.len() as i64;
    if next < 0 || next >= length {
        None
    } else {
        Some(Dir::new(dirs, next as usize))
    }
}

/// Find the directory by `nexter` from `current` in `dirs`.
fn traverse<'a>(dirs: &'a Dirs, current: Option<usize>, nexter: NexterType, step: i32) -> (r:
    Option<Dir<'a>>)
    requires
        current matches Some(i) ==> i < dirs@.entries.len(),
        step_fits(nexter, dirs@.len(), opt_int(current), step as int),
    ensures
        found_by(nexter, dirs@.len(), opt_int(current), step as int, found_index(r)),
        r matches Some(d) ==> d@.siblings == dirs@,
{
    let len = dirs.entries.len();
    match nexter {
        NexterType::First => {
            if len == 0 {
                None
            } else {
                Some(Dir::new(dirs, 0))
            }
        },
        NexterType::Last => {
            if len == 0 {
                None
            } else {
                Some(Dir::new(dirs, len - 1))
            }
        },
        NexterType::Previous => shift(dirs, current, -(step as i64)),
        NexterType::Next => shift(dirs, current, step as i64),
        NexterType::Random => {
            if len == 0 {
                None
            } else {
                Some(Dir::new(dirs, random_index(len)))
            }
        },
        NexterType::Keep => match current {
            Some(i) => Some(Dir::new(dirs, i)),
            None => None,
        },
    }
}

impl<'a> Dir<'a> {
    /// Create a new [`Dir`] instance.
    fn new(siblings: &'a Dirs, index: usize) -> (r: Dir<'a>)
        requires
            index < siblings@.entries.len(),
        ensures
            r@ == (DirView { siblings: siblings@, index: index as int }),
    {
        Dir { siblings, index }
    }

    /// Get the path of the directory.
    pub fn path(&self) -> (r: &str)
        ensures
            0 <= self@.index < self@.siblings.entries.len(),
            r@ == self@.siblings.entries[self@.index],
    {
        proof {
            use_type_invariant(self);
        }
        self.siblings.entries[self.index].as_str()
    }

    /// Get the index of the directory.
    pub fn index(&self) -> (r: usize)
        ensures
            r == self@.index,
            r < self@.siblings.entries.len(),
    {
        proof {
            use_type_invariant(self);
        }
        self.index
    }

    /// Build the [`Dirs`] instance whose current directory is this one.
    pub fn dirs(self) -> (r: Dirs)
        ensures
            r@ == (DirsView {
                entries: self@.siblings.entries,
                parent: self@.siblings.parent,
                current: Some(self@.index),
            }),
    {
        proof {
            use_type_invariant(&self);
        }
        let entries = self.siblings.entries.clone();
        proof {
            assert(entries.deep_view() =~= self.siblings.entries.deep_view());
        }
        Dirs { entries, parent: self.siblings.parent.clone(), current: Some(self.index) }
    }
}

impl<'a> Nextable for Dir<'a> {
    open spec fn siblings(&self) -> DirsView {
        self@.siblings
    }

    open spec fn position(&self) -> Option<int> {
        Some(self@.index)
    }

    fn current_index(&self) -> (r: Option<usize>) {
        proof {
            use_type_invariant(self);
        }
        Some(self.index)
    }

    fn dirs(&self) -> (r: &Dirs) {
        self.siblings
    }

    fn next_with(&self, nexter: NexterType, step: i32) -> (r: Option<Dir<'_>>) {
        proof {
            use_type_invariant(self);
        }
        traverse(self.siblings, Some(self.index), nexter, step)
    }
}

impl Nextable for Dirs {
    open spec fn siblings(&self) -> DirsView {
        self@
    }

    open spec fn position(&self) -> Option<int> {
        self@.current
    }

    fn current_index(&self) -> (r: Option<usize>) {
        proof {
            use_type_invariant(self);
        }
        self.current
    }

    fn dirs(&self) -> (r: &Dirs) {
        self
    }

    fn next_with(&self, nexter: NexterType, step: i32) -> (r: Option<Dir<'_>>) {
        proof {
            use_type_invariant(self);
        }
        traverse(self, self.current, nexter, step)
    }
}

impl Dirs {
    /// Build the [`Dirs`] instance whose current directory is unknown.
    /// See [`Nextable::current_index`] for the traversing from such a position.
    pub fn new(base_dir: String, entries: Vec<String>) -> (r: Dirs)
        ensures
            r@ == (DirsView { entries: entries.deep_view(), parent: base_dir@, current: None }),
    {
        Dirs { entries, parent: base_dir, current: None }
    }

    /// Build the [`Dirs`] instance from its parts; `current` must index `entries`.
    pub(crate) fn from_parts(base_dir: String, entries: Vec<String>, current: Option<usize>) -> (r:
        Dirs)
        requires
            current matches Some(i) ==> i < entries.len(),
        ensures
            r@ == (DirsView {
                entries: entries.deep_view(),
                parent: base_dir@,
                current: opt_int(current),
            }),
    {
        Dirs { entries, parent: base_dir, current }
    }

    /// Get the parent directory path.
    pub fn parent(&self) -> (r: &str)
        ensures
            r@ == self@.parent,
    {
        self.parent.as_str()
    }

    /// Get the current directory as a [`Dir`] instance.
    /// Returns `None` if the current directory is not in the list.
    pub fn current(&self) -> (r: Option<Dir<'_>>)
        ensures
            found_index(r) == self@.current,
            r matches Some(d) ==> d@.siblings == self@,
    {
        proof {
            use_type_invariant(self);
        }
        match self.current {
            Some(index) => Some(Dir::new(self, index)),
            None => None,
        }
    }

    /// Check if the directory list is empty.
    pub fn is_empty(&self) -> (r: bool)
        ensures
            r == (self@.entries.len() == 0),
    {
        self.entries.len() == 0
    }

    /// Get the number of directories in the list.
    pub fn len(&self) -> (r: usize)
        ensures
            r == self@.entries.len(),
    {
        self.entries.len()
    }

    /// The target directories, in their order.
    pub fn directories(&self) -> (r: &Vec<String>)
        ensures
            r.deep_view() == self@.entries,
    {
        &self.entries
    }
}

} // verus!
