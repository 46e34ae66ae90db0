//! The walker: a stack of open directory cursors driven one event at a time.
//!
//! The cursor type `C` is whatever the caller lists directories with; the
//! walker never reads a cursor itself. One step of a walk goes:
//!
//! 1. `take_frame` hands out the top cursor (none: the walk is over);
//! 2. the caller pulls one raw event from it and passes both to `advance`,
//!    which puts the cursor back unless it is exhausted and says what to do;
//! 3. on `Step::Descend` the caller tries to open the directory and reports
//!    the outcome to `descend`, which pushes the new cursor on top.
//!
//! Directories are thus visited depth first, each one surfaced before its
//! contents. A directory whose name matches an ignore pattern is surfaced
//! but never opened. Symbolic-link cycles are not detected: a cycle that the
//! listing follows as real directories makes the walk endless.

use vstd::prelude::*;
use vstd::string::*;
use crate::entry::{Entry, FileKind};
use crate::pattern::{Pattern, PatternError, wildcard_match, well_formed};

verus! {

/// Why a walk, or one of its steps, failed.
#[derive(Debug, Clone, Copy, PartialEq, Eq, Structural)]
pub enum WalkError {
    /// The root could not be opened as a directory; nothing is surfaced.
    RootUnreadable,
    /// Reading the next item of a directory failed; the cursor's position is
    /// unknown afterwards.
    ListingFailure,
    /// The kind of an entry could not be determined.
    KindResolution,
    /// A directory to descend into could not be opened.
    DescendFailure,
}

/// One raw event pulled from the top cursor.
#[derive(Debug, Clone)]
pub enum Pulled {
    /// The listing has no more items.
    End,
    /// Reading the next item failed.
    Failed,
    /// The next item; its kind is `None` when it could not be determined.
    Item(Entry),
}

/// What the caller does after handing an event to the walker.
#[derive(Debug, Clone)]
pub enum Step {
    /// The top directory was exhausted and closed: pull again.
    Exhausted,
    /// Surface this entry; nothing is to be opened for it.
    Yield(Entry),
    /// Surface this failure.
    Fail(WalkError),
    /// Try to open this directory and report the outcome to `descend`.
    Descend(Entry),
}

/// Some pattern of `ignores` matches `name`.
pub open spec fn pruned(ignores: Seq<Seq<u8>>, name: Seq<u8>) -> bool {
    exists|i: int| 0 <= i < ignores.len() && #[trigger] wildcard_match(ignores[i], name)
}

/// What the walker decides on an event, given its ignore patterns.
pub open spec fn decide(ignores: Seq<Seq<u8>>, ev: Pulled) -> Step {
    match ev {
        Pulled::End => Step::Exhausted,
        Pulled::Failed => Step::Fail(WalkError::ListingFailure),
        Pulled::Item(e) => match e.kind {
            None => Step::Fail(WalkError::KindResolution),
            Some(FileKind::Dir) => if pruned(ignores, e.name@) {
                Step::Yield(e)
            } else {
                Step::Descend(e)
            },
            Some(_) => Step::Yield(e),
        },
    }
}

/// The frames after an event: an exhausted cursor is dropped, any other is
/// put back on top.
pub open spec fn frames_after<C>(frames: Seq<C>, frame: C, ev: Pulled) -> Seq<C> {
    if ev is End {
        frames
    } else {
        frames.push(frame)
    }
}

/// The frozen configuration of a walk.
struct DirIteratorConfig {
    /// Directories whose name one of these matches are not descended into.
    ignore: Vec<Pattern>,
}

impl DirIteratorConfig {
    spec fn ignores(&self) -> Seq<Seq<u8>> {
        self.ignore@.map_values(|p: Pattern| p@)
    }

    /// Whether a directory named `name` is to be left unopened.
    fn prunes(&self, name: &Vec<u8>) -> (r: bool)
        ensures
            r == pruned(self.ignores(), name@),
    {
        let mut i: usize = 0;
        while i < self.ignore.len()
            invariant
                0 <= i <= self.ignore@.len(),
                forall|j: int| 0 <= j < i ==> !wildcard_match(#[trigger] self.ignores()[j], name@),
            decreases self.ignore@.len() - i,
        {
            if self.ignore[i].is_match(name.as_slice()) {
                assert(wildcard_match(self.ignores()[i as int], name@));
                return true;
            }
            i = i + 1;
        }
        false
    }
}

/// A depth-first walk in progress, over directory cursors of type `C`.
pub struct DirIterator<C> {
    /// Open directories; the last is the one being listed.
    stack: Vec<C>,
    config: DirIteratorConfig,
}

/// The configuration of a walk, before it starts.
pub struct DirIteratorBuilder {
    path: String,
    config: DirIteratorConfig,
}

impl<C> DirIterator<C> {
    /// The open cursors, bottom first.
    pub closed spec fn frames(&self) -> Seq<C> {
        self.stack@
    }

    /// The ignore patterns.
    pub closed spec fn ignores(&self) -> Seq<Seq<u8>> {
        self.config.ignores()
    }

    /// A builder for a walk of `path`, with no ignore patterns.
    pub fn from_path(path: &str) -> (r: DirIteratorBuilder)
        ensures
            r.path_view() == path@,
            r.ignores() == Seq::<Seq<u8>>::empty(),
    {
        let ignore: Vec<Pattern> = Vec::new();
        let config = DirIteratorConfig { ignore };
        assert(config.ignores() =~= Seq::<Seq<u8>>::empty());
        DirIteratorBuilder { path: path.to_owned(), config }
    }

    /// Whether the walk is over: no directory is open.
    pub fn is_finished(&self) -> (r: bool)
        ensures
            r == (self.frames().len() == 0),
    {
        self.stack.len() == 0
    }

    /// Hands out the top cursor, to pull its next event; `None` once the walk
    /// is over.
    pub fn take_frame(&mut self) -> (r: Option<C>)
        ensures
            final(self).ignores() == old(self).ignores(),
            old(self).frames().len() == 0 ==> r is None && final(self).frames() == old(self).frames(),
            old(self).frames().len() > 0 ==> r == Some(old(self).frames().last())
                && final(self).frames() == old(self).frames().drop_last(),
    {
        self.stack.pop()
    }

    /// Takes back the cursor handed out by `take_frame` with the event pulled
    /// from it, and decides what to do. An exhausted cursor is dropped; a
    /// directory that no ignore pattern matches is to be descended into;
    /// every other entry is surfaced, as is every failure.
    pub fn advance(&mut self, frame: C, ev: Pulled) -> (r: Step)
        ensures
            final(self).ignores() == old(self).ignores(),
            final(self).frames() == frames_after(old(self).frames(), frame, ev),
            r == decide(old(self).ignores(), ev),
    {
        match ev {
            Pulled::End => Step::Exhausted,
            Pulled::Failed => {
                self.stack.push(frame);
                Step::Fail(WalkError::ListingFailure)
            },
            Pulled::Item(e) => {
                self.stack.push(frame);
                match e.kind {
                    None => Step::Fail(WalkError::KindResolution),
                    Some(FileKind::Dir) => {
                        if self.config.prunes(&e.name) {
                            Step::Yield(e)
                        } else {
                            Step::Descend(e)
                        }
                    },
                    Some(_) => Step::Yield(e),
                }
            },
        }
    }

    /// Reports the outcome of opening the directory of a `Step::Descend`: its
    /// cursor goes on top and the entry is surfaced, or the failure is.
    pub fn descend(&mut self, entry: Entry, opened: Option<C>) -> (r: Result<Entry, WalkError>)
        ensures
            final(self).ignores() == old(self).ignores(),
            opened matches Some(c) ==> r == Ok::<Entry, WalkError>(entry)
                && final(self).frames() == old(self).frames().push(c),
            opened is None ==> r == Err::<Entry, WalkError>(WalkError::DescendFailure)
                && final(self).frames() == old(self).frames(),
    {
        match opened {
            Some(c) => {
                self.stack.push(c);
                Ok(entry)
            },
            None => Err(WalkError::DescendFailure),
        }
    }
}

impl DirIteratorBuilder {
    /// The root path to walk.
    pub closed spec fn path_view(&self) -> Seq<char> {
        self.path@
    }

    /// The ignore patterns so far.
    pub closed spec fn ignores(&self) -> Seq<Seq<u8>> {
        self.config.ignores()
    }

    /// The root path to walk.
    pub fn path(&self) -> (r: &str)
        ensures
            r@ == self.path_view(),
    {
        self.path.as_str()
    }

    /// Adds an ignore pattern: directories whose name it matches will be
    /// surfaced but not descended into. Fails on a malformed pattern.
    pub fn ignore(self, wildcard: &str) -> (r: Result<DirIteratorBuilder, PatternError>)
        ensures
            r is Ok <==> well_formed(wildcard.spec_bytes()),
            r matches Ok(b) ==> b.path_view() == self.path_view()
                && b.ignores() == self.ignores().push(wildcard.spec_bytes()),
            r matches Err(e) ==> e.pattern@ == wildcard@,
    {
        match Pattern::new(wildcard) {
            Ok(p) => {
                let DirIteratorBuilder { path, config } = self;
                let mut ignore = config.ignore;
                ignore.push(p);
                let config = DirIteratorConfig { ignore };
                assert(config.ignores() =~= self.ignores().push(wildcard.spec_bytes()));
                Ok(DirIteratorBuilder { path, config })
            },
            Err(e) => Err(e),
        }
    }

    /// Starts the walk on the cursor opened on the root path, or fails when
    /// the root could not be opened.
    pub fn build<C>(self, root: Option<C>) -> (r: Result<DirIterator<C>, WalkError>)
        ensures
            root is None ==> r == Err::<DirIterator<C>, WalkError>(WalkError::RootUnreadable),
            root matches Some(c) ==> r matches Ok(w) && w.frames() == seq![c]
                && w.ignores() == self.ignores(),
    {
        match root {
            Some(c) => {
                let DirIteratorBuilder { path: _, config } = self;
                let stack = vec![c];
                Ok(DirIterator { stack, config })
            },
            None => Err(WalkError::RootUnreadable),
        }
    }
}

} // verus!
