//! Resolution of include targets to files.
//!
//! A target is looked up in up to three places, in this order: beside the
//! including file; in the directory of the addon prefix that the target
//! begins with; in the shared directory of the project. The first file
//! found is the result.

use vstd::prelude::*;
use std::sync::Arc;
use vfs::VfsError;
use vfs::VfsPath;
use crate::error::HEMTTError;
use crate::fs::join;
use crate::fs::joined;
use crate::fs::path_text;
use crate::paths::after_leading_segment;
use crate::paths::containing_dir;
use crate::paths::parent_of;
use crate::paths::prefix_matches;
use crate::paths::relative_path;
use crate::paths::rest_of;
use crate::paths::to_relative;
use crate::prefix::first_match;
use crate::prefix::law_first_match_wins;
use crate::prefix::PrefixMap;

verus! {

/// A file that an include target was resolved to.
#[derive(Debug, Clone, PartialEq, Eq)]
pub struct ResolvedFile {
    /// The path of the file in the file system.
    pub path: String,
    pub content: String,
}

impl ResolvedFile {
    pub fn new(path: &str, content: String) -> (file: Self)
        ensures
            file.path@ == path@,
            file.content == content,
    {
        ResolvedFile { path: path.to_owned(), content }
    }
}

/// Finds the file that an include directive names.
pub trait Resolver {
    /// The file that `to` names when it is included from the file `from`.
    fn resolve(&self, root: &str, from: &str, to: &str) -> Result<ResolvedFile, HEMTTError>;
}

/// A place to look for a file: a directory, as a path from the root of the
/// file system, and the path of the file from that directory.
#[derive(Debug, Clone, PartialEq, Eq)]
pub struct Lookup {
    pub dir: String,
    pub file: String,
}

impl View for Lookup {
    type V = (Seq<char>, Seq<char>);

    open spec fn view(&self) -> (Seq<char>, Seq<char>) {
        (self.dir@, self.file@)
    }
}

/// Which lookup of a resolution a read belongs to.
#[derive(Debug)]
pub enum Attempt {
    /// The lookup beside the including file.
    First,
    /// The lookup through the first matching prefix. The first lookup
    /// failed with the given cause.
    Prefixed(VfsError),
    /// The lookup in the shared directory. The first lookup failed with the
    /// given cause.
    Shared(VfsError),
}

/// What a resolution asks for next.
#[derive(Debug)]
pub enum Next {
    /// To read the file at a place.
    Read(Attempt, Lookup),
    /// To tell whether the directory of a place exists, before the file is
    /// read there. The first lookup failed with the given cause.
    Probe(VfsError, Lookup),
    /// Nothing: this is the outcome.
    Done(Result<ResolvedFile, HEMTTError>),
}

/// The mathematical value of a [`Next`].
pub enum NextModel {
    Read(Attempt, (Seq<char>, Seq<char>)),
    Probe(VfsError, (Seq<char>, Seq<char>)),
    Done(Result<ResolvedFile, HEMTTError>),
}

impl View for Next {
    type V = NextModel;

    open spec fn view(&self) -> NextModel {
        match self {
            Next::Read(attempt, place) => NextModel::Read(*attempt, place@),
            Next::Probe(cause, place) => NextModel::Probe(*cause, place@),
            Next::Done(outcome) => NextModel::Done(*outcome),
        }
    }
}

/// The place beside the including file: the directory that holds `from`,
/// and the target as it is written.
pub open spec fn relative_place(from: Seq<char>, to: Seq<char>) -> (Seq<char>, Seq<char>) {
    (containing_dir(from), to)
}

/// The place that the first matching prefix gives: its directory in place
/// of the leading segment of the target, and the rest of the target.
pub open spec fn prefixed_place(entries: Seq<(Seq<char>, Seq<char>)>, to: Seq<char>) -> Option<
    (Seq<char>, Seq<char>),
> {
    match first_match(entries, to) {
        Some(at) => Some((relative_path(entries[at].1), relative_path(after_leading_segment(to)))),
        None => None,
    }
}

/// The place in the shared directory of the project.
pub open spec fn shared_place(to: Seq<char>) -> (Seq<char>, Seq<char>) {
    ("include"@, relative_path(to))
}

/// How a resolution begins: with the lookup beside the including file.
pub open spec fn first_step(from: Seq<char>, to: Seq<char>) -> NextModel {
    NextModel::Read(Attempt::First, relative_place(from, to))
}

/// How a resolution goes on when a read was answered.
///
/// A file that was found is the outcome. When the first lookup failed, the
/// target is looked up through the first prefix that matches. When that
/// failed too, or no prefix matches, the shared directory is next, once it
/// is known to exist. When the lookup there failed as well, the resolution
/// fails, with the failure of the first lookup as the cause.
pub open spec fn step_after_read(
    entries: Seq<(Seq<char>, Seq<char>)>,
    to: Seq<char>,
    attempt: Attempt,
    answer: Result<ResolvedFile, VfsError>,
) -> NextModel {
    match answer {
        Ok(file) => NextModel::Done(Ok(file)),
        Err(failure) => match attempt {
            Attempt::First => match prefixed_place(entries, to) {
                Some(place) => NextModel::Read(Attempt::Prefixed(failure), place),
                None => NextModel::Probe(failure, shared_place(to)),
            },
            Attempt::Prefixed(cause) => NextModel::Probe(cause, shared_place(to)),
            Attempt::Shared(cause) => NextModel::Done(Err(HEMTTError::FileNotFound(cause))),
        },
    }
}

/// How a resolution goes on when it is known whether the shared directory
/// exists: with the lookup there, or with the failure.
pub open spec fn step_after_probe(
    cause: VfsError,
    place: (Seq<char>, Seq<char>),
    exists: bool,
) -> NextModel {
    if exists {
        NextModel::Read(Attempt::Shared(cause), place)
    } else {
        NextModel::Done(Err(HEMTTError::FileNotFound(cause)))
    }
}

/// The number of answers that a resolution may still need.
pub open spec fn answers_left(next: NextModel) -> nat {
    match next {
        NextModel::Read(Attempt::First, _) => 4,
        NextModel::Read(Attempt::Prefixed(_), _) => 3,
        NextModel::Probe(_, _) => 2,
        NextModel::Read(Attempt::Shared(_), _) => 1,
        NextModel::Done(_) => 0,
    }
}

/// A file beside the including file is the outcome, whatever the prefixes
/// are and whatever the shared directory holds.
pub proof fn law_relative_file_wins(
    entries: Seq<(Seq<char>, Seq<char>)>,
    to: Seq<char>,
    file: ResolvedFile,
)
    ensures
        step_after_read(entries, to, Attempt::First, Ok(file)) == NextModel::Done(Ok(file)),
{
}

/// The three places are tried in order. After the first lookup failed, a
/// matching prefix is followed before the shared directory comes into play;
/// the shared directory is next where no prefix matches, and also where the
/// lookup through the prefix failed.
pub proof fn law_prefix_before_shared(
    entries: Seq<(Seq<char>, Seq<char>)>,
    to: Seq<char>,
    cause: VfsError,
    failure: VfsError,
)
    ensures
        (exists|at: int| 0 <= at < entries.len() && prefix_matches(#[trigger] entries[at].0, to))
            ==> step_after_read(entries, to, Attempt::First, Err(cause)) == NextModel::Read(
            Attempt::Prefixed(cause),
            prefixed_place(entries, to)->Some_0,
        ),
        (forall|at: int| 0 <= at < entries.len() ==> !prefix_matches(#[trigger] entries[at].0, to))
            ==> step_after_read(entries, to, Attempt::First, Err(cause)) == NextModel::Probe(
            cause,
            shared_place(to),
        ),
        step_after_read(entries, to, Attempt::Prefixed(cause), Err(failure)) == NextModel::Probe(
            cause,
            shared_place(to),
        ),
{
    law_first_match_wins(entries, to);
}

/// A resolution fails only at the shared directory: when it does not exist,
/// or when the lookup there failed. The failure of the first lookup is the
/// cause.
pub proof fn law_failure_keeps_first_cause(
    entries: Seq<(Seq<char>, Seq<char>)>,
    to: Seq<char>,
    attempt: Attempt,
    answer: Result<ResolvedFile, VfsError>,
    cause: VfsError,
    place: (Seq<char>, Seq<char>),
    exists: bool,
)
    ensures
        step_after_read(entries, to, attempt, answer) matches NextModel::Done(Err(error)) ==> {
            &&& answer is Err
            &&& attempt matches Attempt::Shared(first)
            &&& error == HEMTTError::FileNotFound(first)
        },
        step_after_probe(cause, place, exists) matches NextModel::Done(Err(error)) ==> !exists
            && error == HEMTTError::FileNotFound(cause),
        step_after_read(entries, to, Attempt::Prefixed(cause), answer) matches NextModel::Probe(
            kept,
            _,
        ) ==> kept == cause,
{
}

/// Every answer brings a resolution nearer to its outcome: it needs four
/// answers at most.
pub proof fn law_resolution_ends(
    entries: Seq<(Seq<char>, Seq<char>)>,
    from: Seq<char>,
    to: Seq<char>,
    attempt: Attempt,
    answer: Result<ResolvedFile, VfsError>,
    cause: VfsError,
    place: (Seq<char>, Seq<char>),
    exists: bool,
)
    ensures
        answers_left(first_step(from, to)) == 4,
        answers_left(step_after_read(entries, to, attempt, answer)) < answers_left(
            NextModel::Read(attempt, place),
        ),
        answers_left(step_after_probe(cause, place, exists)) < answers_left(
            NextModel::Probe(cause, place),
        ),
{
}

/// The text of the path of the file at `place`, in a file system whose root
/// has the text `root`: the root joined with the directory of the place,
/// and that with the path of the file. There is none where the file system
/// refuses one of the two as invalid.
pub open spec fn located(root: Seq<char>, place: (Seq<char>, Seq<char>)) -> Option<Seq<char>> {
    match joined(root, place.0) {
        Some(dir) => joined(dir, place.1),
        None => None,
    }
}

/// Whether `path` is the path of a file that the target `to`, included from
/// `from`, may be resolved to: the file beside the including file, the file
/// at the place of the first matching prefix, or the file in the shared
/// directory.
pub open spec fn is_candidate(
    root: Seq<char>,
    entries: Seq<(Seq<char>, Seq<char>)>,
    from: Seq<char>,
    to: Seq<char>,
    path: Seq<char>,
) -> bool {
    ||| Some(path) == located(root, relative_place(from, to))
    ||| prefixed_place(entries, to) matches Some(place) && Some(path) == located(root, place)
    ||| Some(path) == located(root, shared_place(to))
}

/// Whether no place that the target may be found at has a path in the file
/// system: the file system refuses each of them as invalid.
pub open spec fn is_refused(
    root: Seq<char>,
    entries: Seq<(Seq<char>, Seq<char>)>,
    from: Seq<char>,
    to: Seq<char>,
) -> bool {
    &&& located(root, relative_place(from, to)) is None
    &&& prefixed_place(entries, to) matches Some(place) ==> located(root, place) is None
    &&& located(root, shared_place(to)) is None
}

/// Whether a resolution is on its way: what it asks for is what the target
/// calls for, and an outcome that is a file is one of the candidates.
pub open spec fn on_course(
    root: Seq<char>,
    entries: Seq<(Seq<char>, Seq<char>)>,
    from: Seq<char>,
    to: Seq<char>,
    next: NextModel,
) -> bool {
    match next {
        NextModel::Read(Attempt::First, place) => place == relative_place(from, to),
        NextModel::Read(Attempt::Prefixed(_), place) => prefixed_place(entries, to) == Some(place),
        NextModel::Read(Attempt::Shared(_), place) => place == shared_place(to),
        NextModel::Probe(_, place) => place == shared_place(to),
        NextModel::Done(Ok(file)) => is_candidate(root, entries, from, to, file.path@),
        NextModel::Done(Err(_)) => true,
    }
}

/// The place in the shared directory of the project.
fn shared_lookup(to: &str) -> (place: Lookup)
    ensures
        place@ == shared_place(to@),
{
    Lookup { dir: "include".to_owned(), file: to_relative(to) }
}

/// Begins the resolution of the target `to`, included from the file `from`.
pub fn begin(from: &str, to: &str) -> (next: Next)
    ensures
        next@ == first_step(from@, to@),
{
    Next::Read(Attempt::First, Lookup { dir: parent_of(from), file: to.to_owned() })
}

/// Goes on with a resolution once a read was answered.
pub fn after_read(
    prefixes: &PrefixMap,
    to: &str,
    attempt: Attempt,
    answer: Result<ResolvedFile, VfsError>,
) -> (next: Next)
    ensures
        next@ == step_after_read(prefixes@, to@, attempt, answer),
{
    match answer {
        Ok(file) => Next::Done(Ok(file)),
        Err(failure) => match attempt {
            Attempt::First => match prefixes.find(to) {
                Some(at) => {
                    proof {
                        law_first_match_wins(prefixes@, to@);
                    }
                    let entries = prefixes.inner();
                    let place = Lookup {
                        dir: to_relative(entries[at].1.as_str()),
                        file: rest_of(to),
                    };
                    Next::Read(Attempt::Prefixed(failure), place)
                },
                None => Next::Probe(failure, shared_lookup(to)),
            },
            Attempt::Prefixed(cause) => Next::Probe(cause, shared_lookup(to)),
            Attempt::Shared(cause) => Next::Done(Err(HEMTTError::FileNotFound(cause))),
        },
    }
}

/// Goes on with a resolution once it is known whether the directory of
/// `place` exists.
pub fn after_probe(cause: VfsError, place: Lookup, exists: bool) -> (next: Next)
    ensures
        next@ == step_after_probe(cause, place@, exists),
{
    if exists {
        Next::Read(Attempt::Shared(cause), place)
    } else {
        Next::Done(Err(HEMTTError::FileNotFound(cause)))
    }
}

/// Resolves include targets in a virtual file system, with the prefixes
/// that the project declares.
pub struct VfsResolver<'a>(Arc<VfsPath>, &'a PrefixMap);

impl<'a> VfsResolver<'a> {
    /// The root of the file system that targets are looked up in.
    pub closed spec fn root(&self) -> VfsPath {
        *self.0
    }

    /// The prefixes that targets are resolved through.
    pub closed spec fn prefixes(&self) -> PrefixMap {
        *self.1
    }

    /// A resolver for the file system under `path`.
    pub fn new(path: VfsPath, prefixes: &'a PrefixMap) -> (resolver: Self)
        ensures
            resolver.root() == path,
            resolver.prefixes() == *prefixes,
    {
        VfsResolver(Arc::new(path), prefixes)
    }

    /// Reads the file at `place`, if there is one. A file that is read is
    /// returned under the path that the place has in the file system; none
    /// is read where the file system refuses the place as invalid.
    fn read(&self, place: &Lookup) -> (file: Result<ResolvedFile, VfsError>)
        ensures
            file matches Ok(found) ==> Some(found.path@) == located(
                path_text(self.root()),
                place@,
            ),
            located(path_text(self.root()), place@) is None ==> file is Err,
    {
        let dir = join(&self.0, place.dir.as_str())?;
        let path = join(&dir, place.file.as_str())?;
        let content = path.read_to_string()?;
        Ok(ResolvedFile::new(path.as_str(), content))
    }

    /// Whether the file system holds anything at `dir`. It holds nothing at
    /// a path that it refuses as invalid.
    fn holds(&self, dir: &str) -> (found: bool)
        ensures
            joined(path_text(self.root()), dir@) is None ==> !found,
    {
        match join(&self.0, dir) {
            Ok(path) => match path.exists() {
                Ok(found) => found,
                Err(_) => false,
            },
            Err(_) => false,
        }
    }
}

impl<'a> Resolver for VfsResolver<'a> {
    /// Looks `to` up beside `from`; failing that, through the first prefix
    /// that matches; and failing that, or where no prefix matches, in the
    /// shared directory if the project has one. The first file found is the
    /// outcome.
    ///
    /// Every request of the resolution is answered from the file system,
    /// until the outcome is there. Nothing is kept between two calls.
    ///
    /// Which of the places holds a file is for the file system to say. A
    /// file that is returned is the one beside the including file, the one
    /// at the place of the first matching prefix or the one in the shared
    /// directory, under the path that it has in the file system; where the
    /// file system refuses each of these places as invalid, the resolution
    /// fails.
    fn resolve(&self, root: &str, from: &str, to: &str) -> (outcome: Result<
        ResolvedFile,
        HEMTTError,
    >)
        ensures
            outcome matches Ok(file) ==> is_candidate(
                path_text(self.root()),
                self.prefixes()@,
                from@,
                to@,
                file.path@,
            ),
            is_refused(path_text(self.root()), self.prefixes()@, from@, to@) ==> outcome is Err,
    {
        let mut next = begin(from, to);
        loop
            invariant
                on_course(path_text(self.root()), self.prefixes()@, from@, to@, next@),
            decreases answers_left(next@),
        {
            next = match next {
                Next::Read(attempt, place) => {
                    let answer = self.read(&place);
                    after_read(self.1, to, attempt, answer)
                },
                Next::Probe(cause, place) => {
                    let exists = self.holds(place.dir.as_str());
                    after_probe(cause, place, exists)
                },
                Next::Done(outcome) => {
                    return outcome;
                },
            };
        }
    }
}

} // verus!
