//! The task that preprocesses the sources of a module before it is built.

use vstd::prelude::*;
use crate::flow::Stage;
use crate::flow::Task;
use crate::paths::extension;
use crate::paths::extension_of;

verus! {

/// Whether files with the extension `ext` are preprocessed.
pub open spec fn is_source_extension(ext: Seq<char>) -> bool {
    ext == "cpp"@ || ext == "rvmat"@ || ext == "ext"@
}

/// Whether the file at `path` is preprocessed: its extension is one of
/// `cpp`, `rvmat` and `ext`.
pub open spec fn is_source(path: Seq<char>) -> bool {
    match extension(path) {
        Some(ext) => is_source_extension(ext),
        None => false,
    }
}

/// Whether the file at `path` is one that is preprocessed.
pub fn can_preprocess(path: &str) -> (eligible: bool)
    ensures
        eligible == is_source(path@),
{
    match extension_of(path) {
        Some(ext) => ext == "cpp".to_owned() || ext == "rvmat".to_owned() || ext == "ext".to_owned(),
        None => false,
    }
}

/// What the walk over the files of a module has done so far.
#[derive(Clone, Copy, Debug, PartialEq, Eq, Structural)]
pub struct Progress {
    /// Whether every file so far was preprocessed without an error.
    pub ok: bool,
    /// The number of files that were handed to the preprocessor.
    pub count: usize,
}

impl Progress {
    /// The state before the first file.
    pub fn new() -> (progress: Self)
        ensures
            progress == (Progress { ok: true, count: 0 }),
    {
        Progress { ok: true, count: 0 }
    }

    /// Whether an entry of the walk is handed to the preprocessor: it is a
    /// file, and its extension is one of those that are preprocessed. An
    /// earlier failure does not keep later files from being tried.
    pub fn wants(&self, is_file: bool, path: &str) -> (wanted: bool)
        ensures
            wanted == (is_file && is_source(path@)),
    {
        is_file && can_preprocess(path)
    }

    /// Records the outcome of one file: it is counted, and a failure is
    /// remembered for the rest of the walk.
    pub fn record(&mut self, succeeded: bool)
        requires
            old(self).count < usize::MAX,
        ensures
            final(self).ok == (old(self).ok && succeeded),
            final(self).count == old(self).count + 1,
    {
        self.ok = self.ok && succeeded;
        self.count = self.count + 1;
    }
}

/// The task that preprocesses the sources of a module.
#[derive(Clone, Copy, Debug, PartialEq, Eq, Structural)]
pub struct Preprocess {}

impl Task for Preprocess {
    fn name(&self) -> (name: String)
        ensures
            name@ == "preprocess"@,
    {
        "preprocess".to_owned()
    }

    fn hooks(&self) -> (stages: Vec<Stage>)
        ensures
            stages@ == seq![Stage::Check, Stage::PreBuild, Stage::PostBuild],
    {
        let mut stages: Vec<Stage> = Vec::new();
        stages.push(Stage::Check);
        stages.push(Stage::PreBuild);
        stages.push(Stage::PostBuild);
        stages
    }
}

} // verus!
