//! Build steps and the tasks they group.

use vstd::prelude::*;

verus! {

/// A lifecycle stage of a build in which a task may take part.
#[derive(Clone, Copy, Debug, PartialEq, Eq, Structural)]
pub enum Stage {
    Check,
    PreBuild,
    PostBuild,
}

/// A unit of work of the build pipeline.
pub trait Task {
    /// The name under which the task is reported.
    fn name(&self) -> String;

    /// The stages in which the task takes part.
    fn hooks(&self) -> Vec<Stage>;
}

/// A group of tasks that is run as one step of the build.
pub struct Step {
    pub tasks: Vec<Box<dyn Task>>,
    pub name: String,
    pub emoji: String,
    pub none: bool,
    pub parallel: bool,
}

impl Step {
    /// A step whose tasks run independently of each other.
    pub fn parallel(emoji: &str, name: &str, tasks: Vec<Box<dyn Task>>) -> (step: Self)
        ensures
            step.emoji@ == emoji@,
            step.name@ == name@,
            step.tasks == tasks,
            !step.none,
            step.parallel,
    {
        Step {
            emoji: emoji.to_owned(),
            name: name.to_owned(),
            tasks,
            none: false,
            parallel: true,
        }
    }

    /// A step whose tasks run one after the other, in the order given.
    pub fn single(emoji: &str, name: &str, tasks: Vec<Box<dyn Task>>) -> (step: Self)
        ensures
            step.emoji@ == emoji@,
            step.name@ == name@,
            step.tasks == tasks,
            !step.none,
            !step.parallel,
    {
        Step {
            emoji: emoji.to_owned(),
            name: name.to_owned(),
            tasks,
            none: false,
            parallel: false,
        }
    }

    /// The empty step: no tasks, nothing to run.
    pub fn none() -> (step: Self)
        ensures
            step.emoji@ == Seq::<char>::empty(),
            step.name@ == Seq::<char>::empty(),
            step.tasks@ == Seq::<Box<dyn Task>>::empty(),
            step.none,
            !step.parallel,
    {
        Step {
            emoji: String::new(),
            name: String::new(),
            tasks: Vec::new(),
            none: true,
            parallel: false,
        }
    }
}

} // verus!
