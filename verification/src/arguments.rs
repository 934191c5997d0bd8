//! The command line: exactly one argument, the name of the project.

use vstd::prelude::*;
use crate::process::texts;

verus! {

/// Why the inputs of a run could not be resolved.
#[derive(Clone, Copy, Debug, PartialEq, Eq)]
pub enum InputError {
    /// No project was named on the command line.
    MissingProject,
    /// More was given on the command line than the name of one project.
    ExtraArguments,
    /// The home directory of the operator is not known.
    NoHome,
    /// The workspace holds no project of the given name.
    ProjectNotFound,
}

/// The project that the arguments name. `arguments` are those behind the
/// name of the program.
pub open spec fn chosen_project(arguments: Seq<Seq<char>>) -> Result<Seq<char>, InputError> {
    if arguments.len() == 0 {
        Err(InputError::MissingProject)
    } else if arguments.len() > 1 {
        Err(InputError::ExtraArguments)
    } else {
        Ok(arguments[0])
    }
}

/// The text of a result that holds a string.
pub open spec fn project_text(project: Result<String, InputError>) -> Result<
    Seq<char>,
    InputError,
> {
    match project {
        Ok(name) => Ok(name@),
        Err(error) => Err(error),
    }
}

/// Picks the project out of the arguments that follow the program's name.
pub fn project_argument(arguments: &Vec<String>) -> (project: Result<String, InputError>)
    ensures
        project_text(project) == chosen_project(texts(arguments@)),
{
    if arguments.len() == 0 {
        Err(InputError::MissingProject)
    } else if arguments.len() > 1 {
        Err(InputError::ExtraArguments)
    } else {
        Ok(arguments[0].clone())
    }
}

} // verus!
