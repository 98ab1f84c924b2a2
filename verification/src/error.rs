//! What can stop the exposure of an environment.

use vstd::prelude::*;
use vstd::string::*;

verus! {

/// The reasons for which no script is produced for an environment.
#[derive(Debug, PartialEq, Eq)]
pub enum GlobalError {
    /// A binding names an entry point that no program of the environment
    /// carries as its file name.
    MissingEntryPoint { entry_point: String, environment_name: String },
    /// The activation script of the environment could not be built.
    Activation { environment_name: String, reason: String },
}

/// The mathematical content of a [`GlobalError`].
pub enum GlobalErrorView {
    MissingEntryPoint { entry_point: Seq<char>, environment_name: Seq<char> },
    Activation { environment_name: Seq<char>, reason: Seq<char> },
}

impl View for GlobalError {
    type V = GlobalErrorView;

    open spec fn view(&self) -> GlobalErrorView {
        match self {
            GlobalError::MissingEntryPoint { entry_point, environment_name } => {
                GlobalErrorView::MissingEntryPoint {
                    entry_point: entry_point@,
                    environment_name: environment_name@,
                }
            },
            GlobalError::Activation { environment_name, reason } => GlobalErrorView::Activation {
                environment_name: environment_name@,
                reason: reason@,
            },
        }
    }
}

/// The sentence that reports `error`. It names what was looked for and the
/// environment it was looked for in.
pub open spec fn error_message(error: GlobalErrorView) -> Seq<char> {
    match error {
        GlobalErrorView::MissingEntryPoint { entry_point, environment_name } => {
            "Could not find "@ + entry_point + " in "@ + environment_name
        },
        GlobalErrorView::Activation { environment_name, reason } => {
            "Could not create the activation script of "@ + environment_name + ": "@ + reason
        },
    }
}

impl GlobalError {
    /// The sentence that reports this error.
    pub fn message(&self) -> (text: String)
        ensures
            text@ == error_message(self@),
    {
        match self {
            GlobalError::MissingEntryPoint { entry_point, environment_name } => {
                "Could not find ".to_owned().concat(entry_point.as_str()).concat(" in ").concat(
                    environment_name.as_str(),
                )
            },
            GlobalError::Activation { environment_name, reason } => {
                "Could not create the activation script of ".to_owned().concat(
                    environment_name.as_str(),
                ).concat(": ").concat(reason.as_str())
            },
        }
    }
}

} // verus!
