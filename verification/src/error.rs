//! The ways in which a run of the picker can fail.

use vstd::prelude::*;
use vstd::string::StringExecFns;

verus! {

/// A failure that ends the run. None of them is recovered from: each is
/// reported to the user and the program stops.
#[derive(Debug, PartialEq, Eq)]
pub enum PickerError {
    /// The version-control tool could not be started.
    ToolInvocation,
    /// The tool ran and reported failure; the text is what it wrote to its
    /// error stream.
    ToolExecution(String),
    /// The tool's output is not valid UTF-8.
    Decoding,
    /// The listing holds no branch.
    EmptyListing,
    /// The name of the current branch is empty.
    CurrentBranchUnreadable,
    /// The current branch does not occur in the listing.
    BranchNotFound,
}

impl PickerError {
    /// The diagnostic that the user is shown for this failure.
    pub open spec fn message_text(self) -> Seq<char> {
        match self {
            PickerError::ToolInvocation => "failed to call git executable"@,
            PickerError::ToolExecution(text) => text@,
            PickerError::Decoding => "error: git output is not valid UTF-8"@,
            PickerError::EmptyListing => "error: couldn't read branches"@,
            PickerError::CurrentBranchUnreadable => "error: couldn't read current branch"@,
            PickerError::BranchNotFound => "error: couldn't find current branch in branch list"@,
        }
    }

    /// Renders the diagnostic for this failure.
    pub fn message(&self) -> (text: String)
        ensures
            text@ == self.message_text(),
    {
        match self {
            PickerError::ToolInvocation => String::from_str("failed to call git executable"),
            PickerError::ToolExecution(text) => text.clone(),
            PickerError::Decoding => String::from_str("error: git output is not valid UTF-8"),
            PickerError::EmptyListing => String::from_str("error: couldn't read branches"),
            PickerError::CurrentBranchUnreadable => String::from_str(
                "error: couldn't read current branch",
            ),
            PickerError::BranchNotFound => String::from_str(
                "error: couldn't find current branch in branch list",
            ),
        }
    }
}

} // verus!
