//! The subcommands of the command line tool and how their outcome is reported.
use vstd::prelude::*;
use vstd::string::*;

verus! {

/// The subcommand that was asked for.
#[derive(Clone, Copy, Debug, PartialEq, Eq, Structural, Hash)]
pub enum MainCmd {
    /// Execute state tests.
    Statetest,
    /// Run bytecode.
    Evm,
    /// Print the structure of bytecode.
    Bytecode,
    /// Run a benchmark.
    Bench,
}

/// Why a subcommand failed.
#[derive(Debug, PartialEq, Eq)]
pub enum Error {
    /// The state tests failed; the text is their own message.
    Statetest(String),
    /// The run of bytecode failed; the text is its own message.
    EvmRunnerErrors(String),
    /// A failure of the tool itself.
    Custom(&'static str),
}

impl MainCmd {
    /// What the tool reports once the subcommand has been run and has said
    /// `report`. State tests and runs of bytecode may fail, and their failure
    /// is passed on under their name. Printing bytecode and benchmarks have
    /// nothing to report: they always count as done.
    pub open spec fn outcome(self, report: Result<(), String>) -> Result<(), Error> {
        match (self, report) {
            (MainCmd::Statetest, Err(message)) => Err(Error::Statetest(message)),
            (MainCmd::Evm, Err(message)) => Err(Error::EvmRunnerErrors(message)),
            _ => Ok(()),
        }
    }

    /// What the tool reports once the subcommand has been run and has said `report`.
    pub fn run(&self, report: Result<(), String>) -> (result: Result<(), Error>)
        ensures
            result == self.outcome(report),
    {
        match self {
            MainCmd::Statetest => match report {
                Ok(_) => Ok(()),
                Err(message) => Err(Error::Statetest(message)),
            },
            MainCmd::Evm => match report {
                Ok(_) => Ok(()),
                Err(message) => Err(Error::EvmRunnerErrors(message)),
            },
            MainCmd::Bytecode => Ok(()),
            MainCmd::Bench => Ok(()),
        }
    }
}

impl Error {
    /// The text that is shown for the error: the message of the subcommand
    /// as it is, and a failure of the tool itself behind the words
    /// `Custom error: `.
    pub open spec fn spec_message(&self) -> Seq<char> {
        match self {
            Error::Statetest(message) => message@,
            Error::EvmRunnerErrors(message) => message@,
            Error::Custom(text) => "Custom error: "@ + text@,
        }
    }

    /// The text that is shown for the error.
    pub fn message(&self) -> (text: String)
        ensures
            text@ == self.spec_message(),
    {
        match self {
            Error::Statetest(message) => message.clone(),
            Error::EvmRunnerErrors(message) => message.clone(),
            Error::Custom(text) => String::from_str("Custom error: ").concat(text),
        }
    }
}

} // verus!
