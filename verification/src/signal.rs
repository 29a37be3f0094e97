//! The outcome of an operation: its result and what it has to say on the
//! diagnostic stream.

use sysexits::ExitCode;
use vstd::prelude::*;
use vstd::string::*;

verus! {

/// Makes `sysexits::ExitCode` known to the verifier together with its
/// variants, which are public and carry no data.
#[verifier::external_type_specification]
pub struct ExExitCode(sysexits::ExitCode);

/// Whether a failing operation describes its failure on the diagnostic stream.
#[derive(Clone, Copy, Debug, PartialEq, Eq, Structural)]
pub enum Verbosity {
    /// The failure is described on the diagnostic stream.
    Loud,
    /// Nothing is written to the diagnostic stream.
    Silent,
}

/// The text that goes to the diagnostic stream for one failure described by
/// `message`: the message on a line of its own when loud, nothing when silent.
pub open spec fn uttered(verbosity: Verbosity, message: Seq<char>) -> Seq<char> {
    match verbosity {
        Verbosity::Loud => message + seq!['\n'],
        Verbosity::Silent => Seq::empty(),
    }
}

/// What an operation hands back: the result, and the text that the caller is
/// to write to the diagnostic stream (empty where there is nothing to say).
pub struct Report<T> {
    pub result: sysexits::Result<T>,
    pub diagnostics: String,
}

impl<T> Report<T> {
    /// A success that carries `value` and says nothing.
    pub fn success(value: T) -> (report: Self)
        ensures
            report.result == Ok::<T, ExitCode>(value),
            report.diagnostics@ == Seq::<char>::empty(),
    {
        Report { result: Ok(value), diagnostics: String::new() }
    }

    /// An input/output failure described by `message`.
    pub fn failure(message: &str, verbosity: Verbosity) -> (report: Self)
        ensures
            report.result == Err::<T, ExitCode>(ExitCode::IoErr),
            report.diagnostics@ == uttered(verbosity, message@),
    {
        let mut diagnostics = String::new();
        match verbosity {
            Verbosity::Loud => {
                diagnostics.append(message);
                diagnostics.append("\n");
                proof {
                    reveal_strlit("\n");
                    assert("\n"@ =~= seq!['\n']);
                }
            },
            Verbosity::Silent => {},
        }
        Report { result: Err(ExitCode::IoErr), diagnostics }
    }
}

/// A failure that is described loudly puts at least the end of a line on the
/// diagnostic stream, whatever the message; one that is silent puts nothing
/// there.
pub proof fn loud_speaks_silent_does_not(message: Seq<char>)
    ensures
        uttered(Verbosity::Loud, message).len() == message.len() + 1,
        uttered(Verbosity::Loud, message).last() == '\n',
        uttered(Verbosity::Silent, message).len() == 0,
{
}

} // verus!
