//! Writing: to a sink of bytes, to a file that is replaced or extended, and
//! to either.

use crate::signal::{uttered, Report, Verbosity};
use sysexits::ExitCode;
use vstd::prelude::*;
use vstd::string::*;
use vstd::utf8::*;

verus! {

/// What is said of a sink that took fewer bytes than it was given.
pub open spec fn inexact_copy() -> Seq<char> {
    "Creating an exact copy was not possible."@
}

/// How a file is treated when it is opened for writing.
#[derive(Clone, Copy, Debug, PartialEq, Eq, Structural)]
pub enum Manner {
    /// What the file held is discarded.
    Truncation,
    /// What the file held is kept, and the new bytes follow it.
    Appendix,
}

/// The options with which a file is opened.
#[derive(Clone, Copy, Debug, PartialEq, Eq, Structural)]
pub struct OpenMode {
    pub append: bool,
    pub create: bool,
    pub truncate: bool,
    pub write: bool,
}

/// The options that belong to a manner of writing.  Either way a file that
/// does not exist is created.
pub open spec fn mode_of(manner: Manner) -> OpenMode {
    match manner {
        Manner::Truncation => OpenMode { append: false, create: true, truncate: true, write: true },
        Manner::Appendix => OpenMode { append: true, create: true, truncate: false, write: false },
    }
}

/// What one attempt to write `submitted` bytes reports, given the sink's
/// reply: the number of bytes it took, or the description of why it failed.
/// Only a sink that took every byte makes a success.
pub open spec fn verdict(submitted: nat, reply: Result<usize, String>, verbosity: Verbosity) -> (
    sysexits::Result<()>,
    Seq<char>,
) {
    match reply {
        Ok(taken) => if taken == submitted {
            (Ok(()), Seq::empty())
        } else {
            (Err(ExitCode::IoErr), uttered(verbosity, inexact_copy()))
        },
        Err(message) => (Err(ExitCode::IoErr), uttered(verbosity, message@)),
    }
}

/// Loud or silent, the same reply gives the same result.  The attempt
/// succeeds exactly where the sink took every byte, and only a failure that
/// is described loudly says anything.
pub proof fn verdict_is_independent_of_verbosity(submitted: nat, reply: Result<usize, String>)
    ensures
        verdict(submitted, reply, Verbosity::Loud).0 == verdict(
            submitted,
            reply,
            Verbosity::Silent,
        ).0,
        verdict(submitted, reply, Verbosity::Loud).0 is Ok <==> (reply matches Ok(taken)
            && taken == submitted),
        verdict(submitted, reply, Verbosity::Loud).0 is Err ==> verdict(
            submitted,
            reply,
            Verbosity::Loud,
        ).0 == Err::<(), ExitCode>(ExitCode::IoErr),
        verdict(submitted, reply, Verbosity::Loud).0 is Ok <==> verdict(
            submitted,
            reply,
            Verbosity::Loud,
        ).1.len() == 0,
        verdict(submitted, reply, Verbosity::Silent).1.len() == 0,
{
}

/// Data on its way to a sink: the bytes to submit, in one attempt.
pub struct Writing {
    payload: Vec<u8>,
    verbosity: Verbosity,
}

impl Writing {
    /// The bytes to submit.
    pub closed spec fn bytes(&self) -> Seq<u8> {
        self.payload@
    }

    /// Whether a failure is described on the diagnostic stream.
    pub closed spec fn verbosity(&self) -> Verbosity {
        self.verbosity
    }

    /// Prepares `data` for a sink: its UTF-8 encoding, unchanged.
    pub fn new(data: &str, verbosity: Verbosity) -> (writing: Self)
        ensures
            writing.bytes() == encode_utf8(data@),
            writing.verbosity() == verbosity,
    {
        Writing { payload: data.as_bytes_vec(), verbosity }
    }

    /// The bytes to hand to the sink.
    pub fn payload(&self) -> (bytes: &[u8])
        ensures
            bytes@ == self.bytes(),
    {
        self.payload.as_slice()
    }

    /// Judges the sink's reply to the one attempt.  There is no second
    /// attempt: the writing is used up.
    pub fn written(self, reply: Result<usize, String>) -> (report: Report<()>)
        ensures
            (report.result, report.diagnostics@) == verdict(
                self.bytes().len(),
                reply,
                self.verbosity(),
            ),
    {
        match reply {
            Ok(taken) => {
                if taken == self.payload.len() {
                    Report::success(())
                } else {
                    Report::failure("Creating an exact copy was not possible.", self.verbosity)
                }
            },
            Err(message) => Report::failure(message.as_str(), self.verbosity),
        }
    }
}

/// Data on its way to a file that has yet to be opened.
pub struct Opening {
    manner: Manner,
    writing: Writing,
}

impl Opening {
    /// How the file is to be treated.
    pub closed spec fn manner(&self) -> Manner {
        self.manner
    }

    /// What is written once the file is open.
    pub closed spec fn writing(&self) -> Writing {
        self.writing
    }

    /// Prepares `data` to replace what a file holds.
    pub fn truncation(data: &str, verbosity: Verbosity) -> (opening: Self)
        ensures
            opening.manner() == Manner::Truncation,
            opening.writing().bytes() == encode_utf8(data@),
            opening.writing().verbosity() == verbosity,
    {
        Opening { manner: Manner::Truncation, writing: Writing::new(data, verbosity) }
    }

    /// Prepares `data` to follow what a file holds.
    pub fn appendix(data: &str, verbosity: Verbosity) -> (opening: Self)
        ensures
            opening.manner() == Manner::Appendix,
            opening.writing().bytes() == encode_utf8(data@),
            opening.writing().verbosity() == verbosity,
    {
        Opening { manner: Manner::Appendix, writing: Writing::new(data, verbosity) }
    }

    /// The options with which to open the file.
    pub fn mode(&self) -> (mode: OpenMode)
        ensures
            mode == mode_of(self.manner()),
    {
        match self.manner {
            Manner::Truncation => OpenMode {
                append: false,
                create: true,
                truncate: true,
                write: true,
            },
            Manner::Appendix => OpenMode {
                append: true,
                create: true,
                truncate: false,
                write: false,
            },
        }
    }

    /// Judges the reply to opening the file: the open file, or the
    /// description of why it is not open.  With an open file the writing goes
    /// on, to that file; a failure ends it with the report to hand back, and
    /// nothing is written.
    pub fn opened<F>(self, reply: Result<F, String>) -> (step: Result<(F, Writing), Report<()>>)
        ensures
            match reply {
                Ok(file) => step == Ok::<(F, Writing), Report<()>>((file, self.writing())),
                Err(message) => {
                    &&& step matches Err(report)
                    &&& report.result == Err::<(), ExitCode>(ExitCode::IoErr)
                    &&& report.diagnostics@ == uttered(self.writing().verbosity(), message@)
                },
            },
    {
        match reply {
            Ok(file) => Ok((file, self.writing)),
            Err(message) => Err(Report::failure(message.as_str(), self.writing.verbosity)),
        }
    }
}

/// Writes `data` to a sink in memory, which takes every byte.
pub fn write_text(data: &str, destination: &mut Vec<u8>, verbosity: Verbosity) -> (report: Report<
    (),
>)
    ensures
        final(destination)@ == old(destination)@ + encode_utf8(data@),
        report.result == Ok::<(), ExitCode>(()),
        report.diagnostics@ == Seq::<char>::empty(),
{
    let writing = Writing::new(data, verbosity);
    let bytes = writing.payload();
    let submitted = bytes.len();
    destination.extend_from_slice(bytes);
    proof {
        assert(destination@ =~= old(destination)@ + encode_utf8(data@));
    }
    writing.written(Ok(submitted))
}

/// Text that is written to a sink of bytes.
pub trait Writer<W> {
    /// Writes the text to `destination` as it is, in one attempt, and
    /// describes a failure for the diagnostic stream.
    fn write_loudly(self, destination: W) -> Report<()>;

    /// Writes the text to `destination` as it is, in one attempt.
    fn write_silently(self, destination: W) -> sysexits::Result<()>;
}

impl<'a, 'b> Writer<&'b mut Vec<u8>> for &'a str {
    fn write_loudly(self, destination: &'b mut Vec<u8>) -> (report: Report<()>)
        ensures
            final(destination)@ == old(destination)@ + encode_utf8(self@),
            report.result == Ok::<(), ExitCode>(()),
            report.diagnostics@ == Seq::<char>::empty(),
    {
        write_text(self, destination, Verbosity::Loud)
    }

    fn write_silently(self, destination: &'b mut Vec<u8>) -> (result: sysexits::Result<()>)
        ensures
            final(destination)@ == old(destination)@ + encode_utf8(self@),
            result == Ok::<(), ExitCode>(()),
    {
        write_text(self, destination, Verbosity::Silent).result
    }
}

/// Text that replaces what a named file holds, or goes to a fallback sink
/// where no file is named.
pub trait OptionTruncation<P>: Sized {
    /// The text that is written.
    spec fn text(&self) -> Seq<char>;

    /// Hands the text and the file's name to `truncator` where a file is
    /// named, and writes the text to `alternative` otherwise; a failure is
    /// described for the diagnostic stream.  Exactly one of the two is used.
    fn truncate_loudly<F: FnOnce(Self, P) -> Report<()>>(
        self,
        destination: Option<P>,
        alternative: &mut Vec<u8>,
        truncator: F,
    ) -> (report: Report<()>)
        requires
            destination matches Some(path) ==> truncator.requires((self, path)),
        ensures
            match destination {
                Some(path) => {
                    &&& truncator.ensures((self, path), report)
                    &&& final(alternative)@ == old(alternative)@
                },
                None => {
                    &&& final(alternative)@ == old(alternative)@ + encode_utf8(self.text())
                    &&& report.result == Ok::<(), ExitCode>(())
                    &&& report.diagnostics@ == Seq::<char>::empty()
                },
            },
    ;

    /// Hands the text and the file's name to `truncator` where a file is
    /// named, and writes the text to `alternative` otherwise.  Exactly one of
    /// the two is used.
    fn truncate_silently<F: FnOnce(Self, P) -> sysexits::Result<()>>(
        self,
        destination: Option<P>,
        alternative: &mut Vec<u8>,
        truncator: F,
    ) -> (result: sysexits::Result<()>)
        requires
            destination matches Some(path) ==> truncator.requires((self, path)),
        ensures
            match destination {
                Some(path) => {
                    &&& truncator.ensures((self, path), result)
                    &&& final(alternative)@ == old(alternative)@
                },
                None => {
                    &&& final(alternative)@ == old(alternative)@ + encode_utf8(self.text())
                    &&& result == Ok::<(), ExitCode>(())
                },
            },
    ;
}

impl<'a, P> OptionTruncation<P> for &'a str {
    open spec fn text(&self) -> Seq<char> {
        self@
    }

    fn truncate_loudly<F: FnOnce(Self, P) -> Report<()>>(
        self,
        destination: Option<P>,
        alternative: &mut Vec<u8>,
        truncator: F,
    ) -> (report: Report<()>) {
        match destination {
            Some(path) => truncator(self, path),
            None => write_text(self, alternative, Verbosity::Loud),
        }
    }

    fn truncate_silently<F: FnOnce(Self, P) -> sysexits::Result<()>>(
        self,
        destination: Option<P>,
        alternative: &mut Vec<u8>,
        truncator: F,
    ) -> (result: sysexits::Result<()>) {
        match destination {
            Some(path) => truncator(self, path),
            None => write_text(self, alternative, Verbosity::Silent).result,
        }
    }
}

/// The bytes of two texts put together are the bytes of the one followed by
/// the bytes of the other.
pub proof fn payload_of_parts(first: Seq<char>, second: Seq<char>)
    ensures
        encode_utf8(first + second) == encode_utf8(first) + encode_utf8(second),
    decreases first.len(),
{
    if first.len() == 0 {
        assert(first + second =~= second);
        assert(encode_utf8(first) + encode_utf8(second) =~= encode_utf8(second));
    } else {
        assert((first + second).drop_first() =~= first.drop_first() + second);
        payload_of_parts(first.drop_first(), second);
        assert(encode_utf8(first + second) =~= encode_utf8(first) + encode_utf8(second));
    }
}

/// What a file holds once it has been opened with `mode` and has taken the
/// bytes `taken`, where it held `before` (nothing where it did not exist):
/// the operating system's part, as the two manners of writing rely on it.
pub open spec fn held_after(before: Option<Seq<u8>>, mode: OpenMode, taken: Seq<u8>) -> Seq<u8> {
    if mode.truncate {
        taken
    } else {
        match before {
            Some(held) => held + taken,
            None => taken,
        }
    }
}

/// A file that is replaced holds the text's bytes and nothing else, whether
/// it existed or not and whatever it held; so replacing it again, by the same
/// text or another, leaves what the last replacement alone would leave.
pub proof fn truncation_replaces(before: Option<Seq<u8>>, first: Seq<char>, second: Seq<char>)
    ensures
        held_after(before, mode_of(Manner::Truncation), encode_utf8(first)) == encode_utf8(first),
        held_after(
            Some(held_after(before, mode_of(Manner::Truncation), encode_utf8(first))),
            mode_of(Manner::Truncation),
            encode_utf8(second),
        ) == held_after(before, mode_of(Manner::Truncation), encode_utf8(second)),
{
}

/// A file that is extended keeps what it held; extending it by one text and
/// then by another leaves what extending it once by both together leaves.
pub proof fn appendix_extends(before: Option<Seq<u8>>, first: Seq<char>, second: Seq<char>)
    ensures
        before matches Some(held) ==> held_after(
            before,
            mode_of(Manner::Appendix),
            encode_utf8(first),
        ) == held + encode_utf8(first),
        held_after(
            Some(held_after(before, mode_of(Manner::Appendix), encode_utf8(first))),
            mode_of(Manner::Appendix),
            encode_utf8(second),
        ) == held_after(before, mode_of(Manner::Appendix), encode_utf8(first + second)),
{
    payload_of_parts(first, second);
    let taken = encode_utf8(first);
    let more = encode_utf8(second);
    match before {
        Some(held) => {
            assert((held + taken) + more =~= held + (taken + more));
        },
        None => {},
    }
}

} // verus!
