//! Reading: from a source of lines, from a whole file, and from either.

use crate::lines::{
    all_valid, decoded, first_break, first_break_found, joined, line_feed, lines_of, text_of,
    trimmed,
};
use crate::signal::{uttered, Report, Verbosity};
use crate::text::decode;
use sysexits::ExitCode;
use vstd::prelude::*;
use vstd::string::*;
use vstd::utf8::*;

verus! {

/// What a source in memory says of a line that is not well-formed UTF-8.
pub open spec fn invalid_text() -> Seq<char> {
    "stream did not contain valid UTF-8"@
}

/// The text of a source that is read line by line, as far as it has been read.
pub struct Gathering {
    text: String,
    lines: Ghost<Seq<Seq<char>>>,
    verbosity: Verbosity,
}

impl Gathering {
    #[verifier::type_invariant]
    spec fn sound(&self) -> bool {
        self.text@ == joined(self.lines@)
    }

    /// The lines gathered so far, in the order in which they came.
    pub closed spec fn lines(&self) -> Seq<Seq<char>> {
        self.lines@
    }

    /// Whether a failure is described on the diagnostic stream.
    pub closed spec fn verbosity(&self) -> Verbosity {
        self.verbosity
    }

    /// Nothing read yet.
    pub fn new(verbosity: Verbosity) -> (fresh: Self)
        ensures
            fresh.lines() == Seq::<Seq<char>>::empty(),
            fresh.verbosity() == verbosity,
    {
        Gathering { text: String::new(), lines: Ghost(Seq::empty()), verbosity }
    }

    /// Takes one more line.
    pub fn push(self, line: &str) -> (longer: Self)
        ensures
            longer.lines() == self.lines().push(line@),
            longer.verbosity() == self.verbosity(),
    {
        proof {
            use_type_invariant(&self);
            reveal_strlit("\n");
            assert("\n"@ =~= seq!['\n']);
            assert(self.lines@.push(line@).drop_last() =~= self.lines@);
        }
        let Gathering { text, lines, verbosity } = self;
        let text = text.concat(line).concat("\n");
        Gathering { text, lines: Ghost(lines@.push(line@)), verbosity }
    }

    /// Takes what the source gave for its next line: the line, or the
    /// description of why it could not be read.  After a line the reading
    /// goes on; a failure ends it with the report to hand back, and what was
    /// gathered is given up.
    pub fn line(self, reply: Result<String, String>) -> (step: Result<Self, Report<String>>)
        ensures
            match reply {
                Ok(line) => {
                    &&& step matches Ok(longer)
                    &&& longer.lines() == self.lines().push(line@)
                    &&& longer.verbosity() == self.verbosity()
                },
                Err(message) => {
                    &&& step matches Err(report)
                    &&& report.result == Err::<String, ExitCode>(ExitCode::IoErr)
                    &&& report.diagnostics@ == uttered(self.verbosity(), message@)
                },
            },
    {
        match reply {
            Ok(line) => Ok(self.push(line.as_str())),
            Err(message) => Err(Report::failure(message.as_str(), self.verbosity)),
        }
    }

    /// Ends the reading with success: the text of the lines that were
    /// gathered, each followed by one newline.
    pub fn finish(self) -> (report: Report<String>)
        ensures
            report.result matches Ok(text) && text@ == joined(self.lines()),
            report.diagnostics@ == Seq::<char>::empty(),
    {
        proof {
            use_type_invariant(&self);
        }
        Report::success(self.text)
    }
}

/// What reading a source that holds `bytes` reports: the text of its lines,
/// or an input/output failure where a line is not well-formed UTF-8.
pub open spec fn reads(report: Report<String>, bytes: Seq<u8>, verbosity: Verbosity) -> bool {
    match text_of(bytes) {
        Some(text) => {
            &&& report.result matches Ok(s)
            &&& s@ == text
            &&& report.diagnostics@ == Seq::<char>::empty()
        },
        None => {
            &&& report.result == Err::<String, ExitCode>(ExitCode::IoErr)
            &&& report.diagnostics@ == uttered(verbosity, invalid_text())
        },
    }
}

/// The position of the first line feed at or after `from`, or the length of
/// `bytes` where none follows.
fn find_break(bytes: &[u8], from: usize) -> (at: usize)
    requires
        from <= bytes@.len(),
    ensures
        from <= at <= bytes@.len(),
        at - from == first_break(bytes@.skip(from as int)),
{
    let mut at: usize = from;
    while at < bytes.len() && bytes[at] != 10u8
        invariant
            from <= at <= bytes@.len(),
            forall|i: int| from <= i < at ==> bytes@[i] != line_feed(),
        decreases bytes@.len() - at,
    {
        at += 1;
    }
    proof {
        first_break_found(bytes@.skip(from as int), at - from);
    }
    at
}

/// Reads a source in memory to its end, line by line.
pub fn read_text(bytes: &[u8], verbosity: Verbosity) -> (report: Report<String>)
    ensures
        reads(report, bytes@, verbosity),
{
    let mut gathering = Gathering::new(verbosity);
    let mut start: usize = 0;
    let ghost mut done: Seq<Seq<u8>> = Seq::empty();
    proof {
        assert(bytes@.skip(0) =~= bytes@);
        assert(done + lines_of(bytes@) =~= lines_of(bytes@));
        assert(decoded(done) =~= Seq::<Seq<char>>::empty());
    }
    while start < bytes.len()
        invariant
            start <= bytes@.len(),
            lines_of(bytes@) == done + lines_of(bytes@.skip(start as int)),
            all_valid(done),
            gathering.lines() == decoded(done),
            gathering.verbosity() == verbosity,
        decreases bytes@.len() - start,
    {
        let end = find_break(bytes, start);
        let ended = end < bytes.len();
        let stop = if ended && start < end && bytes[end - 1] == 13u8 {
            end - 1
        } else {
            end
        };
        let next = if ended {
            end + 1
        } else {
            end
        };
        let chunk = vstd::slice::slice_subrange(bytes, start, stop);
        let ghost rest = bytes@.skip(start as int);
        proof {
            if ended {
                assert(rest.take(end - start) =~= bytes@.subrange(start as int, end as int));
                assert(chunk@ =~= trimmed(rest.take(end - start)));
                assert(rest.skip(end - start + 1) =~= bytes@.skip(next as int));
            } else {
                assert(chunk@ =~= rest);
                assert(bytes@.skip(next as int) =~= Seq::<u8>::empty());
            }
            assert(lines_of(rest) =~= seq![chunk@] + lines_of(bytes@.skip(next as int)));
            assert(lines_of(bytes@) =~= done.push(chunk@) + lines_of(bytes@.skip(next as int)));
        }
        match decode(chunk) {
            Some(line) => {
                gathering = gathering.push(line.as_str());
                proof {
                    assert(decoded(done.push(chunk@)) =~= decoded(done).push(
                        decode_utf8(chunk@),
                    ));
                    done = done.push(chunk@);
                }
                start = next;
            },
            None => {
                proof {
                    assert(lines_of(bytes@)[done.len() as int] == chunk@);
                }
                return Report::failure("stream did not contain valid UTF-8", verbosity);
            },
        }
    }
    proof {
        assert(bytes@.skip(start as int) =~= Seq::<u8>::empty());
        assert(lines_of(bytes@) =~= done);
    }
    gathering.finish()
}

/// The result alone of reading a source that holds `bytes`.
pub open spec fn reads_quietly(result: sysexits::Result<String>, bytes: Seq<u8>) -> bool {
    match text_of(bytes) {
        Some(text) => result matches Ok(s) && s@ == text,
        None => result == Err::<String, ExitCode>(ExitCode::IoErr),
    }
}

/// Loud or silent, reading the same bytes gives the same result, and read
/// silently they give nothing for the diagnostic stream.
pub proof fn reading_is_independent_of_verbosity(
    loud: Report<String>,
    silent: Report<String>,
    bytes: Seq<u8>,
)
    requires
        reads(loud, bytes, Verbosity::Loud),
        reads(silent, bytes, Verbosity::Silent),
    ensures
        reads_quietly(loud.result, bytes),
        reads_quietly(silent.result, bytes),
        loud.result is Ok <==> silent.result is Ok,
        loud.result matches Ok(text) ==> silent.result matches Ok(same) && text@ == same@,
        loud.result matches Err(code) ==> silent.result == Err::<String, ExitCode>(code),
        loud.result is Err <==> loud.diagnostics@.len() > 0,
        silent.diagnostics@.len() == 0,
{
}

/// A source of bytes that is read to its end as lines of text.
pub trait BufReadReader: Sized {
    /// The bytes that the source holds.
    spec fn content(&self) -> Seq<u8>;

    /// Reads the source line by line, and describes a failure for the
    /// diagnostic stream.
    fn read_loudly(self) -> (report: Report<String>)
        ensures
            reads(report, self.content(), Verbosity::Loud),
    ;

    /// Reads the source line by line: the lines, each followed by one
    /// newline.  The first line that cannot be read ends the reading with an
    /// input/output failure.
    fn read_silently(self) -> (result: sysexits::Result<String>)
        ensures
            reads_quietly(result, self.content()),
    ;
}

impl<'a> BufReadReader for &'a [u8] {
    open spec fn content(&self) -> Seq<u8> {
        self@
    }

    fn read_loudly(self) -> (report: Report<String>) {
        read_text(self, Verbosity::Loud)
    }

    fn read_silently(self) -> (result: sysexits::Result<String>) {
        read_text(self, Verbosity::Silent).result
    }
}

/// Judges what reading a whole file gave: its text, which is kept as it is,
/// or the description of why it could not be read.
pub fn loaded(reply: Result<String, String>, verbosity: Verbosity) -> (report: Report<String>)
    ensures
        match reply {
            Ok(text) => {
                &&& report.result == Ok::<String, ExitCode>(text)
                &&& report.diagnostics@ == Seq::<char>::empty()
            },
            Err(message) => {
                &&& report.result == Err::<String, ExitCode>(ExitCode::IoErr)
                &&& report.diagnostics@ == uttered(verbosity, message@)
            },
        },
{
    match reply {
        Ok(text) => Report::success(text),
        Err(message) => Report::failure(message.as_str(), verbosity),
    }
}

/// Reading from the file that an optional value names, or from a fallback
/// source where it names none.
pub trait OptionReader<P> {
    /// The file that is named, where one is.
    spec fn named(&self) -> Option<P>;

    /// Reads the named file with `reader` where a file is named, and
    /// `alternative` otherwise; a failure is described for the diagnostic
    /// stream.  Exactly one of the two is read.
    fn read_loudly<B: BufReadReader, F: FnOnce(&P) -> Report<String>>(
        &self,
        alternative: B,
        reader: F,
    ) -> (report: Report<String>)
        requires
            self.named() matches Some(path) ==> reader.requires((&path,)),
        ensures
            match self.named() {
                Some(path) => reader.ensures((&path,), report),
                None => reads(report, alternative.content(), Verbosity::Loud),
            },
    ;

    /// Reads the named file with `reader` where a file is named, and
    /// `alternative` otherwise.  Exactly one of the two is read.
    fn read_silently<B: BufReadReader, F: FnOnce(&P) -> sysexits::Result<String>>(
        &self,
        alternative: B,
        reader: F,
    ) -> (result: sysexits::Result<String>)
        requires
            self.named() matches Some(path) ==> reader.requires((&path,)),
        ensures
            match self.named() {
                Some(path) => reader.ensures((&path,), result),
                None => reads_quietly(result, alternative.content()),
            },
    ;
}

impl<P> OptionReader<P> for Option<P> {
    open spec fn named(&self) -> Option<P> {
        *self
    }

    fn read_loudly<B: BufReadReader, F: FnOnce(&P) -> Report<String>>(
        &self,
        alternative: B,
        reader: F,
    ) -> (report: Report<String>) {
        match self {
            Some(path) => reader(path),
            None => alternative.read_loudly(),
        }
    }

    fn read_silently<B: BufReadReader, F: FnOnce(&P) -> sysexits::Result<String>>(
        &self,
        alternative: B,
        reader: F,
    ) -> (result: sysexits::Result<String>) {
        match self {
            Some(path) => reader(path),
            None => alternative.read_silently(),
        }
    }
}

} // verus!
