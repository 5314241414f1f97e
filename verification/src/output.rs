//! Writing command output, where a reader that has gone away is not an
//! error.

use vstd::prelude::*;

verus! {

#[verifier::external_type_specification]
#[verifier::external_body]
pub struct ExIoError(std::io::Error);

/// Writes all of `bytes`.
///
/// Trusted: calls `std::io::Write::write_all`; nothing is stated of the
/// outcome, which depends on the writer.
#[verifier::external_body]
fn write_all_bytes<W: std::io::Write>(writer: &mut W, bytes: &[u8]) -> std::io::Result<()> {
    writer.write_all(bytes)
}

/// Flushes the writer.
///
/// Trusted: calls `std::io::Write::flush`; nothing is stated of the outcome,
/// which depends on the writer.
#[verifier::external_body]
fn flush_writer<W: std::io::Write>(writer: &mut W) -> std::io::Result<()> {
    writer.flush()
}

/// Whether an I/O error says that the reading end of a pipe was closed.
///
/// Trusted: compares `std::io::Error::kind` with `ErrorKind::BrokenPipe`;
/// the error is opaque here, so nothing is stated of the answer.
#[verifier::external_body]
fn is_broken_pipe(error: &std::io::Error) -> bool {
    error.kind() == std::io::ErrorKind::BrokenPipe
}

/// The outcome of writing output: success when the write succeeded or
/// failed only because the reader went away (`broken_pipe`), else the
/// write's own error.
pub fn settle_output<E>(written: Result<(), E>, broken_pipe: bool) -> (r: Result<(), E>)
    ensures
        written is Ok ==> r is Ok,
        written is Err && broken_pipe ==> r is Ok,
        written is Err && !broken_pipe ==> r == written,
{
    match written {
        Ok(()) => Ok(()),
        Err(error) => if broken_pipe {
            Ok(())
        } else {
            Err(error)
        },
    }
}

/// Writes `output` and flushes; a closed pipe counts as success, so that
/// piping the output into a program that stops reading is a clean exit.
pub fn write_output<W: std::io::Write>(writer: &mut W, output: &str) -> std::io::Result<()> {
    let written = match write_all_bytes(writer, output.as_bytes()) {
        Ok(()) => flush_writer(writer),
        Err(error) => Err(error),
    };
    let broken_pipe = match &written {
        Ok(()) => false,
        Err(error) => is_broken_pipe(error),
    };
    settle_output(written, broken_pipe)
}

} // verus!
