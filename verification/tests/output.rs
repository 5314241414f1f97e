use std::io::{self, Write};

use package_registry_manager::output::{settle_output, write_output};

struct BrokenPipeWriter;

impl Write for BrokenPipeWriter {
    fn write(&mut self, _buffer: &[u8]) -> io::Result<usize> {
        Err(io::Error::from(io::ErrorKind::BrokenPipe))
    }

    fn flush(&mut self) -> io::Result<()> {
        Ok(())
    }
}

struct FailingWriter;

impl Write for FailingWriter {
    fn write(&mut self, _buffer: &[u8]) -> io::Result<usize> {
        Err(io::Error::from(io::ErrorKind::PermissionDenied))
    }

    fn flush(&mut self) -> io::Result<()> {
        Ok(())
    }
}

#[test]
fn broken_pipe_is_a_clean_exit() {
    assert!(write_output(&mut BrokenPipeWriter, "output\n").is_ok());
}

#[test]
fn other_write_errors_are_reported() {
    let error = write_output(&mut FailingWriter, "output\n").unwrap_err();
    assert_eq!(error.kind(), io::ErrorKind::PermissionDenied);
}

#[test]
fn written_output_reaches_the_writer() {
    let mut buffer: Vec<u8> = Vec::new();
    assert!(write_output(&mut buffer, "Repository: /repo\n").is_ok());
    assert_eq!(buffer, b"Repository: /repo\n".to_vec());
}

#[test]
fn settling_output_forgives_only_a_closed_pipe() {
    assert_eq!(settle_output::<u8>(Ok(()), false), Ok(()));
    assert_eq!(settle_output::<u8>(Err(7), true), Ok(()));
    assert_eq!(settle_output::<u8>(Err(7), false), Err(7));
}
