//! The I/O traits of std as traits of their own, so that mocks can stand
//! in for readers and writers.
use vstd::prelude::*;

verus! {

/// std's `io::Error`, carried opaquely in the results of `Read` and `Write`.
#[verifier::external_type_specification]
#[verifier::external_body]
pub struct ExIoError(std::io::Error);

/// std's `io::IoSlice`, carried opaquely by `Write::write_vectored`.
#[verifier::external_type_specification]
#[verifier::external_body]
pub struct ExIoSlice<'a>(std::io::IoSlice<'a>);

/// std's `fmt::Arguments`, carried opaquely by `Write::write_fmt`.
#[verifier::external_type_specification]
#[verifier::external_body]
pub struct ExArguments<'a>(std::fmt::Arguments<'a>);

/// A source of bytes, in the shape of `std::io::Read`.
pub trait Read {
    fn read(&mut self, buf: &mut [u8]) -> Result<usize, std::io::Error>;

    fn read_to_end(&mut self, buf: &mut Vec<u8>) -> Result<usize, std::io::Error>;

    fn read_to_string(&mut self, buf: &mut String) -> Result<usize, std::io::Error>;

    fn read_exact(&mut self, buf: &mut [u8]) -> Result<(), std::io::Error>;
}

/// A sink of bytes, in the shape of `std::io::Write`.
pub trait Write {
    fn write(&mut self, buf: &[u8]) -> Result<usize, std::io::Error>;

    fn write_vectored(&mut self, bufs: &[std::io::IoSlice<'_>]) -> Result<usize, std::io::Error>;

    fn flush(&mut self) -> Result<(), std::io::Error>;

    fn write_all(&mut self, buf: &[u8]) -> Result<(), std::io::Error>;

    fn write_fmt(&mut self, fmt: std::fmt::Arguments<'_>) -> Result<(), std::io::Error>;
}

} // verus!
