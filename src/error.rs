use vstd::prelude::*;
use crate::naming::{decimal, push_decimal};

verus! {

/// A fatal problem found before any page is fetched.
#[derive(Clone, Debug, PartialEq, Eq)]
pub enum ConfigError {
    /// The base URL does not parse as an absolute URL.
    InvalidUrl(String),
    /// The output directory could not be resolved or created.
    OutputDir(String),
}

/// Why one page failed; the other pages are unaffected.
#[derive(Clone, Debug, PartialEq, Eq)]
pub enum JobError {
    /// The page's name could not be joined onto the base URL.
    InvalidUrl(String),
    /// No response arrived: DNS, connection, TLS or timeout failure.
    Transport(String),
    /// The server answered with a status outside 200..=299.
    HttpStatus(u16),
    /// The page's file could not be created or written.
    Io(String),
}

/// The text that describes a page failure: its kind, then its cause.
pub open spec fn job_error_text(e: JobError) -> Seq<char> {
    match e {
        JobError::InvalidUrl(m) => "invalid URL: "@ + m@,
        JobError::Transport(m) => "transport error: "@ + m@,
        JobError::HttpStatus(c) => "HTTP status "@ + decimal(c as nat),
        JobError::Io(m) => "I/O error: "@ + m@,
    }
}

/// The text that describes a fatal configuration problem.
pub open spec fn config_error_text(e: ConfigError) -> Seq<char> {
    match e {
        ConfigError::InvalidUrl(m) => "invalid base URL: "@ + m@,
        ConfigError::OutputDir(m) => "output directory: "@ + m@,
    }
}

impl JobError {
    /// Describes the failure for the user: its kind, then its cause.
    pub fn describe(&self) -> (r: String)
        ensures
            r@ == job_error_text(*self),
    {
        match self {
            JobError::InvalidUrl(m) => String::from_str("invalid URL: ").concat(m.as_str()),
            JobError::Transport(m) => String::from_str("transport error: ").concat(m.as_str()),
            JobError::HttpStatus(c) => {
                let mut s = String::from_str("HTTP status ");
                push_decimal(&mut s, *c as u32);
                s
            },
            JobError::Io(m) => String::from_str("I/O error: ").concat(m.as_str()),
        }
    }
}

impl ConfigError {
    /// Describes the problem for the user.
    pub fn describe(&self) -> (r: String)
        ensures
            r@ == config_error_text(*self),
    {
        match self {
            ConfigError::InvalidUrl(m) => String::from_str("invalid base URL: ").concat(m.as_str()),
            ConfigError::OutputDir(m) => String::from_str("output directory: ").concat(m.as_str()),
        }
    }
}

} // verus!
