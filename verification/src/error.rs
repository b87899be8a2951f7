//! The library's errors.
use vstd::prelude::*;
use vstd::string::*;

verus! {

/// `std::io::Error`, carried opaquely by `PocketError::IoError`.
#[verifier::external_type_specification]
#[verifier::external_body]
pub struct ExIoError(std::io::Error);

/// What can go wrong in the appliance.
#[derive(Debug)]
pub enum PocketError {
    /// A failure of the operating system's input or output.
    IoError(std::io::Error),
    /// A configuration that cannot be used.
    ConfigError(String),
    /// A failure of the inference engine.
    EngineError(String),
    /// The model would not fit in the machine's memory.
    MemoryInsufficient(String),
}

/// The result of the appliance's fallible operations.
pub type Result<T> = std::result::Result<T, PocketError>;

impl From<std::io::Error> for PocketError {
    fn from(e: std::io::Error) -> (r: PocketError) {
        PocketError::IoError(e)
    }
}

impl vstd::std_specs::convert::FromSpecImpl<std::io::Error> for PocketError {
    open spec fn obeys_from_spec() -> bool {
        true
    }

    open spec fn from_spec(v: std::io::Error) -> PocketError {
        PocketError::IoError(v)
    }
}

/// The text of an I/O error, as its `Display` writes it.
#[verifier::external_body]
fn io_error_text(e: &std::io::Error) -> String {
    format!("{}", e)
}

impl PocketError {
    /// The human-readable message of the error.
    pub fn message(&self) -> (r: String)
        ensures
            match self {
                PocketError::IoError(_) => r@.len() >= "I/O Error: "@.len() && r@.take(
                    "I/O Error: "@.len() as int,
                ) == "I/O Error: "@,
                PocketError::ConfigError(s) => r@ == "Configuration Error: "@ + s@,
                PocketError::EngineError(s) => r@ == "Engine Inference Error: "@ + s@,
                PocketError::MemoryInsufficient(s) => r@ == "Insufficient System RAM: "@ + s@,
            },
    {
        match self {
            PocketError::IoError(e) => {
                let mut r = String::from_str("I/O Error: ");
                let ghost head = r@;
                let text = io_error_text(e);
                r.append(text.as_str());
                assert(r@.take(head.len() as int) =~= head);
                r
            },
            PocketError::ConfigError(s) => {
                let mut r = String::from_str("Configuration Error: ");
                r.append(s.as_str());
                r
            },
            PocketError::EngineError(s) => {
                let mut r = String::from_str("Engine Inference Error: ");
                r.append(s.as_str());
                r
            },
            PocketError::MemoryInsufficient(s) => {
                let mut r = String::from_str("Insufficient System RAM: ");
                r.append(s.as_str());
                r
            },
        }
    }
}

} // verus!
