use vstd::prelude::*;

use crate::text::push_str;

verus! {

/// `std::io::Error`, carried through unchanged.
#[verifier::external_type_specification]
#[verifier::external_body]
pub struct ExIoError(std::io::Error);

/// The text that `std::io::Error`'s `Display` gives; nothing is claimed of it.
#[verifier::external_body]
fn io_error_text(e: &std::io::Error) -> String {
    e.to_string()
}

/// A failure of an admin call.
#[derive(Debug)]
pub enum AdminError {
    Io(std::io::Error),
    Protocol(String),
    QubesDException { exc_type: String, message: String },
    ConnectionLost,
    Parse(String),
}

/// The result of an admin call.
pub type AdminResult<T> = Result<T, AdminError>;

/// `t` is the text that describes the failure `e` (for an I/O failure, a
/// fixed head and the system's own words, which are not stated).
pub open spec fn error_text_is(e: AdminError, t: Seq<char>) -> bool {
    match e {
        AdminError::Io(_) => t.len() >= "socket I/O error: "@.len() && t.take(
            "socket I/O error: "@.len() as int,
        ) == "socket I/O error: "@,
        AdminError::Protocol(m) => t == "protocol error: "@ + m@,
        AdminError::QubesDException { exc_type, message } => t == "qubesd exception ("@
            + exc_type@ + "): "@ + message@,
        AdminError::ConnectionLost => t == "connection lost"@,
        AdminError::Parse(m) => t == "parse error: "@ + m@,
    }
}

impl AdminError {
    /// The text that describes the failure.
    pub fn to_string(&self) -> (r: String)
        ensures
            error_text_is(*self, r@),
    {
        let mut r = String::new();
        match self {
            AdminError::Io(e) => {
                push_str(&mut r, "socket I/O error: ");
                let ghost head = r@;
                let t = io_error_text(e);
                push_str(&mut r, t.as_str());
                assert(r@.take(head.len() as int) =~= head);
            },
            AdminError::Protocol(m) => {
                push_str(&mut r, "protocol error: ");
                push_str(&mut r, m.as_str());
            },
            AdminError::QubesDException { exc_type, message } => {
                push_str(&mut r, "qubesd exception (");
                push_str(&mut r, exc_type.as_str());
                push_str(&mut r, "): ");
                push_str(&mut r, message.as_str());
            },
            AdminError::ConnectionLost => {
                push_str(&mut r, "connection lost");
            },
            AdminError::Parse(m) => {
                push_str(&mut r, "parse error: ");
                push_str(&mut r, m.as_str());
            },
        }
        r
    }
}

} // verus!
