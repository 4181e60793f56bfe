//! Errors of the scan and recovery flows.
use vstd::prelude::*;
use crate::text::{owned, push_str};

verus! {

/// What can go wrong in a scan or a recovery.
#[derive(Debug)]
pub enum RecoveryError {
    /// The source path does not exist.
    SourceNotFound(String),
    /// The destination could overwrite the source.
    UnsafeDestination(String),
    /// An I/O operation failed.
    Io(String),
    /// A report could not be read or written as JSON.
    Json(String),
}

/// The message of an error, as it is shown to the user.
pub open spec fn error_message(e: RecoveryError) -> Seq<char> {
    match e {
        RecoveryError::SourceNotFound(s) => "源路径不存在："@ + s@,
        RecoveryError::UnsafeDestination(s) => "目标路径不安全："@ + s@,
        RecoveryError::Io(s) => "IO 错误："@ + s@,
        RecoveryError::Json(s) => "JSON 序列化错误："@ + s@,
    }
}

impl RecoveryError {
    /// The message shown for this error.
    pub fn message(&self) -> (r: String)
        ensures
            r@ == error_message(*self),
    {
        let (head, body) = match self {
            RecoveryError::SourceNotFound(s) => ("源路径不存在：", s),
            RecoveryError::UnsafeDestination(s) => ("目标路径不安全：", s),
            RecoveryError::Io(s) => ("IO 错误：", s),
            RecoveryError::Json(s) => ("JSON 序列化错误：", s),
        };
        let mut r = owned(head);
        push_str(&mut r, body.as_str());
        r
    }
}

} // verus!
