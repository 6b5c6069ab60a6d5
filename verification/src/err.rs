//! Handler-level errors: a storage fault or a transport delivery failure.
//! Neither is fatal; both end up in the dispatcher's log.

use vstd::prelude::*;

use crate::db::StoreError;

verus! {

/// What can go wrong while handling one update: the store refused the
/// write, or the transport could not deliver the response (the variant
/// carries the transport's own message).
pub enum Error {
    Database(StoreError),
    Delivery(String),
}

impl Error {
    pub open spec fn describe_text(self) -> Seq<char> {
        match self {
            Error::Database(err) => "Database error "@ + err.describe_text(),
            Error::Delivery(msg) => "Telegram request error "@ + msg@,
        }
    }

    /// Human-readable description of the error, for the log.
    pub fn describe(&self) -> (out: String)
        ensures
            out@ == self.describe_text(),
    {
        match self {
            Error::Database(err) => {
                let inner = err.describe();
                String::from_str("Database error ").concat(inner.as_str())
            },
            Error::Delivery(msg) => String::from_str("Telegram request error ").concat(
                msg.as_str(),
            ),
        }
    }
}

impl From<StoreError> for Error {
    fn from(err: StoreError) -> (r: Self) {
        Error::Database(err)
    }
}

impl vstd::std_specs::convert::FromSpecImpl<StoreError> for Error {
    open spec fn obeys_from_spec() -> bool {
        true
    }

    open spec fn from_spec(err: StoreError) -> Self {
        Error::Database(err)
    }
}

} // verus!
