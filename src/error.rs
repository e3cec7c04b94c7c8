use vstd::prelude::*;

verus! {

/// The closed set of failures that a domain operation reports.
pub enum Error {
    UnAuthorized { msg: String },
    NotFound { msg: String },
    EmptyFields { msg: String },
    InvalidAdminId { msg: String },
    NotRoutePassenger { msg: String },
    AlreadyExists { msg: String },
    InvalidEmail { msg: String },
    InvalidName { msg: String },
}

/// The kind of an [`Error`], without its message.
#[derive(Clone, Copy, Debug, PartialEq, Eq, Structural)]
pub enum ErrorKind {
    UnAuthorized,
    NotFound,
    EmptyFields,
    InvalidAdminId,
    NotRoutePassenger,
    AlreadyExists,
    InvalidEmail,
    InvalidName,
}

impl Error {
    pub open spec fn spec_kind(&self) -> ErrorKind {
        match self {
            Error::UnAuthorized { .. } => ErrorKind::UnAuthorized,
            Error::NotFound { .. } => ErrorKind::NotFound,
            Error::EmptyFields { .. } => ErrorKind::EmptyFields,
            Error::InvalidAdminId { .. } => ErrorKind::InvalidAdminId,
            Error::NotRoutePassenger { .. } => ErrorKind::NotRoutePassenger,
            Error::AlreadyExists { .. } => ErrorKind::AlreadyExists,
            Error::InvalidEmail { .. } => ErrorKind::InvalidEmail,
            Error::InvalidName { .. } => ErrorKind::InvalidName,
        }
    }

    /// The kind of this error.
    #[verifier::when_used_as_spec(spec_kind)]
    pub fn kind(&self) -> (k: ErrorKind)
        ensures
            k == self.spec_kind(),
    {
        match self {
            Error::UnAuthorized { .. } => ErrorKind::UnAuthorized,
            Error::NotFound { .. } => ErrorKind::NotFound,
            Error::EmptyFields { .. } => ErrorKind::EmptyFields,
            Error::InvalidAdminId { .. } => ErrorKind::InvalidAdminId,
            Error::NotRoutePassenger { .. } => ErrorKind::NotRoutePassenger,
            Error::AlreadyExists { .. } => ErrorKind::AlreadyExists,
            Error::InvalidEmail { .. } => ErrorKind::InvalidEmail,
            Error::InvalidName { .. } => ErrorKind::InvalidName,
        }
    }

    /// The human-readable message carried by this error.
    pub fn message(&self) -> (m: &String) {
        match self {
            Error::UnAuthorized { msg } => msg,
            Error::NotFound { msg } => msg,
            Error::EmptyFields { msg } => msg,
            Error::InvalidAdminId { msg } => msg,
            Error::NotRoutePassenger { msg } => msg,
            Error::AlreadyExists { msg } => msg,
            Error::InvalidEmail { msg } => msg,
            Error::InvalidName { msg } => msg,
        }
    }

    /// An error of the given kind with the given message.
    pub fn new(kind: ErrorKind, msg: &str) -> (e: Error)
        ensures
            e.spec_kind() == kind,
    {
        let msg = msg.to_string();
        match kind {
            ErrorKind::UnAuthorized => Error::UnAuthorized { msg },
            ErrorKind::NotFound => Error::NotFound { msg },
            ErrorKind::EmptyFields => Error::EmptyFields { msg },
            ErrorKind::InvalidAdminId => Error::InvalidAdminId { msg },
            ErrorKind::NotRoutePassenger => Error::NotRoutePassenger { msg },
            ErrorKind::AlreadyExists => Error::AlreadyExists { msg },
            ErrorKind::InvalidEmail => Error::InvalidEmail { msg },
            ErrorKind::InvalidName => Error::InvalidName { msg },
        }
    }
}

} // verus!
