//! Codes that a mounted file system answers with.

use vstd::prelude::*;

verus! {

/// An error code; the number behind it is the platform's.
#[derive(Debug, Clone, Copy, PartialEq, Eq, Structural)]
pub enum Errno {
    Enoent,
    Eio,
    Ebadf,
    Einval,
    Eisdir,
    Eexist,
    Eagain,
    Eperm,
    Enosys,
    Erange,
    /// There is no such extended attribute.
    NoAttr,
}

/// How a request to the file system behind the mount failed.
#[derive(Debug, Clone, Copy, PartialEq, Eq, Structural)]
pub enum NdnError {
    NotFound,
    NotReady,
    AlreadyExists,
    InvalidParam,
    InvalidState,
    PermissionDenied,
    Unsupported,
    IoError,
    DbError,
    OffsetTooLarge,
    InvalidObjType,
    InvalidData,
    Internal,
    InvalidId,
    InvalidLink,
    VerifyError,
    InComplete,
    RemoteError,
    DecodeError,
}

/// The code of each failure: what the caller did wrong is `Einval`, what broke
/// is `Eio`.
pub open spec fn code_of(err: NdnError) -> Errno {
    match err {
        NdnError::NotFound => Errno::Enoent,
        NdnError::NotReady => Errno::Eagain,
        NdnError::AlreadyExists => Errno::Eexist,
        NdnError::PermissionDenied => Errno::Eperm,
        NdnError::Unsupported => Errno::Enosys,
        NdnError::InvalidParam
        | NdnError::OffsetTooLarge
        | NdnError::InvalidObjType
        | NdnError::InvalidData
        | NdnError::InvalidId
        | NdnError::InvalidLink => Errno::Einval,
        NdnError::InvalidState
        | NdnError::IoError
        | NdnError::DbError
        | NdnError::Internal
        | NdnError::VerifyError
        | NdnError::InComplete
        | NdnError::RemoteError
        | NdnError::DecodeError => Errno::Eio,
    }
}

pub fn map_ndn_err(err: NdnError) -> (r: Errno)
    ensures
        r == code_of(err),
{
    match err {
        NdnError::NotFound => Errno::Enoent,
        NdnError::NotReady => Errno::Eagain,
        NdnError::AlreadyExists => Errno::Eexist,
        NdnError::InvalidParam => Errno::Einval,
        NdnError::InvalidState => Errno::Eio,
        NdnError::PermissionDenied => Errno::Eperm,
        NdnError::Unsupported => Errno::Enosys,
        NdnError::IoError => Errno::Eio,
        NdnError::DbError => Errno::Eio,
        NdnError::OffsetTooLarge => Errno::Einval,
        NdnError::InvalidObjType => Errno::Einval,
        NdnError::InvalidData => Errno::Einval,
        NdnError::Internal => Errno::Eio,
        NdnError::InvalidId => Errno::Einval,
        NdnError::InvalidLink => Errno::Einval,
        NdnError::VerifyError => Errno::Eio,
        NdnError::InComplete => Errno::Eio,
        NdnError::RemoteError => Errno::Eio,
        NdnError::DecodeError => Errno::Eio,
    }
}

} // verus!
