//! The clipboard where there is none to reach.

use vstd::prelude::*;

use crate::proto::wire::RemoteErrorKind;
use crate::runner_core::{is_error, os_error, RemoteResult};

verus! {

/// Reads the clipboard where there is none.
pub fn get() -> (r: RemoteResult<String>)
    ensures
        r matches Err(e) && is_error(
            e,
            RemoteErrorKind::Os,
            "clipboard is only supported on Windows"@,
        ),
{
    Err(os_error("clipboard is only supported on Windows"))
}

/// Writes the clipboard where there is none.
pub fn set(_text: &str) -> (r: RemoteResult<()>)
    ensures
        r matches Err(e) && is_error(
            e,
            RemoteErrorKind::Os,
            "clipboard is only supported on Windows"@,
        ),
{
    Err(os_error("clipboard is only supported on Windows"))
}

} // verus!
