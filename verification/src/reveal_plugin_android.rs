//! The decisions made around the Android companion plugin: whether a
//! permission answer grants access to images, and whether a reported MIME
//! subtype is a supported image type.  The plugin calls themselves are
//! platform RPC and stay outside this library; these functions judge the
//! plain response values they produce.

use vstd::prelude::*;

use crate::image_loading::is_supported_extension;
use crate::image_loading::extension_in_list;

verus! {

/// The plugin's code for a granted permission.
pub const PERMISSION_GRANTED: isize = 0;

/// The plugin's code for a denied permission.
pub const PERMISSION_DENIED: isize = -1;

/// The answer of a permission check: the platform's response code, if one
/// came back.
#[derive(Debug, Clone)]
pub struct PermissionResponse {
    pub value: Option<isize>,
}

impl Default for PermissionResponse {
    fn default() -> (r: Self)
        ensures
            r.value is None,
    {
        PermissionResponse { value: None }
    }
}

/// A MIME request or its answer: the value is a content URL on the way out
/// and a MIME subtype on the way back, if one was found.
#[derive(Debug, Clone)]
pub struct MimeRequestResponse {
    pub value: Option<String>,
}

impl Default for MimeRequestResponse {
    fn default() -> (r: Self)
        ensures
            r.value is None,
    {
        MimeRequestResponse { value: None }
    }
}

/// Whether a permission check came back as granted: only a successful
/// response carrying exactly the granted code counts; a missing code, any
/// other code, or a failed call all deny.
pub fn permission_granted(response: &Result<PermissionResponse, String>) -> (r: bool)
    ensures
        r == (response matches Ok(p) && p.value == Some(PERMISSION_GRANTED)),
{
    match response {
        Ok(p) => match p.value {
            Some(code) => code == PERMISSION_GRANTED,
            None => false,
        },
        Err(_) => false,
    }
}

/// Whether a MIME answer names a supported image type: only a successful
/// response carrying a subtype from the supported list counts, compared
/// exactly as reported.
pub fn mime_type_supported(response: &Result<MimeRequestResponse, String>) -> (r: bool)
    ensures
        r == (response matches Ok(m) && m.value matches Some(s) && is_supported_extension(s@)),
{
    match response {
        Ok(m) => match &m.value {
            Some(subtype) => extension_in_list(subtype),
            None => false,
        },
        Err(_) => false,
    }
}

} // verus!
