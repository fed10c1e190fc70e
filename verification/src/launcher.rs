//! Building the launch URL for a validated port. The caller hands the
//! returned URL to whatever opens it — a browser process or an embedded
//! webview — and wraps any failure of that step as `LaunchFailed`.

use vstd::prelude::*;

use crate::validator::format_url;
use crate::validator::url_for_port_spec;

verus! {

/// Why a launch was refused or failed.
#[derive(Clone, Debug)]
pub enum LaunchError {
    /// Port zero can never be addressed.
    InvalidPort,
    /// The URL was built but the delegate that opens it reported the
    /// carried message.
    LaunchFailed(String),
}

/// The URL to open for `port`, or `InvalidPort` for the one port value
/// that can never be addressed.
pub fn launch(port: u16) -> (r: Result<String, LaunchError>)
    ensures
        port == 0 ==> (r matches Err(e) && e is InvalidPort),
        port != 0 ==> (r matches Ok(url) && url@ == url_for_port_spec(port, false)),
{
    if port == 0 {
        Err(LaunchError::InvalidPort)
    } else {
        Ok(format_url(port, false))
    }
}

/// The `https` form of [`launch`], under the identical contract but for
/// the scheme.
pub fn launch_https(port: u16) -> (r: Result<String, LaunchError>)
    ensures
        port == 0 ==> (r matches Err(e) && e is InvalidPort),
        port != 0 ==> (r matches Ok(url) && url@ == url_for_port_spec(port, true)),
{
    if port == 0 {
        Err(LaunchError::InvalidPort)
    } else {
        Ok(format_url(port, true))
    }
}

/// Apply [`launch`] to each port independently: one result per port, in
/// order, and no failure aborts the rest.
pub fn launch_all(ports: &Vec<u16>) -> (r: Vec<Result<String, LaunchError>>)
    ensures
        r@.len() == ports@.len(),
        forall|i: int|
            0 <= i < ports@.len() ==> match #[trigger] r@[i] {
                Ok(url) => ports@[i] != 0 && url@ == url_for_port_spec(ports@[i], false),
                Err(e) => ports@[i] == 0 && e is InvalidPort,
            },
{
    let mut r: Vec<Result<String, LaunchError>> = Vec::new();
    let mut i: usize = 0;
    while i < ports.len()
        invariant
            i <= ports.len(),
            r@.len() == i,
            forall|k: int|
                0 <= k < i ==> match #[trigger] r@[k] {
                    Ok(url) => ports@[k] != 0 && url@ == url_for_port_spec(ports@[k], false),
                    Err(e) => ports@[k] == 0 && e is InvalidPort,
                },
        decreases ports.len() - i,
    {
        r.push(launch(ports[i]));
        i += 1;
    }
    r
}

} // verus!
