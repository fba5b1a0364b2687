//! The answers that the front end receives, and the targets that its layout
//! commands act on.

use vstd::prelude::*;
use crate::overlay::OverlayState;
use crate::sys::{Reply, Response};

verus! {

/// The uniform answer to a command of the front end.
#[derive(Debug)]
pub struct IpcResponse {
    pub ok: bool,
    pub data: String,
}

impl IpcResponse {
    /// The answer to a command that succeeded.
    pub fn success(data: String) -> (response: Self)
        ensures
            response.ok,
            response.data@ == data@,
    {
        IpcResponse { ok: true, data }
    }

    /// The answer to a command that failed.
    pub fn error(msg: String) -> (response: Self)
        ensures
            !response.ok,
            response.data@ == msg@,
    {
        IpcResponse { ok: false, data: msg }
    }
}

impl Clone for IpcResponse {
    fn clone(&self) -> (copy: Self)
        ensures
            copy.ok == self.ok,
            copy.data@ == self.data@,
    {
        IpcResponse { ok: self.ok, data: self.data.clone() }
    }
}

impl PartialEq for IpcResponse {
    fn eq(&self, other: &Self) -> (same: bool) {
        self.ok == other.ok && self.data == other.data
    }
}

impl vstd::std_specs::cmp::PartialEqSpecImpl for IpcResponse {
    open spec fn obeys_eq_spec() -> bool {
        true
    }

    open spec fn eq_spec(&self, other: &Self) -> bool {
        self.ok == other.ok && self.data@ == other.data@
    }
}

/// The pane that a command acts on: the target of the overlay where it has
/// one that is not empty, else `.`, the current pane.
pub open spec fn pane_or_current(target: Option<Seq<char>>) -> Seq<char> {
    match target {
        Some(pane) => if pane.len() > 0 {
            pane
        } else {
            "."@
        },
        None => "."@,
    }
}

/// The target pane of the overlay, or `.` for the current pane.
pub fn target_pane_or_current(overlay: &OverlayState) -> (pane: String)
    ensures
        pane@ == pane_or_current(overlay.target()),
{
    match overlay.get_target_pane() {
        Some(pane) => {
            if pane.as_str().unicode_len() > 0 {
                pane
            } else {
                ".".to_owned()
            }
        },
        None => ".".to_owned(),
    }
}

/// The target of a layout command: the pane of the overlay for `current`,
/// else the session that is named.
pub fn resolve_target(session: &str, overlay: &OverlayState) -> (target: String)
    ensures
        target@ == (if session@ == "current"@ {
            pane_or_current(overlay.target())
        } else {
            session@
        }),
{
    let current = "current".to_owned();
    let asked = session.to_owned();
    if asked == current {
        target_pane_or_current(overlay)
    } else {
        asked
    }
}

/// The answer to the question which pane the overlay is shown for.
pub fn mux_get_target_pane(overlay: &OverlayState) -> (response: IpcResponse)
    ensures
        match overlay.target() {
            Some(pane) => response.ok && response.data@ == pane,
            None => !response.ok && response.data@ == "no target pane set"@,
        },
{
    match overlay.get_target_pane() {
        Some(pane) => IpcResponse::success(pane),
        None => IpcResponse::error("no target pane set".to_owned()),
    }
}

/// The answer for the front end that a reply of the runtime stands for.
pub fn to_ipc(resp: Response) -> (response: IpcResponse)
    ensures
        match resp@ {
            Reply::Success { output } => response.ok && response.data@ == output,
            Reply::Error { message } => !response.ok && response.data@ == message,
        },
{
    match resp {
        Response::Success { output } => IpcResponse::success(output),
        Response::Error { message } => IpcResponse::error(message),
    }
}

} // verus!
