//! The identifiers of the items of the tray menu.

use vstd::prelude::*;

verus! {

pub const SHOW: &'static str = "show";

pub const TERMINAL: &'static str = "terminal";

pub const CONFIG: &'static str = "config";

pub const HELP: &'static str = "help";

pub const QUIT: &'static str = "quit";

} // verus!
