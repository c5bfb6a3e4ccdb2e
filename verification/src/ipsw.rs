//! The restore-image discovery command.

use vstd::prelude::*;

verus! {

/// The `ipsw` command: prints the URL of the latest restore image the
/// engine supports. The lookup is engine work and lives with the driver;
/// the command itself holds no state.
pub struct Ipsw;

} // verus!
