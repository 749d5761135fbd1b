//! Verified core of the Miden VM's LogUp bus algebra and of the MAST forest wire format.

use vstd::prelude::*;

pub mod bus;
pub mod bus_values;
pub mod bytes;
pub mod challenges;
pub mod chiplet_bus;
pub mod field;
pub mod forest;
pub mod info;
pub mod layout;
pub mod logup;
pub mod logup_msg;
pub mod main_bus;
pub mod node;
pub mod resolved;
pub mod roundtrip;
pub mod serialized;
pub mod word_io;

verus! {

} // verus!
