//! Device discovery rules of a LAN scanner: neighbor-table parsing, device
//! identity classification, ordering and layering of scan results.
use vstd::prelude::*;

pub mod text;
pub mod ipv4;
pub mod order;
pub mod vendor;
pub mod identity;
pub mod scanner;
pub mod neighbor;
pub mod labels;
pub mod session;
pub mod device_list;
pub mod notice;
pub mod dropdown;
pub mod networks;
pub mod connect;

verus! {

} // verus!
