//! Performance-test toolkit: parsing of nmon capture files into aligned
//! metric tables, resolution of remote hosts from an inventory, and the
//! pure decisions behind the remote operations fanned out to those hosts.

pub mod text;
pub mod timestamp;
pub mod capture;
pub mod inventory;
pub mod options;
pub mod report;
pub mod remote;
pub mod meter;
pub mod script;

