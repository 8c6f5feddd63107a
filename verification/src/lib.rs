//! Post-link helper for Intel X710 (i40e/iavf) adapters with SR-IOV.
//!
//! The helper runs once for a physical function (PF), after its link and its virtual functions (VFs)
//! have come up. It reads the `I40E_*` properties of the link, brings them together with the
//! environment and the command line, and sets the PF and the VFs up with `ethtool` and `ip`.
//!
//! This library decides all of that and touches nothing: an [`app::App`] is told what the host
//! answers, and says what is to be done and what it has to know next.

pub mod address_laws;
pub mod app;
pub mod cli;
pub mod cli_laws;
pub mod command;
pub mod device_laws;
pub mod dry_laws;
pub mod ethtool;
pub mod ethtool_laws;
pub mod host_laws;
pub mod laws;
pub mod mac;
pub mod model;
pub mod number;
pub mod number_laws;
pub mod property_laws;
pub mod props;
pub mod setting_laws;
pub mod text;
pub mod text_laws;
pub mod vf;
pub mod whole_run;
