//! Hardware topology resolution and launch planning for a GPU-passthrough
//! virtual machine tuned for VR.
//!
//! The crate parses host enumeration text into typed hardware records,
//! evaluates host readiness, and compiles an ordered launch plan. It performs
//! no I/O: callers hand it the text they collected and act on what it returns.
//!
//! - [`pci`] and [`topology`]: PCI addresses, and the GPU with its audio
//!   function as a PCI enumeration describes them.
//! - [`headset`]: the headset signature table and the matching of USB
//!   enumeration lines against it.
//! - [`driver`] and [`readiness`]: the driver that holds the GPU, and the
//!   preconditions of passthrough with their remedies.
//! - [`plan`]: the guest's profile and the ordered launch plan.
//! - [`invocation`]: the hypervisor arguments that a plan stands for.
//! - [`provision`]: what one-time provisioning of the host is told.
//! - [`manager`]: the state that one run carries from detection to launch.
//! - [`text`]: the character-sequence primitives underneath.
//!
//! Every executable function is verified against a contract stated over
//! character sequences and the views of the crate's types; the laws that
//! relate them are proof functions beside the functions they speak of.

pub mod driver;
pub mod headset;
pub mod invocation;
pub mod manager;
pub mod pci;
pub mod plan;
pub mod provision;
pub mod readiness;
pub mod text;
pub mod topology;
