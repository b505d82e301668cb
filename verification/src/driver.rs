//! The kernel driver that holds a PCI device.

use crate::pci::PciAddress;
use crate::text::{chars_of, same_text};
use vstd::prelude::*;
use vstd::string::StringExecFns;

verus! {

/// The driver bound to a PCI device, as the name of its driver link tells.
#[derive(Clone, Debug, PartialEq, Eq)]
pub enum DriverBinding {
    /// No driver holds the device.
    Unbound,
    /// The proprietary NVIDIA driver.
    Nvidia,
    /// The open-source nouveau driver.
    Nouveau,
    /// The passthrough driver: the device is ready to be handed to a guest.
    VfioPci,
    /// Any other driver, by name.
    Other(String),
}

impl DriverBinding {
    /// This binding is the one that the driver link name `name` stands for:
    /// `Unbound` for an absent link, a variant of its own for each of
    /// `nvidia`, `nouveau` and `vfio-pci`, and `Other` with the name for
    /// every other name.
    pub open spec fn is_binding_of(self, name: Option<Seq<char>>) -> bool {
        match name {
            None => self is Unbound,
            Some(n) => if n == "nvidia"@ {
                self is Nvidia
            } else if n == "nouveau"@ {
                self is Nouveau
            } else if n == "vfio-pci"@ {
                self is VfioPci
            } else {
                self matches DriverBinding::Other(s) && s@ == n
            },
        }
    }

    /// The name of the driver, where one is bound.
    pub open spec fn driver_name(self) -> Option<Seq<char>> {
        match self {
            DriverBinding::Unbound => None,
            DriverBinding::Nvidia => Some("nvidia"@),
            DriverBinding::Nouveau => Some("nouveau"@),
            DriverBinding::VfioPci => Some("vfio-pci"@),
            DriverBinding::Other(s) => Some(s@),
        }
    }

    /// The binding that a driver link stands for, given the name of the
    /// link's target, or `None` where the device has no such link.
    pub fn from_link_name(name: Option<&str>) -> (binding: DriverBinding)
        ensures
            binding.is_binding_of(
                match name {
                    Some(n) => Some(n@),
                    None => None,
                },
            ),
    {
        match name {
            None => DriverBinding::Unbound,
            Some(n) => {
                let chars = chars_of(n);
                let nvidia = chars_of("nvidia");
                let nouveau = chars_of("nouveau");
                let vfio = chars_of("vfio-pci");
                if same_text(chars.as_slice(), nvidia.as_slice()) {
                    DriverBinding::Nvidia
                } else if same_text(chars.as_slice(), nouveau.as_slice()) {
                    DriverBinding::Nouveau
                } else if same_text(chars.as_slice(), vfio.as_slice()) {
                    DriverBinding::VfioPci
                } else {
                    DriverBinding::Other(n.to_owned())
                }
            },
        }
    }

    /// The name of the bound driver, or `None` for an unbound device.
    pub fn name(&self) -> (n: Option<&str>)
        ensures
            match n {
                Some(t) => self.driver_name() == Some(t@),
                None => self.driver_name() is None,
            },
    {
        match self {
            DriverBinding::Unbound => None,
            DriverBinding::Nvidia => Some("nvidia"),
            DriverBinding::Nouveau => Some("nouveau"),
            DriverBinding::VfioPci => Some("vfio-pci"),
            DriverBinding::Other(s) => Some(s.as_str()),
        }
    }

    /// Whether the device is held by the passthrough driver already. Under
    /// any other binding, an unbound device included, the binding changes
    /// with the next boot.
    pub fn is_ready(&self) -> (ready: bool)
        ensures
            ready == (*self is VfioPci),
    {
        match self {
            DriverBinding::VfioPci => true,
            _ => false,
        }
    }
}

/// A binding keeps the name that it was made from: the binding of a link
/// name gives that name back, and the binding of no link gives none.
pub proof fn lemma_binding_keeps_name(binding: DriverBinding, name: Option<Seq<char>>)
    requires
        binding.is_binding_of(name),
    ensures
        binding.driver_name() == name,
{
}

/// The path of the link that names the driver of a PCI function.
pub open spec fn driver_link(address: PciAddress) -> Seq<char> {
    "/sys/bus/pci/devices/"@ + address.canonical_form() + "/driver"@
}

/// The path of the link that names the driver of a PCI function. The link is
/// to be read anew whenever the binding is asked for: it changes with a
/// reboot, and with every rebinding.
pub fn driver_link_path(address: PciAddress) -> (path: String)
    ensures
        path@ == driver_link(address),
{
    let mut path = String::from_str("/sys/bus/pci/devices/");
    let canonical = address.to_canonical_string();
    path.append(canonical.as_str());
    path.append("/driver");
    path
}

} // verus!
