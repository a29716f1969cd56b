//! Block, PCI and VirtIO driver logic for an ArceOS-style driver stack, with
//! contracts checked by Verus.
//!
//! - [`dev`]: the device types and errors shared by all drivers.
//! - [`ramdisk`]: a RAM disk block device.
//! - [`ahci`]: the status logic of the AHCI block driver.
//! - [`pci`]: PCI configuration-space addressing and BAR range allocation.
//! - [`virtio`]: classification of VirtIO devices and errors.
pub mod ahci;
pub mod dev;
pub mod pci;
pub mod ramdisk;
pub mod virtio;
