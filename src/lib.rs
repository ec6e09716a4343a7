//! Boot-source discovery for a minimal init: block device classification
//! from sysfs, device node resolution, per-device mount and scan state
//! machines, and boot entry selection by device type preference.
pub mod text;
pub mod sysfs;
pub mod classify;
pub mod devnode;
pub mod events;
pub mod bootloader;
