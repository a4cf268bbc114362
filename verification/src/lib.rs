use vstd::prelude::*;

pub mod block;
pub mod bytes;
pub mod palette;
pub mod text;
pub mod rtc;
pub mod audio_player;
pub mod config;
pub mod keyboard;
pub mod mouse;
pub mod touchpad;
pub mod pci;
pub mod battery;
pub mod console;
pub mod ui;
pub mod mesa_fs;
pub mod html;
pub mod bios_analyzer;
pub mod cursor;
pub mod xhci;
pub mod usb;
pub mod nvram;
pub mod acpi;
pub mod ata;
pub mod arch;
pub mod elf;
pub mod nvme;
pub mod xhci_port;
pub mod gpt;
pub mod hda;
pub mod rtl8139;
pub mod paging;
pub mod msc;
pub mod speaker;
pub mod virtio_net;
pub mod i2c;
pub mod rndis;
pub mod net;
pub mod usb_enum;
pub mod usb_status;

verus! {
} // verus!
