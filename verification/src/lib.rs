//! FlashKraft: verified core logic of an OS-image writer.
pub mod text;
pub mod flash_writer;
pub mod external;
pub mod drive_detection;
pub mod status_views;
pub mod flash_helper;
pub mod hotplug;
pub mod keys;
pub mod file_explorer;
pub mod tui;
pub mod flash_runner;
pub mod usb_contents;
pub mod theme;
pub mod gui;
pub mod dd_script;
pub mod screens;
pub mod block_devices;
