//! Boot handoff core of a firmware-stage loader: deriving the device path of a
//! sibling file on the boot volume, and turning an optional configuration file
//! into the UTF-16 command line handed to the next image.

pub mod command_line;
pub mod device_path;
pub mod handoff;
