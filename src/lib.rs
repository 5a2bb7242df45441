//! Builds a CANopen object dictionary from an EDS (INI-style) description and
//! checks SDO upload/download requests against it.

pub mod numeric;
pub mod ini_doc;
pub mod eds_parser;
pub mod sdo_handler;
pub mod input;
