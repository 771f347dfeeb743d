//! The home menu's extended-data files: checking, decoding and encoding the
//! save table, the cache index and the icon atlas, finding the titles that
//! have an icon file waiting, and listing them with their cached names.

#![allow(unused_imports)]

pub mod abort;
pub mod endian;
pub mod extdata;
pub mod home_menu;
pub mod icon_files;
pub mod layout;
pub mod listing;
pub mod text;
pub mod titles;
pub mod validate;
