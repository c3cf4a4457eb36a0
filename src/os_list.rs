//! The catalog of installable images, as plain data.

use vstd::prelude::*;

verus! {

/// The whole catalog document.
#[derive(Debug)]
pub struct OsList {
    pub imager: ImagerInfo,
    pub os_list: Vec<OsListItem>,
}

/// The catalog's header: the imager release and the known boards.
#[derive(Debug, Clone)]
pub struct ImagerInfo {
    pub latest_version: String,
    pub url: String,
    pub devices: Vec<Device>,
}

/// A board, with the tags that images declare compatibility by.
#[derive(Debug, Clone)]
pub struct Device {
    pub name: String,
    pub tags: Vec<String>,
    pub icon: Option<String>,
    pub description: String,
    pub matching_type: Option<String>,
    pub capabilities: Vec<String>,
    pub default: bool,
}

/// An entry of the catalog: an image, or a category holding sub-entries.
#[derive(Debug)]
pub struct OsListItem {
    pub name: String,
    pub description: String,
    pub icon: Option<String>,
    pub random: bool,
    pub subitems: Vec<OsListItem>,
    pub url: Option<String>,
    pub extract_size: Option<u64>,
    pub extract_sha256: Option<String>,
    pub image_download_size: Option<u64>,
    pub image_download_sha256: Option<String>,
    pub release_date: Option<String>,
    pub init_format: Option<String>,
    pub devices: Vec<String>,
    pub capabilities: Vec<String>,
    pub website: Option<String>,
    pub tooltip: Option<String>,
    pub architecture: Option<String>,
    pub enable_rpi_connect: bool,
}

} // verus!
