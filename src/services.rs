//! The services whose work is on files, tags, processes or a database. The
//! library holds their handles; the work itself runs around it.
use vstd::prelude::*;

verus! {

/// Reads and writes tags.
pub struct AudioService;

impl AudioService {
    pub fn new() -> (r: Self) {
        AudioService
    }
}

/// Renames track files, picks the cover image and removes junk.
pub struct CleanerService;

impl CleanerService {
    pub fn new() -> (r: Self) {
        CleanerService
    }
}

/// Converts audio files with an external converter.
pub struct ConverterService;

impl ConverterService {
    pub fn new() -> (r: Self) {
        ConverterService
    }
}

/// Lists, reads and writes playlist files.
pub struct PlaylistService;

impl PlaylistService {
    pub fn new() -> (r: Self) {
        PlaylistService
    }
}

/// Walks a folder tree and groups audio files into albums.
pub struct ScannerService;

impl ScannerService {
    pub fn new() -> (r: Self) {
        ScannerService
    }
}

/// Stores the case exceptions.
pub struct ExceptionService;

/// Renames files and folders.
pub struct IOService;

} // verus!
