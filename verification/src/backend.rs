use vstd::prelude::*;

use crate::config::BrowserSettings;
use crate::errs::IoError;
use crate::process::{RawProcOutput, SpawnOptions};

verus! {

/// What the filesystem reports about one entry.
#[derive(Clone, Copy, Debug)]
pub struct RawMeta {
    pub is_file: bool,
    pub is_dir: bool,
    pub is_symlink: bool,
    pub size_bytes: u64,
    pub modified_ms: Option<u64>,
    pub readonly: bool,
}

/// One entry of a directory listing, as the filesystem reports it.
#[derive(Clone, Debug)]
pub struct RawDirEntry {
    pub name: String,
    pub meta: RawMeta,
}

/// How a file is to be opened.
#[derive(Clone, Copy, Debug)]
pub struct FileOpenOptions {
    pub read: bool,
    pub write: bool,
    pub append: bool,
    pub create: bool,
    pub truncate: bool,
}

/// What a live page looks like to the browser backend.
#[derive(Clone, Debug)]
pub struct PageInfo {
    pub url: String,
    pub title: Option<String>,
    pub html: Option<String>,
}

/// How an element is selected on a page.
#[derive(Clone, Copy, Debug, PartialEq, Eq, Structural)]
pub enum SelectorKind {
    Css,
    XPath,
    Text,
}

/// The operating-system side of every capability: real disk, process and
/// browser effects, implemented outside the verified library. The providers
/// validate every request before it reaches a backend and are verified for
/// every value a backend can hand back, so nothing here carries a contract.
pub trait HostBackend {
    fn path_metadata(&mut self, path: &str) -> Result<RawMeta, IoError>;

    fn create_dir_all(&mut self, path: &str) -> Result<(), IoError>;

    fn remove_dir(&mut self, path: &str, recursive: bool) -> Result<(), IoError>;

    fn remove_file(&mut self, path: &str) -> Result<(), IoError>;

    fn rename(&mut self, from: &str, to: &str) -> Result<(), IoError>;

    fn read_dir(&mut self, path: &str) -> Result<Vec<RawDirEntry>, IoError>;

    fn open_file(&mut self, path: &str, options: &FileOpenOptions) -> Result<u64, IoError>;

    fn file_read(&mut self, fd: u64, max_bytes: u64) -> Result<Vec<u8>, IoError>;

    fn file_write(&mut self, fd: u64, data: &Vec<u8>) -> Result<u64, IoError>;

    fn file_set_len(&mut self, fd: u64, new_len: u64) -> Result<(), IoError>;

    fn file_flush(&mut self, fd: u64) -> Result<(), IoError>;

    fn file_close(&mut self, fd: u64);

    fn spawn(&mut self, command: &str, options: &SpawnOptions, cwd: &str) -> Result<
        RawProcOutput,
        IoError,
    >;

    fn browser_open_session(
        &mut self,
        settings: &BrowserSettings,
        alias: &str,
        headless: bool,
        profile: &Option<String>,
        allow_downloads: bool,
    ) -> Result<(), String>;

    fn browser_goto(&mut self, alias: &str, url: &str, timeout_ms: u64) -> Result<String, String>;

    fn browser_describe(&mut self, alias: &str, include_html: bool) -> Result<PageInfo, String>;

    fn browser_find(
        &mut self,
        session: &str,
        kind: SelectorKind,
        query: &str,
        timeout_ms: u64,
        element: &str,
    ) -> Result<(), String>;

    fn browser_click(&mut self, element: &str) -> Result<(), String>;

    fn browser_type_text(&mut self, element: &str, text: &str, submit: bool) -> Result<
        (),
        String,
    >;

    fn browser_inner_text(&mut self, element: &str) -> Result<String, String>;

    fn browser_screenshot(&mut self, session: &str) -> Result<Vec<u8>, String>;

    fn browser_close_all(&mut self);
}

} // verus!
