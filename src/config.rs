//! The listing's configuration, resolved once before any rendering.

use vstd::prelude::*;

verus! {

/// Stores the flags and options set by command line arguments.
#[derive(Debug, Clone)]
pub struct Flags {
    /// Paths to list, in the order given
    pub files: Vec<String>,
    /// Go through subdirectories recursively
    pub recursive: bool,
    /// Display files and directories beginning with '.'
    pub all: bool,
    /// Display all information about a given file
    pub long: bool,
    /// Display one file per line
    pub one_per_line: bool,
    /// Show only directories
    pub only_dirs: bool,
    /// Binary file sizes
    pub binary_sizes: bool,
    /// Byte file sizes
    pub byte_sizes: bool,
    /// Shows headers to columns in long display
    pub headers: bool,
    /// Display number of links
    pub show_links: bool,
    /// Show inode
    pub inode: bool,
    /// Show number of blocks
    pub blocks: bool,
    /// Don't show the permissions
    pub no_perms: bool,
    /// Don't show the filesize
    pub no_size: bool,
    /// Don't show the user
    pub no_user: bool,
    /// Don't show the time stamp
    pub no_time: bool,
    /// Show octal permission data
    pub octal_perms: bool,
}

/// The mode to run the listing in.
#[derive(Debug, Clone, Copy, PartialEq, Eq, Structural)]
pub enum Mode {
    /// Default mode, lists the files in the specified directory
    List,
    /// Displays the help
    Help,
    /// Displays the version
    Version,
}

/// Why a listing stopped.
#[derive(Debug, Clone, PartialEq, Eq)]
pub enum ListError {
    /// A requested path does not exist
    PathNotFound(String),
    /// A path is neither a file nor a directory
    UnclassifiablePath(String),
    /// The metadata of a path could not be read
    MetadataUnavailable(String),
    /// A modification time that cannot be placed on the calendar
    TimestampOutOfRange(i64),
}

/// What the filesystem reports of one entry.
#[derive(Debug, Clone, Copy, PartialEq, Eq, Structural)]
pub struct EntryMeta {
    /// Size in bytes
    pub size: u64,
    /// Whether the path is a directory
    pub is_dir: bool,
    /// Whether the path is a regular file
    pub is_file: bool,
    /// Mode bits
    pub mode: u32,
    /// Owner's user id
    pub uid: u32,
    /// Modification time, seconds since the epoch
    pub mtime: i64,
    /// Inode number
    pub ino: u64,
    /// Hard-link count
    pub nlink: u64,
    /// Allocated blocks
    pub blocks: u64,
}

} // verus!
