//! Batch renaming of the files in a Baidu Netdisk directory: the rules that
//! turn file listings into new names and rename requests, the reading of the
//! stored credentials, and the decisions of the login and menu dialogues.

pub mod text;
pub mod file_mgmt_operation;
pub mod file_rename;
pub mod init;
pub mod session;
