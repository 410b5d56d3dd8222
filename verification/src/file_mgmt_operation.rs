//! The file management API: its default conflict policy and its answer.

use vstd::prelude::*;

verus! {

/// One file operation of the file management API: the file, its target
/// directory and new name where the operation has them, and the conflict
/// policy (by default [`default_ondup`]).
pub struct Operation {
    pub path: String,
    pub dest: Option<String>,
    pub newname: Option<String>,
    pub ondup: String,
}

/// The lists of operations of the file management API.
pub enum Request {
    CopyMove(Vec<Operation>),
    Rename(Vec<Operation>),
    Delete(Vec<String>),
}

/// The errno field of an answer of the file management API.
pub struct ErrNo {
    pub errno: i32,
}

/// The conflict policy of file operations: fail when the target exists.
pub fn default_ondup() -> (r: String)
    ensures
        r@ == "fail"@,
{
    let mut r = String::new();
    r.append("fail");
    r
}

/// What a rename call answered.
#[derive(Debug, PartialEq, Eq, Structural, Clone, Copy)]
pub enum RenameOutcome {
    Success,
    FileNotFound,
    OtherTaskRunning,
    IllegalName,
    BadParameter,
    Unknown,
}

/// The outcome of a rename call answered with the error number `errno`.
pub open spec fn rename_outcome_of(errno: i32) -> RenameOutcome {
    if errno == 0 {
        RenameOutcome::Success
    } else if errno == -9 {
        RenameOutcome::FileNotFound
    } else if errno == 111 {
        RenameOutcome::OtherTaskRunning
    } else if errno == -7 {
        RenameOutcome::IllegalName
    } else if errno == 2 {
        RenameOutcome::BadParameter
    } else {
        RenameOutcome::Unknown
    }
}

impl ErrNo {
    /// The outcome of the rename call that this answered.
    pub fn rename_outcome(&self) -> (r: RenameOutcome)
        ensures
            r == rename_outcome_of(self.errno),
    {
        match self.errno {
            0 => RenameOutcome::Success,
            -9 => RenameOutcome::FileNotFound,
            111 => RenameOutcome::OtherTaskRunning,
            -7 => RenameOutcome::IllegalName,
            2 => RenameOutcome::BadParameter,
            _ => RenameOutcome::Unknown,
        }
    }
}

impl RenameOutcome {
    /// The message shown for the outcome.
    pub fn message(&self) -> (r: String)
        ensures
            r@ == match self {
                RenameOutcome::Success => "success!"@,
                RenameOutcome::FileNotFound => "文件不存在."@,
                RenameOutcome::OtherTaskRunning => "有其他异步任务正在执行"@,
                RenameOutcome::IllegalName => "文件名非法"@,
                RenameOutcome::BadParameter => "参数错误"@,
                RenameOutcome::Unknown => "Unkownn Error Occusr."@,
            },
    {
        let mut r = String::new();
        match self {
            RenameOutcome::Success => r.append("success!"),
            RenameOutcome::FileNotFound => r.append("文件不存在."),
            RenameOutcome::OtherTaskRunning => r.append("有其他异步任务正在执行"),
            RenameOutcome::IllegalName => r.append("文件名非法"),
            RenameOutcome::BadParameter => r.append("参数错误"),
            RenameOutcome::Unknown => r.append("Unkownn Error Occusr."),
        }
        r
    }
}

} // verus!
