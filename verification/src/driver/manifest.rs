//! Manifests: the user's declaration of what to keep in the store.
pub mod branch;
pub mod leaf;
pub mod spec;

use vstd::prelude::*;

verus! {

/// A file system operation on manifest state that failed.
#[derive(Debug, Clone)]
pub enum FsOp {
    CreateDir,
    CreateFile,
    OpenFile,
    Remove,
    RenameFile(String),
}

/// The description of a failed operation.
pub open spec fn spec_fs_op_text(op: FsOp) -> Seq<char> {
    match op {
        FsOp::CreateDir => "create directory"@,
        FsOp::CreateFile => "create file"@,
        FsOp::OpenFile => "open file"@,
        FsOp::Remove => "remove file"@,
        FsOp::RenameFile(p) => "rename to "@ + p@ + " from"@,
    }
}

impl FsOp {
    /// The description of the operation (its display text).
    pub fn describe(&self) -> (r: String)
        ensures
            r@ == spec_fs_op_text(*self),
    {
        match self {
            FsOp::CreateDir => String::from_str("create directory"),
            FsOp::CreateFile => String::from_str("create file"),
            FsOp::OpenFile => String::from_str("open file"),
            FsOp::Remove => String::from_str("remove file"),
            FsOp::RenameFile(p) => {
                let mut s = String::from_str("rename to ");
                s.append(p.as_str());
                s.append(" from");
                s
            },
        }
    }
}

} // verus!
