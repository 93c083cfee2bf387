//! Shared path policy. A path is the sequence of its bytes.

use vstd::prelude::*;
#[allow(unused_imports)]
use vstd::string::{StrSliceExecFns, StringExecFns};

verus! {

/// Why something could not be done with a file, each with the error's text.
#[derive(Debug, PartialEq, Eq)]
pub enum FileFailure {
    /// A file of that name is there already.
    Exists(String),
    /// No file of that name is there.
    Missing(String),
    /// Anything else went wrong.
    Other(String),
}

impl FileFailure {
    /// The text of the error.
    pub open spec fn text(self) -> String {
        match self {
            FileFailure::Exists(error) => error,
            FileFailure::Missing(error) => error,
            FileFailure::Other(error) => error,
        }
    }

    /// Gives up the text of the error.
    pub fn into_text(self) -> (error: String)
        ensures
            error == self.text(),
    {
        match self {
            FileFailure::Exists(error) => error,
            FileFailure::Missing(error) => error,
            FileFailure::Other(error) => error,
        }
    }
}

/// Whether a path starts at the root.
pub open spec fn absolute(path: Seq<u8>) -> bool {
    path.len() > 0 && path[0] == 47
}

/// A path continued by a relative one, with a slash between them where one is needed.
///
/// An absolute continuation replaces the path.
pub open spec fn joined(base: Seq<u8>, child: Seq<u8>) -> Seq<u8> {
    if absolute(child) {
        child
    } else if base.len() > 0 && base.last() != 47 {
        base.push(47) + child
    } else {
        base + child
    }
}

/// Accepts an absolute path and rejects process-relative filesystem state.
pub fn absolute_path(path: Vec<u8>, name: &str) -> (accepted: Result<Vec<u8>, String>)
    ensures
        match accepted {
            Ok(accepted) => absolute(path@) && accepted == path,
            Err(error) => !absolute(path@) && error@ == name@ + " must be an absolute path"@,
        },
{
    if path.len() > 0 && path[0] == 47 {
        Ok(path)
    } else {
        let mut message = name.to_owned();
        message.append(" must be an absolute path");
        Err(message)
    }
}

/// Copies bytes.
pub fn clone_bytes(bytes: &Vec<u8>) -> (copy: Vec<u8>)
    ensures
        copy@ == bytes@,
{
    let mut copy: Vec<u8> = Vec::new();
    append_bytes(&mut copy, bytes);
    copy
}

fn append_bytes(bytes: &mut Vec<u8>, more: &Vec<u8>)
    ensures
        final(bytes)@ == old(bytes)@ + more@,
{
    let ghost before = bytes@;
    let mut index: usize = 0;
    while index < more.len()
        invariant
            index <= more@.len(),
            bytes@ == before + more@.take(index as int),
        decreases more@.len() - index,
    {
        bytes.push(more[index]);
        assert(more@.take(index + 1) == more@.take(index as int).push(more@[index as int]));
        index = index + 1;
    }
    assert(more@.take(index as int) == more@);
}

/// Continues a path.
pub fn join_path(base: &Vec<u8>, child: &str) -> (path: Vec<u8>)
    ensures
        path@ == joined(base@, vstd::utf8::encode_utf8(child@)),
{
    let continuation = child.as_bytes_vec();
    if continuation.len() > 0 && continuation[0] == 47 {
        return continuation;
    }
    let mut path = clone_bytes(base);
    if path.len() > 0 && path[path.len() - 1] != 47 {
        path.push(47);
    }
    append_bytes(&mut path, &continuation);
    path
}

/// Different relative names under one directory are different paths.
pub proof fn names_stay_apart(base: Seq<u8>, first: Seq<u8>, second: Seq<u8>)
    requires
        !absolute(first),
        !absolute(second),
        first != second,
    ensures
        joined(base, first) != joined(base, second),
{
    let stem = if base.len() > 0 && base.last() != 47 {
        base.push(47)
    } else {
        base
    };
    if stem + first == stem + second {
        assert(first == (stem + first).skip(stem.len() as int));
        assert(second == (stem + second).skip(stem.len() as int));
    }
}

} // verus!
