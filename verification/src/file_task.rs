//! One file of a run: from the bytes that were read to what is to be
//! written, and where.

use vstd::prelude::*;
use vstd::string::*;
use vstd::utf8::{decode_utf8, valid_utf8};

use crate::automaton::replaced;
use crate::matcher::Matcher;
use crate::semantics::{all_nonempty, substitute};

verus! {

/// Why a file was not transformed. Each failure concerns its own file only.
#[derive(Debug, Clone, Copy, PartialEq, Eq, Structural)]
pub enum FileError {
    /// The source could not be opened.
    Open,
    /// The size of the source could not be determined.
    Metadata,
    /// The size of the source does not fit into memory.
    Size,
    /// Reading the source failed.
    Read,
    /// The source is not valid text.
    Decode,
    /// The destination has no parent directory.
    NoParent,
    /// The parent directories of the destination could not be created.
    DirectoryCreate,
    /// The destination could not be created.
    Create,
    /// Writing the destination failed.
    Write,
    /// The destination could not be flushed.
    Flush,
}

impl FileError {
    /// The words in which the failure is reported.
    pub open spec fn text(self) -> Seq<char> {
        match self {
            FileError::Open => "open error"@,
            FileError::Metadata => "metadata error"@,
            FileError::Size => "size error"@,
            FileError::Read => "read error"@,
            FileError::Decode => "decode error"@,
            FileError::NoParent => "could not find parent error"@,
            FileError::DirectoryCreate => "could not create parent directories error"@,
            FileError::Create => "create error"@,
            FileError::Write => "write error"@,
            FileError::Flush => "flush error"@,
        }
    }

    /// The words in which the failure is reported.
    pub fn message(&self) -> (m: &'static str)
        ensures
            m@ == self.text(),
    {
        match self {
            FileError::Open => "open error",
            FileError::Metadata => "metadata error",
            FileError::Size => "size error",
            FileError::Read => "read error",
            FileError::Decode => "decode error",
            FileError::NoParent => "could not find parent error",
            FileError::DirectoryCreate => "could not create parent directories error",
            FileError::Create => "create error",
            FileError::Write => "write error",
            FileError::Flush => "flush error",
        }
    }
}

/// What a file task writes: the destination, as the bytes of its path, and
/// the substituted text.
#[derive(Debug)]
pub struct FileOutput {
    pub path: Vec<u8>,
    pub contents: String,
}

/// The byte that separates the components of a path.
pub open spec fn is_path_separator(byte: u8) -> bool {
    byte == 0x2f
}

/// The number of separators with which `path` begins.
pub open spec fn leading_separators(path: Seq<u8>) -> nat
    decreases path.len(),
{
    if path.len() > 0 && is_path_separator(path[0]) {
        1 + leading_separators(path.drop_first())
    } else {
        0
    }
}

/// The destination of the source `path` under the root `destination`: the
/// root, a separator unless the root is empty or ends in one, and the path
/// without the separators that it begins with. An absolute source is so
/// mirrored below the root like a relative one. Paths are taken as the bytes
/// that the system holds, whether they are text or not.
pub open spec fn mirrored(destination: Seq<u8>, path: Seq<u8>) -> Seq<u8> {
    let rest = path.skip(leading_separators(path) as int);
    if destination.len() == 0 || is_path_separator(destination.last()) {
        destination + rest
    } else {
        destination + seq![0x2fu8] + rest
    }
}

/// `String::from_utf8`: the text that `bytes` encode, if they are valid
/// UTF-8, and nothing if they are not.
#[verifier::external_body]
fn text_from_utf8(bytes: Vec<u8>) -> (text: Option<String>)
    ensures
        text is Some <==> valid_utf8(bytes@),
        text matches Some(s) ==> s@ == decode_utf8(bytes@),
{
    match String::from_utf8(bytes) {
        Ok(text) => Some(text),
        Err(_) => None,
    }
}

/// Counting from the start of `path`, a run of `count` separators is
/// followed by something else or by the end.
proof fn lemma_leading_separators(path: Seq<u8>, count: int)
    requires
        0 <= count <= path.len(),
        forall|j: int| 0 <= j < count ==> is_path_separator(#[trigger] path[j]),
        count < path.len() ==> !is_path_separator(path[count]),
    ensures
        leading_separators(path) == count,
    decreases count,
{
    if count > 0 {
        let rest = path.drop_first();
        assert forall|j: int| 0 <= j < count - 1 implies is_path_separator(#[trigger] rest[j]) by {
            assert(rest[j] == path[j + 1]);
        }
        lemma_leading_separators(rest, count - 1);
    }
}

/// Appends to `target` the bytes of `source` from position `from` on.
fn append_from(target: &mut Vec<u8>, source: &[u8], from: usize)
    requires
        from <= source.len(),
    ensures
        final(target)@ == old(target)@ + source@.skip(from as int),
{
    let mut next: usize = from;
    while next < source.len()
        invariant
            from <= next <= source.len(),
            target@ == old(target)@ + source@.subrange(from as int, next as int),
        decreases source.len() - next,
    {
        target.push(source[next]);
        next = next + 1;
        assert(source@.subrange(from as int, next as int) =~= source@.subrange(
            from as int,
            next - 1,
        ).push(source@[next - 1]));
    }
    assert(source@.subrange(from as int, next as int) =~= source@.skip(from as int));
}

/// Computes the destination of a source path.
pub fn mirror_path(destination: &[u8], path: &[u8]) -> (mirror: Vec<u8>)
    ensures
        mirror@ == mirrored(destination@, path@),
{
    let mut count: usize = 0;
    while count < path.len() && path[count] == 0x2f
        invariant
            count <= path.len(),
            forall|j: int| 0 <= j < count ==> is_path_separator(#[trigger] path@[j]),
        decreases path.len() - count,
    {
        count = count + 1;
    }
    proof {
        lemma_leading_separators(path@, count as int);
    }
    let mut mirror: Vec<u8> = Vec::new();
    append_from(&mut mirror, destination, 0);
    assert(mirror@ =~= destination@);
    if destination.len() > 0 && destination[destination.len() - 1] != 0x2f {
        mirror.push(0x2f);
        assert(mirror@ =~= destination@ + seq![0x2fu8]);
    }
    append_from(&mut mirror, path, count);
    mirror
}

/// The size of the buffer for a source of `length` bytes. A length that no
/// buffer can have is rejected.
pub fn buffer_size(length: u64) -> (r: Result<usize, FileError>)
    ensures
        match r {
            Ok(size) => size == length,
            Err(e) => length > usize::MAX && e == FileError::Size,
        },
{
    if length <= usize::MAX as u64 {
        Ok(length as usize)
    } else {
        Err(FileError::Size)
    }
}

/// Turns the bytes of a source into text.
pub fn decode(contents: Vec<u8>) -> (r: Result<String, FileError>)
    ensures
        match r {
            Ok(text) => valid_utf8(contents@) && text@ == decode_utf8(contents@),
            Err(e) => !valid_utf8(contents@) && e == FileError::Decode,
        },
{
    match text_from_utf8(contents) {
        Some(text) => Ok(text),
        None => Err(FileError::Decode),
    }
}

/// The part of a file task that lies between reading and writing: decodes
/// the `contents` of the source `path`, rewrites the text with `matcher` and
/// names the destination under the root `destination`. Fails, with nothing
/// to write, exactly if the contents are not valid text.
pub fn process_file(destination: &[u8], path: &[u8], matcher: &Matcher, contents: Vec<u8>) -> (r:
    Result<FileOutput, FileError>)
    ensures
        match r {
            Ok(output) => {
                &&& valid_utf8(contents@)
                &&& output.path@ == mirrored(destination@, path@)
                &&& output.contents@ == replaced(
                    decode_utf8(contents@),
                    matcher.patterns(),
                    matcher.values(),
                )
                &&& all_nonempty(matcher.patterns()) ==> output.contents@ == substitute(
                    decode_utf8(contents@),
                    matcher.patterns(),
                    matcher.values(),
                )
            },
            Err(e) => !valid_utf8(contents@) && e == FileError::Decode,
        },
{
    match decode(contents) {
        Ok(text) => {
            let rewritten = matcher.replace_all(text.as_str());
            Ok(FileOutput { path: mirror_path(destination, path), contents: rewritten })
        },
        Err(e) => Err(e),
    }
}

} // verus!
