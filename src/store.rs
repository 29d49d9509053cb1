//! Reading and overwriting single project files, on top of the sandbox
//! check. The disk is read and written by the caller; these functions
//! decide what the request returns.
use vstd::prelude::*;
use crate::classify::{detect_language, language_of, opt_string_view};
use crate::guard::ErrorKind;

verus! {

/// A whole-file read of one project file.
pub struct ProjectFile {
    pub path: String,
    pub content: String,
    pub language: Option<String>,
    pub size: u64,
}

/// The body of a file overwrite request.
pub struct PutProjectFileRequest {
    pub content: String,
}

/// The file name of a canonical path: its last component.
pub open spec fn file_name_of(p: Seq<String>) -> Seq<char> {
    if p.len() == 0 {
        Seq::empty()
    } else {
        p[p.len() - 1]@
    }
}

/// The outcome of a read: the guard's error; not found for a path that is
/// not a regular file; an internal error when the content could not be read
/// as text; else the file with its size (0 when unknown) and the language of
/// its name.
pub open spec fn read_ok(
    requested: Seq<char>,
    resolved: Result<Vec<String>, ErrorKind>,
    is_file: bool,
    content: Option<String>,
    size: Option<u64>,
    r: Result<ProjectFile, ErrorKind>,
) -> bool {
    match resolved {
        Err(e) => r == Err::<ProjectFile, ErrorKind>(e),
        Ok(p) => if !is_file {
            r == Err::<ProjectFile, ErrorKind>(ErrorKind::NotFound)
        } else {
            match content {
                None => r == Err::<ProjectFile, ErrorKind>(ErrorKind::InternalError),
                Some(c) => match r {
                    Ok(f) => f.path@ == requested && f.content@ == c@ && f.size == match size {
                        Some(n) => n,
                        None => 0u64,
                    } && opt_string_view(f.language) == language_of(file_name_of(p@)),
                    Err(_) => false,
                },
            }
        },
    }
}

fn file_name(p: &Vec<String>) -> (r: &str)
    ensures
        r@ == file_name_of(p@),
{
    if p.len() == 0 {
        proof {
            reveal_strlit("");
        }
        ""
    } else {
        p[p.len() - 1].as_str()
    }
}

/// Builds the answer to a file read from what the disk gave: the guard's
/// resolution of the path, whether it names a regular file, its text
/// content (none when it could not be read as text) and its size.
pub fn read_outcome(
    requested: String,
    resolved: Result<Vec<String>, ErrorKind>,
    is_file: bool,
    content: Option<String>,
    size: Option<u64>,
) -> (r: Result<ProjectFile, ErrorKind>)
    ensures
        read_ok(requested@, resolved, is_file, content, size, r),
{
    match resolved {
        Err(e) => Err(e),
        Ok(p) => {
            if !is_file {
                Err(ErrorKind::NotFound)
            } else {
                match content {
                    None => Err(ErrorKind::InternalError),
                    Some(c) => {
                        let language = detect_language(file_name(&p));
                        let n: u64 = match size {
                            Some(n) => n,
                            None => 0,
                        };
                        Ok(ProjectFile { path: requested, content: c, language, size: n })
                    },
                }
            }
        },
    }
}

/// The outcome of an overwrite: the guard's error, or an internal error
/// when the write failed, or success.
pub fn write_outcome(resolved: &Result<Vec<String>, ErrorKind>, written: bool) -> (r: Result<
    (),
    ErrorKind,
>)
    ensures
        match resolved {
            Err(e) => r == Err::<(), ErrorKind>(*e),
            Ok(_) => r == if written {
                Ok::<(), ErrorKind>(())
            } else {
                Err(ErrorKind::InternalError)
            },
        },
{
    match resolved {
        Err(e) => Err(*e),
        Ok(_) => if written {
            Ok(())
        } else {
            Err(ErrorKind::InternalError)
        },
    }
}

} // verus!
