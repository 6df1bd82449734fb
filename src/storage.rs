//! Write modes and the errors of resolving a storage location.
use vstd::prelude::*;

verus! {

/// A failure to resolve or prepare a storage location.
#[derive(Debug, PartialEq)]
pub enum PathError {
    Generic(String),
    InvalidTableLocation(String),
    FileAlreadyExists(String),
}

impl PathError {
    /// The message shown for this error.
    pub fn message(&self) -> (r: String)
        ensures
            r@ == match self {
                PathError::Generic(s) => "Fatal error: "@ + s@,
                PathError::InvalidTableLocation(s) => "Cannot infer storage location from: "@
                    + s@,
                PathError::FileAlreadyExists(s) => "File already exists at the given location: "@
                    + s@,
            },
    {
        match self {
            PathError::Generic(s) => {
                let mut r = String::from_str("Fatal error: ");
                r.append(s.as_str());
                r
            },
            PathError::InvalidTableLocation(s) => {
                let mut r = String::from_str("Cannot infer storage location from: ");
                r.append(s.as_str());
                r
            },
            PathError::FileAlreadyExists(s) => {
                let mut r = String::from_str("File already exists at the given location: ");
                r.append(s.as_str());
                r
            },
        }
    }
}

/// What a write does when its target already exists.
#[derive(Debug, PartialEq, Eq, Hash, Clone, Copy)]
pub enum WriteModes {
    ErrorIfExists,
    Overwrite,
}

/// Whether two strings hold the same characters.
pub fn same_text(a: &str, b: &str) -> (r: bool)
    ensures
        r == (a@ == b@),
{
    let n = a.unicode_len();
    if n != b.unicode_len() {
        return false;
    }
    let mut i: usize = 0;
    while i < n
        invariant
            n == a@.len(),
            n == b@.len(),
            i <= n,
            a@.subrange(0, i as int) == b@.subrange(0, i as int),
        decreases n - i,
    {
        if a.get_char(i) != b.get_char(i) {
            assert(a@[i as int] != b@[i as int]);
            return false;
        }
        assert(a@.subrange(0, i + 1) =~= a@.subrange(0, i as int).push(a@[i as int]));
        assert(b@.subrange(0, i + 1) =~= b@.subrange(0, i as int).push(b@[i as int]));
        i = i + 1;
    }
    assert(a@ =~= a@.subrange(0, n as int));
    assert(b@ =~= b@.subrange(0, n as int));
    true
}

/// The write mode a flag names: `Overwrite` for the text `"Overwrite"`,
/// `ErrorIfExists` for anything else.
pub fn parse_write_mode(flag: &str) -> (r: WriteModes)
    ensures
        r == if flag@ == "Overwrite"@ {
            WriteModes::Overwrite
        } else {
            WriteModes::ErrorIfExists
        },
{
    if same_text(flag, "Overwrite") {
        WriteModes::Overwrite
    } else {
        WriteModes::ErrorIfExists
    }
}

/// Refuses a write to `url` where an object already exists there and the
/// mode is `ErrorIfExists`; allows it otherwise.
pub fn ensure_write_mode(exists: bool, url: &str, write_mode: WriteModes) -> (r: Result<(), PathError>)
    ensures
        r is Err <==> (exists && write_mode == WriteModes::ErrorIfExists),
        r matches Err(e) ==> (e matches PathError::FileAlreadyExists(u) && u@ == url@),
{
    match write_mode {
        WriteModes::ErrorIfExists if exists => Err(PathError::FileAlreadyExists(String::from_str(url))),
        _ => Ok(()),
    }
}

/// `s` without its trailing `/` characters.
pub open spec fn trim_slashes(s: Seq<char>) -> Seq<char>
    decreases s.len(),
{
    if s.len() > 0 && s.last() == '/' {
        trim_slashes(s.drop_last())
    } else {
        s
    }
}

/// The path a location URL should carry: `None` (keep it as it is) for a
/// `file` URL, else its path without trailing slashes.
pub fn normalized_url_path(scheme: &str, path: &str) -> (r: Option<String>)
    ensures
        scheme@ == "file"@ ==> r is None,
        scheme@ != "file"@ ==> (r matches Some(p) && p@ == trim_slashes(path@)),
{
    if same_text(scheme, "file") {
        return None;
    }
    let mut k: usize = path.unicode_len();
    assert(path@.subrange(0, k as int) =~= path@);
    while k > 0 && path.get_char(k - 1) == '/'
        invariant
            k <= path@.len(),
            trim_slashes(path@.subrange(0, k as int)) == trim_slashes(path@),
        decreases k,
    {
        assert(path@.subrange(0, k as int).drop_last() =~= path@.subrange(0, k - 1));
        k = k - 1;
    }
    Some(String::from_str(path.substring_char(0, k)))
}

} // verus!
