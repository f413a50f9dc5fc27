//! Joining file names onto directories, by the platform's rules.

use vstd::prelude::*;

verus! {

/// A path separator on some platform: `/` everywhere, `\` on Windows as well.
pub open spec fn is_separator(c: char) -> bool {
    c == '/' || c == '\\'
}

/// A bare file name: non-empty, with no separator and no colon, so it names
/// neither a root, a drive nor a directory on any platform.
pub open spec fn plain_name(f: Seq<char>) -> bool {
    &&& f.len() > 0
    &&& forall|i: int| 0 <= i < f.len() ==> !is_separator(#[trigger] f[i]) && f[i] != ':'
}

/// `d` starts with two backslashes: a network share, device or verbatim
/// prefix on Windows, whose joining rules differ.
pub open spec fn has_share_prefix(d: Seq<char>) -> bool {
    d.len() >= 2 && d[0] == '\\' && d[1] == '\\'
}

/// The text of `d` joined with the bare name `f`, as far as it is the same
/// on every platform: `f` alone after an empty directory; no separator added
/// after a trailing `/`; after a trailing `\` none on Windows and `/`
/// elsewhere; after a trailing colon none for a bare Windows drive, else the
/// platform's separator; otherwise the platform's separator (`/`, or `\` on
/// Windows).
pub open spec fn join_text(d: Seq<char>, f: Seq<char>, r: Seq<char>) -> bool {
    if d.len() == 0 {
        r == f
    } else if d.last() == '/' {
        r == d + f
    } else if d.last() == '\\' {
        r == d + f || r == d + seq!['/'] + f
    } else if d.last() == ':' {
        r == d + f || r == d + seq!['/'] + f || r == d + seq!['\\'] + f
    } else {
        r == d + seq!['/'] + f || r == d + seq!['\\'] + f
    }
}

/// `r` is `d` joined with `f`, wherever `f` is a bare name and `d` has no
/// Windows share prefix.
pub open spec fn joined(d: Seq<char>, f: Seq<char>, r: Seq<char>) -> bool {
    plain_name(f) && !has_share_prefix(d) ==> join_text(d, f, r)
}

/// `Path::new(dir).join(file)`, as text (the text of two `&str` joins back
/// without loss).
///
/// Stated: for a bare file name and a directory without a Windows share or
/// verbatim prefix, the result is the directory, then the separator the
/// platform adds (none after a separator, or after a bare drive such as
/// `C:`), then the name. Not stated: which separator the platform uses, and
/// the result for other inputs (an absolute or drive-relative `file`
/// replaces `dir`; a verbatim prefix is normalised).
#[verifier::external_body]
pub(crate) fn join_path(dir: &str, file: &str) -> (r: String)
    ensures
        joined(dir@, file@, r@),
{
    std::path::Path::new(dir).join(file).to_string_lossy().into_owned()
}

} // verus!
