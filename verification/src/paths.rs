//! File system paths, held as text.
use vstd::prelude::*;

verus! {

/// Whether `name` is a plain relative path of one component: not empty, not `.` or `..`,
/// and without any character that a platform reads as a separator, a root or a drive
/// prefix.
pub open spec fn is_plain_name(name: Seq<char>) -> bool {
    &&& name.len() > 0
    &&& name != seq!['.']
    &&& name != seq!['.', '.']
    &&& forall|i: int| 0 <= i < name.len() ==> #[trigger] name[i] != '/' && name[i] != '\\' && name[i] != ':'
}

/// A name of more than two characters, none of them a separator, root or drive mark, is
/// plain.
pub proof fn lemma_long_name_is_plain(name: Seq<char>)
    requires
        name.len() > 2,
        forall|i: int| 0 <= i < name.len() ==> #[trigger] name[i] != '/' && name[i] != '\\' && name[i] != ':',
    ensures
        is_plain_name(name),
{
    assert(seq!['.'].len() == 1);
    assert(seq!['.', '.'].len() == 2);
}

/// A path separator on some platform: `/` everywhere, `\` on Windows.
pub open spec fn is_separator(c: char) -> bool {
    c == '/' || c == '\\'
}

/// Whether `base` begins like a Windows verbatim path (`\\?\`, either separator accepted).
pub open spec fn has_verbatim_prefix(base: Seq<char>) -> bool {
    &&& base.len() >= 4
    &&& is_separator(base[0])
    &&& is_separator(base[1])
    &&& base[2] == '?'
    &&& is_separator(base[3])
}

/// Whether `base` is a bare Windows drive, such as `C:`.
pub open spec fn is_bare_drive(base: Seq<char>) -> bool {
    &&& base.len() == 2
    &&& (('a' <= base[0] && base[0] <= 'z') || ('A' <= base[0] && base[0] <= 'Z'))
    &&& base[1] == ':'
}

/// Joining on Unix: `/` goes between, unless `base` is empty or ends in `/`.
pub open spec fn unix_join(base: Seq<char>, name: Seq<char>) -> Seq<char> {
    if base.len() == 0 || base.last() == '/' {
        base + name
    } else {
        base + seq!['/'] + name
    }
}

/// Joining on Windows: `\` goes between, unless `base` is empty, ends in `/` or `\`, or is
/// a bare drive.
pub open spec fn windows_join(base: Seq<char>, name: Seq<char>) -> Seq<char> {
    if base.len() == 0 || is_separator(base.last()) || is_bare_drive(base) {
        base + name
    } else {
        base + seq!['\\'] + name
    }
}

/// What joining a plain name onto `base` gives: the Unix or the Windows join, by the
/// platform. For a Windows verbatim `base` nothing is said (there the whole path is
/// normalized).
pub open spec fn joined(base: Seq<char>, name: Seq<char>, res: Seq<char>) -> bool {
    ||| has_verbatim_prefix(base)
    ||| res == unix_join(base, name)
    ||| res == windows_join(base, name)
}

/// Calls `std::path::Path::join`, which adjoins `name` as `PathBuf::push` does. For a
/// relative `name` without root or prefix, the base is extended by the platform's
/// separator (`/` on Unix, `\` on Windows) and `name`; no separator is added after an
/// empty base, after a base that ends in a separator of the platform (`/`; on Windows also
/// `\`), or, on Windows, after a bare drive such as `C:`. When the base has a Windows
/// verbatim prefix (`\\?\`), std normalizes the whole path (dropping `.` and `..`), and the
/// contract leaves the result unsaid. Text built from UTF-8 stays UTF-8, so the final
/// `to_string_lossy` changes nothing. Which platform's rule applies is left unsaid.
#[verifier::external_body]
pub fn join_path(base: &str, name: &str) -> (res: String)
    requires
        is_plain_name(name@),
    ensures
        joined(base@, name@, res@),
{
    std::path::Path::new(base).join(name).to_string_lossy().to_string()
}

} // verus!
