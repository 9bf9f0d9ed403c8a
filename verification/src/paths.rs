//! The output-path mapping: a content file under the source directory
//! maps to an output file under the build directory with its extension
//! replaced, and to a root-relative link derived from that output path.

use vstd::prelude::*;
use vstd::string::StrSliceExecFns;
use vstd::string::StringExecFns;

verus! {

/// The content-file extension, `.md`.
pub open spec fn md_suffix() -> Seq<char> {
    seq!['.', 'm', 'd']
}

/// The output extension body, `html`.
pub open spec fn html_suffix() -> Seq<char> {
    seq!['h', 't', 'm', 'l']
}

/// Whether `p` lies strictly under directory `d`: `d` is a proper prefix,
/// a separator follows it, and at least one character follows that.
pub open spec fn under_dir(p: Seq<char>, d: Seq<char>) -> bool {
    &&& p.len() > d.len() + 1
    &&& p.subrange(0, d.len() as int) == d
    &&& p[d.len() as int] == '/'
}

/// Whether `p` lies under a directory `d` that already carries its
/// trailing separator.
pub open spec fn under_slashed_dir(p: Seq<char>, d: Seq<char>) -> bool {
    &&& p.len() > d.len()
    &&& p.subrange(0, d.len() as int) == d
}

/// Whether a path names a content file: it ends in `.md` and the stem
/// before the extension is nonempty.
pub open spec fn is_md_path(p: Seq<char>) -> bool {
    &&& p.len() >= 4
    &&& p.skip(p.len() - 3) == md_suffix()
    &&& p[p.len() - 4] != '/'
}

/// Whether `p` is a content file under the source directory.
pub open spec fn content_path(p: Seq<char>, source_dir: Seq<char>) -> bool {
    &&& under_dir(p, source_dir)
    &&& is_md_path(p)
    &&& p.len() >= source_dir.len() + 5
}

/// The output path of a content file: re-rooted under the build
/// directory, with the `md` extension replaced by `html`.
pub open spec fn write_path_of(source_dir: Seq<char>, build_dir: Seq<char>, p: Seq<char>) -> Seq<
    char,
> {
    build_dir + p.subrange(source_dir.len() as int, p.len() - 2) + html_suffix()
}

/// The root-relative link of an output path: the build directory prefix
/// stripped, keeping the leading separator.
pub open spec fn relative_of(build_dir: Seq<char>, write_path: Seq<char>) -> Seq<char> {
    write_path.skip(build_dir.len() as int)
}

/// The output path of a content file lies under the build directory, its
/// link starts with a separator, and the build directory joined with the
/// link gives back the output path.
pub proof fn lemma_write_path_link(source_dir: Seq<char>, build_dir: Seq<char>, p: Seq<char>)
    requires
        content_path(p, source_dir),
    ensures
        under_dir(write_path_of(source_dir, build_dir, p), build_dir),
        build_dir + relative_of(build_dir, write_path_of(source_dir, build_dir, p))
            == write_path_of(source_dir, build_dir, p),
        relative_of(build_dir, write_path_of(source_dir, build_dir, p))[0] == '/',
{
    let wp = write_path_of(source_dir, build_dir, p);
    let mid = p.subrange(source_dir.len() as int, p.len() - 2);
    assert(mid[0] == p[source_dir.len() as int]);
    assert(wp.subrange(0, build_dir.len() as int) =~= build_dir);
    assert(wp[build_dir.len() as int] == mid[0]);
    assert(build_dir + wp.skip(build_dir.len() as int) =~= wp);
    assert(wp.skip(build_dir.len() as int)[0] == wp[build_dir.len() as int]);
}

/// A content file under a directory always has room for the separator,
/// a nonempty stem and the extension: the two parts imply the whole.
pub proof fn lemma_content_path_from_parts(p: Seq<char>, source_dir: Seq<char>)
    requires
        under_dir(p, source_dir),
        is_md_path(p),
    ensures
        content_path(p, source_dir),
{
    let n = p.len() as int;
    let sn = source_dir.len() as int;
    assert(p.skip(n - 3)[0] == p[n - 3]);
    assert(p.skip(n - 3)[1] == p[n - 2]);
    assert(p.skip(n - 3)[2] == p[n - 1]);
    assert(p[n - 3] == '.');
    assert(p[n - 2] == 'm');
    assert(p[sn] == '/');
    if n == sn + 2 {
        assert(p[n - 2] == p[sn]);
    } else if n == sn + 3 {
        assert(p[n - 3] == p[sn]);
    } else if n == sn + 4 {
        assert(p[n - 4] == p[sn]);
    }
}

/// Whether `p` lies strictly under directory `d`.
pub fn is_under_dir(p: &str, d: &str) -> (r: bool)
    ensures
        r == under_dir(p@, d@),
{
    let pn = p.unicode_len();
    let dn = d.unicode_len();
    if pn <= dn {
        return false;
    }
    if pn - dn < 2 {
        return false;
    }
    let mut i: usize = 0;
    while i < dn
        invariant
            i <= dn,
            dn == d@.len(),
            pn == p@.len(),
            pn > dn + 1,
            forall|j: int| 0 <= j < i ==> p@[j] == d@[j],
        decreases dn - i,
    {
        if p.get_char(i) != d.get_char(i) {
            proof {
                assert(p@.subrange(0, dn as int)[i as int] == p@[i as int]);
            }
            return false;
        }
        i = i + 1;
    }
    proof {
        assert(p@.subrange(0, dn as int) =~= d@);
    }
    p.get_char(dn) == '/'
}

/// Whether `p` lies under a directory `d` already carrying its trailing
/// separator.
pub fn is_under_slashed_dir(p: &str, d: &str) -> (r: bool)
    ensures
        r == under_slashed_dir(p@, d@),
{
    let pn = p.unicode_len();
    let dn = d.unicode_len();
    if pn <= dn {
        return false;
    }
    let mut i: usize = 0;
    while i < dn
        invariant
            i <= dn,
            dn == d@.len(),
            pn == p@.len(),
            pn > dn,
            forall|j: int| 0 <= j < i ==> p@[j] == d@[j],
        decreases dn - i,
    {
        if p.get_char(i) != d.get_char(i) {
            proof {
                assert(p@.subrange(0, dn as int)[i as int] == p@[i as int]);
            }
            return false;
        }
        i = i + 1;
    }
    proof {
        assert(p@.subrange(0, dn as int) =~= d@);
    }
    true
}

/// Whether a path names a content file.
pub fn is_md_file(p: &str) -> (r: bool)
    ensures
        r == is_md_path(p@),
{
    let n = p.unicode_len();
    if n < 4 {
        return false;
    }
    let c0 = p.get_char(n - 3);
    let c1 = p.get_char(n - 2);
    let c2 = p.get_char(n - 1);
    let c3 = p.get_char(n - 4);
    let r = c0 == '.' && c1 == 'm' && c2 == 'd' && c3 != '/';
    proof {
        assert(p@.skip(n as int - 3).len() == 3);
        assert(p@.skip(n as int - 3)[0] == p@[n as int - 3]);
        assert(p@.skip(n as int - 3)[1] == p@[n as int - 2]);
        assert(p@.skip(n as int - 3)[2] == p@[n as int - 1]);
        if c0 == '.' && c1 == 'm' && c2 == 'd' {
            assert(p@.skip(n as int - 3) =~= md_suffix());
        }
    }
    r
}

/// Compute the output path of a content file.
pub fn map_write_path(source_dir: &str, build_dir: &str, entry_path: &str) -> (r: String)
    requires
        content_path(entry_path@, source_dir@),
    ensures
        r@ == write_path_of(source_dir@, build_dir@, entry_path@),
{
    let sn = source_dir.unicode_len();
    let n = entry_path.unicode_len();
    let stem = entry_path.substring_char(sn, n - 2);
    let r = build_dir.to_owned().concat(stem).concat("html");
    proof {
        reveal_strlit("html");
        assert(("html")@ =~= html_suffix());
    }
    r
}

/// Strip the build-directory prefix from an output path, keeping the
/// leading separator.
pub fn map_relative_path(build_dir: &str, write_path: &str) -> (r: String)
    requires
        under_dir(write_path@, build_dir@),
    ensures
        r@ == relative_of(build_dir@, write_path@),
{
    let bn = build_dir.unicode_len();
    let n = write_path.unicode_len();
    write_path.substring_char(bn, n).to_owned()
}

} // verus!
