//! Artifact identification: deriving a logical library name from the path
//! of a candidate dynamic library.

use vstd::prelude::*;
use vstd::string::StrSliceExecFns;

verus! {

/// True when `s` begins with `prefix`.
pub open spec fn spec_has_prefix(s: Seq<char>, prefix: Seq<char>) -> bool {
    s.len() >= prefix.len() && s.subrange(0, prefix.len() as int) == prefix
}

/// True when `s` ends with `suffix`.
pub open spec fn spec_has_suffix(s: Seq<char>, suffix: Seq<char>) -> bool {
    s.len() >= suffix.len() && s.subrange(s.len() - suffix.len(), s.len() as int) == suffix
}

/// The base name with the conventional `lib` prefix removed, when present.
pub open spec fn spec_strip_lib_prefix(name: Seq<char>) -> Seq<char> {
    if spec_has_prefix(name, "lib"@) {
        name.subrange(3, name.len() as int)
    } else {
        name
    }
}

/// The remainder of `name` before `suffix`, when `name` ends with it.
pub open spec fn spec_strip_suffix(name: Seq<char>, suffix: Seq<char>) -> Option<Seq<char>> {
    if spec_has_suffix(name, suffix) {
        Some(name.subrange(0, name.len() - suffix.len()))
    } else {
        None
    }
}

/// The logical library name encoded in a dynamic library's base name:
/// the base name with a conventional `lib` prefix removed, then a
/// conventional shared-library suffix removed, tried in a fixed priority
/// order. `None` when no suffix matches or nothing remains: the file is
/// not named like a dynamic library.
///
/// The `lib` prefix is stripped unconditionally, even though one platform
/// family does not use that convention; a library whose own name begins
/// with `lib` is therefore mis-stripped. That behaviour is deliberate and
/// kept as is.
pub open spec fn spec_cdylib_name(file_name: Seq<char>) -> Option<Seq<char>> {
    let stem = spec_strip_lib_prefix(file_name);
    let rest = if spec_strip_suffix(stem, ".so"@) is Some {
        spec_strip_suffix(stem, ".so"@)
    } else if spec_strip_suffix(stem, ".dll"@) is Some {
        spec_strip_suffix(stem, ".dll"@)
    } else {
        spec_strip_suffix(stem, ".dylib"@)
    };
    match rest {
        Some(name) => if name.len() > 0 {
            Some(name)
        } else {
            None
        },
        None => None,
    }
}

/// What `camino::Utf8Path::file_name` returns for a path written as `text`.
pub uninterp spec fn file_name_of(path: Seq<char>) -> Option<Seq<char>>;

/// Relies on `camino::Utf8Path::file_name`: the final component of the
/// path, `None` when the path has no final component or ends in `..`;
/// a function of the path text alone.
#[verifier::external_body]
fn utf8_file_name(path: &str) -> (r: Option<String>)
    ensures
        r.deep_view() == file_name_of(path@),
{
    camino::Utf8Path::new(path).file_name().map(|f| f.to_owned())
}

/// True when `s` begins with `prefix`.
fn has_prefix(s: &str, prefix: &str) -> (r: bool)
    ensures
        r == spec_has_prefix(s@, prefix@),
{
    let n: usize = s.unicode_len();
    let pn: usize = prefix.unicode_len();
    if n < pn {
        return false;
    }
    let mut i: usize = 0;
    while i < pn
        invariant
            0 <= i <= pn <= n,
            n == s@.len(),
            pn == prefix@.len(),
            forall|j: int| 0 <= j < i ==> s@[j] == prefix@[j],
        decreases pn - i,
    {
        if s.get_char(i) != prefix.get_char(i) {
            assert(s@.subrange(0, pn as int)[i as int] == s@[i as int]);
            return false;
        }
        i = i + 1;
    }
    assert(s@.subrange(0, pn as int) =~= prefix@);
    true
}

/// True when `s` ends with `suffix`.
fn has_suffix(s: &str, suffix: &str) -> (r: bool)
    ensures
        r == spec_has_suffix(s@, suffix@),
{
    let n: usize = s.unicode_len();
    let sn: usize = suffix.unicode_len();
    if n < sn {
        return false;
    }
    let off: usize = n - sn;
    let mut i: usize = 0;
    while i < sn
        invariant
            0 <= i <= sn <= n,
            n == s@.len(),
            sn == suffix@.len(),
            off == n - sn,
            forall|j: int| 0 <= j < i ==> s@[off + j] == suffix@[j],
        decreases sn - i,
    {
        if s.get_char(off + i) != suffix.get_char(i) {
            assert(s@.subrange(off as int, n as int)[i as int] == s@[off + i]);
            return false;
        }
        i = i + 1;
    }
    assert(s@.subrange(off as int, n as int) =~= suffix@);
    true
}

/// The logical library name encoded in a dynamic library's base name,
/// or `None` when the base name is not named like a dynamic library.
pub fn cdylib_name_of_file(file_name: &str) -> (r: Option<String>)
    ensures
        r.deep_view() == spec_cdylib_name(file_name@),
{
    proof {
        reveal_strlit("lib");
        reveal_strlit(".so");
        reveal_strlit(".dll");
        reveal_strlit(".dylib");
    }
    let stem: &str = if has_prefix(file_name, "lib") {
        file_name.substring_char(3, file_name.unicode_len())
    } else {
        file_name
    };
    assert(stem@ == spec_strip_lib_prefix(file_name@));
    let n: usize = stem.unicode_len();
    if has_suffix(stem, ".so") {
        if n > 3 {
            Some(stem.substring_char(0, n - 3).to_owned())
        } else {
            None
        }
    } else if has_suffix(stem, ".dll") {
        if n > 4 {
            Some(stem.substring_char(0, n - 4).to_owned())
        } else {
            None
        }
    } else if has_suffix(stem, ".dylib") {
        if n > 6 {
            Some(stem.substring_char(0, n - 6).to_owned())
        } else {
            None
        }
    } else {
        None
    }
}

/// If `library_path` names a C dynamic library, its logical name.
pub open spec fn spec_calc_cdylib_name(library_path: Seq<char>) -> Option<Seq<char>> {
    match file_name_of(library_path) {
        Some(file_name) => spec_cdylib_name(file_name),
        None => None,
    }
}

/// If `library_path` is a C dynamic library, return its name.
pub fn calc_cdylib_name(library_path: &str) -> (r: Option<String>)
    ensures
        r.deep_view() == spec_calc_cdylib_name(library_path@),
{
    match utf8_file_name(library_path) {
        Some(file_name) => cdylib_name_of_file(file_name.as_str()),
        None => None,
    }
}

/// A base name of the form `lib<x>.so`, `lib<x>.dylib` or `<x>.dll`
/// identifies the library `x`. The `lib`-prefixed forms hold for every
/// non-empty `x`; the bare forms hold only when `x` does not itself
/// begin with `lib`, which the unconditional prefix strip would
/// otherwise swallow — the bare `.dll` name `libuniffi.dll`, for one,
/// identifies `uniffi`, not `libuniffi`.
pub proof fn lemma_cdylib_name_identified(x: Seq<char>)
    requires
        x.len() > 0,
    ensures
        spec_cdylib_name("lib"@ + x + ".so"@) == Some(x),
        spec_cdylib_name("lib"@ + x + ".dylib"@) == Some(x),
        spec_cdylib_name("lib"@ + x + ".dll"@) == Some(x),
        !spec_has_prefix(x, "lib"@) ==> spec_cdylib_name(x + ".dll"@) == Some(x),
        !spec_has_prefix(x, "lib"@) ==> spec_cdylib_name(x + ".so"@) == Some(x),
        !spec_has_prefix(x, "lib"@) ==> spec_cdylib_name(x + ".dylib"@) == Some(x),
{
    reveal_strlit("lib");
    reveal_strlit(".so");
    reveal_strlit(".dll");
    reveal_strlit(".dylib");
    lemma_cdylib_form(x, ".so"@);
    lemma_cdylib_form(x, ".dll"@);
    lemma_cdylib_form(x, ".dylib"@);
}

/// One suffix form at a time: `lib + x + suffix` identifies `x`, and so
/// does the bare `x + suffix` when `x` does not begin with `lib`.
proof fn lemma_cdylib_form(x: Seq<char>, suffix: Seq<char>)
    requires
        x.len() > 0,
        suffix == ".so"@ || suffix == ".dll"@ || suffix == ".dylib"@,
    ensures
        spec_cdylib_name("lib"@ + x + suffix) == Some(x),
        !spec_has_prefix(x, "lib"@) ==> spec_cdylib_name(x + suffix) == Some(x),
{
    reveal_strlit("lib");
    reveal_strlit(".so");
    reveal_strlit(".dll");
    reveal_strlit(".dylib");
    let prefixed = "lib"@ + x + suffix;
    assert(prefixed.subrange(0, 3) =~= "lib"@);
    assert(prefixed.subrange(3, prefixed.len() as int) =~= x + suffix);
    lemma_stem_with_suffix(x, suffix);
    if !spec_has_prefix(x, "lib"@) {
        let bare = x + suffix;
        assert(!spec_has_prefix(bare, "lib"@)) by {
            if spec_has_prefix(bare, "lib"@) {
                if x.len() >= 3 {
                    assert(x.subrange(0, 3) =~= bare.subrange(0, 3));
                } else {
                    assert(bare[x.len() as int] == suffix[0]);
                    assert(bare.subrange(0, 3)[x.len() as int] == bare[x.len() as int]);
                }
            }
        }
    }
}

/// A stem of the form `x + suffix`, for one of the three conventional
/// suffixes, strips back to `x` under the priority order.
proof fn lemma_stem_with_suffix(x: Seq<char>, suffix: Seq<char>)
    requires
        x.len() > 0,
        suffix == ".so"@ || suffix == ".dll"@ || suffix == ".dylib"@,
    ensures
        spec_strip_suffix(x + suffix, ".so"@) is Some ==> spec_strip_suffix(x + suffix, ".so"@)
            == Some(x) && suffix == ".so"@,
        spec_strip_suffix(x + suffix, ".dll"@) is Some ==> spec_strip_suffix(x + suffix, ".dll"@)
            == Some(x) && suffix == ".dll"@,
        spec_strip_suffix(x + suffix, ".dylib"@) is Some ==> spec_strip_suffix(
            x + suffix,
            ".dylib"@,
        ) == Some(x) && suffix == ".dylib"@,
        spec_strip_suffix(x + suffix, suffix) == Some(x),
{
    reveal_strlit(".so");
    reveal_strlit(".dll");
    reveal_strlit(".dylib");
    let s = x + suffix;
    assert(s.subrange(s.len() - suffix.len(), s.len() as int) =~= suffix);
    assert(s.subrange(0, s.len() - suffix.len()) =~= x);
    lemma_suffixes_exclusive(s, ".so"@, ".dll"@);
    lemma_suffixes_exclusive(s, ".so"@, ".dylib"@);
    lemma_suffixes_exclusive(s, ".dll"@, ".dylib"@);
}

/// No string ends with two of the conventional suffixes at once: their
/// last characters differ.
proof fn lemma_suffixes_exclusive(s: Seq<char>, a: Seq<char>, b: Seq<char>)
    requires
        a.len() > 0,
        b.len() > 0,
        a.last() != b.last(),
    ensures
        !(spec_has_suffix(s, a) && spec_has_suffix(s, b)),
{
    if spec_has_suffix(s, a) && spec_has_suffix(s, b) {
        assert(s.subrange(s.len() - a.len(), s.len() as int).last() == s.last());
        assert(s.subrange(s.len() - b.len(), s.len() as int).last() == s.last());
    }
}

/// A base name that ends in none of the three conventional suffixes
/// identifies no library.
pub proof fn lemma_cdylib_name_rejected(file_name: Seq<char>)
    requires
        !spec_has_suffix(file_name, ".so"@),
        !spec_has_suffix(file_name, ".dll"@),
        !spec_has_suffix(file_name, ".dylib"@),
    ensures
        spec_cdylib_name(file_name) is None,
{
    reveal_strlit("lib");
    reveal_strlit(".so");
    reveal_strlit(".dll");
    reveal_strlit(".dylib");
    lemma_strip_keeps_tail(file_name, ".so"@);
    lemma_strip_keeps_tail(file_name, ".dll"@);
    lemma_strip_keeps_tail(file_name, ".dylib"@);
}

/// Stripping the `lib` prefix cannot create a suffix that the whole base
/// name lacked.
proof fn lemma_strip_keeps_tail(file_name: Seq<char>, suffix: Seq<char>)
    requires
        !spec_has_suffix(file_name, suffix),
        suffix.len() > 0,
    ensures
        !spec_has_suffix(spec_strip_lib_prefix(file_name), suffix),
{
    reveal_strlit("lib");
    let stem = spec_strip_lib_prefix(file_name);
    if spec_has_suffix(stem, suffix) {
        if spec_has_prefix(file_name, "lib"@) {
            assert(stem == file_name.subrange(3, file_name.len() as int));
            assert(stem.subrange(stem.len() - suffix.len(), stem.len() as int)
                =~= file_name.subrange(
                file_name.len() - suffix.len(),
                file_name.len() as int,
            ));
        }
    }
}

} // verus!
