//! Archive handling rules: format dispatch by suffix, the path-traversal guard
//! for entries, which extracted files are made executable, and which files are
//! the server and benchmark executables.

use vstd::prelude::*;
use crate::text::{
    chars_of, eq_ignore_ascii_case, path_join, push_separator, push_str, string_of, str_eq_ignore_ascii_case,
};

verus! {

/// An archive format.
#[derive(Clone, Copy, Debug, PartialEq, Eq, Structural)]
pub enum ArchiveKind {
    Zip,
    TarGz,
}

/// `s` ends with `suffix` up to ASCII case.
pub open spec fn ends_with_ci(s: Seq<char>, suffix: Seq<char>) -> bool {
    suffix.len() <= s.len() && eq_ignore_ascii_case(s.subrange(s.len() - suffix.len(), s.len() as int), suffix)
}

fn ends_with_ignore_case(s: &[char], suffix: &str) -> (r: bool)
    ensures
        r == ends_with_ci(s@, suffix@),
{
    let p = chars_of(suffix);
    if p.len() > s.len() {
        return false;
    }
    let n = s.len();
    let lo = n - p.len();
    let mut i: usize = 0;
    while i < p.len()
        invariant
            n == s@.len(),
            p@ == suffix@,
            lo + p@.len() == s@.len(),
            i <= p@.len(),
            forall|j: int| 0 <= j < i ==> crate::text::char_eq_ignore_ascii_case(
                #[trigger] s@.subrange(lo as int, s@.len() as int)[j],
                p@[j],
            ),
        decreases p@.len() - i,
    {
        let x = s[lo + i];
        let y = p[i];
        assert(s@.subrange(lo as int, s@.len() as int)[i as int] == x);
        let same = x == y || ('A' <= x && x <= 'Z' && (x as u32) + 32 == y as u32) || ('A' <= y
            && y <= 'Z' && (y as u32) + 32 == x as u32);
        if !same {
            return false;
        }
        i = i + 1;
    }
    true
}

/// The format of an archive by its name: gzipped tar for `.tar.gz` and `.tgz`
/// (in any case), zip otherwise.
pub open spec fn archive_kind_of(name: Seq<char>) -> ArchiveKind {
    if ends_with_ci(name, ".tar.gz"@) || ends_with_ci(name, ".tgz"@) {
        ArchiveKind::TarGz
    } else {
        ArchiveKind::Zip
    }
}

/// The format of an archive by its name.
pub fn archive_kind(archive_name: &str) -> (r: ArchiveKind)
    ensures
        r == archive_kind_of(archive_name@),
{
    let v = chars_of(archive_name);
    if ends_with_ignore_case(v.as_slice(), ".tar.gz") || ends_with_ignore_case(v.as_slice(), ".tgz") {
        ArchiveKind::TarGz
    } else {
        ArchiveKind::Zip
    }
}

/// `s` holds `pat` somewhere.
pub open spec fn contains_seq(s: Seq<char>, pat: Seq<char>) -> bool {
    exists|i: int| 0 <= i && i + pat.len() <= s.len() && #[trigger] s.subrange(i, i + pat.len()) == pat
}

/// An entry name with backslashes turned into slashes.
pub open spec fn forward_slashes(name: Seq<char>) -> Seq<char> {
    name.map_values(|c: char| if c == '\\' { '/' } else { c })
}

/// Where an archive entry may be written: its name with forward slashes,
/// unless that is absolute or holds `..` anywhere, which is refused.
pub open spec fn safe_entry_of(name: Seq<char>) -> Option<Seq<char>> {
    let n = forward_slashes(name);
    if n.len() > 0 && n[0] == '/' {
        None
    } else if contains_seq(n, ".."@) {
        None
    } else {
        Some(n)
    }
}

/// The path-traversal guard for an archive entry.
pub fn safe_entry_name(name: &str) -> (r: Option<String>)
    ensures
        match safe_entry_of(name@) {
            Some(n) => r is Some && r->0@ == n,
            None => r is None,
        },
{
    let v = chars_of(name);
    let mut n: Vec<char> = Vec::new();
    let mut i: usize = 0;
    while i < v.len()
        invariant
            v@ == name@,
            i <= v@.len(),
            n@ == forward_slashes(v@.subrange(0, i as int)),
        decreases v@.len() - i,
    {
        n.push(if v[i] == '\\' { '/' } else { v[i] });
        i = i + 1;
        assert(n@ =~= forward_slashes(v@.subrange(0, i as int)));
    }
    assert(v@.subrange(0, v@.len() as int) =~= v@);
    if n.len() > 0 && n[0] == '/' {
        return None;
    }
    proof {
        reveal_strlit("..");
    }
    assert(".."@ =~= seq!['.', '.']);
    let len = n.len();
    let mut j: usize = 0;
    while j < len && j + 1 < len
        invariant
            len == n@.len(),
            n@ == forward_slashes(name@),
            ".."@ == seq!['.', '.'],
            forall|k: int| 0 <= k < j && k + 2 <= n@.len() ==> #[trigger] n@.subrange(k, k + ".."@.len()) != ".."@,
        decreases n@.len() - j,
    {
        if n[j] == '.' && n[j + 1] == '.' {
            assert(n@.subrange(j as int, j + 2) =~= ".."@);
            return None;
        }
        assert(n@.subrange(j as int, j + 2) != ".."@) by {
            assert(n@.subrange(j as int, j + 2)[0] == n@[j as int]);
            assert(n@.subrange(j as int, j + 2)[1] == n@[j + 1]);
        }
        j = j + 1;
    }
    assert(!contains_seq(n@, ".."@));
    Some(string_of(n.as_slice()))
}

/// Whether `name` equals one of the lower-case names, up to ASCII case.
pub open spec fn named_ci(name: Seq<char>, names: Seq<Seq<char>>) -> bool {
    exists|i: int| 0 <= i < names.len() && eq_ignore_ascii_case(name, #[trigger] names[i])
}

/// A file to make executable after extraction on Unix: a known executable
/// name, a `llama-` prefixed binary, or any file without an extension.
pub open spec fn should_mark_executable_of(name: Seq<char>) -> bool {
    eq_ignore_ascii_case(name, "llama-server"@) || eq_ignore_ascii_case(name, "llama-bench"@)
        || eq_ignore_ascii_case(name, "server"@) || (name.len() >= 6 && eq_ignore_ascii_case(
        name.subrange(0, 6),
        "llama-"@,
    )) || !name.contains('.')
}

/// Whether an extracted file is to be made executable.
pub fn should_mark_executable(file_name: &str) -> (r: bool)
    ensures
        r == should_mark_executable_of(file_name@),
{
    proof {
        reveal_strlit("llama-");
    }
    let v = chars_of(file_name);
    if str_eq_ignore_ascii_case(file_name, "llama-server") || str_eq_ignore_ascii_case(file_name, "llama-bench")
        || str_eq_ignore_ascii_case(file_name, "server") {
        return true;
    }
    if v.len() >= 6 {
        let head = crate::text::slice_chars(v.as_slice(), 0, 6);
        let hs = string_of(head.as_slice());
        if str_eq_ignore_ascii_case(hs.as_str(), "llama-") {
            return true;
        }
    }
    let ghost named = eq_ignore_ascii_case(file_name@, "llama-server"@) || eq_ignore_ascii_case(file_name@, "llama-bench"@)
        || eq_ignore_ascii_case(file_name@, "server"@) || (file_name@.len() >= 6 && eq_ignore_ascii_case(
        file_name@.subrange(0, 6),
        "llama-"@,
    ));
    assert(!named);
    let mut i: usize = 0;
    while i < v.len()
        invariant
            !named,
            named == (eq_ignore_ascii_case(file_name@, "llama-server"@) || eq_ignore_ascii_case(file_name@, "llama-bench"@)
                || eq_ignore_ascii_case(file_name@, "server"@) || (file_name@.len() >= 6 && eq_ignore_ascii_case(
                file_name@.subrange(0, 6),
                "llama-"@,
            ))),
            v@ == file_name@,
            i <= v@.len(),
            forall|k: int| 0 <= k < i ==> v@[k] != '.',
        decreases v@.len() - i,
    {
        if v[i] == '.' {
            assert(file_name@[i as int] == '.');
            return false;
        }
        i = i + 1;
    }
    true
}

/// An inference server executable's file name, in any case.
pub open spec fn is_server_name(name: Seq<char>) -> bool {
    eq_ignore_ascii_case(name, "llama-server.exe"@) || eq_ignore_ascii_case(name, "server.exe"@)
        || eq_ignore_ascii_case(name, "llama-server"@) || eq_ignore_ascii_case(name, "server"@)
}

/// Whether a file found in a runtime directory is the inference server.
pub fn is_server_file_name(file_name: &str) -> (r: bool)
    ensures
        r == is_server_name(file_name@),
{
    str_eq_ignore_ascii_case(file_name, "llama-server.exe") || str_eq_ignore_ascii_case(file_name, "server.exe")
        || str_eq_ignore_ascii_case(file_name, "llama-server") || str_eq_ignore_ascii_case(file_name, "server")
}

/// A benchmark executable's file name, in any case.
pub open spec fn is_bench_name(name: Seq<char>) -> bool {
    eq_ignore_ascii_case(name, "llama-bench.exe"@) || eq_ignore_ascii_case(name, "llama-bench"@)
}

/// Whether a file found in a runtime directory is the benchmark tool.
pub fn is_bench_file_name(file_name: &str) -> (r: bool)
    ensures
        r == is_bench_name(file_name@),
{
    str_eq_ignore_ascii_case(file_name, "llama-bench.exe") || str_eq_ignore_ascii_case(file_name, "llama-bench")
}

/// The places checked first for the server, in order, before a deeper search.
pub open spec fn server_candidates_of(dir: Seq<char>) -> Seq<Seq<char>> {
    seq![
        path_join(dir, "llama-server.exe"@), path_join(dir, "server.exe"@),
        path_join(dir, "llama-server"@), path_join(dir, "server"@),
    ]
}

fn joined(dir: &str, name: &str) -> (r: String)
    ensures
        r@ == path_join(dir@, name@),
{
    let mut v = chars_of(dir);
    push_separator(&mut v);
    push_str(&mut v, name);
    string_of(v.as_slice())
}

/// The places checked first for the server in a runtime directory.
pub fn server_candidates(runtime_dir: &str) -> (r: Vec<String>)
    ensures
        crate::mirror::strs_view(r@) == server_candidates_of(runtime_dir@),
{
    let r = vec![
        joined(runtime_dir, "llama-server.exe"),
        joined(runtime_dir, "server.exe"),
        joined(runtime_dir, "llama-server"),
        joined(runtime_dir, "server"),
    ];
    assert(crate::mirror::strs_view(r@) =~= server_candidates_of(runtime_dir@));
    r
}

/// The places checked first for the benchmark tool in a runtime directory.
pub fn bench_candidates(runtime_dir: &str) -> (r: Vec<String>)
    ensures
        crate::mirror::strs_view(r@) == seq![
            path_join(runtime_dir@, "llama-bench.exe"@),
            path_join(runtime_dir@, "llama-bench"@),
        ],
{
    let r = vec![joined(runtime_dir, "llama-bench.exe"), joined(runtime_dir, "llama-bench")];
    assert(crate::mirror::strs_view(r@) =~= seq![
        path_join(runtime_dir@, "llama-bench.exe"@),
        path_join(runtime_dir@, "llama-bench"@),
    ]);
    r
}

} // verus!
