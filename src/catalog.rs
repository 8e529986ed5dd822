//! The model catalog: identities of the built-in models, their file names and
//! mirror URLs, sanitisation of custom identities, and where a model's file lives.

use vstd::prelude::*;
use crate::text::{
    Trim, chars_eq, chars_of, find_last, is_ascii_alnum, join_prefix, last_index_of, lemma_trim_keeps, owned, path_join, ends_at, push_chars,
    push_separator, push_str, slice_chars, str_eq, string_of, trim, trimmed,
};

verus! {

/// The identity used when none, or nothing usable, is given.
pub open spec fn default_model_id() -> Seq<char> {
    "qwen3_0_6b_q4_k_m"@
}

/// The identity of the built-in model of tier `t`; tiers outside 0..=5 get the
/// smallest model.
pub open spec fn builtin_id(t: int) -> Seq<char> {
    if t == 1 {
        "qwen3_1_7b_q4_k_m"@
    } else if t == 2 {
        "qwen3_4b_q4_k_m"@
    } else if t == 3 {
        "qwen3_8b_q4_k_m"@
    } else if t == 4 {
        "qwen3_14b_q4_k_m"@
    } else if t == 5 {
        "qwen3_32b_q4_k_m"@
    } else {
        "qwen3_0_6b_q4_k_m"@
    }
}

/// The parameter-count label of the built-in model of tier `t`.
pub open spec fn size_label(t: int) -> Seq<char> {
    if t == 1 {
        "1.7B"@
    } else if t == 2 {
        "4B"@
    } else if t == 3 {
        "8B"@
    } else if t == 4 {
        "14B"@
    } else if t == 5 {
        "32B"@
    } else {
        "0.6B"@
    }
}

/// The tier of a built-in identity, or `None` for any other identity.
pub open spec fn builtin_index(id: Seq<char>) -> Option<int> {
    if id == builtin_id(0) {
        Some(0)
    } else if id == builtin_id(1) {
        Some(1)
    } else if id == builtin_id(2) {
        Some(2)
    } else if id == builtin_id(3) {
        Some(3)
    } else if id == builtin_id(4) {
        Some(4)
    } else if id == builtin_id(5) {
        Some(5)
    } else {
        None
    }
}

/// One of the six built-in identities.
pub open spec fn is_builtin(id: Seq<char>) -> bool {
    builtin_index(id) is Some
}

/// The weights file of the built-in model of tier `t`.
pub open spec fn builtin_file(t: int) -> Seq<char> {
    "Qwen3-"@ + size_label(t) + "-Q4_K_M.gguf"@
}

/// The repository of the built-in model of tier `t` on the mirrors.
pub open spec fn builtin_repo(t: int) -> Seq<char> {
    "Qwen3-"@ + size_label(t) + "-GGUF"@
}

/// The file name of a model identity; unknown identities get the smallest model's.
pub open spec fn model_file_name_of(id: Seq<char>) -> Seq<char> {
    match builtin_index(id) {
        Some(t) => builtin_file(t),
        None => builtin_file(0),
    }
}

/// The first mirror of the built-in model of tier `t`.
pub open spec fn modelscope_url(t: int) -> Seq<char> {
    "https://www.modelscope.cn/models/unsloth/"@ + builtin_repo(t) + "/resolve/master/"@
        + builtin_file(t)
}

/// The second and third mirror of the built-in model of tier `t`.
pub open spec fn huggingface_url(t: int) -> Seq<char> {
    "https://huggingface.co/unsloth/"@ + builtin_repo(t) + "/resolve/main/"@ + builtin_file(t)
}

/// The three mirror URLs of a model identity; empty for a custom identity.
pub open spec fn model_urls_of(id: Seq<char>) -> Seq<Seq<char>> {
    match builtin_index(id) {
        Some(t) => seq![modelscope_url(t), huggingface_url(t), huggingface_url(t)],
        None => seq![""@, ""@, ""@],
    }
}

/// The six built-in identities differ from each other.
pub proof fn lemma_builtin_ids_distinct()
    ensures
        forall|a: int, b: int| 0 <= a < b <= 5 ==> builtin_id(a) != builtin_id(b),
        forall|t: int| 0 <= t <= 5 ==> builtin_index(#[trigger] builtin_id(t)) == Some(t),
{
    reveal_strlit("qwen3_0_6b_q4_k_m");
    reveal_strlit("qwen3_1_7b_q4_k_m");
    reveal_strlit("qwen3_4b_q4_k_m");
    reveal_strlit("qwen3_8b_q4_k_m");
    reveal_strlit("qwen3_14b_q4_k_m");
    reveal_strlit("qwen3_32b_q4_k_m");
    assert(builtin_id(0)[6] != builtin_id(1)[6]);
    assert(builtin_id(0)[6] != builtin_id(2)[6]);
    assert(builtin_id(0)[6] != builtin_id(3)[6]);
    assert(builtin_id(0)[6] != builtin_id(4)[6]);
    assert(builtin_id(0)[6] != builtin_id(5)[6]);
    assert(builtin_id(1)[6] != builtin_id(2)[6]);
    assert(builtin_id(1)[6] != builtin_id(3)[6]);
    assert(builtin_id(1)[7] != builtin_id(4)[7]);
    assert(builtin_id(1)[6] != builtin_id(5)[6]);
    assert(builtin_id(2)[6] != builtin_id(3)[6]);
    assert(builtin_id(2)[6] != builtin_id(4)[6]);
    assert(builtin_id(2)[6] != builtin_id(5)[6]);
    assert(builtin_id(3)[6] != builtin_id(4)[6]);
    assert(builtin_id(3)[6] != builtin_id(5)[6]);
    assert(builtin_id(4)[6] != builtin_id(5)[6]);
}

/// The identity of the built-in model of tier `t`.
pub(crate) fn builtin_id_str(t: usize) -> (r: &'static str)
    ensures
        r@ == builtin_id(t as int),
{
    if t == 1 {
        "qwen3_1_7b_q4_k_m"
    } else if t == 2 {
        "qwen3_4b_q4_k_m"
    } else if t == 3 {
        "qwen3_8b_q4_k_m"
    } else if t == 4 {
        "qwen3_14b_q4_k_m"
    } else if t == 5 {
        "qwen3_32b_q4_k_m"
    } else {
        "qwen3_0_6b_q4_k_m"
    }
}

fn size_label_str(t: usize) -> (r: &'static str)
    ensures
        r@ == size_label(t as int),
{
    if t == 1 {
        "1.7B"
    } else if t == 2 {
        "4B"
    } else if t == 3 {
        "8B"
    } else if t == 4 {
        "14B"
    } else if t == 5 {
        "32B"
    } else {
        "0.6B"
    }
}

/// The tier of a built-in identity.
pub fn builtin_tier(model_id: &str) -> (r: Option<usize>)
    ensures
        match builtin_index(model_id@) {
            Some(t) => r == Some(t as usize),
            None => r is None,
        },
{
    if str_eq(model_id, builtin_id_str(0)) {
        Some(0)
    } else if str_eq(model_id, builtin_id_str(1)) {
        Some(1)
    } else if str_eq(model_id, builtin_id_str(2)) {
        Some(2)
    } else if str_eq(model_id, builtin_id_str(3)) {
        Some(3)
    } else if str_eq(model_id, builtin_id_str(4)) {
        Some(4)
    } else if str_eq(model_id, builtin_id_str(5)) {
        Some(5)
    } else {
        None
    }
}

/// Whether an identity names one of the six built-in models.
pub fn is_builtin_qwen3_model_id(model_id: &str) -> (r: bool)
    ensures
        r == is_builtin(model_id@),
{
    builtin_tier(model_id).is_some()
}

fn builtin_file_chars(t: usize) -> (r: Vec<char>)
    ensures
        r@ == builtin_file(t as int),
{
    let mut v: Vec<char> = Vec::new();
    push_str(&mut v, "Qwen3-");
    push_str(&mut v, size_label_str(t));
    push_str(&mut v, "-Q4_K_M.gguf");
    assert(v@ =~= builtin_file(t as int));
    v
}

fn builtin_repo_chars(t: usize) -> (r: Vec<char>)
    ensures
        r@ == builtin_repo(t as int),
{
    let mut v: Vec<char> = Vec::new();
    push_str(&mut v, "Qwen3-");
    push_str(&mut v, size_label_str(t));
    push_str(&mut v, "-GGUF");
    assert(v@ =~= builtin_repo(t as int));
    v
}

/// The weights file name of a model identity.
pub fn model_file_name(model_id: &str) -> (r: String)
    ensures
        r@ == model_file_name_of(model_id@),
{
    let t = match builtin_tier(model_id) {
        Some(t) => t,
        None => 0,
    };
    let v = builtin_file_chars(t);
    string_of(v.as_slice())
}

/// The file name that an older release used for an identity, if any.
pub open spec fn legacy_file_name_of(id: Seq<char>) -> Option<Seq<char>> {
    if id == "q8_0"@ {
        Some("Qwen3-Embedding-0.6B-Q8_0.gguf"@)
    } else {
        None
    }
}

/// The file name that an older release used for an identity, if any.
pub fn legacy_model_file_name(model_id: &str) -> (r: Option<&'static str>)
    ensures
        match legacy_file_name_of(model_id@) {
            Some(f) => r is Some && r->0@ == f,
            None => r is None,
        },
{
    if str_eq(model_id, "q8_0") {
        Some("Qwen3-Embedding-0.6B-Q8_0.gguf")
    } else {
        None
    }
}

/// The mirror URLs of a model: a ModelScope mirror, then HuggingFace twice
/// (the second a retry); three empty strings for a custom identity.
pub fn model_urls(model_id: &str) -> (r: Vec<String>)
    ensures
        r@.len() == 3,
        forall|k: int| 0 <= k < 3 ==> (#[trigger] r@[k])@ == model_urls_of(model_id@)[k],
{
    match builtin_tier(model_id) {
        Some(t) => {
            let file = builtin_file_chars(t);
            let repo = builtin_repo_chars(t);
            let mut a: Vec<char> = Vec::new();
            push_str(&mut a, "https://www.modelscope.cn/models/unsloth/");
            push_chars(&mut a, repo.as_slice());
            push_str(&mut a, "/resolve/master/");
            push_chars(&mut a, file.as_slice());
            let mut b: Vec<char> = Vec::new();
            push_str(&mut b, "https://huggingface.co/unsloth/");
            push_chars(&mut b, repo.as_slice());
            push_str(&mut b, "/resolve/main/");
            push_chars(&mut b, file.as_slice());
            assert(a@ =~= modelscope_url(t as int));
            assert(b@ =~= huggingface_url(t as int));
            let sa = string_of(a.as_slice());
            let sb = string_of(b.as_slice());
            let sc = string_of(b.as_slice());
            let r = vec![sa, sb, sc];
            assert(r@[0]@ == model_urls_of(model_id@)[0]);
            assert(r@[1]@ == model_urls_of(model_id@)[1]);
            assert(r@[2]@ == model_urls_of(model_id@)[2]);
            r
        },
        None => {
            let r = vec![String::new(), String::new(), String::new()];
            proof {
                reveal_strlit("");
            }
            assert(r@[0]@ == model_urls_of(model_id@)[0]);
            assert(r@[1]@ == model_urls_of(model_id@)[1]);
            assert(r@[2]@ == model_urls_of(model_id@)[2]);
            r
        },
    }
}


/// A character allowed in a model identity.
pub open spec fn is_id_char(c: char) -> bool {
    is_ascii_alnum(c) || c == '_' || c == '-' || c == '.'
}

/// A character of a model identity, with disallowed ones replaced by `_`.
pub open spec fn id_char(c: char) -> char {
    if is_id_char(c) {
        c
    } else {
        '_'
    }
}

/// A valid model identity: 1 to 80 allowed characters.
pub open spec fn valid_model_id(s: Seq<char>) -> bool {
    &&& 0 < s.len() <= 80
    &&& forall|i: int| 0 <= i < s.len() ==> is_id_char(#[trigger] s[i])
}

/// The identity a raw setting stands for: the default when absent or blank;
/// otherwise the whitespace-trimmed text with disallowed characters replaced by
/// `_`, then trimmed of `.`, of `_` and of `-` in turn, falling back to the
/// default when nothing is left, and cut to its first 80 characters.
pub open spec fn sanitized(raw: Option<Seq<char>>) -> Seq<char> {
    let s = match raw {
        Some(x) => x,
        None => default_model_id(),
    };
    let t = trim(s, Trim::Whitespace);
    if t.len() == 0 {
        default_model_id()
    } else {
        let m = t.map_values(|c: char| id_char(c));
        let u = trim(trim(trim(m, Trim::Exactly('.')), Trim::Exactly('_')), Trim::Exactly('-'));
        if u.len() == 0 {
            default_model_id()
        } else if u.len() <= 80 {
            u
        } else {
            u.subrange(0, 80)
        }
    }
}

/// The view of an optional string.
pub open spec fn opt_view(raw: Option<String>) -> Option<Seq<char>> {
    match raw {
        Some(s) => Some(s@),
        None => None,
    }
}

proof fn lemma_default_model_id_valid()
    ensures
        valid_model_id(default_model_id()),
{
    reveal_strlit("qwen3_0_6b_q4_k_m");
    assert(default_model_id() =~= seq![
        'q', 'w', 'e', 'n', '3', '_', '0', '_', '6', 'b', '_', 'q', '4', '_', 'k', '_', 'm',
    ]);
}

/// Sanitising any input, empty, blank, over-long or full of reserved
/// characters, yields a valid identity.
pub proof fn lemma_sanitized_is_valid(raw: Option<Seq<char>>)
    ensures
        valid_model_id(sanitized(raw)),
{
    lemma_default_model_id_valid();
    let s = match raw {
        Some(x) => x,
        None => default_model_id(),
    };
    let t = trim(s, Trim::Whitespace);
    if t.len() != 0 {
        let m = t.map_values(|c: char| id_char(c));
        let p = |c: char| is_id_char(c);
        assert(forall|i: int| 0 <= i < m.len() ==> p(#[trigger] m[i]));
        lemma_trim_keeps(m, Trim::Exactly('.'), p);
        let m1 = trim(m, Trim::Exactly('.'));
        lemma_trim_keeps(m1, Trim::Exactly('_'), p);
        let m2 = trim(m1, Trim::Exactly('_'));
        lemma_trim_keeps(m2, Trim::Exactly('-'), p);
        let u = trim(m2, Trim::Exactly('-'));
        if u.len() > 80 {
            assert(forall|i: int| 0 <= i < 80 ==> u.subrange(0, 80)[i] == u[i]);
        }
    }
}

/// Turns a raw identity setting into a valid identity (see `sanitized`).
pub fn sanitize_model_id(raw: Option<String>) -> (r: String)
    ensures
        r@ == sanitized(opt_view(raw)),
        valid_model_id(r@),
{
    proof {
        lemma_sanitized_is_valid(opt_view(raw));
    }
    let s = match raw {
        Some(x) => chars_of(x.as_str()),
        None => chars_of("qwen3_0_6b_q4_k_m"),
    };
    let t = trimmed(s.as_slice(), Trim::Whitespace);
    if t.len() == 0 {
        return owned("qwen3_0_6b_q4_k_m");
    }
    let mut m: Vec<char> = Vec::new();
    let mut i: usize = 0;
    while i < t.len()
        invariant
            i <= t@.len(),
            m@ == t@.subrange(0, i as int).map_values(|c: char| id_char(c)),
        decreases t@.len() - i,
    {
        let c = t[i];
        let ok = ('A' <= c && c <= 'Z') || ('a' <= c && c <= 'z') || ('0' <= c && c <= '9') || c
            == '_' || c == '-' || c == '.';
        m.push(if ok { c } else { '_' });
        i = i + 1;
        assert(m@ =~= t@.subrange(0, i as int).map_values(|c: char| id_char(c)));
    }
    assert(t@.subrange(0, t@.len() as int) =~= t@);
    let u1 = trimmed(m.as_slice(), Trim::Exactly('.'));
    let u2 = trimmed(u1.as_slice(), Trim::Exactly('_'));
    let u = trimmed(u2.as_slice(), Trim::Exactly('-'));
    if u.len() == 0 {
        return owned("qwen3_0_6b_q4_k_m");
    }
    let n = if u.len() <= 80 {
        u.len()
    } else {
        80
    };
    let out = slice_chars(u.as_slice(), 0, n);
    assert(u.len() <= 80 ==> out@ =~= u@);
    string_of(out.as_slice())
}

/// `s` with every trailing `.gguf` removed.
pub open spec fn strip_gguf(s: Seq<char>) -> Seq<char>
    decreases s.len(),
{
    if s.len() >= 5 && s.subrange(s.len() - 5, s.len() as int) == ".gguf"@ {
        strip_gguf(s.subrange(0, s.len() - 5))
    } else {
        s
    }
}

/// Where a model's file lives: the catalog's file name for a built-in identity,
/// `<id>.gguf` (trailing `.gguf` of the identity dropped first) for a custom one.
pub open spec fn model_file_path_of(dir: Seq<char>, id: Seq<char>) -> Seq<char> {
    if is_builtin(id) {
        path_join(dir, model_file_name_of(id))
    } else {
        path_join(dir, strip_gguf(id) + ".gguf"@)
    }
}

/// Where a model's file lives inside the model directory.
pub fn model_file_path(models_dir: &str, model_id: &str) -> (r: String)
    ensures
        r@ == model_file_path_of(models_dir@, model_id@),
{
    let mut v = chars_of(models_dir);
    push_separator(&mut v);
    if is_builtin_qwen3_model_id(model_id) {
        let name = model_file_name(model_id);
        push_str(&mut v, name.as_str());
        return string_of(v.as_slice());
    }
    let id = chars_of(model_id);
    let ext = chars_of(".gguf");
    proof {
        reveal_strlit(".gguf");
    }
    let mut hi: usize = id.len();
    assert(id@.subrange(0, hi as int) =~= id@);
    while hi >= 5 && ends_at(id.as_slice(), hi, ext.as_slice())
        invariant
            hi <= id@.len(),
            ext@ == ".gguf"@,
            ext@.len() == 5,
            strip_gguf(id@) == strip_gguf(id@.subrange(0, hi as int)),
        decreases hi,
    {
        assert(id@.subrange(0, hi as int).subrange(hi - 5, hi as int) =~= id@.subrange(
            hi - 5,
            hi as int,
        ));
        assert(id@.subrange(0, hi as int).subrange(0, hi - 5) =~= id@.subrange(0, hi - 5));
        hi = hi - 5;
    }
    assert(hi >= 5 ==> id@.subrange(0, hi as int).subrange(hi - 5, hi as int) =~= id@.subrange(
        hi - 5,
        hi as int,
    ));
    let stem = slice_chars(id.as_slice(), 0, hi);
    push_chars(&mut v, stem.as_slice());
    push_chars(&mut v, ext.as_slice());
    string_of(v.as_slice())
}

/// The files that may hold a model: its own path, then the older release's name.
pub fn model_candidate_paths(models_dir: &str, model_id: &str) -> (r: Vec<String>)
    ensures
        r@.len() >= 1,
        r@[0]@ == model_file_path_of(models_dir@, model_id@),
        match legacy_file_name_of(model_id@) {
            Some(f) => r@.len() == 2 && r@[1]@ == path_join(models_dir@, f),
            None => r@.len() == 1,
        },
{
    let mut out: Vec<String> = Vec::new();
    out.push(model_file_path(models_dir, model_id));
    if let Some(legacy) = legacy_model_file_name(model_id) {
        let mut v = chars_of(models_dir);
        push_separator(&mut v);
        push_str(&mut v, legacy);
        out.push(string_of(v.as_slice()));
    }
    out
}


/// The part of `path` below the directory `dir`, if `path` lies inside it.
pub open spec fn relative_to(dir: Seq<char>, path: Seq<char>) -> Option<Seq<char>> {
    let pre = join_prefix(dir);
    if pre.len() <= path.len() && path.subrange(0, pre.len() as int) == pre {
        Some(path.subrange(pre.len() as int, path.len() as int))
    } else {
        None
    }
}

/// The last component of a relative path, if it names a file.
pub open spec fn file_name_of(rel: Seq<char>) -> Option<Seq<char>> {
    let name = rel.subrange(last_index_of(rel, '/') + 1, rel.len() as int);
    if name.len() == 0 || name == "."@ || name == ".."@ {
        None
    } else {
        Some(name)
    }
}

/// A file name without its extension: the part before the last `.`, or the
/// whole name when it has no `.` other than a leading one.
pub open spec fn file_stem_of(name: Seq<char>) -> Seq<char> {
    let d = last_index_of(name, '.');
    if d <= 0 {
        name
    } else {
        name.subrange(0, d)
    }
}

/// The identity of the model stored at `path`: the built-in identity whose file
/// it is, else the sanitised stem of a file inside the model directory.
pub open spec fn model_id_from_path_of(dir: Seq<char>, path: Seq<char>) -> Option<Seq<char>> {
    if path == model_file_path_of(dir, builtin_id(0)) {
        Some(builtin_id(0))
    } else if path == model_file_path_of(dir, builtin_id(1)) {
        Some(builtin_id(1))
    } else if path == model_file_path_of(dir, builtin_id(2)) {
        Some(builtin_id(2))
    } else if path == model_file_path_of(dir, builtin_id(3)) {
        Some(builtin_id(3))
    } else if path == model_file_path_of(dir, builtin_id(4)) {
        Some(builtin_id(4))
    } else if path == model_file_path_of(dir, builtin_id(5)) {
        Some(builtin_id(5))
    } else {
        match relative_to(dir, path) {
            Some(rel) => match file_name_of(rel) {
                Some(name) => Some(sanitized(Some(file_stem_of(name)))),
                None => None,
            },
            None => None,
        }
    }
}

/// The identity of the model stored at `path` in the model directory.
pub fn model_id_from_path(models_dir: &str, path: &str) -> (r: Option<String>)
    ensures
        match model_id_from_path_of(models_dir@, path@) {
            Some(id) => r is Some && r->0@ == id,
            None => r is None,
        },
{
    let p = chars_of(path);
    let mut t: usize = 0;
    while t < 6
        invariant
            p@ == path@,
            t <= 6,
            forall|j: int| 0 <= j < t ==> path@ != #[trigger] model_file_path_of(models_dir@, builtin_id(j)),
        decreases 6 - t,
    {
        let id = builtin_id_str(t);
        let cand = model_file_path(models_dir, id);
        let cv = chars_of(cand.as_str());
        if chars_eq(p.as_slice(), cv.as_slice()) {
            assert(t == 0 || t == 1 || t == 2 || t == 3 || t == 4 || t == 5);
            return Some(owned(id));
        }
        t = t + 1;
    }
    assert(path@ != model_file_path_of(models_dir@, builtin_id(0)));
    assert(path@ != model_file_path_of(models_dir@, builtin_id(1)));
    assert(path@ != model_file_path_of(models_dir@, builtin_id(2)));
    assert(path@ != model_file_path_of(models_dir@, builtin_id(3)));
    assert(path@ != model_file_path_of(models_dir@, builtin_id(4)));
    assert(path@ != model_file_path_of(models_dir@, builtin_id(5)));
    let mut pre = chars_of(models_dir);
    push_separator(&mut pre);
    if pre.len() > p.len() || !ends_at(p.as_slice(), pre.len(), pre.as_slice()) {
        return None;
    }
    let rel = slice_chars(p.as_slice(), pre.len(), p.len());
    let start = match find_last(rel.as_slice(), '/') {
        Some(i) => i + 1,
        None => 0,
    };
    let name = slice_chars(rel.as_slice(), start, rel.len());
    proof {
        reveal_strlit(".");
        reveal_strlit("..");
    }
    let dot1 = chars_of(".");
    let dot2 = chars_of("..");
    if name.len() == 0 || chars_eq(name.as_slice(), dot1.as_slice()) || chars_eq(name.as_slice(), dot2.as_slice()) {
        return None;
    }
    let stem = match find_last(name.as_slice(), '.') {
        Some(d) => if d == 0 {
            slice_chars(name.as_slice(), 0, name.len())
        } else {
            slice_chars(name.as_slice(), 0, d)
        },
        None => slice_chars(name.as_slice(), 0, name.len()),
    };
    assert(name@.subrange(0, name@.len() as int) =~= name@);
    Some(sanitize_model_id(Some(string_of(stem.as_slice()))))
}


/// The six built-in weights files have different names.
pub proof fn lemma_builtin_files_distinct(a: int, b: int)
    requires
        0 <= a < b <= 5,
    ensures
        builtin_file(a) != builtin_file(b),
{
    reveal_strlit("Qwen3-");
    reveal_strlit("0.6B");
    reveal_strlit("1.7B");
    reveal_strlit("4B");
    reveal_strlit("8B");
    reveal_strlit("14B");
    reveal_strlit("32B");
    reveal_strlit("-Q4_K_M.gguf");
    let fa = builtin_file(a);
    let fb = builtin_file(b);
    if fa == fb {
        assert(fa[6] == fb[6] && fa[7] == fb[7]);
        assert(fa.len() == fb.len());
    }
}

/// The model directory's path of a built-in model reads back as that model:
/// after a server starts on a built-in model's file, the running identity is
/// the one requested.
pub proof fn lemma_builtin_path_identifies_model(dir: Seq<char>, t: int)
    requires
        0 <= t <= 5,
    ensures
        model_id_from_path_of(dir, model_file_path_of(dir, builtin_id(t))) == Some(builtin_id(t)),
{
    lemma_builtin_ids_distinct();
    let path = model_file_path_of(dir, builtin_id(t));
    assert forall|j: int| 0 <= j < t implies path != #[trigger] model_file_path_of(dir, builtin_id(j)) by {
        assert(builtin_index(builtin_id(j)) == Some(j));
        assert(builtin_index(builtin_id(t)) == Some(t));
        lemma_builtin_files_distinct(j, t);
        if path == model_file_path_of(dir, builtin_id(j)) {
            crate::text::lemma_path_join_injective(dir, builtin_file(t), builtin_file(j));
        }
    }
    if t == 1 {
        assert(path != model_file_path_of(dir, builtin_id(0)));
    } else if t == 2 {
        assert(path != model_file_path_of(dir, builtin_id(0)));
        assert(path != model_file_path_of(dir, builtin_id(1)));
    } else if t == 3 {
        assert(path != model_file_path_of(dir, builtin_id(0)));
        assert(path != model_file_path_of(dir, builtin_id(1)));
        assert(path != model_file_path_of(dir, builtin_id(2)));
    } else if t == 4 {
        assert(path != model_file_path_of(dir, builtin_id(0)));
        assert(path != model_file_path_of(dir, builtin_id(1)));
        assert(path != model_file_path_of(dir, builtin_id(2)));
        assert(path != model_file_path_of(dir, builtin_id(3)));
    } else if t == 5 {
        assert(path != model_file_path_of(dir, builtin_id(0)));
        assert(path != model_file_path_of(dir, builtin_id(1)));
        assert(path != model_file_path_of(dir, builtin_id(2)));
        assert(path != model_file_path_of(dir, builtin_id(3)));
        assert(path != model_file_path_of(dir, builtin_id(4)));
    }
}

} // verus!
