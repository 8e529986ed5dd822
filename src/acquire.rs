//! The acquisition rules: which runtime archive a platform and configuration
//! use, where archives and models are downloaded from, the order in which
//! sources are tried, the model signature check and the errors reported.

use vstd::prelude::*;
use crate::catalog::{
    builtin_file, builtin_id, builtin_index, file_stem_of, model_urls,
    model_urls_of, sanitize_model_id, sanitized,
};
use crate::config::{Platform, is_gpu_mode, opt_str_view, uses_gpu};
use crate::mirror::strs_view;
use crate::text::{
    chars_of, decimal, eq_ignore_ascii_case, find_last, owned, push_decimal,
    push_str, slice_chars, str_eq, str_eq_ignore_ascii_case, string_of,
};

verus! {

/// The release of the runtime that the archives hold.
pub open spec fn release() -> Seq<char> {
    "b7966"@
}

/// The runtime archive for a platform and configuration.
pub open spec fn runtime_zip_name_of(p: Platform, mode: Seq<char>, backend: Seq<char>, cuda: Seq<char>) -> Seq<char> {
    match p {
        Platform::Windows => if is_gpu_mode(mode) {
            if eq_ignore_ascii_case(backend, "cuda"@) {
                if cuda == "13.1"@ {
                    "llama-b7966-bin-win-cuda-13.1-x64.zip"@
                } else {
                    "llama-b7966-bin-win-cuda-12.4-x64.zip"@
                }
            } else {
                "llama-b7966-bin-win-vulkan-x64.zip"@
            }
        } else {
            "llama-b7966-bin-win-cpu-x64.zip"@
        },
        Platform::MacosArm => "llama-b7966-bin-macos-arm64.tar.gz"@,
        Platform::MacosX64 => "llama-b7966-bin-macos-x64.tar.gz"@,
        Platform::Linux => if is_gpu_mode(mode) {
            "llama-b7966-bin-ubuntu-vulkan-x64.tar.gz"@
        } else {
            "llama-b7966-bin-ubuntu-x64.tar.gz"@
        },
    }
}

/// The runtime archive for a platform and configuration. macOS builds carry
/// Metal and need no variant; Linux has no CUDA build and uses Vulkan.
pub fn default_runtime_zip_name(platform: Platform, compute_mode: &str, gpu_backend: &str, cuda_version: &str) -> (r: &'static str)
    ensures
        r@ == runtime_zip_name_of(platform, compute_mode@, gpu_backend@, cuda_version@),
{
    match platform {
        Platform::Windows => if uses_gpu(compute_mode) {
            if str_eq_ignore_ascii_case(gpu_backend, "cuda") {
                if str_eq(cuda_version, "13.1") {
                    "llama-b7966-bin-win-cuda-13.1-x64.zip"
                } else {
                    "llama-b7966-bin-win-cuda-12.4-x64.zip"
                }
            } else {
                "llama-b7966-bin-win-vulkan-x64.zip"
            }
        } else {
            "llama-b7966-bin-win-cpu-x64.zip"
        },
        Platform::MacosArm => "llama-b7966-bin-macos-arm64.tar.gz",
        Platform::MacosX64 => "llama-b7966-bin-macos-x64.tar.gz",
        Platform::Linux => if uses_gpu(compute_mode) {
            "llama-b7966-bin-ubuntu-vulkan-x64.tar.gz"
        } else {
            "llama-b7966-bin-ubuntu-x64.tar.gz"
        },
    }
}

/// The CUDA runtime libraries archive: needed on Windows with the CUDA backend only.
pub open spec fn cudart_name_of(p: Platform, mode: Seq<char>, backend: Seq<char>, cuda: Seq<char>) -> Option<Seq<char>> {
    if p == Platform::Windows && is_gpu_mode(mode) && eq_ignore_ascii_case(backend, "cuda"@) {
        if cuda == "13.1"@ {
            Some("cudart-llama-bin-win-cuda-13.1-x64.zip"@)
        } else {
            Some("cudart-llama-bin-win-cuda-12.4-x64.zip"@)
        }
    } else {
        None
    }
}

/// The CUDA runtime libraries archive, when the configuration needs one.
pub fn cudart_archive_name(platform: Platform, compute_mode: &str, gpu_backend: &str, cuda_version: &str) -> (r: Option<&'static str>)
    ensures
        opt_str_view(r) == cudart_name_of(platform, compute_mode@, gpu_backend@, cuda_version@),
{
    if platform == Platform::Windows && uses_gpu(compute_mode) && str_eq_ignore_ascii_case(gpu_backend, "cuda") {
        if str_eq(cuda_version, "13.1") {
            Some("cudart-llama-bin-win-cuda-13.1-x64.zip")
        } else {
            Some("cudart-llama-bin-win-cuda-12.4-x64.zip")
        }
    } else {
        None
    }
}

/// The download bases of runtime archives: a regional mirror, then the
/// official release.
pub open spec fn runtime_base_urls_of() -> Seq<Seq<char>> {
    seq![
        "https://www.modelscope.cn/datasets/Lissajous/llamacppforall/resolve/master/b7966"@,
        "https://github.com/ggml-org/llama.cpp/releases/download/b7966"@,
    ]
}

/// The download bases of runtime archives.
pub fn default_runtime_base_urls() -> (r: Vec<String>)
    ensures
        strs_view(r@) == runtime_base_urls_of(),
{
    let r = vec![
        owned("https://www.modelscope.cn/datasets/Lissajous/llamacppforall/resolve/master/b7966"),
        owned("https://github.com/ggml-org/llama.cpp/releases/download/b7966"),
    ];
    assert(strs_view(r@) =~= runtime_base_urls_of());
    r
}

/// The URLs of an archive: the user's own URL alone when one is given,
/// otherwise `<base>/<file>` for each base in order.
pub open spec fn archive_urls_of(bases: Seq<Seq<char>>, file: Seq<char>, custom: Option<Seq<char>>) -> Seq<Seq<char>> {
    match custom {
        Some(c) if c.len() > 0 => seq![c],
        _ => bases.map_values(|b: Seq<char>| b + "/"@ + file),
    }
}

/// The URLs to download an archive from.
pub fn archive_urls(bases: &Vec<String>, file: &str, custom: Option<&str>) -> (r: Vec<String>)
    ensures
        strs_view(r@) == archive_urls_of(strs_view(bases@), file@, opt_str_view(custom)),
{
    if let Some(c) = custom {
        if !c.is_empty() {
            let r = vec![owned(c)];
            assert(strs_view(r@) =~= seq![c@]);
            return r;
        }
    }
    let ghost b = strs_view(bases@);
    let mut r: Vec<String> = Vec::new();
    let mut i: usize = 0;
    while i < bases.len()
        invariant
            b == strs_view(bases@),
            i <= bases@.len(),
            strs_view(r@) == b.subrange(0, i as int).map_values(|x: Seq<char>| x + "/"@ + file@),
        decreases bases@.len() - i,
    {
        assert(b[i as int] == bases@[i as int]@);
        let mut v = chars_of(bases[i].as_str());
        push_str(&mut v, "/");
        push_str(&mut v, file);
        assert(v@ == b[i as int] + "/"@ + file@);
        let ghost before = strs_view(r@);
        r.push(string_of(v.as_slice()));
        assert(strs_view(r@) =~= before.push(b[i as int] + "/"@ + file@));
        i = i + 1;
        assert(strs_view(r@) =~= b.subrange(0, i as int).map_values(|x: Seq<char>| x + "/"@ + file@));
    }
    assert(b.subrange(0, b.len() as int) =~= b);
    r
}

/// The error when a built-in model has no URL.
pub open spec fn no_model_url_message() -> Seq<char> {
    "builtin model URL not configured"@
}

/// The URLs to download a model from: the user's own URL alone when one is
/// given, otherwise the catalog's mirrors; an error when the first is empty.
pub open spec fn model_download_urls_of(id: Seq<char>, custom: Option<Seq<char>>) -> Result<Seq<Seq<char>>, Seq<char>> {
    let urls = match custom {
        Some(c) if c.len() > 0 => seq![c],
        _ => model_urls_of(id),
    };
    if urls[0].len() == 0 {
        Err(no_model_url_message())
    } else {
        Ok(urls)
    }
}

/// The URLs to download a model from.
pub fn model_download_urls(model_id: &str, custom: Option<&str>) -> (r: Result<Vec<String>, String>)
    ensures
        match model_download_urls_of(model_id@, opt_str_view(custom)) {
            Ok(u) => r is Ok && strs_view(r->Ok_0@) == u,
            Err(e) => r is Err && r->Err_0@ == e,
        },
{
    let urls = match custom {
        Some(c) => if !c.is_empty() {
            vec![owned(c)]
        } else {
            model_urls(model_id)
        },
        None => model_urls(model_id),
    };
    let ghost expect = match opt_str_view(custom) {
        Some(c) if c.len() > 0 => seq![c],
        _ => model_urls_of(model_id@),
    };
    assert(strs_view(urls@) =~= expect);
    if urls[0].as_str().is_empty() {
        return Err(owned("builtin model URL not configured"));
    }
    Ok(urls)
}

/// The sources of a runtime, tried in this order until the executable is found.
#[derive(Clone, Copy, Debug, PartialEq, Eq, Structural)]
pub enum RuntimeStage {
    /// Already installed in its directory.
    Installed,
    /// Copied from a runtime directory bundled with the application.
    BundledDirectory,
    /// Extracted from an archive bundled with the application.
    BundledArchive,
    /// Downloaded from the fastest mirror and extracted.
    Download,
}

/// The source after `stage`, if any: downloads are off when only bundled
/// runtimes can run on this system.
pub open spec fn next_runtime_stage_of(stage: RuntimeStage, bundled_only: bool) -> Option<RuntimeStage> {
    match stage {
        RuntimeStage::Installed => Some(RuntimeStage::BundledDirectory),
        RuntimeStage::BundledDirectory => Some(RuntimeStage::BundledArchive),
        RuntimeStage::BundledArchive => if bundled_only {
            None
        } else {
            Some(RuntimeStage::Download)
        },
        RuntimeStage::Download => None,
    }
}

/// The source to try after `stage` did not yield the executable.
pub fn next_runtime_stage(stage: RuntimeStage, bundled_only: bool) -> (r: Option<RuntimeStage>)
    ensures
        r == next_runtime_stage_of(stage, bundled_only),
{
    match stage {
        RuntimeStage::Installed => Some(RuntimeStage::BundledDirectory),
        RuntimeStage::BundledDirectory => Some(RuntimeStage::BundledArchive),
        RuntimeStage::BundledArchive => if bundled_only {
            None
        } else {
            Some(RuntimeStage::Download)
        },
        RuntimeStage::Download => None,
    }
}

/// With only bundled runtimes usable, no stage downloads.
pub proof fn lemma_bundled_only_never_downloads(stage: RuntimeStage)
    ensures
        next_runtime_stage_of(stage, true) != Some(RuntimeStage::Download),
{
}

/// The error when no source yielded the runtime.
pub open spec fn runtime_missing_message_of(bundled_only: bool, mode: Seq<char>, backend: Seq<char>, dir: Seq<char>, cuda: Seq<char>) -> Seq<char> {
    if bundled_only {
        "Bundled LLM runtime not found for "@ + mode + " / "@ + backend
            + ". This system (glibc < 2.34) cannot use downloaded runtimes, which were compiled for newer systems. Please re-install the application or contact support."@
    } else {
        "builtin LLM runtime not found. Please place llama-server under: "@ + dir + " (computeMode="@
            + mode + ", gpuBackend="@ + backend + ", cudaVersion="@ + cuda + ")"@
    }
}

/// The error when no source yielded the runtime.
pub fn runtime_missing_message(bundled_only: bool, compute_mode: &str, gpu_backend: &str, runtime_dir: &str, cuda_version: &str) -> (r: String)
    ensures
        r@ == runtime_missing_message_of(bundled_only, compute_mode@, gpu_backend@, runtime_dir@, cuda_version@),
{
    let mut v: Vec<char> = Vec::new();
    if bundled_only {
        push_str(&mut v, "Bundled LLM runtime not found for ");
        push_str(&mut v, compute_mode);
        push_str(&mut v, " / ");
        push_str(&mut v, gpu_backend);
        push_str(&mut v, ". This system (glibc < 2.34) cannot use downloaded runtimes, which were compiled for newer systems. Please re-install the application or contact support.");
    } else {
        push_str(&mut v, "builtin LLM runtime not found. Please place llama-server under: ");
        push_str(&mut v, runtime_dir);
        push_str(&mut v, " (computeMode=");
        push_str(&mut v, compute_mode);
        push_str(&mut v, ", gpuBackend=");
        push_str(&mut v, gpu_backend);
        push_str(&mut v, ", cudaVersion=");
        push_str(&mut v, cuda_version);
        push_str(&mut v, ")");
    }
    assert(v@ =~= runtime_missing_message_of(bundled_only, compute_mode@, gpu_backend@, runtime_dir@, cuda_version@));
    string_of(v.as_slice())
}

/// What to do to make a model available.
pub enum ModelStep {
    /// A candidate file is present: use it.
    UseExisting,
    /// Copy the bundled copy into place.
    CopyBundled,
    /// Download it from its mirrors, then check its signature.
    Download,
    /// Give up with this message.
    Fail(String),
}

/// The error for a custom model that is not present.
pub open spec fn custom_missing_message() -> Seq<char> {
    "custom model not found. Please import a GGUF file from Settings."@
}

/// The error for a built-in model that is neither present nor bundled when
/// downloads are off.
pub open spec fn builtin_missing_message() -> Seq<char> {
    "builtin model not found. Please bundle it under resources/llm/models or import it from Settings."@
}

/// The resolution order of a model: present, then (built-in models only)
/// bundled, then downloaded when allowed.
pub fn model_step(present: bool, builtin: bool, bundled: bool, allow_download: bool) -> (r: ModelStep)
    ensures
        present ==> r is UseExisting,
        !present && !builtin ==> r is Fail && r->Fail_0@ == custom_missing_message(),
        !present && builtin && bundled ==> r is CopyBundled,
        !present && builtin && !bundled && !allow_download ==> r is Fail && r->Fail_0@
            == builtin_missing_message(),
        !present && builtin && !bundled && allow_download ==> r is Download,
{
    if present {
        ModelStep::UseExisting
    } else if !builtin {
        ModelStep::Fail(owned("custom model not found. Please import a GGUF file from Settings."))
    } else if bundled {
        ModelStep::CopyBundled
    } else if !allow_download {
        ModelStep::Fail(owned("builtin model not found. Please bundle it under resources/llm/models or import it from Settings."))
    } else {
        ModelStep::Download
    }
}

/// The signature a model file starts with.
pub open spec fn gguf_magic() -> Seq<u8> {
    seq![0x47u8, 0x47u8, 0x55u8, 0x46u8]
}

/// Whether the first bytes of a file are the model format's signature.
pub fn has_gguf_signature(head: &[u8]) -> (r: bool)
    ensures
        r == (head@.len() >= 4 && head@.subrange(0, 4) == gguf_magic()),
{
    if head.len() < 4 {
        return false;
    }
    let ok = head[0] == 0x47 && head[1] == 0x47 && head[2] == 0x55 && head[3] == 0x46;
    assert(ok ==> head@.subrange(0, 4) =~= gguf_magic());
    assert(head@.subrange(0, 4) == gguf_magic() ==> head@.subrange(0, 4)[0] == 0x47 && head@.subrange(0, 4)[1] == 0x47
        && head@.subrange(0, 4)[2] == 0x55 && head@.subrange(0, 4)[3] == 0x46);
    ok
}

/// The error for a downloaded file without the signature.
pub open spec fn bad_download_message() -> Seq<char> {
    "downloaded model is not a GGUF file (signature mismatch)"@
}

/// The error for an imported file without the signature.
pub open spec fn bad_import_message() -> Seq<char> {
    "imported model is not a GGUF file (signature mismatch)"@
}

/// The check after a model was downloaded or imported: the file is kept only
/// with the signature; otherwise it is deleted and this error reported.
pub fn check_model_signature(head: &[u8], imported: bool) -> (r: Result<(), String>)
    ensures
        (head@.len() >= 4 && head@.subrange(0, 4) == gguf_magic()) ==> r is Ok,
        !(head@.len() >= 4 && head@.subrange(0, 4) == gguf_magic()) ==> r is Err && r->Err_0@ == (
            if imported { bad_import_message() } else { bad_download_message() }),
{
    if has_gguf_signature(head) {
        Ok(())
    } else if imported {
        Err(owned("imported model is not a GGUF file (signature mismatch)"))
    } else {
        Err(owned("downloaded model is not a GGUF file (signature mismatch)"))
    }
}

/// The error for deleting the model that is running.
pub open spec fn delete_running_message() -> Seq<char> {
    "Cannot delete a model that is currently running. Stop it first."@
}

/// A model that is running cannot be deleted; the check is made before any file
/// is touched.
pub fn check_model_deletable(running_model_id: Option<&str>, model_id: &str) -> (r: Result<(), String>)
    ensures
        running_model_id is Some && running_model_id->0@ == model_id@ ==> r is Err && r->Err_0@
            == delete_running_message(),
        !(running_model_id is Some && running_model_id->0@ == model_id@) ==> r is Ok,
{
    match running_model_id {
        Some(id) => if str_eq(id, model_id) {
            Err(owned("Cannot delete a model that is currently running. Stop it first."))
        } else {
            Ok(())
        },
        None => Ok(()),
    }
}

/// The error when no file of a model was there to delete.
pub open spec fn model_not_found_message(id: Seq<char>) -> Seq<char> {
    "Model file not found for '"@ + id + "'"@
}

/// The error when no file of a model was there to delete.
pub fn model_not_found(model_id: &str) -> (r: String)
    ensures
        r@ == model_not_found_message(model_id@),
{
    let mut v: Vec<char> = Vec::new();
    push_str(&mut v, "Model file not found for '");
    push_str(&mut v, model_id);
    push_str(&mut v, "'");
    assert(v@ =~= model_not_found_message(model_id@));
    string_of(v.as_slice())
}

/// The file name of the `i`-th numbered copy of a model whose file has the stem `stem`.
pub open spec fn numbered_file_name_of(stem: Seq<char>, i: u32) -> Seq<char> {
    stem + "-"@ + decimal(i as nat) + ".gguf"@
}

/// The file name tried for an imported model when its own name is taken:
/// `<stem>-<i>.gguf`, for i from 1 to 999.
pub fn numbered_file_name(stem: &str, i: u32) -> (r: String)
    ensures
        r@ == numbered_file_name_of(stem@, i),
{
    let mut v = chars_of(stem);
    push_str(&mut v, "-");
    push_decimal(&mut v, i as u64);
    push_str(&mut v, ".gguf");
    assert(v@ =~= numbered_file_name_of(stem@, i));
    string_of(v.as_slice())
}

/// The identity listed for a model file: the built-in identity whose file it
/// is, else the sanitised stem of the file name.
pub open spec fn listed_model_id_of(file_name: Seq<char>) -> Seq<char> {
    if file_name == builtin_file(0) {
        builtin_id(0)
    } else if file_name == builtin_file(1) {
        builtin_id(1)
    } else if file_name == builtin_file(2) {
        builtin_id(2)
    } else if file_name == builtin_file(3) {
        builtin_id(3)
    } else if file_name == builtin_file(4) {
        builtin_id(4)
    } else if file_name == builtin_file(5) {
        builtin_id(5)
    } else {
        sanitized(Some(file_stem_of(file_name)))
    }
}

/// The identity listed for a model file in the model directory.
pub fn listed_model_id(file_name: &str) -> (r: String)
    ensures
        r@ == listed_model_id_of(file_name@),
{
    let mut t: usize = 0;
    while t < 6
        invariant
            t <= 6,
            forall|j: int| 0 <= j < t ==> file_name@ != #[trigger] builtin_file(j),
        decreases 6 - t,
    {
        let f = crate::catalog::model_file_name(crate::catalog::builtin_id_str(t));
        proof {
            assert(builtin_index(builtin_id(t as int)) == Some(t as int)) by {
                crate::catalog::lemma_builtin_ids_distinct();
            }
        }
        if str_eq(f.as_str(), file_name) {
            assert(t == 0 || t == 1 || t == 2 || t == 3 || t == 4 || t == 5);
            return owned(crate::catalog::builtin_id_str(t));
        }
        t = t + 1;
    }
    assert(file_name@ != builtin_file(0));
    assert(file_name@ != builtin_file(1));
    assert(file_name@ != builtin_file(2));
    assert(file_name@ != builtin_file(3));
    assert(file_name@ != builtin_file(4));
    assert(file_name@ != builtin_file(5));
    let v = chars_of(file_name);
    let stem = match find_last(v.as_slice(), '.') {
        Some(d) => if d == 0 {
            slice_chars(v.as_slice(), 0, v.len())
        } else {
            slice_chars(v.as_slice(), 0, d)
        },
        None => slice_chars(v.as_slice(), 0, v.len()),
    };
    assert(v@.subrange(0, v@.len() as int) =~= v@);
    sanitize_model_id(Some(string_of(stem.as_slice())))
}


/// A model file found in the model directory.
pub struct BuiltinModelInfo {
    pub model_id: String,
    pub file_name: String,
    pub size: u64,
}

/// The listing entry of a model file.
pub fn model_info(file_name: &str, size: u64) -> (r: BuiltinModelInfo)
    ensures
        r.model_id@ == listed_model_id_of(file_name@),
        r.file_name@ == file_name@,
        r.size == size,
{
    BuiltinModelInfo { model_id: listed_model_id(file_name), file_name: owned(file_name), size }
}

/// `a` comes before or equals `b` in the order of their characters, which is
/// the order of their UTF-8 bytes.
pub open spec fn lex_le(a: Seq<char>, b: Seq<char>) -> bool
    decreases a.len(),
{
    if a.len() == 0 {
        true
    } else if b.len() == 0 {
        false
    } else if a[0] != b[0] {
        a[0] < b[0]
    } else {
        lex_le(a.drop_first(), b.drop_first())
    }
}

/// Of two sequences, one comes first.
pub proof fn lemma_lex_total(a: Seq<char>, b: Seq<char>)
    ensures
        lex_le(a, b) || lex_le(b, a),
    decreases a.len(),
{
    if a.len() > 0 && b.len() > 0 && a[0] == b[0] {
        lemma_lex_total(a.drop_first(), b.drop_first());
    }
}

fn lex_le_exec(a: &[char], b: &[char]) -> (r: bool)
    ensures
        r == lex_le(a@, b@),
{
    let mut i: usize = 0;
    assert(a@.subrange(0, a@.len() as int) =~= a@);
    assert(b@.subrange(0, b@.len() as int) =~= b@);
    while i < a.len() && i < b.len() && a[i] == b[i]
        invariant
            i <= a@.len(),
            i <= b@.len(),
            lex_le(a@, b@) == lex_le(a@.subrange(i as int, a@.len() as int), b@.subrange(i as int, b@.len() as int)),
        decreases a@.len() - i,
    {
        assert(a@.subrange(i as int, a@.len() as int).drop_first() =~= a@.subrange(i + 1, a@.len() as int));
        assert(b@.subrange(i as int, b@.len() as int).drop_first() =~= b@.subrange(i + 1, b@.len() as int));
        i = i + 1;
    }
    if i == a.len() {
        true
    } else if i == b.len() {
        false
    } else {
        a[i] < b[i]
    }
}

/// Listing entries in order of identity.
pub open spec fn sorted_by_id(s: Seq<BuiltinModelInfo>) -> bool {
    forall|i: int| 0 <= i < s.len() - 1 ==> lex_le(#[trigger] s[i].model_id@, s[i + 1].model_id@)
}

/// The listing in order of model identity.
pub fn sort_models(items: Vec<BuiltinModelInfo>) -> (r: Vec<BuiltinModelInfo>)
    ensures
        sorted_by_id(r@),
        r@.to_multiset() == items@.to_multiset(),
{
    broadcast use vstd::seq_lib::group_to_multiset_ensures;
    let mut rest = items;
    let mut r: Vec<BuiltinModelInfo> = Vec::new();
    while rest.len() > 0
        invariant
            sorted_by_id(r@),
            r@.to_multiset().add(rest@.to_multiset()) == items@.to_multiset(),
        decreases rest@.len(),
    {
        let ghost before_rest = rest@;
        let x = rest.pop().unwrap();
        assert(before_rest =~= rest@.push(x));
        let xv = chars_of(x.model_id.as_str());
        let mut p: usize = 0;
        let mut go = true;
        while go && p < r.len()
            invariant
                p <= r@.len(),
                xv@ == x.model_id@,
                p > 0 ==> lex_le(r@[p - 1].model_id@, x.model_id@),
                !go ==> p < r@.len() && !lex_le(r@[p as int].model_id@, x.model_id@),
            decreases r@.len() - p + (if go { 1int } else { 0int }),
        {
            let cv = chars_of(r[p].model_id.as_str());
            if lex_le_exec(cv.as_slice(), xv.as_slice()) {
                p = p + 1;
            } else {
                go = false;
            }
        }
        let ghost old_r = r@;
        proof {
            if p < old_r.len() {
                lemma_lex_total(old_r[p as int].model_id@, x.model_id@);
            }
        }
        let ghost xg = x;
        r.insert(p, x);
        assert(r@ == old_r.insert(p as int, xg));
        proof {
            vstd::seq_lib::to_multiset_build(rest@, xg);
            vstd::seq_lib::to_multiset_insert(old_r, p as int, xg);
        }
        assert(before_rest.to_multiset() == rest@.to_multiset().insert(xg));
        assert(r@.to_multiset() == old_r.to_multiset().insert(xg));
        assert(r@.to_multiset().add(rest@.to_multiset()) =~= old_r.to_multiset().add(before_rest.to_multiset()));
        assert forall|i: int| 0 <= i < r@.len() - 1 implies lex_le(#[trigger] r@[i].model_id@, r@[i + 1].model_id@) by {
            if i < p - 1 {
                assert(r@[i] == old_r[i] && r@[i + 1] == old_r[i + 1]);
            } else if i == p - 1 {
            } else if i == p {
            } else {
                assert(r@[i] == old_r[i - 1] && r@[i + 1] == old_r[i]);
            }
        }
    }
    r
}

} // verus!
