//! What the Hugging Face client decides from the repository's file list and
//! shard index.
use crate::json::{json_get, json_text, JsonNumber, JsonValue};
use crate::text::{
    concat3, ends_with_str, has_suffix, join, join_strings, owned, sorted_unique_texts, string_views,
    strictly_sorted, text_eq, trim_end_char, trimmed_end, chars_of,
};
use vstd::prelude::*;

verus! {

/// A file of a repository, with its size when the manifest gives it.
#[derive(Debug)]
pub struct HfSiblingFile {
    pub name: String,
    pub size_bytes: Option<u64>,
}

/// A number that is a `u64` (`Value::as_u64`).
pub open spec fn json_u64(v: Option<JsonValue>) -> Option<u64> {
    match v {
        Some(JsonValue::Number(JsonNumber::PosInt(u))) => Some(u),
        _ => None,
    }
}

/// The file described by a manifest entry, if it names one.
pub open spec fn sibling_of(s: JsonValue) -> Option<(Seq<char>, Option<u64>)> {
    match json_text(json_get(s, "rfilename"@)) {
        Some(name) => Some((name, json_u64(json_get(s, "size"@)))),
        None => None,
    }
}

/// The files described by the manifest entries `items`, in order.
pub open spec fn siblings_of_items(items: Seq<JsonValue>) -> Seq<(Seq<char>, Option<u64>)>
    decreases items.len(),
{
    if items.len() == 0 {
        Seq::empty()
    } else {
        siblings_of_items(items.drop_last()) + match sibling_of(items.last()) {
            Some(f) => seq![f],
            None => Seq::empty(),
        }
    }
}

/// The files that a repository manifest lists under `siblings`.
pub open spec fn manifest_files(manifest: JsonValue) -> Seq<(Seq<char>, Option<u64>)> {
    match json_get(manifest, "siblings"@) {
        Some(JsonValue::Array(items)) => siblings_of_items(items@),
        _ => Seq::empty(),
    }
}

/// The view of a list of files.
pub open spec fn file_views(v: Seq<HfSiblingFile>) -> Seq<(Seq<char>, Option<u64>)> {
    v.map_values(|f: HfSiblingFile| (f.name@, f.size_bytes))
}

/// The files listed in a repository manifest.
pub fn extract_sibling_files(manifest: &JsonValue) -> (r: Vec<HfSiblingFile>)
    ensures
        file_views(r@) == manifest_files(*manifest),
{
    let mut out: Vec<HfSiblingFile> = Vec::new();
    match manifest.get("siblings") {
        Some(JsonValue::Array(items)) => {
            let mut i: usize = 0;
            while i < items.len()
                invariant
                    i <= items.len(),
                    file_views(out@) == siblings_of_items(items@.take(i as int)),
                decreases items.len() - i,
            {
                proof {
                    assert(items@.take(i + 1).drop_last() =~= items@.take(i as int));
                }
                let s = &items[i];
                let name = match s.get("rfilename") {
                    Some(v) => v.as_str(),
                    None => None,
                };
                if let Some(n) = name {
                    let size_bytes = match s.get("size") {
                        Some(JsonValue::Number(JsonNumber::PosInt(u))) => Some(*u),
                        _ => None,
                    };
                    let ghost before = out@;
                    out.push(HfSiblingFile { name: owned(n), size_bytes });
                    assert(file_views(out@) =~= file_views(before).push((n@, size_bytes)));
                }
                i += 1;
            }
            assert(items@.take(items.len() as int) =~= items@);
        },
        _ => {},
    }
    out
}

/// The cache directory name of a repository.
pub fn sanitize_repo_id(repo_id: &str) -> (r: String)
    ensures
        r@ == repo_id@,
{
    owned(repo_id)
}

/// The download address of a file of a repository.
pub open spec fn resolve_url_text(base: Seq<char>, repo_id: Seq<char>, file: Seq<char>) -> Seq<char> {
    trimmed_end(base, '/') + "/"@ + repo_id + "/resolve/main/"@ + file
}

/// The download address of a file of a repository: the base without trailing
/// slashes, the repository, `resolve/main` and the file.
pub fn resolve_url(base: &str, repo_id: &str, file: &str) -> (r: String)
    ensures
        r@ == resolve_url_text(base@, repo_id@, file@),
{
    let mut r = trim_end_char(base, '/');
    r.append("/");
    r.append(repo_id);
    r.append("/resolve/main/");
    r.append(file);
    r
}

/// Whether the repository has a `config.json`.
pub fn has_config_file(files: &Vec<HfSiblingFile>) -> (r: bool)
    ensures
        r == exists|i: int| 0 <= i < files@.len() && #[trigger] files@[i].name@ == "config.json"@,
{
    let mut i: usize = 0;
    while i < files.len()
        invariant
            i <= files.len(),
            forall|j: int| 0 <= j < i ==> #[trigger] files@[j].name@ != "config.json"@,
        decreases files.len() - i,
    {
        if text_eq(files[i].name.as_str(), "config.json") {
            return true;
        }
        i += 1;
    }
    false
}

/// The name of the first shard index listed, if any.
pub open spec fn first_index_file(files: Seq<HfSiblingFile>) -> Option<Seq<char>>
    decreases files.len(),
{
    if files.len() == 0 {
        None
    } else {
        match first_index_file(files.drop_last()) {
            Some(n) => Some(n),
            None => if has_suffix(files.last().name@, "model.safetensors.index.json"@) {
                Some(files.last().name@)
            } else {
                None
            },
        }
    }
}

proof fn lemma_first_index_file_prefix(files: Seq<HfSiblingFile>, k: int)
    requires
        0 <= k <= files.len(),
        first_index_file(files.take(k)) is Some,
    ensures
        first_index_file(files) == first_index_file(files.take(k)),
    decreases files.len() - k,
{
    if k < files.len() {
        assert(files.take(k + 1).drop_last() =~= files.take(k));
        lemma_first_index_file_prefix(files, k + 1);
    } else {
        assert(files.take(k) =~= files);
    }
}

/// The name of the first shard index (`…model.safetensors.index.json`) listed.
pub fn index_file_name(files: &Vec<HfSiblingFile>) -> (r: Option<String>)
    ensures
        crate::types::opt_view(r) == first_index_file(files@),
{
    let mut i: usize = 0;
    while i < files.len()
        invariant
            i <= files.len(),
            first_index_file(files@.take(i as int)) is None,
        decreases files.len() - i,
    {
        proof {
            assert(files@.take(i + 1).drop_last() =~= files@.take(i as int));
        }
        let name = chars_of(files[i].name.as_str());
        if ends_with_str(&name, "model.safetensors.index.json") {
            proof {
                assert(files@.take(i + 1).last() == files@[i as int]);
                lemma_first_index_file_prefix(files@, i as int + 1);
            }
            return Some(files[i].name.clone());
        }
        i += 1;
    }
    assert(files@.take(files.len() as int) =~= files@);
    None
}

/// The repository lists a `config.json`.
pub open spec fn lists_config(files: Seq<HfSiblingFile>) -> bool {
    exists|i: int| 0 <= i < files.len() && #[trigger] files[i].name@ == "config.json"@
}

/// The next download when resolving a repository.
#[derive(Debug)]
pub enum HfFetch {
    /// The configuration.
    Config,
    /// The shard index of this name.
    Index(String),
    /// The header of the shard at this position in the shard list.
    Header(usize),
    /// Nothing more.
    Done,
}

/// What to download next, given the listed files and how far resolution has
/// come: the configuration first, when it is listed; then the shard index, when
/// one is listed; then the header of every shard, in order; then nothing.
pub open spec fn next_fetch_ok(
    r: HfFetch,
    files: Seq<HfSiblingFile>,
    config_done: bool,
    index_done: bool,
    shard_count: nat,
    headers_done: nat,
) -> bool {
    let config_pending = !config_done && lists_config(files);
    let index_pending = !index_done && first_index_file(files) is Some;
    match r {
        HfFetch::Config => config_pending,
        HfFetch::Index(n) => !config_pending && index_pending && first_index_file(files) == Some(n@),
        HfFetch::Header(i) => !config_pending && !index_pending && headers_done < shard_count && i
            == headers_done,
        HfFetch::Done => !config_pending && !index_pending && headers_done >= shard_count,
    }
}

/// The next download when resolving a repository.
pub fn next_hf_fetch(
    files: &Vec<HfSiblingFile>,
    config_done: bool,
    index_done: bool,
    shard_count: usize,
    headers_done: usize,
) -> (r: HfFetch)
    ensures
        next_fetch_ok(r, files@, config_done, index_done, shard_count as nat, headers_done as nat),
{
    if !config_done && has_config_file(files) {
        return HfFetch::Config;
    }
    if !index_done {
        if let Some(n) = index_file_name(files) {
            return HfFetch::Index(n);
        }
    }
    if headers_done < shard_count {
        HfFetch::Header(headers_done)
    } else {
        HfFetch::Done
    }
}

/// The texts among the values of the members of `entries`.
pub open spec fn text_values(entries: Seq<(String, JsonValue)>) -> Seq<Seq<char>>
    decreases entries.len(),
{
    if entries.len() == 0 {
        Seq::empty()
    } else {
        text_values(entries.drop_last()) + match json_text(Some(entries.last().1)) {
            Some(t) => seq![t],
            None => Seq::empty(),
        }
    }
}

/// The shard files that an index names in its `weight_map`.
pub open spec fn index_shards(index: JsonValue) -> Seq<Seq<char>> {
    match json_get(index, "weight_map"@) {
        Some(JsonValue::Object(entries)) => text_values(entries@),
        _ => Seq::empty(),
    }
}

/// The distinct shard files that an index names, in increasing order.
pub fn shard_files_from_index(index: &JsonValue) -> (r: Vec<String>)
    ensures
        strictly_sorted(string_views(r@)),
        forall|t: Seq<char>| string_views(r@).contains(t) <==> index_shards(*index).contains(t),
{
    let mut names: Vec<String> = Vec::new();
    match index.get("weight_map") {
        Some(JsonValue::Object(entries)) => {
            let mut i: usize = 0;
            while i < entries.len()
                invariant
                    i <= entries.len(),
                    string_views(names@) == text_values(entries@.take(i as int)),
                decreases entries.len() - i,
            {
                proof {
                    assert(entries@.take(i + 1).drop_last() =~= entries@.take(i as int));
                    assert(entries@.take(i + 1).last() == entries@[i as int]);
                }
                if let Some(t) = entries[i].1.as_str() {
                    let ghost before = names@;
                    names.push(owned(t));
                    assert(string_views(names@) =~= string_views(before).push(t@));
                }
                i += 1;
            }
            assert(entries@.take(entries.len() as int) =~= entries@);
        },
        _ => {},
    }
    sorted_unique_texts(&names)
}

/// The names of the listed files that end in `.safetensors`.
pub open spec fn safetensors_names(files: Seq<HfSiblingFile>) -> Seq<Seq<char>>
    decreases files.len(),
{
    if files.len() == 0 {
        Seq::empty()
    } else {
        safetensors_names(files.drop_last()) + if has_suffix(files.last().name@, ".safetensors"@) {
            seq![files.last().name@]
        } else {
            Seq::empty()
        }
    }
}

/// The distinct listed files that end in `.safetensors`, in increasing order.
pub fn shard_files_from_listing(files: &Vec<HfSiblingFile>) -> (r: Vec<String>)
    ensures
        strictly_sorted(string_views(r@)),
        forall|t: Seq<char>| string_views(r@).contains(t) <==> safetensors_names(files@).contains(t),
{
    let mut names: Vec<String> = Vec::new();
    let mut i: usize = 0;
    while i < files.len()
        invariant
            i <= files.len(),
            string_views(names@) == safetensors_names(files@.take(i as int)),
        decreases files.len() - i,
    {
        proof {
            assert(files@.take(i + 1).drop_last() =~= files@.take(i as int));
            assert(files@.take(i + 1).last() == files@[i as int]);
        }
        let name = chars_of(files[i].name.as_str());
        if ends_with_str(&name, ".safetensors") {
            let ghost before = names@;
            names.push(files[i].name.clone());
            assert(string_views(names@) =~= string_views(before).push(files@[i as int].name@));
        }
        i += 1;
    }
    assert(files@.take(files.len() as int) =~= files@);
    sorted_unique_texts(&names)
}

/// The size the listing gives for the first file named `name`.
pub open spec fn listed_size(files: Seq<HfSiblingFile>, name: Seq<char>) -> Option<u64>
    decreases files.len(),
{
    if files.len() == 0 {
        None
    } else {
        match first_named(files.drop_last(), name) {
            true => listed_size(files.drop_last(), name),
            false => if files.last().name@ == name {
                files.last().size_bytes
            } else {
                None
            },
        }
    }
}

/// Whether some listed file is named `name`.
pub open spec fn first_named(files: Seq<HfSiblingFile>, name: Seq<char>) -> bool {
    exists|j: int| 0 <= j < files.len() && #[trigger] files[j].name@ == name
}

/// The listing gives the size of every one of `files`.
pub open spec fn all_sizes_known(files: Seq<Seq<char>>, listing: Seq<HfSiblingFile>) -> bool {
    forall|i: int| 0 <= i < files.len() ==> listed_size(listing, #[trigger] files[i]) is Some
}

/// The sum of the listed sizes of `files`.
pub open spec fn size_sum(files: Seq<Seq<char>>, listing: Seq<HfSiblingFile>) -> nat
    decreases files.len(),
{
    if files.len() == 0 {
        0
    } else {
        size_sum(files.drop_last(), listing) + match listed_size(listing, files.last()) {
            Some(v) => v as nat,
            None => 0,
        }
    }
}

fn size_of_file(listing: &Vec<HfSiblingFile>, name: &str) -> (r: Option<u64>)
    ensures
        r == listed_size(listing@, name@),
{
    let mut i: usize = 0;
    while i < listing.len()
        invariant
            i <= listing.len(),
            !first_named(listing@.take(i as int), name@),
            listed_size(listing@.take(i as int), name@) is None,
        decreases listing.len() - i,
    {
        proof {
            assert(listing@.take(i + 1).drop_last() =~= listing@.take(i as int));
            assert(listing@.take(i + 1).last() == listing@[i as int]);
        }
        if text_eq(listing[i].name.as_str(), name) {
            proof {
                lemma_listed_size_prefix(listing@, name@, i as int + 1);
            }
            return listing[i].size_bytes;
        }
        proof {
            assert forall|j: int| 0 <= j < i + 1 implies #[trigger] listing@.take(i + 1)[j].name@ != name@ by {
                if j < i {
                    assert(listing@.take(i + 1)[j] == listing@.take(i as int)[j]);
                }
            }
        }
        i += 1;
    }
    assert(listing@.take(listing.len() as int) =~= listing@);
    None
}

proof fn lemma_listed_size_prefix(files: Seq<HfSiblingFile>, name: Seq<char>, k: int)
    requires
        0 <= k <= files.len(),
        first_named(files.take(k), name),
    ensures
        listed_size(files, name) == listed_size(files.take(k), name),
        first_named(files, name),
    decreases files.len() - k,
{
    if k < files.len() {
        assert(files.take(k + 1).drop_last() =~= files.take(k));
        let j = choose|j: int| 0 <= j < files.take(k).len() && #[trigger] files.take(k)[j].name@ == name;
        assert(files.take(k + 1)[j] == files.take(k)[j]);
        lemma_listed_size_prefix(files, name, k + 1);
    } else {
        assert(files.take(k) =~= files);
    }
}

/// The total size of the shard files, when the listing gives the size of every
/// one of them (the sum saturating at `u64::MAX`); nothing when a size is
/// missing or there are no shard files.
pub fn shard_total_size(files: &Vec<String>, listing: &Vec<HfSiblingFile>) -> (r: Option<u64>)
    ensures
        r is Some <==> files@.len() > 0 && all_sizes_known(string_views(files@), listing@),
        r matches Some(v) ==> v == crate::analyzer::param_counter::saturate(
            size_sum(string_views(files@), listing@),
        ),
{
    let ghost fv = string_views(files@);
    let mut all_known = files.len() > 0;
    let mut total: u64 = 0;
    let mut i: usize = 0;
    while i < files.len()
        invariant
            i <= files.len(),
            fv == string_views(files@),
            all_known == (files@.len() > 0 && all_sizes_known(fv.take(i as int), listing@)),
            total == crate::analyzer::param_counter::saturate(size_sum(fv.take(i as int), listing@)),
        decreases files.len() - i,
    {
        proof {
            assert(fv.take(i + 1).drop_last() =~= fv.take(i as int));
            assert(fv.take(i + 1).last() == files@[i as int]@);
        }
        let size = size_of_file(listing, files[i].as_str());
        match size {
            Some(v) => total = total.saturating_add(v),
            None => all_known = false,
        }
        proof {
            if all_known {
                assert forall|j: int| 0 <= j < i + 1 implies listed_size(listing@, #[trigger] fv.take(i + 1)[j]) is Some by {
                    if j < i {
                        assert(fv.take(i + 1)[j] == fv.take(i as int)[j]);
                    }
                }
            } else if size is None {
                assert(listed_size(listing@, fv.take(i + 1)[i as int]) is None);
            } else {
                assert(!all_sizes_known(fv.take(i as int), listing@) || files@.len() == 0);
                if files@.len() > 0 {
                    let j = choose|j: int| 0 <= j < i && !(listed_size(listing@, #[trigger] fv.take(i as int)[j]) is Some);
                    assert(fv.take(i + 1)[j] == fv.take(i as int)[j]);
                }
            }
        }
        i += 1;
    }
    assert(fv.take(files.len() as int) =~= fv);
    if all_known {
        Some(total)
    } else {
        None
    }
}

/// A checkpoint format that only the deep inspection can read.
pub open spec fn unreadable_checkpoint_name(name: Seq<char>) -> bool {
    has_suffix(name, ".bin"@) || has_suffix(name, ".pt"@) || has_suffix(name, ".ckpt"@) || has_suffix(
        name,
        ".h5"@,
    ) || has_suffix(name, ".pb"@)
}

/// The listed files in a format that only the deep inspection can read.
pub open spec fn unreadable_names(files: Seq<HfSiblingFile>) -> Seq<Seq<char>>
    decreases files.len(),
{
    if files.len() == 0 {
        Seq::empty()
    } else {
        unreadable_names(files.drop_last()) + if unreadable_checkpoint_name(files.last().name@) {
            seq![files.last().name@]
        } else {
            Seq::empty()
        }
    }
}

/// The warning given when a repository has only checkpoints that fast mode
/// cannot read.
pub open spec fn repo_checkpoint_warning(files: Seq<HfSiblingFile>) -> Option<Seq<char>> {
    let names = unreadable_names(files);
    if names.len() == 0 {
        None
    } else {
        Some(
            "Only non-safetensors checkpoints found ("@ + join(names, ", "@)
                + "). Use --deep for raw checkpoint inspection."@,
        )
    }
}

/// The warning about checkpoints in formats that fast mode cannot read.
pub fn unsupported_checkpoint_warning(files: &Vec<HfSiblingFile>) -> (r: Option<String>)
    ensures
        crate::types::opt_view(r) == repo_checkpoint_warning(files@),
{
    let mut names: Vec<String> = Vec::new();
    let mut i: usize = 0;
    while i < files.len()
        invariant
            i <= files.len(),
            string_views(names@) == unreadable_names(files@.take(i as int)),
        decreases files.len() - i,
    {
        proof {
            assert(files@.take(i + 1).drop_last() =~= files@.take(i as int));
            assert(files@.take(i + 1).last() == files@[i as int]);
        }
        let name = chars_of(files[i].name.as_str());
        if ends_with_str(&name, ".bin") || ends_with_str(&name, ".pt") || ends_with_str(&name, ".ckpt")
            || ends_with_str(&name, ".h5") || ends_with_str(&name, ".pb") {
            let ghost before = names@;
            names.push(files[i].name.clone());
            assert(string_views(names@) =~= string_views(before).push(files@[i as int].name@));
        }
        i += 1;
    }
    assert(files@.take(files.len() as int) =~= files@);
    if names.len() == 0 {
        return None;
    }
    let joined = join_strings(&names, ", ");
    Some(
        concat3(
            "Only non-safetensors checkpoints found (",
            joined.as_str(),
            "). Use --deep for raw checkpoint inspection.",
        ),
    )
}

} // verus!
