//! GPU enumeration: turning the JSON document printed by the platform
//! query command into a list of GPU descriptors.

use vstd::prelude::*;
use vstd::string::*;

use crate::json::{field_of, json_parse, parse_json_text, JsonValue};
use crate::text::{parse_u64, parse_u64_spec, trim_spec, trim_str};

verus! {

/// One display adapter: a non-empty name and, when the query reported a
/// usable byte count, its memory size in megabytes.
#[derive(Debug, Clone)]
pub struct SystemGpuInfo {
    pub name: String,
    pub vram_mb: Option<u64>,
}

/// The mathematical shape of a GPU descriptor.
pub struct GpuView {
    pub name: Seq<char>,
    pub vram_mb: Option<u64>,
}

impl View for SystemGpuInfo {
    type V = GpuView;

    open spec fn view(&self) -> GpuView {
        GpuView { name: self.name@, vram_mb: self.vram_mb }
    }
}

impl SystemGpuInfo {
    /// A descriptor is well formed when its name is non-empty.
    pub open spec fn wf(self) -> bool {
        self@.wf()
    }
}

impl GpuView {
    /// A descriptor is well formed when its name is non-empty.
    pub open spec fn wf(self) -> bool {
        self.name.len() > 0
    }
}

/// The sequences of descriptor views behind a vector of descriptors.
pub open spec fn views_of(gpus: Seq<SystemGpuInfo>) -> Seq<GpuView> {
    gpus.map_values(|g: SystemGpuInfo| g@)
}

/// The adapter memory, in bytes, that `entry` reports: the value of its
/// `AdapterRAM` field when that field is an unsigned 64-bit number or a
/// string spelling one, and nothing otherwise.
pub open spec fn ram_bytes_of(entry: JsonValue) -> Option<u64> {
    match field_of(entry, "AdapterRAM"@) {
        Some(JsonValue::UInt(u)) => Some(u),
        Some(JsonValue::Text(t)) => parse_u64_spec(t@),
        _ => None,
    }
}

/// The descriptor `entry` yields: its trimmed `Name` field, when that
/// field is a string with a non-blank trimmed value, together with its
/// reported memory converted from bytes to whole megabytes. Entries
/// whose name is missing, not a string, or blank yield nothing.
pub open spec fn gpu_of_entry(entry: JsonValue) -> Option<GpuView> {
    match field_of(entry, "Name"@) {
        Some(JsonValue::Text(raw)) => {
            let name = trim_spec(raw@);
            if name.len() == 0 {
                None
            } else {
                let vram_mb = match ram_bytes_of(entry) {
                    Some(b) => Some(((b as int) / 1048576) as u64),
                    None => None,
                };
                Some(GpuView { name, vram_mb })
            }
        },
        _ => None,
    }
}

/// The descriptors of a sequence of entries, in order, entries without
/// a usable name skipped.
pub open spec fn gpus_of_entries(entries: Seq<JsonValue>) -> Seq<GpuView>
    decreases entries.len(),
{
    if entries.len() == 0 {
        Seq::empty()
    } else {
        gpus_of_entries(entries.drop_last()) + (match gpu_of_entry(entries.last()) {
            Some(g) => seq![g],
            None => Seq::empty(),
        })
    }
}

/// The entries a JSON document stands for: its elements when it is an
/// array, the document itself as a single entry otherwise.
pub open spec fn entries_of(doc: JsonValue) -> Seq<JsonValue> {
    match doc {
        JsonValue::Array(a) => a@,
        _ => seq![doc],
    }
}

/// The descriptors of a whole JSON document.
pub open spec fn gpus_of_doc(doc: JsonValue) -> Seq<GpuView> {
    gpus_of_entries(entries_of(doc))
}

/// Extracts the descriptor of one JSON entry, as `gpu_of_entry`
/// describes.
pub fn gpu_of_record(entry: &JsonValue) -> (r: Option<SystemGpuInfo>)
    ensures
        (match r {
            Some(g) => gpu_of_entry(*entry) == Some(g@) && g.wf(),
            None => gpu_of_entry(*entry) is None,
        }),
{
    let name_key = String::from_str("Name");
    let raw = match entry.get(&name_key) {
        Some(JsonValue::Text(raw)) => raw,
        _ => {
            return None;
        },
    };
    let name = trim_str(raw.as_str());
    if name.unicode_len() == 0 {
        return None;
    }
    let ram_key = String::from_str("AdapterRAM");
    let vram_mb = match entry.get(&ram_key) {
        Some(JsonValue::UInt(u)) => Some(*u / 1048576),
        Some(JsonValue::Text(t)) => {
            match parse_u64(t.as_str()) {
                Some(b) => Some(b / 1048576),
                None => None,
            }
        },
        _ => None,
    };
    Some(SystemGpuInfo { name: String::from_str(name), vram_mb })
}

/// Extracts every descriptor of a JSON document, as `gpus_of_doc`
/// describes.
#[verifier::loop_isolation(false)]
pub fn gpus_from_doc(doc: &JsonValue) -> (r: Vec<SystemGpuInfo>)
    ensures
        views_of(r@) == gpus_of_doc(*doc),
        forall|i: int| 0 <= i < r@.len() ==> r@[i].wf(),
{
    let mut out: Vec<SystemGpuInfo> = Vec::new();
    proof {
        assert(views_of(out@) =~= Seq::<GpuView>::empty());
        assert(gpus_of_entries(Seq::<JsonValue>::empty()) == Seq::<GpuView>::empty());
    }
    match doc {
        JsonValue::Array(entries) => {
            let mut i: usize = 0;
            proof {
                assert(entries@.subrange(0, 0) =~= Seq::<JsonValue>::empty());
            }
            while i < entries.len()
                invariant
                    0 <= i <= entries@.len(),
                    views_of(out@) == gpus_of_entries(entries@.subrange(0, i as int)),
                    forall|k: int| 0 <= k < out@.len() ==> out@[k].wf(),
                decreases entries@.len() - i,
            {
                let ghost prefix = entries@.subrange(0, i as int);
                proof {
                    assert(entries@.subrange(0, i + 1).drop_last() =~= prefix);
                    assert(entries@.subrange(0, i + 1).last() == entries@[i as int]);
                }
                match gpu_of_record(&entries[i]) {
                    Some(g) => {
                        out.push(g);
                        proof {
                            assert(views_of(out@) =~= gpus_of_entries(entries@.subrange(0, i + 1)));
                        }
                    },
                    None => {
                        proof {
                            assert(gpus_of_entries(entries@.subrange(0, i + 1)) =~= gpus_of_entries(
                                prefix,
                            ));
                        }
                    },
                }
                i = i + 1;
            }
            proof {
                assert(entries@.subrange(0, entries@.len() as int) =~= entries@);
            }
        },
        _ => {
            proof {
                assert(seq![*doc].drop_last() =~= Seq::<JsonValue>::empty());
                assert(seq![*doc].last() == *doc);
            }
            match gpu_of_record(doc) {
                Some(g) => {
                    out.push(g);
                    proof {
                        assert(views_of(out@) =~= gpus_of_entries(seq![*doc]));
                    }
                },
                None => {
                    proof {
                        assert(gpus_of_entries(seq![*doc]) =~= Seq::<GpuView>::empty());
                    }
                },
            }
        },
    }
    out
}

/// What decoding a JSON payload yields: the document's descriptors on
/// well-formed input, the parser's message otherwise.
pub open spec fn parse_outcome(text: Seq<char>) -> Result<Seq<GpuView>, Seq<char>> {
    match json_parse(text) {
        Ok(doc) => Ok(gpus_of_doc(doc)),
        Err(m) => Err(m),
    }
}

/// Decodes the query command's JSON output into GPU descriptors, as
/// `parse_outcome` describes.
pub fn parse_system_gpu_json(stdout: &str) -> (r: Result<Vec<SystemGpuInfo>, String>)
    ensures
        (match r {
            Ok(gpus) => parse_outcome(stdout@) == Ok::<Seq<GpuView>, Seq<char>>(views_of(gpus@))
                && forall|i: int| 0 <= i < gpus@.len() ==> gpus@[i].wf(),
            Err(m) => parse_outcome(stdout@) == Err::<Seq<GpuView>, Seq<char>>(m@),
        }),
{
    match parse_json_text(stdout) {
        Ok(doc) => Ok(gpus_from_doc(&doc)),
        Err(m) => Err(m),
    }
}

/// What the GPU query returns for a finished command: the trimmed error
/// stream of a failed command, an empty list for a successful command
/// with blank output, and otherwise the decoded descriptors of its
/// trimmed output.
pub open spec fn gpu_query_outcome(
    success: bool,
    stdout: Seq<char>,
    stderr: Seq<char>,
) -> Result<Seq<GpuView>, Seq<char>> {
    if !success {
        Err(trim_spec(stderr))
    } else if trim_spec(stdout).len() == 0 {
        Ok(Seq::empty())
    } else {
        parse_outcome(trim_spec(stdout))
    }
}

/// Turns the captured output of the platform query command into the GPU
/// list handed to the front end, as `gpu_query_outcome` describes.
pub fn list_system_gpus_from_output(success: bool, stdout: &str, stderr: &str) -> (r: Result<
    Vec<SystemGpuInfo>,
    String,
>)
    ensures
        (match r {
            Ok(gpus) => gpu_query_outcome(success, stdout@, stderr@) == Ok::<
                Seq<GpuView>,
                Seq<char>,
            >(views_of(gpus@)) && forall|i: int| 0 <= i < gpus@.len() ==> gpus@[i].wf(),
            Err(m) => gpu_query_outcome(success, stdout@, stderr@) == Err::<
                Seq<GpuView>,
                Seq<char>,
            >(m@),
        }),
{
    if !success {
        let trimmed = trim_str(stderr);
        return Err(String::from_str(trimmed));
    }
    let trimmed = trim_str(stdout);
    if trimmed.unicode_len() == 0 {
        let out: Vec<SystemGpuInfo> = Vec::new();
        proof {
            assert(views_of(out@) =~= Seq::<GpuView>::empty());
        }
        return Ok(out);
    }
    parse_system_gpu_json(trimmed)
}

/// A record yields a descriptor exactly when its `Name` field is a
/// string that is non-blank once trimmed; the descriptor then carries
/// that trimmed name and the record's reported memory in megabytes.
/// Records with a blank or missing name yield nothing.
pub proof fn lemma_name_filter_exact(entry: JsonValue)
    ensures
        (gpu_of_entry(entry) is Some) <==> (field_of(entry, "Name"@) matches Some(
            JsonValue::Text(raw),
        ) && trim_spec(raw@).len() > 0),
        gpu_of_entry(entry) matches Some(g) ==> (field_of(entry, "Name"@) matches Some(
            JsonValue::Text(raw),
        ) && g.name == trim_spec(raw@) && g.vram_mb == (match ram_bytes_of(entry) {
            Some(b) => Some(((b as int) / 1048576) as u64),
            None => None::<u64>,
        })),
{
}

/// A document's descriptor list holds exactly the descriptors of the
/// entries with a usable name: every listed descriptor comes from some
/// entry, and every entry that yields a descriptor is listed.
pub proof fn lemma_entries_filter(entries: Seq<JsonValue>)
    ensures
        forall|g: GpuView| #[trigger] gpus_of_entries(entries).contains(g) ==> exists|i: int|
            0 <= i < entries.len() && gpu_of_entry(entries[i]) == Some(g),
        forall|i: int, g: GpuView|
            0 <= i < entries.len() && #[trigger] gpu_of_entry(entries[i]) == Some(g)
                ==> #[trigger] gpus_of_entries(entries).contains(g),
    decreases entries.len(),
{
    if entries.len() == 0 {
    } else {
        let prefix = entries.drop_last();
        let listed = gpus_of_entries(entries);
        lemma_entries_filter(prefix);
        assert forall|g: GpuView| #[trigger] listed.contains(g) implies exists|i: int|
            0 <= i < entries.len() && gpu_of_entry(entries[i]) == Some(g) by {
            let j = choose|j: int| 0 <= j < listed.len() && listed[j] == g;
            if j < gpus_of_entries(prefix).len() {
                assert(gpus_of_entries(prefix)[j] == g);
                assert(gpus_of_entries(prefix).contains(g));
                let i = choose|i: int|
                    0 <= i < prefix.len() && #[trigger] gpu_of_entry(prefix[i]) == Some(g);
                assert(prefix[i] == entries[i]);
                assert(gpu_of_entry(entries[i]) == Some(g));
            } else {
                assert(gpu_of_entry(entries.last()) == Some(g));
                assert(entries[entries.len() - 1] == entries.last());
            }
        }
        assert forall|i: int, g: GpuView|
            0 <= i < entries.len() && #[trigger] gpu_of_entry(entries[i]) == Some(
                g,
            ) implies #[trigger] listed.contains(g) by {
            if i < prefix.len() {
                assert(prefix[i] == entries[i]);
                assert(gpus_of_entries(prefix).contains(g));
                let j = choose|j: int|
                    0 <= j < gpus_of_entries(prefix).len() && gpus_of_entries(prefix)[j] == g;
                assert(listed[j] == g);
            } else {
                assert(entries[i] == entries.last());
                assert(listed[gpus_of_entries(prefix).len() as int] == g);
            }
        }
    }
}

/// A document that is a single object is read exactly like a
/// one-element array holding that object.
pub proof fn lemma_single_object_like_one_element_array(obj: JsonValue, arr: JsonValue)
    requires
        !(obj is Array),
        arr matches JsonValue::Array(a) && a@ == seq![obj],
    ensures
        gpus_of_doc(arr) == gpus_of_doc(obj),
{
    assert(entries_of(arr) == entries_of(obj));
}

/// A successful command whose output is blank yields an empty list, not
/// an error.
pub proof fn lemma_blank_output_is_empty_list(stdout: Seq<char>, stderr: Seq<char>)
    requires
        trim_spec(stdout).len() == 0,
    ensures
        gpu_query_outcome(true, stdout, stderr) == Ok::<Seq<GpuView>, Seq<char>>(
            Seq::<GpuView>::empty(),
        ),
{
}

/// A failed command yields an error that is exactly its trimmed error
/// stream, whatever it printed on its output stream.
pub proof fn lemma_failure_reports_trimmed_stderr(stdout: Seq<char>, stderr: Seq<char>)
    ensures
        gpu_query_outcome(false, stdout, stderr) == Err::<Seq<GpuView>, Seq<char>>(
            trim_spec(stderr),
        ),
{
}

} // verus!
