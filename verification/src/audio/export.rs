//! The sound export: what its project file holds, as far as the game asks.

use vstd::prelude::*;
use vstd::string::*;

use awsm_audio_schema::{Node, NodeKind, Sample, SampleLibrary, WasmAsset};

use crate::audio::{
    graph_views, sample_views, GraphNode, GraphView, Library, LibraryView, SampleSpec, SampleView,
};
use crate::text::{joined, texts};

verus! {

/// The library of a parsed project file.
#[verifier::external_type_specification]
#[verifier::external_body]
pub struct ExSampleLibrary(awsm_audio_schema::SampleLibrary);

/// A sample of a parsed project file.
#[verifier::external_type_specification]
#[verifier::external_body]
pub struct ExSample(awsm_audio_schema::Sample);

/// A node of a sample's graph.
#[verifier::external_type_specification]
#[verifier::external_body]
pub struct ExNode(awsm_audio_schema::Node);

/// A worklet module of a parsed project file.
#[verifier::external_type_specification]
#[verifier::external_body]
pub struct ExWasmAsset(awsm_audio_schema::WasmAsset);

/// What a project file's text holds, or why it is no project.
pub uninterp spec fn project_library(text: Seq<char>) -> Result<LibraryView, Seq<char>>;

/// What a parsed library holds.
pub uninterp spec fn library_in(lib: SampleLibrary) -> LibraryView;

/// What a sample of a parsed library holds.
pub uninterp spec fn sample_in(sample: Sample) -> SampleView;

/// What a node of a sample's graph holds.
pub uninterp spec fn node_in(node: Node) -> GraphView;

/// The id of a worklet module.
pub uninterp spec fn module_in(module: WasmAsset) -> Seq<char>;

/// Parses a project file with `toml::from_str` into an `awsm_audio_schema::Project`, which
/// leaves everything but the library aside. Trusted: whether the text is a project, the names,
/// labels, kinds and ids of its library, and the fault where it is none, depend on the text
/// alone. Nothing is said of what else the library holds.
#[verifier::external_body]
fn library_from_toml(text: &str) -> (r: Result<SampleLibrary, String>)
    ensures
        match r {
            Ok(lib) => project_library(text@) == Ok::<_, Seq<char>>(library_in(lib)),
            Err(fault) => project_library(text@) == Err::<LibraryView, _>(fault@),
        },
{
    match toml::from_str::<awsm_audio_schema::Project>(text) {
        Ok(project) => Ok(project.library),
        Err(e) => Err(e.to_string()),
    }
}

/// Reads the field `samples` of an `awsm_audio_schema::SampleLibrary`. Trusted: it holds the
/// library's samples, in their order.
#[verifier::external_body]
fn samples_of(lib: &SampleLibrary) -> (r: &Vec<Sample>)
    ensures
        r@.map_values(|s: Sample| sample_in(s)) == library_in(*lib).samples,
{
    &lib.samples
}

/// Reads the worklet modules of an `awsm_audio_schema::SampleLibrary`. Trusted: they are the
/// library's, in their order.
#[verifier::external_body]
fn modules_of(lib: &SampleLibrary) -> (r: &Vec<WasmAsset>)
    ensures
        r@.map_values(|m: WasmAsset| module_in(m)) == library_in(*lib).wasm_modules,
{
    &lib.assets.wasm_modules
}

/// Writes out the field `id` of an `awsm_audio_schema::WasmAsset`. Trusted: it is the module's
/// id.
#[verifier::external_body]
fn module_id(module: &WasmAsset) -> (r: String)
    ensures
        r@ == module_in(*module),
{
    module.id.to_string()
}

/// Reads the field `name` of an `awsm_audio_schema::Sample`. Trusted: it is the sample's name.
#[verifier::external_body]
fn sample_name(sample: &Sample) -> (r: String)
    ensures
        r@ == sample_in(*sample).name,
{
    sample.name.clone()
}

/// Reads the nodes of the graph of an `awsm_audio_schema::Sample`. Trusted: they are the
/// graph's, in their order.
#[verifier::external_body]
fn sample_nodes(sample: &Sample) -> (r: &Vec<Node>)
    ensures
        r@.map_values(|n: Node| node_in(n)) == sample_in(*sample).nodes,
{
    &sample.graph.nodes
}

/// The text of an optional string.
pub open spec fn text_in(label: Option<String>) -> Option<Seq<char>> {
    match label {
        Some(l) => Some(l@),
        None => None,
    }
}

/// Reads the field `label` of an `awsm_audio_schema::Node`. Trusted: it is the node's label,
/// where it has one.
#[verifier::external_body]
fn node_label(node: &Node) -> (r: Option<String>)
    ensures
        text_in(r) == node_in(*node).label,
{
    node.label.clone()
}

/// Tells the worklet nodes among the variants of the field `kind` of an
/// `awsm_audio_schema::Node` from all others. Trusted: the answer is the node's.
#[verifier::external_body]
fn is_worklet(node: &Node) -> (r: bool)
    ensures
        r == node_in(*node).worklet,
{
    matches!(node.kind, NodeKind::AudioWorklet(_))
}

fn outline_nodes(nodes: &Vec<Node>) -> (r: Vec<GraphNode>)
    ensures
        graph_views(r@) == nodes@.map_values(|n: Node| node_in(n)),
{
    let mut r: Vec<GraphNode> = Vec::new();
    let mut i: usize = 0;
    while i < nodes.len()
        invariant
            i <= nodes@.len(),
            r@.len() == i,
            forall|j: int| 0 <= j < i ==> (#[trigger] r@[j])@ == node_in(nodes@[j]),
        decreases nodes@.len() - i,
    {
        let node = GraphNode { label: node_label(&nodes[i]), worklet: is_worklet(&nodes[i]) };
        assert(node@ == node_in(nodes@[i as int]));
        r.push(node);
        i = i + 1;
    }
    assert(graph_views(r@) =~= nodes@.map_values(|n: Node| node_in(n)));
    r
}

fn outline_samples(samples: &Vec<Sample>) -> (r: Vec<SampleSpec>)
    ensures
        sample_views(r@) == samples@.map_values(|s: Sample| sample_in(s)),
{
    let mut r: Vec<SampleSpec> = Vec::new();
    let mut i: usize = 0;
    while i < samples.len()
        invariant
            i <= samples@.len(),
            r@.len() == i,
            forall|j: int| 0 <= j < i ==> (#[trigger] r@[j])@ == sample_in(samples@[j]),
        decreases samples@.len() - i,
    {
        let sample = SampleSpec {
            name: sample_name(&samples[i]),
            nodes: outline_nodes(sample_nodes(&samples[i])),
        };
        assert(sample@ == sample_in(samples@[i as int]));
        r.push(sample);
        i = i + 1;
    }
    assert(sample_views(r@) =~= samples@.map_values(|s: Sample| sample_in(s)));
    r
}

fn outline_modules(modules: &Vec<WasmAsset>) -> (r: Vec<String>)
    ensures
        texts(r@) == modules@.map_values(|m: WasmAsset| module_in(m)),
{
    let mut r: Vec<String> = Vec::new();
    let mut i: usize = 0;
    while i < modules.len()
        invariant
            i <= modules@.len(),
            r@.len() == i,
            forall|j: int| 0 <= j < i ==> (#[trigger] r@[j])@ == module_in(modules@[j]),
        decreases modules@.len() - i,
    {
        r.push(module_id(&modules[i]));
        i = i + 1;
    }
    assert(texts(r@) =~= modules@.map_values(|m: WasmAsset| module_in(m)));
    r
}

/// What the game asks of a parsed library.
fn outline(lib: &SampleLibrary) -> (r: Library)
    ensures
        r@ == library_in(*lib),
{
    Library {
        samples: outline_samples(samples_of(lib)),
        wasm_modules: outline_modules(modules_of(lib)),
    }
}

/// The line that reports a parser's fault.
pub open spec fn project_line(fault: Seq<char>) -> Seq<char> {
    "audio: parse project.toml: "@ + fault
}

/// The library of a project file with what the game asks of it, or a line that says why the
/// text is no project.
pub fn parse_library(text: &str) -> (r: Result<(SampleLibrary, Library), String>)
    ensures
        match project_library(text@) {
            Ok(v) => r matches Ok(l) && library_in(l.0) == v && l.1@ == v,
            Err(fault) => r matches Err(line) && line@ == project_line(fault),
        },
{
    match library_from_toml(text) {
        Ok(lib) => {
            let seen = outline(&lib);
            Ok((lib, seen))
        },
        Err(fault) => Err(joined("audio: parse project.toml: ", fault.as_str())),
    }
}

} // verus!
