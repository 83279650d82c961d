//! Bounded content: parts that a run refers to by descriptor instead of holding
//! their bytes.
use vstd::prelude::*;

use crate::model::{duplicate_calls, TokenUsage, ToolCall};
#[allow(unused_imports)]
use crate::model::{call_views, ToolCallView};
use crate::run::RunTermination;

verus! {

pub const CONTENT_SCHEMA_VERSION: u32 = 1;

/// What kind of content a part is.
#[derive(Debug, Clone, Copy, PartialEq, Eq, Structural)]
pub enum ContentPartKind {
    Text,
    Image,
    Audio,
    Document,
}

impl ContentPartKind {
    /// The name of the kind, in lower case.
    pub open spec fn name(self) -> Seq<char> {
        match self {
            ContentPartKind::Text => "text"@,
            ContentPartKind::Image => "image"@,
            ContentPartKind::Audio => "audio"@,
            ContentPartKind::Document => "document"@,
        }
    }

    /// The name of the kind, in lower case.
    pub fn as_str(self) -> (s: &'static str)
        ensures
            s@ == self.name(),
    {
        match self {
            ContentPartKind::Text => "text",
            ContentPartKind::Image => "image",
            ContentPartKind::Audio => "audio",
            ContentPartKind::Document => "document",
        }
    }
}

/// Whether a part may be disclosed to the model.
#[derive(Debug, Clone, Copy, PartialEq, Eq, Structural)]
pub enum ContentDisclosureState {
    Accepted,
    Withheld,
}

/// Where a part comes from.
#[derive(Debug, Clone, PartialEq, Eq)]
pub struct ContentProvenanceV1 {
    pub source: String,
    pub source_id: String,
    pub source_version: String,
    pub observed_at_ms: u64,
}

/// What a run knows of a part.
#[derive(Debug, Clone, PartialEq, Eq)]
pub struct ContentPartDescriptor {
    pub part_id: String,
    pub kind: ContentPartKind,
    pub media_type: String,
    pub byte_length: u64,
    pub sha256_digest: String,
    /// How the resolver finds the part; never shown to the model.
    pub reference: String,
    pub provenance: ContentProvenanceV1,
    pub disclosure_state: ContentDisclosureState,
    pub disclosure_reason: String,
}

/// One message of a content conversation.
#[derive(Debug, Clone, PartialEq, Eq)]
pub struct ContentMessageV1 {
    pub role: String,
    pub parts: Vec<ContentPartDescriptor>,
    pub tool_call_id: String,
    pub tool_calls: Vec<ToolCall>,
}

/// One assistant turn of a content conversation.
#[derive(Debug, Clone)]
pub struct ContentModelTurnV1 {
    pub text: String,
    pub output_parts: Vec<ContentPartDescriptor>,
    pub tool_calls: Vec<ToolCall>,
    pub usage: Option<TokenUsage>,
}

/// What a content run may hold.
#[derive(Debug, Clone)]
pub struct ContentCapabilitiesV1 {
    pub input_kinds: Vec<ContentPartKind>,
    pub output_kinds: Vec<ContentPartKind>,
    pub media_types: Vec<String>,
    pub max_part_bytes: u64,
    pub max_parts: u32,
    pub max_aggregate_bytes: u64,
}

/// How a checkpoint is bound to its content sidecar.
#[derive(Debug, Clone, PartialEq, Eq)]
pub struct ContentCheckpointBinding {
    pub schema_version: u32,
    pub generation: u64,
    pub slot: String,
    pub sha256_digest: String,
    pub resolver_id: String,
}

/// The terminal result that a content sidecar keeps. The summary is kept as a
/// part.
#[derive(Debug, Clone, PartialEq, Eq)]
pub struct ContentTerminalCheckpoint {
    pub success: bool,
    pub termination: RunTermination,
    pub summary_part_id: String,
    pub summary_digest: String,
    pub usage: TokenUsage,
    pub finalized: bool,
    pub artifact_dir: Option<String>,
}

/// What a descriptor holds.
#[verifier::ext_equal]
pub struct PartView {
    pub part_id: Seq<char>,
    pub kind: ContentPartKind,
    pub media_type: Seq<char>,
    pub byte_length: u64,
    pub sha256_digest: Seq<char>,
    pub reference: Seq<char>,
    pub source: Seq<char>,
    pub source_id: Seq<char>,
    pub source_version: Seq<char>,
    pub observed_at_ms: u64,
    pub disclosure_state: ContentDisclosureState,
    pub disclosure_reason: Seq<char>,
}

impl View for ContentPartDescriptor {
    type V = PartView;

    open spec fn view(&self) -> PartView {
        PartView {
            part_id: self.part_id@,
            kind: self.kind,
            media_type: self.media_type@,
            byte_length: self.byte_length,
            sha256_digest: self.sha256_digest@,
            reference: self.reference@,
            source: self.provenance.source@,
            source_id: self.provenance.source_id@,
            source_version: self.provenance.source_version@,
            observed_at_ms: self.provenance.observed_at_ms,
            disclosure_state: self.disclosure_state,
            disclosure_reason: self.disclosure_reason@,
        }
    }
}

pub open spec fn part_views(v: Seq<ContentPartDescriptor>) -> Seq<PartView> {
    Seq::new(v.len(), |i: int| v[i]@)
}

/// What a content message holds.
#[verifier::ext_equal]
pub struct ContentMessageView {
    pub role: Seq<char>,
    pub parts: Seq<PartView>,
    pub tool_call_id: Seq<char>,
    pub tool_calls: Seq<ToolCallView>,
}

impl View for ContentMessageV1 {
    type V = ContentMessageView;

    open spec fn view(&self) -> ContentMessageView {
        ContentMessageView {
            role: self.role@,
            parts: part_views(self.parts@),
            tool_call_id: self.tool_call_id@,
            tool_calls: call_views(self.tool_calls@),
        }
    }
}

pub open spec fn content_views(v: Seq<ContentMessageV1>) -> Seq<ContentMessageView> {
    Seq::new(v.len(), |i: int| v[i]@)
}

impl ContentPartDescriptor {
    /// The same descriptor again.
    pub fn duplicate(&self) -> (r: ContentPartDescriptor)
        ensures
            r == *self,
    {
        ContentPartDescriptor {
            part_id: self.part_id.clone(),
            kind: self.kind,
            media_type: self.media_type.clone(),
            byte_length: self.byte_length,
            sha256_digest: self.sha256_digest.clone(),
            reference: self.reference.clone(),
            provenance: ContentProvenanceV1 {
                source: self.provenance.source.clone(),
                source_id: self.provenance.source_id.clone(),
                source_version: self.provenance.source_version.clone(),
                observed_at_ms: self.provenance.observed_at_ms,
            },
            disclosure_state: self.disclosure_state,
            disclosure_reason: self.disclosure_reason.clone(),
        }
    }
}

/// The same descriptors again.
pub fn duplicate_parts(v: &Vec<ContentPartDescriptor>) -> (r: Vec<ContentPartDescriptor>)
    ensures
        r@ == v@,
{
    let mut r: Vec<ContentPartDescriptor> = Vec::new();
    let mut i: usize = 0;
    while i < v.len()
        invariant
            i <= v@.len(),
            r@ == v@.take(i as int),
        decreases v@.len() - i,
    {
        r.push(v[i].duplicate());
        i = i + 1;
        assert(v@.take(i as int) =~= v@.take(i - 1).push(v@[i - 1]));
    }
    assert(v@.take(v@.len() as int) =~= v@);
    r
}

impl ContentMessageV1 {
    /// The same message again.
    pub fn duplicate(&self) -> (r: ContentMessageV1)
        ensures
            r@ == self@,
    {
        ContentMessageV1 {
            role: self.role.clone(),
            parts: duplicate_parts(&self.parts),
            tool_call_id: self.tool_call_id.clone(),
            tool_calls: duplicate_calls(&self.tool_calls),
        }
    }
}

/// The same messages again.
pub fn duplicate_messages(v: &Vec<ContentMessageV1>) -> (r: Vec<ContentMessageV1>)
    ensures
        content_views(r@) == content_views(v@),
{
    let mut r: Vec<ContentMessageV1> = Vec::new();
    let mut i: usize = 0;
    while i < v.len()
        invariant
            i <= v@.len(),
            content_views(r@) =~= content_views(v@).take(i as int),
        decreases v@.len() - i,
    {
        let m = v[i].duplicate();
        let ghost before = r@;
        r.push(m);
        i = i + 1;
        assert(content_views(r@) =~= content_views(before).push(m@));
        assert(content_views(v@).take(i as int) =~= content_views(v@).take(i - 1).push(
            content_views(v@)[i - 1],
        ));
    }
    assert(content_views(v@).take(v@.len() as int) =~= content_views(v@));
    r
}

impl ContentCheckpointBinding {
    /// The same binding again.
    pub fn duplicate(&self) -> (r: ContentCheckpointBinding)
        ensures
            r == *self,
    {
        ContentCheckpointBinding {
            schema_version: self.schema_version,
            generation: self.generation,
            slot: self.slot.clone(),
            sha256_digest: self.sha256_digest.clone(),
            resolver_id: self.resolver_id.clone(),
        }
    }
}

/// Kinds of parts have different names.
pub proof fn part_kind_names_differ(a: ContentPartKind, b: ContentPartKind)
    ensures
        a.name() == b.name() ==> a == b,
{
    reveal_strlit("text");
    reveal_strlit("image");
    reveal_strlit("audio");
    reveal_strlit("document");
    assert("text"@.len() == 4 && "image"@.len() == 5 && "audio"@.len() == 5 && "document"@.len()
        == 8);
    assert("image"@[0] != "audio"@[0]);
}

} // verus!
