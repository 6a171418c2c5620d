//! What a plugin declares about itself: its name, version, the plugins it relies on and
//! its capabilities, each capability with the kind of input it takes and the kind of
//! output it gives.
use vstd::prelude::*;

verus! {

/// The kind of input a plugin capability takes.
#[derive(Debug, Clone, Copy, PartialEq, Eq, Structural)]
pub enum PluginInputType {
    Any,
    Text,
    Json,
    Binary,
    File,
    Audio,
    Image,
    Video,
}

/// The kind of output a plugin capability gives.
#[derive(Debug, Clone, Copy, PartialEq, Eq, Structural)]
pub enum PluginOutputType {
    Any,
    Text,
    Json,
    Binary,
    File,
    Audio,
    Image,
    Video,
}

/// One capability a plugin declares.
#[derive(Debug, Clone, PartialEq)]
pub struct PluginCapability {
    pub name: String,
    pub description: String,
    pub input_type: PluginInputType,
    pub output_type: PluginOutputType,
}

/// Another plugin that a plugin relies on; an optional one may be absent.
#[derive(Debug, Clone, PartialEq)]
pub struct PluginDependency {
    pub name: String,
    pub optional: bool,
}

/// A plugin's declared metadata.
#[derive(Debug, Clone, PartialEq)]
pub struct PluginInfo {
    pub name: String,
    pub version: String,
    pub description: String,
    pub author: String,
    pub dependencies: Vec<PluginDependency>,
    pub tags: Vec<String>,
    pub capabilities: Vec<PluginCapability>,
}

/// How an input kind is written in messages (its variant name).
pub open spec fn input_type_name(t: PluginInputType) -> Seq<char> {
    match t {
        PluginInputType::Any => "Any"@,
        PluginInputType::Text => "Text"@,
        PluginInputType::Json => "Json"@,
        PluginInputType::Binary => "Binary"@,
        PluginInputType::File => "File"@,
        PluginInputType::Audio => "Audio"@,
        PluginInputType::Image => "Image"@,
        PluginInputType::Video => "Video"@,
    }
}

/// How an output kind is written in messages (its variant name).
pub open spec fn output_type_name(t: PluginOutputType) -> Seq<char> {
    match t {
        PluginOutputType::Any => "Any"@,
        PluginOutputType::Text => "Text"@,
        PluginOutputType::Json => "Json"@,
        PluginOutputType::Binary => "Binary"@,
        PluginOutputType::File => "File"@,
        PluginOutputType::Audio => "Audio"@,
        PluginOutputType::Image => "Image"@,
        PluginOutputType::Video => "Video"@,
    }
}

impl PluginInputType {
    pub fn name(&self) -> (r: &'static str)
        ensures
            r@ == input_type_name(*self),
    {
        match self {
            PluginInputType::Any => "Any",
            PluginInputType::Text => "Text",
            PluginInputType::Json => "Json",
            PluginInputType::Binary => "Binary",
            PluginInputType::File => "File",
            PluginInputType::Audio => "Audio",
            PluginInputType::Image => "Image",
            PluginInputType::Video => "Video",
        }
    }
}

impl PluginOutputType {
    pub fn name(&self) -> (r: &'static str)
        ensures
            r@ == output_type_name(*self),
    {
        match self {
            PluginOutputType::Any => "Any",
            PluginOutputType::Text => "Text",
            PluginOutputType::Json => "Json",
            PluginOutputType::Binary => "Binary",
            PluginOutputType::File => "File",
            PluginOutputType::Audio => "Audio",
            PluginOutputType::Image => "Image",
            PluginOutputType::Video => "Video",
        }
    }
}

/// Output of kind `from` may feed input of kind `to`: either side is `Any`, the kinds
/// are the same, or one is `File` and the other audio, image or video.
pub open spec fn compatible(from: PluginOutputType, to: PluginInputType) -> bool {
    match (from, to) {
        (PluginOutputType::Any, _) => true,
        (_, PluginInputType::Any) => true,
        (PluginOutputType::Text, PluginInputType::Text) => true,
        (PluginOutputType::Json, PluginInputType::Json) => true,
        (PluginOutputType::Binary, PluginInputType::Binary) => true,
        (PluginOutputType::File, PluginInputType::File) => true,
        (PluginOutputType::Audio, PluginInputType::Audio) => true,
        (PluginOutputType::Image, PluginInputType::Image) => true,
        (PluginOutputType::Video, PluginInputType::Video) => true,
        (PluginOutputType::Audio, PluginInputType::File) => true,
        (PluginOutputType::Image, PluginInputType::File) => true,
        (PluginOutputType::Video, PluginInputType::File) => true,
        (PluginOutputType::File, PluginInputType::Audio) => true,
        (PluginOutputType::File, PluginInputType::Image) => true,
        (PluginOutputType::File, PluginInputType::Video) => true,
        _ => false,
    }
}

pub fn types_compatible(from: PluginOutputType, to: PluginInputType) -> (r: bool)
    ensures
        r == compatible(from, to),
{
    match (from, to) {
        (PluginOutputType::Any, _) => true,
        (_, PluginInputType::Any) => true,
        (PluginOutputType::Text, PluginInputType::Text) => true,
        (PluginOutputType::Json, PluginInputType::Json) => true,
        (PluginOutputType::Binary, PluginInputType::Binary) => true,
        (PluginOutputType::File, PluginInputType::File) => true,
        (PluginOutputType::Audio, PluginInputType::Audio) => true,
        (PluginOutputType::Image, PluginInputType::Image) => true,
        (PluginOutputType::Video, PluginInputType::Video) => true,
        (PluginOutputType::Audio, PluginInputType::File) => true,
        (PluginOutputType::Image, PluginInputType::File) => true,
        (PluginOutputType::Video, PluginInputType::File) => true,
        (PluginOutputType::File, PluginInputType::Audio) => true,
        (PluginOutputType::File, PluginInputType::Image) => true,
        (PluginOutputType::File, PluginInputType::Video) => true,
        _ => false,
    }
}

/// The input and output kinds of a plugin's first capability, `Any` for both when it
/// declares none.
pub open spec fn primary_io(p: PluginInfo) -> (PluginInputType, PluginOutputType) {
    if p.capabilities@.len() > 0 {
        (p.capabilities@[0].input_type, p.capabilities@[0].output_type)
    } else {
        (PluginInputType::Any, PluginOutputType::Any)
    }
}

pub fn primary_io_types(plugin: &PluginInfo) -> (r: (PluginInputType, PluginOutputType))
    ensures
        r == primary_io(*plugin),
{
    if plugin.capabilities.len() > 0 {
        (plugin.capabilities[0].input_type, plugin.capabilities[0].output_type)
    } else {
        (PluginInputType::Any, PluginOutputType::Any)
    }
}

/// The output type of the same kind as an input type.
pub open spec fn output_of_kind(t: PluginInputType) -> PluginOutputType {
    match t {
        PluginInputType::Any => PluginOutputType::Any,
        PluginInputType::Text => PluginOutputType::Text,
        PluginInputType::Json => PluginOutputType::Json,
        PluginInputType::Binary => PluginOutputType::Binary,
        PluginInputType::File => PluginOutputType::File,
        PluginInputType::Audio => PluginOutputType::Audio,
        PluginInputType::Image => PluginOutputType::Image,
        PluginInputType::Video => PluginOutputType::Video,
    }
}

/// Type compatibility is reflexive: an output of any kind can feed an input of the
/// same kind (the two carry the same name), and anything can feed an `Any` input.
pub proof fn lemma_same_kind_is_compatible(t: PluginInputType, o: PluginOutputType)
    ensures
        compatible(output_of_kind(t), t),
        output_type_name(output_of_kind(t)) == input_type_name(t),
        compatible(o, PluginInputType::Any),
        compatible(PluginOutputType::Any, t),
{
}

} // verus!
