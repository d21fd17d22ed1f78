//! The values that the workbench exchanges with its front end.
use vstd::prelude::*;

verus! {

/// Which kind of service a provider is.
#[derive(Clone, Copy, Debug, PartialEq, Eq, Structural)]
pub enum ProviderKind {
    Openai,
    Gemini,
    Custom,
}

/// What a generation request asks for.
#[derive(Clone, Copy, Debug, PartialEq, Eq, Structural)]
pub enum ProcessMode {
    Generate,
    Edit,
    Variation,
}

/// How to reach an image service.
#[derive(Debug)]
pub struct ProviderConfig {
    pub name: String,
    pub kind: ProviderKind,
    pub endpoint: String,
    pub edit_endpoint: String,
    pub api_key: String,
    pub model: String,
    pub auth_header: String,
    pub auth_prefix: String,
}

/// An image handed in along with a request, its data in base64.
#[derive(Debug)]
pub struct ReferenceImage {
    pub name: String,
    pub mime_type: String,
    pub data: String,
}

/// A generation request from the front end. Its sampling temperature is a
/// float and travels beside it, already written as a JSON value.
#[derive(Debug)]
pub struct GeneratePayload {
    pub provider: ProviderConfig,
    pub prompt: String,
    pub mode: ProcessMode,
    pub size: String,
    pub aspect_ratio: String,
    pub image_size: String,
    pub quality: String,
    pub format: String,
    pub background: String,
    pub moderation: String,
    pub compression: u8,
    pub count: u8,
    pub search_grounding: bool,
    pub thinking: bool,
    pub project: String,
    pub tags: String,
    pub reference_images: Vec<ReferenceImage>,
    pub mask_image: Option<ReferenceImage>,
}

/// An image that a service returned.
#[derive(Debug, PartialEq)]
pub struct GeneratedImage {
    pub data_url: String,
    pub mime_type: String,
    pub model: String,
    pub provider: String,
}

/// The contents of a generated image.
pub struct GeneratedImageView {
    pub data_url: Seq<char>,
    pub mime_type: Seq<char>,
    pub model: Seq<char>,
    pub provider: Seq<char>,
}

impl View for GeneratedImage {
    type V = GeneratedImageView;

    open spec fn view(&self) -> GeneratedImageView {
        GeneratedImageView {
            data_url: self.data_url@,
            mime_type: self.mime_type@,
            model: self.model@,
            provider: self.provider@,
        }
    }
}

/// The contents of each image of a sequence.
pub open spec fn image_views(v: Seq<GeneratedImage>) -> Seq<GeneratedImageView> {
    v.map_values(|g: GeneratedImage| g@)
}

/// The contents of an outcome that is a list of images or a message.
pub open spec fn images_outcome(r: Result<Vec<GeneratedImage>, String>) -> Result<Seq<GeneratedImageView>, Seq<char>> {
    match r {
        Ok(v) => Ok(image_views(v@)),
        Err(e) => Err(e@),
    }
}

} // verus!
