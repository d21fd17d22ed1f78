//! Checking a generation request and choosing the service protocol for it.
use vstd::prelude::*;
use crate::model::{GeneratePayload, ProcessMode, ProviderKind};
use crate::text::{is_blank, is_blank_chars, owned};

verus! {

/// The first problem that makes a request unusable, as the message shown for
/// it; nothing for a usable request.
pub open spec fn payload_problem(p: GeneratePayload) -> Option<Seq<char>> {
    if is_blank_chars(p.prompt@) {
        Some("提示词不能为空"@)
    } else if is_blank_chars(p.provider.endpoint@) {
        Some("Endpoint 不能为空"@)
    } else if is_blank_chars(p.provider.model@) {
        Some("模型不能为空"@)
    } else if is_blank_chars(p.provider.api_key@) {
        Some("API Key 不能为空"@)
    } else if p.count == 0 || p.count > 4 {
        Some("数量必须在 1 到 4 之间"@)
    } else if p.mode != ProcessMode::Generate && p.reference_images@.len() == 0 {
        Some("图生图、局部、变体模式需要至少一张参考图"@)
    } else {
        None
    }
}

/// Checks a request: prompt, endpoint, model and key must not be blank, the
/// count must be 1 to 4, and editing modes need a reference image.
pub fn validate_payload(payload: &GeneratePayload) -> (r: Result<(), String>)
    ensures
        match r {
            Ok(()) => payload_problem(*payload) is None,
            Err(e) => payload_problem(*payload) == Some(e@),
        },
{
    if is_blank(payload.prompt.as_str()) {
        return Err(owned("提示词不能为空"));
    }
    if is_blank(payload.provider.endpoint.as_str()) {
        return Err(owned("Endpoint 不能为空"));
    }
    if is_blank(payload.provider.model.as_str()) {
        return Err(owned("模型不能为空"));
    }
    if is_blank(payload.provider.api_key.as_str()) {
        return Err(owned("API Key 不能为空"));
    }
    if payload.count == 0 || payload.count > 4 {
        return Err(owned("数量必须在 1 到 4 之间"));
    }
    let generating = match payload.mode {
        ProcessMode::Generate => true,
        _ => false,
    };
    if !generating && payload.reference_images.len() == 0 {
        return Err(owned("图生图、局部、变体模式需要至少一张参考图"));
    }
    Ok(())
}

/// The protocol that a request goes out with.
#[derive(Clone, Copy, Debug, PartialEq, Eq, Structural)]
pub enum Route {
    /// Gemini's `generateContent`.
    Gemini,
    /// The OpenAI Images API, or a relay that speaks it.
    OpenAiCompatible,
}

/// The protocol of a provider kind: Gemini for Gemini, the OpenAI one for the rest.
pub open spec fn route_of(kind: ProviderKind) -> Route {
    match kind {
        ProviderKind::Gemini => Route::Gemini,
        _ => Route::OpenAiCompatible,
    }
}

/// Checks a request and chooses how it goes out.
pub fn generate_images(payload: &GeneratePayload) -> (r: Result<Route, String>)
    ensures
        match r {
            Ok(route) => payload_problem(*payload) is None && route == route_of(payload.provider.kind),
            Err(e) => payload_problem(*payload) == Some(e@),
        },
{
    match validate_payload(payload) {
        Ok(()) => {},
        Err(e) => return Err(e),
    }
    match payload.provider.kind {
        ProviderKind::Gemini => Ok(Route::Gemini),
        ProviderKind::Openai | ProviderKind::Custom => Ok(Route::OpenAiCompatible),
    }
}

} // verus!
