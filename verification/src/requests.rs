//! What goes out to an image service: endpoint, authentication and body.
use vstd::prelude::*;
use vstd::string::*;
use vstd::utf8::encode_utf8;
use crate::json::{array, number, object, push_entry, push_item, view_entries, view_items, JsonValue, JsonView};
use crate::model::{GeneratePayload, ProcessMode, ProviderConfig, ReferenceImage};
use crate::outside::{
    base64_standard_decode, decode_base64, header_name_accepted, header_name_parses,
    header_value_accepted, header_value_parses, mime_accepted, mime_str_accepts,
};
use crate::prompt::{build_prompt, prompt_text};
use crate::text::{
    contains_char, decimal, decimal_string, is_blank, is_blank_chars, owned, replace_all, replace_str,
    str_eq, str_trim, trim_chars, trimmed,
};

verus! {

/// Replacing a pattern by itself leaves a text as it was.
pub proof fn lemma_replace_by_itself(s: Seq<char>, pat: Seq<char>)
    requires
        pat.len() > 0,
    ensures
        replace_all(s, pat, pat) == s,
    decreases s.len(),
{
    if s.len() == 0 {
    } else if pat.is_prefix_of(s) {
        lemma_replace_by_itself(s.skip(pat.len() as int), pat);
        assert(pat + s.skip(pat.len() as int) =~= s);
    } else {
        lemma_replace_by_itself(s.drop_first(), pat);
        assert(seq![s[0]] + s.drop_first() =~= s);
    }
}

/// The image size as sent: every `x` replaced by `x`, which leaves it as it is.
pub fn normalize_size(size: &str) -> (r: String)
    ensures
        r@ == size@,
{
    proof {
        reveal_strlit("x");
    }
    let r = replace_str(size, "x", "x");
    proof {
        lemma_replace_by_itself(size@, "x"@);
    }
    r
}

/// The value of the authentication header: the trimmed key, behind the
/// trimmed prefix and a space where the prefix is not blank.
pub open spec fn auth_value_chars(p: ProviderConfig) -> Seq<char> {
    let prefix = trim_chars(p.auth_prefix@);
    if prefix.len() == 0 {
        trim_chars(p.api_key@)
    } else {
        prefix + " "@ + trim_chars(p.api_key@)
    }
}

/// Why the authentication header cannot be sent, if it cannot.
pub open spec fn auth_problem(p: ProviderConfig) -> Option<Seq<char>> {
    if !header_name_accepted(trim_chars(p.auth_header@)) {
        Some("鉴权 Header 名称无效"@)
    } else if !header_value_accepted(auth_value_chars(p)) {
        Some("API Key 格式无效"@)
    } else {
        None
    }
}

/// An HTTP header that the HTTP client accepts.
#[derive(Debug, PartialEq)]
pub struct AuthHeader {
    pub name: String,
    pub value: String,
}

/// The authentication header of a provider: its trimmed header name, with
/// the key (and prefix) as value; an error where either is not a valid header.
pub fn auth_header(provider: &ProviderConfig) -> (r: Result<AuthHeader, String>)
    ensures
        match r {
            Ok(h) => auth_problem(*provider) is None && h.name@ == trim_chars(provider.auth_header@)
                && h.value@ == auth_value_chars(*provider),
            Err(e) => auth_problem(*provider) == Some(e@),
        },
{
    let name = trimmed(provider.auth_header.as_str());
    let prefix = str_trim(provider.auth_prefix.as_str());
    let value = if prefix.is_empty() {
        trimmed(provider.api_key.as_str())
    } else {
        let mut v = owned(prefix);
        v.append(" ");
        v.append(str_trim(provider.api_key.as_str()));
        v
    };
    if !header_name_parses(name.as_str()) {
        return Err(owned("鉴权 Header 名称无效"));
    }
    if !header_value_parses(value.as_str()) {
        return Err(owned("API Key 格式无效"));
    }
    Ok(AuthHeader { name, value })
}

/// Output formats for which a compression level is sent.
pub open spec fn compresses(format: Seq<char>) -> bool {
    format == "jpeg"@ || format == "webp"@
}

/// The members of the JSON body of an OpenAI-style generation request.
pub open spec fn openai_json_entries(p: GeneratePayload) -> Seq<(Seq<char>, JsonView)> {
        seq![
            ("model"@, JsonView::Str(p.provider.model@)),
            ("prompt"@, JsonView::Str(prompt_text(p))),
            ("size"@, JsonView::Str(p.size@)),
            ("quality"@, JsonView::Str(p.quality@)),
            ("n"@, JsonView::Number(decimal(p.count as nat))),
            ("response_format"@, JsonView::Str("b64_json"@)),
            ("output_format"@, JsonView::Str(p.format@)),
            ("background"@, JsonView::Str(p.background@)),
            ("moderation"@, JsonView::Str(p.moderation@)),
        ] + if compresses(p.format@) {
            seq![("output_compression"@, JsonView::Number(decimal(p.compression as nat)))]
        } else {
            Seq::empty()
        }
}

/// The JSON body of an OpenAI-style generation request.
pub open spec fn openai_json_body_view(p: GeneratePayload) -> JsonView {
    JsonView::Object(openai_json_entries(p))
}

fn is_compressed_format(format: &str) -> (r: bool)
    ensures
        r == compresses(format@),
{
    str_eq(format, "jpeg") || str_eq(format, "webp")
}

/// The JSON body of an OpenAI-style generation request.
pub fn openai_json_body(payload: &GeneratePayload) -> (r: JsonValue)
    ensures
        r@ == openai_json_body_view(*payload),
{
    let mut entries: Vec<(String, JsonValue)> = Vec::new();
    push_entry(&mut entries, "model", JsonValue::string(payload.provider.model.as_str()));
    push_entry(&mut entries, "prompt", JsonValue::Str(build_prompt(payload)));
    push_entry(&mut entries, "size", JsonValue::Str(normalize_size(payload.size.as_str())));
    push_entry(&mut entries, "quality", JsonValue::string(payload.quality.as_str()));
    push_entry(&mut entries, "n", number(decimal_string(payload.count as u128)));
    push_entry(&mut entries, "response_format", JsonValue::string("b64_json"));
    push_entry(&mut entries, "output_format", JsonValue::string(payload.format.as_str()));
    push_entry(&mut entries, "background", JsonValue::string(payload.background.as_str()));
    push_entry(&mut entries, "moderation", JsonValue::string(payload.moderation.as_str()));
    if is_compressed_format(payload.format.as_str()) {
        push_entry(&mut entries, "output_compression", number(decimal_string(payload.compression as u128)));
    }
    assert(view_entries(entries@) =~= openai_json_entries(*payload));
    object(entries)
}

/// The contents of a list of text fields.
pub open spec fn field_views(fields: Seq<(String, String)>) -> Seq<(Seq<char>, Seq<char>)> {
    fields.map_values(|f: (String, String)| (f.0@, f.1@))
}

/// The text fields of an OpenAI-style multipart request.
pub open spec fn openai_form_fields_view(p: GeneratePayload) -> Seq<(Seq<char>, Seq<char>)> {
    seq![
        ("model"@, p.provider.model@),
        ("prompt"@, prompt_text(p)),
        ("size"@, p.size@),
        ("quality"@, p.quality@),
        ("n"@, decimal(p.count as nat)),
        ("response_format"@, "b64_json"@),
        ("output_format"@, p.format@),
        ("background"@, p.background@),
    ] + if compresses(p.format@) {
        seq![("output_compression"@, decimal(p.compression as nat))]
    } else {
        Seq::empty()
    }
}

fn push_field(fields: &mut Vec<(String, String)>, name: &str, value: String)
    ensures
        field_views(final(fields)@) == field_views(old(fields)@).push((name@, value@)),
{
    let ghost before = fields@;
    let ghost v = value@;
    fields.push((owned(name), value));
    assert(field_views(fields@) =~= field_views(before).push((name@, v)));
}

/// The text fields of an OpenAI-style multipart request.
pub fn openai_form_fields(payload: &GeneratePayload) -> (r: Vec<(String, String)>)
    ensures
        field_views(r@) == openai_form_fields_view(*payload),
{
    let mut fields: Vec<(String, String)> = Vec::new();
    push_field(&mut fields, "model", payload.provider.model.clone());
    push_field(&mut fields, "prompt", build_prompt(payload));
    push_field(&mut fields, "size", normalize_size(payload.size.as_str()));
    push_field(&mut fields, "quality", payload.quality.clone());
    push_field(&mut fields, "n", decimal_string(payload.count as u128));
    push_field(&mut fields, "response_format", owned("b64_json"));
    push_field(&mut fields, "output_format", payload.format.clone());
    push_field(&mut fields, "background", payload.background.clone());
    if is_compressed_format(payload.format.as_str()) {
        push_field(&mut fields, "output_compression", decimal_string(payload.compression as u128));
    }
    assert(field_views(fields@) =~= openai_form_fields_view(*payload));
    fields
}

/// The endpoint of a multipart request: the trimmed edit endpoint, or the
/// trimmed endpoint where the edit endpoint is blank.
pub open spec fn multipart_endpoint_chars(p: ProviderConfig) -> Seq<char> {
    if is_blank_chars(p.edit_endpoint@) {
        trim_chars(p.endpoint@)
    } else {
        trim_chars(p.edit_endpoint@)
    }
}

/// The endpoint of a multipart request.
pub fn multipart_endpoint(provider: &ProviderConfig) -> (r: String)
    ensures
        r@ == multipart_endpoint_chars(*provider),
{
    if is_blank(provider.edit_endpoint.as_str()) {
        trimmed(provider.endpoint.as_str())
    } else {
        trimmed(provider.edit_endpoint.as_str())
    }
}

/// An uploaded file of a multipart request.
#[derive(Debug, PartialEq)]
pub struct FilePart {
    pub file_name: String,
    pub mime_type: String,
    pub bytes: Vec<u8>,
}

/// The contents of an uploaded file.
pub struct FilePartView {
    pub file_name: Seq<char>,
    pub mime_type: Seq<char>,
    pub bytes: Seq<u8>,
}

impl View for FilePart {
    type V = FilePartView;

    open spec fn view(&self) -> FilePartView {
        FilePartView { file_name: self.file_name@, mime_type: self.mime_type@, bytes: self.bytes@ }
    }
}

/// The upload of a reference image: its base64 data decoded, under its name
/// and MIME type; an error where the data is not base64 or the type is refused.
pub open spec fn image_part_outcome(image: ReferenceImage) -> Result<FilePartView, Seq<char>> {
    match base64_standard_decode(encode_utf8(image.data@)) {
        None => Err("参考图 "@ + image.name@ + " 不是有效 base64"@),
        Some(bytes) => if mime_str_accepts(image.mime_type@) {
            Ok(FilePartView { file_name: image.name@, mime_type: image.mime_type@, bytes })
        } else {
            Err("参考图 "@ + image.name@ + " MIME 类型无效"@)
        },
    }
}

fn reference_error(name: &str, reason: &str) -> (r: String)
    ensures
        r@ == "参考图 "@ + name@ + reason@,
{
    let mut s = owned("参考图 ");
    s.append(name);
    s.append(reason);
    s
}

/// The upload of a reference image.
pub fn image_part(image: &ReferenceImage) -> (r: Result<FilePart, String>)
    ensures
        match r {
            Ok(part) => image_part_outcome(*image) == Ok::<FilePartView, Seq<char>>(part@),
            Err(e) => image_part_outcome(*image) == Err::<FilePartView, Seq<char>>(e@),
        },
{
    let bytes = match decode_base64(image.data.as_str().as_bytes()) {
        Some(b) => b,
        None => return Err(reference_error(image.name.as_str(), " 不是有效 base64")),
    };
    if !mime_accepted(image.mime_type.as_str()) {
        return Err(reference_error(image.name.as_str(), " MIME 类型无效"));
    }
    Ok(FilePart { file_name: image.name.clone(), mime_type: image.mime_type.clone(), bytes })
}

/// The images to upload, each with its form field: the reference images as
/// `image`, then the mask as `mask`.
pub open spec fn upload_images(p: GeneratePayload) -> Seq<(Seq<char>, ReferenceImage)> {
    p.reference_images@.map_values(|i: ReferenceImage| ("image"@, i)) + match p.mask_image {
        Some(m) => seq![("mask"@, m)],
        None => Seq::empty(),
    }
}

/// The uploads of a list of images, or the error of the first that fails.
pub open spec fn uploads_outcome(images: Seq<(Seq<char>, ReferenceImage)>) -> Result<Seq<(Seq<char>, FilePartView)>, Seq<char>>
    decreases images.len(),
{
    if images.len() == 0 {
        Ok(Seq::empty())
    } else {
        match image_part_outcome(images[0].1) {
            Err(e) => Err(e),
            Ok(part) => match uploads_outcome(images.drop_first()) {
                Err(e) => Err(e),
                Ok(rest) => Ok(seq![(images[0].0, part)] + rest),
            },
        }
    }
}

/// The contents of a list of uploads.
pub open spec fn upload_views(files: Seq<(String, FilePart)>) -> Seq<(Seq<char>, FilePartView)> {
    files.map_values(|f: (String, FilePart)| (f.0@, f.1@))
}

/// Where an upload loop stands: what is left to upload decides the outcome.
pub open spec fn uploads_after(done: Seq<(Seq<char>, FilePartView)>, rest: Result<Seq<(Seq<char>, FilePartView)>, Seq<char>>) -> Result<Seq<(Seq<char>, FilePartView)>, Seq<char>> {
    match rest {
        Err(e) => Err(e),
        Ok(r) => Ok(done + r),
    }
}

fn push_upload(files: &mut Vec<(String, FilePart)>, field: &str, image: &ReferenceImage) -> (r: Result<(), String>)
    ensures
        match image_part_outcome(*image) {
            Ok(part) => r is Ok && upload_views(final(files)@) == upload_views(old(files)@).push((field@, part)),
            Err(e) => r is Err && r->Err_0@ == e,
        },
{
    match image_part(image) {
        Ok(part) => {
            let ghost before = files@;
            let ghost pv = part@;
            files.push((owned(field), part));
            assert(upload_views(files@) =~= upload_views(before).push((field@, pv)));
            Ok(())
        },
        Err(e) => Err(e),
    }
}

/// Lemma for one step of an upload loop over `images`.
proof fn lemma_uploads_step(
    images: Seq<(Seq<char>, ReferenceImage)>,
    i: int,
    done: Seq<(Seq<char>, FilePartView)>,
)
    requires
        0 <= i < images.len(),
    ensures
        image_part_outcome(images[i].1) matches Ok(part) ==> uploads_after(
            done,
            uploads_outcome(images.skip(i)),
        ) == uploads_after(done.push((images[i].0, part)), uploads_outcome(images.skip(i + 1))),
        image_part_outcome(images[i].1) matches Err(e) ==> uploads_outcome(images.skip(i)) == Err::<
            Seq<(Seq<char>, FilePartView)>,
            Seq<char>,
        >(e),
{
    let rest = images.skip(i);
    assert(rest[0] == images[i]);
    assert(rest.drop_first() =~= images.skip(i + 1));
    if let Ok(part) = image_part_outcome(images[i].1) {
        if let Ok(r) = uploads_outcome(images.skip(i + 1)) {
            assert(done + (seq![(images[i].0, part)] + r) =~= done.push((images[i].0, part)) + r);
        }
    }
}

/// The uploads of a request: its reference images, then its mask; the error
/// of the first image that cannot be uploaded.
pub fn collect_uploads(payload: &GeneratePayload) -> (r: Result<Vec<(String, FilePart)>, String>)
    ensures
        match r {
            Ok(files) => uploads_outcome(upload_images(*payload)) == Ok::<
                Seq<(Seq<char>, FilePartView)>,
                Seq<char>,
            >(upload_views(files@)),
            Err(e) => uploads_outcome(upload_images(*payload)) == Err::<
                Seq<(Seq<char>, FilePartView)>,
                Seq<char>,
            >(e@),
        },
{
    let ghost images = upload_images(*payload);
    let refs = &payload.reference_images;
    let mut files: Vec<(String, FilePart)> = Vec::new();
    let mut i: usize = 0;
    assert(images.skip(0) =~= images);
    assert(upload_views(files@) + Seq::empty() =~= upload_views(files@));
    while i < refs.len()
        invariant
            images == upload_images(*payload),
            refs == &payload.reference_images,
            i <= refs.len(),
            forall|k: int| 0 <= k < refs@.len() ==> #[trigger] images[k] == ("image"@, refs@[k]),
            images.len() == refs@.len() + if payload.mask_image is Some { 1int } else { 0int },
            uploads_outcome(images) == uploads_after(upload_views(files@), uploads_outcome(images.skip(i as int))),
        decreases refs.len() - i,
    {
        proof {
            lemma_uploads_step(images, i as int, upload_views(files@));
        }
        assert(images[i as int] == ("image"@, refs@[i as int]));
        match push_upload(&mut files, "image", &refs[i]) {
            Ok(()) => {},
            Err(e) => {
                return Err(e);
            },
        }
        i = i + 1;
    }
    match &payload.mask_image {
        Some(mask) => {
            assert(images[i as int] == ("mask"@, *mask));
            proof {
                lemma_uploads_step(images, i as int, upload_views(files@));
            }
            match push_upload(&mut files, "mask", mask) {
                Ok(()) => {},
                Err(e) => {
                    return Err(e);
                },
            }
            assert(images.skip(i + 1).len() == 0);
        },
        None => {
            assert(images.skip(i as int).len() == 0);
        },
    }
    assert(upload_views(files@) + Seq::empty() =~= upload_views(files@));
    Ok(files)
}

/// The body of an OpenAI-style request: JSON for plain generation, a
/// multipart form with uploads for the editing modes.
#[derive(Debug, PartialEq)]
pub enum OpenAiBody {
    Json(JsonValue),
    Multipart { fields: Vec<(String, String)>, files: Vec<(String, FilePart)> },
}

/// An OpenAI-style request, ready to send.
#[derive(Debug, PartialEq)]
pub struct OpenAiRequest {
    pub endpoint: String,
    pub auth: AuthHeader,
    pub body: OpenAiBody,
}

/// Why an OpenAI-style request cannot be built, if it cannot: a bad
/// authentication header, or (for the editing modes) an image that cannot
/// be uploaded.
pub open spec fn openai_request_problem(p: GeneratePayload) -> Option<Seq<char>> {
    match auth_problem(p.provider) {
        Some(e) => Some(e),
        None => if p.mode == ProcessMode::Generate {
            None
        } else {
            match uploads_outcome(upload_images(p)) {
                Err(e) => Some(e),
                Ok(_) => None,
            }
        },
    }
}

/// The request for an OpenAI-compatible service: JSON to the trimmed
/// endpoint for plain generation, else a multipart form with the uploads to
/// the multipart endpoint; authenticated by the provider's header.
pub fn openai_compatible_request(payload: &GeneratePayload) -> (r: Result<OpenAiRequest, String>)
    ensures
        match r {
            Err(e) => openai_request_problem(*payload) == Some(e@),
            Ok(req) => {
                &&& openai_request_problem(*payload) is None
                &&& req.auth.name@ == trim_chars(payload.provider.auth_header@)
                &&& req.auth.value@ == auth_value_chars(payload.provider)
                &&& match req.body {
                    OpenAiBody::Json(b) => {
                        &&& payload.mode == ProcessMode::Generate
                        &&& req.endpoint@ == trim_chars(payload.provider.endpoint@)
                        &&& b@ == openai_json_body_view(*payload)
                    },
                    OpenAiBody::Multipart { fields, files } => {
                        &&& payload.mode != ProcessMode::Generate
                        &&& req.endpoint@ == multipart_endpoint_chars(payload.provider)
                        &&& field_views(fields@) == openai_form_fields_view(*payload)
                        &&& uploads_outcome(upload_images(*payload)) == Ok::<
                            Seq<(Seq<char>, FilePartView)>,
                            Seq<char>,
                        >(upload_views(files@))
                    },
                }
            },
        },
{
    let auth = match auth_header(&payload.provider) {
        Ok(h) => h,
        Err(e) => return Err(e),
    };
    match payload.mode {
        ProcessMode::Generate => {
            let body = openai_json_body(payload);
            Ok(OpenAiRequest { endpoint: trimmed(payload.provider.endpoint.as_str()), auth, body: OpenAiBody::Json(body) })
        },
        _ => {
            let endpoint = multipart_endpoint(&payload.provider);
            let fields = openai_form_fields(payload);
            let files = match collect_uploads(payload) {
                Ok(f) => f,
                Err(e) => return Err(e),
            };
            Ok(OpenAiRequest { endpoint, auth, body: OpenAiBody::Multipart { fields, files } })
        },
    }
}

/// The URL of a Gemini request: `{model}` in the endpoint replaced by the
/// trimmed model, and the trimmed key added as the `key` query parameter.
pub open spec fn gemini_url_chars(p: ProviderConfig) -> Seq<char> {
    let endpoint = replace_all(p.endpoint@, "{model}"@, trim_chars(p.model@));
    if endpoint.contains('?') {
        endpoint + "&key="@ + trim_chars(p.api_key@)
    } else {
        endpoint + "?key="@ + trim_chars(p.api_key@)
    }
}

/// The URL of a Gemini request.
pub fn gemini_url(provider: &ProviderConfig) -> (r: String)
    ensures
        r@ == gemini_url_chars(*provider),
{
    proof {
        reveal_strlit("{model}");
    }
    let mut url = replace_str(provider.endpoint.as_str(), "{model}", str_trim(provider.model.as_str()));
    if contains_char(url.as_str(), '?') {
        url.append("&key=");
    } else {
        url.append("?key=");
    }
    url.append(str_trim(provider.api_key.as_str()));
    url
}

/// A text part of a Gemini request.
pub open spec fn text_part_view(text: Seq<char>) -> JsonView {
    JsonView::Object(seq![("text"@, JsonView::Str(text))])
}

/// An inline image part of a Gemini request.
pub open spec fn inline_data_view(image: ReferenceImage) -> JsonView {
    JsonView::Object(
        seq![
            (
                "inlineData"@,
                JsonView::Object(
                    seq![("mimeType"@, JsonView::Str(image.mime_type@)), ("data"@, JsonView::Str(image.data@))],
                ),
            ),
        ],
    )
}

/// The note that follows a mask image.
pub open spec fn mask_note() -> Seq<char> {
    "上一张图片是局部修改蒙版，请只修改蒙版区域。"@
}

/// The parts of a Gemini request: the prompt, each reference image inline,
/// then the mask inline followed by a note on it.
pub open spec fn gemini_parts_view(p: GeneratePayload) -> Seq<JsonView> {
    seq![text_part_view(prompt_text(p))] + p.reference_images@.map_values(|i: ReferenceImage| inline_data_view(i))
        + match p.mask_image {
        Some(m) => seq![inline_data_view(m), text_part_view(mask_note())],
        None => Seq::empty(),
    }
}

fn text_part(text: String) -> (r: JsonValue)
    ensures
        r@ == text_part_view(text@),
{
    let ghost t = text@;
    let mut entries: Vec<(String, JsonValue)> = Vec::new();
    push_entry(&mut entries, "text", JsonValue::Str(text));
    assert(view_entries(entries@) =~= seq![("text"@, JsonView::Str(t))]);
    object(entries)
}

fn inline_data(image: &ReferenceImage) -> (r: JsonValue)
    ensures
        r@ == inline_data_view(*image),
{
    let mut inner: Vec<(String, JsonValue)> = Vec::new();
    push_entry(&mut inner, "mimeType", JsonValue::string(image.mime_type.as_str()));
    push_entry(&mut inner, "data", JsonValue::string(image.data.as_str()));
    assert(view_entries(inner@) =~= seq![
        ("mimeType"@, JsonView::Str(image.mime_type@)),
        ("data"@, JsonView::Str(image.data@)),
    ]);
    let inner_value = object(inner);
    let mut outer: Vec<(String, JsonValue)> = Vec::new();
    push_entry(&mut outer, "inlineData", inner_value);
    assert(view_entries(outer@) =~= seq![("inlineData"@, inner_value@)]);
    object(outer)
}

/// The parts of a Gemini request.
pub fn build_gemini_parts(payload: &GeneratePayload) -> (r: Vec<JsonValue>)
    ensures
        view_items(r@) == gemini_parts_view(*payload),
{
    let refs = &payload.reference_images;
    let ghost inline = refs@.map_values(|i: ReferenceImage| inline_data_view(i));
    let mut parts: Vec<JsonValue> = Vec::new();
    push_item(&mut parts, text_part(build_prompt(payload)));
    let mut i: usize = 0;
    assert(view_items(parts@) =~= seq![text_part_view(prompt_text(*payload))] + inline.take(0));
    while i < refs.len()
        invariant
            refs == &payload.reference_images,
            inline == refs@.map_values(|i: ReferenceImage| inline_data_view(i)),
            i <= refs.len(),
            view_items(parts@) == seq![text_part_view(prompt_text(*payload))] + inline.take(i as int),
        decreases refs.len() - i,
    {
        push_item(&mut parts, inline_data(&refs[i]));
        assert(inline.take(i + 1) =~= inline.take(i as int).push(inline[i as int]));
        assert(view_items(parts@) =~= seq![text_part_view(prompt_text(*payload))] + inline.take(i + 1));
        i = i + 1;
    }
    assert(inline.take(refs.len() as int) =~= inline);
    let ghost base = view_items(parts@);
    match &payload.mask_image {
        Some(mask) => {
            push_item(&mut parts, inline_data(mask));
            push_item(&mut parts, text_part(owned("上一张图片是局部修改蒙版，请只修改蒙版区域。")));
            assert(view_items(parts@) =~= base + seq![inline_data_view(*mask), text_part_view(mask_note())]);
        },
        None => {
            assert(view_items(parts@) =~= base + Seq::empty());
        },
    }
    parts
}

/// The generation settings of a Gemini request.
pub open spec fn gemini_config_view(p: GeneratePayload, temperature: JsonView) -> JsonView {
    JsonView::Object(
        seq![
            (
                "responseModalities"@,
                JsonView::Array(seq![JsonView::Str("TEXT"@), JsonView::Str("IMAGE"@)]),
            ),
            ("temperature"@, temperature),
            (
                "imageConfig"@,
                JsonView::Object(
                    seq![
                        ("aspectRatio"@, JsonView::Str(p.aspect_ratio@)),
                        ("imageSize"@, JsonView::Str(p.image_size@)),
                    ],
                ),
            ),
            (
                "thinkingConfig"@,
                JsonView::Object(
                    seq![
                        (
                            "thinkingBudget"@,
                            JsonView::Number(
                                if p.thinking {
                                    "-1"@
                                } else {
                                    "0"@
                                },
                            ),
                        ),
                    ],
                ),
            ),
        ],
    )
}

/// The body of a Gemini request; `temperature` is the sampling temperature
/// already written as a JSON value.
pub open spec fn gemini_body_view(p: GeneratePayload, temperature: JsonView) -> JsonView {
    JsonView::Object(
        seq![
            (
                "contents"@,
                JsonView::Array(
                    seq![
                        JsonView::Object(
                            seq![
                                ("role"@, JsonView::Str("user"@)),
                                ("parts"@, JsonView::Array(gemini_parts_view(p))),
                            ],
                        ),
                    ],
                ),
            ),
            ("generationConfig"@, gemini_config_view(p, temperature)),
            (
                "tools"@,
                JsonView::Array(
                    if p.search_grounding {
                        seq![JsonView::Object(seq![("googleSearch"@, JsonView::Object(Seq::empty()))])]
                    } else {
                        Seq::empty()
                    },
                ),
            ),
        ],
    )
}

fn gemini_contents(payload: &GeneratePayload) -> (r: JsonValue)
    ensures
        r@ == JsonView::Array(
            seq![
                JsonView::Object(
                    seq![
                        ("role"@, JsonView::Str("user"@)),
                        ("parts"@, JsonView::Array(gemini_parts_view(*payload))),
                    ],
                ),
            ],
        ),
{
    let parts = array(build_gemini_parts(payload));
    let mut content: Vec<(String, JsonValue)> = Vec::new();
    push_entry(&mut content, "role", JsonValue::string("user"));
    push_entry(&mut content, "parts", parts);
    assert(view_entries(content@) =~= seq![
        ("role"@, JsonView::Str("user"@)),
        ("parts"@, JsonView::Array(gemini_parts_view(*payload))),
    ]);
    let content_value = object(content);
    let mut items: Vec<JsonValue> = Vec::new();
    push_item(&mut items, content_value);
    assert(view_items(items@) =~= seq![content_value@]);
    array(items)
}

fn gemini_generation_config(payload: &GeneratePayload, temperature: JsonValue) -> (r: JsonValue)
    ensures
        r@ == gemini_config_view(*payload, temperature@),
{
    let ghost t = temperature@;
    let mut modalities: Vec<JsonValue> = Vec::new();
    push_item(&mut modalities, JsonValue::string("TEXT"));
    push_item(&mut modalities, JsonValue::string("IMAGE"));
    assert(view_items(modalities@) =~= seq![JsonView::Str("TEXT"@), JsonView::Str("IMAGE"@)]);
    let mut image_config: Vec<(String, JsonValue)> = Vec::new();
    push_entry(&mut image_config, "aspectRatio", JsonValue::string(payload.aspect_ratio.as_str()));
    push_entry(&mut image_config, "imageSize", JsonValue::string(payload.image_size.as_str()));
    assert(view_entries(image_config@) =~= seq![
        ("aspectRatio"@, JsonView::Str(payload.aspect_ratio@)),
        ("imageSize"@, JsonView::Str(payload.image_size@)),
    ]);
    let budget = if payload.thinking { owned("-1") } else { owned("0") };
    let ghost budget_view = budget@;
    let mut thinking: Vec<(String, JsonValue)> = Vec::new();
    push_entry(&mut thinking, "thinkingBudget", number(budget));
    assert(view_entries(thinking@) =~= seq![("thinkingBudget"@, JsonView::Number(budget_view))]);
    let mut config: Vec<(String, JsonValue)> = Vec::new();
    push_entry(&mut config, "responseModalities", array(modalities));
    push_entry(&mut config, "temperature", temperature);
    push_entry(&mut config, "imageConfig", object(image_config));
    push_entry(&mut config, "thinkingConfig", object(thinking));
    let r = object(config);
    proof {
        if let JsonView::Object(want) = gemini_config_view(*payload, t) {
            assert(view_entries(config@) =~= want);
        }
    }
    r
}

fn gemini_tools(search_grounding: bool) -> (r: JsonValue)
    ensures
        r@ == JsonView::Array(
            if search_grounding {
                seq![JsonView::Object(seq![("googleSearch"@, JsonView::Object(Seq::empty()))])]
            } else {
                Seq::empty()
            },
        ),
{
    let mut tools: Vec<JsonValue> = Vec::new();
    if search_grounding {
        let empty: Vec<(String, JsonValue)> = Vec::new();
        let empty_object = object(empty);
        assert(view_entries(Seq::<(String, JsonValue)>::empty()) =~= Seq::empty());
        let mut search: Vec<(String, JsonValue)> = Vec::new();
        push_entry(&mut search, "googleSearch", empty_object);
        assert(view_entries(search@) =~= seq![("googleSearch"@, JsonView::Object(Seq::empty()))]);
        push_item(&mut tools, object(search));
        assert(view_items(tools@) =~= seq![JsonView::Object(seq![("googleSearch"@, JsonView::Object(Seq::empty()))])]);
    } else {
        assert(view_items(tools@) =~= Seq::empty());
    }
    array(tools)
}

/// The body of a Gemini request.
pub fn gemini_body(payload: &GeneratePayload, temperature: JsonValue) -> (r: JsonValue)
    ensures
        r@ == gemini_body_view(*payload, temperature@),
{
    let ghost t = temperature@;
    let mut entries: Vec<(String, JsonValue)> = Vec::new();
    push_entry(&mut entries, "contents", gemini_contents(payload));
    push_entry(&mut entries, "generationConfig", gemini_generation_config(payload, temperature));
    push_entry(&mut entries, "tools", gemini_tools(payload.search_grounding));
    proof {
        if let JsonView::Object(want) = gemini_body_view(*payload, t) {
            assert(view_entries(entries@) =~= want);
        }
    }
    object(entries)
}

/// A Gemini request, ready to send.
#[derive(Debug, PartialEq)]
pub struct GeminiRequest {
    pub url: String,
    pub body: JsonValue,
}

/// The request for Gemini: the URL with model and key, and the body.
pub fn gemini_request(payload: &GeneratePayload, temperature: JsonValue) -> (r: GeminiRequest)
    ensures
        r.url@ == gemini_url_chars(payload.provider),
        r.body@ == gemini_body_view(*payload, temperature@),
{
    GeminiRequest { url: gemini_url(&payload.provider), body: gemini_body(payload, temperature) }
}

} // verus!
