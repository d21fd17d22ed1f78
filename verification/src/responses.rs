//! Reading the images out of the services' JSON replies.
use vstd::prelude::*;
use vstd::string::*;
use crate::json::{
    items_of, member, member_of, or_else, text_of, view_items, JsonValue, JsonView,
};
use crate::model::{image_views, images_outcome, GeneratedImage, GeneratedImageView, ProviderConfig};
use crate::text::{owned, push_char, starts_with, string_views};

verus! {

broadcast use vstd::seq_lib::group_seq_properties;

/// A displayable URL for base64 image data: the data itself when it already is
/// a `data:` URL, else a `data:` URL that wraps it.
pub open spec fn data_url_chars(mime_type: Seq<char>, b64: Seq<char>) -> Seq<char> {
    if "data:"@.is_prefix_of(b64) {
        b64
    } else {
        "data:"@ + mime_type + ";base64,"@ + b64
    }
}

/// The MIME type that a reply names, or PNG where it names none.
pub open spec fn mime_or_png(t: Option<Seq<char>>) -> Seq<char> {
    match t {
        Some(m) => m,
        None => "image/png"@,
    }
}

/// An image of `provider` at `data_url` of type `mime_type`.
pub open spec fn image_of(data_url: Seq<char>, mime_type: Seq<char>, provider: ProviderConfig) -> GeneratedImageView {
    GeneratedImageView { data_url, mime_type, model: provider.model@, provider: provider.name@ }
}

/// The image that one item of an OpenAI-style `data` array describes, if any:
/// its `b64_json` text wrapped in a data URL, else its `url` text.
pub open spec fn openai_item_image(item: JsonView, provider: ProviderConfig) -> Option<GeneratedImageView> {
    let mime = mime_or_png(text_of(member(item, "mime_type"@)));
    match text_of(member(item, "b64_json"@)) {
        Some(b64) => Some(image_of(data_url_chars(mime, b64), mime, provider)),
        None => match text_of(member(item, "url"@)) {
            Some(url) => Some(image_of(url, mime, provider)),
            None => None,
        },
    }
}

pub open spec fn openai_item_fn(provider: ProviderConfig) -> spec_fn(JsonView) -> Option<GeneratedImageView> {
    |item: JsonView| openai_item_image(item, provider)
}

/// What an OpenAI-style reply yields: the images of its `data` array, or a
/// message when the array is missing or holds no image.
pub open spec fn openai_outcome(value: JsonView, provider: ProviderConfig) -> Result<Seq<GeneratedImageView>, Seq<char>> {
    match items_of(member(value, "data"@)) {
        None => Err("响应缺少 data 数组"@),
        Some(items) => {
            let images = items.filter_map(openai_item_fn(provider));
            if images.len() == 0 {
                Err("响应中没有可显示的图片"@)
            } else {
                Ok(images)
            }
        },
    }
}

/// The image that one part of a Gemini candidate carries inline, if any.
pub open spec fn gemini_part_image(part: JsonView, provider: ProviderConfig) -> Option<GeneratedImageView> {
    match or_else(member(part, "inlineData"@), member(part, "inline_data"@)) {
        None => None,
        Some(inline) => match text_of(member(inline, "data"@)) {
            None => None,
            Some(b64) => {
                let mime = mime_or_png(
                    text_of(or_else(member(inline, "mimeType"@), member(inline, "mime_type"@))),
                );
                Some(image_of(data_url_chars(mime, b64), mime, provider))
            },
        },
    }
}

pub open spec fn gemini_part_fn(provider: ProviderConfig) -> spec_fn(JsonView) -> Option<GeneratedImageView> {
    |part: JsonView| gemini_part_image(part, provider)
}

/// The images of one Gemini candidate, from its `content.parts` array.
pub open spec fn gemini_candidate_images(candidate: JsonView, provider: ProviderConfig) -> Seq<GeneratedImageView> {
    match items_of(member_of(member(candidate, "content"@), "parts"@)) {
        None => Seq::empty(),
        Some(parts) => parts.filter_map(gemini_part_fn(provider)),
    }
}

pub open spec fn gemini_candidate_fn(provider: ProviderConfig) -> spec_fn(JsonView) -> Seq<GeneratedImageView> {
    |candidate: JsonView| gemini_candidate_images(candidate, provider)
}

/// What a Gemini reply yields: the inline images of all its candidates in
/// order, or a message when `candidates` is missing or no image is found.
pub open spec fn gemini_outcome(value: JsonView, provider: ProviderConfig) -> Result<Seq<GeneratedImageView>, Seq<char>> {
    match items_of(member(value, "candidates"@)) {
        None => Err("响应缺少 candidates 数组"@),
        Some(candidates) => {
            let images = candidates.map_values(gemini_candidate_fn(provider)).flatten();
            if images.len() == 0 {
                Err("响应中没有 Gemini inlineData 图片"@)
            } else {
                Ok(images)
            }
        },
    }
}

/// The message of a service's error reply: `error.message` of the parsed body
/// where it is a string, else the first 500 characters of the body.
pub open spec fn compact_error_chars(text: Seq<char>, parsed: Option<JsonView>) -> Seq<char> {
    match text_of(member_of(member_of(parsed, "error"@), "message"@)) {
        Some(message) => message,
        None => if text.len() <= 500 {
            text
        } else {
            text.take(500)
        },
    }
}

/// The text of member `key`, where it is a string.
fn text_member<'a>(v: &'a JsonValue, key: &str) -> (r: Option<&'a str>)
    ensures
        match r {
            Some(s) => text_of(member(v@, key@)) == Some(s@),
            None => text_of(member(v@, key@)) is None,
        },
{
    match v.get(key) {
        Some(x) => x.as_str(),
        None => None,
    }
}

/// The member `first`, or where that is missing the member `second`.
fn member_or<'a>(v: &'a JsonValue, first: &str, second: &str) -> (r: Option<&'a JsonValue>)
    ensures
        match r {
            Some(x) => or_else(member(v@, first@), member(v@, second@)) == Some(x@),
            None => or_else(member(v@, first@), member(v@, second@)) is None,
        },
{
    match v.get(first) {
        Some(x) => Some(x),
        None => v.get(second),
    }
}

/// The text of an optional value, or `image/png`.
fn mime_text(v: Option<&JsonValue>) -> (r: String)
    ensures
        r@ == mime_or_png(
            text_of(
                match v {
                    Some(x) => Some(x@),
                    None => None,
                },
            ),
        ),
{
    match v {
        Some(x) => match x.as_str() {
            Some(s) => owned(s),
            None => owned("image/png"),
        },
        None => owned("image/png"),
    }
}

/// A displayable URL for base64 image data: `b64` itself when it already
/// starts with `data:`, else `data:{mime_type};base64,{b64}`.
pub fn data_url(mime_type: &str, b64: &str) -> (r: String)
    ensures
        r@ == data_url_chars(mime_type@, b64@),
{
    if starts_with(b64, "data:") {
        owned(b64)
    } else {
        let mut s = owned("data:");
        s.append(mime_type);
        s.append(";base64,");
        s.append(b64);
        s
    }
}

fn new_image(data_url: String, mime_type: String, provider: &ProviderConfig) -> (r: GeneratedImage)
    ensures
        r@ == image_of(data_url@, mime_type@, *provider),
{
    GeneratedImage {
        data_url,
        mime_type,
        model: provider.model.clone(),
        provider: provider.name.clone(),
    }
}

fn openai_item(item: &JsonValue, provider: &ProviderConfig) -> (r: Option<GeneratedImage>)
    ensures
        match r {
            Some(g) => openai_item_image(item@, *provider) == Some(g@),
            None => openai_item_image(item@, *provider) is None,
        },
{
    let mime_type = mime_text(item.get("mime_type"));
    match text_member(item, "b64_json") {
        Some(b64) => Some(new_image(data_url(mime_type.as_str(), b64), mime_type, provider)),
        None => match text_member(item, "url") {
            Some(url) => Some(new_image(owned(url), mime_type, provider)),
            None => None,
        },
    }
}

/// The images of an OpenAI-style reply: each item of its `data` array that
/// holds `b64_json` (as a data URL) or `url`, with the provider's model and
/// name; an error where the array is missing or yields no image.
pub fn parse_openai_images(value: &JsonValue, provider: &ProviderConfig) -> (r: Result<Vec<GeneratedImage>, String>)
    ensures
        images_outcome(r) == openai_outcome(value@, *provider),
{
    let data = match value.get("data") {
        Some(d) => match d.as_array() {
            Some(items) => items,
            None => return Err(owned("响应缺少 data 数组")),
        },
        None => return Err(owned("响应缺少 data 数组")),
    };
    let ghost items = view_items(data@);
    let ghost f = openai_item_fn(*provider);
    let mut images: Vec<GeneratedImage> = Vec::new();
    let mut i: usize = 0;
    while i < data.len()
        invariant
            items == view_items(data@),
            items_of(member(value@, "data"@)) == Some(items),
            f == openai_item_fn(*provider),
            i <= data.len(),
            image_views(images@) == items.take(i as int).filter_map(f),
        decreases data.len() - i,
    {
        assert(items.take(i + 1).drop_last() =~= items.take(i as int));
        assert(items[i as int] == data@[i as int]@);
        let found = openai_item(&data[i], provider);
        match found {
            Some(g) => {
                images.push(g);
            },
            None => {},
        }
        assert(image_views(images@) =~= items.take(i + 1).filter_map(f));
        i = i + 1;
    }
    assert(items.take(data.len() as int) =~= items);
    if images.len() == 0 {
        Err(owned("响应中没有可显示的图片"))
    } else {
        Ok(images)
    }
}

fn gemini_part(part: &JsonValue, provider: &ProviderConfig) -> (r: Option<GeneratedImage>)
    ensures
        match r {
            Some(g) => gemini_part_image(part@, *provider) == Some(g@),
            None => gemini_part_image(part@, *provider) is None,
        },
{
    let inline_data = match member_or(part, "inlineData", "inline_data") {
        Some(x) => x,
        None => return None,
    };
    let b64 = match text_member(inline_data, "data") {
        Some(b) => b,
        None => return None,
    };
    let mime_type = mime_text(member_or(inline_data, "mimeType", "mime_type"));
    Some(new_image(data_url(mime_type.as_str(), b64), mime_type, provider))
}

fn gemini_candidate(candidate: &JsonValue, provider: &ProviderConfig, images: &mut Vec<GeneratedImage>)
    ensures
        image_views(final(images)@) == image_views(old(images)@) + gemini_candidate_images(candidate@, *provider),
{
    let parts = match candidate.get("content") {
        Some(content) => match content.get("parts") {
            Some(p) => match p.as_array() {
                Some(items) => items,
                None => {
                    assert(image_views(images@) =~= image_views(images@) + Seq::empty());
                    return;
                },
            },
            None => {
                assert(image_views(images@) =~= image_views(images@) + Seq::empty());
                return;
            },
        },
        None => {
            assert(image_views(images@) =~= image_views(images@) + Seq::empty());
            return;
        },
    };
    let ghost items = view_items(parts@);
    let ghost f = gemini_part_fn(*provider);
    let ghost start = image_views(images@);
    let mut j: usize = 0;
    assert(start =~= start + items.take(0).filter_map(f));
    while j < parts.len()
        invariant
            items == view_items(parts@),
            items_of(member_of(member(candidate@, "content"@), "parts"@)) == Some(items),
            f == gemini_part_fn(*provider),
            j <= parts.len(),
            image_views(images@) == start + items.take(j as int).filter_map(f),
        decreases parts.len() - j,
    {
        assert(items.take(j + 1).drop_last() =~= items.take(j as int));
        assert(items[j as int] == parts@[j as int]@);
        let ghost before = image_views(images@);
        let found = gemini_part(&parts[j], provider);
        match found {
            Some(g) => {
                images.push(g);
                assert(image_views(images@) =~= before.push(g@));
            },
            None => {},
        }
        assert(items.take(j + 1).filter_map(f) == items.take(j as int).filter_map(f) + match f(items[j as int]) {
            Some(x) => seq![x],
            None => Seq::empty(),
        });
        assert(image_views(images@) =~= start + items.take(j + 1).filter_map(f));
        j = j + 1;
    }
    assert(items.take(parts.len() as int) =~= items);
}

/// The images of a Gemini reply: for each candidate in order, each part of
/// `content.parts` with `inlineData` (or `inline_data`) holding string
/// `data`, as a data URL of its `mimeType` (or `mime_type`, else PNG); an
/// error where `candidates` is missing or yields no image.
pub fn parse_gemini_images(value: &JsonValue, provider: &ProviderConfig) -> (r: Result<Vec<GeneratedImage>, String>)
    ensures
        images_outcome(r) == gemini_outcome(value@, *provider),
{
    let candidates = match value.get("candidates") {
        Some(c) => match c.as_array() {
            Some(items) => items,
            None => return Err(owned("响应缺少 candidates 数组")),
        },
        None => return Err(owned("响应缺少 candidates 数组")),
    };
    let ghost items = view_items(candidates@);
    let ghost f = gemini_candidate_fn(*provider);
    let mut images: Vec<GeneratedImage> = Vec::new();
    let mut i: usize = 0;
    assert(items.take(0).map_values(f) =~= Seq::<Seq<GeneratedImageView>>::empty());
    assert(image_views(images@) =~= Seq::<GeneratedImageView>::empty());
    while i < candidates.len()
        invariant
            items == view_items(candidates@),
            items_of(member(value@, "candidates"@)) == Some(items),
            f == gemini_candidate_fn(*provider),
            i <= candidates.len(),
            image_views(images@) == items.take(i as int).map_values(f).flatten(),
        decreases candidates.len() - i,
    {
        assert(items[i as int] == candidates@[i as int]@);
        gemini_candidate(&candidates[i], provider, &mut images);
        assert(items.take(i + 1).map_values(f) =~= items.take(i as int).map_values(f).push(f(items[i as int])));
        proof {
            items.take(i as int).map_values(f).lemma_flatten_push(f(items[i as int]));
        }
        i = i + 1;
    }
    assert(items.take(candidates.len() as int) =~= items);
    if images.len() == 0 {
        Err(owned("响应中没有 Gemini inlineData 图片"))
    } else {
        Ok(images)
    }
}

/// The message to show for a failed request: `error.message` of the parsed
/// body where that is a string, else the first 500 characters of the body.
pub fn compact_error(text: &str, parsed: Option<&JsonValue>) -> (r: String)
    ensures
        r@ == compact_error_chars(
            text@,
            match parsed {
                Some(v) => Some(v@),
                None => None,
            },
        ),
{
    match parsed {
        Some(v) => match v.get("error") {
            Some(e) => match text_member(e, "message") {
                Some(m) => return owned(m),
                None => {},
            },
            None => {},
        },
        None => {},
    }
    let n = text.unicode_len();
    let limit: usize = if n < 500 { n } else { 500 };
    let mut out = String::new();
    let mut i: usize = 0;
    while i < limit
        invariant
            n == text@.len(),
            limit <= n,
            limit == if n < 500 { n } else { 500 },
            i <= limit,
            out@ == text@.take(i as int),
        decreases limit - i,
    {
        push_char(&mut out, text.get_char(i));
        assert(out@ =~= text@.take(i + 1));
        i = i + 1;
    }
    assert(text@.take(n as int) =~= text@);
    out
}

/// The outcome of a reply's HTTP status: fine on success, else a message
/// with the status and the compacted body.
pub open spec fn status_outcome(success: bool, status: Seq<char>, text: Seq<char>, parsed: Option<JsonView>) -> Result<(), Seq<char>> {
    if success {
        Ok(())
    } else {
        Err("接口返回 "@ + status + "："@ + compact_error_chars(text, parsed))
    }
}

/// Checks the HTTP status of a reply; `status` is the status as displayed,
/// `parsed` the body where it parses as JSON.
pub fn check_status(success: bool, status: &str, text: &str, parsed: Option<&JsonValue>) -> (r: Result<(), String>)
    ensures
        match r {
            Ok(()) => status_outcome(success, status@, text@, match parsed {
                Some(v) => Some(v@),
                None => None,
            }) is Ok,
            Err(e) => status_outcome(success, status@, text@, match parsed {
                Some(v) => Some(v@),
                None => None,
            }) == Err::<(), Seq<char>>(e@),
        },
{
    if success {
        Ok(())
    } else {
        let mut message = owned("接口返回 ");
        message.append(status);
        message.append("：");
        let compact = compact_error(text, parsed);
        message.append(compact.as_str());
        Err(message)
    }
}

/// An error's message followed by the message of each of its causes.
pub open spec fn error_chain_chars(message: Seq<char>, causes: Seq<Seq<char>>) -> Seq<char>
    decreases causes.len(),
{
    if causes.len() == 0 {
        message
    } else {
        error_chain_chars(message, causes.drop_last()) + "；原因："@ + causes.last()
    }
}

/// An error's message followed by `；原因：` and the message of each cause in turn.
pub fn describe_error_chain(message: &str, causes: &Vec<String>) -> (r: String)
    ensures
        r@ == error_chain_chars(message@, string_views(causes@)),
{
    let ghost views = string_views(causes@);
    let mut out = owned(message);
    let mut i: usize = 0;
    assert(views.take(0) =~= Seq::<Seq<char>>::empty());
    while i < causes.len()
        invariant
            views == string_views(causes@),
            i <= causes.len(),
            out@ == error_chain_chars(message@, views.take(i as int)),
        decreases causes.len() - i,
    {
        out.append("；原因：");
        out.append(causes[i].as_str());
        assert(views.take(i + 1).drop_last() =~= views.take(i as int));
        assert(views.take(i + 1).last() == causes@[i as int]@);
        i = i + 1;
    }
    assert(views.take(causes.len() as int) =~= views);
    out
}

} // verus!
