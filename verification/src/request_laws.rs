//! What each outgoing body and form carries, member by member, stated over
//! the request's fields and independently of how the builders are written.
use vstd::prelude::*;
use crate::json::{items_of, lookup, member, member_of, text_of, JsonView};
use crate::laws::{lemma_lookup_found, lemma_lookup_last};
use crate::model::{GeneratePayload, ProcessMode, ProviderConfig, ProviderKind, ReferenceImage};
use crate::outside::{base64_standard_decode, header_name_accepted, header_value_accepted, mime_str_accepts};
use crate::requests::{
    auth_problem, auth_value_chars, gemini_url_chars, image_part_outcome, multipart_endpoint_chars,
    openai_request_problem, upload_images, uploads_outcome, FilePartView,
};
use crate::text::{is_blank_chars, replace_all, trim_chars};
use crate::validation::{payload_problem, route_of, Route};
use vstd::utf8::encode_utf8;
use crate::prompt::prompt_text;
use crate::requests::{compresses, gemini_body_view, gemini_parts_view, openai_form_fields_view, openai_json_body_view};
use crate::text::decimal;

verus! {

/// The keys of the members `0..k` of an object are all different from `key`.
proof fn lemma_keys_before(entries: Seq<(Seq<char>, JsonView)>, key: Seq<char>, k: int)
    requires
        0 <= k <= entries.len(),
        forall|i: int| 0 <= i < k ==> (#[trigger] entries[i].0).len() != key.len() || entries[i].0[0] != key[0]
            || entries[i].0[1] != key[1],
    ensures
        forall|i: int| 0 <= i < k ==> #[trigger] entries[i].0 != key,
{
    assert forall|i: int| 0 <= i < k implies #[trigger] entries[i].0 != key by {
        if entries[i].0 == key {
            assert(entries[i].0[0] == key[0]);
            assert(entries[i].0[1] == key[1]);
        }
    }
}

/// The member named `key` of an object given by its entries, found at `k`.
proof fn lemma_member_at(entries: Seq<(Seq<char>, JsonView)>, key: Seq<char>, k: int)
    requires
        0 <= k < entries.len(),
        entries[k].0 == key,
        forall|i: int| 0 <= i < k ==> (#[trigger] entries[i].0).len() != key.len() || entries[i].0[0] != key[0]
            || entries[i].0[1] != key[1],
    ensures
        member(JsonView::Object(entries), key) == Some(entries[k].1),
{
    lemma_keys_before(entries, key, k);
    lemma_lookup_found(entries, key, k);
}

/// The JSON body of an OpenAI-style generation request carries each request
/// field under its own name: `model` the provider's model, `prompt` the
/// prompt, `size` the size, `quality`, `output_format`, `background` and
/// `moderation` the fields of those names, `n` the count in decimal, and
/// `response_format` always `b64_json`; it has no other members but
/// `output_compression`, which comes last and only for JPEG and WebP.
pub proof fn law_openai_json_body_members(p: GeneratePayload)
    ensures
        member(openai_json_body_view(p), "model"@) == Some(JsonView::Str(p.provider.model@)),
        member(openai_json_body_view(p), "prompt"@) == Some(JsonView::Str(prompt_text(p))),
        member(openai_json_body_view(p), "size"@) == Some(JsonView::Str(p.size@)),
        member(openai_json_body_view(p), "quality"@) == Some(JsonView::Str(p.quality@)),
        member(openai_json_body_view(p), "n"@) == Some(JsonView::Number(decimal(p.count as nat))),
        member(openai_json_body_view(p), "response_format"@) == Some(JsonView::Str("b64_json"@)),
        member(openai_json_body_view(p), "output_format"@) == Some(JsonView::Str(p.format@)),
        member(openai_json_body_view(p), "background"@) == Some(JsonView::Str(p.background@)),
        member(openai_json_body_view(p), "moderation"@) == Some(JsonView::Str(p.moderation@)),
        openai_json_body_view(p) matches JsonView::Object(entries) && entries.len() == if compresses(p.format@) {
            10int
        } else {
            9int
        },
{
    reveal_strlit("model");
    reveal_strlit("prompt");
    reveal_strlit("size");
    reveal_strlit("quality");
    reveal_strlit("n");
    reveal_strlit("response_format");
    reveal_strlit("output_format");
    reveal_strlit("background");
    reveal_strlit("moderation");
    let entries = match openai_json_body_view(p) {
        JsonView::Object(e) => e,
        _ => Seq::empty(),
    };
    lemma_member_at(entries, "model"@, 0);
    lemma_member_at(entries, "prompt"@, 1);
    lemma_member_at(entries, "size"@, 2);
    lemma_member_at(entries, "quality"@, 3);
    lemma_member_at(entries, "n"@, 4);
    lemma_member_at(entries, "response_format"@, 5);
    lemma_member_at(entries, "output_format"@, 6);
    lemma_member_at(entries, "background"@, 7);
    lemma_member_at(entries, "moderation"@, 8);
}

/// The value of the first text field named `name`.
pub open spec fn field_named(fields: Seq<(Seq<char>, Seq<char>)>, name: Seq<char>) -> Option<Seq<char>>
    decreases fields.len(),
{
    if fields.len() == 0 {
        None
    } else if fields[0].0 == name {
        Some(fields[0].1)
    } else {
        field_named(fields.drop_first(), name)
    }
}

proof fn lemma_field_at(fields: Seq<(Seq<char>, Seq<char>)>, name: Seq<char>, k: int)
    requires
        0 <= k < fields.len(),
        fields[k].0 == name,
        forall|i: int| 0 <= i < k ==> (#[trigger] fields[i].0).len() != name.len() || fields[i].0[0] != name[0],
    ensures
        field_named(fields, name) == Some(fields[k].1),
    decreases k,
{
    if k > 0 {
        assert(fields[0].0 != name) by {
            if fields[0].0 == name {
                assert(fields[0].0[0] == name[0]);
            }
        }
        assert forall|i: int| 0 <= i < k - 1 implies (#[trigger] fields.drop_first()[i].0).len() != name.len()
            || fields.drop_first()[i].0[0] != name[0] by {
            assert(fields.drop_first()[i] == fields[i + 1]);
        }
        lemma_field_at(fields.drop_first(), name, k - 1);
    }
}

proof fn lemma_field_absent(fields: Seq<(Seq<char>, Seq<char>)>, name: Seq<char>)
    requires
        forall|i: int| 0 <= i < fields.len() ==> (#[trigger] fields[i].0).len() != name.len() || fields[i].0[0] != name[0],
    ensures
        field_named(fields, name) is None,
    decreases fields.len(),
{
    if fields.len() > 0 {
        assert(fields[0].0 != name) by {
            if fields[0].0 == name {
                assert(fields[0].0[0] == name[0]);
            }
        }
        assert forall|i: int| 0 <= i < fields.len() - 1 implies (#[trigger] fields.drop_first()[i].0).len() != name.len()
            || fields.drop_first()[i].0[0] != name[0] by {
            assert(fields.drop_first()[i] == fields[i + 1]);
        }
        lemma_field_absent(fields.drop_first(), name);
    }
}

/// The text fields of an OpenAI-style multipart request carry each request
/// field under its own name, as the JSON body does, but no `moderation`;
/// `output_compression` is sent exactly for JPEG and WebP.
pub proof fn law_openai_form_fields(p: GeneratePayload)
    ensures
        field_named(openai_form_fields_view(p), "model"@) == Some(p.provider.model@),
        field_named(openai_form_fields_view(p), "prompt"@) == Some(prompt_text(p)),
        field_named(openai_form_fields_view(p), "size"@) == Some(p.size@),
        field_named(openai_form_fields_view(p), "quality"@) == Some(p.quality@),
        field_named(openai_form_fields_view(p), "n"@) == Some(decimal(p.count as nat)),
        field_named(openai_form_fields_view(p), "response_format"@) == Some("b64_json"@),
        field_named(openai_form_fields_view(p), "output_format"@) == Some(p.format@),
        field_named(openai_form_fields_view(p), "background"@) == Some(p.background@),
        field_named(openai_form_fields_view(p), "moderation"@) is None,
        compresses(p.format@) ==> field_named(openai_form_fields_view(p), "output_compression"@) == Some(
            decimal(p.compression as nat),
        ),
        !compresses(p.format@) ==> field_named(openai_form_fields_view(p), "output_compression"@) is None,
{
    reveal_strlit("model");
    reveal_strlit("prompt");
    reveal_strlit("size");
    reveal_strlit("quality");
    reveal_strlit("n");
    reveal_strlit("response_format");
    reveal_strlit("output_format");
    reveal_strlit("background");
    reveal_strlit("moderation");
    reveal_strlit("output_compression");
    let f = openai_form_fields_view(p);
    lemma_field_at(f, "model"@, 0);
    lemma_field_at(f, "prompt"@, 1);
    lemma_field_at(f, "size"@, 2);
    lemma_field_at(f, "quality"@, 3);
    lemma_field_at(f, "n"@, 4);
    lemma_field_at(f, "response_format"@, 5);
    lemma_field_at(f, "output_format"@, 6);
    lemma_field_at(f, "background"@, 7);
    lemma_field_absent(f, "moderation"@);
    if compresses(p.format@) {
        lemma_field_at(f, "output_compression"@, 8);
    } else {
        lemma_field_absent(f, "output_compression"@);
    }
}

/// The inline image object of a Gemini part: `inlineData` holding the
/// image's `mimeType` and `data`.
pub open spec fn carries_inline(part: JsonView, mime_type: Seq<char>, data: Seq<char>) -> bool {
    &&& member_of(member(part, "inlineData"@), "mimeType"@) == Some(JsonView::Str(mime_type))
    &&& member_of(member(part, "inlineData"@), "data"@) == Some(JsonView::Str(data))
}

/// The parts of a Gemini request are the prompt as text, then one inline
/// part for each reference image in order with its MIME type and data, then
/// (with a mask) the mask inline and a text note: nothing dropped, nothing added.
pub proof fn law_gemini_parts(p: GeneratePayload)
    ensures
        gemini_parts_view(p).len() == 1 + p.reference_images@.len() + if p.mask_image is Some {
            2int
        } else {
            0int
        },
        member(gemini_parts_view(p)[0], "text"@) == Some(JsonView::Str(prompt_text(p))),
        forall|k: int|
            0 <= k < p.reference_images@.len() ==> carries_inline(
                #[trigger] gemini_parts_view(p)[k + 1],
                p.reference_images@[k].mime_type@,
                p.reference_images@[k].data@,
            ),
        p.mask_image matches Some(m) ==> {
            &&& carries_inline(
                gemini_parts_view(p)[1 + p.reference_images@.len() as int],
                m.mime_type@,
                m.data@,
            )
            &&& member(gemini_parts_view(p)[2 + p.reference_images@.len() as int], "text"@) == Some(
                JsonView::Str("上一张图片是局部修改蒙版，请只修改蒙版区域。"@),
            )
        },
{
    let parts = gemini_parts_view(p);
    let n = p.reference_images@.len() as int;
    reveal_strlit("mimeType");
    reveal_strlit("data");
    assert forall|k: int| 0 <= k < n implies carries_inline(
        #[trigger] parts[k + 1],
        p.reference_images@[k].mime_type@,
        p.reference_images@[k].data@,
    ) by {
        let image = p.reference_images@[k];
        let inner = seq![("mimeType"@, JsonView::Str(image.mime_type@)), ("data"@, JsonView::Str(image.data@))];
        lemma_member_at(inner, "mimeType"@, 0);
        lemma_member_at(inner, "data"@, 1);
    }
    if let Some(m) = p.mask_image {
        let inner = seq![("mimeType"@, JsonView::Str(m.mime_type@)), ("data"@, JsonView::Str(m.data@))];
        lemma_member_at(inner, "mimeType"@, 0);
        lemma_member_at(inner, "data"@, 1);
        assert(parts[1 + n] == crate::requests::inline_data_view(m));
    }
}

/// The body of a Gemini request: one `user` content holding the parts; a
/// generation config with text and image output, the given temperature,
/// the request's aspect ratio and image size, and a thinking budget of -1
/// with thinking and 0 without; and the Google Search tool exactly when
/// search grounding is asked for.
pub proof fn law_gemini_body_members(p: GeneratePayload, temperature: JsonView)
    ensures
        ({
            let body = gemini_body_view(p, temperature);
            let config = member(body, "generationConfig"@);
            &&& items_of(member(body, "contents"@)) matches Some(contents) && contents.len() == 1
                && member(contents[0], "role"@) == Some(JsonView::Str("user"@))
                && member(contents[0], "parts"@) == Some(JsonView::Array(gemini_parts_view(p)))
            &&& member_of(config, "responseModalities"@) == Some(
                JsonView::Array(seq![JsonView::Str("TEXT"@), JsonView::Str("IMAGE"@)]),
            )
            &&& member_of(config, "temperature"@) == Some(temperature)
            &&& member_of(member_of(config, "imageConfig"@), "aspectRatio"@) == Some(JsonView::Str(p.aspect_ratio@))
            &&& member_of(member_of(config, "imageConfig"@), "imageSize"@) == Some(JsonView::Str(p.image_size@))
            &&& member_of(member_of(config, "thinkingConfig"@), "thinkingBudget"@) == Some(
                JsonView::Number(if p.thinking { "-1"@ } else { "0"@ }),
            )
            &&& items_of(member(body, "tools"@)) matches Some(tools) && tools.len() == (if p.search_grounding {
                1int
            } else {
                0int
            }) && (p.search_grounding ==> member(tools[0], "googleSearch"@) == Some(
                JsonView::Object(Seq::empty()),
            ))
        }),
{
    reveal_strlit("contents");
    reveal_strlit("generationConfig");
    reveal_strlit("tools");
    reveal_strlit("role");
    reveal_strlit("parts");
    reveal_strlit("responseModalities");
    reveal_strlit("temperature");
    reveal_strlit("imageConfig");
    reveal_strlit("thinkingConfig");
    reveal_strlit("aspectRatio");
    reveal_strlit("imageSize");
    reveal_strlit("thinkingBudget");
    reveal_strlit("googleSearch");
    let body = match gemini_body_view(p, temperature) {
        JsonView::Object(e) => e,
        _ => Seq::empty(),
    };
    lemma_member_at(body, "contents"@, 0);
    lemma_member_at(body, "generationConfig"@, 1);
    lemma_member_at(body, "tools"@, 2);
    let contents = match body[0].1 {
        JsonView::Array(items) => items,
        _ => Seq::empty(),
    };
    let content = match contents[0] {
        JsonView::Object(e) => e,
        _ => Seq::empty(),
    };
    lemma_member_at(content, "role"@, 0);
    lemma_member_at(content, "parts"@, 1);
    let config = match body[1].1 {
        JsonView::Object(e) => e,
        _ => Seq::empty(),
    };
    lemma_member_at(config, "responseModalities"@, 0);
    lemma_member_at(config, "temperature"@, 1);
    lemma_member_at(config, "imageConfig"@, 2);
    lemma_member_at(config, "thinkingConfig"@, 3);
    let image_config = match config[2].1 {
        JsonView::Object(e) => e,
        _ => Seq::empty(),
    };
    lemma_member_at(image_config, "aspectRatio"@, 0);
    lemma_member_at(image_config, "imageSize"@, 1);
    let thinking = match config[3].1 {
        JsonView::Object(e) => e,
        _ => Seq::empty(),
    };
    lemma_member_at(thinking, "thinkingBudget"@, 0);
    if p.search_grounding {
        let tools = match body[2].1 {
            JsonView::Array(items) => items,
            _ => Seq::empty(),
        };
        let search = match tools[0] {
            JsonView::Object(e) => e,
            _ => Seq::empty(),
        };
        lemma_member_at(search, "googleSearch"@, 0);
    }
}

/// The authentication header's value is the trimmed key, behind the trimmed
/// prefix and one space where the prefix is not blank; the header is refused
/// for a name the HTTP client does not accept, then for a value it does not.
pub proof fn law_auth_header(p: ProviderConfig)
    ensures
        is_blank_chars(p.auth_prefix@) ==> auth_value_chars(p) == trim_chars(p.api_key@),
        !is_blank_chars(p.auth_prefix@) ==> auth_value_chars(p) == trim_chars(p.auth_prefix@) + " "@ + trim_chars(
            p.api_key@,
        ),
        !header_name_accepted(trim_chars(p.auth_header@)) ==> auth_problem(p) == Some("鉴权 Header 名称无效"@),
        header_name_accepted(trim_chars(p.auth_header@)) && !header_value_accepted(auth_value_chars(p))
            ==> auth_problem(p) == Some("API Key 格式无效"@),
        header_name_accepted(trim_chars(p.auth_header@)) && header_value_accepted(auth_value_chars(p))
            ==> auth_problem(p) is None,
{
}

/// Multipart requests go to the trimmed edit endpoint, or to the trimmed
/// endpoint where the edit endpoint is blank.
pub proof fn law_multipart_endpoint(p: ProviderConfig)
    ensures
        is_blank_chars(p.edit_endpoint@) ==> multipart_endpoint_chars(p) == trim_chars(p.endpoint@),
        !is_blank_chars(p.edit_endpoint@) ==> multipart_endpoint_chars(p) == trim_chars(p.edit_endpoint@),
{
}

/// Replacing a pattern that begins with a character absent from a text
/// leaves the text as it is.
pub proof fn lemma_replace_absent(s: Seq<char>, pat: Seq<char>, to: Seq<char>)
    requires
        pat.len() > 0,
        !s.contains(pat[0]),
    ensures
        replace_all(s, pat, to) == s,
    decreases s.len(),
{
    if s.len() > 0 {
        assert(s[0] != pat[0]);
        assert(!s.drop_first().contains(pat[0])) by {
            if s.drop_first().contains(pat[0]) {
                let k = choose|k: int| 0 <= k < s.drop_first().len() && s.drop_first()[k] == pat[0];
                assert(s[k + 1] == pat[0]);
            }
        }
        lemma_replace_absent(s.drop_first(), pat, to);
        assert(seq![s[0]] + s.drop_first() =~= s);
    }
}

/// Text before the first occurrence of a pattern is kept, the occurrence
/// replaced.
pub proof fn lemma_replace_first(a: Seq<char>, pat: Seq<char>, to: Seq<char>, b: Seq<char>)
    requires
        pat.len() > 0,
        !a.contains(pat[0]),
    ensures
        replace_all(a + pat + b, pat, to) == a + to + replace_all(b, pat, to),
    decreases a.len(),
{
    let s = a + pat + b;
    if a.len() == 0 {
        assert(s =~= pat + b);
        assert(pat.is_prefix_of(s)) by {
            assert(s.subrange(0, pat.len() as int) =~= pat);
        }
        assert(s.skip(pat.len() as int) =~= b);
    } else {
        assert(s[0] == a[0]);
        assert(a[0] != pat[0]) by {
            assert(a.contains(a[0]));
        }
        assert(!pat.is_prefix_of(s)) by {
            if pat.is_prefix_of(s) {
                assert(s.subrange(0, pat.len() as int)[0] == pat[0]);
            }
        }
        assert(!a.drop_first().contains(pat[0])) by {
            if a.drop_first().contains(pat[0]) {
                let k = choose|k: int| 0 <= k < a.drop_first().len() && a.drop_first()[k] == pat[0];
                assert(a[k + 1] == pat[0]);
            }
        }
        lemma_replace_first(a.drop_first(), pat, to, b);
        assert(s.drop_first() =~= a.drop_first() + pat + b);
        assert(seq![a[0]] + (a.drop_first() + to + replace_all(b, pat, to)) =~= a + to + replace_all(b, pat, to));
    }
}

/// The Gemini URL: an endpoint `a{model}b` (with no `{` in `a` or `b`)
/// gets the trimmed model in place of `{model}`, and an endpoint without
/// `{` is kept; then the trimmed key follows as the `key` parameter, after
/// `&` where the URL already has a query and after `?` where it has none.
pub proof fn law_gemini_url(p: ProviderConfig, a: Seq<char>, b: Seq<char>)
    ensures
        !p.endpoint@.contains('{') ==> gemini_url_chars(p) == p.endpoint@ + (if p.endpoint@.contains('?') {
            "&key="@
        } else {
            "?key="@
        }) + trim_chars(p.api_key@),
        (p.endpoint@ == a + "{model}"@ + b && !a.contains('{') && !b.contains('{')) ==> {
            let e = a + trim_chars(p.model@) + b;
            gemini_url_chars(p) == e + (if e.contains('?') {
                "&key="@
            } else {
                "?key="@
            }) + trim_chars(p.api_key@)
        },
{
    reveal_strlit("{model}");
    let pat = "{model}"@;
    if !p.endpoint@.contains('{') {
        lemma_replace_absent(p.endpoint@, pat, trim_chars(p.model@));
    }
    if p.endpoint@ == a + pat + b && !a.contains('{') && !b.contains('{') {
        lemma_replace_first(a, pat, trim_chars(p.model@), b);
        lemma_replace_absent(b, pat, trim_chars(p.model@));
    }
}

/// A reference image can be uploaded: its data decodes as base64 and its
/// MIME type is accepted.
pub open spec fn uploadable(image: ReferenceImage) -> bool {
    base64_standard_decode(encode_utf8(image.data@)) is Some && mime_str_accepts(image.mime_type@)
}

/// The upload of an uploadable image.
pub open spec fn upload_of(image: ReferenceImage) -> FilePartView {
    FilePartView {
        file_name: image.name@,
        mime_type: image.mime_type@,
        bytes: base64_standard_decode(encode_utf8(image.data@))->Some_0,
    }
}

/// Why an image cannot be uploaded: bad base64 first, then a refused type.
pub open spec fn upload_refusal(image: ReferenceImage) -> Seq<char> {
    if base64_standard_decode(encode_utf8(image.data@)) is None {
        "参考图 "@ + image.name@ + " 不是有效 base64"@
    } else {
        "参考图 "@ + image.name@ + " MIME 类型无效"@
    }
}

proof fn lemma_uploads_all(s: Seq<(Seq<char>, ReferenceImage)>)
    requires
        forall|k: int| 0 <= k < s.len() ==> uploadable(#[trigger] s[k].1),
    ensures
        uploads_outcome(s) is Ok,
        uploads_outcome(s)->Ok_0.len() == s.len(),
        forall|k: int| 0 <= k < s.len() ==> #[trigger] uploads_outcome(s)->Ok_0[k] == (s[k].0, upload_of(s[k].1)),
    decreases s.len(),
{
    if s.len() > 0 {
        let rest = s.drop_first();
        assert forall|k: int| 0 <= k < rest.len() implies uploadable(#[trigger] rest[k].1) by {
            assert(rest[k] == s[k + 1]);
        }
        lemma_uploads_all(rest);
        assert(uploadable(s[0].1));
        assert(image_part_outcome(s[0].1) == Ok::<FilePartView, Seq<char>>(upload_of(s[0].1)));
        let r = uploads_outcome(s)->Ok_0;
        assert forall|k: int| 0 <= k < s.len() implies #[trigger] uploads_outcome(s)->Ok_0[k] == (
            s[k].0,
            upload_of(s[k].1),
        ) by {
            if k > 0 {
                assert(r[k] == uploads_outcome(rest)->Ok_0[k - 1]);
                assert(rest[k - 1] == s[k]);
            }
        }
    }
}

proof fn lemma_uploads_first_refused(s: Seq<(Seq<char>, ReferenceImage)>, k: int)
    requires
        0 <= k < s.len(),
        forall|j: int| 0 <= j < k ==> uploadable(#[trigger] s[j].1),
        !uploadable(s[k].1),
    ensures
        uploads_outcome(s) == Err::<Seq<(Seq<char>, FilePartView)>, Seq<char>>(upload_refusal(s[k].1)),
    decreases k,
{
    if k == 0 {
    } else {
        let rest = s.drop_first();
        assert forall|j: int| 0 <= j < k - 1 implies uploadable(#[trigger] rest[j].1) by {
            assert(rest[j] == s[j + 1]);
        }
        assert(rest[k - 1] == s[k]);
        lemma_uploads_first_refused(rest, k - 1);
        assert(uploadable(s[0].1));
    }
}

/// The uploads of an editing request: with every image uploadable, one
/// `image` upload per reference image in order, then a `mask` upload for the
/// mask, each with the image's name, type and decoded bytes; otherwise the
/// refusal of the first image (references before the mask) that fails.
pub proof fn law_uploads(p: GeneratePayload)
    ensures
        ({
            let refs = p.reference_images@;
            let n = refs.len() as int;
            let all_refs = forall|k: int| 0 <= k < n ==> uploadable(#[trigger] refs[k]);
            let mask_ok = match p.mask_image {
                Some(m) => uploadable(m),
                None => true,
            };
            &&& (all_refs && mask_ok) ==> {
                &&& uploads_outcome(upload_images(p)) is Ok
                &&& uploads_outcome(upload_images(p))->Ok_0.len() == n + if p.mask_image is Some { 1int } else { 0int }
                &&& forall|k: int| 0 <= k < n ==> #[trigger] uploads_outcome(upload_images(p))->Ok_0[k] == (
                    "image"@,
                    upload_of(refs[k]),
                )
                &&& p.mask_image matches Some(m) ==> uploads_outcome(upload_images(p))->Ok_0[n] == ("mask"@, upload_of(m))
            }
            &&& forall|k: int|
                0 <= k < n && (forall|j: int| 0 <= j < k ==> uploadable(#[trigger] refs[j])) && !uploadable(refs[k])
                    ==> #[trigger] uploads_outcome(upload_images(p)) == Err::<Seq<(Seq<char>, FilePartView)>, Seq<char>>(
                    upload_refusal(refs[k]),
                )
            &&& (all_refs && p.mask_image is Some && !uploadable(p.mask_image->Some_0)) ==> uploads_outcome(
                upload_images(p),
            ) == Err::<Seq<(Seq<char>, FilePartView)>, Seq<char>>(upload_refusal(p.mask_image->Some_0))
        }),
{
    let refs = p.reference_images@;
    let n = refs.len() as int;
    let s = upload_images(p);
    assert forall|k: int| 0 <= k < n implies #[trigger] s[k] == ("image"@, refs[k]) by {}
    if let Some(m) = p.mask_image {
        assert(s[n] == ("mask"@, m));
        assert(s.len() == n + 1);
    } else {
        assert(s.len() == n);
    }
    let all_refs = forall|k: int| 0 <= k < n ==> uploadable(#[trigger] refs[k]);
    let mask_ok = match p.mask_image {
        Some(m) => uploadable(m),
        None => true,
    };
    if all_refs && mask_ok {
        assert forall|k: int| 0 <= k < s.len() implies uploadable(#[trigger] s[k].1) by {
            if k < n {
                assert(s[k].1 == refs[k]);
            }
        }
        lemma_uploads_all(s);
    }
    assert forall|k: int|
        0 <= k < n && (forall|j: int| 0 <= j < k ==> uploadable(#[trigger] refs[j])) && !uploadable(refs[k]) implies
        #[trigger] uploads_outcome(upload_images(p)) == Err::<Seq<(Seq<char>, FilePartView)>, Seq<char>>(
        upload_refusal(refs[k]),
    ) by {
        assert forall|j: int| 0 <= j < k implies uploadable(#[trigger] s[j].1) by {
            assert(s[j].1 == refs[j]);
        }
        assert(s[k].1 == refs[k]);
        lemma_uploads_first_refused(s, k);
    }
    if all_refs {
        if let Some(m) = p.mask_image {
            if !uploadable(m) {
                assert forall|j: int| 0 <= j < n implies uploadable(#[trigger] s[j].1) by {
                    assert(s[j].1 == refs[j]);
                }
                lemma_uploads_first_refused(s, n);
            }
        }
    }
}

/// A plain generation request never fails on its images; any request first
/// fails on its authentication header.
pub proof fn law_openai_request_problem(p: GeneratePayload)
    ensures
        auth_problem(p.provider) matches Some(e) ==> openai_request_problem(p) == Some(e),
        auth_problem(p.provider) is None && p.mode == ProcessMode::Generate ==> openai_request_problem(p) is None,
        auth_problem(p.provider) is None && p.mode != ProcessMode::Generate ==> (openai_request_problem(p) is None
            <==> uploads_outcome(upload_images(p)) is Ok),
{
}

/// Requests from Gemini providers go to Gemini, all others (OpenAI and
/// relays) to the OpenAI protocol.
pub proof fn law_route(kind: ProviderKind)
    ensures
        (route_of(kind) == Route::Gemini) <==> (kind == ProviderKind::Gemini),
        kind == ProviderKind::Custom ==> route_of(kind) == Route::OpenAiCompatible,
{
}

/// Each refusal names its own reason, checked in order: blank prompt, blank
/// endpoint, blank model, blank key, a count outside 1 to 4, an editing
/// request without a reference image.
pub proof fn law_validation_messages(p: GeneratePayload)
    ensures
        is_blank_chars(p.prompt@) ==> payload_problem(p) == Some("提示词不能为空"@),
        !is_blank_chars(p.prompt@) && is_blank_chars(p.provider.endpoint@) ==> payload_problem(p) == Some(
            "Endpoint 不能为空"@,
        ),
        !is_blank_chars(p.prompt@) && !is_blank_chars(p.provider.endpoint@) && is_blank_chars(p.provider.model@)
            ==> payload_problem(p) == Some("模型不能为空"@),
        !is_blank_chars(p.prompt@) && !is_blank_chars(p.provider.endpoint@) && !is_blank_chars(p.provider.model@)
            && is_blank_chars(p.provider.api_key@) ==> payload_problem(p) == Some("API Key 不能为空"@),
        !is_blank_chars(p.prompt@) && !is_blank_chars(p.provider.endpoint@) && !is_blank_chars(p.provider.model@)
            && !is_blank_chars(p.provider.api_key@) && (p.count < 1 || p.count > 4) ==> payload_problem(p) == Some(
            "数量必须在 1 到 4 之间"@,
        ),
        !is_blank_chars(p.prompt@) && !is_blank_chars(p.provider.endpoint@) && !is_blank_chars(p.provider.model@)
            && !is_blank_chars(p.provider.api_key@) && 1 <= p.count <= 4 && p.mode != ProcessMode::Generate
            && p.reference_images@.len() == 0 ==> payload_problem(p) == Some("图生图、局部、变体模式需要至少一张参考图"@),
{
}

} // verus!
