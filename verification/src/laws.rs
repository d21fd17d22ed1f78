//! Properties that hold across the library's functions.
use vstd::prelude::*;
use vstd::utf8::encode_utf8;
use crate::files::{
    extension_for, file_stem, image_bytes_outcome, is_stem_char, safe_file_name_chars, sanitized,
    stem_char, trim_dashes, trim_end_dashes, trim_start_dashes, lemma_after_first,
};
use crate::json::{items_of, member, member_of, text_of, JsonView};
use crate::model::{GeneratedImageView, ProviderConfig};
use crate::outside::base64_standard_decode;
use crate::responses::{
    compact_error_chars, data_url_chars, gemini_candidate_fn, gemini_candidate_images, gemini_outcome,
    gemini_part_fn, openai_item_fn, openai_outcome,
};
use crate::model::GeneratePayload;
use crate::prompt::{mode_label, prompt_lines, prompt_text};
use crate::requests::{compresses, gemini_url_chars, openai_json_body_view, openai_json_entries};
use crate::text::{decimal, digit_char, join_chars, trim_chars};
use crate::json::lookup;

verus! {

/// Every displayable URL that `data_url` produces starts with `data:`.
pub proof fn law_data_url_is_data_url(mime_type: Seq<char>, b64: Seq<char>)
    ensures
        "data:"@.is_prefix_of(data_url_chars(mime_type, b64)),
{
    let r = data_url_chars(mime_type, b64);
    if !"data:"@.is_prefix_of(b64) {
        assert(r.subrange(0, "data:"@.len() as int) =~= "data:"@);
    }
}

/// Wrapping is idempotent: a data URL is passed through unchanged, whatever
/// MIME type comes with it.
pub proof fn law_data_url_idempotent(first: Seq<char>, second: Seq<char>, b64: Seq<char>)
    ensures
        data_url_chars(second, data_url_chars(first, b64)) == data_url_chars(first, b64),
{
    law_data_url_is_data_url(first, b64);
}

/// Saving a displayed image gives back the bytes that the service sent: the
/// data URL made of a MIME type without a comma and bare base64 decodes to
/// what the base64 decodes to.
pub proof fn law_saved_bytes_are_sent_bytes(mime_type: Seq<char>, b64: Seq<char>)
    requires
        !mime_type.contains(','),
        !"data:"@.is_prefix_of(b64),
    ensures
        image_bytes_outcome(data_url_chars(mime_type, b64)) == match base64_standard_decode(encode_utf8(b64)) {
            Some(bytes) => Ok::<Seq<u8>, Seq<char>>(bytes),
            None => Err("图片 data URL 不是有效 base64"@),
        },
{
    reveal_strlit("data:");
    reveal_strlit(";base64");
    let before = "data:"@ + mime_type + ";base64"@;
    assert(data_url_chars(mime_type, b64) =~= before + seq![','] + b64) by {
        reveal_strlit(";base64,");
    }
    assert(!before.contains(',')) by {
        if before.contains(',') {
            let k = choose|k: int| 0 <= k < before.len() && before[k] == ',';
            if k >= 5 && k < 5 + mime_type.len() {
                assert(mime_type[k - 5] == ',');
            }
        }
    }
    lemma_after_first(before, ',', b64);
}

/// The characters of the decimal representation are digits.
proof fn lemma_decimal_digits(n: nat)
    ensures
        forall|i: int| 0 <= i < decimal(n).len() ==> '0' <= #[trigger] decimal(n)[i] <= '9',
    decreases n,
{
    if n >= 10 {
        lemma_decimal_digits(n / 10);
        let d = decimal(n);
        assert forall|i: int| 0 <= i < d.len() implies '0' <= #[trigger] d[i] <= '9' by {
            if i < d.len() - 1 {
                assert(d[i] == decimal(n / 10)[i]);
            } else {
                assert(d[i] == digit_char(n % 10));
            }
        }
    }
}

/// Trimming dashes keeps only characters of the trimmed text.
proof fn lemma_trim_dashes_within(s: Seq<char>)
    requires
        forall|i: int| 0 <= i < s.len() ==> is_stem_char(#[trigger] s[i]),
    ensures
        forall|i: int| 0 <= i < trim_dashes(s).len() ==> is_stem_char(#[trigger] trim_dashes(s)[i]),
        trim_dashes(s).len() > 0 ==> trim_dashes(s)[0] != '-' && trim_dashes(s).last() != '-',
{
    lemma_trim_start_within(s);
    lemma_trim_end_within(trim_start_dashes(s));
    lemma_trim_end_keeps_first(trim_start_dashes(s));
}

proof fn lemma_trim_start_within(s: Seq<char>)
    requires
        forall|i: int| 0 <= i < s.len() ==> is_stem_char(#[trigger] s[i]),
    ensures
        forall|i: int| 0 <= i < trim_start_dashes(s).len() ==> is_stem_char(#[trigger] trim_start_dashes(s)[i]),
        trim_start_dashes(s).len() > 0 ==> trim_start_dashes(s)[0] != '-',
    decreases s.len(),
{
    if s.len() > 0 && s[0] == '-' {
        assert forall|i: int| 0 <= i < s.drop_first().len() implies is_stem_char(#[trigger] s.drop_first()[i]) by {
            assert(s.drop_first()[i] == s[i + 1]);
        }
        lemma_trim_start_within(s.drop_first());
    }
}

proof fn lemma_trim_end_within(s: Seq<char>)
    requires
        forall|i: int| 0 <= i < s.len() ==> is_stem_char(#[trigger] s[i]),
    ensures
        forall|i: int| 0 <= i < trim_end_dashes(s).len() ==> is_stem_char(#[trigger] trim_end_dashes(s)[i]),
        trim_end_dashes(s).len() > 0 ==> trim_end_dashes(s).last() != '-',
        trim_end_dashes(s).len() <= s.len(),
        forall|i: int| 0 <= i < trim_end_dashes(s).len() ==> #[trigger] trim_end_dashes(s)[i] == s[i],
    decreases s.len(),
{
    if s.len() > 0 && s.last() == '-' {
        lemma_trim_end_within(s.drop_last());
    }
}

proof fn lemma_trim_end_keeps_first(s: Seq<char>)
    requires
        s.len() > 0 ==> s[0] != '-',
    ensures
        trim_end_dashes(s).len() > 0 ==> trim_end_dashes(s)[0] != '-',
    decreases s.len(),
{
    if s.len() > 0 && s.last() == '-' {
        lemma_trim_end_keeps_first(s.drop_last());
    }
}

/// The characters of a file stem are ASCII letters, digits, `-` and `_`.
proof fn lemma_stem_chars(name: Seq<char>, millis: nat)
    ensures
        forall|i: int| 0 <= i < file_stem(name, millis).len() ==> is_stem_char(#[trigger] file_stem(name, millis)[i]),
        file_stem(name, millis).len() > 0,
{
    let s = sanitized(name);
    assert forall|i: int| 0 <= i < s.len() implies is_stem_char(#[trigger] s[i]) by {
        assert(s[i] == stem_char(name[i]));
    }
    lemma_trim_dashes_within(s);
    if trim_dashes(s).len() == 0 {
        reveal_strlit("myaitoimg-");
        lemma_decimal_digits(millis);
        let st = "myaitoimg-"@ + decimal(millis);
        assert forall|i: int| 0 <= i < st.len() implies is_stem_char(#[trigger] st[i]) by {
            if i >= 10 {
                assert(st[i] == decimal(millis)[i - 10]);
            }
        }
    }
}

/// A saved file is always named stem, dot, extension: the stem is not empty,
/// holds only ASCII letters, digits, `-` and `_`, and the extension is the
/// one for the MIME type.
pub proof fn law_safe_file_name_shape(name: Seq<char>, mime_type: Seq<char>, millis: nat)
    ensures
        safe_file_name_chars(name, mime_type, millis) == file_stem(name, millis) + "."@ + extension_for(mime_type),
        file_stem(name, millis).len() > 0,
        forall|i: int|
            0 <= i < file_stem(name, millis).len() ==> is_stem_char(#[trigger] file_stem(name, millis)[i]),
{
    let stem = file_stem(name, millis);
    let suffix = "."@ + extension_for(mime_type);
    lemma_stem_chars(name, millis);
    reveal_strlit(".");
    if suffix.is_suffix_of(stem) {
        let k = stem.len() - suffix.len();
        assert(stem[k] == suffix[0]);
        assert(is_stem_char(stem[k]));
    }
}

/// A file whose name keeps a character is named without the clock.
pub proof fn law_safe_file_name_ignores_clock(name: Seq<char>, mime_type: Seq<char>, a: nat, b: nat)
    requires
        trim_dashes(sanitized(name)).len() > 0,
    ensures
        safe_file_name_chars(name, mime_type, a) == safe_file_name_chars(name, mime_type, b),
{
}

/// The message of a failed request whose body carries no JSON error
/// message is the start of the body, at most 500 characters long.
pub proof fn law_compact_error_is_short(text: Seq<char>, parsed: Option<JsonView>)
    requires
        text_of(member_of(member_of(parsed, "error"@), "message"@)) is None,
    ensures
        compact_error_chars(text, parsed).len() <= 500,
        compact_error_chars(text, parsed).is_prefix_of(text),
{
    if text.len() > 500 {
        assert(text.take(500) =~= text.subrange(0, 500));
    } else {
        assert(text =~= text.subrange(0, text.len() as int));
    }
}

/// Every image of an OpenAI-style reply carries the provider's model and name.
pub proof fn law_openai_images_carry_provider(value: JsonView, provider: ProviderConfig, i: int)
    requires
        openai_outcome(value, provider) is Ok,
        0 <= i < openai_outcome(value, provider)->Ok_0.len(),
    ensures
        openai_outcome(value, provider)->Ok_0[i].model == provider.model@,
        openai_outcome(value, provider)->Ok_0[i].provider == provider.name@,
{
    let images = openai_outcome(value, provider)->Ok_0;
    let items = items_of(member(value, "data"@))->Some_0;
    let f = openai_item_fn(provider);
    assert(items.filter_map(f).contains(images[i]));
    items.lemma_filter_map_contains(f, images[i]);
}

/// Of the members of a body, only the last can be `output_compression`.
pub proof fn lemma_lookup_last(entries: Seq<(Seq<char>, JsonView)>, key: Seq<char>)
    requires
        forall|i: int| 0 <= i < entries.len() ==> #[trigger] entries[i].0 != key,
    ensures
        lookup(entries, key) is None,
    decreases entries.len(),
{
    if entries.len() > 0 {
        assert forall|i: int| 0 <= i < entries.drop_first().len() implies #[trigger] entries.drop_first()[i].0 != key by {
            assert(entries.drop_first()[i] == entries[i + 1]);
        }
        lemma_lookup_last(entries.drop_first(), key);
    }
}

pub proof fn lemma_lookup_found(entries: Seq<(Seq<char>, JsonView)>, key: Seq<char>, k: int)
    requires
        0 <= k < entries.len(),
        entries[k].0 == key,
        forall|i: int| 0 <= i < k ==> #[trigger] entries[i].0 != key,
    ensures
        lookup(entries, key) == Some(entries[k].1),
    decreases k,
{
    if k > 0 {
        assert forall|i: int| 0 <= i < k - 1 implies #[trigger] entries.drop_first()[i].0 != key by {
            assert(entries.drop_first()[i] == entries[i + 1]);
        }
        lemma_lookup_found(entries.drop_first(), key, k - 1);
    }
}

/// An OpenAI-style JSON body carries a compression level exactly when the
/// output format is JPEG or WebP, and then it is the requested one.
pub proof fn law_compression_only_for_lossy_formats(p: GeneratePayload)
    ensures
        member(openai_json_body_view(p), "output_compression"@) is Some <==> compresses(p.format@),
        compresses(p.format@) ==> member(openai_json_body_view(p), "output_compression"@) == Some(
            JsonView::Number(decimal(p.compression as nat)),
        ),
{
    let entries = openai_json_entries(p);
    let key = "output_compression"@;
    reveal_strlit("output_compression");
    reveal_strlit("model");
    reveal_strlit("prompt");
    reveal_strlit("size");
    reveal_strlit("quality");
    reveal_strlit("n");
    reveal_strlit("response_format");
    reveal_strlit("output_format");
    reveal_strlit("background");
    reveal_strlit("moderation");
    assert forall|i: int| 0 <= i < 9 implies #[trigger] entries[i].0 != key by {
        assert(entries[i].0.len() != key.len() || entries[i].0[0] != key[0] || entries[i].0[7] != key[7]);
    }
    if compresses(p.format@) {
        lemma_lookup_found(entries, key, 9);
    } else {
        lemma_lookup_last(entries, key);
    }
}

/// A Gemini URL always ends with the trimmed key as the `key` parameter.
pub proof fn law_gemini_url_ends_with_key(p: ProviderConfig)
    ensures
        ("key="@ + trim_chars(p.api_key@)).is_suffix_of(gemini_url_chars(p)),
{
    reveal_strlit("key=");
    reveal_strlit("&key=");
    reveal_strlit("?key=");
    let url = gemini_url_chars(p);
    let tail = "key="@ + trim_chars(p.api_key@);
    assert(url.subrange(url.len() - tail.len(), url.len() as int) =~= tail);
}

/// The first parts of a joined text are a prefix of it.
pub proof fn lemma_join_prefix(parts: Seq<Seq<char>>, sep: Seq<char>, k: int)
    requires
        1 <= k <= parts.len(),
    ensures
        join_chars(parts.take(k), sep).is_prefix_of(join_chars(parts, sep)),
    decreases parts.len(),
{
    if k == parts.len() {
        assert(parts.take(k) =~= parts);
    } else {
        lemma_join_prefix(parts.drop_last(), sep, k);
        assert(parts.drop_last().take(k) =~= parts.take(k));
        let a = join_chars(parts.take(k), sep);
        let b = join_chars(parts.drop_last(), sep);
        assert(join_chars(parts, sep) =~= b + sep + parts.last());
        assert(join_chars(parts, sep).subrange(0, a.len() as int) =~= b.subrange(0, a.len() as int));
    }
}

/// A prompt opens with its mode line and then the trimmed prompt line.
pub proof fn law_prompt_opens_with_mode_and_prompt(p: GeneratePayload)
    ensures
        ("模式："@ + mode_label(p.mode) + "\n"@ + "提示词："@ + trim_chars(p.prompt@)).is_prefix_of(prompt_text(p)),
{
    let lines = prompt_lines(p);
    lemma_join_prefix(lines, "\n"@, 2);
    let two = lines.take(2);
    assert(two.drop_last() =~= seq![lines[0]]);
    assert(lines[0] == "模式："@ + mode_label(p.mode));
    assert(lines[1] == "提示词："@ + trim_chars(p.prompt@));
    assert(two.last() == lines[1]);
    assert(join_chars(seq![lines[0]], "\n"@) == lines[0]);
    assert(join_chars(two, "\n"@) == lines[0] + "\n"@ + lines[1]);
    assert(join_chars(two, "\n"@) =~= "模式："@ + mode_label(p.mode) + "\n"@ + "提示词："@ + trim_chars(p.prompt@));
}

/// An image that names the provider's model and name.
pub open spec fn from_provider(image: GeneratedImageView, provider: ProviderConfig) -> bool {
    image.model == provider.model@ && image.provider == provider.name@
}

proof fn lemma_candidate_images_from_provider(candidate: JsonView, provider: ProviderConfig, k: int)
    requires
        0 <= k < gemini_candidate_images(candidate, provider).len(),
    ensures
        from_provider(gemini_candidate_images(candidate, provider)[k], provider),
{
    let images = gemini_candidate_images(candidate, provider);
    let parts = items_of(member_of(member(candidate, "content"@), "parts"@))->Some_0;
    let g = gemini_part_fn(provider);
    assert(parts.filter_map(g).contains(images[k]));
    parts.lemma_filter_map_contains(g, images[k]);
}

proof fn lemma_flatten_from_provider(groups: Seq<Seq<GeneratedImageView>>, provider: ProviderConfig)
    requires
        forall|i: int, k: int|
            0 <= i < groups.len() && 0 <= k < groups[i].len() ==> from_provider(#[trigger] groups[i][k], provider),
    ensures
        forall|k: int| 0 <= k < groups.flatten().len() ==> from_provider(#[trigger] groups.flatten()[k], provider),
    decreases groups.len(),
{
    if groups.len() > 0 {
        let init = groups.drop_last();
        assert forall|i: int, k: int| 0 <= i < init.len() && 0 <= k < init[i].len() implies from_provider(
            #[trigger] init[i][k],
            provider,
        ) by {
            assert(init[i] == groups[i]);
        }
        lemma_flatten_from_provider(init, provider);
        init.lemma_flatten_push(groups.last());
        assert(init.push(groups.last()) =~= groups);
        let flat = groups.flatten();
        assert forall|k: int| 0 <= k < flat.len() implies from_provider(#[trigger] flat[k], provider) by {
            if k >= init.flatten().len() {
                assert(flat[k] == groups.last()[k - init.flatten().len()]);
            } else {
                assert(flat[k] == init.flatten()[k]);
            }
        }
    }
}

/// Every image of a Gemini reply carries the provider's model and name.
pub proof fn law_gemini_images_carry_provider(value: JsonView, provider: ProviderConfig, i: int)
    requires
        gemini_outcome(value, provider) is Ok,
        0 <= i < gemini_outcome(value, provider)->Ok_0.len(),
    ensures
        gemini_outcome(value, provider)->Ok_0[i].model == provider.model@,
        gemini_outcome(value, provider)->Ok_0[i].provider == provider.name@,
{
    let candidates = items_of(member(value, "candidates"@))->Some_0;
    let groups = candidates.map_values(gemini_candidate_fn(provider));
    assert forall|j: int, k: int| 0 <= j < groups.len() && 0 <= k < groups[j].len() implies from_provider(
        #[trigger] groups[j][k],
        provider,
    ) by {
        lemma_candidate_images_from_provider(candidates[j], provider, k);
    }
    lemma_flatten_from_provider(groups, provider);
}

} // verus!
