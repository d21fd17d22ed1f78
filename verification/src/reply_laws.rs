//! What the reply parsers give for each item of a reply, stated over the
//! reply's members and independently of how the parsers are written.
use vstd::prelude::*;
use crate::json::{items_of, member, member_of, text_of, JsonView};
use crate::model::{GeneratedImageView, ProviderConfig};
use crate::responses::{
    compact_error_chars, data_url_chars, gemini_candidate_fn, gemini_candidate_images, gemini_outcome,
    gemini_part_fn, openai_item_fn, openai_outcome, status_outcome, error_chain_chars,
};

verus! {

/// The MIME type an image is labelled with: the given text, or PNG where
/// the reply gives no text.
pub open spec fn label_or_png(t: Option<Seq<char>>) -> Seq<char> {
    match t {
        Some(m) => m,
        None => "image/png"@,
    }
}

/// The URL under which base64 data `b` of type `m` is shown: `b` itself when
/// it is already a `data:` URL, else `data:{m};base64,{b}`.
pub open spec fn shown_as(m: Seq<char>, b: Seq<char>) -> Seq<char> {
    if "data:"@.is_prefix_of(b) {
        b
    } else {
        "data:"@ + m + ";base64,"@ + b
    }
}

/// If an input element maps to some output, that output is in the result of `filter_map`.
pub proof fn lemma_filter_map_has<A, B>(s: Seq<A>, f: spec_fn(A) -> Option<B>, k: int)
    requires
        0 <= k < s.len(),
        f(s[k]) is Some,
    ensures
        s.filter_map(f).contains(f(s[k])->Some_0),
    decreases s.len(),
{
    let rest = s.drop_last();
    if k == s.len() - 1 {
        let r = s.filter_map(f);
        assert(r == rest.filter_map(f) + seq![f(s[k])->Some_0]);
        assert(r[r.len() - 1] == f(s[k])->Some_0);
    } else {
        assert(rest[k] == s[k]);
        lemma_filter_map_has(rest, f, k);
        let x = f(s[k])->Some_0;
        let j = choose|j: int| 0 <= j < rest.filter_map(f).len() && rest.filter_map(f)[j] == x;
        match f(s.last()) {
            Some(y) => {
                assert(s.filter_map(f) == rest.filter_map(f) + seq![y]);
                assert(s.filter_map(f)[j] == x);
            },
            None => {},
        }
    }
}

/// Where every input element maps to some output, `filter_map` is a map.
pub proof fn lemma_filter_map_total<A, B>(s: Seq<A>, f: spec_fn(A) -> Option<B>)
    requires
        forall|k: int| 0 <= k < s.len() ==> #[trigger] f(s[k]) is Some,
    ensures
        s.filter_map(f).len() == s.len(),
        forall|k: int| 0 <= k < s.len() ==> #[trigger] s.filter_map(f)[k] == f(s[k])->Some_0,
    decreases s.len(),
{
    if s.len() > 0 {
        let rest = s.drop_last();
        assert forall|k: int| 0 <= k < rest.len() implies #[trigger] f(rest[k]) is Some by {
            assert(rest[k] == s[k]);
        }
        lemma_filter_map_total(rest, f);
        assert(f(s[s.len() - 1]) is Some);
        assert(s.filter_map(f) == rest.filter_map(f) + seq![f(s.last())->Some_0]);
        assert forall|k: int| 0 <= k < s.len() implies #[trigger] s.filter_map(f)[k] == f(s[k])->Some_0 by {
            if k < s.len() - 1 {
                assert(rest[k] == s[k]);
            }
        }
    }
}

/// An item of an OpenAI-style `data` array with string `b64_json` `b` yields
/// the image shown as `b` with the item's string `mime_type` (PNG only where
/// `mime_type` is absent or not a string); one without `b64_json` but with a
/// string `url` yields that URL with the same label.
pub proof fn law_openai_item_yields_its_image(value: JsonView, provider: ProviderConfig, k: int)
    requires
        items_of(member(value, "data"@)) is Some,
        0 <= k < items_of(member(value, "data"@))->Some_0.len(),
    ensures
        ({
            let item = items_of(member(value, "data"@))->Some_0[k];
            let m = label_or_png(text_of(member(item, "mime_type"@)));
            &&& text_of(member(item, "b64_json"@)) matches Some(b) ==> {
                &&& openai_outcome(value, provider) is Ok
                &&& openai_outcome(value, provider)->Ok_0.contains(
                    GeneratedImageView {
                        data_url: shown_as(m, b),
                        mime_type: m,
                        model: provider.model@,
                        provider: provider.name@,
                    },
                )
            }
            &&& (text_of(member(item, "b64_json"@)) is None && text_of(member(item, "url"@)) is Some) ==> {
                &&& openai_outcome(value, provider) is Ok
                &&& openai_outcome(value, provider)->Ok_0.contains(
                    GeneratedImageView {
                        data_url: text_of(member(item, "url"@))->Some_0,
                        mime_type: m, model: provider.model@, provider: provider.name@ },
                )
            }
        }),
{
    let items = items_of(member(value, "data"@))->Some_0;
    let f = openai_item_fn(provider);
    if f(items[k]) is Some {
        lemma_filter_map_has(items, f, k);
        assert(items.filter_map(f).len() > 0);
    }
}

/// A reply whose `data` items all carry string `b64_json` yields one image
/// per item, in order, each labelled with the item's MIME type (PNG where
/// it names none) and shown as its base64.
pub proof fn law_openai_b64_items_in_order(value: JsonView, provider: ProviderConfig)
    requires
        items_of(member(value, "data"@)) is Some,
        items_of(member(value, "data"@))->Some_0.len() > 0,
        forall|k: int|
            0 <= k < items_of(member(value, "data"@))->Some_0.len() ==> #[trigger] text_of(
                member(items_of(member(value, "data"@))->Some_0[k], "b64_json"@),
            ) is Some,
    ensures
        openai_outcome(value, provider) is Ok,
        openai_outcome(value, provider)->Ok_0.len() == items_of(member(value, "data"@))->Some_0.len(),
        forall|k: int|
            0 <= k < items_of(member(value, "data"@))->Some_0.len() ==> {
                let item = items_of(member(value, "data"@))->Some_0[k];
                let m = label_or_png(text_of(member(item, "mime_type"@)));
                #[trigger] openai_outcome(value, provider)->Ok_0[k] == GeneratedImageView {
                    data_url: shown_as(m, text_of(member(item, "b64_json"@))->Some_0),
                    mime_type: m,
                    model: provider.model@,
                    provider: provider.name@,
                }
            },
{
    let items = items_of(member(value, "data"@))->Some_0;
    let f = openai_item_fn(provider);
    assert forall|k: int| 0 <= k < items.len() implies #[trigger] f(items[k]) is Some by {
        assert(text_of(member(items[k], "b64_json"@)) is Some);
    }
    lemma_filter_map_total(items, f);
}

/// The image that a Gemini part carries inline, stated over its members:
/// `inlineData` (else `inline_data`) with string `data` `b`, labelled with
/// its string `mimeType` (else `mime_type`, else PNG).
pub open spec fn inline_image(part: JsonView, provider: ProviderConfig) -> Option<GeneratedImageView> {
    let inline = match member(part, "inlineData"@) {
        Some(x) => Some(x),
        None => member(part, "inline_data"@),
    };
    match inline {
        None => None,
        Some(d) => match text_of(member(d, "data"@)) {
            None => None,
            Some(b) => {
                let label = match member(d, "mimeType"@) {
                    Some(x) => text_of(Some(x)),
                    None => text_of(member(d, "mime_type"@)),
                };
                let m = label_or_png(label);
                Some(GeneratedImageView { data_url: shown_as(m, b), mime_type: m, model: provider.model@, provider: provider.name@ })
            },
        },
    }
}

/// The parts of candidate `c` of a Gemini reply, where it has a parts array.
pub open spec fn candidate_parts(value: JsonView, c: int) -> Option<Seq<JsonView>> {
    items_of(member_of(member(items_of(member(value, "candidates"@))->Some_0[c], "content"@), "parts"@))
}

/// Part `k` of candidate `c` of a Gemini reply.
pub open spec fn part_at(value: JsonView, c: int, k: int) -> JsonView {
    candidate_parts(value, c)->Some_0[k]
}

/// Item `k` of the `data` array of an OpenAI-style reply.
pub open spec fn data_item(value: JsonView, k: int) -> JsonView {
    items_of(member(value, "data"@))->Some_0[k]
}

/// Where the images of a list of groups are in a group, they are in the flattened list.
proof fn lemma_flatten_has<A>(groups: Seq<Seq<A>>, i: int, x: A)
    requires
        0 <= i < groups.len(),
        groups[i].contains(x),
    ensures
        groups.flatten().contains(x),
    decreases groups.len(),
{
    let init = groups.drop_last();
    init.lemma_flatten_push(groups.last());
    assert(init.push(groups.last()) =~= groups);
    let j = choose|j: int| 0 <= j < groups[i].len() && groups[i][j] == x;
    if i == groups.len() - 1 {
        assert(groups.flatten()[init.flatten().len() + j] == x);
    } else {
        assert(init[i] == groups[i]);
        lemma_flatten_has(init, i, x);
        let h = choose|h: int| 0 <= h < init.flatten().len() && init.flatten()[h] == x;
        assert(groups.flatten()[h] == x);
    }
}

/// Each part of each Gemini candidate's `content.parts` that carries an
/// inline image yields that image.
pub proof fn law_gemini_part_yields_its_image(value: JsonView, provider: ProviderConfig, c: int, k: int)
    requires
        items_of(member(value, "candidates"@)) is Some,
        0 <= c < items_of(member(value, "candidates"@))->Some_0.len(),
        items_of(member_of(member(items_of(member(value, "candidates"@))->Some_0[c], "content"@), "parts"@)) is Some,
        0 <= k < items_of(
            member_of(member(items_of(member(value, "candidates"@))->Some_0[c], "content"@), "parts"@),
        )->Some_0.len(),
        inline_image(
            items_of(
                member_of(member(items_of(member(value, "candidates"@))->Some_0[c], "content"@), "parts"@),
            )->Some_0[k],
            provider,
        ) is Some,
    ensures
        gemini_outcome(value, provider) is Ok,
        gemini_outcome(value, provider)->Ok_0.contains(
            inline_image(
                items_of(
                    member_of(member(items_of(member(value, "candidates"@))->Some_0[c], "content"@), "parts"@),
                )->Some_0[k],
                provider,
            )->Some_0,
        ),
{
    let candidates = items_of(member(value, "candidates"@))->Some_0;
    let candidate = candidates[c];
    let parts = items_of(member_of(member(candidate, "content"@), "parts"@))->Some_0;
    let g = gemini_part_fn(provider);
    let x = inline_image(parts[k], provider)->Some_0;
    assert(g(parts[k]) == Some(x));
    lemma_filter_map_has(parts, g, k);
    let groups = candidates.map_values(gemini_candidate_fn(provider));
    assert(groups[c] == gemini_candidate_images(candidate, provider));
    lemma_flatten_has(groups, c, x);
    assert(groups.flatten().len() > 0);
}

/// Every image of a Gemini reply comes from a part of some candidate.
pub proof fn law_gemini_images_come_from_parts(value: JsonView, provider: ProviderConfig, i: int)
    requires
        gemini_outcome(value, provider) is Ok,
        0 <= i < gemini_outcome(value, provider)->Ok_0.len(),
    ensures
        exists|c: int, k: int|
            {
                &&& 0 <= c < items_of(member(value, "candidates"@))->Some_0.len()
                &&& candidate_parts(value, c) is Some
                &&& 0 <= k < candidate_parts(value, c)->Some_0.len()
                &&& inline_image(#[trigger] part_at(value, c, k), provider) == Some(
                    gemini_outcome(value, provider)->Ok_0[i],
                )
            },
{
    let candidates = items_of(member(value, "candidates"@))->Some_0;
    let groups = candidates.map_values(gemini_candidate_fn(provider));
    let x = gemini_outcome(value, provider)->Ok_0[i];
    lemma_flatten_from(groups, i);
    let c = choose|c: int| 0 <= c < groups.len() && groups[c].contains(x);
    let candidate = candidates[c];
    assert(groups[c] == gemini_candidate_images(candidate, provider));
    let parts = items_of(member_of(member(candidate, "content"@), "parts"@))->Some_0;
    let g = gemini_part_fn(provider);
    assert(items_of(member_of(member(candidate, "content"@), "parts"@)) is Some) by {
        if items_of(member_of(member(candidate, "content"@), "parts"@)) is None {
            assert(groups[c].len() == 0);
        }
    }
    parts.lemma_filter_map_contains(g, x);
    let t = choose|t: JsonView| #[trigger] parts.contains(t) && g(t) == Some(x);
    let k = choose|k: int| 0 <= k < parts.len() && parts[k] == t;
    assert(inline_image(parts[k], provider) == Some(x));
    assert(part_at(value, c, k) == parts[k]);
}

/// An element of a flattened list lies in one of the groups.
proof fn lemma_flatten_from<A>(groups: Seq<Seq<A>>, i: int)
    requires
        0 <= i < groups.flatten().len(),
    ensures
        exists|c: int| 0 <= c < groups.len() && #[trigger] groups[c].contains(groups.flatten()[i]),
    decreases groups.len(),
{
    let init = groups.drop_last();
    init.lemma_flatten_push(groups.last());
    assert(init.push(groups.last()) =~= groups);
    let x = groups.flatten()[i];
    if i < init.flatten().len() {
        assert(init.flatten()[i] == x);
        lemma_flatten_from(init, i);
        let c = choose|c: int| 0 <= c < init.len() && #[trigger] init[c].contains(init.flatten()[i]);
        assert(groups[c] == init[c]);
    } else {
        let j = i - init.flatten().len();
        assert(groups.last()[j] == x);
        assert(groups[groups.len() - 1].contains(x));
    }
}

/// The image an OpenAI-style item yields where it yields one: its base64
/// shown as a data URL, or else its URL, labelled with its MIME type (PNG
/// where it names none), with the provider's model and name.
pub open spec fn image_from_item(item: JsonView, provider: ProviderConfig) -> GeneratedImageView {
    let m = label_or_png(text_of(member(item, "mime_type"@)));
    GeneratedImageView {
        data_url: match text_of(member(item, "b64_json"@)) {
            Some(b) => shown_as(m, b),
            None => text_of(member(item, "url"@))->Some_0,
        },
        mime_type: m,
        model: provider.model@,
        provider: provider.name@,
    }
}

/// Every image of an OpenAI-style reply comes from an item of its `data`
/// array: the item's base64 shown as a data URL, or else its URL, labelled
/// with its MIME type (PNG where it names none).
pub proof fn law_openai_images_come_from_items(value: JsonView, provider: ProviderConfig, i: int)
    requires
        openai_outcome(value, provider) is Ok,
        0 <= i < openai_outcome(value, provider)->Ok_0.len(),
    ensures
        exists|k: int|
            {
                &&& 0 <= k < items_of(member(value, "data"@))->Some_0.len()
                &&& openai_outcome(value, provider)->Ok_0[i] == image_from_item(#[trigger] data_item(value, k), provider)
            },
{
    let items = items_of(member(value, "data"@))->Some_0;
    let f = openai_item_fn(provider);
    let x = openai_outcome(value, provider)->Ok_0[i];
    assert(items.filter_map(f).contains(x));
    items.lemma_filter_map_contains(f, x);
    let t = choose|t: JsonView| #[trigger] items.contains(t) && f(t) == Some(x);
    let k = choose|k: int| 0 <= k < items.len() && items[k] == t;
    assert(data_item(value, k) == t);
}

/// Where no input element maps to an output, `filter_map` gives nothing;
/// it never gives more outputs than inputs.
pub proof fn lemma_filter_map_len<A, B>(s: Seq<A>, f: spec_fn(A) -> Option<B>)
    ensures
        s.filter_map(f).len() <= s.len(),
        (forall|k: int| 0 <= k < s.len() ==> #[trigger] f(s[k]) is None) ==> s.filter_map(f).len() == 0,
    decreases s.len(),
{
    if s.len() > 0 {
        let rest = s.drop_last();
        lemma_filter_map_len(rest, f);
        if forall|k: int| 0 <= k < s.len() ==> #[trigger] f(s[k]) is None {
            assert forall|k: int| 0 <= k < rest.len() implies #[trigger] f(rest[k]) is None by {
                assert(rest[k] == s[k]);
                assert(f(s[k]) is None);
            }
            assert(f(s[s.len() - 1]) is None);
        }
    }
}

/// An item of an OpenAI-style `data` array that yields an image: it holds
/// string `b64_json` or string `url`.
pub open spec fn yields_image(item: JsonView) -> bool {
    text_of(member(item, "b64_json"@)) is Some || text_of(member(item, "url"@)) is Some
}

/// An OpenAI-style reply without a `data` array is refused with its own
/// message; one whose items hold no image with another; else its images are
/// at least one and at most one per item.
pub proof fn law_openai_outcome_cases(value: JsonView, provider: ProviderConfig)
    ensures
        items_of(member(value, "data"@)) is None ==> openai_outcome(value, provider) == Err::<
            Seq<GeneratedImageView>,
            Seq<char>,
        >("响应缺少 data 数组"@),
        items_of(member(value, "data"@)) matches Some(items) ==> {
            &&& (forall|k: int| 0 <= k < items.len() ==> !yields_image(#[trigger] items[k]))
                ==> openai_outcome(value, provider) == Err::<Seq<GeneratedImageView>, Seq<char>>(
                "响应中没有可显示的图片"@,
            )
            &&& (exists|k: int| 0 <= k < items.len() && yields_image(#[trigger] items[k])) ==> openai_outcome(
                value,
                provider,
            ) is Ok
            &&& openai_outcome(value, provider) matches Ok(images) ==> 0 < images.len() <= items.len()
        },
{
    if let Some(items) = items_of(member(value, "data"@)) {
        let f = openai_item_fn(provider);
        lemma_filter_map_len(items, f);
        if forall|k: int| 0 <= k < items.len() ==> !yields_image(#[trigger] items[k]) {
            assert forall|k: int| 0 <= k < items.len() implies #[trigger] f(items[k]) is None by {
                assert(!yields_image(items[k]));
            }
        }
        if exists|k: int| 0 <= k < items.len() && yields_image(#[trigger] items[k]) {
            let k = choose|k: int| 0 <= k < items.len() && yields_image(#[trigger] items[k]);
            lemma_filter_map_has(items, f, k);
        }
    }
}

/// A Gemini reply without a `candidates` array is refused with its own
/// message; one where no part of any candidate carries an inline image with
/// another.
pub proof fn law_gemini_outcome_cases(value: JsonView, provider: ProviderConfig)
    ensures
        items_of(member(value, "candidates"@)) is None ==> gemini_outcome(value, provider) == Err::<
            Seq<GeneratedImageView>,
            Seq<char>,
        >("响应缺少 candidates 数组"@),
        items_of(member(value, "candidates"@)) is Some && (forall|c: int, k: int|
            0 <= c < items_of(member(value, "candidates"@))->Some_0.len() && candidate_parts(value, c) is Some
                && 0 <= k < candidate_parts(value, c)->Some_0.len() ==> inline_image(
                #[trigger] part_at(value, c, k),
                provider,
            ) is None) ==> gemini_outcome(value, provider) == Err::<Seq<GeneratedImageView>, Seq<char>>(
            "响应中没有 Gemini inlineData 图片"@,
        ),
{
    if items_of(member(value, "candidates"@)) is Some {
        if gemini_outcome(value, provider) is Ok {
            law_gemini_images_come_from_parts(value, provider, 0);
        }
    }
}

/// The message of a failed request: the body's `error.message` where that
/// is a string, else the body's first 500 characters (all of a shorter body).
pub proof fn law_compact_error(text: Seq<char>, parsed: Option<JsonView>)
    ensures
        text_of(member_of(member_of(parsed, "error"@), "message"@)) matches Some(m) ==> compact_error_chars(
            text,
            parsed,
        ) == m,
        text_of(member_of(member_of(parsed, "error"@), "message"@)) is None ==> {
            &&& compact_error_chars(text, parsed).len() == if text.len() < 500 { text.len() as int } else { 500int }
            &&& compact_error_chars(text, parsed).is_prefix_of(text)
        },
{
    if text.len() > 500 {
        assert(text.take(500) =~= text.subrange(0, 500));
    } else {
        assert(text =~= text.subrange(0, text.len() as int));
    }
}

/// A reply with a successful status passes; any other is refused with
/// `接口返回 `, the status, `：` and the compacted body.
pub proof fn law_status_outcome(success: bool, status: Seq<char>, text: Seq<char>, parsed: Option<JsonView>)
    ensures
        success ==> status_outcome(success, status, text, parsed) is Ok,
        !success ==> status_outcome(success, status, text, parsed) == Err::<(), Seq<char>>(
            "接口返回 "@ + status + "："@ + compact_error_chars(text, parsed),
        ),
{
}

/// Base64 that is not yet a data URL is shown as `data:`, the MIME type,
/// `;base64,` and the base64; a data URL is shown as it is.
pub proof fn law_data_url_format(mime_type: Seq<char>, b64: Seq<char>)
    ensures
        !"data:"@.is_prefix_of(b64) ==> data_url_chars(mime_type, b64) == "data:"@ + mime_type + ";base64,"@ + b64,
        "data:"@.is_prefix_of(b64) ==> data_url_chars(mime_type, b64) == b64,
{
}

/// An error without causes is described by its message alone; each further
/// cause adds `；原因：` and its message at the end.
pub proof fn law_error_chain(message: Seq<char>, causes: Seq<Seq<char>>, cause: Seq<char>)
    ensures
        error_chain_chars(message, Seq::empty()) == message,
        error_chain_chars(message, causes.push(cause)) == error_chain_chars(message, causes) + "；原因："@ + cause,
        message.is_prefix_of(error_chain_chars(message, causes)),
    decreases causes.len(),
{
    assert(causes.push(cause).drop_last() =~= causes);
    if causes.len() > 0 {
        law_error_chain(message, causes.drop_last(), causes.last());
        let c = error_chain_chars(message, causes.drop_last());
        assert((c + "；原因："@ + causes.last()).subrange(0, message.len() as int) =~= c.subrange(
            0,
            message.len() as int,
        ));
    } else {
        assert(message.subrange(0, message.len() as int) =~= message);
    }
}

/// The images an OpenAI-style reply yields, in order: for each item of its
/// `data` array that holds string `b64_json` or string `url`, the image
/// built from that item; a refusal where there is none.
pub proof fn law_openai_images_exact(value: JsonView, provider: ProviderConfig)
    requires
        items_of(member(value, "data"@)) is Some,
    ensures
        ({
            let images = items_of(member(value, "data"@))->Some_0.filter_map(
                |item: JsonView|
                    if yields_image(item) {
                        Some(image_from_item(item, provider))
                    } else {
                        None
                    },
            );
            &&& images.len() > 0 ==> openai_outcome(value, provider) == Ok::<Seq<GeneratedImageView>, Seq<char>>(images)
            &&& images.len() == 0 ==> openai_outcome(value, provider) is Err
        }),
{
    let f = openai_item_fn(provider);
    let g = |item: JsonView|
        if yields_image(item) {
            Some(image_from_item(item, provider))
        } else {
            None
        };
    assert forall|item: JsonView| #[trigger] f(item) == g(item) by {}
    assert(f =~= g);
}

/// The images a Gemini reply yields, in order: candidate by candidate, part
/// by part, the inline image of each part of `content.parts` that carries
/// one; a refusal where there is none.
pub proof fn law_gemini_images_exact(value: JsonView, provider: ProviderConfig)
    requires
        items_of(member(value, "candidates"@)) is Some,
    ensures
        ({
            let images = items_of(member(value, "candidates"@))->Some_0.map_values(
                |c: JsonView|
                    match items_of(member_of(member(c, "content"@), "parts"@)) {
                        Some(parts) => parts.filter_map(|part: JsonView| inline_image(part, provider)),
                        None => Seq::empty(),
                    },
            ).flatten();
            &&& images.len() > 0 ==> gemini_outcome(value, provider) == Ok::<Seq<GeneratedImageView>, Seq<char>>(images)
            &&& images.len() == 0 ==> gemini_outcome(value, provider) is Err
        }),
{
    let f = gemini_part_fn(provider);
    let g = |part: JsonView| inline_image(part, provider);
    assert forall|part: JsonView| #[trigger] f(part) == g(part) by {}
    assert(f =~= g);
    let cf = gemini_candidate_fn(provider);
    let cg = |c: JsonView|
        match items_of(member_of(member(c, "content"@), "parts"@)) {
            Some(parts) => parts.filter_map(g),
            None => Seq::empty(),
        };
    assert forall|c: JsonView| #[trigger] cf(c) == cg(c) by {}
    assert(cf =~= cg);
}

} // verus!
