//! The prompt text sent to a service.
use vstd::prelude::*;
use vstd::string::*;
use crate::model::{GeneratePayload, ProcessMode, ReferenceImage};
use crate::text::{is_blank, is_blank_chars, join_chars, join_strings, owned, str_trim, string_views, trim_chars};

verus! {

/// The name of a processing mode as the prompt states it.
pub open spec fn mode_label(m: ProcessMode) -> Seq<char> {
    match m {
        ProcessMode::Generate => "文生图"@,
        ProcessMode::Edit => "图生图"@,
        ProcessMode::Variation => "变体或局部修改"@,
    }
}

/// The names of the reference images, in order.
pub open spec fn reference_names(images: Seq<ReferenceImage>) -> Seq<Seq<char>> {
    images.map_values(|i: ReferenceImage| i.name@)
}

/// The lines of the prompt: mode, trimmed prompt, then the trimmed project
/// and tags where they are not blank, then the reference images' names.
pub open spec fn prompt_lines(p: GeneratePayload) -> Seq<Seq<char>> {
    let base = seq!["模式："@ + mode_label(p.mode), "提示词："@ + trim_chars(p.prompt@)];
    let with_project = if !is_blank_chars(p.project@) {
        base.push("项目："@ + trim_chars(p.project@))
    } else {
        base
    };
    let with_tags = if !is_blank_chars(p.tags@) {
        with_project.push("标签："@ + trim_chars(p.tags@))
    } else {
        with_project
    };
    if p.reference_images@.len() > 0 {
        with_tags.push("参考图："@ + join_chars(reference_names(p.reference_images@), ", "@))
    } else {
        with_tags
    }
}

/// The prompt: its lines joined by line feeds.
pub open spec fn prompt_text(p: GeneratePayload) -> Seq<char> {
    join_chars(prompt_lines(p), "\n"@)
}

/// `label` followed by `value`.
fn labelled(label: &str, value: &str) -> (r: String)
    ensures
        r@ == label@ + value@,
{
    let mut s = owned(label);
    s.append(value);
    s
}

/// The reference images' names joined by `, `.
fn joined_names(images: &Vec<ReferenceImage>) -> (r: String)
    ensures
        r@ == join_chars(reference_names(images@), ", "@),
{
    let mut names: Vec<String> = Vec::new();
    let mut i: usize = 0;
    while i < images.len()
        invariant
            i <= images.len(),
            names@.len() == i,
            string_views(names@) == reference_names(images@.take(i as int)),
        decreases images.len() - i,
    {
        let name = images[i].name.clone();
        assert(name@ == images@[i as int].name@);
        let ghost before = names@;
        names.push(name);
        assert(names@ == before.push(name));
        assert(images@.take(i + 1) =~= images@.take(i as int).push(images@[i as int]));
        assert forall|k: int| 0 <= k < i + 1 implies #[trigger] string_views(names@)[k] == reference_names(images@.take(i + 1))[k] by {
            if k < i {
                assert(string_views(before)[k] == reference_names(images@.take(i as int))[k]);
            }
        }
        assert(string_views(names@) =~= reference_names(images@.take(i + 1)));
        i = i + 1;
    }
    assert(images@.take(images.len() as int) =~= images@);
    join_strings(&names, ", ")
}

/// The prompt sent with a request.
pub fn build_prompt(payload: &GeneratePayload) -> (r: String)
    ensures
        r@ == prompt_text(*payload),
{
    let mode = match payload.mode {
        ProcessMode::Generate => "文生图",
        ProcessMode::Edit => "图生图",
        ProcessMode::Variation => "变体或局部修改",
    };
    let mut lines: Vec<String> = Vec::new();
    lines.push(labelled("模式：", mode));
    lines.push(labelled("提示词：", str_trim(payload.prompt.as_str())));
    if !is_blank(payload.project.as_str()) {
        lines.push(labelled("项目：", str_trim(payload.project.as_str())));
    }
    if !is_blank(payload.tags.as_str()) {
        lines.push(labelled("标签：", str_trim(payload.tags.as_str())));
    }
    if payload.reference_images.len() > 0 {
        let names = joined_names(&payload.reference_images);
        lines.push(labelled("参考图：", names.as_str()));
    }
    assert(string_views(lines@) =~= prompt_lines(*payload));
    join_strings(&lines, "\n")
}

} // verus!
