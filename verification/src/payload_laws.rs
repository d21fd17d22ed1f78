//! What validation accepts and what the prompt says, stated over the
//! request's fields and independently of how those functions are written.
use vstd::prelude::*;
use crate::model::{GeneratePayload, ProcessMode, ReferenceImage};
use crate::prompt::prompt_lines;
use crate::text::{is_blank_chars, join_chars, trim_chars};
use crate::validation::payload_problem;

verus! {

/// A request is accepted exactly when its prompt, endpoint, model and key
/// are not blank, it asks for 1 to 4 images, and it carries a reference
/// image unless it only generates.
pub proof fn law_accepted_requests(p: GeneratePayload)
    ensures
        payload_problem(p) is None <==> {
            &&& !is_blank_chars(p.prompt@)
            &&& !is_blank_chars(p.provider.endpoint@)
            &&& !is_blank_chars(p.provider.model@)
            &&& !is_blank_chars(p.provider.api_key@)
            &&& 1 <= p.count <= 4
            &&& (p.mode == ProcessMode::Generate || p.reference_images@.len() > 0)
        },
{
}

/// Editing and variation requests without a reference image are refused,
/// whatever else they hold.
pub proof fn law_editing_needs_a_reference(p: GeneratePayload)
    requires
        p.mode != ProcessMode::Generate,
        p.reference_images@.len() == 0,
    ensures
        payload_problem(p) is Some,
{
}

/// No line of `lines` begins with `label`.
pub open spec fn no_line_labelled(lines: Seq<Seq<char>>, label: Seq<char>) -> bool {
    forall|i: int| 0 <= i < lines.len() ==> !label.is_prefix_of(#[trigger] lines[i])
}

/// The prompt's lines: first the mode, then the trimmed prompt; a project
/// line exactly when the project is not blank, a tags line exactly when the
/// tags are not blank (each whatever the other is), and a line naming the
/// reference images, in order and comma-separated, exactly when there are
/// some; nothing else.
pub proof fn law_prompt_lines(p: GeneratePayload)
    ensures
        ({
            let lines = prompt_lines(p);
            let project = !is_blank_chars(p.project@);
            let tags = !is_blank_chars(p.tags@);
            let refs = p.reference_images@.len() > 0;
            &&& lines.len() == 2 + (if project { 1int } else { 0int }) + (if tags { 1int } else { 0int }) + (if refs {
                1int
            } else {
                0int
            })
            &&& lines[0] == "模式："@ + match p.mode {
                ProcessMode::Generate => "文生图"@,
                ProcessMode::Edit => "图生图"@,
                ProcessMode::Variation => "变体或局部修改"@,
            }
            &&& lines[1] == "提示词："@ + trim_chars(p.prompt@)
            &&& project ==> lines.contains("项目："@ + trim_chars(p.project@))
            &&& !project ==> no_line_labelled(lines, "项目："@)
            &&& tags ==> lines.contains("标签："@ + trim_chars(p.tags@))
            &&& !tags ==> no_line_labelled(lines, "标签："@)
            &&& refs ==> lines.last() == "参考图："@ + join_chars(
                p.reference_images@.map_values(|i: ReferenceImage| i.name@),
                ", "@,
            )
            &&& !refs ==> no_line_labelled(lines, "参考图："@)
        }),
{
    let lines = prompt_lines(p);
    reveal_strlit("模式：");
    reveal_strlit("提示词：");
    reveal_strlit("项目：");
    reveal_strlit("标签：");
    reveal_strlit("参考图：");
    assert forall|i: int| 0 <= i < lines.len() implies {
        &&& (#[trigger] lines[i]).len() > 0
        &&& lines[i][0] == '模' || lines[i][0] == '提' || lines[i][0] == '项' || lines[i][0] == '标'
            || lines[i][0] == '参'
        &&& lines[i][0] == '项' ==> !is_blank_chars(p.project@)
        &&& lines[i][0] == '标' ==> !is_blank_chars(p.tags@)
        &&& lines[i][0] == '参' ==> p.reference_images@.len() > 0
    } by {
        let l = lines[i];
        assert(l[0] == "模式："@[0] || l[0] == "提示词："@[0] || l[0] == "项目："@[0]
            || l[0] == "标签："@[0] || l[0] == "参考图："@[0]);
    }
    let project = !is_blank_chars(p.project@);
    let tags = !is_blank_chars(p.tags@);
    if project {
        let k = 2int;
        assert(lines[k] == "项目："@ + trim_chars(p.project@));
    }
    if tags {
        let k = if project { 3int } else { 2int };
        assert(lines[k] == "标签："@ + trim_chars(p.tags@));
    }
    assert forall|i: int| 0 <= i < lines.len() && "项目："@.is_prefix_of(#[trigger] lines[i]) implies project by {
        assert(lines[i][0] == "项目："@[0]);
    }
    assert forall|i: int| 0 <= i < lines.len() && "标签："@.is_prefix_of(#[trigger] lines[i]) implies tags by {
        assert(lines[i][0] == "标签："@[0]);
    }
    assert forall|i: int| 0 <= i < lines.len() && "参考图："@.is_prefix_of(#[trigger] lines[i]) implies p.reference_images@.len() > 0 by {
        assert(lines[i][0] == "参考图："@[0]);
    }
}

} // verus!
