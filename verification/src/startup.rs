//! What is told where the window cannot be made.
use vstd::prelude::*;
use vstd::string::StringExecFns;

use crate::text;

verus! {

/// What each way of drawing said.
pub open spec fn detail(wgpu: Option<Seq<char>>, glow: Seq<char>) -> Seq<char> {
    match wgpu {
        Some(w) => "wgpu: "@ + w + "\nglow: "@ + glow,
        None => glow,
    }
}

/// What each way of drawing said.
pub fn startup_detail(wgpu: Option<&str>, glow: &str) -> (r: String)
    ensures
        r@ == detail(
            match wgpu {
                Some(w) => Some(w@),
                None => None,
            },
            glow@,
        ),
{
    match wgpu {
        Some(w) => {
            let mut out = text::join("wgpu: ", w);
            out.append("\nglow: ");
            out.append(glow);
            out
        },
        None => glow.to_owned(),
    }
}

/// The text of the message box.
pub open spec fn body_text(detail: Seq<char>) -> Seq<char> {
    "无法创建图形界面。\n\n常见原因：Windows Server / 远程桌面缺少可用的 DirectX 或 OpenGL。\n\n详情：\n"@
        + detail
}

/// The line for the terminal.
pub open spec fn error_line(detail: Seq<char>) -> Seq<char> {
    "Sway 启动失败: "@ + detail
}

/// The text of the message box.
pub fn startup_body(detail: &str) -> (r: String)
    ensures
        r@ == "无法创建图形界面。\n\n常见原因：Windows Server / 远程桌面缺少可用的 DirectX 或 OpenGL。\n\n详情：\n"@
            + detail@,
        r@ == body_text(detail@),
{
    text::join(
        "无法创建图形界面。\n\n常见原因：Windows Server / 远程桌面缺少可用的 DirectX 或 OpenGL。\n\n详情：\n",
        detail,
    )
}

/// The line for the terminal.
pub fn show_startup_error(detail: &str) -> (r: String)
    ensures
        r@ == "Sway 启动失败: "@ + detail@,
        r@ == error_line(detail@),
{
    text::join("Sway 启动失败: ", detail)
}

/// What the last way of drawing said stands at the end, and what another one said before, with
/// the names of both; where there was no other, nothing is put in front.
pub proof fn law_detail_tells_what_each_said(wgpu: Option<Seq<char>>, glow: Seq<char>)
    ensures
        ({
            let told = detail(wgpu, glow);
            &&& crate::keys::ends_with(told, glow)
            &&& wgpu is None ==> told == glow
            &&& wgpu matches Some(w) ==> {
                &&& text::starts_with(told, "wgpu: "@ + w)
                &&& text::occurs_at(told, "\nglow: "@ + glow, 6 + w.len() as int)
                &&& told.len() == 6 + w.len() + 7 + glow.len()
            }
        }),
{
    let told = detail(wgpu, glow);
    assert(told.skip(told.len() - glow.len()) =~= glow);
    if let Some(w) = wgpu {
        reveal_strlit("wgpu: ");
        reveal_strlit("\nglow: ");
        let first = "wgpu: "@ + w;
        let last = "\nglow: "@ + glow;
        assert(told.subrange(0, first.len() as int) =~= first);
        assert(told.subrange(first.len() as int, told.len() as int) =~= last);
    }
}

/// The message box and the line for the terminal end with the detail, and something is said
/// before it.
pub proof fn law_messages_end_with_the_detail(told: Seq<char>, other: Seq<char>)
    ensures
        crate::keys::ends_with(body_text(told), told),
        crate::keys::ends_with(error_line(told), told),
        text::starts_with(error_line(told), "Sway "@),
        body_text(told).len() > told.len(),
        error_line(told).len() > told.len(),
        body_text(told) == body_text(other) ==> told == other,
        error_line(told) == error_line(other) ==> told == other,
{
    let body = body_text(told);
    let line = error_line(told);
    reveal_strlit("Sway 启动失败: ");
    reveal_strlit("Sway ");
    reveal_strlit(
        "无法创建图形界面。\n\n常见原因：Windows Server / 远程桌面缺少可用的 DirectX 或 OpenGL。\n\n详情：\n",
    );
    assert(body.skip(body.len() - told.len()) =~= told);
    assert(line.skip(line.len() - told.len()) =~= told);
    assert(line.subrange(0, 5) =~= "Sway "@);
    let n = (body.len() - told.len()) as int;
    let m = (line.len() - told.len()) as int;
    assert(body_text(other).skip(n) =~= other);
    assert(error_line(other).skip(m) =~= other);
}

} // verus!
