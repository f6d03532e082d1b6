//! Mermaid flowchart of an answer's tool calls ("thought flow"), and the
//! Markdown and HTML documents that carry it.

use vstd::prelude::*;
use crate::chat::{Msg, MsgView, ToolCallInfo, ToolCallView};
use crate::text::{chars_of, decimal, decimal_usize, push_char, push_str, take_chars_spec, take_chars};

verus! {

/// What a character becomes in a Mermaid label: quotes become apostrophes,
/// newlines, brackets, braces, angle brackets and '#' become spaces, and
/// '|', '&', ';' become '/', '+', ','.
pub open spec fn mermaid_char(c: char) -> char {
    if c == '"' {
        '\''
    } else if c == '\n' || c == '(' || c == ')' || c == '[' || c == ']' || c == '{' || c == '}'
        || c == '<' || c == '>' || c == '#' {
        ' '
    } else if c == '|' {
        '/'
    } else if c == '&' {
        '+'
    } else if c == ';' {
        ','
    } else {
        c
    }
}

/// The first `max_chars` characters of `s`, made safe for a Mermaid label.
pub open spec fn mermaid_escape_spec(s: Seq<char>, max_chars: nat) -> Seq<char> {
    take_chars_spec(s, max_chars).map_values(|c: char| mermaid_char(c))
}

fn mermaid_char_exec(c: char) -> (d: char)
    ensures
        d == mermaid_char(c),
{
    if c == '"' {
        '\''
    } else if c == '\n' || c == '(' || c == ')' || c == '[' || c == ']' || c == '{' || c == '}'
        || c == '<' || c == '>' || c == '#' {
        ' '
    } else if c == '|' {
        '/'
    } else if c == '&' {
        '+'
    } else if c == ';' {
        ','
    } else {
        c
    }
}

/// A character that breaks a Mermaid label.
pub open spec fn breaks_label(c: char) -> bool {
    c == '"' || c == '\n' || c == '(' || c == ')' || c == '[' || c == ']' || c == '{' || c == '}'
        || c == '|' || c == '<' || c == '>' || c == '#' || c == '&' || c == ';'
}

/// An escaped label holds no character that breaks the Mermaid parser, is
/// no longer than asked, and keeps every other character in place.
pub proof fn law_escaped_label_is_safe(s: Seq<char>, max_chars: nat)
    ensures
        mermaid_escape_spec(s, max_chars).len() <= max_chars,
        mermaid_escape_spec(s, max_chars).len() <= s.len(),
        forall|i: int|
            0 <= i < mermaid_escape_spec(s, max_chars).len() ==> !breaks_label(
                #[trigger] mermaid_escape_spec(s, max_chars)[i],
            ),
        forall|i: int|
            0 <= i < mermaid_escape_spec(s, max_chars).len() && !breaks_label(s[i])
                ==> mermaid_escape_spec(s, max_chars)[i] == s[i],
{
}

/// Escapes text for a Mermaid label, keeping at most `max_chars` characters.
pub fn mermaid_escape(s: &str, max_chars: usize) -> (r: String)
    ensures
        r@ == mermaid_escape_spec(s@, max_chars as nat),
{
    let short = take_chars(s, max_chars);
    let v = chars_of(short.as_str());
    let mut out = String::new();
    let mut i: usize = 0;
    while i < v.len()
        invariant
            i <= v.len(),
            out@ == v@.take(i as int).map_values(|c: char| mermaid_char(c)),
        decreases v.len() - i,
    {
        let d = mermaid_char_exec(v[i]);
        push_char(&mut out, d);
        i = i + 1;
        assert(out@ =~= v@.take(i as int).map_values(|c: char| mermaid_char(c)));
    }
    assert(v@.take(v.len() as int) =~= v@);
    out
}

/// Node name of the `i`-th tool call.
pub open spec fn tool_node(i: nat) -> Seq<char> {
    "T"@ + decimal(i)
}

/// The node line of tool call `i`: its name and escaped arguments.
pub open spec fn tool_node_line(i: nat, tc: ToolCallView) -> Seq<char> {
    "    "@ + tool_node(i) + "[\""@ + tc.name + "  "@ + mermaid_escape_spec(tc.arguments, 35)
        + "\"]\n"@
}

/// The arrow line of tool call `i` of `total`: status and escaped result,
/// towards the next call or the answer node.
pub open spec fn tool_arrow_line(i: nat, total: nat, tc: ToolCallView) -> Seq<char> {
    let next = if i + 1 < total { tool_node(i + 1) } else { "R"@ };
    let status = if tc.is_error { "ERREUR"@ } else { "OK"@ };
    "    "@ + tool_node(i) + " -->|"@ + status + ": "@ + mermaid_escape_spec(tc.result, 35) + "| "@
        + next + "\n"@
}

/// The two lines for tool call `i` of `total`.
pub open spec fn tool_call_lines(i: nat, total: nat, tc: ToolCallView) -> Seq<char> {
    tool_node_line(i, tc) + tool_arrow_line(i, total, tc)
}

/// Node and arrow lines of the first `k` tool calls.
pub open spec fn tool_calls_lines(calls: Seq<ToolCallView>, k: nat) -> Seq<char>
    decreases k,
{
    if k == 0 {
        Seq::empty()
    } else {
        tool_calls_lines(calls, (k - 1) as nat) + tool_call_lines(
            (k - 1) as nat,
            calls.len(),
            calls[k - 1],
        )
    }
}

/// Style line of tool call `i`: dark red when it failed, dark amber otherwise.
pub open spec fn tool_style_line(i: nat, tc: ToolCallView) -> Seq<char> {
    let fill = if tc.is_error { "#7f2a2a"@ } else { "#5a4a1a"@ };
    let stroke = if tc.is_error { "#cc5555"@ } else { "#ccaa44"@ };
    "    style "@ + tool_node(i) + " fill:"@ + fill + ",stroke:"@ + stroke + ",color:#fff\n"@
}

/// Style lines of the first `k` tool calls.
pub open spec fn tool_styles(calls: Seq<ToolCallView>, k: nat) -> Seq<char>
    decreases k,
{
    if k == 0 {
        Seq::empty()
    } else {
        tool_styles(calls, (k - 1) as nat) + tool_style_line((k - 1) as nat, calls[k - 1])
    }
}

/// The flowchart for an answer `msg` to `user_prompt`.
pub open spec fn thought_flow_spec(msg: MsgView, user_prompt: Seq<char>) -> Seq<char> {
    let n = msg.tool_calls.len();
    "flowchart TD\n"@ + "    U[\"User: "@ + mermaid_escape_spec(user_prompt, 50) + "\"]\n"@ + (if n
        == 0 {
        "    U --> R\n"@
    } else {
        "    U --> T0\n"@
    }) + tool_calls_lines(msg.tool_calls, n) + "    R[\"Reponse: "@ + mermaid_escape_spec(
        msg.content,
        50,
    ) + "\"]\n"@ + "    style U fill:#2a4a7f,stroke:#5588cc,color:#fff\n"@
        + "    style R fill:#2a6f2a,stroke:#55cc55,color:#fff\n"@ + tool_styles(msg.tool_calls, n)
}

fn push_node_name(out: &mut String, i: usize)
    ensures
        final(out)@ == old(out)@ + tool_node(i as nat),
{
    push_char(out, 'T');
    let d = decimal_usize(i);
    push_str(out, d.as_str());
    proof {
        reveal_strlit("T");
    }
    assert(out@ =~= old(out)@ + tool_node(i as nat));
}

fn push_tool_node_line(out: &mut String, i: usize, tc: &ToolCallInfo)
    ensures
        final(out)@ == old(out)@ + tool_node_line(i as nat, tc@),
{
    push_str(out, "    ");
    push_node_name(out, i);
    push_str(out, "[\"");
    push_str(out, tc.name.as_str());
    push_str(out, "  ");
    let a = mermaid_escape(tc.arguments.as_str(), 35);
    push_str(out, a.as_str());
    push_str(out, "\"]\n");
    assert(out@ =~= old(out)@ + tool_node_line(i as nat, tc@));
}

fn push_tool_arrow_line(out: &mut String, i: usize, n: usize, tc: &ToolCallInfo)
    requires
        i < n,
    ensures
        final(out)@ == old(out)@ + tool_arrow_line(i as nat, n as nat, tc@),
{
    push_str(out, "    ");
    push_node_name(out, i);
    push_str(out, " -->|");
    if tc.is_error {
        push_str(out, "ERREUR");
    } else {
        push_str(out, "OK");
    }
    let ghost mid = out@;
    push_str(out, ": ");
    let r = mermaid_escape(tc.result.as_str(), 35);
    push_str(out, r.as_str());
    push_str(out, "| ");
    if i + 1 < n {
        push_node_name(out, i + 1);
    } else {
        push_char(out, 'R');
        proof {
            reveal_strlit("R");
        }
        assert(seq!['R'] =~= "R"@);
    }
    push_str(out, "\n");
    assert(out@ =~= old(out)@ + tool_arrow_line(i as nat, n as nat, tc@));
}

fn push_tool_call_lines(out: &mut String, i: usize, n: usize, tc: &ToolCallInfo)
    requires
        i < n,
    ensures
        final(out)@ == old(out)@ + tool_call_lines(i as nat, n as nat, tc@),
{
    push_tool_node_line(out, i, tc);
    push_tool_arrow_line(out, i, n, tc);
    assert(out@ =~= old(out)@ + tool_call_lines(i as nat, n as nat, tc@));
}

fn push_tool_style_line(out: &mut String, i: usize, tc: &ToolCallInfo)
    ensures
        final(out)@ == old(out)@ + tool_style_line(i as nat, tc@),
{
    push_str(out, "    style ");
    push_node_name(out, i);
    push_str(out, " fill:");
    if tc.is_error {
        push_str(out, "#7f2a2a");
    } else {
        push_str(out, "#5a4a1a");
    }
    push_str(out, ",stroke:");
    if tc.is_error {
        push_str(out, "#cc5555");
    } else {
        push_str(out, "#ccaa44");
    }
    push_str(out, ",color:#fff\n");
    assert(out@ =~= old(out)@ + tool_style_line(i as nat, tc@));
}

/// The Mermaid flowchart of the tool calls made in `msg`, answering `user_prompt`.
pub fn generate_thought_flow(msg: &Msg, user_prompt: &str) -> (flow: String)
    ensures
        flow@ == thought_flow_spec(msg@, user_prompt@),
{
    let ghost calls = msg@.tool_calls;
    let n = msg.tool_calls.len();
    let mut out = String::new();
    push_str(&mut out, "flowchart TD\n");
    push_str(&mut out, "    U[\"User: ");
    let u = mermaid_escape(user_prompt, 50);
    push_str(&mut out, u.as_str());
    push_str(&mut out, "\"]\n");
    if n == 0 {
        push_str(&mut out, "    U --> R\n");
    } else {
        push_str(&mut out, "    U --> T0\n");
    }
    let ghost head = out@;
    let mut i: usize = 0;
    while i < n
        invariant
            n == msg.tool_calls@.len(),
            calls == msg@.tool_calls,
            calls.len() == n,
            i <= n,
            out@ == head + tool_calls_lines(calls, i as nat),
        decreases n - i,
    {
        let tc: &ToolCallInfo = &msg.tool_calls[i];
        assert(calls[i as int] == tc@);
        let ghost before = out@;
        push_tool_call_lines(&mut out, i, n, tc);
        assert(out@ =~= before + tool_call_lines(i as nat, n as nat, calls[i as int]));
        i = i + 1;
    }
    push_str(&mut out, "    R[\"Reponse: ");
    let c = mermaid_escape(msg.content.as_str(), 50);
    push_str(&mut out, c.as_str());
    push_str(&mut out, "\"]\n");
    push_str(&mut out, "    style U fill:#2a4a7f,stroke:#5588cc,color:#fff\n");
    push_str(&mut out, "    style R fill:#2a6f2a,stroke:#55cc55,color:#fff\n");
    let ghost mid = out@;
    let mut i: usize = 0;
    while i < n
        invariant
            n == msg.tool_calls@.len(),
            calls == msg@.tool_calls,
            calls.len() == n,
            i <= n,
            out@ == mid + tool_styles(calls, i as nat),
        decreases n - i,
    {
        let tc: &ToolCallInfo = &msg.tool_calls[i];
        assert(calls[i as int] == tc@);
        let ghost before = out@;
        push_tool_style_line(&mut out, i, tc);
        assert(out@ =~= before + tool_style_line(i as nat, calls[i as int]));
        i = i + 1;
    }
    assert(out@ =~= thought_flow_spec(msg@, user_prompt@));
    out
}

/// The Markdown document holding a flowchart.
pub open spec fn thought_flow_markdown_spec(flow: Seq<char>) -> Seq<char> {
    "# Thought Flow\n\n```mermaid\n"@ + flow + "\n```\n"@
}

/// Markdown document for a flowchart (`_thought_flow.md`).
pub fn thought_flow_markdown(flow: &str) -> (doc: String)
    ensures
        doc@ == thought_flow_markdown_spec(flow@),
{
    let mut out = String::new();
    push_str(&mut out, "# Thought Flow\n\n```mermaid\n");
    push_str(&mut out, flow);
    push_str(&mut out, "\n```\n");
    out
}

/// Text of the HTML page before the flowchart.
pub open spec fn html_head() -> Seq<char> {
    "<!DOCTYPE html>\n<html><head>\n<meta charset=\"UTF-8\">\n<title>Thought Flow</title>\n<style>\nbody { background: #1a1a2e; display: flex; justify-content: center; padding: 40px; }\n.mermaid { background: #16213e; padding: 30px; border-radius: 12px; }\n</style>\n</head><body>\n<pre class=\"mermaid\">\n"@
}

/// Text of the HTML page after the flowchart.
pub open spec fn html_tail() -> Seq<char> {
    "\n</pre>\n<script src=\"https://cdn.jsdelivr.net/npm/mermaid@10/dist/mermaid.min.js\"></script>\n<script>mermaid.initialize({ startOnLoad: true, theme: 'dark' });</script>\n</body></html>"@
}

/// HTML page rendering a flowchart (`_thought_flow.html`).
pub fn thought_flow_html(flow: &str) -> (doc: String)
    ensures
        doc@ == html_head() + flow@ + html_tail(),
{
    let mut out = String::new();
    push_str(&mut out, "<!DOCTYPE html>\n<html><head>\n<meta charset=\"UTF-8\">\n<title>Thought Flow</title>\n<style>\nbody { background: #1a1a2e; display: flex; justify-content: center; padding: 40px; }\n.mermaid { background: #16213e; padding: 30px; border-radius: 12px; }\n</style>\n</head><body>\n<pre class=\"mermaid\">\n");
    push_str(&mut out, flow);
    push_str(&mut out, "\n</pre>\n<script src=\"https://cdn.jsdelivr.net/npm/mermaid@10/dist/mermaid.min.js\"></script>\n<script>mermaid.initialize({ startOnLoad: true, theme: 'dark' });</script>\n</body></html>");
    out
}

} // verus!
