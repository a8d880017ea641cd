//! Conversation messages as the agent keeps them, and their wire form: the
//! JSON text of a message with object keys in sorted order and the
//! assistant's token usage left out (usage is bookkeeping, never sent).

use vstd::prelude::*;
use vstd::string::StringExecFns;

verus! {

/// A tool call requested by the model. `arguments` is the JSON text of the
/// call's argument object.
pub struct ToolCall {
    pub id: String,
    pub name: String,
    pub arguments: String,
}

/// Token usage reported by the provider for one response.
#[derive(Clone, Copy, Debug, PartialEq, Eq, Structural)]
pub struct Usage {
    pub prompt_tokens: u32,
    pub completion_tokens: u32,
    pub total_tokens: u32,
}

/// One block of an assistant message.
pub enum ContentBlock {
    Text { text: String },
    Thinking { thinking: String },
    ToolCall { tool_call: ToolCall },
}

/// A message of the conversation context.
#[allow(inconsistent_fields)]
pub enum AgentMessage {
    System { content: String },
    User { content: String },
    Assistant { content: Vec<ContentBlock>, usage: Option<Usage> },
    Tool { tool_call_id: String, tool_name: String, tool_arguments: String, result: String },
}

/// A lowercase hexadecimal digit.
pub open spec fn hex_digit(n: int) -> char {
    if n < 10 {
        (('0' as int) + n) as char
    } else {
        (('a' as int) + n - 10) as char
    }
}

/// One character as a JSON string writes it: `"` and `\` behind a
/// backslash; backspace, form feed, newline, carriage return and tab as
/// `\b`, `\f`, `\n`, `\r`, `\t`; other characters below U+0020 as
/// `\u00` and two lowercase hex digits; anything else as itself.
pub open spec fn json_escape_char(c: char) -> Seq<char> {
    if c == '"' {
        seq!['\\', '"']
    } else if c == '\\' {
        seq!['\\', '\\']
    } else if c == '\u{8}' {
        seq!['\\', 'b']
    } else if c == '\u{c}' {
        seq!['\\', 'f']
    } else if c == '\n' {
        seq!['\\', 'n']
    } else if c == '\r' {
        seq!['\\', 'r']
    } else if c == '\t' {
        seq!['\\', 't']
    } else if (c as int) < 0x20 {
        seq!['\\', 'u', '0', '0', hex_digit((c as int) / 16), hex_digit((c as int) % 16)]
    } else {
        seq![c]
    }
}

/// The characters of `s`, each escaped for a JSON string.
pub open spec fn json_escaped(s: Seq<char>) -> Seq<char>
    decreases s.len(),
{
    if s.len() == 0 {
        Seq::empty()
    } else {
        json_escaped(s.drop_last()) + json_escape_char(s.last())
    }
}

/// The JSON string literal for the characters `s`: its escaped characters
/// between double quotes.
pub open spec fn json_quoted(s: Seq<char>) -> Seq<char> {
    seq!['"'] + json_escaped(s) + seq!['"']
}

/// Quote `s` as a JSON string literal with `serde_json::to_string`, which
/// writes a string as [`json_quoted`] states (its escape table covers `"`,
/// `\` and the characters below U+0020); it cannot fail on a `&str`.
#[verifier::external_body]
fn json_quote(s: &str) -> (res: String)
    ensures
        res@ == json_quoted(s@),
{
    match serde_json::to_string(s) {
        Ok(t) => t,
        Err(_) => String::new(),
    }
}

/// Wire form of a tool call object.
pub open spec fn tool_call_wire(tc: ToolCall) -> Seq<char> {
    "{\"arguments\":"@ + tc.arguments@ + ",\"id\":"@ + json_quoted(tc.id@) + ",\"name\":"@
        + json_quoted(tc.name@) + "}"@
}

/// Wire form of one assistant block.
pub open spec fn block_wire(b: ContentBlock) -> Seq<char> {
    match b {
        ContentBlock::Text { text } => "{\"text\":"@ + json_quoted(text@) + ",\"type\":\"text\"}"@,
        ContentBlock::Thinking { thinking } => "{\"thinking\":"@ + json_quoted(thinking@)
            + ",\"type\":\"thinking\"}"@,
        ContentBlock::ToolCall { tool_call } => "{\"tool_call\":"@ + tool_call_wire(tool_call)
            + ",\"type\":\"tool_call\"}"@,
    }
}

/// Wire forms of the first `k` blocks, comma-separated.
pub open spec fn blocks_wire(bs: Seq<ContentBlock>, k: int) -> Seq<char>
    decreases k,
{
    if k <= 0 {
        seq![]
    } else if k == 1 {
        block_wire(bs[0])
    } else {
        blocks_wire(bs, k - 1) + ","@ + block_wire(bs[k - 1])
    }
}

/// Wire form of a message: its JSON with sorted keys, without `usage`.
pub open spec fn message_wire(m: AgentMessage) -> Seq<char> {
    match m {
        AgentMessage::System { content } => "{\"content\":"@ + json_quoted(content@)
            + ",\"role\":\"system\"}"@,
        AgentMessage::User { content } => "{\"content\":"@ + json_quoted(content@)
            + ",\"role\":\"user\"}"@,
        AgentMessage::Assistant { content, .. } => "{\"content\":["@ + blocks_wire(
            content@,
            content@.len() as int,
        ) + "],\"role\":\"assistant\"}"@,
        AgentMessage::Tool { tool_call_id, tool_name, tool_arguments, result } => "{\"result\":"@
            + json_quoted(result@) + ",\"role\":\"tool\",\"tool_arguments\":"@ + tool_arguments@
            + ",\"tool_call_id\":"@ + json_quoted(tool_call_id@) + ",\"tool_name\":"@
            + json_quoted(tool_name@) + "}"@,
    }
}

fn tool_call_wire_text(tc: &ToolCall) -> (res: String)
    ensures
        res@ == tool_call_wire(*tc),
{
    let mut out = String::from_str("{\"arguments\":");
    out.append(tc.arguments.as_str());
    out.append(",\"id\":");
    out.append(json_quote(tc.id.as_str()).as_str());
    out.append(",\"name\":");
    out.append(json_quote(tc.name.as_str()).as_str());
    out.append("}");
    out
}

fn block_wire_text(b: &ContentBlock) -> (res: String)
    ensures
        res@ == block_wire(*b),
{
    match b {
        ContentBlock::Text { text } => {
            let mut out = String::from_str("{\"text\":");
            out.append(json_quote(text.as_str()).as_str());
            out.append(",\"type\":\"text\"}");
            out
        },
        ContentBlock::Thinking { thinking } => {
            let mut out = String::from_str("{\"thinking\":");
            out.append(json_quote(thinking.as_str()).as_str());
            out.append(",\"type\":\"thinking\"}");
            out
        },
        ContentBlock::ToolCall { tool_call } => {
            let mut out = String::from_str("{\"tool_call\":");
            out.append(tool_call_wire_text(tool_call).as_str());
            out.append(",\"type\":\"tool_call\"}");
            out
        },
    }
}

/// The wire JSON text of a message: sorted keys, no `usage`.
pub fn message_wire_json(m: &AgentMessage) -> (res: String)
    ensures
        res@ == message_wire(*m),
{
    match m {
        AgentMessage::System { content } => {
            let mut out = String::from_str("{\"content\":");
            out.append(json_quote(content.as_str()).as_str());
            out.append(",\"role\":\"system\"}");
            out
        },
        AgentMessage::User { content } => {
            let mut out = String::from_str("{\"content\":");
            out.append(json_quote(content.as_str()).as_str());
            out.append(",\"role\":\"user\"}");
            out
        },
        AgentMessage::Assistant { content, .. } => {
            let mut out = String::from_str("{\"content\":[");
            let ghost start = out@;
            let mut k: usize = 0;
            while k < content.len()
                invariant
                    k <= content@.len(),
                    out@ == start + blocks_wire(content@, k as int),
                decreases content@.len() - k,
            {
                if k > 0 {
                    out.append(",");
                }
                out.append(block_wire_text(&content[k]).as_str());
                k = k + 1;
            }
            out.append("],\"role\":\"assistant\"}");
            out
        },
        AgentMessage::Tool { tool_call_id, tool_name, tool_arguments, result } => {
            let mut out = String::from_str("{\"result\":");
            out.append(json_quote(result.as_str()).as_str());
            out.append(",\"role\":\"tool\",\"tool_arguments\":");
            out.append(tool_arguments.as_str());
            out.append(",\"tool_call_id\":");
            out.append(json_quote(tool_call_id.as_str()).as_str());
            out.append(",\"tool_name\":");
            out.append(json_quote(tool_name.as_str()).as_str());
            out.append("}");
            out
        },
    }
}


impl ToolCall {
    /// A copy of the tool call.
    pub fn duplicate(&self) -> (r: ToolCall)
        ensures
            r == *self,
    {
        ToolCall { id: self.id.clone(), name: self.name.clone(), arguments: self.arguments.clone() }
    }
}

impl ContentBlock {
    /// A copy of the block.
    pub fn duplicate(&self) -> (r: ContentBlock)
        ensures
            r == *self,
    {
        match self {
            ContentBlock::Text { text } => ContentBlock::Text { text: text.clone() },
            ContentBlock::Thinking { thinking } => ContentBlock::Thinking { thinking: thinking.clone() },
            ContentBlock::ToolCall { tool_call } => ContentBlock::ToolCall { tool_call: tool_call.duplicate() },
        }
    }
}

/// A copy of a list of blocks.
pub fn duplicate_blocks(bs: &Vec<ContentBlock>) -> (r: Vec<ContentBlock>)
    ensures
        r@ == bs@,
{
    let mut out: Vec<ContentBlock> = Vec::new();
    let mut i: usize = 0;
    while i < bs.len()
        invariant
            i <= bs@.len(),
            out@ == bs@.take(i as int),
        decreases bs@.len() - i,
    {
        out.push(bs[i].duplicate());
        i = i + 1;
        assert(out@ =~= bs@.take(i as int));
    }
    assert(bs@.take(bs@.len() as int) =~= bs@);
    out
}

impl AgentMessage {
    /// A system message.
    pub fn system(content: String) -> (m: AgentMessage)
        ensures
            m == (AgentMessage::System { content }),
    {
        AgentMessage::System { content }
    }

    /// A user message.
    pub fn user(content: String) -> (m: AgentMessage)
        ensures
            m == (AgentMessage::User { content }),
    {
        AgentMessage::User { content }
    }

    /// An assistant message made of these blocks.
    pub fn assistant_with_blocks(content: Vec<ContentBlock>, usage: Option<Usage>) -> (m: AgentMessage)
        ensures
            m == (AgentMessage::Assistant { content, usage }),
    {
        AgentMessage::Assistant { content, usage }
    }

    /// A tool result for the call `tool_call_id`; `tool_arguments` is the
    /// JSON text of the call's arguments.
    pub fn tool(tool_call_id: String, tool_name: String, tool_arguments: String, result: String) -> (m:
        AgentMessage)
        ensures
            m == (AgentMessage::Tool { tool_call_id, tool_name, tool_arguments, result }),
    {
        AgentMessage::Tool { tool_call_id, tool_name, tool_arguments, result }
    }
}

/// Whether JSON writes `c` with a backslash escape.
pub open spec fn json_special(c: char) -> bool {
    c == '"' || c == '\\' || (c as int) < 0x20
}

proof fn lemma_escape_char_shape(c: char)
    ensures
        json_escape_char(c).len() >= 1,
        json_special(c) ==> json_escape_char(c).len() >= 2 && json_escape_char(c)[0] == '\\',
        !json_special(c) ==> json_escape_char(c) == seq![c],
{
}

proof fn lemma_hex_digit_injective(a: int, b: int)
    requires
        0 <= a < 16,
        0 <= b < 16,
        hex_digit(a) == hex_digit(b),
    ensures
        a == b,
{
    assert(hex_digit(a) as int == if a < 10 { 48 + a } else { 97 + a - 10 });
    assert(hex_digit(b) as int == if b < 10 { 48 + b } else { 97 + b - 10 });
}

/// Two escaped characters that begin two equal texts are the same
/// character.
proof fn lemma_escape_char_prefix(a: char, b: char, x: Seq<char>, y: Seq<char>)
    requires
        json_escape_char(a) + x == json_escape_char(b) + y,
    ensures
        a == b,
{
    let ea = json_escape_char(a);
    let eb = json_escape_char(b);
    lemma_escape_char_shape(a);
    lemma_escape_char_shape(b);
    let t = ea + x;
    assert(t[0] == ea[0]);
    assert(t[0] == eb[0]);
    if !json_special(a) {
        if json_special(b) {
            assert(a == '\\');
        }
    } else {
        if !json_special(b) {
            assert(b == '\\');
        }
        assert(t[1] == ea[1]);
        assert(t[1] == eb[1]);
        if ea[1] == 'u' {
            assert(eb[1] == 'u');
            assert(ea.len() == 6 && eb.len() == 6);
            assert(t[4] == ea[4] && t[4] == eb[4]);
            assert(t[5] == ea[5] && t[5] == eb[5]);
            let va = a as int;
            let vb = b as int;
            assert(0 <= va / 16 < 16 && 0 <= va % 16 < 16 && 0 <= vb / 16 < 16 && 0 <= vb % 16 < 16);
            lemma_hex_digit_injective(va / 16, vb / 16);
            lemma_hex_digit_injective(va % 16, vb % 16);
            assert(va == 16 * (va / 16) + va % 16);
            assert(vb == 16 * (vb / 16) + vb % 16);
        }
    }
}

proof fn lemma_escaped_concat(a: Seq<char>, b: Seq<char>)
    ensures
        json_escaped(a + b) == json_escaped(a) + json_escaped(b),
    decreases b.len(),
{
    if b.len() == 0 {
        assert(a + b =~= a);
        assert(json_escaped(a) + json_escaped(b) =~= json_escaped(a));
    } else {
        lemma_escaped_concat(a, b.drop_last());
        assert((a + b).drop_last() =~= a + b.drop_last());
        assert((a + b).last() == b.last());
        assert(json_escaped(a) + json_escaped(b.drop_last()) + json_escape_char(b.last())
            =~= json_escaped(a) + (json_escaped(b.drop_last()) + json_escape_char(b.last())));
    }
}

proof fn lemma_escaped_len(a: Seq<char>)
    ensures
        json_escaped(a).len() >= a.len(),
    decreases a.len(),
{
    if a.len() > 0 {
        lemma_escaped_len(a.drop_last());
        lemma_escape_char_shape(a.last());
    }
}

proof fn lemma_escaped_front(a: Seq<char>)
    requires
        a.len() > 0,
    ensures
        json_escaped(a) == json_escape_char(a[0]) + json_escaped(a.skip(1)),
{
    let one = seq![a[0]];
    lemma_escaped_concat(one, a.skip(1));
    assert(one + a.skip(1) =~= a);
    assert(one.drop_last() =~= Seq::<char>::empty());
    assert(one.last() == a[0]);
    assert(json_escaped(one.drop_last()) == Seq::<char>::empty());
    assert(json_escaped(one) == json_escaped(one.drop_last()) + json_escape_char(one.last()));
    assert(json_escaped(one) =~= json_escape_char(a[0]));
}

/// Law: escaping for JSON loses nothing: different texts have different
/// escaped forms.
pub proof fn law_json_escaped_injective(a: Seq<char>, b: Seq<char>)
    requires
        json_escaped(a) == json_escaped(b),
    ensures
        a == b,
    decreases a.len(),
{
    lemma_escaped_len(a);
    lemma_escaped_len(b);
    if a.len() == 0 {
        if b.len() > 0 {
            lemma_escaped_front(b);
            lemma_escape_char_shape(b[0]);
        }
        assert(b =~= a);
    } else {
        if b.len() == 0 {
            lemma_escaped_front(a);
            lemma_escape_char_shape(a[0]);
        }
        lemma_escaped_front(a);
        lemma_escaped_front(b);
        lemma_escape_char_prefix(a[0], b[0], json_escaped(a.skip(1)), json_escaped(b.skip(1)));
        let e = json_escape_char(a[0]);
        assert(json_escaped(a.skip(1)) =~= (e + json_escaped(a.skip(1))).skip(e.len() as int));
        assert(json_escaped(b.skip(1)) =~= (e + json_escaped(b.skip(1))).skip(e.len() as int));
        law_json_escaped_injective(a.skip(1), b.skip(1));
        assert(a =~= seq![a[0]] + a.skip(1));
        assert(b =~= seq![b[0]] + b.skip(1));
    }
}

/// Law: JSON string literals of different texts differ.
pub proof fn law_json_quoted_injective(a: Seq<char>, b: Seq<char>)
    requires
        json_quoted(a) == json_quoted(b),
    ensures
        a == b,
{
    let qa = json_quoted(a);
    let n = qa.len() as int;
    assert(json_escaped(a) =~= qa.subrange(1, n - 1));
    assert(json_escaped(b) =~= json_quoted(b).subrange(1, n - 1));
    law_json_escaped_injective(a, b);
}

proof fn lemma_cancel(p: Seq<char>, x: Seq<char>, y: Seq<char>, q: Seq<char>)
    requires
        p + x + q == p + y + q,
    ensures
        x == y,
{
    let l = p + x + q;
    assert(l.len() == p.len() + x.len() + q.len());
    assert((p + y + q).len() == p.len() + y.len() + q.len());
    assert(x.len() == y.len());
    assert(x =~= l.subrange(p.len() as int, (p.len() + x.len()) as int));
    assert(y =~= (p + y + q).subrange(p.len() as int, (p.len() + y.len()) as int));
}

/// Law: the wire form of a message keeps its texts: a user or system
/// message whose content differs has a different wire form, and so has a
/// tool result message whose result, call id or tool name differs (with
/// the other fields the same). Because the request-history check compares
/// wire forms, a changed tool result is seen as a change.
pub proof fn law_wire_keeps_message_texts(
    c1: String, c2: String, id1: String, id2: String, name1: String, name2: String, args: String,
)
    ensures
        c1@ != c2@ ==> message_wire(AgentMessage::User { content: c1 }) != message_wire(AgentMessage::User { content: c2 }),
        c1@ != c2@ ==> message_wire(AgentMessage::System { content: c1 })
            != message_wire(AgentMessage::System { content: c2 }),
        c1@ != c2@ ==> message_wire(AgentMessage::Tool { tool_call_id: id1, tool_name: name1, tool_arguments: args, result: c1 })
            != message_wire(AgentMessage::Tool { tool_call_id: id1, tool_name: name1, tool_arguments: args, result: c2 }),
        id1@ != id2@ ==> message_wire(AgentMessage::Tool { tool_call_id: id1, tool_name: name1, tool_arguments: args, result: c1 })
            != message_wire(AgentMessage::Tool { tool_call_id: id2, tool_name: name1, tool_arguments: args, result: c1 }),
        name1@ != name2@ ==> message_wire(AgentMessage::Tool { tool_call_id: id1, tool_name: name1, tool_arguments: args, result: c1 })
            != message_wire(AgentMessage::Tool { tool_call_id: id1, tool_name: name2, tool_arguments: args, result: c1 }),
{
    if c1@ != c2@ {
        if message_wire(AgentMessage::User { content: c1 }) == message_wire(AgentMessage::User { content: c2 }) {
            lemma_cancel("{\"content\":"@, json_quoted(c1@), json_quoted(c2@), ",\"role\":\"user\"}"@);
            law_json_quoted_injective(c1@, c2@);
        }
        if message_wire(AgentMessage::System { content: c1 }) == message_wire(AgentMessage::System { content: c2 }) {
            lemma_cancel("{\"content\":"@, json_quoted(c1@), json_quoted(c2@), ",\"role\":\"system\"}"@);
            law_json_quoted_injective(c1@, c2@);
        }
        let rest = ",\"role\":\"tool\",\"tool_arguments\":"@ + args@ + ",\"tool_call_id\":"@ + json_quoted(id1@)
            + ",\"tool_name\":"@ + json_quoted(name1@) + "}"@;
        let m1 = AgentMessage::Tool { tool_call_id: id1, tool_name: name1, tool_arguments: args, result: c1 };
        let m2 = AgentMessage::Tool { tool_call_id: id1, tool_name: name1, tool_arguments: args, result: c2 };
        if message_wire(m1) == message_wire(m2) {
            assert(message_wire(m1) =~= "{\"result\":"@ + json_quoted(c1@) + rest);
            assert(message_wire(m2) =~= "{\"result\":"@ + json_quoted(c2@) + rest);
            lemma_cancel("{\"result\":"@, json_quoted(c1@), json_quoted(c2@), rest);
            law_json_quoted_injective(c1@, c2@);
        }
    }
    if id1@ != id2@ {
        let m1 = AgentMessage::Tool { tool_call_id: id1, tool_name: name1, tool_arguments: args, result: c1 };
        let m2 = AgentMessage::Tool { tool_call_id: id2, tool_name: name1, tool_arguments: args, result: c1 };
        let pre = "{\"result\":"@ + json_quoted(c1@) + ",\"role\":\"tool\",\"tool_arguments\":"@ + args@
            + ",\"tool_call_id\":"@;
        let post = ",\"tool_name\":"@ + json_quoted(name1@) + "}"@;
        if message_wire(m1) == message_wire(m2) {
            assert(message_wire(m1) =~= pre + json_quoted(id1@) + post);
            assert(message_wire(m2) =~= pre + json_quoted(id2@) + post);
            lemma_cancel(pre, json_quoted(id1@), json_quoted(id2@), post);
            law_json_quoted_injective(id1@, id2@);
        }
    }
    if name1@ != name2@ {
        let m1 = AgentMessage::Tool { tool_call_id: id1, tool_name: name1, tool_arguments: args, result: c1 };
        let m2 = AgentMessage::Tool { tool_call_id: id1, tool_name: name2, tool_arguments: args, result: c1 };
        let pre = "{\"result\":"@ + json_quoted(c1@) + ",\"role\":\"tool\",\"tool_arguments\":"@ + args@
            + ",\"tool_call_id\":"@ + json_quoted(id1@) + ",\"tool_name\":"@;
        let post = "}"@;
        if message_wire(m1) == message_wire(m2) {
            assert(message_wire(m1) =~= pre + json_quoted(name1@) + post);
            assert(message_wire(m2) =~= pre + json_quoted(name2@) + post);
            lemma_cancel(pre, json_quoted(name1@), json_quoted(name2@), post);
            law_json_quoted_injective(name1@, name2@);
        }
    }
}

} // verus!
