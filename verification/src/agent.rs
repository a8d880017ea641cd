//! The agent's turn logic: what a model response holds, token estimates,
//! the retry policy for transient provider errors, how tool calls are
//! recorded in the context and the session, how hooks around tool calls
//! are read, and the system prompt.

use vstd::prelude::*;
use crate::history_guard::{digest_of, message_digest, MessageDigest};
use crate::hooks::HookResult;
use crate::session::{AgentMessage, ContentBlock, ToolCall, Usage};
use crate::text::{all_white_space, chars_of, decimal, decimal_string, is_blank, trim_string, trimmed, utf8_len};
use crate::config::RetryConfig;
use vstd::string::StringExecFns;

verus! {

broadcast use vstd::string::group_string_axioms;

/// The model's response to one request.
pub struct AgentResponse {
    /// Text, thinking and tool-call blocks, in order.
    pub content: Vec<ContentBlock>,
    pub usage: Option<Usage>,
}

/// The texts of the text blocks of `bs`, in order.
pub open spec fn text_parts(bs: Seq<ContentBlock>) -> Seq<Seq<char>>
    decreases bs.len(),
{
    if bs.len() == 0 {
        Seq::empty()
    } else {
        match bs.last() {
            ContentBlock::Text { text } => text_parts(bs.drop_last()).push(text@),
            _ => text_parts(bs.drop_last()),
        }
    }
}

/// The texts of the thinking blocks of `bs`, in order.
pub open spec fn thinking_parts(bs: Seq<ContentBlock>) -> Seq<Seq<char>>
    decreases bs.len(),
{
    if bs.len() == 0 {
        Seq::empty()
    } else {
        match bs.last() {
            ContentBlock::Thinking { thinking } => thinking_parts(bs.drop_last()).push(thinking@),
            _ => thinking_parts(bs.drop_last()),
        }
    }
}

/// The tool calls of `bs`, in order.
pub open spec fn tool_call_parts(bs: Seq<ContentBlock>) -> Seq<ToolCall>
    decreases bs.len(),
{
    if bs.len() == 0 {
        Seq::empty()
    } else {
        match bs.last() {
            ContentBlock::ToolCall { tool_call } => tool_call_parts(bs.drop_last()).push(tool_call),
            _ => tool_call_parts(bs.drop_last()),
        }
    }
}

/// `parts` joined with newlines.
pub open spec fn join_lines(parts: Seq<Seq<char>>) -> Seq<char>
    decreases parts.len(),
{
    if parts.len() == 0 {
        Seq::empty()
    } else if parts.len() == 1 {
        parts[0]
    } else {
        join_lines(parts.drop_last()) + seq!['\n'] + parts.last()
    }
}

/// The blocks of `bs` that are not tool calls, in order.
pub open spec fn prose_blocks(bs: Seq<ContentBlock>) -> Seq<ContentBlock>
    decreases bs.len(),
{
    if bs.len() == 0 {
        Seq::empty()
    } else if bs.last() is ToolCall {
        prose_blocks(bs.drop_last())
    } else {
        prose_blocks(bs.drop_last()).push(bs.last())
    }
}

fn join_kind(bs: &Vec<ContentBlock>, thinking: bool) -> (s: String)
    ensures
        s@ == join_lines(if thinking { thinking_parts(bs@) } else { text_parts(bs@) }),
{
    let mut out = String::new();
    let mut count: usize = 0;
    let mut i: usize = 0;
    while i < bs.len()
        invariant
            i <= bs@.len(),
            count as nat == (if thinking { thinking_parts(bs@.take(i as int)) } else { text_parts(bs@.take(i as int)) }).len(),
            out@ == join_lines(if thinking { thinking_parts(bs@.take(i as int)) } else { text_parts(bs@.take(i as int)) }),
            count <= i,
        decreases bs@.len() - i,
    {
        proof {
            assert(bs@.take(i as int + 1).drop_last() =~= bs@.take(i as int));
            assert(bs@.take(i as int + 1).last() == bs@[i as int]);
        }
        let piece: Option<&String> = match &bs[i] {
            ContentBlock::Text { text } => if thinking { None } else { Some(text) },
            ContentBlock::Thinking { thinking: t } => if thinking { Some(t) } else { None },
            ContentBlock::ToolCall { .. } => None,
        };
        match piece {
            Some(p) => {
                let ghost before = out@;
                let ghost ps = if thinking { thinking_parts(bs@.take(i as int)) } else { text_parts(bs@.take(i as int)) };
                let ghost ps2 = if thinking { thinking_parts(bs@.take(i as int + 1)) } else { text_parts(bs@.take(i as int + 1)) };
                assert(ps2 == ps.push(p@));
                assert(ps2.drop_last() =~= ps);
                if count > 0 {
                    out.push('\n');
                }
                out.append(p.as_str());
                proof {
                    if count == 0 {
                        assert(ps2.len() == 1);
                        assert(out@ =~= p@);
                    } else {
                        assert(out@ =~= before + seq!['\n'] + p@);
                    }
                    assert(out@ == join_lines(ps2));
                }
                count = count + 1;
            },
            None => {},
        }
        i = i + 1;
    }
    assert(bs@.take(bs@.len() as int) =~= bs@);
    out
}

/// Whether some block of `bs` is a tool call.
pub open spec fn has_tool_call_block(bs: Seq<ContentBlock>) -> bool {
    exists|i: int| 0 <= i < bs.len() && #[trigger] bs[i] is ToolCall
}

/// Whether some block of `bs` is a thinking block.
pub open spec fn has_thinking_block(bs: Seq<ContentBlock>) -> bool {
    exists|i: int| 0 <= i < bs.len() && #[trigger] bs[i] is Thinking
}

/// A response with no visible text, no tool call and no thinking.
pub open spec fn response_empty(bs: Seq<ContentBlock>) -> bool {
    all_white_space(join_lines(text_parts(bs))) && !has_tool_call_block(bs) && !has_thinking_block(bs)
}

impl AgentResponse {
    /// The text blocks joined with newlines.
    pub fn text(&self) -> (s: String)
        ensures
            s@ == join_lines(text_parts(self.content@)),
    {
        join_kind(&self.content, false)
    }

    /// The thinking blocks joined with newlines.
    pub fn thinking(&self) -> (s: String)
        ensures
            s@ == join_lines(thinking_parts(self.content@)),
    {
        join_kind(&self.content, true)
    }

    /// The tool calls, in order.
    pub fn tool_calls(&self) -> (v: Vec<ToolCall>)
        ensures
            v@ == tool_call_parts(self.content@),
    {
        let mut out: Vec<ToolCall> = Vec::new();
        let mut i: usize = 0;
        while i < self.content.len()
            invariant
                i <= self.content@.len(),
                out@ == tool_call_parts(self.content@.take(i as int)),
            decreases self.content@.len() - i,
        {
            proof {
                assert(self.content@.take(i as int + 1).drop_last() =~= self.content@.take(i as int));
                assert(self.content@.take(i as int + 1).last() == self.content@[i as int]);
            }
            match &self.content[i] {
                ContentBlock::ToolCall { tool_call } => out.push(tool_call.duplicate()),
                _ => {},
            }
            i = i + 1;
        }
        assert(self.content@.take(self.content@.len() as int) =~= self.content@);
        out
    }

    /// Whether any block is a thinking block.
    pub fn has_thinking(&self) -> (b: bool)
        ensures
            b == has_thinking_block(self.content@),
    {
        let mut i: usize = 0;
        while i < self.content.len()
            invariant
                i <= self.content@.len(),
                forall|j: int| 0 <= j < i ==> !(#[trigger] self.content@[j] is Thinking),
            decreases self.content@.len() - i,
        {
            if let ContentBlock::Thinking { .. } = &self.content[i] {
                return true;
            }
            i = i + 1;
        }
        false
    }

    /// Whether any block is a tool call.
    pub fn has_tool_calls(&self) -> (b: bool)
        ensures
            b == has_tool_call_block(self.content@),
    {
        let mut i: usize = 0;
        while i < self.content.len()
            invariant
                i <= self.content@.len(),
                forall|j: int| 0 <= j < i ==> !(#[trigger] self.content@[j] is ToolCall),
            decreases self.content@.len() - i,
        {
            if let ContentBlock::ToolCall { .. } = &self.content[i] {
                return true;
            }
            i = i + 1;
        }
        false
    }

    /// No visible text, no tool call, no thinking.
    pub fn is_empty(&self) -> (b: bool)
        ensures
            b == response_empty(self.content@),
    {
        let t = self.text();
        is_blank(t.as_str()) && !self.has_tool_calls() && !self.has_thinking()
    }
}

/// What the agent does with a response.
#[derive(Clone, Copy, Debug, PartialEq, Eq, Structural)]
pub enum ResponseKind {
    /// Nothing in it: retry if the policy allows.
    Empty,
    /// Only thinking, no visible text and no tool call: end the turn
    /// without saving it.
    ReasoningOnly,
    /// Visible content and no tool call: save it and end the turn.
    Final,
    /// Tool calls to run.
    ToolCalls,
}

/// The kind of a response.
pub open spec fn response_kind(bs: Seq<ContentBlock>) -> ResponseKind {
    if response_empty(bs) {
        ResponseKind::Empty
    } else if all_white_space(join_lines(text_parts(bs))) && !has_tool_call_block(bs) && has_thinking_block(bs) {
        ResponseKind::ReasoningOnly
    } else if !has_tool_call_block(bs) {
        ResponseKind::Final
    } else {
        ResponseKind::ToolCalls
    }
}

/// Classify a response.
pub fn classify_response(resp: &AgentResponse) -> (k: ResponseKind)
    ensures
        k == response_kind(resp.content@),
{
    if resp.is_empty() {
        return ResponseKind::Empty;
    }
    let t = resp.text();
    let tools = resp.has_tool_calls();
    if is_blank(t.as_str()) && !tools && resp.has_thinking() {
        return ResponseKind::ReasoningOnly;
    }
    if !tools {
        ResponseKind::Final
    } else {
        ResponseKind::ToolCalls
    }
}

/// Rough token count of a text: a quarter of its UTF-8 bytes, rounded up
/// (0 for an empty text), kept to 32 bits.
pub open spec fn approx_tokens(s: Seq<char>) -> u32 {
    if utf8_len(s) == 0 {
        0
    } else {
        ((utf8_len(s) + 3) / 4) as u32
    }
}

/// Rough token count of a text.
pub fn approx_token_count(s: &str) -> (n: u32)
    ensures
        n == approx_tokens(s@),
{
    let len = s.as_bytes().len();
    if len == 0 {
        return 0;
    }
    let q = len / 4 + if len % 4 != 0 { 1 } else { 0 };
    assert(q == (len + 3) / 4);
    q as u32
}

/// Token estimate of text streamed so far.
pub fn estimate_tokens_from_streamed_text(text: &str) -> (n: u32)
    ensures
        n == approx_tokens(text@),
{
    approx_token_count(text)
}

/// Token estimate of one tool call: its id, name and argument text.
pub open spec fn tool_call_tokens(tc: ToolCall) -> nat {
    (approx_tokens(tc.id@) + approx_tokens(tc.name@) + approx_tokens(tc.arguments@)) as nat
}

/// Token estimate of the blocks of an assistant message.
pub open spec fn blocks_tokens(bs: Seq<ContentBlock>) -> nat
    decreases bs.len(),
{
    if bs.len() == 0 {
        0
    } else {
        blocks_tokens(bs.drop_last()) + match bs.last() {
            ContentBlock::Text { text } => approx_tokens(text@) as nat,
            ContentBlock::Thinking { thinking } => approx_tokens(thinking@) as nat,
            ContentBlock::ToolCall { tool_call } => tool_call_tokens(tool_call),
        }
    }
}

/// Token estimate of a message: its role's name plus its contents.
pub open spec fn message_tokens(m: AgentMessage) -> nat {
    match m {
        AgentMessage::System { content } => (approx_tokens("system"@) + approx_tokens(content@)) as nat,
        AgentMessage::User { content } => (approx_tokens("user"@) + approx_tokens(content@)) as nat,
        AgentMessage::Assistant { content, .. } => (approx_tokens("assistant"@) + blocks_tokens(content@)) as nat,
        AgentMessage::Tool { tool_call_id, tool_name, tool_arguments, result } => (approx_tokens("tool"@)
            + approx_tokens(tool_call_id@) + approx_tokens(tool_name@) + approx_tokens(tool_arguments@)
            + approx_tokens(result@)) as nat,
    }
}

/// Token estimate of the first `k` messages.
pub open spec fn messages_tokens(ms: Seq<AgentMessage>, k: int) -> nat
    decreases k,
{
    if k <= 0 {
        0
    } else {
        messages_tokens(ms, k - 1) + message_tokens(ms[k - 1])
    }
}

proof fn lemma_messages_tokens_mono(ms: Seq<AgentMessage>, i: int, j: int)
    requires
        0 <= i <= j,
    ensures
        messages_tokens(ms, i) <= messages_tokens(ms, j),
    decreases j - i,
{
    if i < j {
        lemma_messages_tokens_mono(ms, i, j - 1);
    }
}

proof fn lemma_messages_tokens_concat(a: Seq<AgentMessage>, b: Seq<AgentMessage>, k: int)
    requires
        0 <= k <= b.len(),
    ensures
        messages_tokens(a + b, a.len() + k) == messages_tokens(a, a.len() as int) + messages_tokens(b, k),
    decreases k,
{
    if k > 0 {
        lemma_messages_tokens_concat(a, b, k - 1);
        assert((a + b)[a.len() + k - 1] == b[k - 1]);
    } else {
        lemma_messages_tokens_prefix(a, b, a.len() as int);
    }
}

proof fn lemma_messages_tokens_prefix(a: Seq<AgentMessage>, b: Seq<AgentMessage>, k: int)
    requires
        0 <= k <= a.len(),
    ensures
        messages_tokens(a + b, k) == messages_tokens(a, k),
    decreases k,
{
    if k > 0 {
        lemma_messages_tokens_prefix(a, b, k - 1);
        assert((a + b)[k - 1] == a[k - 1]);
    }
}

/// Law: token estimates add up over concatenated message lists, and the
/// empty list is estimated at zero.
pub proof fn law_token_estimates_add_up(a: Seq<AgentMessage>, b: Seq<AgentMessage>)
    ensures
        messages_tokens(Seq::<AgentMessage>::empty(), 0) == 0,
        messages_tokens(a + b, (a + b).len() as int) == messages_tokens(a, a.len() as int) + messages_tokens(
            b,
            b.len() as int,
        ),
{
    lemma_messages_tokens_concat(a, b, b.len() as int);
}

/// Law: a text is estimated at a quarter of its UTF-8 length, rounded up:
/// four tokens cover its bytes, with fewer than four bytes to spare.
pub proof fn law_approx_tokens_quarter_of_bytes(s: Seq<char>)
    requires
        utf8_len(s) <= u32::MAX,
    ensures
        utf8_len(s) <= 4 * approx_tokens(s),
        4 * approx_tokens(s) < utf8_len(s) + 4,
{
    let n = utf8_len(s);
    if n > 0 {
        assert(((n + 3) / 4) as u32 == (n + 3) / 4);
        assert(n <= 4 * ((n + 3) / 4) && 4 * ((n + 3) / 4) < n + 4) by (nonlinear_arith)
            requires
                n > 0,
        ;
    }
}

/// Law: every text of a tool result message counts: its id, tool name,
/// arguments and result each add their own estimate, so changing any of
/// them changes the message's estimate by the change in that text's.
pub proof fn law_tool_message_texts_count(
    id1: String, name1: String, args1: String, result1: String,
    id2: String, name2: String, args2: String, result2: String,
)
    ensures
        message_tokens(AgentMessage::Tool { tool_call_id: id1, tool_name: name1, tool_arguments: args1, result: result1 })
            + approx_tokens(id2@) + approx_tokens(name2@) + approx_tokens(args2@) + approx_tokens(result2@)
        == message_tokens(AgentMessage::Tool { tool_call_id: id2, tool_name: name2, tool_arguments: args2, result: result2 })
            + approx_tokens(id1@) + approx_tokens(name1@) + approx_tokens(args1@) + approx_tokens(result1@),
        message_tokens(AgentMessage::Tool { tool_call_id: id1, tool_name: name1, tool_arguments: args1, result: result1 })
            >= approx_tokens(result1@),
{
}

/// Law: the content of a user or system message counts with its own
/// estimate: changing it changes the message's estimate by the change in
/// the content's.
pub proof fn law_text_message_content_counts(c1: String, c2: String)
    ensures
        message_tokens(AgentMessage::User { content: c1 }) + approx_tokens(c2@)
            == message_tokens(AgentMessage::User { content: c2 }) + approx_tokens(c1@),
        message_tokens(AgentMessage::System { content: c1 }) + approx_tokens(c2@)
            == message_tokens(AgentMessage::System { content: c2 }) + approx_tokens(c1@),
        message_tokens(AgentMessage::User { content: c1 }) >= approx_tokens(c1@),
        message_tokens(AgentMessage::System { content: c1 }) >= approx_tokens(c1@),
{
}

proof fn lemma_blocks_tokens_concat(a: Seq<ContentBlock>, b: Seq<ContentBlock>)
    ensures
        blocks_tokens(a + b) == blocks_tokens(a) + blocks_tokens(b),
    decreases b.len(),
{
    if b.len() == 0 {
        assert(a + b =~= a);
    } else {
        lemma_blocks_tokens_concat(a, b.drop_last());
        assert((a + b).drop_last() =~= a + b.drop_last());
    }
}

/// Law: the blocks of an assistant message add up: the estimate of blocks
/// joined is the sum of the parts', and a text, thinking or tool call block
/// on its own is estimated as its texts are.
pub proof fn law_assistant_blocks_add_up(a: Seq<ContentBlock>, b: Seq<ContentBlock>, t: String, tc: ToolCall)
    ensures
        blocks_tokens(a + b) == blocks_tokens(a) + blocks_tokens(b),
        blocks_tokens(seq![ContentBlock::Text { text: t }]) == approx_tokens(t@),
        blocks_tokens(seq![ContentBlock::Thinking { thinking: t }]) == approx_tokens(t@),
        blocks_tokens(seq![ContentBlock::ToolCall { tool_call: tc }])
            == approx_tokens(tc.id@) + approx_tokens(tc.name@) + approx_tokens(tc.arguments@),
{
    lemma_blocks_tokens_concat(a, b);
    let x = seq![ContentBlock::Text { text: t }];
    assert(x.drop_last() =~= Seq::<ContentBlock>::empty());
    assert(x.last() == ContentBlock::Text { text: t });
    assert(blocks_tokens(x) == blocks_tokens(x.drop_last()) + approx_tokens(t@) as nat);
    let y = seq![ContentBlock::Thinking { thinking: t }];
    assert(y.drop_last() =~= Seq::<ContentBlock>::empty());
    assert(y.last() == ContentBlock::Thinking { thinking: t });
    assert(blocks_tokens(y) == blocks_tokens(y.drop_last()) + approx_tokens(t@) as nat);
    let z = seq![ContentBlock::ToolCall { tool_call: tc }];
    assert(z.drop_last() =~= Seq::<ContentBlock>::empty());
}

proof fn lemma_blocks_tokens_take_mono(bs: Seq<ContentBlock>, i: int)
    requires
        0 <= i <= bs.len(),
    ensures
        blocks_tokens(bs.take(i)) <= blocks_tokens(bs),
    decreases bs.len() - i,
{
    if i < bs.len() {
        lemma_blocks_tokens_take_mono(bs, i + 1);
        assert(bs.take(i + 1).drop_last() =~= bs.take(i));
    } else {
        assert(bs.take(i) =~= bs);
    }
}

fn tool_call_token_count(tc: &ToolCall) -> (n: u32)
    requires
        tool_call_tokens(*tc) <= u32::MAX,
    ensures
        n == tool_call_tokens(*tc),
{
    approx_token_count(tc.id.as_str()) + approx_token_count(tc.name.as_str()) + approx_token_count(
        tc.arguments.as_str(),
    )
}

fn message_token_count(m: &AgentMessage) -> (n: u32)
    requires
        message_tokens(*m) <= u32::MAX,
    ensures
        n == message_tokens(*m),
{
    match m {
        AgentMessage::System { content } => approx_token_count("system") + approx_token_count(content.as_str()),
        AgentMessage::User { content } => approx_token_count("user") + approx_token_count(content.as_str()),
        AgentMessage::Assistant { content, .. } => {
            let mut tokens = approx_token_count("assistant");
            let mut i: usize = 0;
            while i < content.len()
                invariant
                    i <= content@.len(),
                    tokens == approx_tokens("assistant"@) + blocks_tokens(content@.take(i as int)),
                    approx_tokens("assistant"@) + blocks_tokens(content@) <= u32::MAX,
                decreases content@.len() - i,
            {
                proof {
                    assert(content@.take(i as int + 1).drop_last() =~= content@.take(i as int));
                    lemma_blocks_tokens_take_mono(content@, i as int + 1);
                }
                let add = match &content[i] {
                    ContentBlock::Text { text } => approx_token_count(text.as_str()),
                    ContentBlock::Thinking { thinking } => approx_token_count(thinking.as_str()),
                    ContentBlock::ToolCall { tool_call } => tool_call_token_count(tool_call),
                };
                tokens = tokens + add;
                i = i + 1;
            }
            assert(content@.take(content@.len() as int) =~= content@);
            tokens
        },
        AgentMessage::Tool { tool_call_id, tool_name, tool_arguments, result } => approx_token_count("tool")
            + approx_token_count(tool_call_id.as_str()) + approx_token_count(tool_name.as_str())
            + approx_token_count(tool_arguments.as_str()) + approx_token_count(result.as_str()),
    }
}

/// Token estimate of a list of messages: the sum of each message's role
/// name and contents.
pub fn estimate_tokens_from_messages(messages: &[AgentMessage]) -> (n: u32)
    requires
        messages_tokens(messages@, messages@.len() as int) <= u32::MAX,
    ensures
        n == messages_tokens(messages@, messages@.len() as int),
{
    let mut tokens: u32 = 0;
    let mut i: usize = 0;
    while i < messages.len()
        invariant
            i <= messages@.len(),
            tokens == messages_tokens(messages@, i as int),
            messages_tokens(messages@, messages@.len() as int) <= u32::MAX,
        decreases messages@.len() - i,
    {
        proof {
            lemma_messages_tokens_mono(messages@, i as int + 1, messages@.len() as int);
        }
        let t = message_token_count(&messages[i]);
        tokens = tokens + t;
        i = i + 1;
    }
    tokens
}

/// Token counts of the current request.
#[derive(Clone, Copy, Debug, PartialEq, Eq, Structural)]
pub struct RequestTokenUsage {
    pub input_tokens: u32,
    pub output_tokens: u32,
    /// Whether the counts are estimates rather than provider reports.
    pub estimated: bool,
}

/// Fold a provider usage report into the request's counts: each count
/// keeps the larger of what it had and what was reported.
pub fn accumulate_request_usage(current: RequestTokenUsage, usage: &Usage) -> (r: RequestTokenUsage)
    ensures
        r.input_tokens == (if current.input_tokens >= usage.prompt_tokens { current.input_tokens } else { usage.prompt_tokens }),
        r.output_tokens == (if current.output_tokens >= usage.completion_tokens { current.output_tokens } else { usage.completion_tokens }),
        !r.estimated,
{
    RequestTokenUsage {
        input_tokens: if current.input_tokens >= usage.prompt_tokens { current.input_tokens } else { usage.prompt_tokens },
        output_tokens: if current.output_tokens >= usage.completion_tokens { current.output_tokens } else { usage.completion_tokens },
        estimated: false,
    }
}

/// Law: folding reports never lowers a count, and folding the same report
/// twice changes nothing more.
pub proof fn law_usage_accumulation_monotone(cur: RequestTokenUsage, u: Usage)
    ensures
        ({
            let once = RequestTokenUsage {
                input_tokens: if cur.input_tokens >= u.prompt_tokens { cur.input_tokens } else { u.prompt_tokens },
                output_tokens: if cur.output_tokens >= u.completion_tokens { cur.output_tokens } else { u.completion_tokens },
                estimated: false,
            };
            let twice = RequestTokenUsage {
                input_tokens: if once.input_tokens >= u.prompt_tokens { once.input_tokens } else { u.prompt_tokens },
                output_tokens: if once.output_tokens >= u.completion_tokens { once.output_tokens } else { u.completion_tokens },
                estimated: false,
            };
            &&& once.input_tokens >= cur.input_tokens
            &&& once.output_tokens >= cur.output_tokens
            &&& twice == once
        }),
{
}

/// The blocks recorded for one tool call of a response: the first call
/// carries the response's text and thinking blocks and its own call; later
/// calls carry only their own call.
pub open spec fn canonical_blocks(content: Seq<ContentBlock>, tc: ToolCall, first: bool) -> Seq<ContentBlock> {
    if first {
        prose_blocks(content).push(ContentBlock::ToolCall { tool_call: tc })
    } else {
        seq![ContentBlock::ToolCall { tool_call: tc }]
    }
}

/// The assistant blocks recorded for a tool call.
pub fn canonical_turn_blocks(content: &Vec<ContentBlock>, tc: &ToolCall, first: bool) -> (r: Vec<ContentBlock>)
    ensures
        r@ == canonical_blocks(content@, *tc, first),
{
    let mut out: Vec<ContentBlock> = Vec::new();
    if first {
        let mut i: usize = 0;
        while i < content.len()
            invariant
                i <= content@.len(),
                out@ == prose_blocks(content@.take(i as int)),
            decreases content@.len() - i,
        {
            proof {
                assert(content@.take(i as int + 1).drop_last() =~= content@.take(i as int));
                assert(content@.take(i as int + 1).last() == content@[i as int]);
            }
            match &content[i] {
                ContentBlock::ToolCall { .. } => {},
                other => out.push(other.duplicate()),
            }
            i = i + 1;
        }
        assert(content@.take(content@.len() as int) =~= content@);
    }
    out.push(ContentBlock::ToolCall { tool_call: tc.duplicate() });
    proof {
        if !first {
            assert(out@ =~= seq![ContentBlock::ToolCall { tool_call: *tc }]);
        }
    }
    out
}

/// Append a message to the context and its digest to the digest list in
/// lockstep; an ephemeral message (never persisted) gets no digest.
pub fn push_context_message(
    context: &mut Vec<AgentMessage>,
    digests: &mut Vec<Option<MessageDigest>>,
    msg: AgentMessage,
    ephemeral: bool,
)
    ensures
        final(context)@ == old(context)@.push(msg),
        final(digests)@ == old(digests)@.push(
            if ephemeral { None } else { Some(MessageDigest(digest_of(msg))) },
        ),
{
    if ephemeral {
        digests.push(None);
    } else {
        let d = message_digest(&msg);
        digests.push(Some(d));
    }
    context.push(msg);
}

/// Law: the context and its digest list stay the same length, and each
/// persisted message's digest sits at its own index.
pub proof fn law_context_digests_lockstep(
    context: Seq<AgentMessage>,
    digests: Seq<Option<MessageDigest>>,
    msg: AgentMessage,
    ephemeral: bool,
)
    requires
        context.len() == digests.len(),
    ensures
        ({
            let c = context.push(msg);
            let d = digests.push(if ephemeral { None } else { Some(MessageDigest(digest_of(msg))) });
            &&& c.len() == d.len()
            &&& !ephemeral ==> d[c.len() - 1] == Some(MessageDigest(digest_of(c[c.len() - 1])))
            &&& ephemeral ==> d[c.len() - 1] is None
        }),
{
}


/// Retries the policy allows: the configured number when retrying is
/// enabled, else none.
pub fn max_stream_retries(retry: &RetryConfig) -> (n: u32)
    ensures
        n == (if retry.enabled { retry.max_retries } else { 0 }),
{
    if retry.enabled { retry.max_retries } else { 0 }
}

/// `2^k`.
pub open spec fn two_pow(k: nat) -> nat
    decreases k,
{
    if k == 0 { 1 } else { 2 * two_pow((k - 1) as nat) }
}

/// How long to wait before a retry.
#[derive(Clone, Copy, Debug, PartialEq, Eq, Structural)]
pub enum RetryDelay {
    /// The server's `Retry-After`, in milliseconds.
    Server(u64),
    /// Exponential backoff: this base, in milliseconds, to which the caller
    /// applies a random factor between 0.75 and 1.25.
    Backoff(u64),
}

/// What to do after a failed or empty response.
pub enum RetryDecision {
    /// Retries are exhausted: report `RetryEnd` for `attempt` and end the
    /// turn with `message`.
    GiveUp { attempt: u32, message: String },
    /// Wait, then retry as attempt `attempt` of `max_attempts`.
    Wait { attempt: u32, max_attempts: u32, delay: RetryDelay },
}

/// The decision after failure number `retry_count + 1`: give up once the
/// count passes `max_retries`, else wait the server's delay or
/// `base_delay_ms * 2^(count - 1)`.
pub fn retry_decision(
    retry_count: u32,
    max_retries: u32,
    base_delay_ms: u64,
    retry_after_ms: Option<u64>,
    error_msg: &str,
) -> (r: (u32, RetryDecision))
    requires
        retry_count < u32::MAX,
        retry_count + 1 <= max_retries ==> max_retries < u32::MAX,
        retry_count + 1 <= max_retries && retry_after_ms is None ==> retry_count < 64 && base_delay_ms * two_pow(
            retry_count as nat,
        ) <= u64::MAX,
    ensures
        r.0 == retry_count + 1,
        r.0 > max_retries ==> (r.1 matches RetryDecision::GiveUp { attempt, message } && attempt == retry_count
            && message@ == "Provider error after "@ + decimal(r.0 as nat) + " retries: "@ + error_msg@),
        r.0 <= max_retries ==> (r.1 matches RetryDecision::Wait { attempt, max_attempts, delay } && attempt == r.0
            && max_attempts == max_retries + 1 && delay == (match retry_after_ms {
                Some(ms) => RetryDelay::Server(ms),
                None => RetryDelay::Backoff((base_delay_ms * two_pow(retry_count as nat)) as u64),
            })),
{
    let count = retry_count + 1;
    if count > max_retries {
        let mut m = String::from_str("Provider error after ");
        m.append(decimal_string(count as u64).as_str());
        m.append(" retries: ");
        m.append(error_msg);
        return (count, RetryDecision::GiveUp { attempt: count - 1, message: m });
    }
    let delay = match retry_after_ms {
        Some(ms) => RetryDelay::Server(ms),
        None => {
            if base_delay_ms == 0 {
                RetryDelay::Backoff(0)
            } else {
                let mut p: u64 = 1;
                let mut i: u32 = 0;
                proof {
                    assert(base_delay_ms * two_pow(retry_count as nat) >= two_pow(retry_count as nat)) by (nonlinear_arith)
                        requires
                            base_delay_ms > 0,
                    ;
                }
                while i < retry_count
                    invariant
                        i <= retry_count < 64,
                        p == two_pow(i as nat),
                        two_pow(retry_count as nat) <= u64::MAX,
                    decreases retry_count - i,
                {
                    proof {
                        lemma_two_pow_mono((i + 1) as nat, retry_count as nat);
                    }
                    p = p * 2;
                    i = i + 1;
                }
                RetryDelay::Backoff(base_delay_ms * p)
            }
        },
    };
    (count, RetryDecision::Wait { attempt: count, max_attempts: max_retries + 1, delay })
}

proof fn lemma_two_pow_mono(a: nat, b: nat)
    requires
        a <= b,
    ensures
        two_pow(a) <= two_pow(b),
    decreases b - a,
{
    if a < b {
        lemma_two_pow_mono(a, (b - 1) as nat);
    }
}

/// Law: backoff delays double from one retry to the next.
pub proof fn law_backoff_doubles(base: nat, k: nat)
    ensures
        base * two_pow(k + 1) == 2 * (base * two_pow(k)),
{
    assert(two_pow(k + 1) == 2 * two_pow(k));
    assert(base * (2 * two_pow(k)) == 2 * (base * two_pow(k))) by (nonlinear_arith);
}

/// The message that ends a turn on an error that is not retried.
pub fn non_retryable_error_message(error: &str) -> (s: String)
    ensures
        s@ == "Error: "@ + error@ + " — try sending your message again."@,
{
    let mut s = String::from_str("Error: ");
    s.append(error);
    s.append(" — try sending your message again.");
    s
}

/// The message that ends a turn when no provider can be built.
pub fn provider_build_error_message(error: &str) -> (s: String)
    ensures
        s@ == "Failed to build provider: "@ + error@,
{
    let mut s = String::from_str("Failed to build provider: ");
    s.append(error);
    s
}

/// A hook run as shown in the chat.
pub struct HookReport {
    pub success: bool,
    pub stdout: String,
    pub stderr: String,
}

/// What a `PreToolUse` hook run means for the tool call.
pub enum PreToolVerdict {
    /// The hook blocked the call (exit 2) with this error; stop running
    /// hooks and report the block.
    Blocked { error: String, report: HookReport },
    /// The call may proceed; report the run when the hook succeeded.
    Proceed { report: Option<HookReport> },
}

/// Read a `PreToolUse` hook's result.
pub fn pre_tool_hook_verdict(r: HookResult) -> (v: PreToolVerdict)
    ensures
        r.exit_code == 2 ==> (v matches PreToolVerdict::Blocked { error, report } && error@ == r.stderr@
            && !report.success && report.stdout@ == r.stdout@ && report.stderr@ == r.stderr@),
        r.exit_code == 0 ==> (v matches PreToolVerdict::Proceed { report: Some(rep) } && rep.success
            && rep.stdout@ == r.stdout@ && rep.stderr@.len() == 0),
        r.exit_code != 0 && r.exit_code != 2 ==> v matches PreToolVerdict::Proceed { report: None },
{
    if r.exit_code == 2 {
        let error = r.stderr.clone();
        PreToolVerdict::Blocked { error, report: HookReport { success: false, stdout: r.stdout, stderr: r.stderr } }
    } else if r.exit_code == 0 {
        PreToolVerdict::Proceed { report: Some(HookReport { success: true, stdout: r.stdout, stderr: String::new() }) }
    } else {
        PreToolVerdict::Proceed { report: None }
    }
}

/// The tool result recorded for a call a hook blocked.
pub fn blocked_tool_result(error: &str) -> (s: String)
    ensures
        s@ == "Tool call blocked by hook: "@ + error@,
{
    let mut s = String::from_str("Tool call blocked by hook: ");
    s.append(error);
    s
}

/// The instruction a `PostToolUse` hook adds for the model: its error when
/// it blocked, its output when it succeeded with some, else nothing.
pub fn post_tool_instruction(hook_name: &str, r: &HookResult) -> (s: Option<String>)
    ensures
        r.exit_code == 2 ==> (s matches Some(t) && t@ == "\n\n[PostToolUse hook '"@ + hook_name@ + "' blocked: "@ + r.stderr@ + "]"@),
        r.exit_code == 0 && r.stdout@.len() > 0 ==> (s matches Some(t) && t@ == "\n\n[PostToolUse hook '"@ + hook_name@ + "': "@ + r.stdout@ + "]"@),
        r.exit_code != 2 && !(r.exit_code == 0 && r.stdout@.len() > 0) ==> s is None,
{
    if r.blocked() {
        let mut t = String::from_str("\n\n[PostToolUse hook '");
        t.append(hook_name);
        t.append("' blocked: ");
        t.append(r.stderr.as_str());
        t.append("]");
        Some(t)
    } else if r.success() && !r.stdout.as_str().is_empty() {
        let mut t = String::from_str("\n\n[PostToolUse hook '");
        t.append(hook_name);
        t.append("': ");
        t.append(r.stdout.as_str());
        t.append("]");
        Some(t)
    } else {
        None
    }
}

/// Name of the synthetic tool that carries hook instructions to the model.
pub const HOOK_INSTRUCTION_TOOL: &'static str = "hook_instruction";

/// The synthetic tool call and result that carry collected hook
/// instructions to the model (never shown, never saved), or `None` when
/// there are none.
pub fn hook_instruction_pair(instructions: &str) -> (r: Option<(ToolCall, String)>)
    ensures
        instructions@.len() == 0 ==> r is None,
        instructions@.len() > 0 ==> (r matches Some((tc, result)) && tc.id@ == "hook_instruction"@
            && tc.name@ == HOOK_INSTRUCTION_TOOL@ && tc.arguments@ == "{}"@ && result@ == trimmed(instructions@)),
{
    if instructions.is_empty() {
        return None;
    }
    let tc = ToolCall {
        id: String::from_str("hook_instruction"),
        name: String::from_str(HOOK_INSTRUCTION_TOOL),
        arguments: String::from_str("{}"),
    };
    Some((tc, trim_string(instructions)))
}

/// What `serde_json` finds as the string value of `key` in the JSON object
/// text `json` (`None` when the text is not JSON, not an object, or the
/// value is missing or not a string).
pub uninterp spec fn json_str_field(json: Seq<char>, key: Seq<char>) -> Option<Seq<char>>;

/// Read the string field `key` of the JSON object text `json` with
/// `serde_json`.
#[verifier::external_body]
fn json_string_field(json: &str, key: &str) -> (r: Option<String>)
    ensures
        match r {
            Some(s) => json_str_field(json@, key@) == Some(s@),
            None => json_str_field(json@, key@) is None,
        },
{
    match serde_json::from_str::<serde_json::Value>(json) {
        Ok(v) => match v.get(key) {
            Some(x) => match x.as_str() {
                Some(s) => Some(s.to_string()),
                None => None,
            },
            None => None,
        },
        Err(_) => None,
    }
}

/// The skill an `activate_skill` call names: its `name` argument, or ""
/// when there is none.
pub open spec fn requested_skill(args: Seq<char>) -> Seq<char> {
    match json_str_field(args, "name"@) {
        Some(n) => n,
        None => Seq::empty(),
    }
}

/// The skill name an `activate_skill` call asks for ("" when missing).
pub fn skill_name_of(tc: &ToolCall) -> (name: String)
    ensures
        name@ == requested_skill(tc.arguments@),
{
    match json_string_field(tc.arguments.as_str(), "name") {
        Some(n) => n,
        None => String::new(),
    }
}

/// The tool result of an `activate_skill` call without a skill name.
pub fn missing_skill_name_result() -> (s: String)
    ensures
        s@ == "Error: skill name is required"@,
{
    String::from_str("Error: skill name is required")
}

/// What reading a skill's `SKILL.md` gave.
pub enum SkillFile {
    /// No skill of that name is known.
    NotListed,
    /// The file's content.
    Read(String),
    /// Reading failed: the file's path and the error.
    Failed { path: String, error: String },
}

/// The tool result of activating a skill: a confirmation, followed by the
/// skill's instructions (trimmed) or the read error.
pub open spec fn skill_activation_text(name: Seq<char>, file: SkillFile) -> Seq<char> {
    let head = "Skill '"@ + name + "' activated."@;
    match file {
        SkillFile::NotListed => head,
        SkillFile::Read(c) => head + "\n\n<skill_instructions name=\""@ + name + "\">\n"@ + trimmed(c@)
            + "\n</skill_instructions>"@,
        SkillFile::Failed { path, error } => head + "\n\n[Error reading skill file '"@ + path@ + "': "@ + error@
            + "]"@,
    }
}

/// The tool result of activating the skill `name`.
pub fn skill_activation_result(name: &str, file: SkillFile) -> (s: String)
    ensures
        s@ == skill_activation_text(name@, file),
{
    let ghost f = file;
    let mut s = String::from_str("Skill '");
    s.append(name);
    s.append("' activated.");
    match file {
        SkillFile::NotListed => {},
        SkillFile::Read(c) => {
            s.append("\n\n<skill_instructions name=\"");
            s.append(name);
            s.append("\">\n");
            s.append(trim_string(c.as_str()).as_str());
            s.append("\n</skill_instructions>");
        },
        SkillFile::Failed { path, error } => {
            s.append("\n\n[Error reading skill file '");
            s.append(path.as_str());
            s.append("': ");
            s.append(error.as_str());
            s.append("]");
        },
    }
    s
}

/// `s` with each CR LF and each remaining LF written as the two characters
/// `\n`.
pub open spec fn escape_newlines(s: Seq<char>) -> Seq<char>
    decreases s.len(),
{
    if s.len() == 0 {
        Seq::empty()
    } else if s[0] == '\r' && s.len() >= 2 && s[1] == '\n' {
        seq!['\\', 'n'] + escape_newlines(s.skip(2))
    } else if s[0] == '\n' {
        seq!['\\', 'n'] + escape_newlines(s.skip(1))
    } else {
        seq![s[0]] + escape_newlines(s.skip(1))
    }
}

/// A one-line preview of `content`: newlines escaped, cut to `max_chars`
/// characters with `…` when longer.
pub open spec fn preview_text(content: Seq<char>, max_chars: nat) -> Seq<char> {
    let e = escape_newlines(content);
    if e.len() <= max_chars {
        e
    } else {
        e.take(max_chars as int) + seq!['…']
    }
}

fn escape_from(cs: &Vec<char>, i: usize) -> (r: Vec<char>)
    requires
        i <= cs@.len(),
    ensures
        r@ == escape_newlines(cs@.skip(i as int)),
    decreases cs@.len() - i,
{
    if i >= cs.len() {
        assert(cs@.skip(i as int) =~= Seq::<char>::empty());
        return Vec::new();
    }
    let ghost t = cs@.skip(i as int);
    assert(t[0] == cs@[i as int]);
    let mut out: Vec<char> = Vec::new();
    if cs[i] == '\r' && i + 1 < cs.len() && cs[i + 1] == '\n' {
        assert(t.len() >= 2 && t[1] == cs@[i + 1]);
        assert(t.skip(2) =~= cs@.skip(i + 2));
        out.push('\\');
        out.push('n');
        let mut rest = escape_from(cs, i + 2);
        out.append(&mut rest);
        assert(out@ =~= seq!['\\', 'n'] + escape_newlines(t.skip(2)));
    } else if cs[i] == '\n' {
        assert(t.skip(1) =~= cs@.skip(i + 1));
        out.push('\\');
        out.push('n');
        let mut rest = escape_from(cs, i + 1);
        out.append(&mut rest);
        assert(out@ =~= seq!['\\', 'n'] + escape_newlines(t.skip(1)));
    } else {
        assert(t.skip(1) =~= cs@.skip(i + 1));
        assert(!(t[0] == '\r' && t.len() >= 2 && t[1] == '\n'));
        out.push(cs[i]);
        let mut rest = escape_from(cs, i + 1);
        out.append(&mut rest);
        assert(out@ =~= seq![t[0]] + escape_newlines(t.skip(1)));
    }
    out
}

/// Escape newlines and cut `content` to `max_chars` characters (plus `…`).
pub fn truncate_content(content: &str, max_chars: usize) -> (s: String)
    ensures
        s@ == preview_text(content@, max_chars as nat),
{
    let cs = chars_of(content);
    assert(cs@.skip(0) =~= cs@);
    let e = escape_from(&cs, 0);
    if e.len() <= max_chars {
        crate::text::string_from_chars(&e)
    } else {
        let mut s = crate::text::string_from_range(&e, 0, max_chars);
        s.push('…');
        assert(e@.subrange(0, max_chars as int) =~= e@.take(max_chars as int));
        s
    }
}


/// The base system prompt.
pub const SYSTEM_PROMPT: &'static str = "You are Respondami, a coding agent that helps users with software development tasks.
You can read, write, and edit files, and execute shell commands.

## Guidelines
- Use read to examine files instead of bash (cat, sed, head).
- Use write only for new files or complete rewrites. Use edit for targeted changes.
- Use bash for file operations like ls, rg, find.
- Be concise and direct. Show code, not explanations, unless asked.
- Show file paths clearly when working with files.
- When editing files, use the edit tool with precise oldText/newText pairs.
- When running commands, explain what you're doing briefly.
- If a tool call fails, analyze the error and try again or suggest alternatives.
- Respect the user's project structure and conventions.
- When you're done with a task, summarize what you did.
- Keep user-facing text (questions, answers, conclusions) in message content, not in thinking/reasoning blocks. Thinking is for internal scratch work only.

## Skills
When the user asks you to use a skill (e.g., \"use the refine skill\"), you MUST:
1. Call the `activate_skill` tool with the skill name as the first action
2. Wait for the activation confirmation
3. Then follow the skill's instructions

Do not follow a skill's instructions or use its approach until you have activated it.
Available skills are listed in your skills section.
";

/// The base system prompt.
pub fn get_system_prompt() -> (s: &'static str)
    ensures
        s@ == SYSTEM_PROMPT@,
{
    SYSTEM_PROMPT
}

/// The block that hands `AGENTS.md` (read from `path`) to the model.
pub open spec fn project_context_block(path: Seq<char>, content: Seq<char>) -> Seq<char> {
    "\n\n<project_context>\n\n"@ + "Project-specific instructions and guidelines:\n\n"@
        + "<project_instructions path=\""@ + path + "\">\n"@ + trimmed(content)
        + "\n</project_instructions>\n\n</project_context>"@
}

/// The closing lines with today's date and the working directory.
pub open spec fn date_and_cwd(date: Seq<char>, cwd: Seq<char>) -> Seq<char> {
    "\nCurrent date: "@ + date + "\nCurrent working directory: "@ + cwd
}

/// The system prompt: the base prompt, the project's `AGENTS.md` when one
/// was found (its content and path), the skills block when there are
/// skills, then the date and working directory.
pub open spec fn system_prompt_text(
    agents_md: Option<(Seq<char>, Seq<char>)>,
    skills_xml: Seq<char>,
    date: Seq<char>,
    cwd: Seq<char>,
) -> Seq<char> {
    let with_project = match agents_md {
        Some((content, path)) => SYSTEM_PROMPT@ + project_context_block(path, content),
        None => SYSTEM_PROMPT@,
    };
    with_project + skills_xml + date_and_cwd(date, cwd)
}

/// The content and path of a found `AGENTS.md`, as character sequences.
pub open spec fn found_view(agents_md: Option<(String, String)>) -> Option<(Seq<char>, Seq<char>)> {
    match agents_md {
        Some((c, p)) => Some((c@, p@)),
        None => None,
    }
}

/// A decimal digit.
pub open spec fn is_digit(c: char) -> bool {
    '0' <= c && c <= '9'
}

/// The shape of a date written `%Y-%m-%d`: the year, a dash, a two-digit
/// month from 01 to 12, a dash and a two-digit day from 01 to 31. The year
/// is four digits (the text is then ten characters long), or, for a year
/// outside 0 to 9999, a sign and at least four digits.
pub open spec fn is_date_text(s: Seq<char>) -> bool {
    let n = s.len() as int;
    &&& n >= 10
    &&& s[n - 6] == '-' && s[n - 3] == '-'
    &&& is_digit(s[n - 5]) && is_digit(s[n - 4]) && is_digit(s[n - 2]) && is_digit(s[n - 1])
    &&& (s[n - 5] == '0' && s[n - 4] != '0') || (s[n - 5] == '1' && '0' <= s[n - 4] && s[n - 4] <= '2')
    &&& (s[n - 2] == '0' && s[n - 1] != '0') || ('1' <= s[n - 2] && s[n - 2] <= '2') || (s[n - 2] == '3' && s[n - 1] <= '1')
    &&& (n == 10 && forall|i: int| 0 <= i < 4 ==> is_digit(#[trigger] s[i]))
        || (n > 10 && (s[0] == '+' || s[0] == '-') && forall|i: int| 1 <= i < n - 6 ==> is_digit(#[trigger] s[i]))
}

/// Today's date in the local time zone, `chrono::Local::now()` formatted
/// with `%Y-%m-%d`. Which date it is depends on the clock and the time
/// zone; claimed of it is only its shape (see [`is_date_text`]), as
/// `chrono`'s formatting writes it: the year with four digits (a sign and
/// more digits outside 0 to 9999), month and day with two.
#[verifier::external_body]
pub(crate) fn local_date() -> (d: String)
    ensures
        is_date_text(d@),
{
    chrono::Local::now().format("%Y-%m-%d").to_string()
}

/// Build the system prompt from what was found, with today's date:
/// `agents_md` holds the content and path of `AGENTS.md`, `skills_xml` the
/// skills block ("" when there are no skills). The prompt is the one
/// [`system_prompt_with_date`] builds for the date the clock gave, written
/// `YYYY-MM-DD` (see [`is_date_text`]).
pub fn build_system_prompt_with_agents_md(
    agents_md: Option<(String, String)>,
    skills_xml: &str,
    cwd: &str,
) -> (s: String)
    ensures
        exists|date: Seq<char>|
            is_date_text(date) && s@ == #[trigger] system_prompt_text(
                found_view(agents_md),
                skills_xml@,
                date,
                cwd@,
            ),
{
    let date = local_date();
    let s = system_prompt_with_date(agents_md, skills_xml, date.as_str(), cwd);
    assert(s@ == system_prompt_text(
        found_view(agents_md),
        skills_xml@,
        date@,
        cwd@,
    ));
    s
}

/// The system prompt for a given date: see [`system_prompt_text`].
pub fn system_prompt_with_date(
    agents_md: Option<(String, String)>,
    skills_xml: &str,
    date: &str,
    cwd: &str,
) -> (s: String)
    ensures
        s@ == system_prompt_text(found_view(agents_md), skills_xml@, date@, cwd@),
{
    let mut s = String::from_str(SYSTEM_PROMPT);
    match agents_md {
        Some((content, path)) => {
            s.append("\n\n<project_context>\n\n");
            s.append("Project-specific instructions and guidelines:\n\n");
            s.append("<project_instructions path=\"");
            s.append(path.as_str());
            s.append("\">\n");
            s.append(trim_string(content.as_str()).as_str());
            s.append("\n</project_instructions>\n\n</project_context>");
        },
        None => {},
    }
    s.append(skills_xml);
    s.append("\nCurrent date: ");
    s.append(date);
    s.append("\nCurrent working directory: ");
    s.append(cwd);
    s
}

/// The context of a request: the system prompt, then the session's
/// messages.
pub fn build_context_with_system(system_prompt: String, session: Vec<AgentMessage>) -> (v: Vec<AgentMessage>)
    ensures
        v@ == seq![AgentMessage::System { content: system_prompt }] + session@,
{
    let mut v = vec![AgentMessage::system(system_prompt)];
    let ghost first = v@;
    let mut rest = session;
    v.append(&mut rest);
    v
}

} // verus!
