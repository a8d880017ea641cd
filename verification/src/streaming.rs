//! Assembling a model response from its stream: text and reasoning chunks
//! grow the last block of their kind, tool calls arrive in fragments keyed
//! by index, and the provider's usage report (or an estimate) closes it.

use vstd::prelude::*;
use crate::agent::{approx_tokens, approx_token_count, join_lines, text_parts, AgentResponse};
use crate::session::{ContentBlock, ToolCall, Usage};
use vstd::string::StringExecFns;

verus! {

broadcast use vstd::string::group_string_axioms;

/// A fragment of a streamed tool call.
pub struct ToolCallDelta {
    /// Which tool call of the response the fragment belongs to.
    pub index: usize,
    pub id: Option<String>,
    pub name: Option<String>,
    /// More of the call's argument text.
    pub arguments: String,
}

/// A tool call being assembled.
pub struct PartialToolCall {
    pub index: usize,
    pub id: String,
    pub name: String,
    pub arguments: String,
}

/// One chunk of a streamed response.
pub enum ChatChunk {
    /// Visible text.
    Content(String),
    /// Reasoning starts (`true`) or ends (`false`).
    Thinking(bool),
    /// Reasoning text.
    Reasoning(String),
    /// A tool call fragment.
    ToolCall(ToolCallDelta),
    /// The provider's token usage.
    Usage(Usage),
}

/// What to tell the user interface about a chunk.
pub enum StreamSignal {
    Token(String),
    ThinkingStart,
    ThinkingEnd,
    Reasoning(String),
    Nothing,
}

/// A response being assembled.
pub struct StreamState {
    pub blocks: Vec<ContentBlock>,
    pub pending: Vec<PartialToolCall>,
    pub usage: Option<Usage>,
    pub in_thinking: bool,
}

/// Index of the pending call with this index, or -1.
pub open spec fn pending_position(p: Seq<PartialToolCall>, index: usize) -> int
    decreases p.len(),
{
    if p.len() == 0 {
        -1
    } else if p.last().index == index {
        p.len() - 1
    } else {
        pending_position(p.drop_last(), index)
    }
}

impl StreamState {
    /// Nothing received yet.
    pub fn new() -> (s: StreamState)
        ensures
            s.blocks@.len() == 0,
            s.pending@.len() == 0,
            s.usage is None,
            !s.in_thinking,
    {
        StreamState { blocks: Vec::new(), pending: Vec::new(), usage: None, in_thinking: false }
    }
}

/// `after` is `before` with the fragment `delta` added: a call with a new
/// index is appended (with the fragment's id, name and arguments, empty
/// where missing); otherwise the call with that index gets the fragment's
/// arguments appended and its id and name replaced where the fragment has
/// them, and the other calls stay as they are.
pub open spec fn accumulated(before: Seq<PartialToolCall>, after: Seq<PartialToolCall>, delta: ToolCallDelta) -> bool {
    let k = pending_position(before, delta.index);
    if k < 0 {
        &&& after.len() == before.len() + 1
        &&& after.take(before.len() as int) == before
        &&& after.last().index == delta.index
        &&& after.last().id@ == (match delta.id { Some(i) => i@, None => Seq::<char>::empty() })
        &&& after.last().name@ == (match delta.name { Some(n) => n@, None => Seq::<char>::empty() })
        &&& after.last().arguments@ == delta.arguments@
    } else {
        &&& after.len() == before.len()
        &&& forall|j: int| 0 <= j < before.len() && j != k ==> #[trigger] after[j] == before[j]
        &&& after[k].index == delta.index
        &&& after[k].arguments@ == before[k].arguments@ + delta.arguments@
        &&& after[k].id@ == (match delta.id { Some(i) => i@, None => before[k].id@ })
        &&& after[k].name@ == (match delta.name { Some(n) => n@, None => before[k].name@ })
    }
}

/// Add a fragment to the pending tool calls.
pub fn accumulate_tool_call(pending: &mut Vec<PartialToolCall>, delta: ToolCallDelta)
    ensures
        accumulated(old(pending)@, final(pending)@, delta),
{
    let ghost old_p = pending@;
    let mut k = pending.len();
    assert(old_p.take(k as int) =~= old_p);
    while k > 0 && pending[k - 1].index != delta.index
        invariant
            k <= pending@.len(),
            pending@ == old_p,
            pending_position(old_p, delta.index) == pending_position(old_p.take(k as int), delta.index),
        decreases k,
    {
        proof {
            assert(old_p.take(k as int).drop_last() =~= old_p.take(k as int - 1));
        }
        k = k - 1;
    }
    proof {
        if k > 0 {
            assert(old_p.take(k as int).last() == old_p[k as int - 1]);
        } else {
            assert(old_p.take(0) =~= Seq::<PartialToolCall>::empty());
        }
    }
    if k == 0 {
        let id = match delta.id {
            Some(i) => i,
            None => String::new(),
        };
        let name = match delta.name {
            Some(n) => n,
            None => String::new(),
        };
        pending.push(PartialToolCall { index: delta.index, id, name, arguments: delta.arguments });
        assert(pending@.take(old_p.len() as int) =~= old_p);
    } else {
        let pos = k - 1;
        let mut entry = pending.remove(pos);
        entry.arguments.append(delta.arguments.as_str());
        match delta.id {
            Some(i) => entry.id = i,
            None => {},
        }
        match delta.name {
            Some(n) => entry.name = n,
            None => {},
        }
        pending.insert(pos, entry);
    }
}

/// The visible text of a response: its text blocks, joined in order.
pub open spec fn visible_text(bs: Seq<ContentBlock>) -> Seq<char>
    decreases bs.len(),
{
    if bs.len() == 0 {
        Seq::empty()
    } else {
        visible_text(bs.drop_last()) + match bs.last() {
            ContentBlock::Text { text } => text@,
            _ => Seq::empty(),
        }
    }
}

proof fn lemma_visible_push(bs: Seq<ContentBlock>, b: ContentBlock)
    ensures
        visible_text(bs.push(b)) == visible_text(bs) + match b {
            ContentBlock::Text { text } => text@,
            _ => Seq::empty(),
        },
{
    assert(bs.push(b).drop_last() =~= bs);
}

/// Apply one chunk: text grows the last text block (or starts one),
/// reasoning grows the last thinking block, a reasoning start opens an
/// empty thinking block, tool call fragments accumulate, usage is kept.
pub fn apply_chunk(state: &mut StreamState, chunk: ChatChunk) -> (sig: StreamSignal)
    ensures
        match chunk {
            ChatChunk::Content(t) => {
                &&& sig matches StreamSignal::Token(s) && s@ == t@
                &&& visible_text(final(state).blocks@) == visible_text(old(state).blocks@) + t@
                &&& if old(state).blocks@.len() > 0 && old(state).blocks@.last() is Text {
                    &&& final(state).blocks@.len() == old(state).blocks@.len()
                    &&& final(state).blocks@.drop_last() == old(state).blocks@.drop_last()
                    &&& final(state).blocks@.last() matches ContentBlock::Text { text }
                        && text@ == old(state).blocks@.last()->text@ + t@
                } else {
                    &&& final(state).blocks@.len() == old(state).blocks@.len() + 1
                    &&& final(state).blocks@.drop_last() == old(state).blocks@
                    &&& final(state).blocks@.last() matches ContentBlock::Text { text } && text@ == t@
                }
                &&& final(state).in_thinking == old(state).in_thinking
                &&& final(state).pending@ == old(state).pending@
                &&& final(state).usage == old(state).usage
            },
            ChatChunk::Thinking(start) => {
                &&& final(state).pending@ == old(state).pending@
                &&& final(state).usage == old(state).usage
                &&& if start && !old(state).in_thinking {
                    &&& sig is ThinkingStart
                    &&& final(state).in_thinking
                    &&& final(state).blocks@ == old(state).blocks@.push(ContentBlock::Thinking { thinking: final(state).blocks@.last()->thinking })
                    &&& final(state).blocks@.last()->thinking@.len() == 0
                    &&& visible_text(final(state).blocks@) == visible_text(old(state).blocks@)
                } else if !start && old(state).in_thinking {
                    sig is ThinkingEnd && !final(state).in_thinking && final(state).blocks@ == old(state).blocks@
                } else {
                    sig is Nothing && final(state).in_thinking == old(state).in_thinking && final(state).blocks@ == old(state).blocks@
                }
            },
            ChatChunk::Reasoning(t) => {
                &&& sig matches StreamSignal::Reasoning(s) && s@ == t@
                &&& visible_text(final(state).blocks@) == visible_text(old(state).blocks@)
                &&& if old(state).blocks@.len() > 0 && old(state).blocks@.last() is Thinking {
                    &&& final(state).blocks@.len() == old(state).blocks@.len()
                    &&& final(state).blocks@.drop_last() == old(state).blocks@.drop_last()
                    &&& final(state).blocks@.last() matches ContentBlock::Thinking { thinking }
                        && thinking@ == old(state).blocks@.last()->thinking@ + t@
                } else {
                    final(state).blocks@ == old(state).blocks@
                }
                &&& final(state).in_thinking == old(state).in_thinking
                &&& final(state).pending@ == old(state).pending@
                &&& final(state).usage == old(state).usage
            },
            ChatChunk::ToolCall(delta) => {
                &&& sig is Nothing
                &&& final(state).blocks@ == old(state).blocks@
                &&& accumulated(old(state).pending@, final(state).pending@, delta)
                &&& final(state).in_thinking == old(state).in_thinking
                &&& final(state).usage == old(state).usage
            },
            ChatChunk::Usage(u) => {
                &&& sig is Nothing
                &&& final(state).usage == Some(u)
                &&& final(state).blocks@ == old(state).blocks@
                &&& final(state).pending@ == old(state).pending@
                &&& final(state).in_thinking == old(state).in_thinking
            },
        },
{
    match chunk {
        ChatChunk::Content(text) => {
            let n = state.blocks.len();
            let sig_text = text.clone();
            if n > 0 {
                if let ContentBlock::Text { .. } = &state.blocks[n - 1] {
                    let last = state.blocks.pop();
                    match last {
                        Some(ContentBlock::Text { text: mut existing }) => {
                            let ghost prev = existing@;
                            existing.append(text.as_str());
                            let ghost rest = state.blocks@;
                            state.blocks.push(ContentBlock::Text { text: existing });
                            proof {
                                lemma_visible_push(rest, ContentBlock::Text { text: existing });
                                assert(old(state).blocks@.drop_last() =~= rest);
                                assert(visible_text(rest) + prev + text@ =~= visible_text(rest) + (prev + text@));
                            }
                        },
                        _ => {},
                    }
                    return StreamSignal::Token(sig_text);
                }
            }
            proof {
                lemma_visible_push(state.blocks@, ContentBlock::Text { text });
            }
            state.blocks.push(ContentBlock::Text { text });
            StreamSignal::Token(sig_text)
        },
        ChatChunk::Thinking(start) => {
            if start && !state.in_thinking {
                state.in_thinking = true;
                let b = ContentBlock::Thinking { thinking: String::new() };
                proof {
                    lemma_visible_push(state.blocks@, b);
                }
                state.blocks.push(b);
                StreamSignal::ThinkingStart
            } else if !start && state.in_thinking {
                state.in_thinking = false;
                StreamSignal::ThinkingEnd
            } else {
                StreamSignal::Nothing
            }
        },
        ChatChunk::Reasoning(text) => {
            let n = state.blocks.len();
            let sig_text = text.clone();
            if n > 0 {
                if let ContentBlock::Thinking { .. } = &state.blocks[n - 1] {
                    let last = state.blocks.pop();
                    match last {
                        Some(ContentBlock::Thinking { thinking: mut existing }) => {
                            existing.append(text.as_str());
                            let ghost rest = state.blocks@;
                            state.blocks.push(ContentBlock::Thinking { thinking: existing });
                            proof {
                                lemma_visible_push(rest, ContentBlock::Thinking { thinking: existing });
                                assert(old(state).blocks@.drop_last() =~= rest);
                            }
                        },
                        _ => {},
                    }
                }
            }
            StreamSignal::Reasoning(sig_text)
        },
        ChatChunk::ToolCall(delta) => {
            accumulate_tool_call(&mut state.pending, delta);
            StreamSignal::Nothing
        },
        ChatChunk::Usage(u) => {
            state.usage = Some(u);
            StreamSignal::Nothing
        },
    }
}

/// The visible text a chunk adds.
pub open spec fn chunk_text(c: ChatChunk) -> Seq<char> {
    match c {
        ChatChunk::Content(t) => t@,
        _ => Seq::empty(),
    }
}

/// The visible text of a run of chunks: their content texts, in order.
pub open spec fn chunks_text(cs: Seq<ChatChunk>) -> Seq<char>
    decreases cs.len(),
{
    if cs.len() == 0 {
        Seq::empty()
    } else {
        chunks_text(cs.drop_last()) + chunk_text(cs.last())
    }
}

/// Apply a run of chunks in order, one signal per chunk: each content
/// chunk gives one token with its text, and no other chunk gives a token.
/// The visible text grows by the content texts, in order.
pub fn apply_chunks(state: &mut StreamState, chunks: Vec<ChatChunk>) -> (signals: Vec<StreamSignal>)
    ensures
        signals@.len() == chunks@.len(),
        forall|i: int| 0 <= i < chunks@.len() ==> (#[trigger] chunks@[i] is Content <==> signals@[i] is Token),
        forall|i: int| 0 <= i < chunks@.len() && #[trigger] chunks@[i] is Content
            ==> (signals@[i] matches StreamSignal::Token(s) && s@ == chunks@[i]->Content_0@),
        visible_text(final(state).blocks@) == visible_text(old(state).blocks@) + chunks_text(chunks@),
{
    let ghost all = chunks@;
    let ghost start = state.blocks@;
    let mut signals: Vec<StreamSignal> = Vec::new();
    let mut rest = chunks;
    let ghost mut k: int = 0;
    proof {
        assert(all.take(0) =~= Seq::<ChatChunk>::empty());
        assert(visible_text(start) + Seq::<char>::empty() =~= visible_text(start));
    }
    while rest.len() > 0
        invariant
            0 <= k <= all.len(),
            rest@ == all.skip(k),
            signals@.len() == k,
            forall|i: int| 0 <= i < k ==> (#[trigger] all[i] is Content <==> signals@[i] is Token),
            forall|i: int| 0 <= i < k && #[trigger] all[i] is Content
                ==> (signals@[i] matches StreamSignal::Token(s) && s@ == all[i]->Content_0@),
            visible_text(state.blocks@) == visible_text(start) + chunks_text(all.take(k)),
        decreases rest@.len(),
    {
        let c = rest.remove(0);
        proof {
            assert(c == all[k]);
            assert(rest@ =~= all.skip(k + 1));
            assert(all.take(k + 1).drop_last() =~= all.take(k));
            assert(all.take(k + 1).last() == all[k]);
        }
        let ghost before = visible_text(state.blocks@);
        let sig = apply_chunk(state, c);
        proof {
            assert(visible_text(state.blocks@) == before + chunk_text(c));
            assert(visible_text(start) + chunks_text(all.take(k)) + chunk_text(c)
                =~= visible_text(start) + chunks_text(all.take(k + 1)));
        }
        signals.push(sig);
        proof {
            k = k + 1;
        }
    }
    proof {
        assert(all.take(k) =~= all);
    }
    signals
}

/// What `serde_json` makes of a tool call's argument text: the compact
/// JSON text of the value it parses to, or `None` when it is not JSON.
pub uninterp spec fn json_compact(s: Seq<char>) -> Option<Seq<char>>;

/// Parse JSON text with `serde_json` and write it back compactly.
#[verifier::external_body]
fn json_reformat(s: &str) -> (r: Option<String>)
    ensures
        match r {
            Some(t) => json_compact(s@) == Some(t@),
            None => json_compact(s@) is None,
        },
{
    match serde_json::from_str::<serde_json::Value>(s) {
        Ok(v) => Some(v.to_string()),
        Err(_) => None,
    }
}

/// The arguments of an assembled call: `{}` when there are none, else the
/// compact form of the JSON, or `None` when it does not parse.
pub open spec fn call_arguments(raw: Seq<char>) -> Option<Seq<char>> {
    if crate::text::all_white_space(raw) {
        Some("{}"@)
    } else {
        json_compact(raw)
    }
}

/// The assembled tool calls whose arguments parse, in order.
pub open spec fn finished_calls(p: Seq<PartialToolCall>) -> Seq<(Seq<char>, Seq<char>, Seq<char>)>
    decreases p.len(),
{
    if p.len() == 0 {
        Seq::empty()
    } else {
        match call_arguments(p.last().arguments@) {
            Some(a) => finished_calls(p.drop_last()).push((p.last().id@, p.last().name@, a)),
            None => finished_calls(p.drop_last()),
        }
    }
}

/// The blocks of `bs` without empty thinking blocks.
pub open spec fn without_empty_thinking(bs: Seq<ContentBlock>) -> Seq<ContentBlock>
    decreases bs.len(),
{
    if bs.len() == 0 {
        Seq::empty()
    } else {
        match bs.last() {
            ContentBlock::Thinking { thinking } if thinking@.len() == 0 => without_empty_thinking(bs.drop_last()),
            _ => without_empty_thinking(bs.drop_last()).push(bs.last()),
        }
    }
}

/// The tool-call blocks view as (id, name, arguments).
pub open spec fn call_views(bs: Seq<ContentBlock>) -> Seq<(Seq<char>, Seq<char>, Seq<char>)>
    decreases bs.len(),
{
    if bs.len() == 0 {
        Seq::empty()
    } else {
        match bs.last() {
            ContentBlock::ToolCall { tool_call } => call_views(bs.drop_last()).push(
                (tool_call.id@, tool_call.name@, tool_call.arguments@),
            ),
            _ => call_views(bs.drop_last()),
        }
    }
}

fn remove_empty_thinking(bs: Vec<ContentBlock>) -> (r: Vec<ContentBlock>)
    ensures
        r@ == without_empty_thinking(bs@),
{
    let mut out: Vec<ContentBlock> = Vec::new();
    let ghost all = bs@;
    let mut rest = bs;
    let ghost mut done: Seq<ContentBlock> = Seq::empty();
    proof {
        assert(done + rest@ =~= all);
    }
    while rest.len() > 0
        invariant
            done + rest@ == all,
            out@ == without_empty_thinking(done),
        decreases rest@.len(),
    {
        let ghost before = rest@;
        let b = rest.remove(0);
        let ghost gb = b;
        proof {
            assert(done.push(gb) + rest@ =~= done + before);
            assert(done.push(gb).drop_last() =~= done);
        }
        let keep = match &b {
            ContentBlock::Thinking { thinking } => !thinking.as_str().is_empty(),
            _ => true,
        };
        if keep {
            out.push(b);
        }
        proof {
            done = done.push(gb);
        }
    }
    proof {
        assert(done =~= all);
    }
    out
}

/// The usage of a response: the provider's report, or an estimate from the
/// prompt text and the response's text blocks.
pub open spec fn response_usage(reported: Option<Usage>, prompt: Seq<char>, bs: Seq<ContentBlock>) -> Usage {
    match reported {
        Some(u) => u,
        None => {
            let p = approx_tokens(prompt);
            let c = approx_tokens(join_lines(text_parts(bs)));
            Usage {
                prompt_tokens: p,
                completion_tokens: c,
                total_tokens: if p + c > u32::MAX { u32::MAX } else { (p + c) as u32 },
            }
        },
    }
}

/// Close the stream: append the tool calls whose arguments parse, drop
/// empty thinking blocks, and settle the usage (`prompt` is the request's
/// message text, for the estimate). Returns the response and whether a
/// thinking block was still open.
pub fn finish_stream(state: StreamState, prompt: &str) -> (r: (AgentResponse, bool))
    ensures
        r.1 == state.in_thinking,
        exists|with_calls: Seq<ContentBlock>|
            {
                &&& #[trigger] with_calls.take(state.blocks@.len() as int) == state.blocks@
                &&& call_views(with_calls.skip(state.blocks@.len() as int)) == finished_calls(state.pending@)
                &&& with_calls.skip(state.blocks@.len() as int).len() == finished_calls(state.pending@).len()
                &&& forall|i: int| state.blocks@.len() <= i < with_calls.len() ==> (#[trigger] with_calls[i]) is ToolCall
                &&& r.0.content@ == without_empty_thinking(with_calls)
                &&& r.0.usage == Some(response_usage(state.usage, prompt@, r.0.content@))
            },
{
    let StreamState { blocks, pending, usage, in_thinking } = state;
    let ghost b0 = blocks@;
    let mut blocks = blocks;
    let mut i: usize = 0;
    while i < pending.len()
        invariant
            i <= pending@.len(),
            blocks@.take(b0.len() as int) == b0,
            blocks@.len() >= b0.len(),
            call_views(blocks@.skip(b0.len() as int)) == finished_calls(pending@.take(i as int)),
            blocks@.skip(b0.len() as int).len() == finished_calls(pending@.take(i as int)).len(),
            forall|j: int| b0.len() <= j < blocks@.len() ==> (#[trigger] blocks@[j]) is ToolCall,
        decreases pending@.len() - i,
    {
        let p = &pending[i];
        let args = if crate::text::is_blank(p.arguments.as_str()) {
            Some(String::from_str("{}"))
        } else {
            json_reformat(p.arguments.as_str())
        };
        let ghost before = blocks@;
        proof {
            assert(pending@.take(i as int + 1).drop_last() =~= pending@.take(i as int));
            assert(pending@.take(i as int + 1).last() == pending@[i as int]);
        }
        match args {
            Some(a) => {
                let tc = ToolCall { id: p.id.clone(), name: p.name.clone(), arguments: a };
                blocks.push(ContentBlock::ToolCall { tool_call: tc });
                proof {
                    assert(blocks@.take(b0.len() as int) =~= b0);
                    assert(blocks@.skip(b0.len() as int) =~= before.skip(b0.len() as int).push(blocks@.last()));
                    assert(blocks@.skip(b0.len() as int).drop_last() =~= before.skip(b0.len() as int));
                }
            },
            None => {},
        }
        i = i + 1;
    }
    proof {
        assert(pending@.take(pending@.len() as int) =~= pending@);
    }
    let ghost with_calls = blocks@;
    let content = remove_empty_thinking(blocks);
    let resp0 = AgentResponse { content, usage: None };
    let u = match usage {
        Some(u) => u,
        None => {
            let p = approx_token_count(prompt);
            let t = resp0.text();
            let c = approx_token_count(t.as_str());
            Usage { prompt_tokens: p, completion_tokens: c, total_tokens: p.saturating_add(c) }
        },
    };
    let resp = AgentResponse { content: resp0.content, usage: Some(u) };
    (resp, in_thinking)
}

} // verus!
