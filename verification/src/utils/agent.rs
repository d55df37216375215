//! The conversation orchestrator.
//!
//! A turn drives one user query toward a final text answer: the model is
//! called with the current input, the full session history, every tool
//! descriptor, deterministic sampling and the injected retrieval context;
//! its response is scanned in order. Text items set a candidate answer,
//! each appended to the history as its own assistant message; the first
//! tool call ends the scan (later items of the same response are dropped,
//! deliberately), is appended as an assistant message and handed back for
//! dispatch, and its result becomes the next user-role input. A response
//! without a tool call finishes the turn with the last text seen.
//!
//! The orchestrator owns only the decisions and the history; the model
//! call itself and the embedding of query text are its collaborators'
//! work, performed between the steps exposed here.

use vstd::prelude::*;

use crate::num::Num;
use crate::tools::registry::{ToolOutput, ToolOutputView, ToolRegistry};
use crate::tools::ToolDescriptor;
use crate::utils::index::{appears, hit_ok, SearchHit};

verus! {

/// A tool invocation the model requests: a correlation id, the tool name,
/// and the raw argument text to be parsed by the dispatcher's caller.
pub struct ToolCall {
    pub id: String,
    pub name: String,
    pub arguments: String,
}

/// The mathematical content of a tool call.
pub struct ToolCallView {
    pub id: Seq<char>,
    pub name: Seq<char>,
    pub arguments: Seq<char>,
}

impl DeepView for ToolCall {
    type V = ToolCallView;

    open spec fn deep_view(&self) -> ToolCallView {
        ToolCallView { id: self.id@, name: self.name@, arguments: self.arguments@ }
    }
}

impl Clone for ToolCall {
    /// The copy carries exactly the same content.
    fn clone(&self) -> (res: Self)
        ensures
            res.deep_view() == self.deep_view(),
    {
        ToolCall {
            id: self.id.clone(),
            name: self.name.clone(),
            arguments: self.arguments.clone(),
        }
    }
}

/// One content item of an assistant response: intermediate or final text,
/// or a requested tool call.
pub enum AssistantItem {
    Text(String),
    Call(ToolCall),
}

/// The mathematical content of an assistant item.
pub enum AssistantItemView {
    Text(Seq<char>),
    Call(ToolCallView),
}

impl DeepView for AssistantItem {
    type V = AssistantItemView;

    open spec fn deep_view(&self) -> AssistantItemView {
        match self {
            AssistantItem::Text(t) => AssistantItemView::Text(t@),
            AssistantItem::Call(c) => AssistantItemView::Call(c.deep_view()),
        }
    }
}

/// The payload of a tool result message: which tool ran and what it
/// produced.
pub struct ToolResult {
    pub name: String,
    pub output: ToolOutput,
}

/// The mathematical content of a tool result.
pub struct ToolResultView {
    pub name: Seq<char>,
    pub output: ToolOutputView,
}

impl DeepView for ToolResult {
    type V = ToolResultView;

    open spec fn deep_view(&self) -> ToolResultView {
        ToolResultView { name: self.name@, output: self.output.deep_view() }
    }
}

impl From<(String, ToolOutput)> for ToolResult {
    /// Pairs a tool's name with what it produced.
    fn from(value: (String, ToolOutput)) -> (r: ToolResult) {
        ToolResult { name: value.0, output: value.1 }
    }
}

impl vstd::std_specs::convert::FromSpecImpl<(String, ToolOutput)> for ToolResult {
    open spec fn obeys_from_spec() -> bool {
        true
    }

    open spec fn from_spec(v: (String, ToolOutput)) -> ToolResult {
        ToolResult { name: v.0, output: v.1 }
    }
}

/// One content item of a user-role message: the user's text, or a tool
/// result correlated to its call by `id`.
pub enum UserItem {
    Text(String),
    Result { id: String, result: ToolResult },
}

/// The mathematical content of a user item.
pub enum UserItemView {
    Text(Seq<char>),
    Result { id: Seq<char>, result: ToolResultView },
}

impl DeepView for UserItem {
    type V = UserItemView;

    open spec fn deep_view(&self) -> UserItemView {
        match self {
            UserItem::Text(t) => UserItemView::Text(t@),
            UserItem::Result { id, result } => UserItemView::Result {
                id: id@,
                result: result.deep_view(),
            },
        }
    }
}

/// A message of the session history.
pub enum Message {
    User { content: Vec<UserItem> },
    Assistant { content: Vec<AssistantItem> },
}

/// The mathematical content of a message.
pub enum MessageView {
    User(Seq<UserItemView>),
    Assistant(Seq<AssistantItemView>),
}

impl DeepView for Message {
    type V = MessageView;

    open spec fn deep_view(&self) -> MessageView {
        match self {
            Message::User { content } => MessageView::User(content.deep_view()),
            Message::Assistant { content } => MessageView::Assistant(content.deep_view()),
        }
    }
}

/// A user-role message holding the user's text.
pub fn user_text_message(text: String) -> (m: Message)
    ensures
        m.deep_view() == MessageView::User(seq![UserItemView::Text(text@)]),
{
    let mut content: Vec<UserItem> = Vec::new();
    content.push(UserItem::Text(text));
    let m = Message::User { content };
    proof {
        assert(m.deep_view() is User);
        assert(m.deep_view()->User_0 =~= seq![UserItemView::Text(text@)]);
    }
    m
}

/// The user-role message that feeds one tool run's result back to the
/// model, correlated to its call by the same id.
pub fn tool_result_message(call: &ToolCall, output: ToolOutput) -> (m: Message)
    ensures
        m.deep_view() == MessageView::User(
            seq![
                UserItemView::Result {
                    id: call.id@,
                    result: ToolResultView { name: call.name@, output: output.deep_view() },
                },
            ],
        ),
{
    let ghost ov = output.deep_view();
    let result = ToolResult { name: call.name.clone(), output };
    let mut content: Vec<UserItem> = Vec::new();
    content.push(UserItem::Result { id: call.id.clone(), result });
    let m = Message::User { content };
    proof {
        assert(m.deep_view() is User);
        assert(m.deep_view()->User_0 =~= seq![
            UserItemView::Result {
                id: call.id@,
                result: ToolResultView { name: call.name@, output: ov },
            },
        ]);
    }
    m
}

/// The step an orchestration turn takes after one model response.
pub enum TurnStep {
    Finished(String),
    Invoke(ToolCall),
    Continue,
}

/// The mathematical content of a turn step.
pub enum TurnStepView {
    Finished(Seq<char>),
    Invoke(ToolCallView),
    Continue,
}

impl DeepView for TurnStep {
    type V = TurnStepView;

    open spec fn deep_view(&self) -> TurnStepView {
        match self {
            TurnStep::Finished(t) => TurnStepView::Finished(t@),
            TurnStep::Invoke(c) => TurnStepView::Invoke(c.deep_view()),
            TurnStep::Continue => TurnStepView::Continue,
        }
    }
}

/// No item of the response prefix is a tool call.
pub open spec fn no_call(items: Seq<AssistantItemView>) -> bool {
    forall|i: int| 0 <= i < items.len() ==> !((#[trigger] items[i]) is Call)
}

/// The messages one response scan appends to the history: one assistant
/// message per text item, up to and including the first tool call, which
/// ends the scan.
pub open spec fn scan_messages(items: Seq<AssistantItemView>) -> Seq<MessageView>
    decreases items.len(),
{
    if items.len() == 0 {
        Seq::empty()
    } else {
        match items[0] {
            AssistantItemView::Text(t) => seq![
                MessageView::Assistant(seq![AssistantItemView::Text(t)]),
            ] + scan_messages(items.skip(1)),
            AssistantItemView::Call(c) => seq![
                MessageView::Assistant(seq![AssistantItemView::Call(c)]),
            ],
        }
    }
}

/// The outcome of scanning a response: its first tool call if it has one,
/// else its last text, else nothing to act on.
pub open spec fn scan_outcome(items: Seq<AssistantItemView>) -> TurnStepView
    decreases items.len(),
{
    if items.len() == 0 {
        TurnStepView::Continue
    } else {
        match items[0] {
            AssistantItemView::Call(c) => TurnStepView::Invoke(c),
            AssistantItemView::Text(t) => {
                let rest = scan_outcome(items.skip(1));
                if rest is Continue {
                    TurnStepView::Finished(t)
                } else {
                    rest
                }
            },
        }
    }
}

/// The whole history after one model response is handled: the current
/// input first, then the scan's messages.
pub open spec fn post_history(
    h: Seq<MessageView>,
    current: MessageView,
    items: Seq<AssistantItemView>,
) -> Seq<MessageView> {
    h.push(current) + scan_messages(items)
}

/// Scanning one more text item appends its message and makes that text
/// the candidate answer.
proof fn lemma_scan_push_text(s: Seq<AssistantItemView>, t: Seq<char>)
    requires
        no_call(s),
    ensures
        scan_messages(s.push(AssistantItemView::Text(t))) == scan_messages(s).push(
            MessageView::Assistant(seq![AssistantItemView::Text(t)]),
        ),
        scan_outcome(s.push(AssistantItemView::Text(t))) == TurnStepView::Finished(t),
    decreases s.len(),
{
    let s2 = s.push(AssistantItemView::Text(t));
    let mt = MessageView::Assistant(seq![AssistantItemView::Text(t)]);
    if s.len() == 0 {
        assert(s2 =~= seq![AssistantItemView::Text(t)]);
        assert(s2.skip(1) =~= Seq::<AssistantItemView>::empty());
        assert(scan_messages(s2.skip(1)) == Seq::<MessageView>::empty());
        assert(scan_outcome(s2.skip(1)) == TurnStepView::Continue);
        assert(scan_messages(s2) =~= scan_messages(s).push(mt));
    } else {
        assert(s2[0] == s[0]);
        assert(s2.skip(1) =~= s.skip(1).push(AssistantItemView::Text(t)));
        assert(no_call(s.skip(1))) by {
            assert(forall|i: int|
                0 <= i < s.skip(1).len() ==> s.skip(1)[i] == s[i + 1]);
        }
        lemma_scan_push_text(s.skip(1), t);
        match s[0] {
            AssistantItemView::Text(u) => {
                let m0 = MessageView::Assistant(seq![AssistantItemView::Text(u)]);
                assert(scan_messages(s) == seq![m0] + scan_messages(s.skip(1)));
                assert(scan_messages(s2) == seq![m0] + scan_messages(s2.skip(1)));
                assert(scan_messages(s2.skip(1)) == scan_messages(s.skip(1)).push(mt));
                assert(seq![m0] + scan_messages(s.skip(1)).push(mt) =~= (seq![m0]
                    + scan_messages(s.skip(1))).push(mt));
            },
            AssistantItemView::Call(_) => {},
        }
    }
}

/// Scanning a tool call appends its message and ends the scan with the
/// call as the turn's action.
proof fn lemma_scan_push_call(s: Seq<AssistantItemView>, c: ToolCallView)
    requires
        no_call(s),
    ensures
        scan_messages(s.push(AssistantItemView::Call(c))) == scan_messages(s).push(
            MessageView::Assistant(seq![AssistantItemView::Call(c)]),
        ),
        scan_outcome(s.push(AssistantItemView::Call(c))) == TurnStepView::Invoke(c),
    decreases s.len(),
{
    let s2 = s.push(AssistantItemView::Call(c));
    let mc = MessageView::Assistant(seq![AssistantItemView::Call(c)]);
    if s.len() == 0 {
        assert(s2 =~= seq![AssistantItemView::Call(c)]);
        assert(scan_messages(s2) =~= scan_messages(s).push(mc));
    } else {
        assert(s2[0] == s[0]);
        assert(s2.skip(1) =~= s.skip(1).push(AssistantItemView::Call(c)));
        assert(no_call(s.skip(1))) by {
            assert(forall|i: int|
                0 <= i < s.skip(1).len() ==> s.skip(1)[i] == s[i + 1]);
        }
        lemma_scan_push_call(s.skip(1), c);
        match s[0] {
            AssistantItemView::Text(u) => {
                let m0 = MessageView::Assistant(seq![AssistantItemView::Text(u)]);
                assert(scan_messages(s) == seq![m0] + scan_messages(s.skip(1)));
                assert(scan_messages(s2) == seq![m0] + scan_messages(s2.skip(1)));
                assert(scan_messages(s2.skip(1)) == scan_messages(s.skip(1)).push(mc));
                assert(seq![m0] + scan_messages(s.skip(1)).push(mc) =~= (seq![m0]
                    + scan_messages(s.skip(1))).push(mc));
            },
            AssistantItemView::Call(_) => {},
        }
    }
}

/// Everything after the first tool call of a response is ignored: the
/// scan of the whole response equals the scan cut at that call.
proof fn lemma_scan_stops(s: Seq<AssistantItemView>, i: int)
    requires
        0 <= i < s.len(),
        no_call(s.take(i)),
        s[i] is Call,
    ensures
        scan_messages(s) == scan_messages(s.take(i).push(s[i])),
        scan_outcome(s) == scan_outcome(s.take(i).push(s[i])),
    decreases i,
{
    if i == 0 {
        assert(s.take(0).push(s[0]) =~= seq![s[0]]);
        assert(scan_messages(s) =~= scan_messages(s.take(0).push(s[0])));
    } else {
        assert(s.take(i)[0] == s[0]);
        assert(!(s[0] is Call));
        let r = s.skip(1);
        assert(r.take(i - 1) =~= s.take(i).skip(1));
        assert(no_call(r.take(i - 1))) by {
            assert(forall|k: int|
                0 <= k < i - 1 ==> #[trigger] r.take(i - 1)[k] == s.take(i)[k + 1]);
        }
        assert(r[i - 1] == s[i]);
        lemma_scan_stops(r, i - 1);
        assert(r.take(i - 1).push(r[i - 1]) =~= s.take(i).push(s[i]).skip(1));
        assert(scan_messages(s.take(i).push(s[i]))[0] == MessageView::Assistant(
            seq![s.take(i).push(s[i])[0]],
        )) by {
            assert(s.take(i).push(s[i])[0] == s[0]);
        }
        assert(scan_messages(s) =~= scan_messages(s.take(i).push(s[i])));
    }
}

/// Drives one user query to its final answer across model calls and tool
/// runs, holding the ordered session history.
pub struct MultiTurnAgent {
    pub registry: ToolRegistry,
    pub chat_history: Vec<Message>,
    pub context_k: usize,
}

/// Everything one model call is given: the current input, the full
/// history, every tool descriptor, deterministic sampling (temperature
/// zero) and the retrieval context injected for this turn.
pub struct ModelRequest {
    pub current: Message,
    pub history: Vec<Message>,
    pub tools: Vec<ToolDescriptor>,
    pub temperature: Num,
    pub context: Vec<SearchHit>,
}

impl MultiTurnAgent {
    /// A fresh agent: the given registry, an empty history, and the
    /// number of context matches injected per turn.
    pub fn new(registry: ToolRegistry, context_k: usize) -> (a: MultiTurnAgent)
        ensures
            a.registry == registry,
            a.chat_history@.len() == 0,
            a.context_k == context_k,
    {
        MultiTurnAgent { registry, chat_history: Vec::new(), context_k }
    }

    /// Resets the session history to empty; idempotent. Nothing else of
    /// the agent changes, so the next turn proceeds as on a fresh agent.
    pub fn clear_history(&mut self)
        ensures
            final (self).chat_history@.len() == 0,
            final (self).registry == old(self).registry,
            final (self).context_k == old(self).context_k,
    {
        self.chat_history.clear();
    }

    /// Handles one model response for the turn whose current input is
    /// `current`: appends the input and the scanned messages to the
    /// history, and returns the turn's step — the first tool call to
    /// dispatch, the final text, or nothing to act on.
    #[verifier::loop_isolation(false)]
    pub fn handle_response(&mut self, current: Message, items: Vec<AssistantItem>) -> (step:
        TurnStep)
        ensures
            final (self).registry == old(self).registry,
            final (self).context_k == old(self).context_k,
            final (self).chat_history.deep_view() == post_history(
                old(self).chat_history.deep_view(),
                current.deep_view(),
                items.deep_view(),
            ),
            step.deep_view() == scan_outcome(items.deep_view()),
    {
        let ghost h0 = self.chat_history.deep_view();
        let ghost itemsv = items.deep_view();
        let ghost cv = current.deep_view();
        self.chat_history.push(current);
        proof {
            assert(self.chat_history.deep_view() =~= h0.push(cv));
        }
        let mut candidate: Option<String> = None;
        let mut i: usize = 0;
        let n = items.len();
        while i < n
            invariant
                i <= n,
                n == items@.len(),
                itemsv == items.deep_view(),
                self.registry == old(self).registry,
                self.context_k == old(self).context_k,
                no_call(itemsv.take(i as int)),
                self.chat_history.deep_view() =~= h0.push(cv) + scan_messages(
                    itemsv.take(i as int),
                ),
                match candidate {
                    Some(t) => scan_outcome(itemsv.take(i as int)) == TurnStepView::Finished(t@),
                    None => scan_outcome(itemsv.take(i as int)) is Continue,
                },
            decreases n - i,
        {
            proof {
                assert(itemsv.take(i as int + 1) =~= itemsv.take(i as int).push(itemsv[i as int]));
                assert(itemsv[i as int] == items@[i as int].deep_view());
            }
            let ghost pre = self.chat_history.deep_view();
            match &items[i] {
                AssistantItem::Text(t) => {
                    let ghost msgv = MessageView::Assistant(seq![AssistantItemView::Text(t@)]);
                    proof {
                        lemma_scan_push_text(itemsv.take(i as int), t@);
                    }
                    let mut content: Vec<AssistantItem> = Vec::new();
                    content.push(AssistantItem::Text(t.clone()));
                    let ghost contv = content.deep_view();
                    let msg = Message::Assistant { content };
                    let ghost msgdv = msg.deep_view();
                    self.chat_history.push(msg);
                    proof {
                        assert(contv =~= seq![AssistantItemView::Text(t@)]);
                        assert(msgdv == msgv);
                        assert(self.chat_history.deep_view() =~= pre.push(msgv));
                        assert(pre.push(msgv) =~= h0.push(cv) + scan_messages(
                            itemsv.take(i as int + 1),
                        ));
                    }
                    candidate = Some(t.clone());
                },
                AssistantItem::Call(c) => {
                    let ghost msgv = MessageView::Assistant(
                        seq![AssistantItemView::Call(c.deep_view())],
                    );
                    proof {
                        lemma_scan_push_call(itemsv.take(i as int), c.deep_view());
                        lemma_scan_stops(itemsv, i as int);
                    }
                    let step = TurnStep::Invoke(c.clone());
                    let mut content: Vec<AssistantItem> = Vec::new();
                    content.push(AssistantItem::Call(c.clone()));
                    let ghost contv = content.deep_view();
                    let msg = Message::Assistant { content };
                    let ghost msgdv = msg.deep_view();
                    self.chat_history.push(msg);
                    proof {
                        assert(contv =~= seq![AssistantItemView::Call(c.deep_view())]);
                        assert(msgdv == msgv);
                        assert(self.chat_history.deep_view() =~= pre.push(msgv));
                        assert(pre.push(msgv) =~= h0.push(cv) + scan_messages(itemsv));
                        assert(h0 == old(self).chat_history.deep_view());
                        assert(self.chat_history.deep_view() == post_history(h0, cv, itemsv));
                        assert(step.deep_view() == scan_outcome(itemsv));
                    }
                    return step;
                },
            }
            i += 1;
        }
        proof {
            assert(itemsv.take(n as int) =~= itemsv);
        }
        match candidate {
            Some(t) => TurnStep::Finished(t),
            None => TurnStep::Continue,
        }
    }

    /// The retrieval context injected before every model call of a turn:
    /// the top `context_k` index matches for the embedding of the turn's
    /// original user query text. One index query per model call, whether
    /// or not the model ends up using the context.
    pub fn dynamic_context(&self, query_vector: &Vec<i64>) -> (hits: Vec<SearchHit>)
        requires
            self.registry.lookup.index.wf(),
            self.registry.lookup.index.query_ok(query_vector@),
        ensures
            hits@.len() == if self.context_k <= self.registry.lookup.index.docs@.len() {
                self.context_k as int
            } else {
                self.registry.lookup.index.docs@.len() as int
            },
            forall|k: int|
                0 <= k < hits@.len() ==> hit_ok(
                    self.registry.lookup.index,
                    query_vector@,
                    #[trigger] hits@[k],
                ),
            forall|k1: int, k2: int|
                0 <= k1 < k2 < hits@.len() ==> self.registry.lookup.index.ranks_before(
                    query_vector@,
                    hits@[k1].doc_index as int,
                    hits@[k2].doc_index as int,
                ),
            forall|k: int, j: int|
                0 <= k < hits@.len() && 0 <= j < self.registry.lookup.index.docs@.len()
                    && !appears(hits@, j) ==> self.registry.lookup.index.ranks_before(
                    query_vector@,
                    hits@[k].doc_index as int,
                    j,
                ),
    {
        self.registry.lookup.index.top_n(query_vector, self.context_k)
    }
}

impl ModelRequest {
    /// Assembles everything one model call receives. Sampling is pinned
    /// deterministic: the temperature is exactly zero.
    pub fn new(
        current: Message,
        history: Vec<Message>,
        tools: Vec<ToolDescriptor>,
        context: Vec<SearchHit>,
    ) -> (r: ModelRequest)
        ensures
            r.current == current,
            r.history == history,
            r.tools == tools,
            r.context == context,
            r.temperature@ == 0,
    {
        ModelRequest { current, history, tools, temperature: Num { hundredths: 0 }, context }
    }
}

/// Law: a turn whose model response is a single text item finishes with
/// exactly that text, and grows the history by exactly two messages: the
/// user input and one assistant message carrying the text.
pub proof fn lemma_pure_text_turn(h: Seq<MessageView>, current: MessageView, t: Seq<char>)
    ensures
        scan_outcome(seq![AssistantItemView::Text(t)]) == TurnStepView::Finished(t),
        post_history(h, current, seq![AssistantItemView::Text(t)]) =~= h.push(current).push(
            MessageView::Assistant(seq![AssistantItemView::Text(t)]),
        ),
        post_history(h, current, seq![AssistantItemView::Text(t)]).len() == h.len() + 2,
{
    lemma_scan_push_text(Seq::empty(), t);
    assert(Seq::empty().push(AssistantItemView::Text(t)) =~= seq![AssistantItemView::Text(t)]);
    assert(scan_messages(Seq::<AssistantItemView>::empty()) == Seq::<MessageView>::empty());
    assert(post_history(h, current, seq![AssistantItemView::Text(t)]) =~= h.push(current).push(
        MessageView::Assistant(seq![AssistantItemView::Text(t)]),
    ));
}

/// Law: a two-round tool turn — a response holding exactly one tool call,
/// then a response holding exactly one text — takes the step `Invoke` and
/// then `Finished` with that text, and grows the history by exactly four
/// messages: the prompt, the assistant tool call, the fed-back result
/// message, and the assistant final text.
pub proof fn lemma_tool_round_trip(
    h: Seq<MessageView>,
    prompt: MessageView,
    c: ToolCallView,
    result_msg: MessageView,
    t: Seq<char>,
)
    ensures
        scan_outcome(seq![AssistantItemView::Call(c)]) == TurnStepView::Invoke(c),
        scan_outcome(seq![AssistantItemView::Text(t)]) == TurnStepView::Finished(t),
        post_history(
            post_history(h, prompt, seq![AssistantItemView::Call(c)]),
            result_msg,
            seq![AssistantItemView::Text(t)],
        ) =~= h.push(prompt).push(MessageView::Assistant(seq![AssistantItemView::Call(c)])).push(
            result_msg,
        ).push(MessageView::Assistant(seq![AssistantItemView::Text(t)])),
        post_history(
            post_history(h, prompt, seq![AssistantItemView::Call(c)]),
            result_msg,
            seq![AssistantItemView::Text(t)],
        ).len() == h.len() + 4,
{
    lemma_scan_push_call(Seq::empty(), c);
    assert(Seq::empty().push(AssistantItemView::Call(c)) =~= seq![AssistantItemView::Call(c)]);
    lemma_scan_push_text(Seq::empty(), t);
    assert(Seq::empty().push(AssistantItemView::Text(t)) =~= seq![AssistantItemView::Text(t)]);
    assert(scan_messages(Seq::<AssistantItemView>::empty()) == Seq::<MessageView>::empty());
    assert(post_history(
        post_history(h, prompt, seq![AssistantItemView::Call(c)]),
        result_msg,
        seq![AssistantItemView::Text(t)],
    ) =~= h.push(prompt).push(MessageView::Assistant(seq![AssistantItemView::Call(c)])).push(
        result_msg,
    ).push(MessageView::Assistant(seq![AssistantItemView::Text(t)])));
}

/// Law: once the history is cleared, nothing of earlier queries leaks
/// into the next turn. The turn's step is a function of the response
/// alone, and the messages a turn appends are the same after any two
/// histories — in particular after a cleared history they are exactly
/// those of a fresh agent.
pub proof fn lemma_history_noninterference(
    h1: Seq<MessageView>,
    h2: Seq<MessageView>,
    current: MessageView,
    items: Seq<AssistantItemView>,
)
    ensures
        post_history(h1, current, items).skip(h1.len() as int) =~= post_history(
            h2,
            current,
            items,
        ).skip(h2.len() as int),
{
    assert(post_history(h1, current, items).skip(h1.len() as int) =~= seq![current]
        + scan_messages(items));
    assert(post_history(h2, current, items).skip(h2.len() as int) =~= seq![current]
        + scan_messages(items));
}

} // verus!
