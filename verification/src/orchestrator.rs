//! The per-request state machine and the drain of the result bus.
//!
//! One `Orchestrator` value is the decision core of the interactive loop:
//! it owns the transcript, the latest snapshot and suggestions, the busy
//! flag, and the debounce counter.  The surrounding application performs the
//! outside work (the generation call, the storage access, the timers) and
//! feeds every completed result back through `apply_operation`.

use vstd::prelude::*;
use crate::bus::AsyncResultBus;
use crate::models::Analytics;
use crate::models::ChatMessage;
use crate::models::ConversationEntry;
use crate::models::PendingOperation;
use crate::store::spec_rag_context;
use crate::store::assemble_rag_context;
use crate::textutil::is_blank;
use crate::textutil::spec_blank;
use crate::time::Timestamp;
use crate::time::spec_display;

verus! {

/// The last observed input and how often it has changed.  Owned by the
/// orchestrator, initialized once, mutated on every input change, never
/// reset.
pub struct DebounceState {
    pub counter: u32,
    pub last_input: Option<String>,
}

/// The counter after one more observed change; it wraps rather than stop.
pub open spec fn spec_bump(c: int) -> int {
    if c == u32::MAX {
        0
    } else {
        c + 1
    }
}

/// Whether the remembered input is exactly this text.
pub open spec fn matches_last(last: Option<String>, input: Seq<char>) -> bool {
    match last {
        Some(p) => p@ == input,
        None => false,
    }
}

/// The debounce transition: what one observed input does to the state and
/// whether it fires a refresh.  Unchanged input does nothing; a changed
/// input bumps the counter, and the refresh fires exactly when the new
/// count is a multiple of five.
pub open spec fn observe_rel(
    pre: DebounceState,
    input: String,
    post: DebounceState,
    fired: bool,
) -> bool {
    if matches_last(pre.last_input, input@) {
        post == pre && fired == false
    } else {
        &&& post.counter == spec_bump(pre.counter as int)
        &&& post.last_input == Some(input)
        &&& fired == (post.counter % 5 == 0)
    }
}

impl DebounceState {
    /// The fresh state: nothing seen, counter at zero.
    pub fn new() -> (r: DebounceState)
        ensures
            r.counter == 0,
            r.last_input is None,
    {
        DebounceState { counter: 0, last_input: None }
    }

    /// Notes the current input; `observe_rel` is the exact transition.
    pub fn observe(&mut self, input: &String) -> (refresh: bool)
        ensures
            observe_rel(*old(self), *input, *final(self), refresh),
    {
        let same = match &self.last_input {
            Some(p) => p.eq(input),
            None => false,
        };
        if same {
            return false;
        }
        self.last_input = Some(input.clone());
        self.counter = if self.counter == u32::MAX {
            0
        } else {
            self.counter + 1
        };
        self.counter % 5 == 0
    }
}

/// One step of `lemma_debounce_cadence`: after `k` observed changes from
/// the fresh state, the counter stands at `k`.
proof fn lemma_debounce_counters(
    states: Seq<DebounceState>,
    inputs: Seq<String>,
    fires: Seq<bool>,
    k: int,
)
    requires
        states.len() == inputs.len() + 1,
        fires.len() == inputs.len(),
        states[0].counter == 0,
        inputs.len() <= u32::MAX,
        forall|i: int|
            0 <= i < inputs.len() ==> #[trigger] observe_rel(
                states[i],
                inputs[i],
                states[i + 1],
                fires[i],
            ),
        forall|i: int|
            0 <= i < inputs.len() ==> !matches_last((#[trigger] states[i]).last_input, inputs[i]@),
        0 <= k <= inputs.len(),
    ensures
        states[k].counter == k,
    decreases k,
{
    if k > 0 {
        lemma_debounce_counters(states, inputs, fires, k - 1);
        assert(observe_rel(states[k - 1], inputs[k - 1], states[k], fires[k - 1]));
    }
}

/// The debouncing cadence, whole: over any run from the fresh state in
/// which every observed input differs from the last remembered one, the
/// counter counts the inputs, and exactly every fifth input fires a
/// refresh — the first four never do, the fifth always does, and so on.
pub proof fn lemma_debounce_cadence(states: Seq<DebounceState>, inputs: Seq<String>, fires: Seq<
    bool,
>)
    requires
        states.len() == inputs.len() + 1,
        fires.len() == inputs.len(),
        states[0].counter == 0,
        inputs.len() <= u32::MAX,
        forall|i: int|
            0 <= i < inputs.len() ==> #[trigger] observe_rel(
                states[i],
                inputs[i],
                states[i + 1],
                fires[i],
            ),
        forall|i: int|
            0 <= i < inputs.len() ==> !matches_last((#[trigger] states[i]).last_input, inputs[i]@),
    ensures
        states[states.len() - 1].counter == inputs.len(),
        forall|i: int| 0 <= i < inputs.len() ==> (fires[i] <==> (i + 1) % 5 == 0),
{
    lemma_debounce_counters(states, inputs, fires, inputs.len() as int);
    assert forall|i: int| 0 <= i < inputs.len() implies (fires[i] <==> (i + 1) % 5 == 0) by {
        lemma_debounce_counters(states, inputs, fires, i);
        lemma_debounce_counters(states, inputs, fires, i + 1);
        assert(observe_rel(states[i], inputs[i], states[i + 1], fires[i]));
    }
}

/// The decision core of the interactive loop.
pub struct Orchestrator {
    pub input_text: String,
    pub chat_messages: Vec<ChatMessage>,
    pub is_loading: bool,
    pub file_content: String,
    pub file_name: Option<String>,
    pub model_name: String,
    pub enable_rag: bool,
    pub analytics: Analytics,
    pub rag_suggestions: Vec<ConversationEntry>,
    pub debounce: DebounceState,
}

/// The prompt before retrieval context: the input alone, or the loaded file
/// prefixed to it.
pub open spec fn spec_base_prompt(s: Orchestrator) -> Seq<char> {
    if s.file_content@.len() > 0 {
        "File context:\n"@ + s.file_content@ + "\n\nUser message: "@ + s.input_text@
    } else {
        s.input_text@
    }
}

/// The prompt actually sent: the base prompt, wrapped in retrieved context
/// when retrieval is on and suggestions are at hand.
pub open spec fn spec_final_prompt(s: Orchestrator) -> Seq<char> {
    if s.enable_rag && s.rag_suggestions@.len() > 0 {
        spec_rag_context(s.rag_suggestions@, spec_base_prompt(s))
    } else {
        spec_base_prompt(s)
    }
}

/// The suggestion panel wants a refresh at all: retrieval is on and the
/// input is a real query of more than ten characters.
pub open spec fn spec_wants_suggestions(s: Orchestrator) -> bool {
    s.enable_rag && !spec_blank(s.input_text@) && s.input_text@.len() > 10
}

/// The transcript line pushed for a background error.
pub open spec fn spec_error_message(m: ChatMessage, e: Seq<char>, now: Timestamp) -> bool {
    &&& m.content@ == "Error: "@ + e
    &&& m.is_user == false
    &&& m.timestamp == now
    &&& m.model_used matches Some(n) && n@ == "Error"@
    &&& m.response_time is None
}

/// How one completed result moves the state: the exact relation between the
/// state before and after consuming `op`.  A response or an error joins the
/// transcript; a snapshot or a suggestion set replaces the old one
/// wholesale; the terminal marker clears the busy flag, and an error clears
/// it too so a failed request never leaves the loop hanging.
pub open spec fn apply_rel(
    pre: Orchestrator,
    op: PendingOperation,
    now: Timestamp,
    rt: Option<i64>,
    post: Orchestrator,
) -> bool {
    match op {
        PendingOperation::Response(content) => {
            &&& post.chat_messages@ == pre.chat_messages@.push(
                ChatMessage {
                    content,
                    is_user: false,
                    timestamp: now,
                    model_used: Some(pre.model_name),
                    response_time: rt,
                },
            )
            &&& post == (Orchestrator { chat_messages: post.chat_messages, ..pre })
        },
        PendingOperation::Analytics(a) => post == (Orchestrator { analytics: a, ..pre }),
        PendingOperation::RagSuggestions(v) => post == (Orchestrator {
            rag_suggestions: v,
            ..pre
        }),
        PendingOperation::LoadingComplete => post == (Orchestrator { is_loading: false, ..pre }),
        PendingOperation::Error(e) => {
            &&& post.chat_messages@.len() == pre.chat_messages@.len() + 1
            &&& post.chat_messages@.drop_last() == pre.chat_messages@
            &&& spec_error_message(post.chat_messages@.last(), e@, now)
            &&& post == (Orchestrator {
                chat_messages: post.chat_messages,
                is_loading: false,
                ..pre
            })
        },
    }
}

/// The state after consuming a whole batch of results, one after the other,
/// in order.
pub open spec fn apply_chain(
    pre: Orchestrator,
    ops: Seq<PendingOperation>,
    now: Timestamp,
    rt: Option<i64>,
    post: Orchestrator,
) -> bool
    decreases ops.len(),
{
    if ops.len() == 0 {
        post == pre
    } else {
        exists|mid: Orchestrator|
            #[trigger] apply_rel(pre, ops[0], now, rt, mid) && apply_chain(
                mid,
                ops.skip(1),
                now,
                rt,
                post,
            )
    }
}

/// Consuming one more result extends the chain at its end.
proof fn lemma_apply_chain_snoc(
    pre: Orchestrator,
    ops: Seq<PendingOperation>,
    now: Timestamp,
    rt: Option<i64>,
    mid: Orchestrator,
    x: PendingOperation,
    post: Orchestrator,
)
    requires
        apply_chain(pre, ops, now, rt, mid),
        apply_rel(mid, x, now, rt, post),
    ensures
        apply_chain(pre, ops.push(x), now, rt, post),
    decreases ops.len(),
{
    if ops.len() == 0 {
        assert(mid == pre);
        assert(ops.push(x)[0] == x);
        assert(ops.push(x).skip(1) =~= Seq::<PendingOperation>::empty());
        assert(apply_rel(pre, ops.push(x)[0], now, rt, post));
        assert(apply_chain(post, ops.push(x).skip(1), now, rt, post));
    } else {
        let step = choose|m: Orchestrator|
            #[trigger] apply_rel(pre, ops[0], now, rt, m) && apply_chain(
                m,
                ops.skip(1),
                now,
                rt,
                mid,
            );
        lemma_apply_chain_snoc(step, ops.skip(1), now, rt, mid, x, post);
        assert(ops.push(x)[0] == ops[0]);
        assert(ops.push(x).skip(1) =~= ops.skip(1).push(x));
        assert(apply_rel(pre, ops.push(x)[0], now, rt, step));
        assert(apply_chain(step, ops.push(x).skip(1), now, rt, post));
    }
}

impl Orchestrator {
    /// The idle startup state: empty transcript, empty input, retrieval on,
    /// nothing in flight.
    pub fn new(model_name: String) -> (r: Orchestrator)
        ensures
            r.input_text@ == Seq::<char>::empty(),
            r.chat_messages@ == Seq::<ChatMessage>::empty(),
            r.is_loading == false,
            r.file_content@ == Seq::<char>::empty(),
            r.file_name is None,
            r.model_name == model_name,
            r.enable_rag == true,
            r.analytics.total_requests == 0,
            r.analytics.most_used_model@ == Seq::<char>::empty(),
            r.rag_suggestions@ == Seq::<ConversationEntry>::empty(),
            r.debounce.counter == 0,
            r.debounce.last_input is None,
    {
        Orchestrator {
            input_text: String::new(),
            chat_messages: Vec::new(),
            is_loading: false,
            file_content: String::new(),
            file_name: None,
            model_name,
            enable_rag: true,
            analytics: Analytics::empty(),
            rag_suggestions: Vec::new(),
            debounce: DebounceState::new(),
        }
    }

    /// Whether the suggestion panel wants a refresh for the current input.
    pub fn wants_suggestions(&self) -> (r: bool)
        ensures
            r == spec_wants_suggestions(*self),
    {
        self.enable_rag && !is_blank(self.input_text.as_str()) && self.input_text.as_str().unicode_len() > 10
    }

    /// Builds the prompt one send would carry, without changing anything.
    pub fn build_final_prompt(&self) -> (r: String)
        ensures
            r@ == spec_final_prompt(*self),
    {
        let base = if self.file_content.as_str().unicode_len() > 0 {
            let mut b = String::from_str("File context:\n");
            b.append(self.file_content.as_str());
            b.append("\n\nUser message: ");
            b.append(self.input_text.as_str());
            b
        } else {
            self.input_text.clone()
        };
        if self.enable_rag && self.rag_suggestions.len() > 0 {
            assemble_rag_context(self.rag_suggestions.as_slice(), base.as_str())
        } else {
            base
        }
    }

    /// Begins one chat request.  Nothing happens while a request is in
    /// flight or while the input is blank; otherwise the input joins the
    /// transcript as the user's message, the busy flag goes up, the input
    /// clears, and the assembled prompt comes back for the caller to send.
    pub fn prepare_send(&mut self, now: Timestamp) -> (r: Option<String>)
        ensures
            (old(self).is_loading || spec_blank(old(self).input_text@)) ==> r is None && *final(self) == *old(self),
            !(old(self).is_loading || spec_blank(old(self).input_text@)) ==> (r matches Some(p)
                && p@ == spec_final_prompt(*old(self)) && final(self).chat_messages@ == old(self).chat_messages@.push(
                ChatMessage {
                    content: old(self).input_text,
                    is_user: true,
                    timestamp: now,
                    model_used: None,
                    response_time: None,
                },
            ) && final(self).input_text@ == Seq::<char>::empty() && final(self).is_loading
                == true && *final(self) == (Orchestrator {
                chat_messages: final(self).chat_messages,
                is_loading: true,
                input_text: final(self).input_text,
                ..*old(self)
            })),
    {
        if self.is_loading {
            return None;
        }
        if is_blank(self.input_text.as_str()) {
            return None;
        }
        let prompt = self.build_final_prompt();
        let user = ChatMessage {
            content: self.input_text.clone(),
            is_user: true,
            timestamp: now,
            model_used: None,
            response_time: None,
        };
        self.chat_messages.push(user);
        self.is_loading = true;
        self.input_text = String::new();
        Some(prompt)
    }

    /// Consumes one completed background result.
    pub fn apply_operation(
        &mut self,
        op: PendingOperation,
        now: Timestamp,
        response_time: Option<i64>,
    )
        ensures
            apply_rel(*old(self), op, now, response_time, *final(self)),
    {
        match op {
            PendingOperation::Response(content) => {
                let message = ChatMessage {
                    content,
                    is_user: false,
                    timestamp: now,
                    model_used: Some(self.model_name.clone()),
                    response_time,
                };
                self.chat_messages.push(message);
            },
            PendingOperation::Analytics(a) => {
                self.analytics = a;
            },
            PendingOperation::RagSuggestions(v) => {
                self.rag_suggestions = v;
            },
            PendingOperation::LoadingComplete => {
                self.is_loading = false;
            },
            PendingOperation::Error(e) => {
                let mut content = String::from_str("Error: ");
                content.append(e.as_str());
                let message = ChatMessage {
                    content,
                    is_user: false,
                    timestamp: now,
                    model_used: Some(String::from_str("Error")),
                    response_time: None,
                };
                self.chat_messages.push(message);
                self.is_loading = false;
                proof {
                    assert(self.chat_messages@.drop_last() =~= old(self).chat_messages@);
                }
            },
        }
    }

    /// Drains the bus and consumes every queued result in append order.
    pub fn drain_and_apply(
        &mut self,
        bus: &mut AsyncResultBus,
        now: Timestamp,
        response_time: Option<i64>,
    )
        ensures
            apply_chain(*old(self), old(bus)@, now, response_time, *final(self)),
            final(bus)@ == Seq::<PendingOperation>::empty(),
    {
        let ghost items = bus@;
        let ghost pre = *self;
        let mut ops = bus.drain();
        while ops.len() > 0
            invariant
                ops@ == items.skip(items.len() - ops@.len()),
                ops@.len() <= items.len(),
                apply_chain(pre, items.take(items.len() - ops@.len()), now, response_time, *self),
            decreases ops.len(),
        {
            let ghost done = items.len() - ops@.len();
            let ghost before = *self;
            let op = ops.remove(0);
            proof {
                assert(op == items[done]);
                assert(ops@ =~= items.skip(done + 1));
            }
            self.apply_operation(op, now, response_time);
            proof {
                lemma_apply_chain_snoc(
                    pre,
                    items.take(done),
                    now,
                    response_time,
                    before,
                    op,
                    *self,
                );
                assert(items.take(done).push(items[done]) =~= items.take(done + 1));
            }
        }
        proof {
            assert(items.take(items.len() as int) =~= items);
        }
    }

    /// Notes an input edit and decides whether to refresh the suggestions:
    /// only every fifth distinct input triggers, and only when the panel
    /// wants suggestions at all.
    pub fn debounced_rag_update(&mut self) -> (refresh: bool)
        ensures
            *final(self) == (Orchestrator { debounce: final(self).debounce, ..*old(self) }),
            matches_last(old(self).debounce.last_input, old(self).input_text@) ==> final(self).debounce == old(self).debounce && refresh == false,
            !matches_last(old(self).debounce.last_input, old(self).input_text@) ==> final(self).debounce.counter == spec_bump(old(self).debounce.counter as int) && final(self).debounce.last_input == Some(old(self).input_text) && refresh == (final(self).debounce.counter % 5 == 0 && spec_wants_suggestions(*old(self))),
    {
        let trigger = self.debounce.observe(&self.input_text);
        let gate = self.wants_suggestions();
        trigger && gate
    }

    /// Empties the transcript.
    pub fn clear_chat(&mut self)
        ensures
            final(self).chat_messages@ == Seq::<ChatMessage>::empty(),
            *final(self) == (Orchestrator {
                chat_messages: final(self).chat_messages,
                ..*old(self)
            }),
    {
        self.chat_messages.clear();
    }
}

/// One exported transcript line: timestamp, speaker, content.
pub open spec fn spec_message_line(m: ChatMessage) -> Seq<char> {
    "["@ + spec_display(m.timestamp) + "] "@ + (if m.is_user {
        "User"@
    } else {
        "Assistant"@
    }) + ": "@ + m.content@ + "\n"@
}

/// The whole transcript export, line by line in order.
pub open spec fn spec_transcript(ms: Seq<ChatMessage>) -> Seq<char>
    decreases ms.len(),
{
    if ms.len() == 0 {
        Seq::empty()
    } else {
        spec_transcript(ms.drop_last()) + spec_message_line(ms.last())
    }
}

/// Renders one transcript line.
fn message_line(m: &ChatMessage) -> (r: String)
    requires
        m.timestamp.wf(),
    ensures
        r@ == spec_message_line(*m),
{
    let mut out = String::from_str("[");
    let stamp = m.timestamp.format_display();
    out.append(stamp.as_str());
    out.append("] ");
    if m.is_user {
        out.append("User");
    } else {
        out.append("Assistant");
    }
    out.append(": ");
    out.append(m.content.as_str());
    out.append("\n");
    out
}

impl Orchestrator {
    /// Renders the whole transcript for export; writing it anywhere is the
    /// caller's business.
    pub fn export_transcript(&self) -> (r: String)
        requires
            forall|i: int|
                0 <= i < self.chat_messages@.len() ==> (
                #[trigger] self.chat_messages@[i]).timestamp.wf(),
        ensures
            r@ == spec_transcript(self.chat_messages@),
    {
        let mut out = String::new();
        let mut i: usize = 0;
        while i < self.chat_messages.len()
            invariant
                forall|k: int|
                    0 <= k < self.chat_messages@.len() ==> (
                    #[trigger] self.chat_messages@[k]).timestamp.wf(),
                i <= self.chat_messages@.len(),
                out@ == spec_transcript(self.chat_messages@.take(i as int)),
            decreases self.chat_messages@.len() - i,
        {
            proof {
                assert(self.chat_messages@.take(i + 1).drop_last() =~= self.chat_messages@.take(
                    i as int,
                ));
                assert(self.chat_messages@.take(i + 1).last() == self.chat_messages@[i as int]);
            }
            let line = message_line(&self.chat_messages[i]);
            out.append(line.as_str());
            i += 1;
        }
        proof {
            assert(self.chat_messages@.take(self.chat_messages@.len() as int)
                =~= self.chat_messages@);
        }
        out
    }
}

} // verus!
