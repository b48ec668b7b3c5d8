//! A conversation with a language model.

use vstd::prelude::*;

use crate::icon::IconName;
use crate::launcher::RootItem;
use crate::text::same;

verus! {

/// Something that was said.
#[derive(Debug)]
pub struct ChatMessage {
    pub role: String,
    pub content: String,
}

/// A [`ChatMessage`] as a value.
pub struct ChatView {
    pub role: Seq<char>,
    pub content: Seq<char>,
}

impl View for ChatMessage {
    type V = ChatView;

    open spec fn view(&self) -> ChatView {
        ChatView { role: self.role@, content: self.content@ }
    }
}

impl ChatMessage {
    /// Whose words they are.
    pub fn speaker(&self) -> (r: String)
        ensures
            r@ == (if self.role@ == "user"@ {
                "You"@
            } else {
                "Assistant"@
            }),
    {
        if same(&self.role, "user") {
            "You".to_owned()
        } else {
            "Assistant".to_owned()
        }
    }
}

/// Something to do for the conversation.
#[derive(Debug)]
pub enum ChatEffect {
    /// Empty the input field.
    ClearInput,
    /// Keep what was said.
    Save { conversation_id: i64, role: String, content: String },
    /// Send what was typed off.
    Send { prompt: String },
    ScrollToBottom,
}

/// A [`ChatEffect`] as a value.
pub enum ChatEffectView {
    ClearInput,
    Save { conversation_id: i64, role: Seq<char>, content: Seq<char> },
    Send { prompt: Seq<char> },
    ScrollToBottom,
}

impl View for ChatEffect {
    type V = ChatEffectView;

    open spec fn view(&self) -> ChatEffectView {
        match self {
            ChatEffect::ClearInput => ChatEffectView::ClearInput,
            ChatEffect::Save { conversation_id, role, content } => ChatEffectView::Save {
                conversation_id: *conversation_id,
                role: role@,
                content: content@,
            },
            ChatEffect::Send { prompt } => ChatEffectView::Send { prompt: prompt@ },
            ChatEffect::ScrollToBottom => ChatEffectView::ScrollToBottom,
        }
    }
}

/// Effects as values.
pub open spec fn effect_views(effects: Seq<ChatEffect>) -> Seq<ChatEffectView> {
    effects.map_values(|e: ChatEffect| e@)
}

/// A conversation as a value.
#[verifier::ext_equal]
pub struct PanelView {
    pub conversation_id: i64,
    pub messages: Seq<ChatView>,
    /// What has come of the answer so far.
    pub streaming: Seq<char>,
    /// Whether the end of the conversation is kept in sight.
    pub autoscroll: bool,
}

/// A conversation and what is to be done.
#[verifier::ext_equal]
pub struct Step {
    pub panel: PanelView,
    pub effects: Seq<ChatEffectView>,
}

impl PanelView {
    /// Something is said, and the model is asked. Nothing is said by saying nothing.
    pub open spec fn prompted(self, prompt: Seq<char>) -> Step {
        if prompt.len() == 0 {
            Step { panel: self, effects: Seq::empty() }
        } else {
            Step {
                panel: PanelView {
                    messages: self.messages.push(ChatView { role: "user"@, content: prompt }),
                    streaming: Seq::empty(),
                    autoscroll: true,
                    ..self
                },
                effects: seq![
                    ChatEffectView::ClearInput,
                    ChatEffectView::Save {
                        conversation_id: self.conversation_id,
                        role: "user"@,
                        content: prompt,
                    },
                    ChatEffectView::ScrollToBottom,
                    ChatEffectView::Send { prompt },
                ],
            }
        }
    }

    /// A part of the answer has come.
    pub open spec fn received(self, chunk: Seq<char>) -> Step {
        Step {
            panel: PanelView { streaming: self.streaming + chunk, ..self },
            effects: if self.autoscroll {
                seq![ChatEffectView::ScrollToBottom]
            } else {
                Seq::empty()
            },
        }
    }

    /// The answer is complete, or has broken off.
    pub open spec fn finished(self) -> Step {
        if self.streaming.len() == 0 {
            Step { panel: self, effects: Seq::empty() }
        } else {
            Step {
                panel: PanelView {
                    messages: self.messages.push(
                        ChatView { role: "assistant"@, content: self.streaming },
                    ),
                    streaming: Seq::empty(),
                    ..self
                },
                effects: seq![
                    ChatEffectView::Save {
                        conversation_id: self.conversation_id,
                        role: "assistant"@,
                        content: self.streaming,
                    },
                ],
            }
        }
    }
}

/// A conversation.
#[derive(Debug)]
pub struct LlmPanel {
    conversation_id: i64,
    messages: Vec<ChatMessage>,
    streaming_text: String,
    autoscroll: bool,
}

impl View for LlmPanel {
    type V = PanelView;

    closed spec fn view(&self) -> PanelView {
        PanelView {
            conversation_id: self.conversation_id,
            messages: self.messages@.map_values(|m: ChatMessage| m@),
            streaming: self.streaming_text@,
            autoscroll: self.autoscroll,
        }
    }
}

impl LlmPanel {
    /// A conversation that begins so many seconds after the epoch.
    pub fn new(conversation_id: i64) -> (r: Self)
        ensures
            r@ == (PanelView {
                conversation_id,
                messages: Seq::empty(),
                streaming: Seq::empty(),
                autoscroll: true,
            }),
    {
        let panel = LlmPanel {
            conversation_id,
            messages: Vec::new(),
            streaming_text: String::new(),
            autoscroll: true,
        };
        assert(panel@.messages =~= Seq::<ChatView>::empty());
        assert(panel@.streaming =~= Seq::<char>::empty());
        panel
    }

    pub fn messages(&self) -> (r: &Vec<ChatMessage>)
        ensures
            r@.map_values(|m: ChatMessage| m@) == self@.messages,
    {
        &self.messages
    }

    pub fn streaming_text(&self) -> (r: &String)
        ensures
            r@ == self@.streaming,
    {
        &self.streaming_text
    }

    fn say(&mut self, role: &str, content: &str)
        ensures
            final(self)@ == (PanelView {
                messages: old(self)@.messages.push(ChatView { role: role@, content: content@ }),
                ..old(self)@
            }),
    {
        let message = ChatMessage { role: role.to_owned(), content: content.to_owned() };
        self.messages.push(message);
        assert(self@.messages =~= old(self)@.messages.push(message@));
    }

    /// Enter was pressed in the input field. Only without its secondary key does that
    /// say something.
    pub fn on_input_event(&mut self, secondary: bool, prompt: &str) -> (r: Vec<ChatEffect>)
        ensures
            (Step { panel: final(self)@, effects: effect_views(r@) }) == (if secondary {
                Step { panel: old(self)@, effects: Seq::empty() }
            } else {
                old(self)@.prompted(prompt@)
            }),
    {
        let mut out: Vec<ChatEffect> = Vec::new();
        if secondary || prompt.is_empty() {
            assert(effect_views(out@) =~= Seq::<ChatEffectView>::empty());
            return out;
        }
        self.say("user", prompt);
        self.streaming_text = String::new();
        self.autoscroll = true;
        assert(self@.streaming =~= Seq::<char>::empty());
        out.push(ChatEffect::ClearInput);
        out.push(
            ChatEffect::Save {
                conversation_id: self.conversation_id,
                role: "user".to_owned(),
                content: prompt.to_owned(),
            },
        );
        out.push(ChatEffect::ScrollToBottom);
        out.push(ChatEffect::Send { prompt: prompt.to_owned() });
        assert(effect_views(out@) =~= old(self)@.prompted(prompt@).effects);
        out
    }

    /// A part of the answer has come.
    pub fn receive(&mut self, chunk: &str) -> (r: Vec<ChatEffect>)
        ensures
            (Step { panel: final(self)@, effects: effect_views(r@) }) == old(self)@.received(
                chunk@,
            ),
    {
        let mut out: Vec<ChatEffect> = Vec::new();
        self.streaming_text.append(chunk);
        if self.autoscroll {
            out.push(ChatEffect::ScrollToBottom);
        }
        assert(effect_views(out@) =~= old(self)@.received(chunk@).effects);
        out
    }

    /// No more of the answer will come.
    pub fn finish(&mut self) -> (r: Vec<ChatEffect>)
        ensures
            (Step { panel: final(self)@, effects: effect_views(r@) }) == old(self)@.finished(),
    {
        let mut out: Vec<ChatEffect> = Vec::new();
        if self.streaming_text.as_str().is_empty() {
            assert(effect_views(out@) =~= Seq::<ChatEffectView>::empty());
            return out;
        }
        let content = self.streaming_text.clone();
        self.say("assistant", &content);
        self.streaming_text = String::new();
        assert(self@.streaming =~= Seq::<char>::empty());
        out.push(
            ChatEffect::Save {
                conversation_id: self.conversation_id,
                role: "assistant".to_owned(),
                content,
            },
        );
        assert(effect_views(out@) =~= old(self)@.finished().effects);
        out
    }

    /// The conversation was scrolled: its end is kept in sight only if it was there.
    pub fn scrolled(&mut self, near_bottom: bool)
        ensures
            final(self)@ == (PanelView { autoscroll: near_bottom, ..old(self)@ }),
    {
        self.autoscroll = near_bottom;
    }
}

/// A conversation after a prompt, the first `n` parts of the answer, and nothing
/// else.
pub open spec fn streamed(panel: PanelView, chunks: Seq<Seq<char>>, n: int) -> PanelView
    decreases n,
{
    if n <= 0 {
        panel
    } else {
        streamed(panel, chunks, n - 1).received(chunks[n - 1]).panel
    }
}

/// An answer is kept whole: what is said in the end is all of its parts, in order.
pub proof fn law_answers_are_kept_whole(panel: PanelView, chunks: Seq<Seq<char>>, n: int)
    requires
        0 <= n <= chunks.len(),
        panel.streaming.len() == 0,
    ensures
        streamed(panel, chunks, n).streaming == crate::input::joined(chunks.take(n)),
        streamed(panel, chunks, n).messages == panel.messages,
        crate::input::joined(chunks.take(n)).len() > 0 ==> streamed(
            panel,
            chunks,
            n,
        ).finished().panel.messages == panel.messages.push(
            ChatView {
                role: "assistant"@,
                content: crate::input::joined(chunks.take(n)),
            },
        ),
    decreases n,
{
    if n > 0 {
        law_answers_are_kept_whole(panel, chunks, n - 1);
        assert(chunks.take(n).drop_last() =~= chunks.take(n - 1));
    } else {
        assert(panel.streaming =~= crate::input::joined(chunks.take(0)));
    }
}

/// What the launcher offers for conversations.
pub fn get_items() -> (r: Vec<RootItem>)
    ensures
        r@.len() == 1,
        r@[0] matches RootItem::Panel { id, icon, name, description, terms } && id@ == "llm"@
            && icon == IconName::MessageChatbot && name@ == "LLM Chat"@ && crate::text::opt_view(
            description,
        ) == Some("Talk to an LLM"@) && crate::text::views(terms@) == seq!["llm"@, "chat"@, "ai"@],
{
    let mut terms: Vec<String> = Vec::new();
    terms.push("llm".to_owned());
    terms.push("chat".to_owned());
    terms.push("ai".to_owned());
    assert(crate::text::views(terms@) =~= seq!["llm"@, "chat"@, "ai"@]);
    let mut out: Vec<RootItem> = Vec::new();
    out.push(
        RootItem::Panel {
            id: "llm".to_owned(),
            icon: IconName::MessageChatbot,
            name: "LLM Chat".to_owned(),
            description: Some("Talk to an LLM".to_owned()),
            terms,
        },
    );
    out
}

/// A prompt is said by the user, kept and sent word for word, and starts the answer from
/// nothing; an empty prompt does nothing at all.
pub proof fn law_prompts_are_said_kept_and_sent(panel: PanelView, prompt: Seq<char>)
    ensures
        prompt.len() == 0 ==> panel.prompted(prompt).panel == panel && panel.prompted(
            prompt,
        ).effects.len() == 0,
        prompt.len() > 0 ==> ({
            let step = panel.prompted(prompt);
            let said = ChatView { role: "user"@, content: prompt };
            &&& step.panel.messages.last() == said
            &&& step.panel.messages.drop_last() == panel.messages
            &&& step.panel.streaming.len() == 0
            &&& step.panel.autoscroll
            &&& step.panel.conversation_id == panel.conversation_id
            &&& step.effects.contains(ChatEffectView::ClearInput)
            &&& step.effects.contains(ChatEffectView::ScrollToBottom)
            &&& step.effects.contains(
                ChatEffectView::Save {
                    conversation_id: panel.conversation_id,
                    role: "user"@,
                    content: prompt,
                },
            )
            &&& step.effects.last() == (ChatEffectView::Send { prompt })
            &&& step.effects.len() == 4
        }),
{
    if prompt.len() > 0 {
        let step = panel.prompted(prompt);
        assert(step.panel.messages.drop_last() =~= panel.messages);
        assert(step.effects[0] == ChatEffectView::ClearInput);
        assert(step.effects[1] == (ChatEffectView::Save {
            conversation_id: panel.conversation_id,
            role: "user"@,
            content: prompt,
        }));
        assert(step.effects[2] == ChatEffectView::ScrollToBottom);
    }
}

/// A piece of the answer is put behind what came before it, and the view follows it exactly
/// while it is at the bottom.
pub proof fn law_pieces_are_followed_at_the_bottom(panel: PanelView, chunk: Seq<char>)
    ensures
        ({
            let step = panel.received(chunk);
            &&& step.panel.streaming == panel.streaming + chunk
            &&& step.panel.messages == panel.messages
            &&& step.panel.autoscroll == panel.autoscroll
            &&& panel.autoscroll <==> step.effects.contains(ChatEffectView::ScrollToBottom)
            &&& step.effects.len() <= 1
        }),
{
    if panel.autoscroll {
        assert(panel.received(chunk).effects[0] == ChatEffectView::ScrollToBottom);
    }
}

/// An answer that has come to its end is said by the assistant and kept as it was streamed;
/// no answer leaves nothing behind, and ending twice is ending once.
pub proof fn law_answers_end_once(panel: PanelView)
    ensures
        ({
            let step = panel.finished();
            &&& step.panel.streaming.len() == 0
            &&& step.panel.finished() == (Step { panel: step.panel, effects: Seq::empty() })
            &&& step.panel.autoscroll == panel.autoscroll
            &&& panel.streaming.len() == 0 ==> step.panel == panel && step.effects.len() == 0
            &&& panel.streaming.len() > 0 ==> step.panel.messages == panel.messages.push(
                ChatView { role: "assistant"@, content: panel.streaming },
            ) && step.effects == seq![
                ChatEffectView::Save {
                    conversation_id: panel.conversation_id,
                    role: "assistant"@,
                    content: panel.streaming,
                },
            ]
        }),
{
    assert(panel.streaming.len() == 0 ==> panel.streaming =~= Seq::<char>::empty());
}

} // verus!
