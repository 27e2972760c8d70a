//! Conversation bookkeeping: the messages exchanged with the chat model, the
//! requests built from them, the assembly of streamed replies, and the system
//! prompts a conversation starts from.

use vstd::prelude::*;

use crate::text::{chars_of, push_char, trim, trim_spec};
use crate::utils::{CHAT_MODEL_KNOWLEDGE_CUTOFF, CHAT_MODEL_NAME};

verus! {

/// Who wrote a message of a conversation.
#[derive(Debug, Clone, Copy, PartialEq, Eq, Structural)]
pub enum Role {
    System,
    User,
    Assistant,
}

/// One message of a conversation.
#[derive(Debug, Clone, PartialEq)]
pub struct ChatMessage {
    /// The author of the message.
    pub role: Role,
    /// The text of the message.
    pub content: String,
    /// The name of the user in a multi-user chat.
    pub name: Option<String>,
}

/// A message as a mathematical value.
pub struct MessageModel {
    pub role: Role,
    pub content: Seq<char>,
    pub name: Option<Seq<char>>,
}

/// The view of an optional string.
pub open spec fn opt_text(s: Option<String>) -> Option<Seq<char>> {
    match s {
        Some(t) => Some(t@),
        None => None,
    }
}

impl View for ChatMessage {
    type V = MessageModel;

    open spec fn view(&self) -> MessageModel {
        MessageModel { role: self.role, content: self.content@, name: opt_text(self.name) }
    }
}

/// The message that `role` writes with text `content` and no user name.
pub open spec fn message_spec(role: Role, content: Seq<char>) -> MessageModel {
    MessageModel { role, content, name: None }
}

/// The views of a list of messages.
pub open spec fn messages_view(v: Seq<ChatMessage>) -> Seq<MessageModel> {
    v.map_values(|m: ChatMessage| m@)
}

/// Why a chat exchange failed.
#[derive(Debug, Clone, Copy, PartialEq, Eq, Structural)]
pub enum ChatError {
    /// A streamed chunk of the reply carried no choice.
    NoFirstChoice,
}

/// What is sent to the chat model: the model's name and the whole
/// conversation so far.
#[derive(Debug, Clone)]
pub struct CompletionRequest {
    pub model: String,
    pub messages: Vec<ChatMessage>,
}

fn copy_text(s: &Option<String>) -> (r: Option<String>)
    ensures
        opt_text(r) == opt_text(*s),
{
    match s {
        Some(t) => Some(t.clone()),
        None => None,
    }
}

/// A copy of `m`.
pub fn copy_message(m: &ChatMessage) -> (r: ChatMessage)
    ensures
        r@ == m@,
{
    ChatMessage { role: m.role, content: m.content.clone(), name: copy_text(&m.name) }
}

/// A copy of every message of `v`.
pub fn copy_messages(v: &Vec<ChatMessage>) -> (r: Vec<ChatMessage>)
    ensures
        messages_view(r@) == messages_view(v@),
{
    let mut r: Vec<ChatMessage> = Vec::new();
    for i in 0..v.len()
        invariant
            r@.len() == i,
            forall|j: int| 0 <= j < i ==> #[trigger] r@[j]@ == v@[j]@,
    {
        let m = copy_message(&v[i]);
        r.push(m);
    }
    assert(messages_view(r@) =~= messages_view(v@));
    r
}

/// The conversation with the chat model, oldest message first. It starts
/// with the system prompt and only ever grows at its end.
pub struct ChatHistory {
    history: Vec<ChatMessage>,
}

impl View for ChatHistory {
    type V = Seq<MessageModel>;

    closed spec fn view(&self) -> Seq<MessageModel> {
        messages_view(self.history@)
    }
}

impl ChatHistory {
    /// A conversation that holds only the system prompt `prompt`.
    pub fn new(prompt: &str) -> (r: Result<ChatHistory, ChatError>)
        ensures
            r matches Ok(h) && h@ == seq![message_spec(Role::System, prompt@)],
    {
        let mut history: Vec<ChatMessage> = Vec::new();
        history.push(ChatMessage { role: Role::System, content: prompt.to_owned(), name: None });
        let h = ChatHistory { history };
        assert(h@ =~= seq![message_spec(Role::System, prompt@)]);
        Ok(h)
    }

    /// The messages of the conversation, oldest first.
    pub fn messages(&self) -> (r: &Vec<ChatMessage>)
        ensures
            messages_view(r@) == self@,
    {
        &self.history
    }

    /// Adds the user's message `user_message` and returns the request that
    /// sends the whole conversation to the chat model.
    pub fn begin_turn(&mut self, user_message: &str) -> (req: CompletionRequest)
        ensures
            final(self)@ == old(self)@.push(message_spec(Role::User, user_message@)),
            req.model@ == CHAT_MODEL_NAME@,
            messages_view(req.messages@) == final(self)@,
    {
        let m = ChatMessage { role: Role::User, content: user_message.to_owned(), name: None };
        self.history.push(m);
        assert(self@ =~= old(self)@.push(message_spec(Role::User, user_message@)));
        CompletionRequest { model: CHAT_MODEL_NAME.to_owned(), messages: copy_messages(&self.history) }
    }

    /// The request that asks the chat model for a title of the conversation:
    /// the whole conversation and then the user's message `TITLE_REQUEST`.
    /// The conversation itself is left as it is.
    pub fn title_request(&self) -> (req: CompletionRequest)
        ensures
            req.model@ == CHAT_MODEL_NAME@,
            messages_view(req.messages@) == self@.push(message_spec(Role::User, TITLE_REQUEST@)),
    {
        let mut messages = copy_messages(&self.history);
        messages.push(ChatMessage { role: Role::User, content: TITLE_REQUEST.to_owned(), name: None });
        assert(messages_view(messages@) =~= self@.push(message_spec(Role::User, TITLE_REQUEST@)));
        CompletionRequest { model: CHAT_MODEL_NAME.to_owned(), messages }
    }

    /// Adds the chat model's reply, written by `role` with text `content`,
    /// and returns its text.
    pub fn record_reply(&mut self, role: Role, content: &str) -> (r: String)
        ensures
            final(self)@ == old(self)@.push(message_spec(role, content@)),
            r@ == content@,
    {
        let m = ChatMessage { role, content: content.to_owned(), name: None };
        self.history.push(m);
        assert(self@ =~= old(self)@.push(message_spec(role, content@)));
        content.to_owned()
    }
}

/// One exchange of a conversation: the user's text, and the role and text of
/// the reply.
pub struct TurnModel {
    pub question: Seq<char>,
    pub reply_role: Role,
    pub reply: Seq<char>,
}

/// The conversation that starts from the system prompt `prompt` and has
/// gone through the exchanges `turns`, each added by `begin_turn` and then
/// `record_reply`.
pub open spec fn conversation_spec(prompt: Seq<char>, turns: Seq<TurnModel>) -> Seq<MessageModel>
    decreases turns.len(),
{
    if turns.len() == 0 {
        seq![message_spec(Role::System, prompt)]
    } else {
        let t = turns.last();
        conversation_spec(prompt, turns.drop_last()).push(message_spec(Role::User, t.question)).push(
            message_spec(t.reply_role, t.reply),
        )
    }
}

/// One exchange adds the user's message and then the reply at the end of the
/// conversation, and keeps every earlier message.
pub proof fn lemma_turn_extends_history(
    before: Seq<MessageModel>,
    question: Seq<char>,
    role: Role,
    reply: Seq<char>,
)
    ensures
        ({
            let after = before.push(message_spec(Role::User, question)).push(
                message_spec(role, reply),
            );
            &&& after.len() == before.len() + 2
            &&& after.subrange(0, before.len() as int) == before
            &&& after[before.len() as int] == message_spec(Role::User, question)
            &&& after[before.len() + 1int] == message_spec(role, reply)
        }),
{
    let after = before.push(message_spec(Role::User, question)).push(message_spec(role, reply));
    assert(after.subrange(0, before.len() as int) =~= before);
}

/// However many exchanges a conversation has gone through, it starts with its
/// system prompt, and then holds each exchange's user message and reply in
/// the order they happened.
pub proof fn lemma_conversation_layout(prompt: Seq<char>, turns: Seq<TurnModel>)
    ensures
        conversation_spec(prompt, turns).len() == 1 + 2 * turns.len(),
        conversation_spec(prompt, turns)[0] == message_spec(Role::System, prompt),
        forall|k: int|
            0 <= k < turns.len() ==> {
                &&& #[trigger] conversation_spec(prompt, turns)[2 * k + 1] == message_spec(
                    Role::User,
                    turns[k].question,
                )
                &&& conversation_spec(prompt, turns)[2 * k + 2] == message_spec(
                    turns[k].reply_role,
                    turns[k].reply,
                )
            },
    decreases turns.len(),
{
    if turns.len() > 0 {
        let prev = turns.drop_last();
        lemma_conversation_layout(prompt, prev);
        let c = conversation_spec(prompt, turns);
        let cp = conversation_spec(prompt, prev);
        assert forall|k: int| 0 <= k < turns.len() implies {
            &&& #[trigger] c[2 * k + 1] == message_spec(Role::User, turns[k].question)
            &&& c[2 * k + 2] == message_spec(turns[k].reply_role, turns[k].reply)
        } by {
            if k < prev.len() {
                assert(c[2 * k + 1] == cp[2 * k + 1]);
                assert(c[2 * k + 2] == cp[2 * k + 2]);
                assert(prev[k] == turns[k]);
            }
        }
    }
}

/// What the chat model is asked for a conversation's title.
pub const TITLE_REQUEST: &'static str =
    "Write a short title for this conversation. Reply with the title only.";

/// How a character of a title is written in a file name: ASCII letters,
/// digits and `-` as they are, anything else as `_`.
pub open spec fn file_name_char(c: char) -> char {
    if ('a' <= c <= 'z') || ('A' <= c <= 'Z') || ('0' <= c <= '9') || c == '-' {
        c
    } else {
        '_'
    }
}

/// Name of the file a conversation titled `title` is saved to: its time,
/// `_` and the trimmed title written with `file_name_char`, then `.yaml`;
/// just the time and `.yaml` when the trimmed title is empty.
pub open spec fn titled_file_name_spec(time: Seq<char>, title: Seq<char>) -> Seq<char> {
    if trim_spec(title).len() == 0 {
        time + ".yaml"@
    } else {
        time + "_"@ + trim_spec(title).map_values(|c: char| file_name_char(c)) + ".yaml"@
    }
}

/// Name of the file a conversation titled `title` is saved to at time `time`.
pub fn titled_history_file_name(time: &str, title: &str) -> (r: String)
    ensures
        r@ == titled_file_name_spec(time@, title@),
{
    let trimmed = trim(title);
    let chars = chars_of(trimmed.as_str());
    if chars.len() == 0 {
        return history_file_name(time);
    }
    let mut r = time.to_owned();
    r.append("_");
    let ghost start = r@;
    for i in 0..chars.len()
        invariant
            chars@ == trim_spec(title@),
            r@ == start + chars@.subrange(0, i as int).map_values(|c: char| file_name_char(c)),
    {
        let c = chars[i];
        let w = if ('a' <= c && c <= 'z') || ('A' <= c && c <= 'Z') || ('0' <= c && c <= '9') || c == '-' {
            c
        } else {
            '_'
        };
        push_char(&mut r, w);
        assert(chars@.subrange(0, i + 1).map_values(|c: char| file_name_char(c)) =~= chars@.subrange(
            0,
            i as int,
        ).map_values(|c: char| file_name_char(c)).push(file_name_char(c)));
    }
    assert(chars@.subrange(0, chars@.len() as int) =~= chars@);
    r.append(".yaml");
    r
}

/// Name of the file a conversation is saved to: its time and `.yaml`.
pub fn history_file_name(time: &str) -> (r: String)
    ensures
        r@ == time@ + ".yaml"@,
{
    let mut r = time.to_owned();
    r.append(".yaml");
    r
}

/// A streamed chunk of a reply: the role and text it carries, either of
/// which may be absent.
#[derive(Debug, Clone, PartialEq)]
pub struct ChatDelta {
    pub role: Option<Role>,
    pub content: Option<String>,
}

/// A streamed chunk as a mathematical value.
pub struct DeltaModel {
    pub role: Option<Role>,
    pub content: Option<Seq<char>>,
}

impl View for ChatDelta {
    type V = DeltaModel;

    open spec fn view(&self) -> DeltaModel {
        DeltaModel { role: self.role, content: opt_text(self.content) }
    }
}

/// A reply assembled from streamed chunks so far: the last role announced,
/// and the text gathered.
pub struct ReplyModel {
    pub role: Option<Role>,
    pub content: Seq<char>,
}

/// The reply after one more chunk: its role replaces the one announced
/// before, and its text is appended.
pub open spec fn absorb_spec(r: ReplyModel, d: DeltaModel) -> ReplyModel {
    ReplyModel {
        role: match d.role {
            Some(x) => Some(x),
            None => r.role,
        },
        content: match d.content {
            Some(c) => r.content + c,
            None => r.content,
        },
    }
}

/// The reply assembled from the chunks `ds`, in order.
pub open spec fn stream_spec(ds: Seq<DeltaModel>) -> ReplyModel
    decreases ds.len(),
{
    if ds.len() == 0 {
        ReplyModel { role: None, content: Seq::empty() }
    } else {
        absorb_spec(stream_spec(ds.drop_last()), ds.last())
    }
}

/// The text a chunk carries, empty when it carries none.
pub open spec fn delta_text(d: DeltaModel) -> Seq<char> {
    match d.content {
        Some(c) => c,
        None => Seq::empty(),
    }
}

/// The role written on a reply: the last one announced, else the assistant.
pub open spec fn reply_role_spec(r: ReplyModel) -> Role {
    match r.role {
        Some(x) => x,
        None => Role::Assistant,
    }
}

/// The last role that the chunks `ds` announce, if any.
pub open spec fn last_announced_role(ds: Seq<DeltaModel>) -> Option<Role>
    decreases ds.len(),
{
    if ds.len() == 0 {
        None
    } else if ds.last().role is Some {
        ds.last().role
    } else {
        last_announced_role(ds.drop_last())
    }
}

/// A streamed reply's text is the texts of its chunks joined in the order
/// they came, and its role is the last role any chunk announced.
pub proof fn lemma_stream_joins_chunks(ds: Seq<DeltaModel>)
    ensures
        stream_spec(ds).content == ds.map_values(|d: DeltaModel| delta_text(d)).flatten(),
        stream_spec(ds).role == last_announced_role(ds),
    decreases ds.len(),
{
    if ds.len() > 0 {
        lemma_stream_joins_chunks(ds.drop_last());
        let f = |d: DeltaModel| delta_text(d);
        assert(ds.map_values(f).drop_last() =~= ds.drop_last().map_values(f));
        ds.map_values(f).lemma_flatten_and_flatten_alt_are_equivalent();
        ds.drop_last().map_values(f).lemma_flatten_and_flatten_alt_are_equivalent();
        assert(ds.map_values(f).last() == delta_text(ds.last()));
        assert(stream_spec(ds).content =~= ds.map_values(f).flatten());
    } else {
        assert(ds.map_values(|d: DeltaModel| delta_text(d)) =~= Seq::<Seq<char>>::empty());
    }
}

/// A reply being received chunk by chunk.
pub struct StreamedReply {
    role: Option<Role>,
    content: String,
}

impl View for StreamedReply {
    type V = ReplyModel;

    closed spec fn view(&self) -> ReplyModel {
        ReplyModel { role: self.role, content: self.content@ }
    }
}

impl StreamedReply {
    /// A reply that has received nothing yet.
    pub fn new() -> (r: StreamedReply)
        ensures
            r@ == stream_spec(Seq::empty()),
    {
        StreamedReply { role: None, content: String::new() }
    }

    /// Takes in the first choice of a streamed chunk and returns the text
    /// to show. A chunk without a choice is an error and changes nothing.
    pub fn absorb(&mut self, first_choice: Option<&ChatDelta>) -> (r: Result<
        Option<String>,
        ChatError,
    >)
        ensures
            match first_choice {
                None => r == Err::<Option<String>, ChatError>(ChatError::NoFirstChoice)
                    && final(self)@ == old(self)@,
                Some(d) => {
                    &&& final(self)@ == absorb_spec(old(self)@, d@)
                    &&& r matches Ok(shown) && opt_text(shown) == d@.content
                },
            },
    {
        match first_choice {
            None => Err(ChatError::NoFirstChoice),
            Some(d) => {
                if let Some(role) = d.role {
                    self.role = Some(role);
                }
                let shown = match &d.content {
                    Some(text) => {
                        self.content.append(text.as_str());
                        Some(text.clone())
                    },
                    None => None,
                };
                Ok(shown)
            },
        }
    }

    /// The role the reply is recorded under.
    pub fn role(&self) -> (r: Role)
        ensures
            r == reply_role_spec(self@),
    {
        match self.role {
            Some(x) => x,
            None => Role::Assistant,
        }
    }

    /// The text received so far.
    pub fn content(&self) -> (r: &String)
        ensures
            r@ == self@.content,
    {
        &self.content
    }
}

/// The system prompt named `default`, for the time `time`.
pub open spec fn default_instruction(time: Seq<char>) -> Seq<char> {
    "You are ChatGPT, a large language model trained by OpenAI. \nAnswer as concisely as possible. Knowledge cutoff: "@
        + CHAT_MODEL_KNOWLEDGE_CUTOFF@ + " Current date: "@ + time
}

/// The system prompt named `joi`, for the time `time`.
pub open spec fn joi_instruction(time: Seq<char>) -> Seq<char> {
    "You are Joi. The cheerful and helpful AI assistant. \nKnowledge cutoff: "@
        + CHAT_MODEL_KNOWLEDGE_CUTOFF@ + " Current date: "@ + time
}

/// The named system prompts for the time `time`, in order.
pub open spec fn instructions_spec(time: Seq<char>) -> Seq<(Seq<char>, Seq<char>)> {
    seq![("default"@, default_instruction(time)), ("joi"@, joi_instruction(time))]
}

/// The text stored under the entry named `name`, if any (the first such
/// entry; names are distinct in every table this library builds).
pub open spec fn lookup_spec(entries: Seq<(Seq<char>, Seq<char>)>, name: Seq<char>) -> Option<
    Seq<char>,
>
    decreases entries.len(),
{
    if entries.len() == 0 {
        None
    } else if entries[0].0 == name {
        Some(entries[0].1)
    } else {
        lookup_spec(entries.drop_first(), name)
    }
}

/// Whether no two entries of `entries` share a name.
pub open spec fn names_distinct(entries: Seq<(Seq<char>, Seq<char>)>) -> bool {
    forall|i: int, j: int|
        0 <= i < j < entries.len() ==> #[trigger] entries[i].0 != #[trigger] entries[j].0
}

/// System prompts, each under its own name: a list of (name, prompt) pairs
/// in which no name occurs twice, looked up by name.
pub struct SystemInstructions {
    entries: Vec<(String, String)>,
}

impl View for SystemInstructions {
    type V = Seq<(Seq<char>, Seq<char>)>;

    closed spec fn view(&self) -> Seq<(Seq<char>, Seq<char>)> {
        self.entries@.map_values(|e: (String, String)| (e.0@, e.1@))
    }
}

impl SystemInstructions {
    /// The prompt named `name`, if there is one.
    pub fn get(&self, name: &str) -> (r: Option<&String>)
        ensures
            match r {
                Some(t) => lookup_spec(self@, name@) == Some(t@),
                None => lookup_spec(self@, name@) is None,
            },
    {
        let wanted = name.to_owned();
        let mut i: usize = 0;
        assert(self@.subrange(0, self@.len() as int) =~= self@);
        while i < self.entries.len()
            invariant
                i <= self.entries@.len(),
                wanted@ == name@,
                lookup_spec(self@, name@) == lookup_spec(self@.subrange(i as int, self@.len() as int), name@),
            decreases self.entries@.len() - i,
        {
            let ghost rest = self@.subrange(i as int, self@.len() as int);
            assert(rest[0] == (self.entries@[i as int].0@, self.entries@[i as int].1@));
            if self.entries[i].0 == wanted {
                return Some(&self.entries[i].1);
            }
            assert(rest.drop_first() =~= self@.subrange(i + 1, self@.len() as int));
            i = i + 1;
        }
        None
    }
}

/// The system prompts for the current time `current_time`, read from the
/// clock by the caller: `default`, then `joi`, both carrying that time.
pub fn generate_system_instructions(current_time: &str) -> (r: SystemInstructions)
    ensures
        r@ == instructions_spec(current_time@),
        names_distinct(r@),
{
    let mut default_text =
        "You are ChatGPT, a large language model trained by OpenAI. \nAnswer as concisely as possible. Knowledge cutoff: "
            .to_owned();
    default_text.append(CHAT_MODEL_KNOWLEDGE_CUTOFF);
    default_text.append(" Current date: ");
    default_text.append(current_time);
    let mut joi_text = "You are Joi. The cheerful and helpful AI assistant. \nKnowledge cutoff: ".to_owned();
    joi_text.append(CHAT_MODEL_KNOWLEDGE_CUTOFF);
    joi_text.append(" Current date: ");
    joi_text.append(current_time);
    let mut entries: Vec<(String, String)> = Vec::new();
    entries.push(("default".to_owned(), default_text));
    entries.push(("joi".to_owned(), joi_text));
    let r = SystemInstructions { entries };
    assert(r@ =~= instructions_spec(current_time@));
    proof {
        reveal_strlit("default");
        reveal_strlit("joi");
        assert("default"@[0] != "joi"@[0]);
    }
    r
}

} // verus!
