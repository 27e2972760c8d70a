//! The smart home run by the chat model: the state of its lights, the MQTT
//! topics it listens on, the prompts sent to the model, and what is taken
//! from the model's replies.

use vstd::prelude::*;

use crate::text::{
    chars_of, is_whitespace_spec, lemma_first_index_of, lemma_first_occurrence, lemma_last_index_of,
    lemma_first_occurrence_after, lemma_replace_absent, lemma_replace_leading,
    lemma_trim_properties, occurs_at, find_char, find_seq, first_index_of, first_occurrence, last_index_of, replace_all,
    replace_all_spec, rfind_char, same_text, string_from_chars, trim, trim_spec,
};

verus! {

/// Topic that carries the state of the home as JSON.
pub const SMART_HOME_MQTT_TOPIC: &'static str = "chatty/home_state/simple/v2";

/// Topic that carries recorded voice commands.
pub const SMART_HOME_VOICE_COMMAND: &'static str = "chatty/audio_command/simple";

/// Topic on which a message starts the conversation afresh.
pub const SMART_HOME_RESET_CHAT_MANAGER_COMMAND: &'static str =
    "chatty/audio_command/reset_chat_manager";

/// Topic on which the streamed reply text is published.
pub const SMART_HOME_TEXT_OUTPUT_TOPIC: &'static str = "chatty/audio_command/response/transcript";

/// Topic on which the message for the user is spoken.
pub const SPEAK_TOPIC: &'static str = "home_speak/say/cheerful";

/// The line that starts the model's message for the user.
pub const USER_MESSAGE_MARKER: &'static str = "MESSAGE:";

/// Whether a light is on.
#[derive(Debug, Clone, Copy, PartialEq, Eq, Structural)]
pub enum LightState {
    On,
    Off,
}

impl Default for LightState {
    /// Lights are off unless said otherwise.
    fn default() -> (r: LightState)
        ensures
            r == LightState::Off,
    {
        LightState::Off
    }
}

/// White light temperatures, coolest to warmest.
#[derive(Debug, Clone, Copy, PartialEq, Eq, Structural)]
pub enum ColorTemperature {
    Coolest,
    Cool,
    Neutral,
    Warm,
    Warmest,
}

impl Default for ColorTemperature {
    /// The neutral temperature.
    fn default() -> (r: ColorTemperature)
        ensures
            r == ColorTemperature::Neutral,
    {
        ColorTemperature::Neutral
    }
}

/// The colour of a light: a white temperature, or a colour as hex text.
#[derive(Debug, Clone, PartialEq)]
pub enum ColorMode {
    Temperature { color_temperature: ColorTemperature },
    Color { hex_color: String },
}

/// The colour a light has unless said otherwise.
pub open spec fn default_color_spec() -> ColorMode {
    ColorMode::Temperature { color_temperature: ColorTemperature::Neutral }
}

impl Default for ColorMode {
    /// White at the neutral temperature.
    fn default() -> (r: ColorMode)
        ensures
            r == default_color_spec(),
    {
        ColorMode::Temperature { color_temperature: ColorTemperature::default() }
    }
}

/// One light: on or off, its brightness, and its colour.
#[derive(Debug, Clone, PartialEq)]
pub struct Light {
    pub state: LightState,
    pub brightness: u8,
    pub color: ColorMode,
}

/// Whether `l` is a light as it is unless said otherwise: off, at
/// brightness 0, white at the neutral temperature.
pub open spec fn is_default_light(l: Light) -> bool {
    &&& l.state == LightState::Off
    &&& l.brightness == 0
    &&& l.color == default_color_spec()
}

impl Default for Light {
    /// Off, at brightness 0, white at the neutral temperature.
    fn default() -> (r: Light)
        ensures
            is_default_light(r),
    {
        Light { state: LightState::default(), brightness: 0, color: ColorMode::default() }
    }
}

/// The lights of the home.
#[derive(Debug, Clone, PartialEq)]
pub struct HomeLightsState {
    pub bedroom: Light,
    pub living_room: Light,
    pub hallway: Light,
    pub living_room_mood_lights: Light,
}

impl Default for HomeLightsState {
    /// Every light as it is unless said otherwise.
    fn default() -> (r: HomeLightsState)
        ensures
            is_default_light(r.bedroom),
            is_default_light(r.living_room),
            is_default_light(r.hallway),
            is_default_light(r.living_room_mood_lights),
    {
        HomeLightsState {
            bedroom: Light::default(),
            living_room: Light::default(),
            hallway: Light::default(),
            living_room_mood_lights: Light::default(),
        }
    }
}

/// The state of the home that the chat model reads and rewrites.
#[derive(Debug, Clone, PartialEq)]
pub struct SmartHomeState {
    pub lights: HomeLightsState,
}

impl Default for SmartHomeState {
    /// Every light off, at brightness 0, white at the neutral temperature.
    fn default() -> (r: SmartHomeState)
        ensures
            is_default_light(r.lights.bedroom),
            is_default_light(r.lights.living_room),
            is_default_light(r.lights.hallway),
            is_default_light(r.lights.living_room_mood_lights),
    {
        SmartHomeState { lights: HomeLightsState::default() }
    }
}

/// What an incoming MQTT message asks of the smart home.
#[derive(Debug, Clone, Copy, PartialEq, Eq, Structural)]
pub enum SmartHomeCommand {
    /// The payload is the new state of the home.
    UpdateHomeState,
    /// Start the conversation afresh.
    ResetChatManager,
    /// The payload is a recorded voice command.
    VoiceCommand,
    /// Not addressed to the smart home.
    Ignore,
}

/// The command a message on `topic` carries.
pub open spec fn route_topic_spec(topic: Seq<char>) -> SmartHomeCommand {
    if topic == SMART_HOME_MQTT_TOPIC@ {
        SmartHomeCommand::UpdateHomeState
    } else if topic == SMART_HOME_RESET_CHAT_MANAGER_COMMAND@ {
        SmartHomeCommand::ResetChatManager
    } else if topic == SMART_HOME_VOICE_COMMAND@ {
        SmartHomeCommand::VoiceCommand
    } else {
        SmartHomeCommand::Ignore
    }
}

/// The command a message on `topic` carries.
pub fn route_topic(topic: &str) -> (r: SmartHomeCommand)
    ensures
        r == route_topic_spec(topic@),
{
    if same_text(topic, SMART_HOME_MQTT_TOPIC) {
        SmartHomeCommand::UpdateHomeState
    } else if same_text(topic, SMART_HOME_RESET_CHAT_MANAGER_COMMAND) {
        SmartHomeCommand::ResetChatManager
    } else if same_text(topic, SMART_HOME_VOICE_COMMAND) {
        SmartHomeCommand::VoiceCommand
    } else {
        SmartHomeCommand::Ignore
    }
}

/// The system prompt that puts the chat model in charge of the home, given
/// the JSON schema of the home's state.
pub open spec fn system_prompt_spec(schema_json: Seq<char>) -> Seq<char> {
    "You are an AI in charge of a smart home. Each message will start with\njson of the current home status followed by a user request.\nRespond with json of the updated smart home state followed by a message for the user.\nSchema for smart home state is "@
        + schema_json
        + ".\nMessage for user should be prefaced with a line that says \"MESSAGE:\""@
}

/// The system prompt that puts the chat model in charge of the home, given
/// the JSON schema of the home's state.
pub fn smart_home_system_prompt(schema_json: &str) -> (r: String)
    ensures
        r@ == system_prompt_spec(schema_json@),
        r@ == "You are an AI in charge of a smart home. Each message will start with\njson of the current home status followed by a user request.\nRespond with json of the updated smart home state followed by a message for the user.\nSchema for smart home state is "@
            + schema_json@ + ".\nMessage for user should be prefaced with a line that says \"MESSAGE:\""@,
{
    let mut r =
        "You are an AI in charge of a smart home. Each message will start with\njson of the current home status followed by a user request.\nRespond with json of the updated smart home state followed by a message for the user.\nSchema for smart home state is "
            .to_owned();
    r.append(schema_json);
    r.append(".\nMessage for user should be prefaced with a line that says \"MESSAGE:\"");
    r
}

/// The message sent to the chat model for one voice request: the time, the
/// state of the home as JSON, and what the user asked.
pub open spec fn house_request_spec(
    current_date_time: Seq<char>,
    state_json: Seq<char>,
    user_question: Seq<char>,
) -> Seq<char> {
    "CURRENT_DATE_TIME: "@ + current_date_time + "\nHOUSE_STATE:\n```json\n"@ + state_json
        + "\n```\nUSER_REQUEST:\n"@ + user_question
}

/// The message sent to the chat model for one voice request: the time, the
/// state of the home as JSON, and what the user asked.
pub fn house_request_message(current_date_time: &str, state_json: &str, user_question: &str) -> (r:
    String)
    ensures
        r@ == house_request_spec(current_date_time@, state_json@, user_question@),
        r@ == "CURRENT_DATE_TIME: "@ + current_date_time@ + "\nHOUSE_STATE:\n```json\n"@ + state_json@
            + "\n```\nUSER_REQUEST:\n"@ + user_question@,
{
    let mut r = "CURRENT_DATE_TIME: ".to_owned();
    r.append(current_date_time);
    r.append("\nHOUSE_STATE:\n```json\n");
    r.append(state_json);
    r.append("\n```\nUSER_REQUEST:\n");
    r.append(user_question);
    r
}

/// The part of a reply taken as the new state of the home: from its first
/// `{` to its last `}`. There is none when either brace is missing or the
/// last `}` stands more than one place before the first `{`.
pub open spec fn json_span_spec(s: Seq<char>) -> Option<Seq<char>> {
    match (first_index_of(s, '{'), last_index_of(s, '}')) {
        (Some(a), Some(b)) => if a <= b + 1 {
            Some(s.subrange(a, b + 1))
        } else {
            None
        },
        _ => None,
    }
}

/// The part of `response` taken as the new state of the home, as text.
pub fn extract_json_text(response: &str) -> (r: Option<String>)
    ensures
        match r {
            Some(t) => json_span_spec(response@) == Some(t@),
            None => json_span_spec(response@) is None,
        },
{
    let chars = chars_of(response);
    match find_char(&chars, '{') {
        None => None,
        Some(start) => match rfind_char(&chars, '}') {
            None => None,
            Some(last) => {
                if start <= last + 1 {
                    Some(string_from_chars(&chars, start, last + 1))
                } else {
                    None
                }
            },
        },
    }
}

/// The message for the user in a reply: from the first `MESSAGE:` on (the
/// whole reply when there is none), with every `MESSAGE:` taken out and the
/// surrounding whitespace trimmed.
pub open spec fn spoken_reply_spec(s: Seq<char>) -> Seq<char> {
    let start: int = match first_occurrence(s, USER_MESSAGE_MARKER@) {
        Some(i) => i,
        None => 0,
    };
    trim_spec(replace_all_spec(s.subrange(start, s.len() as int), USER_MESSAGE_MARKER@, Seq::empty()))
}

/// The message for the user in `response`, to be spoken.
pub fn spoken_reply(response: &str) -> (r: String)
    ensures
        r@ == spoken_reply_spec(response@),
{
    let chars = chars_of(response);
    let marker = chars_of(USER_MESSAGE_MARKER);
    proof {
        reveal_strlit("MESSAGE:");
    }
    let start: usize = match find_seq(&chars, &marker) {
        Some(i) => i,
        None => 0,
    };
    let tail = string_from_chars(&chars, start, chars.len());
    let without_marker = replace_all(tail.as_str(), USER_MESSAGE_MARKER, "");
    proof {
        reveal_strlit("");
        assert(""@ =~= Seq::<char>::empty());
        assert(start as int == match first_occurrence(response@, USER_MESSAGE_MARKER@) {
            Some(i) => i,
            None => 0,
        });
        assert(tail@ == response@.subrange(start as int, response@.len() as int));
    }
    trim(without_marker.as_str())
}


/// The text taken as the new state of the home, when not empty, runs from a
/// `{` to a `}`; no `{` comes before it and no `}` after it.
pub proof fn lemma_json_span_braced(s: Seq<char>)
    ensures
        json_span_spec(s) matches Some(t) ==> {
            &&& t.len() > 0 ==> t[0] == '{' && t.last() == '}'
            &&& exists|a: int|
                #![trigger s.subrange(a, a + t.len())]
                0 <= a <= s.len() - t.len() && s.subrange(a, a + t.len()) == t && (forall|j: int|
                    0 <= j < a ==> s[j] != '{') && (forall|j: int|
                    a + t.len() <= j < s.len() ==> s[j] != '}')
        },
{
    lemma_first_index_of(s, '{');
    lemma_last_index_of(s, '}');
    if let Some(t) = json_span_spec(s) {
        let a: int = first_index_of(s, '{')->0;
        let b: int = last_index_of(s, '}')->0;
        assert(s.subrange(a, a + t.len()) =~= t);
    }
}

/// When the first `{` of a reply stands at `a`, its last `}` at `b`, and
/// `a <= b + 1`, the text taken as the new state is exactly the reply from
/// index `a` through index `b`.
pub proof fn lemma_json_span_found(s: Seq<char>, a: int, b: int)
    requires
        0 <= a < s.len(),
        s[a] == '{',
        forall|j: int| 0 <= j < a ==> s[j] != '{',
        0 <= b < s.len(),
        s[b] == '}',
        forall|j: int| b < j < s.len() ==> s[j] != '}',
        a <= b + 1,
    ensures
        json_span_spec(s) == Some(s.subrange(a, b + 1)),
{
    lemma_first_index_of(s, '{');
    lemma_last_index_of(s, '}');
    let fa = first_index_of(s, '{')->0;
    let lb = last_index_of(s, '}')->0;
    assert(fa == a) by {
        if fa < a {
        } else if fa > a {
            assert(s[a] != '{');
        }
    }
    assert(lb == b) by {
        if lb > b {
        } else if lb < b {
            assert(s[b] != '}');
        }
    }
}

/// No text is taken as the new state exactly when the reply has no `{`, has
/// no `}`, or its last `}` stands more than one place before its first `{`.
pub proof fn lemma_json_span_absent(s: Seq<char>)
    ensures
        json_span_spec(s) is None <==> {
            ||| forall|j: int| 0 <= j < s.len() ==> s[j] != '{'
            ||| forall|j: int| 0 <= j < s.len() ==> s[j] != '}'
            ||| exists|a: int, b: int|
                0 <= b < s.len() && 0 <= a < s.len() && s[a] == '{' && s[b] == '}' && a > b + 1
                    && (forall|j: int| 0 <= j < a ==> s[j] != '{') && (forall|j: int|
                    b < j < s.len() ==> s[j] != '}')
        },
{
    lemma_first_index_of(s, '{');
    lemma_last_index_of(s, '}');
    if let (Some(a), Some(b)) = (first_index_of(s, '{'), last_index_of(s, '}')) {
        if a > b + 1 {
            assert(s[a] == '{' && s[b] == '}');
        } else {
            assert(s[a] == '{');
            assert(s[b] == '}');
            assert forall|a2: int, b2: int|
                0 <= b2 < s.len() && 0 <= a2 < s.len() && s[a2] == '{' && s[b2] == '}' && a2 > b2 + 1
                    && (forall|j: int| 0 <= j < a2 ==> s[j] != '{') && (forall|j: int|
                    b2 < j < s.len() ==> s[j] != '}') implies false by {
                if a2 > a {
                    assert(s[a] != '{');
                } else if a2 < a {
                } else if b2 < b {
                    assert(s[b] != '}');
                } else if b2 > b {
                }
            }
        }
    }
}

/// The request message holds the time, the state of the home and the user's
/// request each whole and unaltered, whatever characters or lines they
/// hold: the time after the 19 characters of `CURRENT_DATE_TIME: `, the state
/// 22 characters further on, the request at the end, with 60 characters of
/// framing in all.
pub proof fn lemma_house_request_layout(t: Seq<char>, j: Seq<char>, q: Seq<char>)
    ensures
        house_request_spec(t, j, q) == "CURRENT_DATE_TIME: "@ + t + "\nHOUSE_STATE:\n```json\n"@ + j
            + "\n```\nUSER_REQUEST:\n"@ + q,
        house_request_spec(t, j, q).len() == 60 + t.len() + j.len() + q.len(),
        house_request_spec(t, j, q).subrange(19, 19int + t.len()) == t,
        house_request_spec(t, j, q).subrange(41int + t.len(), 41int + t.len() + j.len()) == j,
        house_request_spec(t, j, q).subrange(60int + t.len() + j.len(), 60int + t.len() + j.len() + q.len())
            == q,
{
    reveal_strlit("CURRENT_DATE_TIME: ");
    reveal_strlit("\nHOUSE_STATE:\n```json\n");
    reveal_strlit("\n```\nUSER_REQUEST:\n");
    let r = house_request_spec(t, j, q);
    let a = "CURRENT_DATE_TIME: "@;
    let b = "\nHOUSE_STATE:\n```json\n"@;
    let c = "\n```\nUSER_REQUEST:\n"@;
    assert(a.len() == 19);
    assert(b.len() == 22);
    assert(c.len() == 19);
    assert(r.subrange(19, 19int + t.len()) =~= t);
    assert(r.subrange(41int + t.len(), 41int + t.len() + j.len()) =~= j);
    assert(r.subrange(60int + t.len() + j.len(), 60int + t.len() + j.len() + q.len()) =~= q);
}

/// The system prompt holds the schema whole and unaltered, whatever it
/// holds, after 247 characters of instructions and before 70 more.
pub proof fn lemma_system_prompt_layout(schema: Seq<char>)
    ensures
        system_prompt_spec(schema).len() == 317 + schema.len(),
        system_prompt_spec(schema).subrange(247, 247 + schema.len() as int) == schema,
{
    reveal_strlit(
        "You are an AI in charge of a smart home. Each message will start with\njson of the current home status followed by a user request.\nRespond with json of the updated smart home state followed by a message for the user.\nSchema for smart home state is ",
    );
    reveal_strlit(".\nMessage for user should be prefaced with a line that says \"MESSAGE:\"");
    assert(system_prompt_spec(schema).subrange(247, 247 + schema.len() as int) =~= schema);
}

/// The message for the user never starts or ends with whitespace.
pub proof fn lemma_spoken_reply_trimmed(s: Seq<char>)
    ensures
        spoken_reply_spec(s).len() > 0 ==> !is_whitespace_spec(spoken_reply_spec(s)[0])
            && !is_whitespace_spec(spoken_reply_spec(s).last()),
{
    let start: int = match first_occurrence(s, USER_MESSAGE_MARKER@) {
        Some(i) => i,
        None => 0,
    };
    lemma_trim_properties(
        replace_all_spec(s.subrange(start, s.len() as int), USER_MESSAGE_MARKER@, Seq::empty()),
    );
}


proof fn lemma_marker_colon_last()
    ensures
        USER_MESSAGE_MARKER@.len() == 8,
        forall|k: int| 0 <= k < 7 ==> #[trigger] USER_MESSAGE_MARKER@[k] != USER_MESSAGE_MARKER@[7],
        USER_MESSAGE_MARKER@ == "MESSAGE:"@,
{
    reveal_strlit("MESSAGE:");
    assert(USER_MESSAGE_MARKER@ =~= seq!['M', 'E', 'S', 'S', 'A', 'G', 'E', ':']);
}

/// In a reply `p`, `MESSAGE:`, `q`, where neither `p` nor `q` holds
/// `MESSAGE:`, the message spoken is `q` trimmed, whatever lines `q` spans:
/// nothing after the marker is dropped and nothing before it is spoken.
pub proof fn lemma_spoken_reply_after_marker(p: Seq<char>, q: Seq<char>)
    requires
        forall|i: int| !occurs_at(p, USER_MESSAGE_MARKER@, i),
        forall|i: int| !occurs_at(q, USER_MESSAGE_MARKER@, i),
    ensures
        spoken_reply_spec(p + "MESSAGE:"@ + q) == trim_spec(q),
{
    lemma_marker_colon_last();
    let m = USER_MESSAGE_MARKER@;
    let s = p + m + q;
    lemma_first_occurrence_after(p, m, q);
    lemma_replace_leading(m, q, Seq::empty());
    assert(s.subrange(p.len() as int, s.len() as int) =~= m + q);
    assert(Seq::<char>::empty() + q =~= q);
}

/// A reply without `MESSAGE:` is spoken whole, trimmed.
pub proof fn lemma_spoken_reply_without_marker(s: Seq<char>)
    requires
        forall|i: int| !occurs_at(s, USER_MESSAGE_MARKER@, i),
    ensures
        spoken_reply_spec(s) == trim_spec(s),
{
    assert(s.subrange(0, s.len() as int) =~= s);
    lemma_replace_absent(s, USER_MESSAGE_MARKER@, Seq::empty());
}

} // verus!
