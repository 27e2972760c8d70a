//! The message in which a recorded voice command travels over MQTT: the audio
//! file in standard base64 and its format, framed as a JSON object.

use base64::engine::general_purpose;
use base64::Engine;
use vstd::prelude::*;


verus! {

/// MQTT topic on which recorded voice commands are published.
pub const AUDIO_MQTT_TOPIC: &'static str = "chatty/audio_command/simple";

/// Format of the recordings this library frames.
pub const RECORDING_FORMAT: &'static str = "wav";

/// The symbol of the standard base64 alphabet for the six-bit value `v`:
/// `A`-`Z`, `a`-`z`, `0`-`9`, `+`, `/`.
pub open spec fn base64_symbol(v: int) -> char {
    if v < 26 {
        (65 + v) as char
    } else if v < 52 {
        (71 + v) as char
    } else if v < 62 {
        (v - 4) as char
    } else if v == 62 {
        '+'
    } else {
        '/'
    }
}

/// Standard base64 (RFC 4648 alphabet, `=` padding) of `bytes`: every three
/// bytes give four symbols, and a last group of one or two bytes gives two
/// or three symbols and `=` up to four.
pub open spec fn base64_standard_encoding(bytes: Seq<u8>) -> Seq<char>
    decreases bytes.len(),
{
    if bytes.len() == 0 {
        Seq::empty()
    } else if bytes.len() == 1 {
        let b0 = bytes[0] as int;
        seq![base64_symbol(b0 / 4), base64_symbol((b0 % 4) * 16), '=', '=']
    } else if bytes.len() == 2 {
        let b0 = bytes[0] as int;
        let b1 = bytes[1] as int;
        seq![
            base64_symbol(b0 / 4),
            base64_symbol((b0 % 4) * 16 + b1 / 16),
            base64_symbol((b1 % 16) * 4),
            '=',
        ]
    } else {
        let b0 = bytes[0] as int;
        let b1 = bytes[1] as int;
        let b2 = bytes[2] as int;
        seq![
            base64_symbol(b0 / 4),
            base64_symbol((b0 % 4) * 16 + b1 / 16),
            base64_symbol((b1 % 16) * 4 + b2 / 64),
            base64_symbol(b2 % 64),
        ] + base64_standard_encoding(bytes.subrange(3, bytes.len() as int))
    }
}

/// Whether `c` may appear in standard base64 text: a letter, a digit, `+`,
/// `/`, or the padding `=`.
pub open spec fn is_base64_char(c: char) -> bool {
    ||| 'A' <= c <= 'Z'
    ||| 'a' <= c <= 'z'
    ||| '0' <= c <= '9'
    ||| c == '+'
    ||| c == '/'
    ||| c == '='
}

/// Standard base64 text is made of the alphabet's symbols and `=`.
pub proof fn lemma_base64_chars(bytes: Seq<u8>)
    ensures
        forall|i: int|
            0 <= i < base64_standard_encoding(bytes).len() ==> is_base64_char(
                #[trigger] base64_standard_encoding(bytes)[i],
            ),
    decreases bytes.len(),
{
    let e = base64_standard_encoding(bytes);
    if bytes.len() >= 3 {
        let rest = bytes.subrange(3, bytes.len() as int);
        lemma_base64_chars(rest);
        assert forall|i: int| 0 <= i < e.len() implies is_base64_char(#[trigger] e[i]) by {
            if i >= 4 {
                assert(e[i] == base64_standard_encoding(rest)[i - 4]);
            }
        }
    }
}

/// `base64::engine::general_purpose::STANDARD.encode`: the standard base64
/// text of `data`. The crate panics when the length of that text overflows
/// `usize`, which `requires` leaves out.
#[verifier::external_body]
fn encode_base64(data: &[u8]) -> (r: String)
    requires
        data@.len() <= isize::MAX,
    ensures
        r@ == base64_standard_encoding(data@),
{
    general_purpose::STANDARD.encode(data)
}

#[verifier::external_type_specification]
#[verifier::external_body]
pub struct ExDecodeError(base64::DecodeError);

/// `base64::engine::general_purpose::STANDARD.decode`. The standard engine
/// demands canonical padding and no stray trailing bits, so it accepts exactly
/// the texts that its encoder produces: when it succeeds, the bytes re-encode
/// to the input, and whenever some bytes encode to the input it succeeds with
/// those bytes.
#[verifier::external_body]
fn decode_base64(text: &str) -> (r: Result<Vec<u8>, base64::DecodeError>)
    ensures
        r matches Ok(v) ==> base64_standard_encoding(v@) == text@,
        r matches Ok(v) ==> forall|b: Seq<u8>|
            #[trigger] base64_standard_encoding(b) == text@ ==> v@ == b,
        r is Err ==> forall|b: Seq<u8>| #[trigger] base64_standard_encoding(b) != text@,
{
    general_purpose::STANDARD.decode(text)
}

/// The lower-case hexadecimal digit of `d` (below 16).
pub open spec fn hex_digit(d: u32) -> char {
    if d < 10 {
        (48 + d) as char
    } else {
        (87 + d) as char
    }
}

/// How a JSON string literal writes `c`.
pub open spec fn json_escape_char(c: char) -> Seq<char> {
    if c == '"' {
        seq!['\\', '"']
    } else if c == '\\' {
        seq!['\\', '\\']
    } else if c == '\u{8}' {
        seq!['\\', 'b']
    } else if c == '\u{c}' {
        seq!['\\', 'f']
    } else if c == '\n' {
        seq!['\\', 'n']
    } else if c == '\r' {
        seq!['\\', 'r']
    } else if c == '\t' {
        seq!['\\', 't']
    } else if (c as u32) < 0x20 {
        seq!['\\', 'u', '0', '0', hex_digit((c as u32) / 16), hex_digit((c as u32) % 16)]
    } else {
        seq![c]
    }
}

/// The characters of `s` as a JSON string literal writes them.
pub open spec fn json_escape(s: Seq<char>) -> Seq<char>
    decreases s.len(),
{
    if s.len() == 0 {
        Seq::empty()
    } else {
        json_escape_char(s[0]) + json_escape(s.drop_first())
    }
}

/// Whether a JSON string literal writes `c` as it is.
pub open spec fn is_plain_json_char(c: char) -> bool {
    c != '"' && c != '\\' && (c as u32) >= 0x20
}

/// Text whose characters a JSON string literal writes as they are comes out
/// unchanged.
pub proof fn lemma_json_escape_plain(s: Seq<char>)
    requires
        forall|i: int| 0 <= i < s.len() ==> is_plain_json_char(#[trigger] s[i]),
    ensures
        json_escape(s) == s,
    decreases s.len(),
{
    if s.len() > 0 {
        assert(is_plain_json_char(s[0]));
        assert forall|i: int| 0 <= i < s.drop_first().len() implies is_plain_json_char(
            #[trigger] s.drop_first()[i],
        ) by {
            assert(s.drop_first()[i] == s[i + 1]);
        }
        lemma_json_escape_plain(s.drop_first());
        assert(seq![s[0]] + s.drop_first() =~= s);
    }
}

/// `s` as a JSON string literal, quotes included.
pub open spec fn json_string_literal(s: Seq<char>) -> Seq<char> {
    seq!['"'] + json_escape(s) + seq!['"']
}

/// Whether `a` comes strictly before `b` when texts are ordered character
/// by character, by code point, a proper prefix first. For UTF-8 strings
/// this is the order of `String`.
pub open spec fn text_less(a: Seq<char>, b: Seq<char>) -> bool
    decreases a.len(),
{
    if a.len() == 0 {
        b.len() > 0
    } else if b.len() == 0 {
        false
    } else if a[0] != b[0] {
        (a[0] as u32) < (b[0] as u32)
    } else {
        text_less(a.drop_first(), b.drop_first())
    }
}

/// The compact JSON text of an object with two string members, the one
/// whose key comes first in order written first.
pub open spec fn json_object_text(
    first_key: Seq<char>,
    first_value: Seq<char>,
    second_key: Seq<char>,
    second_value: Seq<char>,
) -> Seq<char> {
    seq!['{'] + json_string_literal(first_key) + seq![':'] + json_string_literal(first_value)
        + seq![','] + json_string_literal(second_key) + seq![':'] + json_string_literal(
        second_value,
    ) + seq!['}']
}

/// `serde_json::Value::Object(..).to_string()` on the object with the two
/// string members given: serde_json writes `{`, the members in the order of
/// their keys (a `serde_json::Map` is sorted by key, or keeps insertion
/// order, which agrees here as the first key comes first), each as a JSON
/// string literal, `:`, and the value's JSON string literal, separated by
/// `,`, and `}`, with no whitespace. In a string literal serde_json escapes
/// `"` and `\`, writes `\b \f \n \r \t` for those control characters,
/// `\u00xx` with lower-case hex digits for the other characters below
/// U+0020, and every other character as it is.
#[verifier::external_body]
fn json_object_of_two(first_key: &str, first_value: &str, second_key: &str, second_value: &str) -> (r:
    String)
    requires
        text_less(first_key@, second_key@),
    ensures
        r@ == json_object_text(first_key@, first_value@, second_key@, second_value@),
{
    let object: serde_json::Map<String, serde_json::Value> = [
        (first_key.to_owned(), serde_json::Value::String(first_value.to_owned())),
        (second_key.to_owned(), serde_json::Value::String(second_value.to_owned())),
    ].into_iter().collect();
    serde_json::Value::Object(object).to_string()
}

/// Why the audio of a message could not be recovered.
#[derive(Debug, Clone, Copy, PartialEq, Eq)]
pub enum AudioMessageError {
    /// The `data` field is not standard base64.
    InvalidBase64,
}

/// A recorded voice command: the audio file in standard base64, and the
/// file's format (its extension).
#[derive(Debug, Clone, Default)]
pub struct AudioMessage {
    pub data: String,
    pub format: String,
}

/// The JSON object that carries a recording of `bytes`.
pub open spec fn audio_json_spec(bytes: Seq<u8>) -> Seq<char> {
    json_object_text("data"@, base64_standard_encoding(bytes), "format"@, RECORDING_FORMAT@)
}

impl AudioMessage {
    /// The message that carries the recording `data`.
    pub fn from_recording(data: &[u8]) -> (m: AudioMessage)
        requires
            data@.len() <= isize::MAX,
        ensures
            m.data@ == base64_standard_encoding(data@),
            m.format@ == RECORDING_FORMAT@,
            forall|i: int| 0 <= i < m.data@.len() ==> is_plain_json_char(#[trigger] m.data@[i]),
    {
        let encoded = encode_base64(data);
        proof {
            lemma_base64_chars(data@);
            assert forall|i: int| 0 <= i < encoded@.len() implies is_plain_json_char(
                #[trigger] encoded@[i],
            ) by {
                assert(is_base64_char(encoded@[i]));
            }
        }
        AudioMessage { data: encoded, format: RECORDING_FORMAT.to_owned() }
    }

    /// The audio bytes the message carries. Decoding gives back exactly the
    /// bytes whose encoding the message holds, and fails only on text that
    /// no bytes encode to.
    pub fn decode_data(&self) -> (r: Result<Vec<u8>, AudioMessageError>)
        ensures
            r matches Ok(v) ==> base64_standard_encoding(v@) == self.data@,
            r is Err ==> forall|b: Seq<u8>| #[trigger] base64_standard_encoding(b) != self.data@,
            forall|b: Seq<u8>|
                #[trigger] base64_standard_encoding(b) == self.data@ ==> (r matches Ok(v)
                    && v@ == b),
    {
        match decode_base64(self.data.as_str()) {
            Ok(v) => Ok(v),
            Err(_) => Err(AudioMessageError::InvalidBase64),
        }
    }

    /// Name of the temporary file the audio is written to: `recorded.` and
    /// the format.
    pub fn recording_file_name(&self) -> (r: String)
        ensures
            r@ == "recorded."@ + self.format@,
    {
        let mut r = "recorded.".to_owned();
        r.append(self.format.as_str());
        r
    }
}

/// The JSON object that carries a recording of `bytes`, written out.
pub open spec fn audio_json_text(bytes: Seq<u8>) -> Seq<char> {
    "{\"data\":\""@ + base64_standard_encoding(bytes) + "\",\"format\":\"wav\"}"@
}

/// The MQTT payload for the recording `data`: a JSON object with the base64
/// text under `data` and the format `wav` under `format`.
pub fn create_message(data: &[u8]) -> (r: String)
    requires
        data@.len() <= isize::MAX,
    ensures
        r@ == audio_json_spec(data@),
        r@ == audio_json_text(data@),
{
    let message = AudioMessage::from_recording(data);
    proof {
        reveal_strlit("data");
        reveal_strlit("format");
        assert(text_less("data"@, "format"@));
    }
    let r = json_object_of_two("data", message.data.as_str(), "format", message.format.as_str());
    proof {
        reveal_strlit("wav");
        reveal_strlit("{\"data\":\"");
        reveal_strlit("\",\"format\":\"wav\"}");
        lemma_json_escape_plain("data"@);
        lemma_json_escape_plain("format"@);
        lemma_json_escape_plain("wav"@);
        lemma_json_escape_plain(message.data@);
        assert(audio_json_spec(data@) =~= audio_json_text(data@));
    }
    r
}

} // verus!
