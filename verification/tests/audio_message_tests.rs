use chatty::audio_message::{create_message, AudioMessage, AudioMessageError};

#[test]
fn message_carries_base64_and_format() {
    assert_eq!(create_message(b"hello"), "{\"data\":\"aGVsbG8=\",\"format\":\"wav\"}");
    assert_eq!(create_message(b""), "{\"data\":\"\",\"format\":\"wav\"}");
    assert_eq!(create_message(&[0xfb, 0xff]), "{\"data\":\"+/8=\",\"format\":\"wav\"}");
}

#[test]
fn message_from_recording() {
    let m = AudioMessage::from_recording(b"hi!");
    assert_eq!(m.data, "aGkh");
    assert_eq!(m.format, "wav");
    assert_eq!(m.recording_file_name(), "recorded.wav");
}

#[test]
fn decoding_gives_the_recording_back() {
    let audio: Vec<u8> = (0..=255u8).collect();
    let m = AudioMessage::from_recording(&audio);
    assert_eq!(m.decode_data(), Ok(audio));
}

#[test]
fn decoding_refuses_text_that_is_not_base64() {
    let bad = AudioMessage { data: "not base64!".to_string(), format: "mp3".to_string() };
    assert_eq!(bad.decode_data(), Err(AudioMessageError::InvalidBase64));
    let non_canonical = AudioMessage { data: "aGVsbG9=".to_string(), format: "wav".to_string() };
    assert_eq!(non_canonical.decode_data(), Err(AudioMessageError::InvalidBase64));
    assert_eq!(bad.recording_file_name(), "recorded.mp3");
}
