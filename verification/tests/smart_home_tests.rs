use chatty::smart_home::{
    extract_json_text, house_request_message, route_topic, smart_home_system_prompt, spoken_reply,
    ColorMode, ColorTemperature, Light, LightState, SmartHomeCommand, SmartHomeState,
    SMART_HOME_MQTT_TOPIC, SMART_HOME_RESET_CHAT_MANAGER_COMMAND, SMART_HOME_VOICE_COMMAND,
};
use chatty::smart_home_experiment::{self, is_home_state_topic};

#[test]
fn topics_route_to_commands() {
    assert_eq!(route_topic(SMART_HOME_MQTT_TOPIC), SmartHomeCommand::UpdateHomeState);
    assert_eq!(route_topic("chatty/home_state/simple/v2"), SmartHomeCommand::UpdateHomeState);
    assert_eq!(route_topic(SMART_HOME_RESET_CHAT_MANAGER_COMMAND), SmartHomeCommand::ResetChatManager);
    assert_eq!(route_topic(SMART_HOME_VOICE_COMMAND), SmartHomeCommand::VoiceCommand);
    assert_eq!(route_topic("chatty/home_state/simple"), SmartHomeCommand::Ignore);
    assert_eq!(route_topic(""), SmartHomeCommand::Ignore);
}

#[test]
fn experiment_topic() {
    assert!(is_home_state_topic("chatty/home_state/simple"));
    assert!(!is_home_state_topic("chatty/home_state/simple/v2"));
}

#[test]
fn default_home_has_all_lights_off_and_neutral() {
    let s = SmartHomeState::default();
    let expected = Light {
        state: LightState::Off,
        brightness: 0,
        color: ColorMode::Temperature { color_temperature: ColorTemperature::Neutral },
    };
    assert_eq!(s.lights.bedroom, expected);
    assert_eq!(s.lights.living_room, expected);
    assert_eq!(s.lights.hallway, expected);
    assert_eq!(s.lights.living_room_mood_lights, expected);
    assert_eq!(smart_home_experiment::LightState::default(), smart_home_experiment::LightState::Off);
}

#[test]
fn json_is_taken_from_first_open_to_last_close_brace() {
    assert_eq!(
        extract_json_text("Sure!\n{\"lights\": {\"a\": {}}}\nMESSAGE: done"),
        Some("{\"lights\": {\"a\": {}}}".to_string())
    );
    assert_eq!(extract_json_text("no json here"), None);
    assert_eq!(extract_json_text("only { open"), None);
    assert_eq!(extract_json_text("only } close"), None);
    assert_eq!(extract_json_text("} a {"), None);
    assert_eq!(extract_json_text("x}{y"), Some(String::new()));
    assert_eq!(extract_json_text("é{ü}é"), Some("{ü}".to_string()));
}

#[test]
fn spoken_reply_is_the_text_after_the_marker() {
    assert_eq!(spoken_reply("{\"lights\":{}}\nMESSAGE: Lights are on. "), "Lights are on.");
    assert_eq!(spoken_reply("  Nothing to report \n"), "Nothing to report");
    assert_eq!(spoken_reply("a MESSAGE: b MESSAGE: c"), "b  c");
    assert_eq!(spoken_reply("MESSAGE:"), "");
}

#[test]
fn house_request_layout() {
    assert_eq!(
        house_request_message("T", "{}", "lights on"),
        "CURRENT_DATE_TIME: T\nHOUSE_STATE:\n```json\n{}\n```\nUSER_REQUEST:\nlights on"
    );
}

#[test]
fn system_prompt_embeds_the_schema() {
    let p = smart_home_system_prompt("{\"type\":\"object\"}");
    assert_eq!(
        p,
        "You are an AI in charge of a smart home. Each message will start with\njson of the current home status followed by a user request.\nRespond with json of the updated smart home state followed by a message for the user.\nSchema for smart home state is {\"type\":\"object\"}.\nMessage for user should be prefaced with a line that says \"MESSAGE:\""
    );
}
