//! The first smart home the chat model ran: lights that are only on or off,
//! and alarms.

use vstd::prelude::*;

use crate::text::same_text;

verus! {

/// Topic that carries the state of the home as JSON.
pub const SMART_HOME_MQTT_TOPIC: &'static str = "chatty/home_state/simple";

/// Whether a light is on.
#[derive(Debug, Clone, Copy, PartialEq, Eq, Structural)]
pub enum LightState {
    On,
    Off,
}

impl Default for LightState {
    /// Lights are off unless said otherwise.
    fn default() -> (r: LightState)
        ensures
            r == LightState::Off,
    {
        LightState::Off
    }
}

/// The lights of the home.
#[derive(Debug, Clone, Copy, PartialEq, Eq, Structural)]
pub struct HomeLightsState {
    pub bedroom: LightState,
    pub living_room: LightState,
    pub hallway: LightState,
    pub living_room_mood_lights: LightState,
}

/// An alarm of the home.
#[derive(Debug, Clone, PartialEq)]
pub struct Alarm {
    pub iso8601_time: String,
    pub active: bool,
    pub name: String,
}

/// The state of the home that the chat model reads and rewrites.
#[derive(Debug, Clone, PartialEq)]
pub struct SmartHomeState {
    pub lights: HomeLightsState,
    pub alarms: Vec<Alarm>,
}

/// Whether a message on `topic` carries the state of the home.
pub fn is_home_state_topic(topic: &str) -> (r: bool)
    ensures
        r == (topic@ == SMART_HOME_MQTT_TOPIC@),
{
    same_text(topic, SMART_HOME_MQTT_TOPIC)
}

} // verus!
