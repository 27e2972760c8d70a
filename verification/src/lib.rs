//! Chat assistant and smart-home helpers: conversation bookkeeping, prompt
//! building, reply parsing and the audio-over-MQTT message format.

pub mod text;
pub mod utils;
pub mod configuration;
pub mod audio_message;
pub mod chat_manager;
pub mod smart_home;
pub mod smart_home_experiment;
pub mod audio;
pub mod mqtt;
