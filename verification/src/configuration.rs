//! Settings of the command line tools and of the MQTT connection.

use vstd::prelude::*;

verus! {

/// Qualifier of the per-user project directories.
pub const PROJECT_QUALIFIER: &'static str = "com";

/// Organization of the per-user project directories.
pub const PROJECT_ORGANIZATION: &'static str = "dmweis";

/// Application name of the per-user project directories.
pub const PROJECT_APPLICATION_NAME: &'static str = "chatty";

/// File name, without extension, of the user's configuration file.
pub const CHATTY_CLI_CONFIG_FILE_NAME: &'static str = "config";

/// Extension of the user's configuration file.
pub const CHATTY_CLI_CONFIG_FILE_EXTENSION: &'static str = "yaml";

/// Port of the MQTT broker when the settings name none.
pub const DEFAULT_MQTT_PORT: u16 = 1883;

/// Settings of the chat command line tool.
#[derive(Debug, Clone)]
pub struct ChattyCliConfig {
    pub open_ai_api_key: String,
}

/// Settings of the tools that talk to both OpenAI and an MQTT broker.
#[derive(Debug, Clone)]
pub struct AppConfig {
    pub open_ai_api_key: String,
    pub mqtt: MqttConfig,
}

/// Where and as whom to connect to the MQTT broker.
#[derive(Debug, Clone)]
pub struct MqttConfig {
    pub broker_host: String,
    pub broker_port: u16,
    pub client_id: String,
}

/// The broker port used when the settings leave it out.
pub fn default_mqtt_port() -> (port: u16)
    ensures
        port == DEFAULT_MQTT_PORT,
        port == 1883,
{
    DEFAULT_MQTT_PORT
}

} // verus!
