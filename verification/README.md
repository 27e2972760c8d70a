# chatty

A small assistant around OpenAI's chat and speech-to-text models: a terminal
chat, voice chats, and a smart home whose lights the chat model switches,
talking over MQTT.

- `src/` is the library, verified with Verus: conversation bookkeeping and the
  assembly of streamed replies (`chat_manager`), the prompts and the parsing
  of the model's replies for the smart home (`smart_home`,
  `smart_home_experiment`), the audio-over-MQTT message (`audio_message`), the
  recorder's decisions (`audio`), the MQTT event loop's decisions (`mqtt`),
  settings (`configuration`), and the text operations all of them rest on
  (`text`).
- `app/` holds the programs: terminal and network I/O, OpenAI and MQTT
  clients, microphone recording, and the serde copies of the library's types.
- `tests/` runs the library on concrete values.
