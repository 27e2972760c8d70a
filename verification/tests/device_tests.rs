use chatty::audio::{
    find_input_device, recording_sample_type, sample_format, wav_spec_from_config, AudioError,
    RecordingSampleType, SampleFormat, WavSampleFormat, WavSpecification,
};
use chatty::configuration::{default_mqtt_port, DEFAULT_MQTT_PORT};
use chatty::mqtt::{
    reports_polling_error, subscription_filters, EventLoopAction, EventLoopEvent, QualityOfService, Subscriber,
    TopicSubscription,
};

#[test]
fn wav_header_from_input_config() {
    assert_eq!(
        wav_spec_from_config(2, 44100, SampleFormat::I16),
        WavSpecification { channels: 2, sample_rate: 44100, bits_per_sample: 16, sample_format: WavSampleFormat::Int }
    );
    assert_eq!(
        wav_spec_from_config(1, 48000, SampleFormat::F32),
        WavSpecification { channels: 1, sample_rate: 48000, bits_per_sample: 32, sample_format: WavSampleFormat::Float }
    );
    assert_eq!(wav_spec_from_config(1, 8000, SampleFormat::U8).bits_per_sample, 8);
    assert_eq!(wav_spec_from_config(1, 8000, SampleFormat::F64).bits_per_sample, 64);
    assert_eq!(sample_format(SampleFormat::F64), WavSampleFormat::Float);
    assert_eq!(sample_format(SampleFormat::U32), WavSampleFormat::Int);
}

#[test]
fn recorded_sample_types() {
    assert_eq!(recording_sample_type(SampleFormat::I8), Ok(RecordingSampleType::I8));
    assert_eq!(recording_sample_type(SampleFormat::I16), Ok(RecordingSampleType::I16));
    assert_eq!(recording_sample_type(SampleFormat::I32), Ok(RecordingSampleType::I32));
    assert_eq!(recording_sample_type(SampleFormat::F32), Ok(RecordingSampleType::F32));
    assert_eq!(
        recording_sample_type(SampleFormat::U16),
        Err(AudioError::UnsupportedSampleFormat(SampleFormat::U16))
    );
    assert_eq!(
        recording_sample_type(SampleFormat::F64),
        Err(AudioError::UnsupportedSampleFormat(SampleFormat::F64))
    );
}

#[test]
fn input_device_is_found_by_name() {
    let names = vec![None, Some("pulse".to_string()), Some("default".to_string()), Some("pulse".to_string())];
    assert_eq!(find_input_device(&names, "pulse"), Some(1));
    assert_eq!(find_input_device(&names, "default"), Some(2));
    assert_eq!(find_input_device(&names, "jack"), None);
    assert_eq!(find_input_device(&vec![], "default"), None);
}

#[test]
fn mqtt_default_port() {
    assert_eq!(default_mqtt_port(), 1883);
    assert_eq!(DEFAULT_MQTT_PORT, 1883);
}

#[test]
fn subscriptions_are_at_most_once_in_order() {
    let topics = vec!["a/b".to_string(), "c".to_string()];
    let subs = subscription_filters(&topics);
    assert_eq!(subs.len(), 2);
    assert_eq!(subs[0].topic, "a/b");
    assert_eq!(subs[1].topic, "c");
    assert!(subs.iter().all(|s| s.qos == QualityOfService::AtMostOnce));
}

#[test]
fn subscriber_subscribes_forwards_and_resubscribes() {
    let topics = vec!["a/b".to_string(), "c".to_string()];
    let subscriber = Subscriber::new(&topics);
    let filters = vec![
        TopicSubscription { topic: "a/b".to_string(), qos: QualityOfService::AtMostOnce },
        TopicSubscription { topic: "c".to_string(), qos: QualityOfService::AtMostOnce },
    ];
    assert_eq!(subscriber.on_start::<u32>(), EventLoopAction::Subscribe(filters.clone()));
    let events = vec![
        EventLoopEvent::IncomingPublish(1u32),
        EventLoopEvent::OtherIncoming,
        EventLoopEvent::IncomingConnAck,
        EventLoopEvent::Outgoing,
        EventLoopEvent::PollError,
        EventLoopEvent::IncomingPublish(2u32),
    ];
    let actions: Vec<EventLoopAction<u32>> = events.into_iter().map(|e| subscriber.on_event(e)).collect();
    assert_eq!(
        actions,
        vec![
            EventLoopAction::ForwardMessage(1),
            EventLoopAction::KeepPolling,
            EventLoopAction::Subscribe(filters),
            EventLoopAction::KeepPolling,
            EventLoopAction::ReportError,
            EventLoopAction::ForwardMessage(2),
        ]
    );
}

#[test]
fn plain_service_reports_only_polling_errors() {
    assert!(reports_polling_error(&EventLoopEvent::<u32>::PollError));
    assert!(!reports_polling_error(&EventLoopEvent::IncomingPublish(7u32)));
    assert!(!reports_polling_error(&EventLoopEvent::<u32>::IncomingConnAck));
    assert!(!reports_polling_error(&EventLoopEvent::<u32>::Outgoing));
}

