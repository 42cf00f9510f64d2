use bambu_overlay::bambu::models::{PrinterStatus, Real};
use bambu_overlay::local::{LocalDevice, MqttEndpoint};
use bambu_overlay::mqtt::client::{
    after_monitored_session, after_session, handle_publish, mqtt_username, next_event,
    payload_preview, report_topic_of, reporting_device, session_plan, Handled, Incoming,
    MqttTarget, ReportPayload, SessionEvent, Trust,
};
use bambu_overlay::retry::Backoff;
use bambu_overlay::table::Table;

fn cloud() -> MqttTarget {
    MqttTarget::cloud(
        "mqtt.example.test:1883".parse::<MqttEndpoint>().unwrap(),
        "42".to_owned(),
        "token".to_owned(),
        vec!["printer-a".to_owned(), "printer-b".to_owned()],
    )
}

fn local() -> MqttTarget {
    MqttTarget::local(LocalDevice {
        id: "printer-c".to_owned(),
        host: "10.0.0.1".to_owned(),
        mqtt_port: 8883,
        access_code: Some("12345678".to_owned()),
        name: None,
    })
}

#[test]
fn targets_have_keys_and_devices() {
    assert_eq!(cloud().connection_key(), "cloud");
    assert_eq!(cloud().device_ids(), ["printer-a", "printer-b"]);
    assert_eq!(local().connection_key(), "printer-c");
    assert_eq!(local().device_ids(), ["printer-c"]);
}

#[test]
fn options_authenticate_as_the_target_asks() {
    let options = cloud().options_for("x");
    assert_eq!(options.client_id, "bambu-overlay-x");
    assert_eq!(options.host, "mqtt.example.test");
    assert_eq!(options.port, 1883);
    assert_eq!(options.keep_alive_seconds, 60);
    assert_eq!(options.username, "u_42");
    assert_eq!(options.password, "token");
    assert_eq!(options.trust, Trust::System);

    let options = local().options_for("x");
    assert_eq!(options.username, "bblp");
    assert_eq!(options.password, "12345678");
    assert_eq!(options.host, "10.0.0.1");
    assert_eq!(options.port, 8883);
    assert_eq!(options.trust, Trust::Device);
}

#[test]
fn client_names_are_random_uuids() {
    let first = cloud().options().client_id;
    let second = cloud().options().client_id;
    assert_ne!(first, second);
    let uuid = first.strip_prefix("bambu-overlay-").unwrap();
    assert_eq!(uuid.len(), 36);
    for (place, character) in uuid.chars().enumerate() {
        if [8, 13, 18, 23].contains(&place) {
            assert_eq!(character, '-');
        } else {
            assert!(character.is_ascii_digit() || ('a'..='f').contains(&character));
        }
    }
    assert_eq!(uuid.as_bytes()[14], b'4');
}

#[test]
fn only_local_targets_need_a_code() {
    assert!(cloud().is_ready());
    assert!(local().is_ready());
    let target = MqttTarget::local(LocalDevice {
        id: "printer-c".to_owned(),
        host: "10.0.0.1".to_owned(),
        mqtt_port: 8883,
        access_code: None,
        name: None,
    });
    assert!(!target.is_ready());
}

#[test]
fn usernames_are_prefixed_once() {
    assert_eq!(mqtt_username("42"), "u_42");
    assert_eq!(mqtt_username("u_42"), "u_42");
    assert_eq!(mqtt_username(""), "u_");
}

#[test]
fn sessions_subscribe_and_ask_in_order() {
    let plan = session_plan(&cloud());
    assert_eq!(plan.devices.len(), 2);
    assert_eq!(plan.devices[1].device_id, "printer-b");
    assert_eq!(plan.devices[1].report_topic, "device/printer-b/report");
    assert_eq!(plan.devices[1].request_topic, "device/printer-b/request");
    assert_eq!(plan.devices[1].request.pushing.sequence_id, "1");
    assert_eq!(plan.devices[1].request.pushing.command, "pushall");
    assert_eq!(plan.devices[1].request.pushing.version, None);
    assert!(plan.topics.contains("device/printer-a/report"));
    assert!(!plan.topics.contains("device/printer-a/request"));

    let plan = session_plan(&local());
    assert_eq!(plan.devices[0].request.pushing.sequence_id, "0");
    assert_eq!(plan.devices[0].request.pushing.version, Some(1));
    assert_eq!(plan.devices[0].request.pushing.push_target, Some(1));
}

#[test]
fn sessions_take_reports_of_their_devices_only() {
    let topics = session_plan(&cloud()).topics;
    let publish = |topic: &str| Incoming::Publish { topic: topic.to_owned(), payload: vec![1] };
    assert!(matches!(
        next_event(&topics, publish("device/printer-a/report")),
        SessionEvent::Report { topic, payload } if topic == "device/printer-a/report" && payload == [1]
    ));
    assert!(matches!(next_event(&topics, publish("device/printer-z/report")), SessionEvent::Ignored));
    assert!(matches!(next_event(&topics, Incoming::Other), SessionEvent::Ignored));
    assert!(matches!(next_event(&topics, Incoming::Disconnect), SessionEvent::Over));
}

#[test]
fn report_topics_lead_back_to_their_device() {
    assert_eq!(reporting_device(&report_topic_of("printer-a")), Some("printer-a"));
    assert_eq!(reporting_device(&report_topic_of("")), Some(""));
    assert_eq!(reporting_device(&report_topic_of("a/b")), None);
    assert_eq!(reporting_device("device/printer-a/request"), None);
    assert_eq!(reporting_device("devices/printer-a/report"), None);
    assert_eq!(reporting_device("device/report"), None);
}

fn percent(value: f64) -> PrinterStatus {
    PrinterStatus {
        progress: Some(Real { bits: value.to_bits() }),
        ..PrinterStatus::default()
    }
}

#[test]
fn reports_are_merged_by_device() {
    let mut reports: Table<PrinterStatus> = Table::new();
    let named = PrinterStatus { task_name: Some("cube".to_owned()), ..PrinterStatus::default() };
    assert_eq!(
        handle_publish(
            &mut reports,
            "device/printer-a/report",
            Some(ReportPayload::Wrapped { print: named })
        ),
        Handled::Merged
    );
    assert_eq!(
        handle_publish(
            &mut reports,
            "device/printer-a/report",
            Some(ReportPayload::Bare(percent(12.0)))
        ),
        Handled::Merged
    );
    let status = reports.get("printer-a").unwrap();
    assert_eq!(status.task_name.as_deref(), Some("cube"));
    assert_eq!(status.progress, percent(12.0).progress);
    assert!(!reports.contains_key("printer-b"));

    assert_eq!(handle_publish(&mut reports, "device/printer-b/report", None), Handled::Unreadable);
    assert_eq!(
        handle_publish(&mut reports, "other", Some(ReportPayload::Bare(percent(1.0)))),
        Handled::UnexpectedTopic
    );
    assert!(!reports.contains_key("printer-b"));
}

#[test]
fn previews_are_cut_and_readable() {
    assert_eq!(payload_preview(b"{}"), "{}");
    assert_eq!(payload_preview(&[0x61, 0xff, 0x62]), "a\u{fffd}b");
    assert_eq!(payload_preview(&vec![b'x'; 300]), "x".repeat(300));
    assert_eq!(payload_preview(&vec![b'x'; 301]), format!("{}...", "x".repeat(300)));
}

#[test]
fn supervisors_wait_after_errors_and_monitors_always() {
    let mut delay = Backoff::starting_with(2);
    assert_eq!(after_session(&mut delay, false), Some(2_000_000_000));
    assert_eq!(after_session(&mut delay, false), Some(3_000_000_000));
    assert_eq!(after_session(&mut delay, true), None);
    assert_eq!(delay.nanos(), 2_000_000_000);

    let mut delay = Backoff::starting_with(2);
    assert_eq!(after_monitored_session(&mut delay, false), 2_000_000_000);
    assert_eq!(after_monitored_session(&mut delay, false), 3_000_000_000);
    assert_eq!(after_monitored_session(&mut delay, true), 2_000_000_000);
    assert_eq!(delay.nanos(), 3_000_000_000);
}
