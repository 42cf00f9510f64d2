use bambu_overlay::bambu::models::CloudDevice;
use bambu_overlay::certificate::certified_device;
use bambu_overlay::devices::ResolvedVideoEndpoints;
use bambu_overlay::local::Endpoint;
use bambu_overlay::retry::Backoff;
use bambu_overlay::table::{NameSet, Table};
use bambu_overlay::video::choice::{EndpointChoice, Outcome};
use bambu_overlay::video::stream::{
    after_connection, begin, keeps_streaming, take_connection, Action, Reply, Stage, WorkerStep,
};
use bambu_overlay::video::{
    auth_packet, client_left, error_chain, is_jpeg, mjpeg_content_type, mjpeg_part, select_session,
    should_start_worker, watched_device, write_auth_field, VideoConfig, VideoEndpoint, VideoSession,
};

fn device(id: &str, code: &str) -> CloudDevice {
    CloudDevice {
        id: Some(id.to_owned()),
        access_code: Some(code.to_owned()),
        ..CloudDevice::default()
    }
}

#[test]
fn auth_packet_matches_a1_p1_protocol_layout() {
    let packet = auth_packet("12345678").expect("access code should fit");

    assert_eq!(&packet[0..4], &0x40_u32.to_le_bytes());
    assert_eq!(&packet[4..8], &0x3000_u32.to_le_bytes());
    assert_eq!(&packet[8..12], &0_u32.to_le_bytes());
    assert_eq!(&packet[12..16], &0_u32.to_le_bytes());
    assert_eq!(&packet[16..20], b"bblp");
    assert!(packet[20..48].iter().all(|byte| *byte == 0));
    assert_eq!(&packet[48..56], b"12345678");
    assert!(packet[56..80].iter().all(|byte| *byte == 0));
}

#[test]
fn auth_packet_rejects_fields_that_do_not_fit() {
    let error = auth_packet("123456789012345678901234567890123").unwrap_err();
    assert!(error.contains("video access code"));
}

#[test]
fn auth_packet_takes_trimmed_ascii_up_to_the_field() {
    let code = "12345678901234567890123456789012";
    let packet = auth_packet(&format!("  {code}\n")).unwrap();
    assert_eq!(&packet[48..80], code.as_bytes());
    assert_eq!(auth_packet("k\u{f6}de").unwrap_err(), "video access code must be ASCII");
    assert_eq!(
        auth_packet("123456789012345678901234567890123").unwrap_err(),
        "video access code must fit in 32 bytes"
    );
}

#[test]
fn selected_session_uses_real_cloud_field_names() {
    let session = select_session(&vec![device("printer-a", "12345678\n")])
        .expect("single device should be selected");

    assert_eq!(session.device_id, "printer-a");
    assert_eq!(session.access_code, "12345678");
}

#[test]
fn selected_session_rejects_multiple_printers_with_video() {
    let error = select_session(&vec![
        device("printer-a", "11111111"),
        device("printer-b", "22222222"),
    ])
    .unwrap_err();

    assert!(error.contains("exactly one printer"));
}

#[test]
fn selected_session_needs_an_id_and_a_code() {
    let error = select_session(&vec![
        device(" ", "11111111"),
        device("printer-b", "\t"),
        CloudDevice::default(),
    ])
    .unwrap_err();
    assert_eq!(error, "no devices with dev_access_code were returned by Bambu Cloud");
    let session =
        select_session(&vec![CloudDevice::default(), device(" printer-b ", "2")]).unwrap();
    assert_eq!(session.device_id, "printer-b");
}

#[test]
fn mjpeg_part_contains_boundary_headers_and_frame() {
    let part = mjpeg_part(&[0xff, 0xd8, 0xff, 0xd9]);

    assert!(part.starts_with(b"--frame\r\nContent-Type: image/jpeg\r\nContent-Length: 4\r\n\r\n"));
    assert!(part.ends_with(&[0xff, 0xd8, 0xff, 0xd9, b'\r', b'\n']));
}

#[test]
fn mjpeg_part_is_head_frame_and_line_end() {
    let frame = vec![7_u8; 1234];
    let mut expected =
        b"--frame\r\nContent-Type: image/jpeg\r\nContent-Length: 1234\r\n\r\n".to_vec();
    expected.extend_from_slice(&frame);
    expected.extend_from_slice(b"\r\n");
    assert_eq!(mjpeg_part(&frame), expected);
    assert_eq!(mjpeg_content_type(), "multipart/x-mixed-replace; boundary=frame");
}

#[test]
fn jpeg_check_requires_soi_and_eoi_markers() {
    assert!(is_jpeg(&[0xff, 0xd8, 0x00, 0xff, 0xd9]));
    assert!(!is_jpeg(&[0xff, 0xd8, 0x00]));
    assert!(!is_jpeg(&[0x00, 0xff, 0xd9]));
}

#[test]
fn jpeg_check_needs_room_for_both_markers() {
    assert!(!is_jpeg(&[]));
    assert!(!is_jpeg(&[0xff]));
    assert!(!is_jpeg(&[0xff, 0xd8]));
    assert!(is_jpeg(&[0xff, 0xd8, 0xff, 0xd9]));
}

#[test]
fn video_endpoint_takes_a_code() {
    let endpoint: VideoEndpoint = " 10.0.0.1:7000 , 12345678 ".parse().unwrap();
    assert_eq!(endpoint.endpoint, Endpoint::new("10.0.0.1".to_owned(), 7000));
    assert_eq!(endpoint.access_code(), Some("12345678"));
    assert_eq!(endpoint.to_string(), "10.0.0.1:7000");
    let endpoint: VideoEndpoint = "fe80::1".parse().unwrap();
    assert_eq!(endpoint.access_code(), None);
    assert_eq!(endpoint.to_string(), "[fe80::1]:6000");
    assert!(endpoint.is_same(&"[fe80::1]:6000".parse().unwrap()));
    assert!(!endpoint.is_same(&"[fe80::1]:6000,1".parse().unwrap()));
    assert_eq!(
        " ,1".parse::<VideoEndpoint>().unwrap_err(),
        "invalid video device `,1`: host is empty"
    );
}

#[test]
fn video_config_is_disabled_without_a_host() {
    let config = VideoConfig::default();
    assert_eq!(config.port, 6000);
    assert_eq!(config.video_host(), None);
    assert_eq!(
        config.check().unwrap_err(),
        "video stream is disabled; set --video-device to the printer IP or hostname"
    );
    let config = VideoConfig { host: Some(" \t".to_owned()), port: 1 };
    assert!(config.check().is_err());
    let config = VideoConfig { host: Some(" 10.0.0.1 ".to_owned()), port: 1 };
    assert_eq!(config.video_host(), Some("10.0.0.1"));
}

#[test]
fn fields_hold_what_fits_in_them() {
    let mut field = [9; 4];
    assert!(write_auth_field(&mut field, "ab", "name").is_ok());
    assert_eq!(field, [b'a', b'b', 9, 9]);
    assert_eq!(
        write_auth_field(&mut field, "abcde", "name").unwrap_err(),
        "name must fit in 4 bytes"
    );
    assert_eq!(write_auth_field(&mut field, "\u{f6}", "name").unwrap_err(), "name must be ASCII");
    assert_eq!(field, [b'a', b'b', 9, 9]);
    assert!(write_auth_field(&mut [], "", "name").is_ok());
}

#[test]
fn endpoints_are_tried_in_turn_until_one_streams() {
    let place = |text: &str| text.parse::<VideoEndpoint>().unwrap();
    let mut videos = ResolvedVideoEndpoints {
        endpoints: vec![],
        probed_device_ids: NameSet::new(),
        endpoint_map: Table::new(),
    };
    for (id, text) in [("a", "10.0.0.1"), ("b", "10.0.0.2"), ("c", "10.0.0.3")] {
        videos.add(id.to_owned(), place(text));
    }

    let choice = EndpointChoice::new(&videos, "b");
    assert_eq!(choice.next(), Some(&place("10.0.0.2")));
    assert_eq!(choice.endpoints.len(), 4);

    let mut choice = EndpointChoice::new(&videos, "z");
    assert_eq!(choice.next(), Some(&place("10.0.0.1")));
    choice.take(Outcome::Mismatched);
    assert_eq!(choice.next(), Some(&place("10.0.0.2")));
    choice.take(Outcome::Streamed);
    assert_eq!(choice.kept, Some(place("10.0.0.2")));
    choice.take(Outcome::Mismatched);
    choice.take(Outcome::Streamed);
    assert_eq!(choice.next(), Some(&place("10.0.0.2")));

    let mut choice = EndpointChoice::new(&videos, "b");
    for tried in ["10.0.0.2", "10.0.0.1", "10.0.0.3"] {
        assert_eq!(choice.next(), Some(&place(tried)));
        choice.take(Outcome::Mismatched);
    }
    assert_eq!(choice.next(), None);
    assert!(VideoConfig::at(choice.next()).check().is_err());
    choice.take(Outcome::Streamed);
    assert_eq!(choice.kept, None);
}

#[test]
fn endpoints_are_known_by_host_and_port() {
    let place = |text: &str| text.parse::<VideoEndpoint>().unwrap();
    let mut choice = EndpointChoice {
        endpoints: vec![place("10.0.0.1:6000,1"), place("10.0.0.1"), place("10.0.0.1:7000")],
        mismatched: vec![],
        kept: None,
    };
    choice.take(Outcome::Mismatched);
    assert_eq!(choice.next(), Some(&place("10.0.0.1:7000")));
}

#[test]
fn connections_show_what_their_endpoint_is() {
    let shaking = Stage::Handshaking {
        session: VideoSession { device_id: "00M0".to_owned(), access_code: "1".to_owned() },
        address: "10.0.0.1:6000".to_owned(),
    };
    let certified = |name: Option<&str>| Reply::Certified(name.map(str::to_owned));
    assert_eq!(shaking.outcome(&certified(Some("00M0"))), None);
    assert_eq!(shaking.outcome(&certified(Some("00M1"))), Some(Outcome::Mismatched));
    assert_eq!(shaking.outcome(&certified(None)), Some(Outcome::Mismatched));
    assert_eq!(shaking.outcome(&Reply::Failed), None);
    let frame = Stage::Frame { size: 4 };
    assert_eq!(
        frame.outcome(&Reply::Data(vec![0xff, 0xd8, 0xff, 0xd9])),
        Some(Outcome::Streamed)
    );
    assert_eq!(frame.outcome(&Reply::Data(vec![0; 4])), None);
    assert_eq!(Stage::Header.outcome(&Reply::Data(vec![0; 16])), None);
}

#[test]
fn last_client_is_told_of() {
    assert_eq!(client_left(0), None);
    assert_eq!(client_left(1), Some((0, true)));
    assert_eq!(client_left(3), Some((2, false)));
    assert!(should_start_worker(None));
    assert!(should_start_worker(Some(true)));
    assert!(!should_start_worker(Some(false)));
    assert_eq!(
        error_chain(&vec!["outer".to_owned(), "inner".to_owned(), "root".to_owned()]),
        "outer: inner: root"
    );
}

fn config() -> VideoConfig {
    VideoConfig { host: Some("10.0.0.1".to_owned()), port: 6000 }
}

fn next(stage: Stage, reply: Reply, clients: usize) -> (Stage, Action) {
    assert!(stage.accepts(&reply));
    stage.advance(&config(), &reply, clients)
}

fn failure(action: Action) -> String {
    match action {
        Action::Fail(message) => message,
        other => panic!("{other:?}"),
    }
}

fn header(size: u32) -> Vec<u8> {
    let mut header = size.to_le_bytes().to_vec();
    header.resize(16, 0xaa);
    header
}

#[test]
fn stream_runs_from_devices_to_frames() {
    let (stage, action) = begin();
    assert!(matches!(action, Action::FetchDevices));
    let (stage, action) = next(stage, Reply::Devices(vec![device("00M0", "12345678")]), 1);
    assert!(matches!(action, Action::Connect(address) if address == "10.0.0.1:6000"));
    let (stage, action) = next(stage, Reply::Done, 1);
    assert!(matches!(action, Action::Handshake(name) if name == "00M0"));
    assert!(!stage.accepts(&Reply::Done));
    let (stage, action) = next(stage, Reply::Certified(Some("00M0".to_owned())), 1);
    assert!(matches!(action, Action::Send(packet) if packet == auth_packet("12345678").unwrap()));
    let (stage, action) = next(stage, Reply::Done, 1);
    assert!(matches!(action, Action::Flush));
    let (stage, action) = next(stage, Reply::Done, 1);
    assert!(matches!(action, Action::Read(16)));
    let (stage, action) = next(stage, Reply::Data(header(5)), 1);
    assert!(matches!(action, Action::Read(5)));
    assert!(!stage.accepts(&Reply::Data(vec![0; 4])));
    let frame = vec![0xff, 0xd8, 0, 0xff, 0xd9];
    let (stage, action) = next(stage, Reply::Data(frame.clone()), 1);
    assert!(matches!(action, Action::Publish(part) if part == mjpeg_part(&frame)));
    let (stage, action) = next(stage, Reply::Done, 1);
    assert!(matches!(action, Action::Read(16)));
    let (stage, _) = next(stage, Reply::Data(header(3)), 1);
    let (stage, action) = next(stage, Reply::Data(vec![1, 2, 3]), 1);
    assert!(matches!(action, Action::Discard));
    let (stage, action) = next(stage, Reply::Done, 0);
    assert!(matches!(action, Action::Stop));
    assert!(!stage.accepts(&Reply::Done));
}

#[test]
fn stream_refuses_frames_of_a_wrong_size() {
    for (size, message) in [
        (0, "invalid video frame size 0"),
        (16 * 1024 * 1024 + 1, "invalid video frame size 16777217"),
        (u32::MAX, "invalid video frame size 4294967295"),
    ] {
        let (_, action) = next(Stage::Header, Reply::Data(header(size)), 1);
        assert_eq!(failure(action), message);
    }
    let (_, action) = next(Stage::Header, Reply::Data(header(16 * 1024 * 1024)), 1);
    assert!(matches!(action, Action::Read(16_777_216)));
    assert!(matches!(next(Stage::Header, Reply::NoClients, 0).1, Action::Stop));
    assert!(matches!(next(Stage::Frame { size: 3 }, Reply::NoClients, 0).1, Action::Stop));
}

#[test]
fn stream_failures_say_where_they_happened() {
    let connecting = || Stage::Connecting {
        session: VideoSession { device_id: "00M0".to_owned(), access_code: "1".to_owned() },
        address: "10.0.0.1:6000".to_owned(),
    };
    let shaking = || Stage::Handshaking {
        session: VideoSession { device_id: "00M0".to_owned(), access_code: "1".to_owned() },
        address: "10.0.0.1:6000".to_owned(),
    };
    let fail = |stage: Stage, reply: Reply| failure(next(stage, reply, 1).1);
    assert_eq!(
        fail(Stage::Resolving, Reply::Failed),
        "failed to fetch video access code from Bambu Cloud"
    );
    assert_eq!(
        fail(Stage::Resolving, Reply::Devices(vec![])),
        "no devices with dev_access_code were returned by Bambu Cloud"
    );
    assert_eq!(
        fail(connecting(), Reply::TimedOut),
        "timed out connecting to video server at 10.0.0.1:6000"
    );
    assert_eq!(
        fail(connecting(), Reply::Failed),
        "failed to connect to video server at 10.0.0.1:6000"
    );
    assert_eq!(
        fail(shaking(), Reply::Failed),
        "failed TLS handshake with video server at 10.0.0.1:6000"
    );
    assert_eq!(fail(Stage::Sending, Reply::Failed), "failed to send video authentication packet");
    assert_eq!(fail(Stage::Flushing, Reply::Failed), "failed to flush video authentication packet");
    assert_eq!(fail(Stage::Header, Reply::TimedOut), "timed out reading video frame header");
    assert_eq!(fail(Stage::Header, Reply::Failed), "failed to read video frame header");
    assert_eq!(fail(Stage::Frame { size: 2 }, Reply::TimedOut), "timed out reading video frame");
    assert_eq!(fail(Stage::Frame { size: 2 }, Reply::Failed), "failed to read video frame");
    let (_, action) = begin().0.advance(
        &VideoConfig::default(),
        &Reply::Devices(vec![device("00M0", "1")]),
        1,
    );
    assert_eq!(
        failure(action),
        "video stream is disabled; set --video-device to the printer IP or hostname"
    );
    let (_, action) = take_connection(
        VideoSession { device_id: "00M0".to_owned(), access_code: "1".to_owned() },
        "10.0.0.1:6000".to_owned(),
        false,
    );
    assert_eq!(failure(action), "invalid printer device id `00M0` for TLS SNI");
}

#[test]
fn stream_refuses_ids_that_are_no_server_name() {
    let stage = |id: &str| Stage::Connecting {
        session: VideoSession { device_id: id.to_owned(), access_code: "1".to_owned() },
        address: "10.0.0.1:6000".to_owned(),
    };
    let (_, action) = next(stage("no server name"), Reply::Done, 1);
    assert_eq!(failure(action), "invalid printer device id `no server name` for TLS SNI");
    let (_, action) = next(stage("10.0.0.1"), Reply::Done, 1);
    assert!(matches!(action, Action::Handshake(name) if name == "10.0.0.1"));
}

#[test]
fn worker_waits_longer_after_each_failure() {
    let mut delay = Backoff::starting_with(1);
    let waits: Vec<u64> = (0..11)
        .map(|_| match after_connection(&mut delay, false, 1) {
            WorkerStep::Wait(nanos) => nanos,
            other => panic!("{other:?}"),
        })
        .collect();
    assert_eq!(
        waits,
        [
            1_000_000_000,
            1_500_000_000,
            2_250_000_000,
            3_375_000_000,
            5_062_500_000,
            7_593_750_000,
            11_390_625_000,
            17_085_937_500,
            25_628_906_250,
            30_000_000_000,
            30_000_000_000,
        ]
    );
    assert_eq!(after_connection(&mut delay, false, 0), WorkerStep::Stop);
    assert_eq!(after_connection(&mut delay, true, 1), WorkerStep::Reconnect);
    assert_eq!(delay.nanos(), 1_000_000_000);
    assert_eq!(after_connection(&mut delay, true, 0), WorkerStep::Stop);
    assert!(keeps_streaming(1));
    assert!(!keeps_streaming(0));
}

#[test]
fn first_camera_is_watched_unless_one_is_wanted() {
    let devices = vec![device("printer-a", "1"), device("printer-b", "2"), device("printer-b", "3")];
    let code = |wanted: Option<&str>| {
        watched_device(&devices, wanted).and_then(|device| device.access_code.clone())
    };
    assert_eq!(code(None).as_deref(), Some("1"));
    assert_eq!(code(Some("printer-b")).as_deref(), Some("2"));
    assert_eq!(code(Some("printer-c")), None);
    assert!(watched_device(&vec![], None).is_none());

    let endpoint: VideoEndpoint = "10.0.0.1:7000,1".parse().unwrap();
    let config = VideoConfig::at(Some(&endpoint));
    assert_eq!(config.host.as_deref(), Some("10.0.0.1"));
    assert_eq!(config.port, 7000);
    assert!(VideoConfig::at(None).check().is_err());
}

#[test]
fn codes_are_sent_to_their_own_device_only() {
    let shaking = |code: &str| Stage::Handshaking {
        session: VideoSession { device_id: "00M0".to_owned(), access_code: code.to_owned() },
        address: "10.0.0.1:6000".to_owned(),
    };
    let (stage, action) = next(shaking("1"), Reply::Certified(Some("00M1".to_owned())), 1);
    assert!(matches!(stage, Stage::Ended));
    assert_eq!(
        failure(action),
        "video server certificate at 10.0.0.1:6000 is for device `00M1`, not for `00M0`"
    );
    let (stage, action) = next(shaking("1"), Reply::Certified(None), 1);
    assert!(matches!(stage, Stage::Ended));
    assert_eq!(
        failure(action),
        "video server certificate at 10.0.0.1:6000 did not include a device ID"
    );
    let (_, action) = next(shaking("k\u{f6}de"), Reply::Certified(Some("00M0".to_owned())), 1);
    assert_eq!(failure(action), "video access code must be ASCII");
}

fn der(tag: u8, content: &[u8]) -> Vec<u8> {
    let mut bytes = vec![tag];
    match content.len() {
        size @ 0..=127 => bytes.push(size as u8),
        size @ 128..=255 => bytes.extend([0x81, size as u8]),
        size => bytes.extend([0x82, (size / 256) as u8, (size % 256) as u8]),
    }
    bytes.extend_from_slice(content);
    bytes
}

fn attribute(kind: u8, value: &[u8]) -> Vec<u8> {
    let fields = [der(0x06, &[0x55, 0x04, kind]), der(0x0c, value)].concat();
    der(0x31, &der(0x30, &fields))
}

fn certificate(version: bool, subject: &[u8]) -> Vec<u8> {
    let issuer = der(0x30, &attribute(3, b"BBL CA"));
    let mut fields = Vec::new();
    if version {
        fields.extend(der(0xa0, &der(0x02, &[2])));
    }
    fields.extend(der(0x02, &[1, 2, 3]));
    fields.extend(der(0x30, &der(0x06, &[0x2a, 0x86])));
    fields.extend(issuer);
    fields.extend(der(0x30, &[0x17, 0x00]));
    fields.extend(der(0x30, subject));
    fields.extend(der(0x30, &vec![0; 300]));
    let fields = der(0x30, &fields);
    der(0x30, &[fields, der(0x03, &vec![0; 200])].concat())
}

#[test]
fn certificates_name_their_subject() {
    let subject = [attribute(10, b"Bambu"), attribute(3, b" 00M00A0 ")].concat();
    assert_eq!(certified_device(&certificate(true, &subject)).as_deref(), Some("00M00A0"));
    assert_eq!(certified_device(&certificate(false, &subject)).as_deref(), Some("00M00A0"));
    assert_eq!(certified_device(&certificate(true, &attribute(10, b"Bambu"))), None);
    assert_eq!(certified_device(&certificate(true, &attribute(3, b"  "))), None);
    assert_eq!(certified_device(&certificate(true, &attribute(3, b"\xc3\xb6"))), None);
    assert_eq!(certified_device(&certificate(true, b"")), None);
    let whole = certificate(true, &subject);
    for size in [0, 1, 2, 5, 40, whole.len() - 1] {
        assert_eq!(certified_device(&whole[..size]), None);
    }
}
