use bambu_overlay::bambu::models::CloudDevice;
use bambu_overlay::devices::DeviceSource;
use bambu_overlay::table::NameSet;
use bambu_overlay::web::{
    encode_query_value, hex, render_error, render_overlay, static_asset, video_headers,
    video_unavailable, Asset, KnownDevices, ServerConfig, OVERLAY_HTML,
};

fn names(values: &[&str]) -> NameSet {
    let mut set = NameSet::new();
    for value in values {
        set.insert((*value).to_owned());
    }
    set
}

#[test]
fn known_devices_payload_includes_paths_without_access_codes() {
    let devices = KnownDevices {
        devices: vec![
            CloudDevice {
                id: Some("printer a/1".to_owned()),
                name: Some("Office".to_owned()),
                online: Some(true),
                access_code: Some("12345678".to_owned()),
                ..CloudDevice::default()
            },
            CloudDevice {
                id: Some("printer-b".to_owned()),
                name: Some("Garage".to_owned()),
                online: Some(false),
                access_code: Some("87654321".to_owned()),
                ..CloudDevice::default()
            },
        ],
        local_ids: names(&["printer a/1"]),
        probed_video_ids: names(&["printer a/1"]),
    };

    let value = devices.payload(&NameSet::new());
    let shown = format!("{value:?}");
    assert!(!shown.contains("12345678"));
    assert!(!shown.contains("87654321"));
    assert!(!shown.contains("accessCode"));
    assert!(!shown.contains("access_code"));
    assert_eq!(value.devices[0].source, DeviceSource::Local);
    assert_eq!(
        value.devices[0].paths.horizontal.as_deref(),
        Some("/overlay?device=printer%20a%2F1")
    );
    assert_eq!(
        value.devices[0].paths.vertical.as_deref(),
        Some("/vertical?device=printer%20a%2F1")
    );
    assert_eq!(
        value.devices[0].paths.video.as_deref(),
        Some("/api/video.mjpeg?device=printer%20a%2F1")
    );
    assert_eq!(value.devices[1].source, DeviceSource::Cloud);
    assert!(value.devices[1].paths.video.is_none());

    let value = devices.payload(&names(&["printer-b"]));
    assert_eq!(
        value.devices[1].paths.video.as_deref(),
        Some("/api/video.mjpeg?device=printer-b")
    );
}

#[test]
fn streams_need_a_code_and_paths_an_id() {
    let devices = KnownDevices {
        devices: vec![
            CloudDevice {
                id: Some("printer-a".to_owned()),
                access_code: Some("  ".to_owned()),
                ..CloudDevice::default()
            },
            CloudDevice {
                name: Some("Nameless".to_owned()),
                access_code: Some("12345678".to_owned()),
                ..CloudDevice::default()
            },
        ],
        local_ids: names(&[]),
        probed_video_ids: names(&["printer-a"]),
    };
    let value = devices.payload(&NameSet::new());
    assert_eq!(value.devices[0].paths.video, None);
    assert_eq!(value.devices[1].id, None);
    assert_eq!(value.devices[1].paths.horizontal, None);
    assert_eq!(value.devices[1].paths.vertical, None);
    assert_eq!(value.devices[1].source, DeviceSource::Cloud);
}

#[test]
fn query_values_are_percent_encoded() {
    assert_eq!(encode_query_value("AZaz09-._~"), "AZaz09-._~");
    assert_eq!(encode_query_value("a&b=c%"), "a%26b%3Dc%25");
    assert_eq!(encode_query_value("\u{e9}\u{20ac}"), "%C3%A9%E2%82%AC");
    assert_eq!(encode_query_value(""), "");
    assert_eq!((0..16).map(hex).collect::<String>(), "0123456789ABCDEF");
}

fn decode(value: &str) -> String {
    let mut bytes = Vec::new();
    let mut rest = value.as_bytes();
    while let Some((first, tail)) = rest.split_first() {
        if *first == b'%' {
            bytes.push(u8::from_str_radix(&value[value.len() - tail.len()..][..2], 16).unwrap());
            rest = &tail[2..];
        } else {
            bytes.push(*first);
            rest = tail;
        }
    }
    String::from_utf8(bytes).unwrap()
}

#[test]
fn query_values_decode_to_what_they_encode() {
    for value in ["printer a/1", "100%25", "\u{1f5a8} \u{0}\u{7f}~", "+&?#"] {
        let encoded = encode_query_value(value);
        assert!(encoded
            .bytes()
            .all(|byte| byte.is_ascii_alphanumeric() || b"-._~%".contains(&byte)));
        assert_eq!(decode(&encoded), value);
    }
}

#[test]
fn server_listens_locally_by_default() {
    let config = ServerConfig::default();
    assert_eq!(config.bind.to_string(), "127.0.0.1:8765");
    assert_eq!(config.cloud_mqtt.to_string(), "us.mqtt.bambulab.com:8883");
    assert!(!config.no_cloud_enum);
    assert!(config.local_devices.is_empty());
    assert!(config.cloud_devices.is_empty());
    assert!(config.video_endpoints.is_empty());
}

#[test]
fn assets_have_names_and_types() {
    assert_eq!(static_asset("common.css"), Some(Asset::CommonCss));
    assert_eq!(static_asset("horizontal.css"), Some(Asset::HorizontalCss));
    assert_eq!(static_asset("vertical.css"), Some(Asset::VerticalCss));
    assert_eq!(static_asset("overlay.js"), Some(Asset::OverlayJs));
    assert_eq!(static_asset("Overlay.js"), None);
    assert_eq!(Asset::VerticalCss.content_type(), "text/css; charset=utf-8");
    assert_eq!(Asset::OverlayJs.content_type(), "application/javascript; charset=utf-8");
}

#[test]
fn overlay_pages_know_their_layout_and_events() {
    let config = "{\"eventsUrl\":\"/api/current-print/events\"}";
    for (view_mode, layout) in
        [("horizontal", "horizontal"), ("vertical", "vertical"), ("sideways", "horizontal")]
    {
        let expected = OVERLAY_HTML
            .replace("{{ view_mode }}", layout)
            .replace("{{ config_json|safe }}", config);
        let page = render_overlay(view_mode).unwrap();
        assert_eq!(page, expected.trim_end());
        assert!(page.contains(&format!("<body class=\"{layout}\">")));
    }
}

#[test]
fn failures_are_answered_in_plain_text() {
    let answer = render_error("bad template".to_owned());
    assert_eq!(answer.status, 500);
    assert_eq!(answer.content_type, "text/plain; charset=utf-8");
    assert_eq!(answer.body, "bad template");
    let answer = video_unavailable("disabled".to_owned());
    assert_eq!(answer.status, 503);
    assert_eq!(answer.body, "disabled");
    assert_eq!(
        video_headers(),
        [
            ("content-type", "multipart/x-mixed-replace; boundary=frame".to_owned()),
            ("cache-control", "no-store".to_owned()),
            ("pragma", "no-cache".to_owned()),
        ]
    );
}
