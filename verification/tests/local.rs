use bambu_overlay::config::DeviceConfig;
use bambu_overlay::local::{
    local_device_format_error, CloudDeviceConfig, Endpoint, LocalDevice, LocalDeviceConfig,
    MqttEndpoint,
};
use bambu_overlay::bambu::models::CloudDevice;

fn local_device_config(value: &str) -> LocalDeviceConfig {
    value.parse().expect("local device config should parse")
}

#[test]
fn device_config_parser_accepts_id_only() {
    let device: DeviceConfig = "printer-a".parse().unwrap();
    assert_eq!(device.id, "printer-a");
}

#[test]
fn device_config_parser_rejects_metadata() {
    let error = "printer-a,12345678".parse::<DeviceConfig>().unwrap_err();
    assert!(error.contains("expected only DEVICE_ID"));
}

#[test]
fn device_config_is_its_trimmed_id() {
    let device: DeviceConfig = "  printer-a\t".parse().unwrap();
    assert_eq!(device.to_string(), "printer-a");
    assert_eq!(device.to_string().parse::<DeviceConfig>().unwrap(), device);
    assert_eq!("  ".parse::<DeviceConfig>().unwrap_err(), "cloud device id must not be empty");
    assert_eq!(
        " a,b ".parse::<DeviceConfig>().unwrap_err(),
        "invalid cloud device `a,b`: expected only DEVICE_ID"
    );
}

#[test]
fn local_device_parser_accepts_default_mqtt_port() {
    let device = local_device_config("192.168.1.50,12345678,Office X1");

    assert_eq!(device.host, "192.168.1.50");
    assert_eq!(device.mqtt_port, 8883);
    assert_eq!(device.access_code.as_deref(), Some("12345678"));
    assert_eq!(device.name.as_deref(), Some("Office X1"));
}

#[test]
fn local_device_parser_accepts_custom_port() {
    let device = local_device_config("printer.local:18883,12345678");

    assert_eq!(device.host, "printer.local");
    assert_eq!(device.mqtt_port, 18883);
    assert_eq!(device.name, None);
}

#[test]
fn local_device_parser_accepts_missing_access_code() {
    let device = local_device_config("printer.local");

    assert_eq!(device.host, "printer.local");
    assert_eq!(device.access_code, None);
    assert_eq!(device.name, None);

    let device = local_device_config("printer.local,,Office X1");

    assert_eq!(device.access_code, None);
    assert_eq!(device.name.as_deref(), Some("Office X1"));
}

#[test]
fn local_device_parser_accepts_bracketed_ipv6() {
    let device = local_device_config("[fe80::1]:18883,12345678");

    assert_eq!(device.host, "fe80::1");
    assert_eq!(device.mqtt_port, 18883);
}

#[test]
fn local_device_parser_rejects_device_id_prefix() {
    let error = "printer-a=printer.local:18883,12345678"
        .parse::<LocalDeviceConfig>()
        .unwrap_err();

    assert!(error.contains("DEVICE_ID= prefix is not supported"));
}

#[test]
fn local_device_config_accepts_host_only_form() {
    let device = local_device_config("printer.local:18883,12345678,Office X1");

    assert_eq!(device.host, "printer.local");
    assert_eq!(device.mqtt_port, 18883);
    assert_eq!(device.access_code.as_deref(), Some("12345678"));
    assert_eq!(device.name.as_deref(), Some("Office X1"));
}

#[test]
fn cloud_device_parser_accepts_id_only_or_metadata() {
    let device: CloudDeviceConfig = "printer-a".parse().unwrap();
    assert_eq!(device.id, "printer-a");
    assert_eq!(device.access_code, None);

    let device: CloudDeviceConfig = "printer-a,12345678,Office X1".parse().unwrap();
    assert_eq!(device.access_code.as_deref(), Some("12345678"));
    assert_eq!(device.name.as_deref(), Some("Office X1"));
}

#[test]
fn mqtt_endpoint_parser_defaults_to_port_8883() {
    let endpoint: MqttEndpoint = "us.mqtt.bambulab.com".parse().unwrap();

    assert_eq!(endpoint.host, "us.mqtt.bambulab.com");
    assert_eq!(endpoint.port, 8883);
    assert_eq!(endpoint.to_string(), "us.mqtt.bambulab.com:8883");
}

#[test]
fn mqtt_endpoint_parser_accepts_custom_port_and_ipv6() {
    let endpoint: MqttEndpoint = "mqtt.example.test:18883".parse().unwrap();

    assert_eq!(endpoint.host, "mqtt.example.test");
    assert_eq!(endpoint.port, 18883);

    let endpoint: MqttEndpoint = "[fe80::1]:18883".parse().unwrap();

    assert_eq!(endpoint.host, "fe80::1");
    assert_eq!(endpoint.port, 18883);
    assert_eq!(endpoint.to_string(), "[fe80::1]:18883");
}

#[test]
fn endpoint_parser_accepts_a_custom_default_port() {
    let endpoint = Endpoint::parse_with_default("127.0.0.1", "bind address", 8765).unwrap();

    assert_eq!(endpoint.host, "127.0.0.1");
    assert_eq!(endpoint.port, 8765);
    assert_eq!(endpoint.to_string(), "127.0.0.1:8765");
}

#[test]
fn endpoint_errors_name_what_is_wrong() {
    let parse = |value: &str| Endpoint::parse_with_default(value, "bind address", 1).unwrap_err();
    assert_eq!(parse("  "), "invalid bind address ``: host is empty");
    assert_eq!(parse(":80"), "invalid bind address `:80`: host is empty");
    assert_eq!(parse("[]:80"), "invalid bind address `[]:80`: host is empty");
    assert_eq!(parse("[::1"), "invalid bind address `[::1`");
    assert_eq!(parse("[::1]80"), "invalid bind address `[::1]80`");
    assert_eq!(parse("host:"), "invalid bind address `host:`: port is empty");
    assert_eq!(parse("host:65536"), "invalid bind address `host:65536`: expected a valid port");
    assert_eq!(parse("host:x"), "invalid bind address `host:x`: expected a valid port");
    assert_eq!(parse("host:-1"), "invalid bind address `host:-1`: expected a valid port");
}

#[test]
fn endpoint_ports_are_read_as_numbers_are() {
    let parse = |value: &str| Endpoint::parse_with_default(value, "endpoint", 7).unwrap();
    assert_eq!(parse("host: 080 ").port, 80);
    assert_eq!(parse("host:+81").port, 81);
    assert_eq!(parse("host:65535").port, 65535);
    assert_eq!(parse("[::1]").port, 7);
    assert_eq!(parse("fe80::1").host, "fe80::1");
    assert_eq!(parse("fe80::1").port, 7);
}

#[test]
fn endpoint_text_reads_back() {
    for host in ["printer.local", "fe80::1", "a]b", "x[y"] {
        let endpoint = Endpoint::new(host.to_owned(), 1234);
        assert_eq!(endpoint.to_string().parse::<Endpoint>().unwrap(), endpoint);
    }
}

#[test]
fn local_device_errors_name_what_is_wrong() {
    let parse = |value: &str| value.parse::<LocalDeviceConfig>().unwrap_err();
    assert_eq!(parse(" \n"), "local device must not be empty");
    assert_eq!(parse(",code"), "invalid local device `,code`: host is empty");
    assert_eq!(parse("host,c\u{f6}de"), "invalid local device `host,c\u{f6}de`: access code must be ASCII");
    assert_eq!(
        local_device_format_error("x"),
        "invalid local device `x`: expected HOST[:PORT][,ACCESS_CODE[,NAME]]"
    );
    assert_eq!(local_device_config("host,,a,b").name.as_deref(), Some("a,b"));
}

#[test]
fn cloud_device_errors_name_what_is_wrong() {
    let parse = |value: &str| value.parse::<CloudDeviceConfig>().unwrap_err();
    assert_eq!(parse(""), "cloud device must not be empty");
    assert_eq!(parse(" ,12345678"), "invalid cloud device `,12345678`: device id is empty");
    let device: CloudDeviceConfig = " printer-a , , Office".parse().unwrap();
    assert_eq!(device.to_string(), "printer-a");
    assert_eq!(device.access_code, None);
    let entry = device.cloud_device();
    assert_eq!(entry.id.as_deref(), Some("printer-a"));
    assert_eq!(entry.name.as_deref(), Some("Office"));
    assert_eq!(entry.online, Some(true));
}

#[test]
fn local_device_takes_over_what_is_missing() {
    let mut device: LocalDevice = local_device_config("fe80::1").into_device("printer-a".to_owned());
    assert_eq!(device.to_string(), "printer-a=[fe80::1]:8883");
    assert_eq!(local_device_config("host:1").mqtt_endpoint(), Endpoint::new("host".to_owned(), 1));
    let metadata = CloudDevice {
        name: Some("Office".to_owned()),
        access_code: Some("12345678".to_owned()),
        ..CloudDevice::default()
    };
    device.merge_cloud_metadata(&metadata);
    assert_eq!(device.name.as_deref(), Some("Office"));
    assert_eq!(device.access_code.as_deref(), Some("12345678"));
    device.merge_cloud_metadata(&CloudDevice {
        name: Some("Garage".to_owned()),
        access_code: Some("87654321".to_owned()),
        ..CloudDevice::default()
    });
    assert_eq!(device.name.as_deref(), Some("Office"));
    assert_eq!(device.access_code.as_deref(), Some("12345678"));
    let entry = device.cloud_device();
    assert_eq!(entry.id.as_deref(), Some("printer-a"));
    assert_eq!(entry.online, Some(true));
    assert_eq!(entry.access_code.as_deref(), Some("12345678"));
}
