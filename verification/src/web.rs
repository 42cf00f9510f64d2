//! What the server answers.
use crate::bambu::models::CloudDevice;
use crate::bambu::{MQTT_HOST, MQTT_PORT};
use crate::config::DeviceConfig;
use crate::devices::DeviceSource;
use crate::local::{Endpoint, LocalDeviceConfig, MqttEndpoint};
use crate::table::NameSet;
use crate::text;
use crate::video;
use crate::video::VideoEndpoint;
use std::collections::BTreeMap;
use vstd::prelude::*;

verus! {

/// The host at which the server listens.
pub const DEFAULT_HOST: &'static str = "127.0.0.1";

/// The port at which the server listens.
pub const DEFAULT_PORT: u16 = 8765;

/// How the server is configured.
#[derive(Debug, Clone)]
pub struct ServerConfig {
    pub bind: Endpoint,
    pub cloud_mqtt: MqttEndpoint,
    pub no_cloud_enum: bool,
    pub local_devices: Vec<LocalDeviceConfig>,
    pub cloud_devices: Vec<DeviceConfig>,
    pub video_endpoints: Vec<VideoEndpoint>,
}

impl Default for ServerConfig {
    fn default() -> (r: Self)
        ensures
            r.bind.host@ == DEFAULT_HOST@,
            r.bind.port == DEFAULT_PORT,
            r.cloud_mqtt.host@ == MQTT_HOST@,
            r.cloud_mqtt.port == MQTT_PORT,
            !r.no_cloud_enum,
            r.local_devices@.len() == 0,
            r.cloud_devices@.len() == 0,
            r.video_endpoints@.len() == 0,
    {
        ServerConfig {
            bind: Endpoint::new(DEFAULT_HOST.to_owned(), DEFAULT_PORT),
            cloud_mqtt: Endpoint::new(MQTT_HOST.to_owned(), MQTT_PORT),
            no_cloud_enum: false,
            local_devices: Vec::new(),
            cloud_devices: Vec::new(),
            video_endpoints: Vec::new(),
        }
    }
}

// ---------------------------------------------------------------------------
// Query values
// ---------------------------------------------------------------------------

/// Whether a byte stands for itself in a query value.
pub open spec fn unreserved(byte: u8) -> bool {
    ||| 0x41 <= byte <= 0x5a
    ||| 0x61 <= byte <= 0x7a
    ||| 0x30 <= byte <= 0x39
    ||| byte == 0x2d
    ||| byte == 0x2e
    ||| byte == 0x5f
    ||| byte == 0x7e
}

/// The hexadecimal digit, in upper case, of a number below sixteen.
pub open spec fn hex_digit(nibble: int) -> char {
    if nibble < 10 {
        (0x30 + nibble) as char
    } else {
        (0x41 + nibble - 10) as char
    }
}

/// A byte as it stands in a query value: itself, or a percent sign and two hexadecimal digits.
pub open spec fn encoded_byte(byte: u8) -> Seq<char> {
    if unreserved(byte) {
        seq![byte as char]
    } else {
        seq!['%', hex_digit(byte as int / 16), hex_digit(byte as int % 16)]
    }
}

/// Bytes as they stand in a query value.
pub open spec fn encoded(bytes: Seq<u8>) -> Seq<char>
    decreases bytes.len(),
{
    if bytes.len() == 0 {
        Seq::empty()
    } else {
        encoded(bytes.drop_last()) + encoded_byte(bytes.last())
    }
}

/// A text as it stands in a query value: its UTF-8 encoding, byte by byte.
pub open spec fn query_value(value: Seq<char>) -> Seq<char> {
    encoded(vstd::utf8::encode_utf8(value))
}

/// The hexadecimal digit, in upper case, of a number below sixteen.
pub fn hex(nibble: u8) -> (r: char)
    requires
        nibble < 16,
    ensures
        r == hex_digit(nibble as int),
{
    if nibble < 10 {
        (0x30 + nibble) as char
    } else {
        (0x41 + (nibble - 10)) as char
    }
}

/// A text as it stands in a query value.
pub fn encode_query_value(value: &str) -> (r: String)
    ensures
        r@ == query_value(value@),
{
    let bytes = value.as_bytes();
    let mut out = String::new();
    let mut i: usize = 0;
    assert(bytes@.take(0) =~= Seq::<u8>::empty());
    while i < bytes.len()
        invariant
            i <= bytes@.len(),
            out@ == encoded(bytes@.take(i as int)),
        decreases bytes.len() - i,
    {
        let ghost before = out@;
        assert(bytes@.take(i + 1).drop_last() =~= bytes@.take(i as int));
        let byte = bytes[i];
        if (0x41 <= byte && byte <= 0x5a) || (0x61 <= byte && byte <= 0x7a) || (0x30 <= byte && byte
            <= 0x39) || byte == 0x2d || byte == 0x2e || byte == 0x5f || byte == 0x7e {
            out.push(byte as char);
        } else {
            out.push('%');
            out.push(hex(byte / 16));
            out.push(hex(byte % 16));
        }
        assert(out@ =~= before + encoded_byte(byte));
        i = i + 1;
    }
    assert(bytes@.take(i as int) =~= bytes@);
    out
}

/// The number of a hexadecimal digit in upper case.
pub open spec fn nibble_of(digit: char) -> Option<int> {
    if '0' <= digit <= '9' {
        Some(digit as int - 0x30)
    } else if 'A' <= digit <= 'F' {
        Some(digit as int - 0x41 + 10)
    } else {
        None
    }
}

/// The bytes that stand in a query value, if it is one.
pub open spec fn decoded(value: Seq<char>) -> Option<Seq<u8>>
    decreases value.len(),
{
    if value.len() == 0 {
        Some(Seq::empty())
    } else if value.len() >= 3 && value[value.len() - 3] == '%' {
        match (
            decoded(value.take(value.len() - 3)),
            nibble_of(value[value.len() - 2]),
            nibble_of(value[value.len() - 1]),
        ) {
            (Some(front), Some(high), Some(low)) => Some(front.push((16 * high + low) as u8)),
            _ => None,
        }
    } else if value.last() as int <= 0xff && unreserved(value.last() as u8) {
        match decoded(value.drop_last()) {
            Some(front) => Some(front.push(value.last() as u8)),
            None => None,
        }
    } else {
        None
    }
}

/// A percent sign is followed by two more characters.
proof fn lemma_escapes(bytes: Seq<u8>)
    ensures
        forall|k: int|
            0 <= k < encoded(bytes).len() && #[trigger] encoded(bytes)[k] == '%' ==> k + 2
                < encoded(bytes).len(),
    decreases bytes.len(),
{
    if bytes.len() > 0 {
        lemma_escapes(bytes.drop_last());
        let front = encoded(bytes.drop_last());
        let all = encoded(bytes);
        assert forall|k: int| 0 <= k < all.len() && #[trigger] all[k] == '%' implies k + 2
            < all.len() by {
            if k < front.len() {
                assert(all[k] == front[k]);
            } else {
                assert(all[k] == encoded_byte(bytes.last())[k - front.len()]);
            }
        }
    }
}

/// What stands in a query value can be told from it, byte by byte.
pub proof fn law_query_value_decodes(bytes: Seq<u8>)
    ensures
        decoded(encoded(bytes)) == Some(bytes),
    decreases bytes.len(),
{
    if bytes.len() > 0 {
        let rest = bytes.drop_last();
        let byte = bytes.last();
        law_query_value_decodes(rest);
        lemma_escapes(rest);
        let front = encoded(rest);
        let all = encoded(bytes);
        assert(rest.push(byte) =~= bytes);
        if unreserved(byte) {
            assert(all.drop_last() =~= front);
            assert(all.last() == byte as char);
            if all.len() >= 3 {
                assert(all[all.len() - 3] == front[front.len() - 2]);
            }
        } else {
            assert(all.take(all.len() - 3) =~= front);
            assert(all[all.len() - 3] == '%');
            assert(all[all.len() - 2] == hex_digit(byte as int / 16));
            assert(all[all.len() - 1] == hex_digit(byte as int % 16));
        }
    } else {
        assert(bytes =~= Seq::<u8>::empty());
    }
}

/// Two texts that stand in a query value the same way are the same.
pub proof fn law_query_values_differ(a: Seq<char>, b: Seq<char>)
    requires
        query_value(a) == query_value(b),
    ensures
        a == b,
{
    law_query_value_decodes(vstd::utf8::encode_utf8(a));
    law_query_value_decodes(vstd::utf8::encode_utf8(b));
    vstd::utf8::encode_utf8_decode_utf8(a);
    vstd::utf8::encode_utf8_decode_utf8(b);
}

/// A query value holds nothing but letters, digits, `-`, `.`, `_`, `~` and `%`.
pub proof fn law_query_value_is_safe(bytes: Seq<u8>)
    ensures
        forall|k: int|
            0 <= k < encoded(bytes).len() ==> #[trigger] encoded(bytes)[k] == '%' || (
            encoded(bytes)[k] as int <= 0xff && unreserved(encoded(bytes)[k] as u8)),
    decreases bytes.len(),
{
    if bytes.len() > 0 {
        law_query_value_is_safe(bytes.drop_last());
        let front = encoded(bytes.drop_last());
        let all = encoded(bytes);
        assert forall|k: int| 0 <= k < all.len() implies #[trigger] all[k] == '%' || (all[k] as int
            <= 0xff && unreserved(all[k] as u8)) by {
            if k < front.len() {
                assert(all[k] == front[k]);
            } else {
                assert(all[k] == encoded_byte(bytes.last())[k - front.len()]);
            }
        }
    }
}

// ---------------------------------------------------------------------------
// The catalog
// ---------------------------------------------------------------------------

/// Where the pages and the stream of a device are.
#[derive(Debug)]
pub struct KnownDevicePaths {
    pub horizontal: Option<String>,
    pub vertical: Option<String>,
    pub video: Option<String>,
}

/// What is told of a device.
#[derive(Debug)]
pub struct KnownDevicePayload {
    pub id: Option<String>,
    pub name: Option<String>,
    pub online: Option<bool>,
    pub source: DeviceSource,
    pub paths: KnownDevicePaths,
}

/// What is told of the devices.
#[derive(Debug)]
pub struct KnownDevicesPayload {
    pub devices: Vec<KnownDevicePayload>,
}

/// The devices that are served, those of them that are local and those that have a camera.
#[derive(Debug)]
pub struct KnownDevices {
    pub devices: Vec<CloudDevice>,
    pub local_ids: NameSet,
    pub probed_video_ids: NameSet,
}

/// The view of the paths of a device.
pub struct PathsView {
    pub horizontal: Option<Seq<char>>,
    pub vertical: Option<Seq<char>>,
    pub video: Option<Seq<char>>,
}

impl View for KnownDevicePaths {
    type V = PathsView;

    open spec fn view(&self) -> PathsView {
        PathsView {
            horizontal: text::chars(self.horizontal),
            vertical: text::chars(self.vertical),
            video: text::chars(self.video),
        }
    }
}

/// The view of what is told of a device.
pub struct DevicePayloadView {
    pub id: Option<Seq<char>>,
    pub name: Option<Seq<char>>,
    pub online: Option<bool>,
    pub source: DeviceSource,
    pub paths: PathsView,
}

impl View for KnownDevicePayload {
    type V = DevicePayloadView;

    open spec fn view(&self) -> DevicePayloadView {
        DevicePayloadView {
            id: text::chars(self.id),
            name: text::chars(self.name),
            online: self.online,
            source: self.source,
            paths: self.paths@,
        }
    }
}

/// Where the pages and the stream of a device are: none, where it has no id.
pub open spec fn paths_of(device_id: Option<Seq<char>>, has_video: bool) -> PathsView {
    match device_id {
        None => PathsView { horizontal: None, vertical: None, video: None },
        Some(id) => {
            let query = "device="@ + query_value(id);
            PathsView {
                horizontal: Some("/overlay?"@ + query),
                vertical: Some("/vertical?"@ + query),
                video: if has_video {
                    Some("/api/video.mjpeg?"@ + query)
                } else {
                    None
                },
            }
        },
    }
}

/// Where the pages and the stream of a device are.
pub fn device_paths(device_id: Option<&str>, has_video: bool) -> (r: KnownDevicePaths)
    ensures
        r@ == paths_of(
            match device_id {
                Some(id) => Some(id@),
                None => None,
            },
            has_video,
        ),
{
    let device_id = match device_id {
        Some(device_id) => device_id,
        None => return KnownDevicePaths { horizontal: None, vertical: None, video: None },
    };
    let query = "device=".to_owned().concat(encode_query_value(device_id).as_str());
    KnownDevicePaths {
        horizontal: Some("/overlay?".to_owned().concat(query.as_str())),
        vertical: Some("/vertical?".to_owned().concat(query.as_str())),
        video: if has_video {
            Some("/api/video.mjpeg?".to_owned().concat(query.as_str()))
        } else {
            None
        },
    }
}

/// What is told of `device`, where `locals` are local and `cameras` have a camera. Its code is not
/// told; there is a stream only where there is a code and a camera.
pub open spec fn told(
    device: CloudDevice,
    locals: Set<Seq<char>>,
    cameras: Set<Seq<char>>,
) -> DevicePayloadView {
    let id = text::chars(device.id);
    DevicePayloadView {
        id,
        name: text::chars(device.name),
        online: device.online,
        source: if id is Some && locals.contains(id->0) {
            DeviceSource::Local
        } else {
            DeviceSource::Cloud
        },
        paths: paths_of(
            id,
            text::present(device.access_code) && id is Some && cameras.contains(id->0),
        ),
    }
}

impl KnownDevices {
    /// What is told of `device`, where `runtime_video_ids` turned out to have a camera.
    pub fn device(&self, device: &CloudDevice, runtime_video_ids: &NameSet) -> (r:
        KnownDevicePayload)
        ensures
            r@ == told(
                *device,
                self.local_ids@,
                self.probed_video_ids@.union(runtime_video_ids@),
            ),
    {
        let source = match &device.id {
            Some(id) => if self.local_ids.contains(id.as_str()) {
                DeviceSource::Local
            } else {
                DeviceSource::Cloud
            },
            None => DeviceSource::Cloud,
        };
        let has_access_code = text::is_present(&device.access_code);
        let has_video = match &device.id {
            Some(id) => self.probed_video_ids.contains(id.as_str()) || runtime_video_ids.contains(
                id.as_str(),
            ),
            None => false,
        };
        let device_id = match &device.id {
            Some(id) => Some(id.as_str()),
            None => None,
        };
        KnownDevicePayload {
            id: device.id.clone(),
            name: device.name.clone(),
            online: device.online,
            source,
            paths: device_paths(device_id, has_access_code && has_video),
        }
    }

    /// What is told of the devices, in order.
    pub fn payload(&self, runtime_video_ids: &NameSet) -> (r: KnownDevicesPayload)
        ensures
            r.devices@.len() == self.devices@.len(),
            forall|i: int|
                0 <= i < r.devices@.len() ==> (#[trigger] r.devices@[i])@ == told(
                    self.devices@[i],
                    self.local_ids@,
                    self.probed_video_ids@.union(runtime_video_ids@),
                ),
    {
        let mut devices: Vec<KnownDevicePayload> = Vec::new();
        let mut i: usize = 0;
        while i < self.devices.len()
            invariant
                i <= self.devices@.len(),
                devices@.len() == i,
                forall|k: int|
                    0 <= k < i ==> (#[trigger] devices@[k])@ == told(
                        self.devices@[k],
                        self.local_ids@,
                        self.probed_video_ids@.union(runtime_video_ids@),
                    ),
            decreases self.devices.len() - i,
        {
            devices.push(self.device(&self.devices[i], runtime_video_ids));
            i = i + 1;
        }
        KnownDevicesPayload { devices }
    }
}

/// What is told of a device does not depend on its code, but for whether there is one.
pub proof fn law_codes_are_not_told(
    device: CloudDevice,
    access_code: Option<String>,
    locals: Set<Seq<char>>,
    cameras: Set<Seq<char>>,
)
    requires
        text::present(access_code) == text::present(device.access_code),
    ensures
        told(CloudDevice { access_code, ..device }, locals, cameras) == told(
            device,
            locals,
            cameras,
        ),
{
}

/// A stream is told of exactly where the device has an id, a code and a camera.
pub proof fn law_video_is_told_where_it_works(
    device: CloudDevice,
    locals: Set<Seq<char>>,
    cameras: Set<Seq<char>>,
)
    ensures
        told(device, locals, cameras).paths.video is Some <==> device.id is Some && text::present(
            device.access_code,
        ) && cameras.contains(device.id->0@),
{
}

// ---------------------------------------------------------------------------
// Pages
// ---------------------------------------------------------------------------

/// A file that the pages need.
#[derive(Debug, Clone, Copy, PartialEq, Eq, Structural)]
pub enum Asset {
    CommonCss,
    HorizontalCss,
    VerticalCss,
    OverlayJs,
}

/// The file that has the given name.
pub open spec fn asset_named(file: Seq<char>) -> Option<Asset> {
    if file == "common.css"@ {
        Some(Asset::CommonCss)
    } else if file == "horizontal.css"@ {
        Some(Asset::HorizontalCss)
    } else if file == "vertical.css"@ {
        Some(Asset::VerticalCss)
    } else if file == "overlay.js"@ {
        Some(Asset::OverlayJs)
    } else {
        None
    }
}

/// The file that has the given name.
pub fn static_asset(file: &str) -> (r: Option<Asset>)
    ensures
        r == asset_named(file@),
{
    if text::same(file, "common.css") {
        Some(Asset::CommonCss)
    } else if text::same(file, "horizontal.css") {
        Some(Asset::HorizontalCss)
    } else if text::same(file, "vertical.css") {
        Some(Asset::VerticalCss)
    } else if text::same(file, "overlay.js") {
        Some(Asset::OverlayJs)
    } else {
        None
    }
}

impl Asset {
    /// The media type of the file.
    pub fn content_type(self) -> (r: &'static str)
        ensures
            r@ == (if self == Asset::OverlayJs {
                "application/javascript; charset=utf-8"@
            } else {
                "text/css; charset=utf-8"@
            }),
    {
        match self {
            Asset::OverlayJs => "application/javascript; charset=utf-8",
            _ => "text/css; charset=utf-8",
        }
    }
}

/// The template of the page of the overlay.
pub const OVERLAY_HTML: &'static str = r#"<!doctype html>
<html lang="en">
<head>
<meta charset="utf-8">
<title>Bambu overlay</title>
<link rel="stylesheet" href="/static/common.css">
<link rel="stylesheet" href="/static/{{ view_mode }}.css">
</head>
<body class="{{ view_mode }}">
<main id="overlay"></main>
<script id="config" type="application/json">{{ config_json|safe }}</script>
<script src="/static/overlay.js"></script>
</body>
</html>
"#;

/// The page that `minijinja` makes of a template with two values in its context, or what it says
/// of it.
pub uninterp spec fn page(
    name: Seq<char>,
    template: Seq<char>,
    first_key: Seq<char>,
    first_value: Seq<char>,
    second_key: Seq<char>,
    second_value: Seq<char>,
) -> Result<Seq<char>, Seq<char>>;

/// `minijinja::Template::render`, with `template` added to a new `minijinja::Environment` under
/// `name` and got from it, and with the two entries, each a key and a value, as its context. What
/// comes of it, or is said of it, is left to `minijinja`. There are templates on which that panics,
/// so this takes [`OVERLAY_HTML`] alone.
#[verifier::external_body]
fn render(name: &str, template: &str, first: (&str, &str), second: (&str, &str)) -> (r: Result<
    String,
    String,
>)
    requires
        template@ == OVERLAY_HTML@,
    ensures
        text_result(r) == page(
            name@,
            template@,
            first.0@,
            first.1@,
            second.0@,
            second.1@,
        ),
{
    let mut env = minijinja::Environment::new();
    env.add_template(name, template).map_err(|error| error.to_string())?;
    let found = env.get_template(name).map_err(|error| error.to_string())?;
    found.render(BTreeMap::from([first, second])).map_err(|error| error.to_string())
}

/// The view of a text or of what is said instead of one.
pub open spec fn text_result(r: Result<String, String>) -> Result<Seq<char>, Seq<char>> {
    match r {
        Ok(page) => Ok(page@),
        Err(message) => Err(message@),
    }
}

/// Whether a character stands for itself in a JSON string.
pub open spec fn plain(s: Seq<char>) -> bool {
    forall|i: int| 0 <= i < s.len() ==> #[trigger] s[i] >= ' ' && s[i] != '"' && s[i] != '\\'
}

/// The JSON object whose only member is `value`, under `key`.
pub open spec fn json_entry(key: Seq<char>, value: Seq<char>) -> Seq<char> {
    "{\""@ + key + "\":\""@ + value + "\"}"@
}

/// `serde_json::to_string` of a map with one entry: an object with one member and no white space.
#[verifier::external_body]
fn write_json_entry(key: &str, value: &str) -> (r: Result<String, String>)
    requires
        plain(key@),
        plain(value@),
    ensures
        r is Ok,
        r->Ok_0@ == json_entry(key@, value@),
{
    serde_json::to_string(&BTreeMap::from([(key, value)])).map_err(|error| error.to_string())
}

/// The layout that `view_mode` names: `horizontal`, unless it is `vertical`.
pub open spec fn layout(view_mode: Seq<char>) -> Seq<char> {
    if view_mode == "vertical"@ {
        "vertical"@
    } else {
        "horizontal"@
    }
}

/// The page of the overlay, in the layout that `view_mode` names.
pub fn render_overlay(view_mode: &str) -> (r: Result<String, String>)
    ensures
        text_result(r) == page(
            "overlay.html"@,
            OVERLAY_HTML@,
            "view_mode"@,
            layout(view_mode@),
            "config_json"@,
            json_entry("eventsUrl"@, "/api/current-print/events"@),
        ),
{
    let view_mode = if text::same(view_mode, "vertical") {
        "vertical"
    } else {
        "horizontal"
    };
    proof {
        reveal_strlit("eventsUrl");
        reveal_strlit("/api/current-print/events");
    }
    let config_json = match write_json_entry("eventsUrl", "/api/current-print/events") {
        Ok(config_json) => config_json,
        Err(message) => return Err(message),
    };
    render(
        "overlay.html",
        OVERLAY_HTML,
        ("view_mode", view_mode),
        ("config_json", config_json.as_str()),
    )
}

// ---------------------------------------------------------------------------
// Other answers
// ---------------------------------------------------------------------------

/// An answer in plain text.
#[derive(Debug)]
pub struct TextAnswer {
    pub status: u16,
    pub content_type: &'static str,
    pub body: String,
}

/// The answer where a page could not be made.
pub fn render_error(error: String) -> (r: TextAnswer)
    ensures
        r.status == 500,
        r.content_type@ == "text/plain; charset=utf-8"@,
        r.body == error,
{
    TextAnswer { status: 500, content_type: "text/plain; charset=utf-8", body: error }
}

/// The answer where there is no stream to subscribe to.
pub fn video_unavailable(error: String) -> (r: TextAnswer)
    ensures
        r.status == 503,
        r.content_type@ == "text/plain; charset=utf-8"@,
        r.body == error,
{
    TextAnswer { status: 503, content_type: "text/plain; charset=utf-8", body: error }
}

/// The headers of a stream: its media type, and that it is not to be kept.
pub fn video_headers() -> (r: Vec<(&'static str, String)>)
    ensures
        r@.len() == 3,
        r@[0].0@ == "content-type"@,
        r@[0].1@ == "multipart/x-mixed-replace; boundary="@ + video::MJPEG_BOUNDARY@,
        r@[1].0@ == "cache-control"@,
        r@[1].1@ == "no-store"@,
        r@[2].0@ == "pragma"@,
        r@[2].1@ == "no-cache"@,
{
    let mut headers: Vec<(&'static str, String)> = Vec::new();
    headers.push(("content-type", video::mjpeg_content_type()));
    headers.push(("cache-control", "no-store".to_owned()));
    headers.push(("pragma", "no-cache".to_owned()));
    headers
}

/// What a client of a stream receives.
#[derive(Debug, Clone, Copy, PartialEq, Eq, Structural)]
pub enum Received {
    /// A part.
    Part,
    /// Word that so many parts were missed.
    Lagged(u64),
    /// Word that there are no more parts.
    Closed,
}

/// What is done with what a client of a stream receives.
#[derive(Debug, Clone, Copy, PartialEq, Eq, Structural)]
pub enum Relay {
    /// The part is passed on.
    Pass,
    /// That parts were missed is noted, and the stream goes on.
    Skip(u64),
    /// The stream ends.
    End,
}

/// What is done with what a client of a stream receives: missed parts do not end the stream.
pub fn relay(received: Received) -> (r: Relay)
    ensures
        r == match received {
            Received::Part => Relay::Pass,
            Received::Lagged(skipped) => Relay::Skip(skipped),
            Received::Closed => Relay::End,
        },
{
    match received {
        Received::Part => Relay::Pass,
        Received::Lagged(skipped) => Relay::Skip(skipped),
        Received::Closed => Relay::End,
    }
}

// ---------------------------------------------------------------------------
// What every answer keeps to
// ---------------------------------------------------------------------------

/// What is told of each device, in order, is its own id, name and state, whether it is local, and
/// where its pages are; and where its stream is, where it has an id, a code that is not blank, and a
/// camera that was found at startup or since.
pub proof fn law_devices_are_told_of(
    known: &KnownDevices,
    runtime_video_ids: &NameSet,
    r: KnownDevicesPayload,
    i: int,
)
    requires
        call_ensures(KnownDevices::payload, (known, runtime_video_ids), r),
        0 <= i < known.devices@.len(),
    ensures
        r.devices@.len() == known.devices@.len(),
        ({
            let device = known.devices@[i];
            let told = r.devices@[i];
            &&& told.id is Some <==> device.id is Some
            &&& told.id is Some ==> told.id->0@ == device.id->0@
            &&& told.name is Some <==> device.name is Some
            &&& told.name is Some ==> told.name->0@ == device.name->0@
            &&& told.online == device.online
            &&& told.source == DeviceSource::Local <==> device.id is Some
                && known.local_ids@.contains(device.id->0@)
            &&& told.source == DeviceSource::Cloud <==> device.id is None
                || !known.local_ids@.contains(device.id->0@)
            &&& device.id is None ==> told.paths.horizontal is None && told.paths.vertical is None
                && told.paths.video is None
            &&& device.id is Some ==> {
                let query = "device="@ + query_value(device.id->0@);
                let camera = known.probed_video_ids@.contains(device.id->0@)
                    || runtime_video_ids@.contains(device.id->0@);
                let opens = device.access_code is Some && text::has_text(device.access_code->0@);
                &&& told.paths.horizontal is Some && told.paths.horizontal->0@ == "/overlay?"@
                    + query
                &&& told.paths.vertical is Some && told.paths.vertical->0@ == "/vertical?"@ + query
                &&& told.paths.video is Some <==> camera && opens
                &&& told.paths.video is Some ==> told.paths.video->0@ == "/api/video.mjpeg?"@
                    + query
            }
        }),
{
    assert(r.devices@[i]@ == told(
        known.devices@[i],
        known.local_ids@,
        known.probed_video_ids@.union(runtime_video_ids@),
    ));
}

/// In a query value, letters, digits, hyphens, dots, underscores and tildes stand for themselves, and
/// each other byte is a percent sign and its two hexadecimal digits, the high one first and in upper
/// case.
pub proof fn law_bytes_are_escaped(bytes: Seq<u8>, byte: u8)
    ensures
        ({
            let letter = 65 <= byte <= 90 || 97 <= byte <= 122;
            let plain = letter || 48 <= byte <= 57 || byte == 45 || byte == 46 || byte == 95 || byte
                == 126;
            let after = encoded(bytes.push(byte));
            let high = byte as int / 16;
            let low = byte as int % 16;
            &&& plain ==> after == encoded(bytes).push(byte as char)
            &&& !plain ==> {
                &&& after.len() == encoded(bytes).len() + 3
                &&& after.take(after.len() - 3) == encoded(bytes)
                &&& after[after.len() - 3] == '%'
                &&& after[after.len() - 2] as int == (if high < 10 {
                    48 + high
                } else {
                    55 + high
                })
                &&& after[after.len() - 1] as int == (if low < 10 {
                    48 + low
                } else {
                    55 + low
                })
            }
        }),
        encoded(Seq::empty()).len() == 0,
{
    assert(bytes.push(byte).drop_last() =~= bytes);
    let after = encoded(bytes.push(byte));
    if unreserved(byte) {
        assert(after =~= encoded(bytes).push(byte as char));
    } else {
        assert(after.take(after.len() - 3) =~= encoded(bytes));
    }
}

/// Each file has its name, and style sheets and scripts have their types.
pub proof fn law_files_have_names_and_types(
    file: &str,
    r: Option<Asset>,
    asset: Asset,
    kind: &'static str,
)
    requires
        call_ensures(static_asset, (file,), r),
        call_ensures(Asset::content_type, (asset,), kind),
    ensures
        file@ == "common.css"@ ==> r == Some(Asset::CommonCss),
        file@ == "horizontal.css"@ ==> r == Some(Asset::HorizontalCss),
        file@ == "vertical.css"@ ==> r == Some(Asset::VerticalCss),
        file@ == "overlay.js"@ ==> r == Some(Asset::OverlayJs),
        r == Some(Asset::CommonCss) ==> file@ == "common.css"@,
        r == Some(Asset::HorizontalCss) ==> file@ == "horizontal.css"@,
        r == Some(Asset::VerticalCss) ==> file@ == "vertical.css"@,
        r == Some(Asset::OverlayJs) ==> file@ == "overlay.js"@,
        asset is OverlayJs ==> kind@ == "application/javascript; charset=utf-8"@,
        !(asset is OverlayJs) ==> kind@ == "text/css; charset=utf-8"@,
{
    reveal_strlit("common.css");
    reveal_strlit("horizontal.css");
    reveal_strlit("vertical.css");
    reveal_strlit("overlay.js");
    assert("common.css"@[0] == 'c' && "overlay.js"@[0] == 'o');
    assert("common.css"@.len() == 10 && "horizontal.css"@.len() == 14 && "vertical.css"@.len()
        == 12);
}

/// The page is made of its template in the vertical layout where that is asked for, and else in the
/// horizontal one, and is told where its events come from.
pub proof fn law_page_is_in_its_layout(view_mode: &str, r: Result<String, String>)
    requires
        call_ensures(render_overlay, (view_mode,), r),
    ensures
        view_mode@ == "vertical"@ ==> text_result(r) == page(
            "overlay.html"@,
            OVERLAY_HTML@,
            "view_mode"@,
            "vertical"@,
            "config_json"@,
            "{\"eventsUrl\":\"/api/current-print/events\"}"@,
        ),
        view_mode@ != "vertical"@ ==> text_result(r) == page(
            "overlay.html"@,
            OVERLAY_HTML@,
            "view_mode"@,
            "horizontal"@,
            "config_json"@,
            "{\"eventsUrl\":\"/api/current-print/events\"}"@,
        ),
{
    reveal_strlit("{\"eventsUrl\":\"/api/current-print/events\"}");
    reveal_strlit("{\"");
    reveal_strlit("eventsUrl");
    reveal_strlit("\":\"");
    reveal_strlit("/api/current-print/events");
    reveal_strlit("\"}");
    assert(json_entry("eventsUrl"@, "/api/current-print/events"@)
        =~= "{\"eventsUrl\":\"/api/current-print/events\"}"@);
}

/// A page that cannot be made is an error of the server, and a stream that is not there is not
/// available; each is answered with what is said of it, in plain text.
pub proof fn law_failures_are_answered(error: String, page: TextAnswer, stream: TextAnswer)
    requires
        call_ensures(render_error, (error,), page),
        call_ensures(video_unavailable, (error,), stream),
    ensures
        page.status == 500,
        stream.status == 503,
        page.body@ == error@,
        stream.body@ == error@,
        page.content_type@ == "text/plain; charset=utf-8"@,
        stream.content_type@ == "text/plain; charset=utf-8"@,
{
}

/// Parts are passed on, missed ones are counted and passed over, and the stream ends where there are
/// no more.
pub proof fn law_parts_are_relayed(skipped: u64, part: Relay, lagged: Relay, closed: Relay)
    requires
        call_ensures(relay, (Received::Part,), part),
        call_ensures(relay, (Received::Lagged(skipped),), lagged),
        call_ensures(relay, (Received::Closed,), closed),
    ensures
        part == Relay::Pass,
        lagged == Relay::Skip(skipped),
        closed == Relay::End,
{
}

/// The server listens at its own machine, and to the broker of the service, unless told otherwise.
pub proof fn law_server_listens_at_home()
    ensures
        DEFAULT_HOST@ == "127.0.0.1"@,
        DEFAULT_PORT == 8765,
        MQTT_HOST@ == "us.mqtt.bambulab.com"@,
        MQTT_PORT == 8883,
{
}

} // verus!
