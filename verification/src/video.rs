//! The camera of a printer: how it is addressed, opened and passed on as MJPEG.
use crate::bambu::models::CloudDevice;
use crate::cloud;
use crate::local;
use crate::local::Endpoint;
use crate::text;
use bytes::Bytes;
use std::str::FromStr;
use vstd::prelude::*;

pub mod choice;
pub mod stream;

verus! {

/// The port of a printer's video server.
pub const DEFAULT_VIDEO_PORT: u16 = 6000;

/// The size of the largest frame that is read.
pub const MAX_FRAME_SIZE: usize = 16_777_216;

/// What separates the frames of a stream.
pub const MJPEG_BOUNDARY: &'static str = "frame";

// ---------------------------------------------------------------------------
// Endpoints
// ---------------------------------------------------------------------------

/// Where the camera of a printer is, and the code that opens it, where one was given.
#[derive(Debug, PartialEq, Eq)]
pub struct VideoEndpoint {
    pub endpoint: Endpoint,
    pub access_code: Option<String>,
}

impl Clone for VideoEndpoint {
    fn clone(&self) -> (r: Self)
        ensures
            r == *self,
    {
        VideoEndpoint { endpoint: self.endpoint.clone(), access_code: self.access_code.clone() }
    }
}

/// The view of a video endpoint.
pub struct VideoEndpointView {
    pub host: Seq<char>,
    pub port: u16,
    pub access_code: Option<Seq<char>>,
}

impl View for VideoEndpoint {
    type V = VideoEndpointView;

    open spec fn view(&self) -> VideoEndpointView {
        VideoEndpointView {
            host: self.endpoint.host@,
            port: self.endpoint.port,
            access_code: text::chars(self.access_code),
        }
    }
}

/// The video endpoint that `value`, without white space around it, writes as
/// `HOST[:PORT][,ACCESS_CODE]`, or what is said of it.
pub open spec fn video_endpoint_of(value: Seq<char>) -> Result<VideoEndpointView, Seq<char>> {
    let fields = text::fields_of(value, 2, ',');
    match local::endpoint_of(
        text::trimmed(fields[0]),
        value,
        "video device"@,
        DEFAULT_VIDEO_PORT,
    ) {
        Err(message) => Err(message),
        Ok((host, port)) => Ok(
            VideoEndpointView { host, port, access_code: local::field_at(fields, 1) },
        ),
    }
}

impl VideoEndpoint {
    /// The camera at `endpoint`.
    pub fn new(endpoint: Endpoint, access_code: Option<String>) -> (r: Self)
        ensures
            r == (VideoEndpoint { endpoint, access_code }),
    {
        VideoEndpoint { endpoint, access_code }
    }

    /// The code that opens the camera, where one was given.
    pub fn access_code(&self) -> (r: Option<&str>)
        ensures
            match r {
                Some(code) => self.access_code matches Some(given) && code@ == given@,
                None => self.access_code is None,
            },
    {
        match &self.access_code {
            Some(code) => Some(code.as_str()),
            None => None,
        }
    }

    /// The text of the endpoint. The code is not part of it.
    pub fn to_string(&self) -> (r: String)
        ensures
            r@ == local::endpoint_text(self.endpoint.host@, self.endpoint.port),
    {
        self.endpoint.to_string()
    }

    /// The video endpoint that `value` writes.
    pub fn parse(value: &str) -> (r: Result<Self, String>)
        ensures
            match r {
                Ok(endpoint) => video_endpoint_of(text::trimmed(value@)) == Ok::<
                    VideoEndpointView,
                    Seq<char>,
                >(endpoint@),
                Err(message) => video_endpoint_of(text::trimmed(value@)) == Err::<
                    VideoEndpointView,
                    Seq<char>,
                >(message@),
            },
    {
        let value = text::trim(value);
        let fields = text::splitn(value, 2, ',');
        assert(text::views(fields@).len() == fields@.len());
        assert(text::views(fields@)[0] == fields@[0]@);
        let endpoint = match local::parse_endpoint(
            text::trim(fields[0]),
            value,
            "video device",
            DEFAULT_VIDEO_PORT,
        ) {
            Ok(endpoint) => endpoint,
            Err(message) => return Err(message),
        };
        let access_code = local::optional_field(&fields, 1);
        Ok(VideoEndpoint { endpoint, access_code })
    }

    /// Whether this is the same place, opened by the same code, as `other`.
    pub fn is_same(&self, other: &VideoEndpoint) -> (r: bool)
        ensures
            r == (self@ == other@),
    {
        let same_code = match (&self.access_code, &other.access_code) {
            (Some(a), Some(b)) => text::same(a.as_str(), b.as_str()),
            (None, None) => true,
            _ => false,
        };
        same_code && self.endpoint.port == other.endpoint.port && text::same(
            self.endpoint.host.as_str(),
            other.endpoint.host.as_str(),
        )
    }
}

impl FromStr for VideoEndpoint {
    type Err = String;

    fn from_str(value: &str) -> (r: Result<Self, String>)
        ensures
            match r {
                Ok(endpoint) => video_endpoint_of(text::trimmed(value@)) == Ok::<
                    VideoEndpointView,
                    Seq<char>,
                >(endpoint@),
                Err(message) => video_endpoint_of(text::trimmed(value@)) == Err::<
                    VideoEndpointView,
                    Seq<char>,
                >(message@),
            },
    {
        VideoEndpoint::parse(value)
    }
}

/// Where the one camera of an account is, where it is known.
#[derive(Debug)]
pub struct VideoConfig {
    pub host: Option<String>,
    pub port: u16,
}

impl Clone for VideoConfig {
    fn clone(&self) -> (r: Self)
        ensures
            r == *self,
    {
        VideoConfig { host: self.host.clone(), port: self.port }
    }
}

impl Default for VideoConfig {
    fn default() -> (r: Self)
        ensures
            r.host is None,
            r.port == DEFAULT_VIDEO_PORT,
    {
        VideoConfig { host: None, port: DEFAULT_VIDEO_PORT }
    }
}

/// The host without white space around it, where there is anything else to it.
pub open spec fn host_of(config: VideoConfig) -> Option<Seq<char>> {
    match config.host {
        Some(host) => if text::has_text(host@) {
            Some(text::trimmed(host@))
        } else {
            None
        },
        None => None,
    }
}

/// What is said where no host is configured.
pub open spec fn disabled() -> Seq<char> {
    "video stream is disabled; set --video-device to the printer IP or hostname"@
}

/// What is said where no host is configured.
pub fn disabled_message() -> (r: String)
    ensures
        r@ == disabled(),
{
    "video stream is disabled; set --video-device to the printer IP or hostname".to_owned()
}

impl VideoConfig {
    /// The configuration for the camera at `endpoint`, where there is one.
    pub fn at(endpoint: Option<&VideoEndpoint>) -> (r: Self)
        ensures
            match endpoint {
                Some(place) => r.host == Some(place.endpoint.host) && r.port
                    == place.endpoint.port,
                None => r.host is None && r.port == DEFAULT_VIDEO_PORT,
            },
    {
        match endpoint {
            Some(place) => VideoConfig {
                host: Some(place.endpoint.host.clone()),
                port: place.endpoint.port,
            },
            None => VideoConfig::default(),
        }
    }

    /// The host without white space around it, where there is anything else to it.
    pub fn video_host(&self) -> (r: Option<&str>)
        ensures
            match r {
                Some(host) => host_of(*self) == Some(host@),
                None => host_of(*self) is None,
            },
    {
        match &self.host {
            Some(host) => {
                let host = text::trim(host.as_str());
                if host.is_empty() {
                    None
                } else {
                    Some(host)
                }
            },
            None => None,
        }
    }

    /// Whether there is a camera to subscribe to.
    pub fn check(&self) -> (r: Result<(), String>)
        ensures
            match r {
                Ok(_) => host_of(*self) is Some,
                Err(message) => host_of(*self) is None && message@ == disabled(),
            },
    {
        match self.video_host() {
            Some(_) => Ok(()),
            None => Err(disabled_message()),
        }
    }
}

/// The device whose camera is watched: the one that is wanted, or the first.
pub open spec fn watched(devices: Seq<CloudDevice>, wanted: Option<Seq<char>>) -> Option<
    CloudDevice,
> {
    match wanted {
        Some(id) => cloud::device_with_id(devices, id),
        None => if devices.len() > 0 {
            Some(devices[0])
        } else {
            None
        },
    }
}

/// The device whose camera is watched: the one that is wanted, or the first.
pub fn watched_device<'a>(devices: &'a Vec<CloudDevice>, wanted: Option<&str>) -> (r: Option<
    &'a CloudDevice,
>)
    ensures
        match r {
            Some(device) => watched(devices@, wanted_view(wanted)) == Some(*device),
            None => watched(devices@, wanted_view(wanted)) is None,
        },
{
    match wanted {
        Some(id) => cloud::find_device(devices, id),
        None => if devices.len() > 0 {
            Some(&devices[0])
        } else {
            None
        },
    }
}

/// The id that is wanted, if one is.
pub open spec fn wanted_view(wanted: Option<&str>) -> Option<Seq<char>> {
    match wanted {
        Some(id) => Some(id@),
        None => None,
    }
}

// ---------------------------------------------------------------------------
// Sessions
// ---------------------------------------------------------------------------

/// The printer whose camera is watched, and the code that opens it.
#[derive(Debug, PartialEq, Eq)]
pub struct VideoSession {
    pub device_id: String,
    pub access_code: String,
}

impl Clone for VideoSession {
    fn clone(&self) -> (r: Self)
        ensures
            r == *self,
    {
        VideoSession { device_id: self.device_id.clone(), access_code: self.access_code.clone() }
    }
}

impl View for VideoSession {
    type V = (Seq<char>, Seq<char>);

    open spec fn view(&self) -> (Seq<char>, Seq<char>) {
        (self.device_id@, self.access_code@)
    }
}

/// The session that `device` allows: its id and its code, each without white space around it,
/// where it has both.
pub open spec fn session_of(device: CloudDevice) -> Option<(Seq<char>, Seq<char>)> {
    if text::present(device.id) && text::present(device.access_code) {
        Some((text::trimmed(device.id->0@), text::trimmed(device.access_code->0@)))
    } else {
        None
    }
}

/// The sessions that `devices` allow, in order.
pub open spec fn sessions_of(devices: Seq<CloudDevice>) -> Seq<(Seq<char>, Seq<char>)>
    decreases devices.len(),
{
    if devices.len() == 0 {
        Seq::empty()
    } else {
        match session_of(devices.last()) {
            Some(session) => sessions_of(devices.drop_last()).push(session),
            None => sessions_of(devices.drop_last()),
        }
    }
}

/// The session that `devices` allow, where they allow exactly one, or what is said of them.
pub open spec fn selected(devices: Seq<CloudDevice>) -> Result<(Seq<char>, Seq<char>), Seq<char>> {
    let sessions = sessions_of(devices);
    if sessions.len() == 0 {
        Err("no devices with dev_access_code were returned by Bambu Cloud"@)
    } else if sessions.len() == 1 {
        Ok(sessions[0])
    } else {
        Err(
            "multiple devices have video access codes; video streaming requires exactly one printer in the token account"@,
        )
    }
}

/// The session that `device` allows.
pub fn video_session(device: &CloudDevice) -> (r: Option<VideoSession>)
    ensures
        match r {
            Some(session) => session_of(*device) == Some(session@),
            None => session_of(*device) is None,
        },
{
    let device_id = match &device.id {
        Some(id) => text::trim(id.as_str()),
        None => return None,
    };
    let access_code = match &device.access_code {
        Some(code) => text::trim(code.as_str()),
        None => return None,
    };
    if device_id.is_empty() || access_code.is_empty() {
        return None;
    }
    Some(VideoSession { device_id: device_id.to_owned(), access_code: access_code.to_owned() })
}

/// The session that `devices` allow, where they allow exactly one.
pub fn select_session(devices: &Vec<CloudDevice>) -> (r: Result<VideoSession, String>)
    ensures
        match r {
            Ok(session) => selected(devices@) == Ok::<(Seq<char>, Seq<char>), Seq<char>>(session@),
            Err(message) => selected(devices@) == Err::<(Seq<char>, Seq<char>), Seq<char>>(
                message@,
            ),
        },
{
    let mut matches: Vec<VideoSession> = Vec::new();
    let mut i: usize = 0;
    assert(devices@.take(0) =~= Seq::<CloudDevice>::empty());
    while i < devices.len()
        invariant
            i <= devices@.len(),
            matches@.len() == sessions_of(devices@.take(i as int)).len(),
            forall|k: int|
                0 <= k < matches@.len() ==> (#[trigger] matches@[k])@ == sessions_of(
                    devices@.take(i as int),
                )[k],
        decreases devices.len() - i,
    {
        assert(devices@.take(i + 1).drop_last() =~= devices@.take(i as int));
        if let Some(session) = video_session(&devices[i]) {
            matches.push(session);
        }
        i = i + 1;
    }
    assert(devices@.take(i as int) =~= devices@);
    if matches.len() == 0 {
        Err("no devices with dev_access_code were returned by Bambu Cloud".to_owned())
    } else if matches.len() == 1 {
        Ok(matches[0].clone())
    } else {
        Err(
            "multiple devices have video access codes; video streaming requires exactly one printer in the token account".to_owned(),
        )
    }
}

// ---------------------------------------------------------------------------
// Authentication
// ---------------------------------------------------------------------------

/// The size of an authentication packet.
pub const AUTH_PACKET_SIZE: usize = 80;

/// What is wrong with `value` as a field of `size` bytes, if anything.
pub open spec fn field_error(value: Seq<char>, size: nat, label: Seq<char>) -> Option<Seq<char>> {
    if !vstd::utf8::is_ascii_chars(value) {
        Some(label + " must be ASCII"@)
    } else if value.len() > size {
        Some(label + " must fit in "@ + text::decimal(size) + " bytes"@)
    } else {
        None
    }
}

/// The byte at `i` of the field that holds the ASCII characters of `value`: zero after its end.
pub open spec fn field_byte(value: Seq<char>, i: int) -> u8 {
    if 0 <= i < value.len() {
        value[i] as u8
    } else {
        0
    }
}

/// `field` with the ASCII characters of `value` at its beginning.
pub open spec fn with_text(field: Seq<u8>, value: Seq<char>) -> Seq<u8> {
    Seq::new(
        field.len(),
        |i: int|
            if i < value.len() {
                value[i] as u8
            } else {
                field[i]
            },
    )
}

/// Writes `value` at the beginning of `target`, where it fits.
pub fn write_auth_field(target: &mut [u8], value: &str, label: &str) -> (r: Result<(), String>)
    ensures
        match r {
            Ok(_) => {
                &&& field_error(value@, old(target)@.len(), label@) is None
                &&& final(target)@ == with_text(old(target)@, value@)
            },
            Err(message) => {
                &&& field_error(value@, old(target)@.len(), label@) == Some(message@)
                &&& final(target)@ == old(target)@
            },
        },
{
    if !value.is_ascii() {
        return Err(label.to_owned().concat(" must be ASCII"));
    }
    let bytes = value.as_bytes();
    proof {
        vstd::utf8::is_ascii_chars_encode_utf8(value@);
    }
    if bytes.len() > target.len() {
        return Err(
            label.to_owned().concat(" must fit in ").concat(
                text::decimal_text(target.len() as u128).as_str(),
            ).concat(" bytes"),
        );
    }
    let mut i: usize = 0;
    while i < bytes.len()
        invariant
            i <= bytes@.len() <= target@.len(),
            bytes@ == Seq::new(value@.len(), |k: int| value@[k] as u8),
            target@ == with_text(old(target)@, value@.take(i as int)),
        decreases bytes.len() - i,
    {
        target[i] = bytes[i];
        i = i + 1;
    }
    assert(value@.take(i as int) =~= value@);
    Ok(())
}

/// The packet that opens a camera: a head of sixteen bytes, the user name and the code, the last
/// two in fields of thirty-two bytes each.
pub open spec fn auth_packet_of(access_code: Seq<char>) -> Seq<u8> {
    Seq::new(
        80,
        |i: int|
            if i == 0 {
                0x40u8
            } else if i == 5 {
                0x30u8
            } else if 16 <= i < 48 {
                field_byte("bblp"@, i - 16)
            } else if 48 <= i {
                field_byte(access_code, i - 48)
            } else {
                0u8
            },
    )
}

/// The packet that opens a camera with `access_code`.
pub fn auth_packet(access_code: &str) -> (r: Result<[u8; 80], String>)
    ensures
        match r {
            Ok(packet) => field_error(text::trimmed(access_code@), 32, "video access code"@) is None
                && packet@ == auth_packet_of(text::trimmed(access_code@)),
            Err(message) => field_error(text::trimmed(access_code@), 32, "video access code"@)
                == Some(message@),
        },
{
    let mut packet: [u8; 80] = [0u8; 80];
    packet[0] = 0x40;
    packet[5] = 0x30;
    let code = text::trim(access_code);
    proof {
        reveal_strlit("bblp");
    }
    let whole: &mut [u8] = &mut packet;
    let (_, fields) = whole.split_at_mut(16);
    let (user_field, code_field) = fields.split_at_mut(32);
    match write_auth_field(user_field, "bblp", "video username") {
        Ok(_) => {},
        Err(message) => return Err(message),
    }
    match write_auth_field(code_field, code, "video access code") {
        Ok(_) => {},
        Err(message) => return Err(message),
    }
    assert(packet@ =~= auth_packet_of(code@));
    Ok(packet)
}

/// The code stands in its field and nowhere else: packets for two codes differ in that field alone,
/// and the field holds the code followed by zeros.
pub proof fn law_auth_packet_layout(code: Seq<char>, other: Seq<char>)
    requires
        field_error(code, 32, "video access code"@) is None,
    ensures
        auth_packet_of(code).len() == AUTH_PACKET_SIZE,
        auth_packet_of(code).take(48) == auth_packet_of(other).take(48),
        forall|i: int|
            0 <= i < code.len() ==> #[trigger] auth_packet_of(code)[48 + i] == code[i] as u8,
        forall|i: int| 48 + code.len() <= i < 80 ==> #[trigger] auth_packet_of(code)[i] == 0,
{
    assert(auth_packet_of(code).take(48) =~= auth_packet_of(other).take(48));
}

// ---------------------------------------------------------------------------
// Frames
// ---------------------------------------------------------------------------

/// `bytes::Bytes`, a shared run of bytes.
#[verifier::external_type_specification]
#[verifier::external_body]
pub struct ExBytes(Bytes);

/// The bytes that a `bytes::Bytes` holds, in order.
pub uninterp spec fn bytes_of(bytes: Bytes) -> Seq<u8>;

/// `Bytes::from` for a vector: the bytes of the vector, in order.
#[verifier::external_body]
fn share(bytes: Vec<u8>) -> (r: Bytes)
    ensures
        bytes_of(r) == bytes@,
{
    Bytes::from(bytes)
}

/// Appends `more` to `out`.
fn append_bytes(out: &mut Vec<u8>, more: &[u8])
    ensures
        final(out)@ == old(out)@ + more@,
{
    let mut i: usize = 0;
    while i < more.len()
        invariant
            i <= more@.len(),
            out@ == old(out)@ + more@.take(i as int),
        decreases more.len() - i,
    {
        out.push(more[i]);
        i = i + 1;
    }
    assert(more@.take(i as int) =~= more@);
}

/// The media type of a stream of frames.
pub fn mjpeg_content_type() -> (r: String)
    ensures
        r@ == "multipart/x-mixed-replace; boundary="@ + MJPEG_BOUNDARY@,
{
    "multipart/x-mixed-replace; boundary=".to_owned().concat(MJPEG_BOUNDARY)
}

/// The head of the part that holds a frame of `size` bytes.
pub open spec fn part_head(size: nat) -> Seq<char> {
    "--"@ + MJPEG_BOUNDARY@ + "\r\nContent-Type: image/jpeg\r\nContent-Length: "@ + text::decimal(
        size,
    ) + "\r\n\r\n"@
}

/// The part of a stream that holds `frame`.
pub open spec fn part_of(frame: Seq<u8>) -> Seq<u8> {
    vstd::utf8::encode_utf8(part_head(frame.len())) + frame + seq![0x0du8, 0x0au8]
}

/// The part of a stream that holds `frame`.
pub fn mjpeg_part(frame: &[u8]) -> (r: Bytes)
    ensures
        bytes_of(r) == part_of(frame@),
{
    let head = "--".to_owned().concat(MJPEG_BOUNDARY).concat(
        "\r\nContent-Type: image/jpeg\r\nContent-Length: ",
    ).concat(text::decimal_text(frame.len() as u128).as_str()).concat("\r\n\r\n");
    let mut part: Vec<u8> = Vec::new();
    append_bytes(&mut part, head.as_str().as_bytes());
    append_bytes(&mut part, frame);
    let ghost before = part@;
    part.push(0x0d);
    part.push(0x0a);
    assert(part@ =~= before + seq![0x0du8, 0x0au8]);
    assert(part@ =~= part_of(frame@));
    share(part)
}

/// Whether `frame` begins and ends as a JPEG image does.
pub open spec fn jpeg(frame: Seq<u8>) -> bool {
    &&& frame.len() >= 2
    &&& frame[0] == 0xff
    &&& frame[1] == 0xd8
    &&& frame[frame.len() - 2] == 0xff
    &&& frame[frame.len() - 1] == 0xd9
}

/// Whether `frame` begins and ends as a JPEG image does.
pub fn is_jpeg(frame: &[u8]) -> (r: bool)
    ensures
        r == jpeg(frame@),
{
    let n = frame.len();
    n >= 2 && frame[0] == 0xff && frame[1] == 0xd8 && frame[n - 2] == 0xff && frame[n - 1] == 0xd9
}

// ---------------------------------------------------------------------------
// Clients
// ---------------------------------------------------------------------------

/// A client left: how many remain, and whether it was the last one. There is nothing to count
/// down where there was no client.
pub fn client_left(clients: usize) -> (r: Option<(usize, bool)>)
    ensures
        clients == 0 ==> r is None,
        clients > 0 ==> r == Some(((clients - 1) as usize, clients == 1)),
{
    match clients.checked_sub(1) {
        Some(remaining) => Some((remaining, clients == 1)),
        None => None,
    }
}

/// Whether a worker is to be started: there is none, or the last one has finished.
pub fn should_start_worker(finished: Option<bool>) -> (r: bool)
    ensures
        r == (finished != Some(false)),
{
    match finished {
        Some(finished) => finished,
        None => true,
    }
}

/// What the messages of an error and of its causes say, the outermost first.
pub fn error_chain(messages: &Vec<String>) -> (r: String)
    ensures
        r@ == text::joined(text::string_views(messages@), ": "@),
{
    text::join(messages, ": ")
}

// ---------------------------------------------------------------------------
// What every camera is opened and passed on by
// ---------------------------------------------------------------------------

/// The packet that opens a camera is eighty bytes: two numbers, the user `bblp` and the code, each in
/// its place and followed by zeros. A code that is not of ASCII characters, or of more than
/// thirty-two, opens none.
pub proof fn law_packet_holds_user_and_code(
    code: Seq<char>,
    access_code: &str,
    r: Result<[u8; 80], String>,
)
    requires
        local::bare(code),
        access_code@ == code,
        call_ensures(auth_packet, (access_code,), r),
    ensures
        r is Ok <==> code.len() <= 32 && vstd::utf8::is_ascii_chars(code),
        r matches Ok(packet) ==> {
            &&& packet@.len() == 80
            &&& packet@[0] == 0x40 && packet@[5] == 0x30
            &&& forall|i: int| 0 < i < 16 && i != 5 ==> #[trigger] packet@[i] == 0
            &&& packet@[16] == 98 && packet@[17] == 98 && packet@[18] == 108 && packet@[19] == 112
            &&& forall|i: int| 20 <= i < 48 ==> #[trigger] packet@[i] == 0
            &&& forall|i: int|
                48 <= i < 48 + code.len() ==> #[trigger] packet@[i] == code[i - 48] as u8
            &&& forall|i: int| 48 + code.len() <= i < 80 ==> #[trigger] packet@[i] == 0
        },
{
    reveal_strlit("bblp");
    local::lemma_bare(code);
}

/// A part of a stream tells that it is a JPEG image and how long that is, and then holds the image and
/// a line break, each of its bytes in order.
pub proof fn law_part_holds_its_frame(frame: &[u8], r: Bytes)
    requires
        call_ensures(mjpeg_part, (frame,), r),
    ensures
        ({
            let head = vstd::utf8::encode_utf8(
                "--frame\r\nContent-Type: image/jpeg\r\nContent-Length: "@ + text::decimal(
                    frame@.len(),
                ) + "\r\n\r\n"@,
            );
            let part = bytes_of(r);
            &&& part.len() == head.len() + frame@.len() + 2
            &&& part.take(head.len() as int) == head
            &&& forall|i: int|
                0 <= i < frame@.len() ==> #[trigger] part[head.len() + i] == frame@[i]
            &&& part[part.len() - 2] == 13
            &&& part[part.len() - 1] == 10
        }),
{
    reveal_strlit("--");
    reveal_strlit("frame");
    reveal_strlit("\r\nContent-Type: image/jpeg\r\nContent-Length: ");
    reveal_strlit("--frame\r\nContent-Type: image/jpeg\r\nContent-Length: ");
    assert("--"@ + "frame"@ + "\r\nContent-Type: image/jpeg\r\nContent-Length: "@
        =~= "--frame\r\nContent-Type: image/jpeg\r\nContent-Length: "@);
    let head = vstd::utf8::encode_utf8(part_head(frame@.len()));
    let part = bytes_of(r);
    assert(part.take(head.len() as int) =~= head);
}

/// The stream is announced by the separator of its parts.
pub proof fn law_stream_is_announced(r: String)
    requires
        call_ensures(mjpeg_content_type, (), r),
    ensures
        r@ == "multipart/x-mixed-replace; boundary="@ + "frame"@,
{
}

/// A frame is an image where it begins with `FF D8` and ends with `FF D9`.
pub proof fn law_image_is_told_by_its_ends(frame: &[u8], r: bool)
    requires
        call_ensures(is_jpeg, (frame,), r),
    ensures
        r <==> {
            let n = frame@.len();
            &&& n >= 2
            &&& frame@[0] == 255 && frame@[1] == 216
            &&& frame@[n - 2] == 255 && frame@[n - 1] == 217
        },
{
}

/// A device allows a session where it has an id and a code that are not blank, and the session is for
/// these, without white space around them.
pub proof fn law_session_is_for_its_device(device: &CloudDevice, r: Option<VideoSession>)
    requires
        call_ensures(video_session, (device,), r),
    ensures
        r is Some <==> device.id is Some && text::has_text(device.id->0@)
            && device.access_code is Some && text::has_text(device.access_code->0@),
        r matches Some(session) ==> {
            &&& session.device_id@ == text::trimmed(device.id->0@)
            &&& session.access_code@ == text::trimmed(device.access_code->0@)
        },
{
}

/// A session is selected where exactly one device allows one, and it is that one.
pub proof fn law_the_only_session_is_selected(
    devices: &Vec<CloudDevice>,
    r: Result<VideoSession, String>,
    only: int,
    other: int,
)
    requires
        0 <= only < devices@.len(),
        0 <= other < devices@.len(),
        call_ensures(select_session, (devices,), r),
    ensures
        session_of(devices@[only]) is Some && (forall|i: int|
            0 <= i < devices@.len() && i != only ==> session_of(#[trigger] devices@[i]) is None)
            ==> r is Ok && session_of(devices@[only]) == Some(r->Ok_0@),
        session_of(devices@[only]) is Some && session_of(devices@[other]) is Some && only != other
            ==> r is Err,
        (forall|i: int| 0 <= i < devices@.len() ==> session_of(#[trigger] devices@[i]) is None)
            ==> r is Err,
{
    let all = devices@;
    lemma_sessions(all, only, other);
}

proof fn lemma_sessions(devices: Seq<CloudDevice>, only: int, other: int)
    requires
        0 <= only < devices.len(),
        0 <= other < devices.len(),
    ensures
        session_of(devices[only]) is Some ==> sessions_of(devices).len() > 0,
        session_of(devices[only]) is Some && session_of(devices[other]) is Some && only != other
            ==> sessions_of(devices).len() > 1,
        session_of(devices[only]) is Some && (forall|i: int|
            0 <= i < devices.len() && i != only ==> session_of(#[trigger] devices[i]) is None)
            ==> sessions_of(devices) == seq![session_of(devices[only])->0],
        (forall|i: int| 0 <= i < devices.len() ==> session_of(#[trigger] devices[i]) is None)
            ==> sessions_of(devices).len() == 0,
    decreases devices.len(),
{
    let front = devices.drop_last();
    let last = devices.len() - 1;
    assert(forall|i: int| 0 <= i < front.len() ==> front[i] == #[trigger] devices[i]);
    if only < last && other < last {
        lemma_sessions(front, only, other);
    } else if only < last {
        lemma_sessions(front, only, only);
    } else if other < last {
        lemma_sessions(front, other, other);
    }
    if forall|i: int| 0 <= i < front.len() ==> session_of(#[trigger] front[i]) is None {
        lemma_no_sessions(front);
    }
    if only == last && forall|i: int|
        0 <= i < devices.len() && i != only ==> session_of(#[trigger] devices[i]) is None {
        assert forall|i: int| 0 <= i < front.len() implies session_of(#[trigger] front[i]) is None by {
            assert(session_of(devices[i]) is None);
        }
        lemma_no_sessions(front);
        assert(sessions_of(front) =~= Seq::<(Seq<char>, Seq<char>)>::empty());
        assert(session_of(devices[only]) is Some ==> sessions_of(devices) =~= seq![
            session_of(devices[only])->0,
        ]);
    }
    if only < last && forall|i: int|
        0 <= i < devices.len() && i != only ==> session_of(#[trigger] devices[i]) is None {
        assert(session_of(devices[last]) is None);
        assert forall|i: int| 0 <= i < front.len() && i != only implies session_of(
            #[trigger] front[i],
        ) is None by {
            assert(session_of(devices[i]) is None);
        }
    }
    if forall|i: int| 0 <= i < devices.len() ==> session_of(#[trigger] devices[i]) is None {
        lemma_no_sessions(devices);
    }
}

proof fn lemma_no_sessions(devices: Seq<CloudDevice>)
    requires
        forall|i: int| 0 <= i < devices.len() ==> session_of(#[trigger] devices[i]) is None,
    ensures
        sessions_of(devices).len() == 0,
    decreases devices.len(),
{
    if devices.len() > 0 {
        assert(session_of(devices[devices.len() - 1]) is None);
        assert forall|i: int| 0 <= i < devices.drop_last().len() implies session_of(
            #[trigger] devices.drop_last()[i],
        ) is None by {
            assert(session_of(devices[i]) is None);
        }
        lemma_no_sessions(devices.drop_last());
    }
}

/// The camera that is watched is that of the first device, or of the one that is asked for, which has
/// the id that was asked for.
pub proof fn law_wanted_camera_is_watched<'a>(
    devices: &'a Vec<CloudDevice>,
    wanted: &str,
    first: Option<&'a CloudDevice>,
    r: Option<&'a CloudDevice>,
)
    requires
        call_ensures(watched_device, (devices, None), first),
        call_ensures(watched_device, (devices, Some(wanted)), r),
    ensures
        devices@.len() == 0 ==> first is None,
        devices@.len() > 0 ==> first == Some(&devices@[0]),
        r matches Some(device) ==> device.id is Some && device.id->0@ == wanted@
            && devices@.contains(*device),
        r is None ==> forall|j: int|
            0 <= j < devices@.len() ==> (#[trigger] devices@[j]).id is None || devices@[j].id->0@
                != wanted@,
{
    cloud::lemma_device_with_id(devices@, wanted@);
    if let Some(device) = r {
        let k = choose|k: int| 0 <= k < devices@.len() && #[trigger] devices@[k] == *device;
        assert(devices@.contains(devices@[k]));
    }
}

/// A camera is reached at the host and the port of its endpoint, and at none where it has no endpoint.
pub proof fn law_camera_is_reached_at_its_endpoint(
    endpoint: &VideoEndpoint,
    at: VideoConfig,
    nowhere: VideoConfig,
    r: Result<(), String>,
    none: Result<(), String>,
)
    requires
        call_ensures(VideoConfig::at, (Some(endpoint),), at),
        call_ensures(VideoConfig::at, (None,), nowhere),
        call_ensures(VideoConfig::check, (&at,), r),
        call_ensures(VideoConfig::check, (&nowhere,), none),
    ensures
        at.host == Some(endpoint.endpoint.host),
        at.port == endpoint.endpoint.port,
        r is Ok <==> text::has_text(endpoint.endpoint.host@),
        none is Err,
        host_of(at) is Some ==> host_of(at) == Some(text::trimmed(endpoint.endpoint.host@)),
        nowhere.port == 6000,
{
}

/// The endpoint of a camera is written as its host and port and, after a comma, its code. Without a
/// port it has that of printers, and without a code none.
pub proof fn law_camera_is_written_in_places(
    place: Seq<char>,
    code: Seq<char>,
    value: &str,
    r: Result<VideoEndpoint, String>,
)
    requires
        place.len() > 0,
        local::bare(place),
        local::bare(code),
        !place.contains(','),
        value@ == (if code.len() > 0 {
            place + seq![','] + code
        } else {
            place
        }),
        local::endpoint_of(place, value@, "video device"@, 6000) is Ok,
        call_ensures(VideoEndpoint::parse, (value,), r),
    ensures
        r matches Ok(endpoint) && {
            &&& local::endpoint_of(place, value@, "video device"@, 6000) == Ok::<
                (Seq<char>, u16),
                Seq<char>,
            >((endpoint.endpoint.host@, endpoint.endpoint.port))
            &&& endpoint.access_code is Some <==> code.len() > 0
            &&& endpoint.access_code is Some ==> endpoint.access_code->0@ == code
        },
{
    local::lemma_bare(place);
    local::lemma_bare(code);
    assert forall|i: int| 0 <= i < place.len() implies place[i] != ',' by {
        if place[i] == ',' {
            assert(place.contains(place[i]));
        }
    }
    assert(value@[0] == place[0]);
    assert(value@.last() == if code.len() > 0 { code.last() } else { place.last() });
    local::lemma_bare(value@);
    text::law_fields_end_at_separators(place, code, 2, ',');
    let fields = text::fields_of(value@, 2, ',');
    if code.len() > 0 {
        assert(fields =~= seq![place, code]);
    } else {
        assert(fields =~= seq![place]);
    }
}

/// Clients are counted down one by one, and the last one is told apart; a worker is started where none
/// is at work.
pub proof fn law_clients_are_counted(
    clients: usize,
    left: Option<(usize, bool)>,
    working: Option<bool>,
    start: bool,
)
    requires
        call_ensures(client_left, (clients,), left),
        call_ensures(should_start_worker, (working,), start),
    ensures
        left is None <==> clients == 0,
        left matches Some((remaining, last)) ==> remaining + 1 == clients && (last <==> remaining
            == 0),
        start <==> working is None || working->0,
{
}

/// A text is written at the beginning of a field where it is of ASCII characters and fits, and leaves
/// the rest of the field as it was; a text that is not or does not leaves all of it.
pub proof fn law_fields_are_written_from_their_beginning(
    target: &mut [u8],
    value: &str,
    label: &str,
    r: Result<(), String>,
)
    requires
        call_ensures(write_auth_field, (target, value, label), r),
    ensures
        r is Ok <==> vstd::utf8::is_ascii_chars(value@) && value@.len() <= old(target)@.len(),
        final(target)@.len() == old(target)@.len(),
        r is Ok ==> forall|i: int|
            0 <= i < value@.len() ==> #[trigger] final(target)@[i] == value@[i] as u8,
        r is Ok ==> forall|i: int|
            value@.len() <= i < old(target)@.len() ==> #[trigger] final(target)@[i] == old(target)@[i],
        r is Err ==> final(target)@ == old(target)@,
{
}

/// An error is told by its own message and by those of its causes, in order, with colons between them.
pub proof fn law_errors_are_told_with_their_causes(
    messages: &Vec<String>,
    r: String,
    front: Seq<Seq<char>>,
)
    requires
        call_ensures(error_chain, (messages,), r),
    ensures
        messages@.len() == 1 ==> r@ == messages@[0]@,
        messages@.len() == 2 ==> r@ == messages@[0]@ + seq![':', ' '] + messages@[1]@,
        messages@.len() > 1 && text::string_views(messages@) == front.push(
            messages@.last()@,
        ) ==> r@ == text::joined(front, seq![':', ' ']) + seq![':', ' '] + messages@.last()@,
{
    reveal_strlit(": ");
    assert(": "@ =~= seq![':', ' ']);
    let all = text::string_views(messages@);
    text::law_separators_stand_between(front, messages@.last()@, ": "@);
    if messages@.len() == 1 {
        assert(all =~= seq![messages@[0]@]);
        text::law_separators_stand_between(front, messages@[0]@, ": "@);
    }
    if messages@.len() == 2 {
        assert(all =~= seq![messages@[0]@].push(messages@[1]@));
        text::law_separators_stand_between(seq![messages@[0]@], messages@[1]@, ": "@);
        text::law_separators_stand_between(front, messages@[0]@, ": "@);
    }
}

/// Two endpoints of cameras are the same where they have the same host, port and code.
pub proof fn law_same_endpoints_have_the_same_fields(a: &VideoEndpoint, b: &VideoEndpoint, r: bool)
    requires
        call_ensures(VideoEndpoint::is_same, (a, b), r),
    ensures
        r <==> {
            &&& a.endpoint.host@ == b.endpoint.host@
            &&& a.endpoint.port == b.endpoint.port
            &&& a.access_code is Some <==> b.access_code is Some
            &&& a.access_code is Some ==> a.access_code->0@ == b.access_code->0@
        },
{
}

} // verus!
