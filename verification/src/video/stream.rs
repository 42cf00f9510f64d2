//! One connection to a printer's camera, step by step.
//!
//! A connection asks for one piece of outside work at a time and is told how it went. It never
//! does that work itself.
use crate::bambu::models::CloudDevice;
use crate::local;
use crate::retry;
use crate::retry::Backoff;
use crate::text;
use crate::video;
use crate::video::choice::Outcome;
use crate::video::{VideoConfig, VideoSession, MAX_FRAME_SIZE};
use bytes::Bytes;
use tokio_rustls::rustls::pki_types::ServerName;
use vstd::prelude::*;

verus! {

/// The size of what precedes a frame.
pub const HEADER_SIZE: usize = 16;

/// The first wait after a connection broke, in seconds.
pub const FIRST_WAIT: u64 = 1;

/// How far a connection has come.
#[derive(Debug)]
pub enum Stage {
    /// The devices of the account are being fetched.
    Resolving,
    /// The printer is being connected to.
    Connecting { session: VideoSession, address: String },
    /// The TLS handshake is under way.
    Handshaking { session: VideoSession, address: String },
    /// The authentication packet is being sent.
    Sending,
    /// The authentication packet is being flushed.
    Flushing,
    /// The header of a frame is being read.
    Header,
    /// A frame is being read.
    Frame { size: usize },
    /// A frame is being passed on or discarded.
    Passing,
    /// The connection is over.
    Ended,
}

/// What a connection asks for.
#[derive(Debug)]
pub enum Action {
    FetchDevices,
    Connect(String),
    Handshake(String),
    Send([u8; 80]),
    Flush,
    Read(usize),
    Publish(Bytes),
    Discard,
    Stop,
    Fail(String),
}

/// How what was asked for went.
#[derive(Debug)]
pub enum Reply {
    Devices(Vec<CloudDevice>),
    Done,
    /// The handshake is done, and the certificate of the other side names this device, if any.
    Certified(Option<String>),
    Data(Vec<u8>),
    TimedOut,
    Failed,
    NoClients,
}

/// The view of a stage.
pub enum StageView {
    Resolving,
    Connecting { session: (Seq<char>, Seq<char>), address: Seq<char> },
    Handshaking { session: (Seq<char>, Seq<char>), address: Seq<char> },
    Sending,
    Flushing,
    Header,
    Frame { size: usize },
    Passing,
    Ended,
}

impl View for Stage {
    type V = StageView;

    open spec fn view(&self) -> StageView {
        match *self {
            Stage::Resolving => StageView::Resolving,
            Stage::Connecting { session, address } => StageView::Connecting {
                session: session@,
                address: address@,
            },
            Stage::Handshaking { session, address } => StageView::Handshaking {
                session: session@,
                address: address@,
            },
            Stage::Sending => StageView::Sending,
            Stage::Flushing => StageView::Flushing,
            Stage::Header => StageView::Header,
            Stage::Frame { size } => StageView::Frame { size },
            Stage::Passing => StageView::Passing,
            Stage::Ended => StageView::Ended,
        }
    }
}

/// The view of an action.
pub enum ActionView {
    FetchDevices,
    Connect(Seq<char>),
    Handshake(Seq<char>),
    Send(Seq<u8>),
    Flush,
    Read(usize),
    Publish(Seq<u8>),
    Discard,
    Stop,
    Fail(Seq<char>),
}

impl View for Action {
    type V = ActionView;

    open spec fn view(&self) -> ActionView {
        match *self {
            Action::FetchDevices => ActionView::FetchDevices,
            Action::Connect(address) => ActionView::Connect(address@),
            Action::Handshake(name) => ActionView::Handshake(name@),
            Action::Send(packet) => ActionView::Send(packet@),
            Action::Flush => ActionView::Flush,
            Action::Read(size) => ActionView::Read(size),
            Action::Publish(part) => ActionView::Publish(video::bytes_of(part)),
            Action::Discard => ActionView::Discard,
            Action::Stop => ActionView::Stop,
            Action::Fail(message) => ActionView::Fail(message@),
        }
    }
}

/// Whether `reply` answers what a connection at `stage` asked for.
pub open spec fn answers(stage: StageView, reply: Reply) -> bool {
    match stage {
        StageView::Resolving => reply is Devices || reply is Failed,
        StageView::Connecting { .. } => reply is Done || reply is TimedOut || reply is Failed,
        StageView::Handshaking { .. } => reply is Certified || reply is Failed,
        StageView::Sending => reply is Done || reply is Failed,
        StageView::Flushing => reply is Done || reply is Failed,
        StageView::Header => match reply {
            Reply::Data(data) => data@.len() == HEADER_SIZE,
            Reply::TimedOut | Reply::Failed | Reply::NoClients => true,
            _ => false,
        },
        StageView::Frame { size } => match reply {
            Reply::Data(data) => data@.len() == size,
            Reply::TimedOut | Reply::Failed | Reply::NoClients => true,
            _ => false,
        },
        StageView::Passing => reply is Done,
        StageView::Ended => false,
    }
}

/// A connection that has failed with `message`.
pub open spec fn failed(message: Seq<char>) -> (StageView, ActionView) {
    (StageView::Ended, ActionView::Fail(message))
}

/// The next frame is read where there is a client to watch it; else the connection is over.
pub open spec fn next_frame(clients: nat) -> (StageView, ActionView) {
    if clients > 0 {
        (StageView::Header, ActionView::Read(HEADER_SIZE))
    } else {
        (StageView::Ended, ActionView::Stop)
    }
}

/// The size of the frame that follows `header`: its first four bytes, the least significant first.
pub open spec fn frame_size(header: Seq<u8>) -> nat {
    (header[0] + 0x100 * header[1] + 0x1_0000 * header[2] + 0x100_0000 * header[3]) as nat
}

/// A camera takes frames of one byte to [`MAX_FRAME_SIZE`] bytes.
pub open spec fn after_header(header: Seq<u8>) -> (StageView, ActionView) {
    let size = frame_size(header);
    if 1 <= size <= MAX_FRAME_SIZE {
        (StageView::Frame { size: size as usize }, ActionView::Read(size as usize))
    } else {
        failed("invalid video frame size "@ + text::decimal(size))
    }
}

/// A frame is passed on where it is a JPEG image.
pub open spec fn after_frame(frame: Seq<u8>) -> (StageView, ActionView) {
    if video::jpeg(frame) {
        (StageView::Passing, ActionView::Publish(video::part_of(frame)))
    } else {
        (StageView::Passing, ActionView::Discard)
    }
}

/// What is said of reading that broke off.
pub open spec fn read_error(timed_out: bool, label: Seq<char>) -> Seq<char> {
    if timed_out {
        "timed out reading "@ + label
    } else {
        "failed to read "@ + label
    }
}

/// The host and port that is connected to.
pub open spec fn address_of(host: Seq<char>, port: u16) -> Seq<char> {
    host + ":"@ + text::decimal(port as nat)
}

/// Once the devices are known, the printer is connected to.
pub open spec fn after_devices(config: VideoConfig, devices: Seq<CloudDevice>) -> (
    StageView,
    ActionView,
) {
    match video::selected(devices) {
        Err(message) => failed(message),
        Ok(session) => match video::host_of(config) {
            None => failed(video::disabled()),
            Some(host) => {
                let address = address_of(host, config.port);
                (StageView::Connecting { session, address }, ActionView::Connect(address))
            },
        },
    }
}

/// Once the printer is connected to, the handshake asks for the certificate of the device, where
/// its id is a server name.
pub open spec fn after_connect(
    session: (Seq<char>, Seq<char>),
    address: Seq<char>,
    named: bool,
) -> (StageView, ActionView) {
    if named {
        (StageView::Handshaking { session, address }, ActionView::Handshake(session.0))
    } else {
        failed("invalid printer device id `"@ + session.0 + "` for TLS SNI"@)
    }
}

/// What is said of a certificate that names another device than `device_id`, or none.
pub open spec fn wrong_certificate(
    address: Seq<char>,
    device_id: Seq<char>,
    certified: Option<Seq<char>>,
) -> Seq<char> {
    match certified {
        Some(name) => "video server certificate at "@ + address + " is for device `"@ + name
            + "`, not for `"@ + device_id + "`"@,
        None => "video server certificate at "@ + address + " did not include a device ID"@,
    }
}

/// Once the handshake is done, the code is sent, where the certificate of the other side names the
/// device that the code belongs to.
pub open spec fn after_handshake(
    session: (Seq<char>, Seq<char>),
    address: Seq<char>,
    certified: Option<Seq<char>>,
) -> (StageView, ActionView) {
    let code = text::trimmed(session.1);
    if certified != Some(session.0) {
        failed(wrong_certificate(address, session.0, certified))
    } else {
        match video::field_error(code, 32, "video access code"@) {
            Some(message) => failed(message),
            None => (StageView::Sending, ActionView::Send(video::auth_packet_of(code))),
        }
    }
}

/// What a connection asks for next, where `named` says whether the device's id is a server name.
pub open spec fn advanced(
    config: VideoConfig,
    stage: StageView,
    reply: Reply,
    clients: nat,
    named: bool,
) -> (StageView, ActionView) {
    match stage {
        StageView::Resolving => match reply {
            Reply::Devices(devices) => after_devices(config, devices@),
            _ => failed("failed to fetch video access code from Bambu Cloud"@),
        },
        StageView::Connecting { session, address } => match reply {
            Reply::Done => after_connect(session, address, named),
            Reply::TimedOut => failed("timed out connecting to video server at "@ + address),
            _ => failed("failed to connect to video server at "@ + address),
        },
        StageView::Handshaking { session, address } => match reply {
            Reply::Certified(certified) => after_handshake(
                session,
                address,
                text::chars(certified),
            ),
            _ => failed("failed TLS handshake with video server at "@ + address),
        },
        StageView::Sending => match reply {
            Reply::Done => (StageView::Flushing, ActionView::Flush),
            _ => failed("failed to send video authentication packet"@),
        },
        StageView::Flushing => match reply {
            Reply::Done => next_frame(clients),
            _ => failed("failed to flush video authentication packet"@),
        },
        StageView::Header => match reply {
            Reply::Data(header) => after_header(header@),
            Reply::NoClients => (StageView::Ended, ActionView::Stop),
            _ => failed(read_error(reply is TimedOut, "video frame header"@)),
        },
        StageView::Frame { size } => match reply {
            Reply::Data(frame) => after_frame(frame@),
            Reply::NoClients => (StageView::Ended, ActionView::Stop),
            _ => failed(read_error(reply is TimedOut, "video frame"@)),
        },
        StageView::Passing => next_frame(clients),
        StageView::Ended => (StageView::Ended, ActionView::Stop),
    }
}

/// What a connection shows of its endpoint, where `reply` shows anything: the certificate there is
/// not that of the device, or a frame that is passed on came from there.
pub open spec fn outcome_of(stage: StageView, reply: Reply) -> Option<Outcome> {
    match (stage, reply) {
        (StageView::Handshaking { session, .. }, Reply::Certified(certified)) => if text::chars(
            certified,
        ) != Some(session.0) {
            Some(Outcome::Mismatched)
        } else {
            None
        },
        (StageView::Frame { .. }, Reply::Data(frame)) => if video::jpeg(frame@) {
            Some(Outcome::Streamed)
        } else {
            None
        },
        _ => None,
    }
}

/// Whether `ServerName::try_from` takes `name`.
pub uninterp spec fn server_name(name: Seq<char>) -> bool;

/// `ServerName::try_from` for a string: whether `name` is a DNS name or an IP address that a TLS
/// client may ask for.
#[verifier::external_body]
fn is_server_name(name: &str) -> (r: bool)
    ensures
        r == server_name(name@),
{
    ServerName::try_from(name.to_owned()).is_ok()
}

/// A connection that has failed with `message`.
fn fail(message: String) -> (r: (Stage, Action))
    ensures
        (r.0@, r.1@) == failed(message@),
{
    (Stage::Ended, Action::Fail(message))
}

/// The next frame is read where there is a client to watch it.
fn read_next_frame(clients: usize) -> (r: (Stage, Action))
    ensures
        (r.0@, r.1@) == next_frame(clients as nat),
{
    if clients > 0 {
        (Stage::Header, Action::Read(HEADER_SIZE))
    } else {
        (Stage::Ended, Action::Stop)
    }
}

/// The devices of the account are known.
pub fn take_devices(config: &VideoConfig, devices: &Vec<CloudDevice>) -> (r: (Stage, Action))
    ensures
        (r.0@, r.1@) == after_devices(*config, devices@),
{
    let session = match video::select_session(devices) {
        Ok(session) => session,
        Err(message) => return fail(message),
    };
    match config.video_host() {
        None => fail(video::disabled_message()),
        Some(host) => {
            let address = host.to_owned().concat(":").concat(
                text::decimal_text(config.port as u128).as_str(),
            );
            let asked = address.clone();
            (Stage::Connecting { session, address }, Action::Connect(asked))
        },
    }
}

/// The printer is connected to, and `named` says whether its id is a server name.
pub fn take_connection(session: VideoSession, address: String, named: bool) -> (r: (Stage, Action))
    ensures
        (r.0@, r.1@) == after_connect(session@, address@, named),
{
    if named {
        let name = session.device_id.clone();
        (Stage::Handshaking { session, address }, Action::Handshake(name))
    } else {
        fail(
            "invalid printer device id `".to_owned().concat(session.device_id.as_str()).concat(
                "` for TLS SNI",
            ),
        )
    }
}

/// The handshake is done, and the certificate of the other side names the device `certified`.
pub fn take_handshake(session: &VideoSession, address: &str, certified: &Option<String>) -> (r: (
    Stage,
    Action,
))
    ensures
        (r.0@, r.1@) == after_handshake(session@, address@, text::chars(*certified)),
{
    match certified {
        None => {
            return fail(
                "video server certificate at ".to_owned().concat(address).concat(
                    " did not include a device ID",
                ),
            );
        },
        Some(name) => {
            if !text::same(name.as_str(), session.device_id.as_str()) {
                return fail(
                    "video server certificate at ".to_owned().concat(address).concat(
                        " is for device `",
                    ).concat(name.as_str()).concat("`, not for `").concat(
                        session.device_id.as_str(),
                    ).concat("`"),
                );
            }
        },
    }
    match video::auth_packet(session.access_code.as_str()) {
        Ok(packet) => (Stage::Sending, Action::Send(packet)),
        Err(message) => fail(message),
    }
}

/// The header of a frame is read.
pub fn take_header(header: &Vec<u8>) -> (r: (Stage, Action))
    requires
        header@.len() >= 4,
    ensures
        (r.0@, r.1@) == after_header(header@),
{
    let size: u64 = header[0] as u64 + 0x100 * header[1] as u64 + 0x1_0000 * header[2] as u64
        + 0x100_0000 * header[3] as u64;
    assert(size as nat == frame_size(header@));
    if 1 <= size && size <= MAX_FRAME_SIZE as u64 {
        (Stage::Frame { size: size as usize }, Action::Read(size as usize))
    } else {
        fail(
            "invalid video frame size ".to_owned().concat(
                text::decimal_text(size as u128).as_str(),
            ),
        )
    }
}

/// A frame is read.
pub fn take_frame(frame: &Vec<u8>) -> (r: (Stage, Action))
    ensures
        (r.0@, r.1@) == after_frame(frame@),
{
    let bytes = frame.as_slice();
    if video::is_jpeg(bytes) {
        (Stage::Passing, Action::Publish(video::mjpeg_part(bytes)))
    } else {
        (Stage::Passing, Action::Discard)
    }
}

/// A connection that is about to begin.
pub fn begin() -> (r: (Stage, Action))
    ensures
        r.0@ == StageView::Resolving,
        r.1@ == ActionView::FetchDevices,
{
    (Stage::Resolving, Action::FetchDevices)
}

impl Stage {
    /// Whether `reply` answers what a connection at this stage asked for.
    pub fn accepts(&self, reply: &Reply) -> (r: bool)
        ensures
            r == answers(self@, *reply),
    {
        match (self, reply) {
            (Stage::Resolving, Reply::Devices(_)) => true,
            (Stage::Resolving, Reply::Failed) => true,
            (Stage::Connecting { .. }, Reply::Done) => true,
            (Stage::Connecting { .. }, Reply::TimedOut) => true,
            (Stage::Connecting { .. }, Reply::Failed) => true,
            (Stage::Handshaking { .. }, Reply::Certified(_)) => true,
            (Stage::Handshaking { .. }, Reply::Failed) => true,
            (Stage::Sending, Reply::Done) => true,
            (Stage::Sending, Reply::Failed) => true,
            (Stage::Flushing, Reply::Done) => true,
            (Stage::Flushing, Reply::Failed) => true,
            (Stage::Header, Reply::Data(data)) => data.len() == HEADER_SIZE,
            (Stage::Header, Reply::TimedOut) => true,
            (Stage::Header, Reply::Failed) => true,
            (Stage::Header, Reply::NoClients) => true,
            (Stage::Frame { size }, Reply::Data(data)) => data.len() == *size,
            (Stage::Frame { .. }, Reply::TimedOut) => true,
            (Stage::Frame { .. }, Reply::Failed) => true,
            (Stage::Frame { .. }, Reply::NoClients) => true,
            (Stage::Passing, Reply::Done) => true,
            _ => false,
        }
    }

    /// What the connection shows of its endpoint, where `reply` shows anything.
    pub fn outcome(&self, reply: &Reply) -> (r: Option<Outcome>)
        ensures
            r == outcome_of(self@, *reply),
    {
        match (self, reply) {
            (Stage::Handshaking { session, .. }, Reply::Certified(certified)) => {
                let matched = match certified {
                    Some(name) => text::same(name.as_str(), session.device_id.as_str()),
                    None => false,
                };
                if matched {
                    None
                } else {
                    Some(Outcome::Mismatched)
                }
            },
            (Stage::Frame { .. }, Reply::Data(frame)) => if video::is_jpeg(frame.as_slice()) {
                Some(Outcome::Streamed)
            } else {
                None
            },
            _ => None,
        }
    }

    /// What the connection asks for next, after `reply` and with `clients` clients watching.
    pub fn advance(self, config: &VideoConfig, reply: &Reply, clients: usize) -> (r: (
        Stage,
        Action,
    ))
        requires
            answers(self@, *reply),
        ensures
            (r.0@, r.1@) == advanced(
                *config,
                self@,
                *reply,
                clients as nat,
                match self@ {
                    StageView::Connecting { session, address } => server_name(session.0),
                    _ => true,
                },
            ),
    {
        match self {
            Stage::Resolving => match reply {
                Reply::Devices(devices) => take_devices(config, devices),
                _ => fail("failed to fetch video access code from Bambu Cloud".to_owned()),
            },
            Stage::Connecting { session, address } => match reply {
                Reply::Done => {
                    let named = is_server_name(session.device_id.as_str());
                    take_connection(session, address, named)
                },
                Reply::TimedOut => fail(
                    "timed out connecting to video server at ".to_owned().concat(address.as_str()),
                ),
                _ => fail(
                    "failed to connect to video server at ".to_owned().concat(address.as_str()),
                ),
            },
            Stage::Handshaking { session, address } => match reply {
                Reply::Certified(certified) => take_handshake(
                    &session,
                    address.as_str(),
                    certified,
                ),
                _ => fail(
                    "failed TLS handshake with video server at ".to_owned().concat(
                        address.as_str(),
                    ),
                ),
            },
            Stage::Sending => match reply {
                Reply::Done => (Stage::Flushing, Action::Flush),
                _ => fail("failed to send video authentication packet".to_owned()),
            },
            Stage::Flushing => match reply {
                Reply::Done => read_next_frame(clients),
                _ => fail("failed to flush video authentication packet".to_owned()),
            },
            Stage::Header => match reply {
                Reply::Data(header) => take_header(header),
                Reply::NoClients => (Stage::Ended, Action::Stop),
                Reply::TimedOut => fail("timed out reading ".to_owned().concat("video frame header")),
                _ => fail("failed to read ".to_owned().concat("video frame header")),
            },
            Stage::Frame { size } => match reply {
                Reply::Data(frame) => take_frame(frame),
                Reply::NoClients => (Stage::Ended, Action::Stop),
                Reply::TimedOut => fail("timed out reading ".to_owned().concat("video frame")),
                _ => fail("failed to read ".to_owned().concat("video frame")),
            },
            Stage::Passing => read_next_frame(clients),
            Stage::Ended => (Stage::Ended, Action::Stop),
        }
    }
}

/// What a worker does after a connection ended.
#[derive(Debug, Clone, Copy, PartialEq, Eq, Structural)]
pub enum WorkerStep {
    /// No client is left: the worker stops.
    Stop,
    /// Another connection is made at once.
    Reconnect,
    /// Another connection is made after so many nanoseconds, if there is a client by then.
    Wait(u64),
}

/// Whether a worker makes a connection.
pub fn keeps_streaming(clients: usize) -> (r: bool)
    ensures
        r == (clients > 0),
{
    clients > 0
}

/// What a worker does after a connection ended, in order or with an error.
pub fn after_connection(delay: &mut Backoff, in_order: bool, clients: usize) -> (r: WorkerStep)
    ensures
        final(delay).first() == old(delay).first(),
        final(delay).next() == (if in_order {
            old(delay).first()
        } else if clients == 0 {
            old(delay).next()
        } else {
            retry::longer(old(delay).next())
        }),
        match r {
            WorkerStep::Stop => clients == 0,
            WorkerStep::Reconnect => clients > 0 && in_order,
            WorkerStep::Wait(nanos) => clients > 0 && !in_order && nanos == old(delay).next(),
        },
{
    if in_order {
        delay.reset();
        if clients > 0 {
            WorkerStep::Reconnect
        } else {
            WorkerStep::Stop
        }
    } else if clients == 0 {
        WorkerStep::Stop
    } else {
        let nanos = delay.nanos();
        delay.lengthen();
        WorkerStep::Wait(nanos)
    }
}

// ---------------------------------------------------------------------------
// What every connection keeps to
// ---------------------------------------------------------------------------

/// What is passed on is a frame that was just read and is a JPEG image, as one part.
pub proof fn law_only_jpeg_frames_are_published(
    config: VideoConfig,
    stage: StageView,
    reply: Reply,
    clients: nat,
    named: bool,
)
    ensures
        match advanced(config, stage, reply, clients, named).1 {
            ActionView::Publish(part) => {
                &&& stage is Frame
                &&& reply is Data
                &&& video::jpeg(reply->Data_0@)
                &&& part == video::part_of(reply->Data_0@)
            },
            _ => true,
        },
{
}

/// Frames of no byte and frames of more than [`MAX_FRAME_SIZE`] bytes are never read.
pub proof fn law_frames_are_bounded(
    config: VideoConfig,
    stage: StageView,
    reply: Reply,
    clients: nat,
    named: bool,
)
    ensures
        match advanced(config, stage, reply, clients, named) {
            (StageView::Frame { size }, action) => {
                &&& 1 <= size <= MAX_FRAME_SIZE
                &&& action == ActionView::Read(size)
                &&& stage is Header
                &&& size == frame_size(reply->Data_0@)
            },
            _ => true,
        },
{
}

/// Whether a connection may come from `before` to `after` in one step.
pub open spec fn leads_to(before: StageView, after: StageView) -> bool {
    match after {
        StageView::Resolving => false,
        StageView::Connecting { .. } => before is Resolving,
        StageView::Handshaking { .. } => before is Connecting,
        StageView::Sending => before is Handshaking,
        StageView::Flushing => before is Sending,
        StageView::Header => before is Flushing || before is Passing,
        StageView::Frame { .. } => before is Header,
        StageView::Passing => before is Frame,
        StageView::Ended => true,
    }
}

/// No stage is passed over: no frame is read before the code was sent, and none is sent before the
/// handshake.
pub proof fn law_stages_follow_in_order(
    config: VideoConfig,
    stage: StageView,
    reply: Reply,
    clients: nat,
    named: bool,
)
    requires
        answers(stage, reply),
    ensures
        leads_to(stage, advanced(config, stage, reply, clients, named).0),
{
}

/// A connection that is told of an error, or of a time that ran out, is over and says so.
pub proof fn law_errors_end_the_connection(
    config: VideoConfig,
    stage: StageView,
    reply: Reply,
    clients: nat,
    named: bool,
)
    requires
        answers(stage, reply),
        reply is Failed || reply is TimedOut,
    ensures
        advanced(config, stage, reply, clients, named).0 is Ended,
        advanced(config, stage, reply, clients, named).1 is Fail,
{
}

/// A code is sent only after a handshake, which asked for the certificate of the very device that
/// the code belongs to, and in which the other side showed a certificate that names that device.
pub proof fn law_code_follows_handshake(
    config: VideoConfig,
    stage: StageView,
    reply: Reply,
    clients: nat,
    named: bool,
)
    requires
        answers(stage, reply),
    ensures
        match advanced(config, stage, reply, clients, named) {
            (StageView::Connecting { session, address }, action) => {
                &&& reply is Devices
                &&& video::selected(reply->Devices_0@) == Ok::<
                    (Seq<char>, Seq<char>),
                    Seq<char>,
                >(session)
                &&& action == ActionView::Connect(address)
            },
            (StageView::Handshaking { session, address }, action) => {
                &&& stage == (StageView::Connecting { session, address })
                &&& action == ActionView::Handshake(session.0)
            },
            (_, ActionView::Send(packet)) => {
                &&& stage matches StageView::Handshaking { session, .. }
                &&& reply is Certified
                &&& text::chars(reply->Certified_0) == Some(session.0)
                &&& packet == video::auth_packet_of(text::trimmed(session.1))
            },
            _ => true,
        },
{
}

/// Where the certificate of the other side does not name the device that the code belongs to,
/// nothing is sent and the connection is over.
pub proof fn law_wrong_certificates_end_the_connection(
    config: VideoConfig,
    session: (Seq<char>, Seq<char>),
    address: Seq<char>,
    certified: Option<String>,
    clients: nat,
    named: bool,
)
    requires
        text::chars(certified) != Some(session.0),
    ensures
        ({
            let stage = StageView::Handshaking { session, address };
            let next = advanced(config, stage, Reply::Certified(certified), clients, named);
            next.0 is Ended && next.1 is Fail
        }),
{
}

/// An endpoint is said to have streamed exactly where a frame is passed on; and where it is said to
/// mismatch, nothing is sent and the connection is over.
pub proof fn law_outcomes_are_what_happened(
    config: VideoConfig,
    stage: StageView,
    reply: Reply,
    clients: nat,
    named: bool,
)
    requires
        answers(stage, reply),
    ensures
        outcome_of(stage, reply) == Some(Outcome::Streamed) <==> advanced(
            config,
            stage,
            reply,
            clients,
            named,
        ).1 is Publish,
        outcome_of(stage, reply) == Some(Outcome::Mismatched) ==> {
            let next = advanced(config, stage, reply, clients, named);
            next.0 is Ended && next.1 is Fail
        },
{
}

/// Where no client is left, no further frame is begun.
pub proof fn law_no_frame_without_a_client(
    config: VideoConfig,
    stage: StageView,
    reply: Reply,
    named: bool,
)
    requires
        answers(stage, reply),
    ensures
        !(advanced(config, stage, reply, 0, named).0 is Header),
        stage is Passing ==> advanced(config, stage, reply, 0, named).1 is Stop,
{
}

/// The size of a frame is written at the beginning of its header in four bytes, the least significant
/// first. A frame of that size is read next, where it has between one byte and sixteen mebibytes; one
/// of any other size ends the connection.
pub proof fn law_frame_size_is_little_endian(n: u32, header: &Vec<u8>, r: (Stage, Action))
    requires
        header@.len() >= 4,
        header@[0] == n % 256,
        header@[1] == n / 256 % 256,
        header@[2] == n / 65536 % 256,
        header@[3] == n / 16777216,
        call_ensures(take_header, (header,), r),
    ensures
        frame_size(header@) == n,
        1 <= n <= 16 * 1024 * 1024 ==> r.0 == (Stage::Frame { size: n as usize }) && r.1
            == Action::Read(n as usize),
        n == 0 || n > 16 * 1024 * 1024 ==> r.0 == Stage::Ended && r.1 is Fail,
{
    let x = n as int;
    assert(x == x % 256 + 256 * (x / 256 % 256) + 65536 * (x / 65536 % 256) + 16777216 * (x
        / 16777216)) by {
        assert(x / 256 / 256 == x / 65536);
        assert(x / 65536 / 256 == x / 16777216);
    }
    assert(frame_size(header@) == n);
}

/// A connection to the camera of a device goes, step by step, to the host and the port that are
/// configured, white space around the host left out, and asks for the certificate of the very device.
pub proof fn law_connection_is_made_to_the_camera(
    config: &VideoConfig,
    device: CloudDevice,
    id: Seq<char>,
    code: Seq<char>,
    host: Seq<char>,
    devices: Vec<CloudDevice>,
    clients: usize,
    first: (Stage, Action),
    resolved: (Stage, Action),
    connected: (Stage, Action),
)
    requires
        devices@ == seq![device],
        device.id is Some && device.id->0@ == id && local::bare(id) && id.len() > 0,
        device.access_code is Some && device.access_code->0@ == code && local::bare(code)
            && code.len() > 0,
        config.host is Some && config.host->0@ == host && local::bare(host) && host.len() > 0,
        call_ensures(begin, (), first),
        call_ensures(
            Stage::advance,
            (first.0, config, &Reply::Devices(devices), clients),
            resolved,
        ),
        call_ensures(Stage::advance, (resolved.0, config, &Reply::Done, clients), connected),
    ensures
        first.1 is FetchDevices,
        resolved.1 is Connect,
        resolved.1->Connect_0@ == host.push(':') + text::decimal(config.port as nat),
        server_name(id) ==> connected.1 is Handshake && connected.1->Handshake_0@ == id,
        !server_name(id) ==> connected.1 is Fail,
{
    reveal_strlit(":");
    local::lemma_bare(id);
    local::lemma_bare(code);
    local::lemma_bare(host);
    let none = Seq::<CloudDevice>::empty();
    assert(devices@.drop_last() =~= none);
    assert(devices@.last() == device);
    reveal_with_fuel(video::sessions_of, 2);
    assert(video::sessions_of(none) =~= Seq::<(Seq<char>, Seq<char>)>::empty());
    assert(video::sessions_of(devices@) =~= seq![(id, code)]);
    assert(host + ":"@ =~= host.push(':'));
}

/// Once the other side has shown the certificate of the device, the code is sent, and once that is
/// sent and flushed, frames are read for as long as there is a client: a header of sixteen bytes, then
/// the frame. Any other certificate, or none, ends the connection.
pub proof fn law_code_is_sent_and_frames_are_read(
    config: &VideoConfig,
    session: VideoSession,
    address: String,
    certified: Option<String>,
    clients: usize,
    shaken: (Stage, Action),
    sent: (Stage, Action),
    flushed: (Stage, Action),
    passed: (Stage, Action),
)
    requires
        local::bare(session.access_code@),
        call_ensures(
            Stage::advance,
            (Stage::Handshaking { session, address }, config, &Reply::Certified(certified), clients),
            shaken,
        ),
        call_ensures(Stage::advance, (Stage::Sending, config, &Reply::Done, clients), sent),
        call_ensures(Stage::advance, (Stage::Flushing, config, &Reply::Done, clients), flushed),
        call_ensures(Stage::advance, (Stage::Passing, config, &Reply::Done, clients), passed),
    ensures
        certified is None || certified->0@ != session.device_id@ ==> shaken.0 == Stage::Ended
            && shaken.1 is Fail,
        certified is Some && certified->0@ == session.device_id@ && vstd::utf8::is_ascii_chars(
            session.access_code@,
        ) && session.access_code@.len() <= 32 ==> {
            &&& shaken.0 == Stage::Sending
            &&& shaken.1 is Send
            &&& forall|i: int|
                0 <= i < session.access_code@.len() ==> #[trigger] shaken.1->Send_0@[48 + i]
                    == session.access_code@[i] as u8
        },
        sent.0 == Stage::Flushing && sent.1 is Flush,
        clients > 0 ==> flushed.0 == Stage::Header && flushed.1 == Action::Read(16),
        clients == 0 ==> flushed.0 == Stage::Ended && flushed.1 is Stop,
        clients > 0 ==> passed.0 == Stage::Header && passed.1 == Action::Read(16),
        clients == 0 ==> passed.0 == Stage::Ended && passed.1 is Stop,
{
    local::lemma_bare(session.access_code@);
    lemma_stage(shaken.0);
    lemma_stage(sent.0);
    lemma_stage(flushed.0);
    lemma_stage(passed.0);
    if shaken.1 is Send {
        let packet = shaken.1->Send_0@;
        assert(packet == video::auth_packet_of(session.access_code@));
        assert forall|i: int| 0 <= i < session.access_code@.len() && session.access_code@.len()
            <= 32 implies #[trigger] packet[48 + i] == session.access_code@[i] as u8 by {}
    }
}

/// What a stage without anything in it looks like tells which it is.
proof fn lemma_stage(stage: Stage)
    ensures
        stage@ is Ended ==> stage == Stage::Ended,
        stage@ is Sending ==> stage == Stage::Sending,
        stage@ is Flushing ==> stage == Stage::Flushing,
        stage@ is Header ==> stage == Stage::Header,
        stage@ is Passing ==> stage == Stage::Passing,
{
}

/// A frame that begins and ends as a JPEG image does is passed on as one part that holds it, and any
/// other frame is not. Where the last client has left, the connection is over.
pub proof fn law_jpeg_frames_are_passed_on(
    config: &VideoConfig,
    frame: Vec<u8>,
    clients: usize,
    r: (Stage, Action),
    left: (Stage, Action),
)
    requires
        call_ensures(
            Stage::advance,
            (Stage::Frame { size: frame.len() }, config, &Reply::Data(frame), clients),
            r,
        ),
        call_ensures(
            Stage::advance,
            (Stage::Frame { size: frame.len() }, config, &Reply::NoClients, clients),
            left,
        ),
    ensures
        r.0 == Stage::Passing,
        ({
            let n = frame@.len();
            let image = n >= 2 && frame@[0] == 0xff && frame@[1] == 0xd8 && frame@[n - 2] == 0xff
                && frame@[n - 1] == 0xd9;
            &&& image ==> r.1 is Publish && video::bytes_of(r.1->Publish_0) == video::part_of(
                frame@,
            )
            &&& !image ==> r.1 is Discard
        }),
        left.0 == Stage::Ended && left.1 is Stop,
{
    lemma_stage(r.0);
    lemma_stage(left.0);
}

/// An error at any stage is told by what was being done, and where.
pub proof fn law_errors_tell_what_was_done(
    config: &VideoConfig,
    session: VideoSession,
    address: String,
    size: usize,
    clients: usize,
    fetching: (Stage, Action),
    connecting: (Stage, Action),
    late: (Stage, Action),
    shaking: (Stage, Action),
    sending: (Stage, Action),
    flushing: (Stage, Action),
    header: (Stage, Action),
    frame: (Stage, Action),
)
    requires
        call_ensures(Stage::advance, (Stage::Resolving, config, &Reply::Failed, clients), fetching),
        call_ensures(
            Stage::advance,
            (Stage::Connecting { session, address }, config, &Reply::Failed, clients),
            connecting,
        ),
        call_ensures(
            Stage::advance,
            (Stage::Connecting { session, address }, config, &Reply::TimedOut, clients),
            late,
        ),
        call_ensures(
            Stage::advance,
            (Stage::Handshaking { session, address }, config, &Reply::Failed, clients),
            shaking,
        ),
        call_ensures(Stage::advance, (Stage::Sending, config, &Reply::Failed, clients), sending),
        call_ensures(Stage::advance, (Stage::Flushing, config, &Reply::Failed, clients), flushing),
        call_ensures(Stage::advance, (Stage::Header, config, &Reply::TimedOut, clients), header),
        call_ensures(
            Stage::advance,
            (Stage::Frame { size }, config, &Reply::Failed, clients),
            frame,
        ),
    ensures
        fetching.1 is Fail && fetching.1->Fail_0@
            == "failed to fetch video access code from Bambu Cloud"@,
        connecting.1 is Fail && connecting.1->Fail_0@ == "failed to connect to video server at "@
            + address@,
        late.1 is Fail && late.1->Fail_0@ == "timed out connecting to video server at "@ + address@,
        shaking.1 is Fail && shaking.1->Fail_0@ == "failed TLS handshake with video server at "@
            + address@,
        sending.1 is Fail && sending.1->Fail_0@ == "failed to send video authentication packet"@,
        flushing.1 is Fail && flushing.1->Fail_0@ == "failed to flush video authentication packet"@,
        header.1 is Fail && header.1->Fail_0@ == "timed out reading "@ + "video frame header"@,
        frame.1 is Fail && frame.1->Fail_0@ == "failed to read "@ + "video frame"@,
{
}

/// What a connection shows of its endpoint: that it mismatches where its certificate names another
/// device or none, that it streams where an image came from it, and nothing else.
pub proof fn law_outcome_is_told_by_certificate_and_frame(
    session: VideoSession,
    address: String,
    certified: Option<String>,
    frame: Vec<u8>,
    shaken: Option<Outcome>,
    framed: Option<Outcome>,
)
    requires
        call_ensures(
            Stage::outcome,
            (&Stage::Handshaking { session, address }, &Reply::Certified(certified)),
            shaken,
        ),
        call_ensures(
            Stage::outcome,
            (&Stage::Frame { size: frame.len() }, &Reply::Data(frame)),
            framed,
        ),
    ensures
        certified is Some && certified->0@ == session.device_id@ ==> shaken is None,
        certified is None || certified->0@ != session.device_id@ ==> shaken == Some(
            Outcome::Mismatched,
        ),
        framed == (if frame@.len() >= 2 && frame@[0] == 0xff && frame@[1] == 0xd8
            && frame@[frame@.len() - 2] == 0xff && frame@[frame@.len() - 1] == 0xd9 {
            Some(Outcome::Streamed)
        } else {
            None
        }),
{
}

/// A worker goes on while there is a client, and first waits a second.
pub proof fn law_worker_serves_its_clients(clients: usize, r: bool)
    requires
        call_ensures(keeps_streaming, (clients,), r),
    ensures
        r <==> clients != 0,
        FIRST_WAIT == 1,
{
}

/// After a connection that ended in order another one is made at once, where there is a client, and
/// the waits begin again; after one that failed there is a wait first, the next one half as long
/// again, up to thirty seconds. Without a client there is none.
pub proof fn law_failed_connections_are_waited_for(
    delay: &mut Backoff,
    in_order: bool,
    clients: usize,
    r: WorkerStep,
)
    requires
        call_ensures(after_connection, (delay, in_order, clients), r),
    ensures
        clients == 0 ==> r == WorkerStep::Stop,
        clients > 0 && in_order ==> r == WorkerStep::Reconnect && final(delay).next() == old(delay).first(),
        clients > 0 && !in_order ==> {
            let nanos = old(delay).next();
            &&& r matches WorkerStep::Wait(wait) && wait == nanos
            &&& nanos + nanos / 2 <= 30_000_000_000 ==> final(delay).next() == nanos + nanos / 2
            &&& nanos + nanos / 2 > 30_000_000_000 ==> final(delay).next() == 30_000_000_000
        },
        final(delay).first() == old(delay).first(),
{
}

/// What a connection at each stage waits for, besides that something failed.
pub proof fn law_each_stage_waits_for_its_reply(
    devices: Vec<CloudDevice>,
    session: VideoSession,
    address: String,
    certified: Option<String>,
    data: Vec<u8>,
    size: usize,
)
    ensures
        answers(Stage::Resolving@, Reply::Devices(devices)),
        answers((Stage::Connecting { session, address })@, Reply::Done),
        answers((Stage::Connecting { session, address })@, Reply::TimedOut),
        answers((Stage::Handshaking { session, address })@, Reply::Certified(certified)),
        !answers((Stage::Handshaking { session, address })@, Reply::Done),
        answers(Stage::Sending@, Reply::Done),
        answers(Stage::Flushing@, Reply::Done),
        answers(Stage::Header@, Reply::Data(data)) <==> data@.len() == 16,
        answers((Stage::Frame { size })@, Reply::Data(data)) <==> data@.len() == size,
        answers(Stage::Passing@, Reply::Done),
        forall|reply: Reply| !answers(Stage::Ended@, reply),
{
}

} // verus!
