//! Who is listened to, how, and what is made of what they say.
use crate::bambu::models;
use crate::bambu::models::PrinterStatus;
use crate::cloud;
use crate::local::{LocalDevice, MqttEndpoint};
use crate::retry;
use crate::retry::Backoff;
use crate::table::{NameSet, Table};
use crate::text;
use uuid::Uuid;
use vstd::prelude::*;

verus! {

/// How long a connection may be silent, in seconds.
pub const KEEPALIVE_SECONDS: u64 = 60;

/// The first wait after a connection broke, in seconds.
pub const FIRST_WAIT: u64 = 2;

/// How much of an unreadable report is shown, in bytes.
pub const PREVIEW_SIZE: usize = 300;

// ---------------------------------------------------------------------------
// Requests and reports
// ---------------------------------------------------------------------------

/// Asks a printer to report everything.
#[derive(Debug, PartialEq, Eq)]
pub struct PushAllRequest {
    pub pushing: PushAllCommand,
}

/// The command of a [`PushAllRequest`]. What is absent is left out of the message.
#[derive(Debug, PartialEq, Eq)]
pub struct PushAllCommand {
    pub sequence_id: String,
    pub command: String,
    pub version: Option<u8>,
    pub push_target: Option<u8>,
}

/// The view of a command.
pub struct PushAllView {
    pub sequence_id: Seq<char>,
    pub command: Seq<char>,
    pub version: Option<u8>,
    pub push_target: Option<u8>,
}

impl View for PushAllRequest {
    type V = PushAllView;

    open spec fn view(&self) -> PushAllView {
        PushAllView {
            sequence_id: self.pushing.sequence_id@,
            command: self.pushing.command@,
            version: self.pushing.version,
            push_target: self.pushing.push_target,
        }
    }
}

/// The request that is sent through the cloud.
pub open spec fn cloud_request(sequence_id: Seq<char>) -> PushAllView {
    PushAllView { sequence_id, command: "pushall"@, version: None, push_target: None }
}

/// The request that is sent to a printer itself.
pub open spec fn local_request() -> PushAllView {
    PushAllView {
        sequence_id: "0"@,
        command: "pushall"@,
        version: Some(1u8),
        push_target: Some(1u8),
    }
}

/// The request that is sent through the cloud.
pub fn cloud_pushall(sequence_id: String) -> (r: PushAllRequest)
    ensures
        r@ == cloud_request(sequence_id@),
{
    PushAllRequest {
        pushing: PushAllCommand {
            sequence_id,
            command: "pushall".to_owned(),
            version: None,
            push_target: None,
        },
    }
}

/// The request that is sent to a printer itself.
pub fn local_pushall() -> (r: PushAllRequest)
    ensures
        r@ == local_request(),
{
    PushAllRequest {
        pushing: PushAllCommand {
            sequence_id: "0".to_owned(),
            command: "pushall".to_owned(),
            version: Some(1),
            push_target: Some(1),
        },
    }
}

/// A report: the status of a print, under the key `print` or on its own.
#[derive(Debug)]
pub enum ReportPayload {
    Wrapped { print: PrinterStatus },
    Bare(PrinterStatus),
}

/// The status that a report holds.
pub open spec fn status_of(payload: ReportPayload) -> PrinterStatus {
    match payload {
        ReportPayload::Wrapped { print } => print,
        ReportPayload::Bare(report) => report,
    }
}

impl ReportPayload {
    /// The status that the report holds.
    pub fn into_report(self) -> (r: PrinterStatus)
        ensures
            r == status_of(self),
    {
        match self {
            ReportPayload::Wrapped { print } => print,
            ReportPayload::Bare(report) => report,
        }
    }
}

/// The topic under which a device reports.
pub open spec fn report_topic(device_id: Seq<char>) -> Seq<char> {
    "device/"@ + device_id + "/report"@
}

/// The topic under which a device takes requests.
pub open spec fn request_topic(device_id: Seq<char>) -> Seq<char> {
    "device/"@ + device_id + "/request"@
}

/// The topic under which a device reports.
pub fn report_topic_of(device_id: &str) -> (r: String)
    ensures
        r@ == report_topic(device_id@),
{
    "device/".to_owned().concat(device_id).concat("/report")
}

/// The topic under which a device takes requests.
pub fn request_topic_of(device_id: &str) -> (r: String)
    ensures
        r@ == request_topic(device_id@),
{
    "device/".to_owned().concat(device_id).concat("/request")
}

/// The device whose reports come under `topic`, if it is such a topic.
pub open spec fn reporter(topic: Seq<char>) -> Option<Seq<char>> {
    let parts = text::parts_of(topic, '/');
    if parts.len() == 3 && parts[0] == "device"@ && parts[2] == "report"@ {
        Some(parts[1])
    } else {
        None
    }
}

/// The device whose reports come under `topic`.
pub fn reporting_device(topic: &str) -> (r: Option<&str>)
    ensures
        match r {
            Some(device_id) => reporter(topic@) == Some(device_id@),
            None => reporter(topic@) is None,
        },
{
    let parts = text::split(topic, '/');
    assert(text::views(parts@).len() == parts@.len());
    if parts.len() == 3 {
        assert(text::views(parts@)[0] == parts@[0]@);
        assert(text::views(parts@)[1] == parts@[1]@);
        assert(text::views(parts@)[2] == parts@[2]@);
        if text::same(parts[0], "device") && text::same(parts[2], "report") {
            return Some(parts[1]);
        }
    }
    None
}

/// The topic under which a device reports leads back to the device, and to no other.
pub proof fn law_report_topic_names_its_device(device_id: Seq<char>)
    requires
        !device_id.contains('/'),
    ensures
        reporter(report_topic(device_id)) == Some(device_id),
{
    reveal_strlit("device/");
    reveal_strlit("/report");
    reveal_strlit("device");
    reveal_strlit("report");
    let topic = report_topic(device_id);
    let n = device_id.len() as int;
    let rest = device_id + "/report"@;
    assert(topic =~= "device"@ + seq!['/'] + rest);
    text::lemma_parts_of(("device"@), rest, '/');
    assert(rest =~= device_id + seq!['/'] + "report"@);
    assert forall|i: int| 0 <= i < n implies device_id[i] != '/' by {
        if device_id[i] == '/' {
            assert(device_id.contains('/'));
        }
    }
    text::lemma_parts_of(device_id, "report"@, '/');
    text::lemma_one_part("report"@, '/');
    let parts = text::parts_of(topic, '/');
    assert(parts =~= seq!["device"@, device_id, "report"@]);
}

// ---------------------------------------------------------------------------
// Targets
// ---------------------------------------------------------------------------

/// Who is listened to.
#[derive(Debug, Clone)]
pub enum MqttTarget {
    Cloud { endpoint: MqttEndpoint, user_id: String, access_token: String, device_ids: Vec<String> },
    Local(LocalDevice),
}

/// How the other side of a connection is authenticated.
#[derive(Debug, Clone, Copy, PartialEq, Eq, Structural)]
pub enum Trust {
    /// By the certificates that the system trusts.
    System,
    /// By the certificates of the printers.
    Device,
}

/// How a connection is made.
#[derive(Debug)]
pub struct ConnectionOptions {
    pub client_id: String,
    pub host: String,
    pub port: u16,
    pub keep_alive_seconds: u64,
    pub username: String,
    pub password: String,
    pub trust: Trust,
}

/// The view of how a connection is made.
pub struct OptionsView {
    pub client_id: Seq<char>,
    pub host: Seq<char>,
    pub port: u16,
    pub keep_alive_seconds: u64,
    pub username: Seq<char>,
    pub password: Seq<char>,
    pub trust: Trust,
}

impl View for ConnectionOptions {
    type V = OptionsView;

    open spec fn view(&self) -> OptionsView {
        OptionsView {
            client_id: self.client_id@,
            host: self.host@,
            port: self.port,
            keep_alive_seconds: self.keep_alive_seconds,
            username: self.username@,
            password: self.password@,
            trust: self.trust,
        }
    }
}

/// The name under which a user speaks MQTT: it begins with `u_`.
pub open spec fn username_of(user_id: Seq<char>) -> Seq<char> {
    if text::begins_with(user_id, "u_"@) {
        user_id
    } else {
        "u_"@ + user_id
    }
}

/// The name under which a user speaks MQTT.
pub fn mqtt_username(user_id: &str) -> (r: String)
    ensures
        r@ == username_of(user_id@),
{
    if text::starts_with(user_id, "u_") {
        user_id.to_owned()
    } else {
        "u_".to_owned().concat(user_id)
    }
}

/// The name under which a user speaks MQTT begins with `u_`, and is its own name.
pub proof fn law_username_is_prefixed(user_id: Seq<char>)
    ensures
        text::begins_with(username_of(user_id), "u_"@),
        username_of(username_of(user_id)) == username_of(user_id),
{
    reveal_strlit("u_");
    assert(("u_"@ + user_id).take(2) =~= "u_"@);
}

/// The devices of a target, in order.
pub open spec fn ids_of_target(target: MqttTarget) -> Seq<String> {
    match target {
        MqttTarget::Cloud { device_ids, .. } => device_ids@,
        MqttTarget::Local(device) => seq![device.id],
    }
}

/// How a connection to `target` is made, by a client that calls itself `unique`.
pub open spec fn options_of(target: MqttTarget, unique: Seq<char>) -> OptionsView {
    match target {
        MqttTarget::Cloud { endpoint, user_id, access_token, .. } => OptionsView {
            client_id: "bambu-overlay-"@ + unique,
            host: endpoint.host@,
            port: endpoint.port,
            keep_alive_seconds: KEEPALIVE_SECONDS,
            username: username_of(user_id@),
            password: access_token@,
            trust: Trust::System,
        },
        MqttTarget::Local(device) => OptionsView {
            client_id: "bambu-overlay-"@ + unique,
            host: device.host@,
            port: device.mqtt_port,
            keep_alive_seconds: KEEPALIVE_SECONDS,
            username: "bblp"@,
            password: device.access_code->0@,
            trust: Trust::Device,
        },
    }
}

/// Whether the text of a UUID has a hyphen at `i`.
pub open spec fn hyphen_at(i: int) -> bool {
    i == 8 || i == 13 || i == 18 || i == 23
}

/// Whether `s` is written as a random UUID is: thirty-two lower-case hexadecimal digits in groups
/// of eight, four, four, four and twelve, with hyphens between them, the third group beginning with
/// a four.
pub open spec fn uuid_text(s: Seq<char>) -> bool {
    &&& s.len() == 36
    &&& s[14] == '4'
    &&& forall|i: int|
        0 <= i < 36 ==> if hyphen_at(i) {
            #[trigger] s[i] == '-'
        } else {
            '0' <= s[i] <= '9' || 'a' <= s[i] <= 'f'
        }
}

/// `Uuid::new_v4`, as its `Display` writes it: a random UUID. Which one it is rests on chance, and
/// there is none where the system has no random bytes to give.
#[verifier::external_body]
fn random_uuid() -> (r: String)
    ensures
        uuid_text(r@),
{
    Uuid::new_v4().to_string()
}

impl MqttTarget {
    /// Whether all that a connection needs is known. A local device needs a code.
    pub open spec fn ready(self) -> bool {
        match self {
            MqttTarget::Cloud { .. } => true,
            MqttTarget::Local(device) => device.access_code is Some,
        }
    }

    /// Devices that are listened to through the cloud.
    pub fn cloud(
        endpoint: MqttEndpoint,
        user_id: String,
        access_token: String,
        device_ids: Vec<String>,
    ) -> (r: Self)
        ensures
            r == (MqttTarget::Cloud { endpoint, user_id, access_token, device_ids }),
    {
        MqttTarget::Cloud { endpoint, user_id, access_token, device_ids }
    }

    /// A device that is listened to directly.
    pub fn local(device: LocalDevice) -> (r: Self)
        ensures
            r == MqttTarget::Local(device),
    {
        MqttTarget::Local(device)
    }

    /// Whether all that a connection needs is known.
    pub fn is_ready(&self) -> (r: bool)
        ensures
            r == self.ready(),
    {
        match self {
            MqttTarget::Cloud { .. } => true,
            MqttTarget::Local(device) => device.access_code.is_some(),
        }
    }

    /// The devices of the target, in order.
    pub fn device_ids(&self) -> (r: Vec<String>)
        ensures
            r@ == ids_of_target(*self),
    {
        match self {
            MqttTarget::Cloud { device_ids, .. } => cloud::copy_names(device_ids),
            MqttTarget::Local(device) => {
                let mut ids: Vec<String> = Vec::new();
                ids.push(device.id.clone());
                assert(ids@ =~= seq![device.id]);
                ids
            },
        }
    }

    /// The name of the connection: `cloud`, or the id of the local device.
    pub fn connection_key(&self) -> (r: String)
        ensures
            r@ == match *self {
                MqttTarget::Cloud { .. } => "cloud"@,
                MqttTarget::Local(device) => device.id@,
            },
    {
        match self {
            MqttTarget::Cloud { .. } => "cloud".to_owned(),
            MqttTarget::Local(device) => device.id.clone(),
        }
    }

    /// How a connection is made by a client that calls itself `unique`.
    pub fn options_for(&self, unique: &str) -> (r: ConnectionOptions)
        requires
            self.ready(),
        ensures
            r@ == options_of(*self, unique@),
    {
        let client_id = "bambu-overlay-".to_owned().concat(unique);
        match self {
            MqttTarget::Cloud { endpoint, user_id, access_token, .. } => ConnectionOptions {
                client_id,
                host: endpoint.host.clone(),
                port: endpoint.port,
                keep_alive_seconds: KEEPALIVE_SECONDS,
                username: mqtt_username(user_id.as_str()),
                password: access_token.clone(),
                trust: Trust::System,
            },
            MqttTarget::Local(device) => ConnectionOptions {
                client_id,
                host: device.host.clone(),
                port: device.mqtt_port,
                keep_alive_seconds: KEEPALIVE_SECONDS,
                username: "bblp".to_owned(),
                password: match &device.access_code {
                    Some(code) => code.clone(),
                    None => String::new(),
                },
                trust: Trust::Device,
            },
        }
    }

    /// How a connection is made, by a client with a random name.
    pub fn options(&self) -> (r: ConnectionOptions)
        requires
            self.ready(),
        ensures
            exists|unique: Seq<char>| uuid_text(unique) && r@ == #[trigger] options_of(
                *self,
                unique,
            ),
    {
        let unique = random_uuid();
        let options = self.options_for(unique.as_str());
        assert(uuid_text(unique@) && options@ == options_of(*self, unique@));
        options
    }

    /// What is sent to a device so that it reports everything.
    pub fn pushall(&self, sequence_id: String) -> (r: PushAllRequest)
        ensures
            r@ == request_of(*self, sequence_id@),
    {
        match self {
            MqttTarget::Cloud { .. } => cloud_pushall(sequence_id),
            MqttTarget::Local(_) => local_pushall(),
        }
    }
}

/// What is sent to a device so that it reports everything.
pub open spec fn request_of(target: MqttTarget, sequence_id: Seq<char>) -> PushAllView {
    match target {
        MqttTarget::Cloud { .. } => cloud_request(sequence_id),
        MqttTarget::Local(_) => local_request(),
    }
}

// ---------------------------------------------------------------------------
// Sessions
// ---------------------------------------------------------------------------

/// What a session does with one of its devices once it is connected: it subscribes to the topic
/// of its reports and then sends the request.
#[derive(Debug)]
pub struct DevicePlan {
    pub device_id: String,
    pub report_topic: String,
    pub request_topic: String,
    pub request: PushAllRequest,
}

/// Whether `plan` is that of the device at `place`.
pub open spec fn plans_device(
    plan: DevicePlan,
    target: MqttTarget,
    device_id: String,
    place: nat,
) -> bool {
    &&& plan.device_id == device_id
    &&& plan.report_topic@ == report_topic(device_id@)
    &&& plan.request_topic@ == request_topic(device_id@)
    &&& plan.request@ == request_of(target, text::decimal(place))
}

/// The topics that a session listens to.
pub open spec fn topics_of(ids: Seq<String>) -> Set<Seq<char>> {
    Set::new(
        |topic: Seq<char>|
            exists|i: int| 0 <= i < ids.len() && topic == report_topic((#[trigger] ids[i])@),
    )
}

/// What a session does once it is connected.
#[derive(Debug)]
pub struct SessionPlan {
    pub devices: Vec<DevicePlan>,
    pub topics: NameSet,
}

/// What a session does once it is connected: its devices, in order, numbered from zero.
pub fn session_plan(target: &MqttTarget) -> (r: SessionPlan)
    ensures
        r.topics@ == topics_of(ids_of_target(*target)),
        r.devices@.len() == ids_of_target(*target).len(),
        forall|i: int|
            0 <= i < r.devices@.len() ==> plans_device(
                #[trigger] r.devices@[i],
                *target,
                ids_of_target(*target)[i],
                i as nat,
            ),
{
    let ids = target.device_ids();
    let mut devices: Vec<DevicePlan> = Vec::new();
    let mut topics = NameSet::new();
    let mut i: usize = 0;
    assert(topics@ =~= topics_of(ids@.take(0)));
    while i < ids.len()
        invariant
            ids@ == ids_of_target(*target),
            i <= ids@.len(),
            devices@.len() == i,
            topics@ == topics_of(ids@.take(i as int)),
            forall|k: int|
                0 <= k < i ==> plans_device(#[trigger] devices@[k], *target, ids@[k], k as nat),
        decreases ids.len() - i,
    {
        let ghost before = topics@;
        let topic = report_topic_of(ids[i].as_str());
        topics.insert(topic.clone());
        devices.push(
            DevicePlan {
                device_id: ids[i].clone(),
                report_topic: topic,
                request_topic: request_topic_of(ids[i].as_str()),
                request: target.pushall(text::decimal_text(i as u128)),
            },
        );
        proof {
            let next = ids@.take(i + 1);
            let front = ids@.take(i as int);
            assert forall|name: Seq<char>| #[trigger]
                topics@.contains(name) <==> topics_of(next).contains(name) by {
                if before.contains(name) {
                    let k = choose|k: int|
                        0 <= k < front.len() && name == report_topic((#[trigger] front[k])@);
                    assert(next[k] == front[k]);
                }
                if name == report_topic(ids@[i as int]@) {
                    assert(next[i as int] == ids@[i as int]);
                }
                if topics_of(next).contains(name) {
                    let k = choose|k: int|
                        0 <= k < next.len() && name == report_topic((#[trigger] next[k])@);
                    if k < i {
                        assert(front[k] == next[k]);
                    }
                }
            }
            assert(topics@ =~= topics_of(next));
        }
        i = i + 1;
    }
    assert(ids@.take(i as int) =~= ids@);
    SessionPlan { devices, topics }
}

/// What a connection brings.
#[derive(Debug)]
pub enum Incoming {
    Publish { topic: String, payload: Vec<u8> },
    Disconnect,
    Other,
}

/// What a session makes of what a connection brings.
#[derive(Debug)]
pub enum SessionEvent {
    /// A report came.
    Report { topic: String, payload: Vec<u8> },
    /// What came is not for this session.
    Ignored,
    /// The session is over.
    Over,
}

/// What a session that listens to `topics` makes of what a connection brings.
pub fn next_event(topics: &NameSet, incoming: Incoming) -> (r: SessionEvent)
    ensures
        r == match incoming {
            Incoming::Publish { topic, payload } => if topics@.contains(topic@) {
                SessionEvent::Report { topic, payload }
            } else {
                SessionEvent::Ignored
            },
            Incoming::Disconnect => SessionEvent::Over,
            Incoming::Other => SessionEvent::Ignored,
        },
{
    match incoming {
        Incoming::Publish { topic, payload } => if topics.contains(topic.as_str()) {
            SessionEvent::Report { topic, payload }
        } else {
            SessionEvent::Ignored
        },
        Incoming::Disconnect => SessionEvent::Over,
        Incoming::Other => SessionEvent::Ignored,
    }
}

// ---------------------------------------------------------------------------
// Reports
// ---------------------------------------------------------------------------

/// What became of a message.
#[derive(Debug, Clone, Copy, PartialEq, Eq, Structural)]
pub enum Handled {
    /// Its topic is not that of a report.
    UnexpectedTopic,
    /// It is not a report.
    Unreadable,
    /// What it reports was taken over.
    Merged,
}

/// What a device reported so far.
pub open spec fn base_of(
    reports: Map<Seq<char>, PrinterStatus>,
    device_id: Seq<char>,
) -> PrinterStatus {
    if reports.contains_key(device_id) {
        reports[device_id]
    } else {
        models::empty_status()
    }
}

/// The reports after a device reported `status`.
pub open spec fn reports_after(
    reports: Map<Seq<char>, PrinterStatus>,
    device_id: Seq<char>,
    status: PrinterStatus,
) -> Map<Seq<char>, PrinterStatus> {
    reports.insert(device_id, models::merged(base_of(reports, device_id), status))
}

/// Takes over what a device reports and keeps the rest of what it reported before.
pub fn merge_report(reports: &mut Table<PrinterStatus>, device_id: &str, report: PrinterStatus)
    ensures
        final(reports)@ == reports_after(old(reports)@, device_id@, report),
{
    let ghost before = reports@;
    let mut status = match reports.remove(device_id) {
        Some(status) => status,
        None => PrinterStatus::default(),
    };
    status.merge(report);
    reports.insert(device_id.to_owned(), status);
    assert(reports@ =~= reports_after(before, device_id@, report));
}

/// Takes over a message that came under `topic`, where `report` is what was read from it, if it is
/// a report.
pub fn handle_publish(
    reports: &mut Table<PrinterStatus>,
    topic: &str,
    report: Option<ReportPayload>,
) -> (r: Handled)
    ensures
        match r {
            Handled::UnexpectedTopic => reporter(topic@) is None,
            Handled::Unreadable => reporter(topic@) is Some && report is None,
            Handled::Merged => reporter(topic@) is Some && report is Some,
        },
        final(reports)@ == (if reporter(topic@) is Some && report is Some {
            reports_after(old(reports)@, reporter(topic@)->0, status_of(report->0))
        } else {
            old(reports)@
        }),
{
    let device_id = match reporting_device(topic) {
        Some(device_id) => device_id,
        None => return Handled::UnexpectedTopic,
    };
    match report {
        Some(report) => {
            merge_report(reports, device_id, report.into_report());
            Handled::Merged
        },
        None => Handled::Unreadable,
    }
}

/// A report changes what is known of its device, and of no other.
pub proof fn law_report_concerns_one_device(
    reports: Map<Seq<char>, PrinterStatus>,
    device_id: Seq<char>,
    status: PrinterStatus,
    other: Seq<char>,
)
    requires
        other != device_id,
    ensures
        reports_after(reports, device_id, status).contains_key(other) == reports.contains_key(
            other,
        ),
        reports.contains_key(other) ==> reports_after(reports, device_id, status)[other]
            == reports[other],
        reports_after(reports, device_id, status).contains_key(device_id),
{
}

/// Two reports of a device leave what one report of both, the later taken over the earlier, would.
pub proof fn law_reports_accumulate(
    reports: Map<Seq<char>, PrinterStatus>,
    device_id: Seq<char>,
    first: PrinterStatus,
    second: PrinterStatus,
)
    ensures
        reports_after(reports_after(reports, device_id, first), device_id, second)
            == reports_after(reports, device_id, models::merged(first, second)),
{
    let base = base_of(reports, device_id);
    models::law_merge_associative(base, first, second);
    lemma_replaced(reports, device_id, models::merged(base, first), models::merged(
        models::merged(base, first),
        second,
    ));
}

/// Of two values that a key is given, the later one stays.
proof fn lemma_replaced<V>(map: Map<Seq<char>, V>, key: Seq<char>, first: V, second: V)
    ensures
        map.insert(key, first).insert(key, second) == map.insert(key, second),
        map.insert(key, first).contains_key(key),
        map.insert(key, first)[key] == first,
{
    assert(map.insert(key, first).insert(key, second) =~= map.insert(key, second));
}

/// The beginning of a message that is no report, as it is shown.
pub open spec fn preview(payload: Seq<u8>) -> Seq<char> {
    if payload.len() > PREVIEW_SIZE {
        text::beginning(payload, PREVIEW_SIZE as nat) + "..."@
    } else {
        text::beginning(payload, PREVIEW_SIZE as nat)
    }
}

/// The beginning of a message that is no report.
pub fn payload_preview(payload: &[u8]) -> (r: String)
    ensures
        r@ == preview(payload@),
{
    let beginning = text::beginning_of(payload, PREVIEW_SIZE);
    if payload.len() > PREVIEW_SIZE {
        beginning.concat("...")
    } else {
        beginning
    }
}

// ---------------------------------------------------------------------------
// Supervision
// ---------------------------------------------------------------------------

/// How long a supervisor waits after a session ended, in nanoseconds, if it does: it waits only
/// after an error.
pub fn after_session(delay: &mut Backoff, in_order: bool) -> (r: Option<u64>)
    ensures
        final(delay).first() == old(delay).first(),
        final(delay).next() == (if in_order {
            old(delay).first()
        } else {
            retry::longer(old(delay).next())
        }),
        match r {
            None => in_order,
            Some(nanos) => !in_order && nanos == old(delay).next(),
        },
{
    if in_order {
        delay.reset();
        None
    } else {
        let nanos = delay.nanos();
        delay.lengthen();
        Some(nanos)
    }
}

/// How long a monitor waits after a session ended, in nanoseconds.
pub fn after_monitored_session(delay: &mut Backoff, in_order: bool) -> (r: u64)
    ensures
        final(delay).first() == old(delay).first(),
        r == (if in_order {
            old(delay).first()
        } else {
            old(delay).next()
        }),
        final(delay).next() == retry::longer(r as int),
{
    if in_order {
        delay.reset();
    }
    let nanos = delay.nanos();
    delay.lengthen();
    nanos
}

/// What is said of a supervisor that ended, where `failure` tells how, if it failed.
pub open spec fn supervisor_error(local: bool, failure: Option<Seq<char>>) -> Seq<char> {
    let name = if local {
        "local MQTT supervisor"@
    } else {
        "MQTT supervisor"@
    };
    match failure {
        None => name + " exited unexpectedly"@,
        Some(error) => name + " task failed: "@ + error,
    }
}

/// What is said of the supervisor of `target` that ended, where `failure` tells how, if it failed.
pub fn supervisor_ended(target: &MqttTarget, failure: Option<&str>) -> (r: String)
    ensures
        r@ == supervisor_error(
            target is Local,
            match failure {
                Some(error) => Some(error@),
                None => None,
            },
        ),
{
    let name = match target {
        MqttTarget::Local(_) => "local MQTT supervisor",
        MqttTarget::Cloud { .. } => "MQTT supervisor",
    };
    match failure {
        None => name.to_owned().concat(" exited unexpectedly"),
        Some(error) => name.to_owned().concat(" task failed: ").concat(error),
    }
}

// ---------------------------------------------------------------------------
// What every connection and every report keeps to
// ---------------------------------------------------------------------------

/// A topic is that of the reports of a device exactly where it is `device/`, the id and `/report`; and
/// requests go to `device/`, the id and `/request`.
pub proof fn law_topics_are_those_of_devices(
    topic: &str,
    r: Option<&str>,
    device_id: &str,
    reports: String,
    requests: String,
)
    requires
        call_ensures(reporting_device, (topic,), r),
        call_ensures(report_topic_of, (device_id,), reports),
        call_ensures(request_topic_of, (device_id,), requests),
    ensures
        reports@ == "device/"@ + device_id@ + "/report"@,
        requests@ == "device/"@ + device_id@ + "/request"@,
        r matches Some(id) ==> topic@ == "device/"@ + id@ + "/report"@ && !id@.contains('/'),
        topic@ == reports@ && !device_id@.contains('/') ==> r is Some && r->0@ == device_id@,
{
    reveal_strlit("device/");
    reveal_strlit("/report");
    reveal_strlit("device");
    reveal_strlit("report");
    if r is Some {
        let s = topic@;
        let id = r->0@;
        let parts = text::parts_of(s, '/');
        text::lemma_first_index(s, '/');
        assert(s.contains('/'));
        let first = text::first_index(s, '/');
        let tail = s.skip(first + 1);
        let more = text::parts_of(tail, '/');
        assert(parts =~= seq![s.take(first)] + more);
        assert(more[0] == parts[1] && more[1] == parts[2] && more.len() == 2);
        text::lemma_first_index(tail, '/');
        assert(tail.contains('/'));
        let second = text::first_index(tail, '/');
        let last = tail.skip(second + 1);
        let end = text::parts_of(last, '/');
        assert(more =~= seq![tail.take(second)] + end);
        assert(end.len() == 1);
        text::lemma_first_index(last, '/');
        if last.contains('/') {
            assert(text::parts_of(last.skip(text::first_index(last, '/') + 1), '/').len() >= 1) by {
                lemma_some_part(last.skip(text::first_index(last, '/') + 1));
            }
            assert(false);
        }
        assert(end[0] == last);
        assert(s[first] == '/' && tail[second] == '/');
        assert(s =~= s.take(first) + seq!['/'] + tail);
        assert(tail =~= tail.take(second) + seq!['/'] + last);
        assert(s =~= "device/"@ + id + "/report"@);
        if id.contains('/') {
            let k = choose|k: int| 0 <= k < id.len() && id[k] == '/';
            assert(tail[k] == '/');
        }
    }
    if topic@ == reports@ && !device_id@.contains('/') {
        law_report_topic_names_its_device(device_id@);
    }
}

proof fn lemma_some_part(s: Seq<char>)
    ensures
        text::parts_of(s, '/').len() >= 1,
{
}

/// A connection through the cloud is made to the given address by the user and with the token; one to
/// a printer is made to its host by `bblp` and with its code. The other side is trusted by the
/// certificates of the system or by those of printers, and may be silent for a minute.
pub proof fn law_connections_use_their_own_secrets(
    target: &MqttTarget,
    unique: &str,
    r: ConnectionOptions,
)
    requires
        call_ensures(MqttTarget::options_for, (target, unique), r),
    ensures
        r.client_id@ == "bambu-overlay-"@ + unique@,
        r.keep_alive_seconds == 60,
        *target matches MqttTarget::Cloud { endpoint, user_id, access_token, device_ids } ==> {
            &&& r.host@ == endpoint.host@
            &&& r.port == endpoint.port
            &&& r.password@ == access_token@
            &&& r.trust == Trust::System
            &&& user_id@.len() >= 2 && user_id@[0] == 'u' && user_id@[1] == '_' ==> r.username@
                == user_id@
            &&& user_id@.len() < 2 || user_id@[0] != 'u' || user_id@[1] != '_' ==> r.username@
                == seq!['u', '_'] + user_id@
        },
        *target matches MqttTarget::Local(device) ==> {
            &&& r.host@ == device.host@
            &&& r.port == device.mqtt_port
            &&& r.username@ == "bblp"@
            &&& device.access_code is Some ==> r.password@ == device.access_code->0@
            &&& r.trust == Trust::Device
        },
{
    reveal_strlit("u_");
    assert("u_"@ =~= seq!['u', '_']);
    if let MqttTarget::Cloud { endpoint, user_id, access_token, device_ids } = target {
        let user = user_id@;
        if user.len() >= 2 {
            assert(user.take(2)[0] == user[0] && user.take(2)[1] == user[1]);
            if user[0] == 'u' && user[1] == '_' {
                assert(user.take(2) =~= "u_"@);
            }
        }
    }
}

/// A connection by a client with a random name is made in the same way.
pub proof fn law_random_clients_connect_in_the_same_way(target: &MqttTarget, r: ConnectionOptions)
    requires
        call_ensures(MqttTarget::options, (target,), r),
    ensures
        r.keep_alive_seconds == 60,
        r.client_id@.len() == 50,
        *target matches MqttTarget::Cloud { endpoint, user_id, access_token, device_ids } ==> {
            &&& r.host@ == endpoint.host@
            &&& r.port == endpoint.port
            &&& r.username@ == username_of(user_id@)
            &&& r.password@ == access_token@
            &&& r.trust == Trust::System
        },
        *target matches MqttTarget::Local(device) ==> {
            &&& r.host@ == device.host@
            &&& r.port == device.mqtt_port
            &&& r.username@ == "bblp"@
            &&& device.access_code is Some ==> r.password@ == device.access_code->0@
            &&& r.trust == Trust::Device
        },
{
    reveal_strlit("bambu-overlay-");
}

/// A connection is ready to be made unless it is to a printer whose code is not known; its devices are
/// those of the target; and it is named `cloud`, or by its device.
pub proof fn law_targets_tell_their_devices(
    endpoint: MqttEndpoint,
    user_id: String,
    access_token: String,
    device_ids: Vec<String>,
    device: LocalDevice,
    cloud: MqttTarget,
    local: MqttTarget,
    cloud_ids: Vec<String>,
    local_ids: Vec<String>,
    cloud_key: String,
    local_key: String,
    cloud_ready: bool,
    local_ready: bool,
)
    requires
        call_ensures(MqttTarget::cloud, (endpoint, user_id, access_token, device_ids), cloud),
        call_ensures(MqttTarget::local, (device,), local),
        call_ensures(MqttTarget::device_ids, (&cloud,), cloud_ids),
        call_ensures(MqttTarget::device_ids, (&local,), local_ids),
        call_ensures(MqttTarget::connection_key, (&cloud,), cloud_key),
        call_ensures(MqttTarget::connection_key, (&local,), local_key),
        call_ensures(MqttTarget::is_ready, (&cloud,), cloud_ready),
        call_ensures(MqttTarget::is_ready, (&local,), local_ready),
    ensures
        cloud_ids@ == device_ids@,
        local_ids@.len() == 1,
        local_ids@[0] == device.id,
        cloud_key@ == "cloud"@,
        local_key@ == device.id@,
        cloud_ready,
        local_ready <==> device.access_code is Some,
{
}

/// A session subscribes to the reports of each of its devices, in order, and asks each for all that it
/// has to report, through the cloud under the number of its place.
pub proof fn law_session_asks_each_device(target: &MqttTarget, r: SessionPlan, i: int, other: Seq<char>)
    requires
        call_ensures(session_plan, (target,), r),
        0 <= i < r.devices@.len(),
    ensures
        ({
            let plan = r.devices@[i];
            let request = plan.request.pushing;
            &&& plan.report_topic@ == "device/"@ + plan.device_id@ + "/report"@
            &&& plan.request_topic@ == "device/"@ + plan.device_id@ + "/request"@
            &&& r.topics@.contains(plan.report_topic@)
            &&& request.command@ == "pushall"@
            &&& *target matches MqttTarget::Cloud { device_ids, .. } ==> {
                &&& r.devices@.len() == device_ids@.len()
                &&& plan.device_id == device_ids@[i]
                &&& request.sequence_id@ == text::decimal(i as nat)
                &&& request.version is None
                &&& request.push_target is None
            }
            &&& *target matches MqttTarget::Local(device) ==> {
                &&& r.devices@.len() == 1
                &&& plan.device_id == device.id
                &&& request.sequence_id@ == "0"@
                &&& request.version == Some(1u8)
                &&& request.push_target == Some(1u8)
            }
            &&& r.topics@.contains(other) ==> exists|k: int|
                0 <= k < r.devices@.len() && other == (#[trigger] r.devices@[k]).report_topic@
        }),
{
    let ids = ids_of_target(*target);
    assert(plans_device(r.devices@[i], *target, ids[i], i as nat));
    assert(topics_of(ids).contains(report_topic(ids[i]@)));
    if r.topics@.contains(other) {
        let k = choose|k: int| 0 <= k < ids.len() && other == report_topic((#[trigger] ids[k])@);
        assert(plans_device(r.devices@[k], *target, ids[k], k as nat));
        assert(r.devices@[k].report_topic@ == other);
    }
}

/// What comes under a topic that a session listens to is a report, as it came; whatever else comes is
/// not for it; and a disconnection ends it.
pub proof fn law_reports_come_under_their_topics(
    topics: &NameSet,
    topic: String,
    payload: Vec<u8>,
    published: SessionEvent,
    disconnected: SessionEvent,
    other: SessionEvent,
)
    requires
        call_ensures(next_event, (topics, Incoming::Publish { topic, payload }), published),
        call_ensures(next_event, (topics, Incoming::Disconnect), disconnected),
        call_ensures(next_event, (topics, Incoming::Other), other),
    ensures
        topics@.contains(topic@) ==> published == (SessionEvent::Report { topic, payload }),
        !topics@.contains(topic@) ==> published is Ignored,
        disconnected is Over,
        other is Ignored,
{
}

/// A device that reports is known, field by field, by what it reports, and where it does not report a
/// field, by what it reported of it before, if it did.
pub proof fn law_reports_update_field_by_field(
    reports: Map<Seq<char>, PrinterStatus>,
    device_id: Seq<char>,
    status: PrinterStatus,
)
    ensures
        ({
            let after = reports_after(reports, device_id, status)[device_id];
            &&& status.task_id is Some ==> after.task_id == status.task_id
            &&& status.task_id is None && reports.contains_key(device_id) ==> after.task_id
                == reports[device_id].task_id
            &&& status.task_id is None && !reports.contains_key(device_id) ==> after.task_id is None
            &&& status.task_name is Some ==> after.task_name == status.task_name
            &&& status.task_name is None && reports.contains_key(device_id) ==> after.task_name
                == reports[device_id].task_name
            &&& status.task_name is None && !reports.contains_key(device_id) ==> after.task_name is None
            &&& status.status is Some ==> after.status == status.status
            &&& status.status is None && reports.contains_key(device_id) ==> after.status
                == reports[device_id].status
            &&& status.status is None && !reports.contains_key(device_id) ==> after.status is None
            &&& status.progress is Some ==> after.progress == status.progress
            &&& status.progress is None && reports.contains_key(device_id) ==> after.progress
                == reports[device_id].progress
            &&& status.progress is None && !reports.contains_key(device_id) ==> after.progress is None
            &&& status.prediction_seconds is Some ==> after.prediction_seconds == status.prediction_seconds
            &&& status.prediction_seconds is None && reports.contains_key(device_id) ==> after.prediction_seconds
                == reports[device_id].prediction_seconds
            &&& status.prediction_seconds is None && !reports.contains_key(device_id) ==> after.prediction_seconds is None
            &&& status.start_time is Some ==> after.start_time == status.start_time
            &&& status.start_time is None && reports.contains_key(device_id) ==> after.start_time
                == reports[device_id].start_time
            &&& status.start_time is None && !reports.contains_key(device_id) ==> after.start_time is None
            &&& status.filename is Some ==> after.filename == status.filename
            &&& status.filename is None && reports.contains_key(device_id) ==> after.filename
                == reports[device_id].filename
            &&& status.filename is None && !reports.contains_key(device_id) ==> after.filename is None
            &&& status.weight is Some ==> after.weight == status.weight
            &&& status.weight is None && reports.contains_key(device_id) ==> after.weight
                == reports[device_id].weight
            &&& status.weight is None && !reports.contains_key(device_id) ==> after.weight is None
            &&& status.layer_current is Some ==> after.layer_current == status.layer_current
            &&& status.layer_current is None && reports.contains_key(device_id) ==> after.layer_current
                == reports[device_id].layer_current
            &&& status.layer_current is None && !reports.contains_key(device_id) ==> after.layer_current is None
            &&& status.layer_total is Some ==> after.layer_total == status.layer_total
            &&& status.layer_total is None && reports.contains_key(device_id) ==> after.layer_total
                == reports[device_id].layer_total
            &&& status.layer_total is None && !reports.contains_key(device_id) ==> after.layer_total is None
            &&& status.remaining_minutes is Some ==> after.remaining_minutes == status.remaining_minutes
            &&& status.remaining_minutes is None && reports.contains_key(device_id) ==> after.remaining_minutes
                == reports[device_id].remaining_minutes
            &&& status.remaining_minutes is None && !reports.contains_key(device_id) ==> after.remaining_minutes is None
            &&& status.toolhead_temperature is Some ==> after.toolhead_temperature == status.toolhead_temperature
            &&& status.toolhead_temperature is None && reports.contains_key(device_id) ==> after.toolhead_temperature
                == reports[device_id].toolhead_temperature
            &&& status.toolhead_temperature is None && !reports.contains_key(device_id) ==> after.toolhead_temperature is None
            &&& status.bed_temperature is Some ==> after.bed_temperature == status.bed_temperature
            &&& status.bed_temperature is None && reports.contains_key(device_id) ==> after.bed_temperature
                == reports[device_id].bed_temperature
            &&& status.bed_temperature is None && !reports.contains_key(device_id) ==> after.bed_temperature is None
            &&& status.fan_speed is Some ==> after.fan_speed == status.fan_speed
            &&& status.fan_speed is None && reports.contains_key(device_id) ==> after.fan_speed
                == reports[device_id].fan_speed
            &&& status.fan_speed is None && !reports.contains_key(device_id) ==> after.fan_speed is None
            &&& status.ams is Some ==> after.ams == status.ams
            &&& status.ams is None && reports.contains_key(device_id) ==> after.ams
                == reports[device_id].ams
            &&& status.ams is None && !reports.contains_key(device_id) ==> after.ams is None
            &&& status.external_tray is Some ==> after.external_tray == status.external_tray
            &&& status.external_tray is None && reports.contains_key(device_id) ==> after.external_tray
                == reports[device_id].external_tray
            &&& status.external_tray is None && !reports.contains_key(device_id) ==> after.external_tray is None
            &&& status.speed_level is Some ==> after.speed_level == status.speed_level
            &&& status.speed_level is None && reports.contains_key(device_id) ==> after.speed_level
                == reports[device_id].speed_level
            &&& status.speed_level is None && !reports.contains_key(device_id) ==> after.speed_level is None
        }),
{
}

/// A report is the status that it holds, under a key or on its own.
pub proof fn law_report_is_the_status_it_holds(
    status: PrinterStatus,
    wrapped: PrinterStatus,
    bare: PrinterStatus,
)
    requires
        call_ensures(ReportPayload::into_report, (ReportPayload::Wrapped { print: status },), wrapped),
        call_ensures(ReportPayload::into_report, (ReportPayload::Bare(status),), bare),
    ensures
        wrapped == status,
        bare == status,
{
}

/// Of a message that is no report, the first three hundred bytes are shown, and dots where there are
/// more.
pub proof fn law_previews_are_short(payload: &[u8], r: String)
    requires
        call_ensures(payload_preview, (payload,), r),
    ensures
        payload@.len() <= 300 ==> r@ == text::lossy_text(payload@),
        payload@.len() > 300 ==> r@ == text::lossy_text(payload@.take(300)) + seq!['.', '.', '.'],
        FIRST_WAIT == 2,
{
    reveal_strlit("...");
    assert("..."@ =~= seq!['.', '.', '.']);
    text::law_beginning_is_limited(payload@, 300);
}

/// A supervisor that ended is told of by whom it listened to and by how it failed, if it did.
pub proof fn law_ended_supervisors_are_told_of(
    target: &MqttTarget,
    failure: &str,
    failed: String,
    ended: String,
)
    requires
        call_ensures(supervisor_ended, (target, Some(failure)), failed),
        call_ensures(supervisor_ended, (target, None), ended),
    ensures
        target is Local ==> failed@ == "local MQTT supervisor"@ + " task failed: "@ + failure@
            && ended@ == "local MQTT supervisor"@ + " exited unexpectedly"@,
        target is Cloud ==> failed@ == "MQTT supervisor"@ + " task failed: "@ + failure@ && ended@
            == "MQTT supervisor"@ + " exited unexpectedly"@,
{
}

/// What [`merge_report`] leaves: of the device, each field that it reports as it reports it, each other
/// field as it was reported before, if it was; and of every other device what was known of it.
#[verifier::spinoff_prover]
#[verifier::rlimit(40)]
pub proof fn law_merging_a_report_concerns_its_device(
    reports: &mut Table<PrinterStatus>,
    device_id: &str,
    report: PrinterStatus,
    other: Seq<char>,
)
    requires
        call_ensures(merge_report, (reports, device_id, report), ()),
    ensures
        final(reports)@.contains_key(device_id@),
        other != device_id@ ==> (final(reports)@.contains_key(other) <==> old(reports)@.contains_key(other)),
        other != device_id@ && old(reports)@.contains_key(other) ==> final(reports)@[other] == old(reports)@[other],
        ({
            let after = final(reports)@[device_id@];
            let known = old(reports)@.contains_key(device_id@);
            let before = old(reports)@[device_id@];
            &&& report.task_id is Some ==> after.task_id == report.task_id
            &&& report.task_id is None && known ==> after.task_id == before.task_id
            &&& report.task_id is None && !known ==> after.task_id is None
            &&& report.task_name is Some ==> after.task_name == report.task_name
            &&& report.task_name is None && known ==> after.task_name == before.task_name
            &&& report.task_name is None && !known ==> after.task_name is None
            &&& report.status is Some ==> after.status == report.status
            &&& report.status is None && known ==> after.status == before.status
            &&& report.status is None && !known ==> after.status is None
            &&& report.progress is Some ==> after.progress == report.progress
            &&& report.progress is None && known ==> after.progress == before.progress
            &&& report.progress is None && !known ==> after.progress is None
            &&& report.prediction_seconds is Some ==> after.prediction_seconds == report.prediction_seconds
            &&& report.prediction_seconds is None && known ==> after.prediction_seconds == before.prediction_seconds
            &&& report.prediction_seconds is None && !known ==> after.prediction_seconds is None
            &&& report.start_time is Some ==> after.start_time == report.start_time
            &&& report.start_time is None && known ==> after.start_time == before.start_time
            &&& report.start_time is None && !known ==> after.start_time is None
            &&& report.filename is Some ==> after.filename == report.filename
            &&& report.filename is None && known ==> after.filename == before.filename
            &&& report.filename is None && !known ==> after.filename is None
            &&& report.weight is Some ==> after.weight == report.weight
            &&& report.weight is None && known ==> after.weight == before.weight
            &&& report.weight is None && !known ==> after.weight is None
            &&& report.layer_current is Some ==> after.layer_current == report.layer_current
            &&& report.layer_current is None && known ==> after.layer_current == before.layer_current
            &&& report.layer_current is None && !known ==> after.layer_current is None
            &&& report.layer_total is Some ==> after.layer_total == report.layer_total
            &&& report.layer_total is None && known ==> after.layer_total == before.layer_total
            &&& report.layer_total is None && !known ==> after.layer_total is None
            &&& report.remaining_minutes is Some ==> after.remaining_minutes == report.remaining_minutes
            &&& report.remaining_minutes is None && known ==> after.remaining_minutes == before.remaining_minutes
            &&& report.remaining_minutes is None && !known ==> after.remaining_minutes is None
            &&& report.toolhead_temperature is Some ==> after.toolhead_temperature == report.toolhead_temperature
            &&& report.toolhead_temperature is None && known ==> after.toolhead_temperature == before.toolhead_temperature
            &&& report.toolhead_temperature is None && !known ==> after.toolhead_temperature is None
            &&& report.bed_temperature is Some ==> after.bed_temperature == report.bed_temperature
            &&& report.bed_temperature is None && known ==> after.bed_temperature == before.bed_temperature
            &&& report.bed_temperature is None && !known ==> after.bed_temperature is None
            &&& report.fan_speed is Some ==> after.fan_speed == report.fan_speed
            &&& report.fan_speed is None && known ==> after.fan_speed == before.fan_speed
            &&& report.fan_speed is None && !known ==> after.fan_speed is None
            &&& report.ams is Some ==> after.ams == report.ams
            &&& report.ams is None && known ==> after.ams == before.ams
            &&& report.ams is None && !known ==> after.ams is None
            &&& report.external_tray is Some ==> after.external_tray == report.external_tray
            &&& report.external_tray is None && known ==> after.external_tray == before.external_tray
            &&& report.external_tray is None && !known ==> after.external_tray is None
            &&& report.speed_level is Some ==> after.speed_level == report.speed_level
            &&& report.speed_level is None && known ==> after.speed_level == before.speed_level
            &&& report.speed_level is None && !known ==> after.speed_level is None
        }),
{
    law_reports_update_field_by_field(old(reports)@, device_id@, report);
}

/// A message is taken over where its topic is that of the reports of a device and it could be read,
/// and changes what is known of that device; any other message changes nothing.
pub proof fn law_messages_are_handled_by_their_topic(
    reports: &mut Table<PrinterStatus>,
    topic: &str,
    device_id: Seq<char>,
    report: Option<ReportPayload>,
    r: Handled,
)
    requires
        call_ensures(handle_publish, (reports, topic, report), r),
    ensures
        r == Handled::Merged || final(reports)@ == old(reports)@,
        topic@ == "device/"@ + device_id + "/report"@ && !device_id.contains('/') ==> {
            &&& report is Some ==> r == Handled::Merged
            &&& report is None ==> r == Handled::Unreadable
            &&& report matches Some(payload) ==> {
                let status = status_of(payload);
                let after = final(reports)@[device_id];
                &&& final(reports)@.contains_key(device_id)
                &&& status.progress is Some ==> after.progress == status.progress
                &&& status.progress is None && old(reports)@.contains_key(device_id)
                    ==> after.progress == old(reports)@[device_id].progress
                &&& status.status is Some ==> after.status == status.status
                &&& status.status is None && old(reports)@.contains_key(device_id) ==> after.status
                    == old(reports)@[device_id].status
            }
        },
        reporter(topic@) is None ==> r == Handled::UnexpectedTopic,
{
    if topic@ == "device/"@ + device_id + "/report"@ && !device_id.contains('/') {
        law_report_topic_names_its_device(device_id);
    }
}

/// After a session that ended in order the next one is begun at once, and the waits begin again; after
/// one that failed there is a wait, and the next one is half as long again, up to thirty seconds. A
/// monitor waits either way.
pub proof fn law_failed_sessions_are_waited_for(
    delay: &mut Backoff,
    in_order: bool,
    r: Option<u64>,
    monitored: &mut Backoff,
    wait: u64,
)
    requires
        call_ensures(after_session, (delay, in_order), r),
        call_ensures(after_monitored_session, (monitored, in_order), wait),
    ensures
        in_order ==> r is None && final(delay).next() == old(delay).first(),
        !in_order ==> {
            let nanos = old(delay).next();
            &&& r is Some
            &&& r->0 == nanos
            &&& final(delay).next() <= 30_000_000_000
            &&& 2 * final(delay).next() <= 3 * nanos || final(delay).next() == 30_000_000_000
            &&& nanos + nanos / 2 <= 30_000_000_000 ==> final(delay).next() == nanos + nanos / 2
        },
        final(delay).first() == old(delay).first(),
        in_order ==> wait == old(monitored).first(),
        !in_order ==> wait == old(monitored).next(),
        final(monitored).first() == old(monitored).first(),
        wait + wait / 2 <= 30_000_000_000 ==> final(monitored).next() == wait + wait / 2,
{
}

} // verus!
