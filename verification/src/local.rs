//! Printers of the local network: how they are written, read and addressed.
use crate::bambu::models;
use crate::bambu::models::{CloudDevice, PrinterStatus};
use crate::bambu::MQTT_PORT;
use crate::text;
use std::str::FromStr;
use vstd::prelude::*;

verus! {

// ---------------------------------------------------------------------------
// Endpoints
// ---------------------------------------------------------------------------

/// A host and a port.
#[derive(Debug, PartialEq, Eq)]
pub struct Endpoint {
    pub host: String,
    pub port: u16,
}

/// An endpoint that speaks MQTT.
pub type MqttEndpoint = Endpoint;

impl Clone for Endpoint {
    fn clone(&self) -> (r: Self)
        ensures
            r == *self,
    {
        Endpoint { host: self.host.clone(), port: self.port }
    }
}

/// The text of an endpoint; a host with a colon in it stands in brackets.
pub open spec fn endpoint_text(host: Seq<char>, port: u16) -> Seq<char> {
    if host.contains(':') {
        "["@ + host + "]:"@ + text::decimal(port as nat)
    } else {
        host + ":"@ + text::decimal(port as nat)
    }
}

/// What is said of a `value` that is no `label`.
pub open spec fn not_a(label: Seq<char>, value: Seq<char>) -> Seq<char> {
    "invalid "@ + label + " `"@ + value + "`"@
}

/// What is said of a `value` that is no `label`.
pub fn not_a_text(label: &str, value: &str) -> (r: String)
    ensures
        r@ == not_a(label@, value@),
{
    "invalid ".to_owned().concat(label).concat(" `").concat(value).concat("`")
}

/// The host of `endpoint` and its port, where it names one. A host in brackets ends at the first
/// closing one; else a port follows the only colon, and with no colon or several there is none.
pub open spec fn host_and_port(endpoint: Seq<char>) -> Option<(Seq<char>, Option<Seq<char>>)> {
    if endpoint.len() > 0 && endpoint[0] == '[' {
        match text::split_at_first(endpoint.drop_first(), ']') {
            Some((host, suffix)) => if suffix.len() == 0 {
                Some((host, None))
            } else if suffix[0] == ':' {
                Some((host, Some(suffix.drop_first())))
            } else {
                None
            },
            None => None,
        }
    } else if text::occurrences(endpoint, ':') == 1 {
        match text::split_at_first(endpoint, ':') {
            Some((host, port)) => Some((host, Some(port))),
            None => None,
        }
    } else {
        Some((endpoint, None))
    }
}

/// The port that `port` writes, or what is said of it.
pub open spec fn port_of(port: Seq<char>, value: Seq<char>, label: Seq<char>) -> Result<
    u16,
    Seq<char>,
> {
    if text::trimmed(port).len() == 0 {
        Err(not_a(label, value) + ": port is empty"@)
    } else {
        match text::unsigned_value(text::trimmed(port), u16::MAX as nat) {
            Some(port) => Ok(port as u16),
            None => Err(not_a(label, value) + ": expected a valid port"@),
        }
    }
}

/// The host and port that `endpoint` writes, or what is said of `value`, which it is part of.
pub open spec fn endpoint_of(
    endpoint: Seq<char>,
    value: Seq<char>,
    label: Seq<char>,
    default_port: u16,
) -> Result<(Seq<char>, u16), Seq<char>> {
    if endpoint.len() == 0 {
        Err(not_a(label, value) + ": host is empty"@)
    } else {
        match host_and_port(endpoint) {
            None => Err(not_a(label, value)),
            Some((host, port)) => if text::trimmed(host).len() == 0 {
                Err(not_a(label, value) + ": host is empty"@)
            } else {
                match port {
                    None => Ok((text::trimmed(host), default_port)),
                    Some(port) => match port_of(port, value, label) {
                        Ok(port) => Ok((text::trimmed(host), port)),
                        Err(message) => Err(message),
                    },
                }
            },
        }
    }
}

/// The view of an endpoint or of what is said instead of one.
pub open spec fn endpoint_result(r: Result<Endpoint, String>) -> Result<
    (Seq<char>, u16),
    Seq<char>,
> {
    match r {
        Ok(endpoint) => Ok((endpoint.host@, endpoint.port)),
        Err(message) => Err(message@),
    }
}

/// The host of `endpoint` and its port, where it names one.
pub fn split_host_port<'a>(endpoint: &'a str, value: &str, label: &str) -> (r: Result<
    (&'a str, Option<&'a str>),
    String,
>)
    ensures
        match r {
            Ok((host, port)) => host_and_port(endpoint@) == Some(
                (
                    host@,
                    match port {
                        Some(port) => Some(port@),
                        None => None,
                    },
                ),
            ),
            Err(message) => host_and_port(endpoint@) is None && message@ == not_a(label@, value@),
        },
{
    proof {
        reveal_strlit("[");
        reveal_strlit(":");
    }
    if let Some(rest) = text::strip_prefix(endpoint, "[") {
        assert(endpoint@[0] == endpoint@.take(1)[0]);
        assert(rest@ =~= endpoint@.drop_first());
        let (host, suffix) = match text::split_once(rest, ']') {
            Some(halves) => halves,
            None => return Err(not_a_text(label, value)),
        };
        if let Some(port) = text::strip_prefix(suffix, ":") {
            assert(suffix@[0] == suffix@.take(1)[0]);
            assert(port@ =~= suffix@.drop_first());
            return Ok((host, Some(port)));
        }
        if suffix.is_empty() {
            return Ok((host, None));
        }
        assert(suffix@[0] != ':') by {
            if suffix@[0] == ':' {
                assert(suffix@.take(1) =~= ":"@);
            }
        }
        return Err(not_a_text(label, value));
    }
    assert(endpoint@.len() > 0 ==> endpoint@[0] != '[') by {
        if endpoint@.len() > 0 && endpoint@[0] == '[' {
            assert(endpoint@.take(1) =~= "["@);
        }
    }
    if text::count_char(endpoint, ':') == 1 {
        proof {
            lemma_occurrences_contains(endpoint@, ':');
        }
        match text::split_once(endpoint, ':') {
            Some((host, port)) => return Ok((host, Some(port))),
            None => {},
        }
    }
    Ok((endpoint, None))
}

proof fn lemma_occurrences_contains(s: Seq<char>, c: char)
    ensures
        text::occurrences(s, c) > 0 <==> s.contains(c),
    decreases s.len(),
{
    if s.len() > 0 {
        lemma_occurrences_contains(s.drop_last(), c);
        if s.contains(c) {
            let k = choose|k: int| 0 <= k < s.len() && s[k] == c;
            if k < s.len() - 1 {
                assert(s.drop_last()[k] == c);
            }
        }
        if s.drop_last().contains(c) {
            let k = choose|k: int| 0 <= k < s.len() - 1 && s.drop_last()[k] == c;
            assert(s[k] == c);
        }
        if s.last() == c {
            assert(s[s.len() - 1] == c);
        }
    }
}

/// The port that `port` writes.
pub fn parse_port(port: &str, value: &str, label: &str) -> (r: Result<u16, String>)
    ensures
        match r {
            Ok(number) => port_of(port@, value@, label@) == Ok::<u16, Seq<char>>(number),
            Err(message) => port_of(port@, value@, label@) == Err::<u16, Seq<char>>(message@),
        },
{
    let port = text::trim(port);
    if port.is_empty() {
        return Err(not_a_text(label, value).concat(": port is empty"));
    }
    match text::parse_unsigned(port, 65535) {
        Some(port) => Ok(port as u16),
        None => Err(not_a_text(label, value).concat(": expected a valid port")),
    }
}

/// The endpoint that `endpoint`, a part of `value`, writes.
pub fn parse_endpoint(endpoint: &str, value: &str, label: &str, default_port: u16) -> (r: Result<
    Endpoint,
    String,
>)
    ensures
        endpoint_result(r) == endpoint_of(endpoint@, value@, label@, default_port),
{
    if endpoint.is_empty() {
        return Err(not_a_text(label, value).concat(": host is empty"));
    }
    let (host, port) = match split_host_port(endpoint, value, label) {
        Ok(halves) => halves,
        Err(message) => return Err(message),
    };
    let host = text::trim(host);
    if host.is_empty() {
        return Err(not_a_text(label, value).concat(": host is empty"));
    }
    let port = match port {
        Some(port) => match parse_port(port, value, label) {
            Ok(port) => port,
            Err(message) => return Err(message),
        },
        None => default_port,
    };
    Ok(Endpoint::new(host.to_owned(), port))
}

impl Endpoint {
    pub fn new(host: String, port: u16) -> (r: Self)
        ensures
            r.host == host,
            r.port == port,
    {
        Endpoint { host, port }
    }

    /// The endpoint that `value` writes, white space around it left out.
    pub fn parse_with_default(value: &str, label: &str, default_port: u16) -> (r: Result<
        Self,
        String,
    >)
        ensures
            endpoint_result(r) == endpoint_of(
                text::trimmed(value@),
                text::trimmed(value@),
                label@,
                default_port,
            ),
    {
        let value = text::trim(value);
        parse_endpoint(value, value, label, default_port)
    }

    /// The text of the endpoint.
    pub fn to_string(&self) -> (r: String)
        ensures
            r@ == endpoint_text(self.host@, self.port),
    {
        let port = text::decimal_text(self.port as u128);
        if text::contains_char(self.host.as_str(), ':') {
            "[".to_owned().concat(self.host.as_str()).concat("]:").concat(port.as_str())
        } else {
            self.host.clone().concat(":").concat(port.as_str())
        }
    }
}

impl FromStr for Endpoint {
    type Err = String;

    fn from_str(value: &str) -> (r: Result<Self, String>)
        ensures
            endpoint_result(r) == endpoint_of(
                text::trimmed(value@),
                text::trimmed(value@),
                "MQTT endpoint"@,
                MQTT_PORT,
            ),
    {
        Endpoint::parse_with_default(value, "MQTT endpoint", MQTT_PORT)
    }
}

/// Whether `host` is written so that it reads back: it is not empty, has no white space around it,
/// and no bracket where one would be taken for that of the text.
pub open spec fn host_reads_back(host: Seq<char>) -> bool {
    &&& host.len() > 0
    &&& text::trimmed(host) == host
    &&& if host.contains(':') {
        !host.contains(']')
    } else {
        host[0] != '['
    }
}

/// The text of an endpoint reads back as that endpoint, whatever the default port.
pub proof fn law_endpoint_reads_back(host: Seq<char>, port: u16, label: Seq<char>, default_port: u16)
    requires
        host_reads_back(host),
    ensures
        ({
            let written = text::trimmed(endpoint_text(host, port));
            endpoint_of(written, written, label, default_port)
        }) == Ok::<(Seq<char>, u16), Seq<char>>((host, port)),
{
    reveal_strlit("[");
    reveal_strlit("]:");
    reveal_strlit(":");
    let digits = text::decimal(port as nat);
    text::lemma_decimal(port as nat);
    let written = endpoint_text(host, port);
    lemma_ends(host);
    assert(written.last() == digits.last());
    assert('0' <= digits[digits.len() - 1] <= '9');
    assert(!text::white_space(written.last()));
    assert(text::trimmed(digits) == digits);
    assert(text::trimmed_start(written) == written);
    assert(text::trimmed(written) == written);
    if host.contains(':') {
        let rest = written.drop_first();
        assert(rest =~= host + "]:"@ + digits);
        assert forall|i: int| 0 <= i < host.len() implies rest[i] != ']' by {
            assert(rest[i] == host[i]);
            if host[i] == ']' {
                assert(host.contains(']'));
            }
        }
        assert(rest[host.len() as int] == ']');
        text::lemma_first_index_is(rest, ']', host.len() as int);
        text::lemma_first_index(rest, ']');
        let suffix = rest.skip(host.len() as int + 1);
        assert(rest.take(host.len() as int) =~= host);
        assert(suffix =~= ":"@ + digits);
        assert(suffix.drop_first() =~= digits);
        assert(host_and_port(written) == Some((host, Some(digits))));
    } else {
        assert(written[0] == host[0]);
        assert forall|i: int| 0 <= i < host.len() implies written[i] != ':' by {
            assert(written[i] == host[i]);
            if host[i] == ':' {
                assert(host.contains(':'));
            }
        }
        assert(written[host.len() as int] == ':');
        text::lemma_first_index_is(written, ':', host.len() as int);
        text::lemma_first_index(written, ':');
        assert(written.take(host.len() as int) =~= host);
        assert(written.skip(host.len() as int + 1) =~= digits);
        lemma_no_occurrence(host, ':');
        assert forall|i: int| 0 <= i < digits.len() implies digits[i] != ':' by {
            assert('0' <= digits[i] <= '9');
        }
        lemma_occurrences_concat(host + ":"@, digits, ':');
        lemma_occurrences_concat(host, ":"@, ':');
        lemma_no_occurrence(digits, ':');
        assert(text::occurrences(":"@, ':') == 1) by {
            assert(":"@.drop_last() =~= Seq::<char>::empty());
            assert(text::occurrences(":"@.drop_last(), ':') == 0);
        }
        assert(host_and_port(written) == Some((host, Some(digits))));
    }
    assert(text::unsigned_value(digits, u16::MAX as nat) == Some(port as nat));
}

/// A text that trimming leaves as it is begins and ends with something else than white space.
proof fn lemma_ends(s: Seq<char>)
    requires
        s.len() > 0,
        text::trimmed(s) == s,
    ensures
        !text::white_space(s[0]),
        !text::white_space(s.last()),
{
    text::lemma_trim_shortens(s);
    text::lemma_trim_shortens(text::trimmed_start(s));
}

proof fn lemma_no_occurrence(s: Seq<char>, c: char)
    requires
        forall|i: int| 0 <= i < s.len() ==> s[i] != c,
    ensures
        text::occurrences(s, c) == 0,
{
    lemma_occurrences_contains(s, c);
}

proof fn lemma_occurrences_concat(a: Seq<char>, b: Seq<char>, c: char)
    ensures
        text::occurrences(a + b, c) == text::occurrences(a, c) + text::occurrences(b, c),
    decreases b.len(),
{
    if b.len() == 0 {
        assert(a + b =~= a);
    } else {
        assert((a + b).drop_last() =~= a + b.drop_last());
        lemma_occurrences_concat(a, b.drop_last(), c);
    }
}

// ---------------------------------------------------------------------------
// Devices
// ---------------------------------------------------------------------------

/// A printer of the local network.
#[derive(Debug, PartialEq, Eq)]
pub struct LocalDevice {
    pub id: String,
    pub host: String,
    pub mqtt_port: u16,
    pub access_code: Option<String>,
    pub name: Option<String>,
}

/// How a printer of the local network is configured.
#[derive(Debug, PartialEq, Eq)]
pub struct LocalDeviceConfig {
    pub host: String,
    pub mqtt_port: u16,
    pub access_code: Option<String>,
    pub name: Option<String>,
}

/// How a printer of the cloud is configured.
#[derive(Debug, PartialEq, Eq)]
pub struct CloudDeviceConfig {
    pub id: String,
    pub access_code: Option<String>,
    pub name: Option<String>,
}

impl Clone for LocalDevice {
    fn clone(&self) -> (r: Self)
        ensures
            r == *self,
    {
        LocalDevice {
            id: self.id.clone(),
            host: self.host.clone(),
            mqtt_port: self.mqtt_port,
            access_code: self.access_code.clone(),
            name: self.name.clone(),
        }
    }
}

impl Clone for LocalDeviceConfig {
    fn clone(&self) -> (r: Self)
        ensures
            r == *self,
    {
        LocalDeviceConfig {
            host: self.host.clone(),
            mqtt_port: self.mqtt_port,
            access_code: self.access_code.clone(),
            name: self.name.clone(),
        }
    }
}

impl Clone for CloudDeviceConfig {
    fn clone(&self) -> (r: Self)
        ensures
            r == *self,
    {
        CloudDeviceConfig {
            id: self.id.clone(),
            access_code: self.access_code.clone(),
            name: self.name.clone(),
        }
    }
}

/// A device that is known to be online and of which nothing was reported.
pub open spec fn silent_device(
    device: CloudDevice,
    id: String,
    name: Option<String>,
    access_code: Option<String>,
) -> bool {
    &&& device.id == Some(id)
    &&& device.name == name
    &&& device.online == Some(true)
    &&& device.access_code == access_code
    &&& device.model_name is None
    &&& device.product_name is None
    &&& device.status.is_empty()
}

impl LocalDevice {
    /// The device as an entry of the catalog.
    pub fn cloud_device(&self) -> (r: CloudDevice)
        ensures
            silent_device(r, self.id, self.name, self.access_code),
    {
        CloudDevice {
            id: Some(self.id.clone()),
            name: self.name.clone(),
            model_name: None,
            product_name: None,
            online: Some(true),
            access_code: self.access_code.clone(),
            status: PrinterStatus::default(),
        }
    }

    /// Takes the name and the access code from `device`, each where it is missing.
    pub fn merge_cloud_metadata(&mut self, device: &CloudDevice)
        ensures
            *final(self) == (LocalDevice {
                name: models::either(old(self).name, device.name),
                access_code: models::either(old(self).access_code, device.access_code),
                ..*old(self)
            }),
    {
        if self.name.is_none() {
            self.name = device.name.clone();
        }
        if self.access_code.is_none() {
            self.access_code = device.access_code.clone();
        }
    }

    /// The text of the device: its id and its endpoint.
    pub fn to_string(&self) -> (r: String)
        ensures
            r@ == self.id@ + "="@ + endpoint_text(self.host@, self.mqtt_port),
    {
        let endpoint = Endpoint::new(self.host.clone(), self.mqtt_port);
        self.id.clone().concat("=").concat(endpoint.to_string().as_str())
    }
}

impl LocalDeviceConfig {
    /// The device that is configured so and has the given id.
    pub fn into_device(self, id: String) -> (r: LocalDevice)
        ensures
            r == (LocalDevice {
                id,
                host: self.host,
                mqtt_port: self.mqtt_port,
                access_code: self.access_code,
                name: self.name,
            }),
    {
        LocalDevice {
            id,
            host: self.host,
            mqtt_port: self.mqtt_port,
            access_code: self.access_code,
            name: self.name,
        }
    }

    /// Where the device speaks MQTT.
    pub fn mqtt_endpoint(&self) -> (r: Endpoint)
        ensures
            r.host == self.host,
            r.port == self.mqtt_port,
    {
        Endpoint::new(self.host.clone(), self.mqtt_port)
    }
}

impl CloudDeviceConfig {
    /// The device as an entry of the catalog.
    pub fn cloud_device(&self) -> (r: CloudDevice)
        ensures
            silent_device(r, self.id, self.name, self.access_code),
    {
        CloudDevice {
            id: Some(self.id.clone()),
            name: self.name.clone(),
            model_name: None,
            product_name: None,
            online: Some(true),
            access_code: self.access_code.clone(),
            status: PrinterStatus::default(),
        }
    }

    /// The text of the device: its id.
    pub fn to_string(&self) -> (r: String)
        ensures
            r == self.id,
    {
        self.id.clone()
    }
}

/// The field at `index`, without white space around it, where it holds anything else.
pub open spec fn field_at(fields: Seq<Seq<char>>, index: int) -> Option<Seq<char>> {
    if 0 <= index < fields.len() && text::trimmed(fields[index]).len() > 0 {
        Some(text::trimmed(fields[index]))
    } else {
        None
    }
}

/// The field at `index`, without white space around it, where it holds anything else.
pub fn optional_field(fields: &Vec<&str>, index: usize) -> (r: Option<String>)
    ensures
        text::chars(r) == field_at(text::views(fields@), index as int),
{
    if index < fields.len() {
        let value = text::trim(fields[index]);
        if !value.is_empty() {
            return Some(value.to_owned());
        }
    }
    None
}

/// The view of a local configuration.
pub struct LocalDeviceConfigView {
    pub host: Seq<char>,
    pub mqtt_port: u16,
    pub access_code: Option<Seq<char>>,
    pub name: Option<Seq<char>>,
}

impl View for LocalDeviceConfig {
    type V = LocalDeviceConfigView;

    open spec fn view(&self) -> LocalDeviceConfigView {
        LocalDeviceConfigView {
            host: self.host@,
            mqtt_port: self.mqtt_port,
            access_code: text::chars(self.access_code),
            name: text::chars(self.name),
        }
    }
}

/// The local configuration that `value`, without white space around it, writes as
/// `HOST[:PORT][,ACCESS_CODE[,NAME]]`, or what is said of it.
pub open spec fn local_device_of(value: Seq<char>) -> Result<LocalDeviceConfigView, Seq<char>> {
    let fields = text::fields_of(value, 3, ',');
    if value.len() == 0 {
        Err("local device must not be empty"@)
    } else if value.contains('=') {
        Err(
            not_a("local device"@, value)
                + ": DEVICE_ID= prefix is not supported; use HOST[:PORT][,ACCESS_CODE[,NAME]]"@,
        )
    } else {
        match endpoint_of(text::trimmed(fields[0]), value, "local device"@, MQTT_PORT) {
            Err(message) => Err(message),
            Ok((host, mqtt_port)) => if field_at(fields, 1) is Some && !vstd::utf8::is_ascii_chars(
                field_at(fields, 1)->0,
            ) {
                Err(not_a("local device"@, value) + ": access code must be ASCII"@)
            } else {
                Ok(
                    LocalDeviceConfigView {
                        host,
                        mqtt_port,
                        access_code: field_at(fields, 1),
                        name: field_at(fields, 2),
                    },
                )
            },
        }
    }
}

/// What is said of a `value` that is no local device at all.
pub fn local_device_format_error(value: &str) -> (r: String)
    ensures
        r@ == not_a("local device"@, value@)
            + ": expected HOST[:PORT][,ACCESS_CODE[,NAME]]"@,
{
    not_a_text("local device", value).concat(": expected HOST[:PORT][,ACCESS_CODE[,NAME]]")
}

/// The local configuration that `value` writes.
pub fn parse_local_device(value: &str) -> (r: Result<LocalDeviceConfig, String>)
    ensures
        match r {
            Ok(config) => local_device_of(text::trimmed(value@)) == Ok::<
                LocalDeviceConfigView,
                Seq<char>,
            >(config@),
            Err(message) => local_device_of(text::trimmed(value@)) == Err::<
                LocalDeviceConfigView,
                Seq<char>,
            >(message@),
        },
{
    let value = text::trim(value);
    if value.is_empty() {
        return Err("local device must not be empty".to_owned());
    }
    if text::contains_char(value, '=') {
        return Err(
            not_a_text("local device", value).concat(
                ": DEVICE_ID= prefix is not supported; use HOST[:PORT][,ACCESS_CODE[,NAME]]",
            ),
        );
    }
    let fields = text::splitn(value, 3, ',');
    assert(text::views(fields@).len() == fields@.len());
    assert(text::views(fields@)[0] == fields@[0]@);
    let endpoint = match parse_endpoint(
        text::trim(fields[0]),
        value,
        "local device",
        MQTT_PORT,
    ) {
        Ok(endpoint) => endpoint,
        Err(message) => return Err(message),
    };
    let access_code = optional_field(&fields, 1);
    if let Some(access_code) = &access_code {
        if !access_code.as_str().is_ascii() {
            return Err(not_a_text("local device", value).concat(": access code must be ASCII"));
        }
    }
    let name = optional_field(&fields, 2);
    Ok(LocalDeviceConfig { host: endpoint.host, mqtt_port: endpoint.port, access_code, name })
}

impl FromStr for LocalDeviceConfig {
    type Err = String;

    fn from_str(value: &str) -> (r: Result<Self, String>)
        ensures
            match r {
                Ok(config) => local_device_of(text::trimmed(value@)) == Ok::<
                    LocalDeviceConfigView,
                    Seq<char>,
                >(config@),
                Err(message) => local_device_of(text::trimmed(value@)) == Err::<
                    LocalDeviceConfigView,
                    Seq<char>,
                >(message@),
            },
    {
        parse_local_device(value)
    }
}

/// The view of a cloud configuration.
pub struct CloudDeviceConfigView {
    pub id: Seq<char>,
    pub access_code: Option<Seq<char>>,
    pub name: Option<Seq<char>>,
}

impl View for CloudDeviceConfig {
    type V = CloudDeviceConfigView;

    open spec fn view(&self) -> CloudDeviceConfigView {
        CloudDeviceConfigView {
            id: self.id@,
            access_code: text::chars(self.access_code),
            name: text::chars(self.name),
        }
    }
}

/// The cloud configuration that `value`, without white space around it, writes as
/// `DEVICE_ID[,ACCESS_CODE[,NAME]]`, or what is said of it.
pub open spec fn cloud_device_of(value: Seq<char>) -> Result<CloudDeviceConfigView, Seq<char>> {
    let fields = text::fields_of(value, 3, ',');
    if value.len() == 0 {
        Err("cloud device must not be empty"@)
    } else if text::trimmed(fields[0]).len() == 0 {
        Err(not_a("cloud device"@, value) + ": device id is empty"@)
    } else {
        Ok(
            CloudDeviceConfigView {
                id: text::trimmed(fields[0]),
                access_code: field_at(fields, 1),
                name: field_at(fields, 2),
            },
        )
    }
}

/// The cloud configuration that `value` writes.
pub fn parse_cloud_device(value: &str) -> (r: Result<CloudDeviceConfig, String>)
    ensures
        match r {
            Ok(config) => cloud_device_of(text::trimmed(value@)) == Ok::<
                CloudDeviceConfigView,
                Seq<char>,
            >(config@),
            Err(message) => cloud_device_of(text::trimmed(value@)) == Err::<
                CloudDeviceConfigView,
                Seq<char>,
            >(message@),
        },
{
    let value = text::trim(value);
    if value.is_empty() {
        return Err("cloud device must not be empty".to_owned());
    }
    let fields = text::splitn(value, 3, ',');
    assert(text::views(fields@).len() == fields@.len());
    assert(text::views(fields@)[0] == fields@[0]@);
    let id = text::trim(fields[0]);
    if id.is_empty() {
        return Err(not_a_text("cloud device", value).concat(": device id is empty"));
    }
    Ok(
        CloudDeviceConfig {
            id: id.to_owned(),
            access_code: optional_field(&fields, 1),
            name: optional_field(&fields, 2),
        },
    )
}

impl FromStr for CloudDeviceConfig {
    type Err = String;

    fn from_str(value: &str) -> (r: Result<Self, String>)
        ensures
            match r {
                Ok(config) => cloud_device_of(text::trimmed(value@)) == Ok::<
                    CloudDeviceConfigView,
                    Seq<char>,
                >(config@),
                Err(message) => cloud_device_of(text::trimmed(value@)) == Err::<
                    CloudDeviceConfigView,
                    Seq<char>,
                >(message@),
            },
    {
        parse_cloud_device(value)
    }
}

// ---------------------------------------------------------------------------
// How devices are written
// ---------------------------------------------------------------------------

/// Whether `s` has no white space around it.
pub open spec fn bare(s: Seq<char>) -> bool {
    s.len() > 0 ==> !text::white_space(s[0]) && !text::white_space(s.last())
}

/// A text without white space around it is left as it is by trimming.
pub proof fn lemma_bare(s: Seq<char>)
    requires
        bare(s),
    ensures
        text::trimmed(s) == s,
{
    let none = Seq::<char>::empty();
    text::law_trim_takes_white_space_around(none, s, none);
    assert(none + s + none =~= s);
}

/// A host without a port has the default one. The text of an endpoint is its host and its port, with
/// a colon between them, and a host with a colon in it stands in brackets.
pub proof fn law_endpoint_without_port_has_the_default(
    host: Seq<char>,
    value: Seq<char>,
    label: Seq<char>,
    default_port: u16,
    endpoint: &Endpoint,
    r: String,
)
    requires
        host.len() > 0,
        bare(host),
        call_ensures(Endpoint::to_string, (endpoint,), r),
    ensures
        host[0] != '[' && !host.contains(':') ==> endpoint_of(host, value, label, default_port)
            == Ok::<(Seq<char>, u16), Seq<char>>((host, default_port)),
        !endpoint.host@.contains(':') ==> r@ == endpoint.host@.push(':') + text::decimal(
            endpoint.port as nat,
        ),
        endpoint.host@.contains(':') ==> r@ == seq!['['] + endpoint.host@ + seq![']', ':']
            + text::decimal(endpoint.port as nat),
{
    reveal_strlit(":");
    reveal_strlit("[");
    reveal_strlit("]:");
    assert("]:"@ =~= seq![']', ':']);
    assert("["@ =~= seq!['[']);
    assert(endpoint.host@ + ":"@ =~= endpoint.host@.push(':'));
    lemma_bare(host);
    lemma_occurrences_contains(host, ':');
}

/// An endpoint without a host, or with a port that is no number that a port can have, is none.
pub proof fn law_bad_endpoints_are_refused(
    host: Seq<char>,
    port: Seq<char>,
    value: Seq<char>,
    label: Seq<char>,
    default_port: u16,
)
    requires
        !host.contains(':'),
        !port.contains(':'),
        host.len() > 0 ==> host[0] != '[',
        bare(port),
    ensures
        endpoint_of(Seq::empty(), value, label, default_port) is Err,
        endpoint_of(host + seq![':'] + port, value, label, default_port) is Ok <==> {
            &&& text::has_text(host)
            &&& port.len() > 0
            &&& text::unsigned_value(port, 65535) is Some
        },
        endpoint_of(host + seq![':'] + port, value, label, default_port) matches Ok((h, p)) ==> h
            == text::trimmed(host) && Some(p as nat) == text::unsigned_value(port, 65535),
{
    let written = host + seq![':'] + port;
    lemma_bare(port);
    lemma_occurrences_contains(host, ':');
    lemma_occurrences_contains(port, ':');
    lemma_occurrences_concat(host + seq![':'], port, ':');
    lemma_occurrences_concat(host, seq![':'], ':');
    assert(text::occurrences(seq![':'], ':') == 1) by {
        assert(seq![':'].drop_last() =~= Seq::<char>::empty());
        assert(text::occurrences(seq![':'].drop_last(), ':') == 0);
    }
    assert(text::occurrences(written, ':') == 1);
    assert forall|i: int| 0 <= i < host.len() implies host[i] != ':' by {
        if host[i] == ':' {
            assert(host.contains(host[i]));
        }
    }
    text::law_cut_is_at_the_first(host, port, ':');
    assert(written[0] == if host.len() > 0 { host[0] } else { ':' });
    assert(host_and_port(written) == Some((host, Some(port))));
}

/// A local device is written as its endpoint, its code and its name, with commas between them: each
/// is what stands in its place, a place that is empty stands for nothing, and so does one that is
/// left out. A name may have commas in it.
pub proof fn law_local_device_is_written_in_places(
    endpoint: Seq<char>,
    code: Seq<char>,
    name: Seq<char>,
    value: &str,
    r: Result<LocalDeviceConfig, String>,
)
    requires
        endpoint.len() > 0,
        bare(endpoint),
        bare(code),
        bare(name),
        !endpoint.contains(','),
        !code.contains(','),
        !value@.contains('='),
        vstd::utf8::is_ascii_chars(code),
        endpoint_of(endpoint, value@, "local device"@, 8883) is Ok,
        ({
            ||| value@ == endpoint + seq![','] + (code + seq![','] + name) && name.len() > 0
            ||| value@ == endpoint + seq![','] + code && code.len() > 0 && name.len() == 0
            ||| value@ == endpoint && code.len() == 0 && name.len() == 0
        }),
        call_ensures(parse_local_device, (value,), r),
    ensures
        r matches Ok(config) && {
            &&& endpoint_of(endpoint, value@, "local device"@, 8883) == Ok::<
                (Seq<char>, u16),
                Seq<char>,
            >((config.host@, config.mqtt_port))
            &&& config.access_code is Some <==> code.len() > 0
            &&& config.access_code is Some ==> config.access_code->0@ == code
            &&& config.name is Some <==> name.len() > 0
            &&& config.name is Some ==> config.name->0@ == name
        },
{
    lemma_places(endpoint, code, name, value@);
}

/// A cloud device is written as its id, its code and its name, with commas between them, in the same
/// way.
pub proof fn law_cloud_device_is_written_in_places(
    id: Seq<char>,
    code: Seq<char>,
    name: Seq<char>,
    value: &str,
    r: Result<CloudDeviceConfig, String>,
)
    requires
        id.len() > 0,
        bare(id),
        bare(code),
        bare(name),
        !id.contains(','),
        !code.contains(','),
        ({
            ||| value@ == id + seq![','] + (code + seq![','] + name) && name.len() > 0
            ||| value@ == id + seq![','] + code && code.len() > 0 && name.len() == 0
            ||| value@ == id && code.len() == 0 && name.len() == 0
        }),
        call_ensures(parse_cloud_device, (value,), r),
    ensures
        r matches Ok(config) && {
            &&& config.id@ == id
            &&& config.access_code is Some <==> code.len() > 0
            &&& config.access_code is Some ==> config.access_code->0@ == code
            &&& config.name is Some <==> name.len() > 0
            &&& config.name is Some ==> config.name->0@ == name
        },
{
    lemma_places(id, code, name, value@);
}

proof fn lemma_places(first: Seq<char>, code: Seq<char>, name: Seq<char>, value: Seq<char>)
    requires
        first.len() > 0,
        bare(first),
        bare(code),
        bare(name),
        !first.contains(','),
        !code.contains(','),
        ({
            ||| value == first + seq![','] + (code + seq![','] + name) && name.len() > 0
            ||| value == first + seq![','] + code && code.len() > 0 && name.len() == 0
            ||| value == first && code.len() == 0 && name.len() == 0
        }),
    ensures
        text::trimmed(value) == value,
        value.len() > 0,
        text::fields_of(value, 3, ',')[0] == first,
        text::trimmed(first) == first,
        field_at(text::fields_of(value, 3, ','), 1) == (if code.len() > 0 {
            Some(code)
        } else {
            None
        }),
        field_at(text::fields_of(value, 3, ','), 2) == (if name.len() > 0 {
            Some(name)
        } else {
            None
        }),
{
    lemma_bare(first);
    lemma_bare(code);
    lemma_bare(name);
    assert forall|i: int| 0 <= i < first.len() implies first[i] != ',' by {
        if first[i] == ',' {
            assert(first.contains(first[i]));
        }
    }
    assert forall|i: int| 0 <= i < code.len() implies code[i] != ',' by {
        if code[i] == ',' {
            assert(code.contains(code[i]));
        }
    }
    assert(value[0] == first[0]);
    let last = if name.len() > 0 { name } else if code.len() > 0 { code } else { first };
    assert(value.last() == last.last());
    lemma_bare(value);
    let tail = code + seq![','] + name;
    text::law_fields_end_at_separators(first, tail, 3, ',');
    text::law_fields_end_at_separators(first, code, 3, ',');
    text::law_fields_end_at_separators(code, name, 2, ',');
    let fields = text::fields_of(value, 3, ',');
    if name.len() > 0 {
        assert(fields =~= seq![first, code, name]);
    } else if code.len() > 0 {
        assert(fields =~= seq![first, code]);
    } else {
        assert(fields =~= seq![first]);
    }
}

/// Nothing is no device; and a local device is written without an id, and with a code of ASCII
/// characters.
pub proof fn law_bad_devices_are_refused(
    value: &str,
    local: Result<LocalDeviceConfig, String>,
    cloud: Result<CloudDeviceConfig, String>,
)
    requires
        call_ensures(parse_local_device, (value,), local),
        call_ensures(parse_cloud_device, (value,), cloud),
    ensures
        !text::has_text(value@) ==> local is Err && cloud is Err,
        text::trimmed(value@).contains('=') ==> local is Err,
        local matches Ok(config) ==> {
            &&& config.access_code is Some ==> vstd::utf8::is_ascii_chars(config.access_code->0@)
                && config.access_code->0@.len() > 0
            &&& config.name is Some ==> config.name->0@.len() > 0
            &&& config.host@.len() > 0
        },
        cloud matches Ok(config) ==> config.id@.len() > 0,
{
}

/// A device of the local network is an entry of the catalog under its own id, name and code, and is
/// online; so is one of the cloud that was named.
pub proof fn law_devices_are_entries_under_their_own_names(
    local: &LocalDevice,
    named: &CloudDeviceConfig,
    config: LocalDeviceConfig,
    id: String,
    entry: CloudDevice,
    named_entry: CloudDevice,
    device: LocalDevice,
)
    requires
        call_ensures(LocalDevice::cloud_device, (local,), entry),
        call_ensures(CloudDeviceConfig::cloud_device, (named,), named_entry),
        call_ensures(LocalDeviceConfig::into_device, (config, id), device),
    ensures
        entry.id == Some(local.id),
        entry.name == local.name,
        entry.access_code == local.access_code,
        entry.online == Some(true),
        entry.status.is_empty(),
        named_entry.id == Some(named.id),
        named_entry.name == named.name,
        named_entry.access_code == named.access_code,
        named_entry.online == Some(true),
        named_entry.status.is_empty(),
        device.id == id,
        device.host == config.host,
        device.mqtt_port == config.mqtt_port,
        device.access_code == config.access_code,
        device.name == config.name,
{
}

/// A local device takes from the cloud the name and the code that it lacks, each for itself, and
/// nothing else.
pub proof fn law_missing_metadata_is_taken_over(device: &mut LocalDevice, metadata: &CloudDevice)
    requires
        call_ensures(LocalDevice::merge_cloud_metadata, (device, metadata), ()),
    ensures
        final(device).id == old(device).id,
        final(device).host == old(device).host,
        final(device).mqtt_port == old(device).mqtt_port,
        old(device).name is Some ==> final(device).name == old(device).name,
        old(device).name is None ==> final(device).name == metadata.name,
        old(device).access_code is Some ==> final(device).access_code == old(device).access_code,
        old(device).access_code is None ==> final(device).access_code == metadata.access_code,
{
}

/// A device of the local network is told of by its id and its endpoint, and one of the cloud by its id.
pub proof fn law_devices_are_told_of_by_id(
    local: &LocalDevice,
    cloud: &CloudDeviceConfig,
    config: &LocalDeviceConfig,
    r: String,
    s: String,
    endpoint: Endpoint,
)
    requires
        call_ensures(LocalDevice::to_string, (local,), r),
        call_ensures(CloudDeviceConfig::to_string, (cloud,), s),
        call_ensures(LocalDeviceConfig::mqtt_endpoint, (config,), endpoint),
    ensures
        r@ == local.id@ + "="@ + endpoint_text(local.host@, local.mqtt_port),
        s@ == cloud.id@,
        endpoint.host@ == config.host@,
        endpoint.port == config.mqtt_port,
{
}

/// A host with several colons is a host alone; in brackets it may have a port after a colon, and
/// anything else after the brackets makes it no endpoint, as does a bracket that is not closed.
pub proof fn law_hosts_with_colons_stand_in_brackets(
    host: Seq<char>,
    suffix: Seq<char>,
    value: Seq<char>,
    label: Seq<char>,
    default_port: u16,
)
    requires
        host.len() > 0,
        bare(host),
        !host.contains(']'),
    ensures
        host[0] != '[' && text::occurrences(host, ':') >= 2 ==> endpoint_of(
            host,
            value,
            label,
            default_port,
        ) == Ok::<(Seq<char>, u16), Seq<char>>((host, default_port)),
        endpoint_of(seq!['['] + host, value, label, default_port) is Err,
        endpoint_of(seq!['['] + host + seq![']'], value, label, default_port) == Ok::<
            (Seq<char>, u16),
            Seq<char>,
        >((host, default_port)),
        suffix.len() > 0 && suffix[0] != ':' ==> endpoint_of(
            seq!['['] + host + seq![']'] + suffix,
            value,
            label,
            default_port,
        ) is Err,
        endpoint_of(
            seq!['['] + host + seq![']', ':'] + text::decimal(default_port as nat),
            value,
            label,
            1,
        ) == Ok::<(Seq<char>, u16), Seq<char>>((host, default_port)),
{
    lemma_bare(host);
    assert forall|i: int| 0 <= i < host.len() implies host[i] != ']' by {
        if host[i] == ']' {
            assert(host.contains(host[i]));
        }
    }
    let none = Seq::<char>::empty();
    text::law_cut_is_at_the_first(host, none, ']');
    text::law_cut_is_at_the_first(host, suffix, ']');
    let digits = text::decimal(default_port as nat);
    text::lemma_decimal(default_port as nat);
    text::law_cut_is_at_the_first(host, seq![':'] + digits, ']');
    assert((seq!['['] + host).drop_first() =~= host);
    assert((seq!['['] + host + seq![']']).drop_first() =~= host + seq![']'] + none);
    assert((seq!['['] + host + seq![']'] + suffix).drop_first() =~= host + seq![']'] + suffix);
    let whole = seq!['['] + host + seq![']', ':'] + digits;
    assert(whole.drop_first() =~= host + seq![']'] + (seq![':'] + digits));
    assert((seq![':'] + digits).drop_first() =~= digits);
    assert(whole[0] == '[');
    assert('0' <= digits[0] <= '9' && '0' <= digits[digits.len() - 1] <= '9');
    lemma_bare(digits);
    assert(host_and_port(whole) == Some((host, Some(digits))));
    assert(text::unsigned_value(digits, u16::MAX as nat) == Some(default_port as nat));
}

} // verus!
