//! What the overlay asks of Bambu Cloud before it serves.
use crate::bambu::models;
use crate::bambu::models::{CloudDevice, PrinterStatus, UserPreference};
use crate::local::MqttEndpoint;
use crate::text;
use vstd::prelude::*;

verus! {

// ---------------------------------------------------------------------------
// Devices
// ---------------------------------------------------------------------------

/// `device` without what was reported of its print.
pub open spec fn quiet(device: CloudDevice) -> CloudDevice {
    CloudDevice { status: models::empty_status(), ..device }
}

/// Each of `devices` without what was reported of its print.
pub open spec fn all_quiet(devices: Seq<CloudDevice>) -> Seq<CloudDevice> {
    Seq::new(devices.len(), |i: int| quiet(devices[i]))
}

/// Copies of `devices` without what was reported of their prints.
pub fn quiet_devices(devices: &Vec<CloudDevice>) -> (r: Vec<CloudDevice>)
    ensures
        r@ == all_quiet(devices@),
{
    let mut out: Vec<CloudDevice> = Vec::new();
    let mut i: usize = 0;
    while i < devices.len()
        invariant
            i <= devices@.len(),
            out@ == all_quiet(devices@.take(i as int)),
        decreases devices.len() - i,
    {
        let device = &devices[i];
        out.push(
            CloudDevice {
                id: device.id.clone(),
                name: device.name.clone(),
                model_name: device.model_name.clone(),
                product_name: device.product_name.clone(),
                online: device.online,
                access_code: device.access_code.clone(),
                status: PrinterStatus::default(),
            },
        );
        i = i + 1;
        assert(out@ =~= all_quiet(devices@.take(i as int)));
    }
    assert(devices@.take(i as int) =~= devices@);
    out
}

/// What is known of the devices that are bound to the account.
#[derive(Debug)]
pub enum Bound {
    /// There is no session, so nothing can be known.
    NoSession,
    /// They were not read yet.
    Unread,
    /// They were read.
    Read(Vec<CloudDevice>),
}

/// What is said where bound devices are needed and there is no session.
pub open spec fn no_bind_metadata() -> Seq<char> {
    "Bambu Cloud /bind metadata requires a Bambu Cloud token"@
}

/// A piece of startup work that is done, or that needs the bound devices to be read first.
#[derive(Debug)]
pub enum Step<T> {
    Done(T),
    ReadBound,
}

impl Bound {
    /// What is known before anything was read.
    pub fn new(session: bool) -> (r: Self)
        ensures
            r == (if session {
                Bound::Unread
            } else {
                Bound::NoSession
            }),
    {
        if session {
            Bound::Unread
        } else {
            Bound::NoSession
        }
    }

    /// What is known once the service has listed `devices`. Their prints are left out.
    pub fn read(devices: &Vec<CloudDevice>) -> (r: Self)
        ensures
            r matches Bound::Read(kept) && kept@ == all_quiet(devices@),
    {
        Bound::Read(quiet_devices(devices))
    }

    /// The bound devices, or what has to happen first.
    pub fn devices(&self) -> (r: Result<Step<&Vec<CloudDevice>>, String>)
        ensures
            match r {
                Ok(Step::Done(devices)) => *self == Bound::Read(*devices),
                Ok(Step::ReadBound) => self is Unread,
                Err(message) => self is NoSession && message@ == no_bind_metadata(),
            },
    {
        match self {
            Bound::NoSession => Err(
                "Bambu Cloud /bind metadata requires a Bambu Cloud token".to_owned(),
            ),
            Bound::Unread => Ok(Step::ReadBound),
            Bound::Read(devices) => Ok(Step::Done(devices)),
        }
    }
}

/// The first of `devices` that has the given id.
pub open spec fn device_with_id(devices: Seq<CloudDevice>, id: Seq<char>) -> Option<CloudDevice>
    decreases devices.len(),
{
    if devices.len() == 0 {
        None
    } else if devices[0].id matches Some(own) && own@ == id {
        Some(devices[0])
    } else {
        device_with_id(devices.drop_first(), id)
    }
}

/// The first of `devices` that has the given id.
pub fn find_device<'a>(devices: &'a Vec<CloudDevice>, device_id: &str) -> (r: Option<
    &'a CloudDevice,
>)
    ensures
        match r {
            Some(device) => device_with_id(devices@, device_id@) == Some(*device),
            None => device_with_id(devices@, device_id@) is None,
        },
{
    let mut i: usize = 0;
    assert(devices@.skip(0) =~= devices@);
    while i < devices.len()
        invariant
            i <= devices@.len(),
            device_with_id(devices@, device_id@) == device_with_id(
                devices@.skip(i as int),
                device_id@,
            ),
        decreases devices.len() - i,
    {
        assert(devices@.skip(i as int).drop_first() =~= devices@.skip(i + 1));
        if let Some(id) = &devices[i].id {
            if text::same(id.as_str(), device_id) {
                return Some(&devices[i]);
            }
        }
        i = i + 1;
    }
    None
}

/// The bound device that has the given id, or what has to happen before it can be known.
pub open spec fn bound_device(bound: Bound, id: Seq<char>) -> Result<
    Step<Option<CloudDevice>>,
    Seq<char>,
> {
    match bound {
        Bound::NoSession => Err(no_bind_metadata()),
        Bound::Unread => Ok(Step::ReadBound),
        Bound::Read(devices) => Ok(Step::Done(device_with_id(devices@, id))),
    }
}

/// The bound device that has the given id.
pub fn bind_device<'a>(bound: &'a Bound, device_id: &str) -> (r: Result<
    Step<Option<&'a CloudDevice>>,
    String,
>)
    ensures
        match r {
            Ok(Step::Done(Some(device))) => bound_device(*bound, device_id@) == Ok::<
                Step<Option<CloudDevice>>,
                Seq<char>,
            >(Step::Done(Some(*device))),
            Ok(Step::Done(None)) => bound_device(*bound, device_id@) == Ok::<
                Step<Option<CloudDevice>>,
                Seq<char>,
            >(Step::Done(None)),
            Ok(Step::ReadBound) => bound_device(*bound, device_id@) == Ok::<
                Step<Option<CloudDevice>>,
                Seq<char>,
            >(Step::ReadBound),
            Err(message) => bound_device(*bound, device_id@) == Err::<
                Step<Option<CloudDevice>>,
                Seq<char>,
            >(message@),
        },
{
    match bound.devices() {
        Ok(Step::Done(devices)) => Ok(Step::Done(find_device(devices, device_id))),
        Ok(Step::ReadBound) => Ok(Step::ReadBound),
        Err(message) => Err(message),
    }
}

/// The device that was named by its id and of which nothing else is known.
pub open spec fn named(id: String) -> CloudDevice {
    CloudDevice {
        id: Some(id),
        name: None,
        model_name: None,
        product_name: None,
        online: Some(true),
        access_code: None,
        status: models::empty_status(),
    }
}

/// The devices that were named by the given ids, in order.
pub open spec fn all_named(ids: Seq<String>) -> Seq<CloudDevice> {
    Seq::new(ids.len(), |i: int| named(ids[i]))
}

/// The device that has the given id, taken to be online.
pub fn explicit_cloud_device(device_id: &String) -> (r: CloudDevice)
    ensures
        r == named(*device_id),
{
    CloudDevice {
        id: Some(device_id.clone()),
        name: None,
        model_name: None,
        product_name: None,
        online: Some(true),
        access_code: None,
        status: PrinterStatus::default(),
    }
}

/// The devices that have the given ids, in order, each taken to be online.
pub fn explicit_cloud_devices(configs: &Vec<String>) -> (r: Vec<CloudDevice>)
    ensures
        r@ == all_named(configs@),
{
    let mut out: Vec<CloudDevice> = Vec::new();
    let mut i: usize = 0;
    while i < configs.len()
        invariant
            i <= configs@.len(),
            out@ == all_named(configs@.take(i as int)),
        decreases configs.len() - i,
    {
        out.push(explicit_cloud_device(&configs[i]));
        i = i + 1;
        assert(out@ =~= all_named(configs@.take(i as int)));
    }
    assert(configs@.take(i as int) =~= configs@);
    out
}

// ---------------------------------------------------------------------------
// MQTT
// ---------------------------------------------------------------------------

/// What is needed to listen to devices through the cloud.
#[derive(Debug)]
pub struct CloudMqttStartup {
    pub endpoint: MqttEndpoint,
    pub user_id: String,
    pub access_token: String,
    pub device_ids: Vec<String>,
}

/// How far the startup of cloud MQTT has come.
#[derive(Debug)]
pub enum Startup {
    /// No device is listened to through the cloud.
    NotNeeded,
    /// The preferences of the user have to be read.
    ReadPreference,
    /// Listening can begin.
    Ready(CloudMqttStartup),
}

/// What is said where cloud MQTT is needed and there is no session.
pub open spec fn no_cloud_mqtt() -> Seq<char> {
    "cloud MQTT devices require a Bambu Cloud token; run `bambu-overlay login` or configure the device as --local-device"@
}

/// What is said where the preferences name no user.
pub open spec fn no_mqtt_user() -> Seq<char> {
    "could not derive MQTT user id from user preference"@
}

/// A copy of `names`.
pub fn copy_names(names: &Vec<String>) -> (r: Vec<String>)
    ensures
        r@ == names@,
{
    let mut out: Vec<String> = Vec::new();
    let mut i: usize = 0;
    while i < names.len()
        invariant
            i <= names@.len(),
            out@ == names@.take(i as int),
        decreases names.len() - i,
    {
        out.push(names[i].clone());
        i = i + 1;
    }
    assert(names@.take(i as int) =~= names@);
    out
}

/// What is needed to listen to `device_ids` through the cloud. There is nothing to do where there
/// is no such device; a session is needed where there is one; and the preferences of the user have
/// to be read before listening can begin.
pub fn cloud_mqtt_startup(
    access_token: Option<&String>,
    endpoint: &MqttEndpoint,
    device_ids: &Vec<String>,
    preference: Option<&UserPreference>,
) -> (r: Result<Startup, String>)
    ensures
        match r {
            Ok(Startup::NotNeeded) => device_ids@.len() == 0,
            Ok(Startup::ReadPreference) => device_ids@.len() > 0 && access_token is Some
                && preference is None,
            Ok(Startup::Ready(startup)) => {
                &&& device_ids@.len() > 0
                &&& access_token == Some(&startup.access_token)
                &&& preference is Some
                &&& preference->0.uid is Some
                &&& startup.user_id@ == models::user_of(preference->0.uid->0@)
                &&& startup.user_id@.len() > 0
                &&& startup.endpoint == *endpoint
                &&& startup.device_ids@ == device_ids@
            },
            Err(message) => device_ids@.len() > 0 && if access_token is None {
                message@ == no_cloud_mqtt()
            } else {
                &&& preference is Some
                &&& preference->0.uid is None || models::user_of(preference->0.uid->0@).len() == 0
                &&& message@ == no_mqtt_user()
            },
        },
{
    if device_ids.len() == 0 {
        return Ok(Startup::NotNeeded);
    }
    let access_token = match access_token {
        Some(access_token) => access_token,
        None => return Err(
            "cloud MQTT devices require a Bambu Cloud token; run `bambu-overlay login` or configure the device as --local-device".to_owned(),
        ),
    };
    let preference = match preference {
        Some(preference) => preference,
        None => return Ok(Startup::ReadPreference),
    };
    match preference.mqtt_user_id() {
        Some(user_id) => Ok(
            Startup::Ready(
                CloudMqttStartup {
                    endpoint: endpoint.clone(),
                    user_id,
                    access_token: access_token.clone(),
                    device_ids: copy_names(device_ids),
                },
            ),
        ),
        None => Err("could not derive MQTT user id from user preference".to_owned()),
    }
}

/// Of the devices that the service lists, all is kept but what they reported of their prints.
pub proof fn law_listed_devices_are_kept(devices: &Vec<CloudDevice>, r: Bound, i: int)
    requires
        call_ensures(Bound::read, (devices,), r),
        0 <= i < devices@.len(),
    ensures
        r matches Bound::Read(kept) && {
            &&& kept@.len() == devices@.len()
            &&& kept@[i].id == devices@[i].id
            &&& kept@[i].name == devices@[i].name
            &&& kept@[i].model_name == devices@[i].model_name
            &&& kept@[i].product_name == devices@[i].product_name
            &&& kept@[i].online == devices@[i].online
            &&& kept@[i].access_code == devices@[i].access_code
            &&& kept@[i].status.is_empty()
        },
{
}

/// The device that is found is the first that has the wanted id, and one is found where there is one.
pub proof fn law_found_device_is_the_wanted_one<'a>(
    devices: &'a Vec<CloudDevice>,
    device_id: &str,
    r: Option<&'a CloudDevice>,
)
    requires
        call_ensures(find_device, (devices, device_id), r),
    ensures
        r matches Some(device) ==> {
            &&& device.id is Some
            &&& device.id->0@ == device_id@
            &&& exists|k: int|
                {
                    &&& 0 <= k < devices@.len()
                    &&& #[trigger] devices@[k] == *device
                    &&& forall|j: int|
                        0 <= j < k ==> (#[trigger] devices@[j]).id is None || devices@[j].id->0@
                            != device_id@
                }
        },
        r is None ==> forall|j: int|
            0 <= j < devices@.len() ==> (#[trigger] devices@[j]).id is None || devices@[j].id->0@
                != device_id@,
{
    lemma_device_with_id(devices@, device_id@);
}

/// The first device that has an id has it, and there is one where any has it.
pub proof fn lemma_device_with_id(devices: Seq<CloudDevice>, id: Seq<char>)
    ensures
        match device_with_id(devices, id) {
            Some(device) => {
                &&& device.id is Some
                &&& device.id->0@ == id
                &&& exists|k: int|
                    {
                        &&& 0 <= k < devices.len()
                        &&& #[trigger] devices[k] == device
                        &&& forall|j: int|
                            0 <= j < k ==> (#[trigger] devices[j]).id is None || devices[j].id->0@
                                != id
                    }
            },
            None => forall|j: int|
                0 <= j < devices.len() ==> (#[trigger] devices[j]).id is None || devices[j].id->0@
                    != id,
        },
    decreases devices.len(),
{
    if devices.len() > 0 {
        let rest = devices.drop_first();
        if devices[0].id is Some && devices[0].id->0@ == id {
            assert(devices[0] == device_with_id(devices, id)->0);
        } else {
            lemma_device_with_id(rest, id);
            match device_with_id(rest, id) {
                Some(device) => {
                    let k = choose|k: int|
                        {
                            &&& 0 <= k < rest.len()
                            &&& #[trigger] rest[k] == device
                            &&& forall|j: int|
                                0 <= j < k ==> (#[trigger] rest[j]).id is None || rest[j].id->0@
                                    != id
                        };
                    assert(devices[k + 1] == device);
                    assert forall|j: int| 0 <= j < k + 1 implies (#[trigger] devices[j]).id is None
                        || devices[j].id->0@ != id by {
                        if j > 0 {
                            assert(rest[j - 1] == devices[j]);
                        }
                    }
                },
                None => {
                    assert forall|j: int| 0 <= j < devices.len() implies (
                    #[trigger] devices[j]).id is None || devices[j].id->0@ != id by {
                        if j > 0 {
                            assert(rest[j - 1] == devices[j]);
                        }
                    }
                },
            }
        }
    }
}

/// A bound device is looked for among those that were read; before they were read they have to be,
/// and without a session they cannot be.
pub proof fn law_bound_device_is_one_that_was_read<'a>(
    bound: &'a Bound,
    device_id: &str,
    r: Result<Step<Option<&'a CloudDevice>>, String>,
)
    requires
        call_ensures(bind_device, (bound, device_id), r),
    ensures
        bound is NoSession <==> r is Err,
        bound is Unread <==> r == Ok::<Step<Option<&'a CloudDevice>>, String>(Step::ReadBound),
        bound matches Bound::Read(devices) ==> (r matches Ok(Step::Done(found)) && (found is Some
            <==> exists|k: int|
            0 <= k < devices@.len() && (#[trigger] devices@[k]).id is Some && devices@[k].id->0@
                == device_id@)),
        r matches Ok(Step::Done(Some(device))) ==> device.id is Some && device.id->0@
            == device_id@,
{
    if let Bound::Read(devices) = bound {
        lemma_device_with_id(devices@, device_id@);
    }
}

/// A device that is named by its id has that id, is taken to be online, and has nothing else.
pub proof fn law_named_devices_have_their_ids(
    configs: &Vec<String>,
    r: Vec<CloudDevice>,
    i: int,
)
    requires
        call_ensures(explicit_cloud_devices, (configs,), r),
        0 <= i < configs@.len(),
    ensures
        r@.len() == configs@.len(),
        r@[i].id == Some(configs@[i]),
        r@[i].online == Some(true),
        r@[i].name is None,
        r@[i].model_name is None,
        r@[i].product_name is None,
        r@[i].access_code is None,
        r@[i].status.is_empty(),
{
}

/// Devices are listened to through the cloud at the given address, by the user and with the token of
/// the session. Without such a device nothing is needed; with one, first a session, and then a user.
pub proof fn law_cloud_mqtt_needs_a_session_and_a_user(
    access_token: Option<&String>,
    endpoint: &MqttEndpoint,
    device_ids: &Vec<String>,
    preference: Option<&UserPreference>,
    r: Result<Startup, String>,
)
    requires
        call_ensures(cloud_mqtt_startup, (access_token, endpoint, device_ids, preference), r),
    ensures
        device_ids@.len() == 0 ==> r matches Ok(Startup::NotNeeded),
        device_ids@.len() > 0 && access_token is None ==> r is Err,
        device_ids@.len() > 0 && access_token is Some && preference is None ==> r matches Ok(
            Startup::ReadPreference,
        ),
        device_ids@.len() > 0 && access_token is Some && preference is Some
            && preference->0.uid is Some && models::user_of(preference->0.uid->0@).len() > 0
            ==> (r matches Ok(Startup::Ready(startup)) && {
            &&& startup.access_token@ == access_token->0@
            &&& startup.user_id@ == models::user_of(preference->0.uid->0@)
            &&& startup.endpoint.host@ == endpoint.host@
            &&& startup.endpoint.port == endpoint.port
            &&& startup.device_ids@.len() == device_ids@.len()
            &&& forall|i: int|
                0 <= i < device_ids@.len() ==> #[trigger] startup.device_ids@[i]@
                    == device_ids@[i]@
        }),
        device_ids@.len() > 0 && access_token is Some && preference is Some
            && preference->0.uid is None ==> r is Err,
{
}

/// Before anything was read, the bound devices can be read where there is a session; and without one,
/// or without a user, it is said what is missing.
pub proof fn law_sessions_allow_reading(session: bool, r: Bound)
    requires
        call_ensures(Bound::new, (session,), r),
    ensures
        session <==> r is Unread,
        !session <==> r is NoSession,
        no_bind_metadata() == "Bambu Cloud /bind metadata requires a Bambu Cloud token"@,
        no_cloud_mqtt()
            == "cloud MQTT devices require a Bambu Cloud token; run `bambu-overlay login` or configure the device as --local-device"@,
        no_mqtt_user() == "could not derive MQTT user id from user preference"@,
{
}

} // verus!
