//! The devices that are served: which there are, how they are reached and which have a camera.
use crate::bambu::models;
use crate::bambu::models::{CloudDevice, PrinterStatus};
use crate::cloud;
use crate::cloud::{Bound, Step};
use crate::local;
use crate::local::{Endpoint, LocalDevice, LocalDeviceConfig};
use crate::table::{NameSet, Table};
use crate::text;
use crate::video::{VideoEndpoint, DEFAULT_VIDEO_PORT};
use vstd::prelude::*;

verus! {

// ---------------------------------------------------------------------------
// Known devices
// ---------------------------------------------------------------------------

/// How a device is listened to.
#[derive(Debug, Clone, Copy, PartialEq, Eq, Structural)]
pub enum DeviceSource {
    Cloud,
    Local,
}

/// A device of the catalog.
#[derive(Debug, Clone)]
pub struct KnownDevice {
    pub id: Option<String>,
    pub name: Option<String>,
    pub online: Option<bool>,
    pub access_code: Option<String>,
    pub status: PrinterStatus,
    pub source: DeviceSource,
}

/// `device` as an entry of the catalog.
pub open spec fn known_cloud(device: CloudDevice) -> KnownDevice {
    KnownDevice {
        id: device.id,
        name: device.name,
        online: device.online,
        access_code: device.access_code,
        status: device.status,
        source: DeviceSource::Cloud,
    }
}

/// `device` as an entry of the catalog.
pub open spec fn known_local(device: LocalDevice) -> KnownDevice {
    KnownDevice {
        id: Some(device.id),
        name: device.name,
        online: Some(true),
        access_code: device.access_code,
        status: models::empty_status(),
        source: DeviceSource::Local,
    }
}

impl KnownDevice {
    /// A device of the cloud as an entry of the catalog.
    pub fn from_cloud(device: CloudDevice) -> (r: Self)
        ensures
            r == known_cloud(device),
    {
        KnownDevice {
            id: device.id,
            name: device.name,
            online: device.online,
            access_code: device.access_code,
            status: device.status,
            source: DeviceSource::Cloud,
        }
    }

    /// A device of the local network as an entry of the catalog.
    pub fn from_local(device: &LocalDevice) -> (r: Self)
        ensures
            r == known_local(*device),
    {
        KnownDevice {
            id: Some(device.id.clone()),
            name: device.name.clone(),
            online: Some(true),
            access_code: device.access_code.clone(),
            status: PrinterStatus::default(),
            source: DeviceSource::Local,
        }
    }

    /// Whether the code that opens the device is known.
    pub fn has_access_code(&self) -> (r: bool)
        ensures
            r == text::present(self.access_code),
    {
        text::is_present(&self.access_code)
    }

    /// The device as its reports are summarised.
    pub fn into_cloud_device(self) -> (r: CloudDevice)
        ensures
            r == (CloudDevice {
                id: self.id,
                name: self.name,
                model_name: None,
                product_name: None,
                online: self.online,
                access_code: self.access_code,
                status: self.status,
            }),
    {
        CloudDevice {
            id: self.id,
            name: self.name,
            model_name: None,
            product_name: None,
            online: self.online,
            access_code: self.access_code,
            status: self.status,
        }
    }
}

/// A device of the local network whose id was found out.
pub type PendingDevice = (String, LocalDeviceConfig);

/// A camera that was configured, with the id of its device.
pub type PlacedVideo = (String, VideoEndpoint);

/// Whether the devices of the account are listed: only where a session allows it and no device is
/// configured.
pub fn should_enumerate_cloud_catalog(
    cloud_available: bool,
    cloud_configs: &Vec<String>,
    local_devices: &Vec<PendingDevice>,
) -> (r: bool)
    ensures
        r == (cloud_available && cloud_configs@.len() == 0 && local_devices@.len() == 0),
{
    cloud_available && cloud_configs.len() == 0 && local_devices.len() == 0
}

// ---------------------------------------------------------------------------
// Access to local devices
// ---------------------------------------------------------------------------

/// The first of `videos` that is placed at the device with the given id.
pub open spec fn video_of(videos: Seq<PlacedVideo>, id: Seq<char>) -> Option<VideoEndpoint>
    decreases videos.len(),
{
    if videos.len() == 0 {
        None
    } else if videos[0].0@ == id {
        Some(videos[0].1)
    } else {
        video_of(videos.drop_first(), id)
    }
}

/// The first of `videos` that is placed at the device with the given id.
pub fn explicit_video_for_device<'a>(
    videos: &'a Vec<PlacedVideo>,
    device_id: &str,
) -> (r: Option<&'a VideoEndpoint>)
    ensures
        match r {
            Some(video) => video_of(videos@, device_id@) == Some(*video),
            None => video_of(videos@, device_id@) is None,
        },
{
    let mut i: usize = 0;
    assert(videos@.skip(0) =~= videos@);
    while i < videos.len()
        invariant
            i <= videos@.len(),
            video_of(videos@, device_id@) == video_of(videos@.skip(i as int), device_id@),
        decreases videos.len() - i,
    {
        assert(videos@.skip(i as int).drop_first() =~= videos@.skip(i + 1));
        if text::same(videos[i].0.as_str(), device_id) {
            return Some(&videos[i].1);
        }
        i = i + 1;
    }
    None
}

/// What is said of a local device whose code is not known.
pub open spec fn missing_code(id: Seq<char>) -> Seq<char> {
    "--local-device `"@ + id
        + "` is missing an access code; provide ACCESS_CODE or cloud metadata that exposes dev_access_code"@
}

/// The local device, where the code that opens it is known.
pub open spec fn finalized(id: String, config: LocalDeviceConfig) -> Result<
    LocalDevice,
    Seq<char>,
> {
    if text::present(config.access_code) {
        Ok(
            LocalDevice {
                id,
                host: config.host,
                mqtt_port: config.mqtt_port,
                access_code: config.access_code,
                name: config.name,
            },
        )
    } else {
        Err(missing_code(id@))
    }
}

/// The local device, where the code that opens it is known.
pub fn finalize_local_device(device: PendingDevice) -> (r: Result<LocalDevice, String>)
    ensures
        match r {
            Ok(local) => finalized(device.0, device.1) == Ok::<LocalDevice, Seq<char>>(local),
            Err(message) => finalized(device.0, device.1) == Err::<LocalDevice, Seq<char>>(
                message@,
            ),
        },
{
    let (device_id, config) = device;
    if text::is_present(&config.access_code) {
        Ok(config.into_device(device_id))
    } else {
        Err(
            "--local-device `".to_owned().concat(device_id.as_str()).concat(
                "` is missing an access code; provide ACCESS_CODE or cloud metadata that exposes dev_access_code",
            ),
        )
    }
}

/// `config` with the id of its device as its name, where it has none.
pub open spec fn with_name(config: LocalDeviceConfig, id: String) -> LocalDeviceConfig {
    if text::present(config.name) {
        config
    } else {
        LocalDeviceConfig { name: Some(id), ..config }
    }
}

/// `config` with the code of a camera that was placed at its device, where it has none.
pub open spec fn with_video_code(
    config: LocalDeviceConfig,
    video: Option<VideoEndpoint>,
) -> LocalDeviceConfig {
    if !text::present(config.access_code) && video is Some {
        LocalDeviceConfig { access_code: video->0.access_code, ..config }
    } else {
        config
    }
}

/// `config` with the code of the bound device, and with its name where it has none.
pub open spec fn with_metadata(
    config: LocalDeviceConfig,
    metadata: CloudDevice,
) -> LocalDeviceConfig {
    LocalDeviceConfig {
        access_code: metadata.access_code,
        name: if text::present(config.name) {
            config.name
        } else {
            metadata.name
        },
        ..config
    }
}

/// A device, or what is said instead of one, as the end of the work on it.
pub open spec fn finished(outcome: Result<LocalDevice, Seq<char>>) -> Result<
    Step<LocalDevice>,
    Seq<char>,
> {
    match outcome {
        Ok(device) => Ok(Step::Done(device)),
        Err(message) => Err(message),
    }
}

/// The local device with its code, which is looked for where it is configured, then at its camera,
/// then among the bound devices.
pub open spec fn local_access(
    id: String,
    config: LocalDeviceConfig,
    videos: Seq<PlacedVideo>,
    bound: Bound,
) -> Result<Step<LocalDevice>, Seq<char>> {
    let config = with_video_code(config, video_of(videos, id@));
    if text::present(config.access_code) {
        finished(finalized(id, with_name(config, id)))
    } else {
        match cloud::bound_device(bound, id@) {
            Err(message) => Err(message),
            Ok(Step::ReadBound) => Ok(Step::ReadBound),
            Ok(Step::Done(None)) => finished(finalized(id, with_name(config, id))),
            Ok(Step::Done(Some(metadata))) => finished(
                finalized(id, with_name(with_metadata(config, metadata), id)),
            ),
        }
    }
}

/// The local device with its code, or what has to happen before it can be known.
pub fn resolve_local_device_access(
    device: &PendingDevice,
    videos: &Vec<PlacedVideo>,
    bound: &Bound,
) -> (r: Result<Step<LocalDevice>, String>)
    ensures
        match r {
            Ok(step) => local_access(device.0, device.1, videos@, *bound) == Ok::<
                Step<LocalDevice>,
                Seq<char>,
            >(step),
            Err(message) => local_access(device.0, device.1, videos@, *bound) == Err::<
                Step<LocalDevice>,
                Seq<char>,
            >(message@),
        },
{
    let device_id = device.0.clone();
    let mut config = device.1.clone();
    if !text::is_present(&config.access_code) {
        if let Some(video) = explicit_video_for_device(videos, device_id.as_str()) {
            config.access_code = video.access_code.clone();
        }
    }
    if !text::is_present(&config.access_code) {
        match cloud::bind_device(bound, device_id.as_str()) {
            Err(message) => return Err(message),
            Ok(Step::ReadBound) => return Ok(Step::ReadBound),
            Ok(Step::Done(None)) => {},
            Ok(Step::Done(Some(metadata))) => {
                config.access_code = metadata.access_code.clone();
                if !text::is_present(&config.name) {
                    config.name = metadata.name.clone();
                }
            },
        }
    }
    if !text::is_present(&config.name) {
        config.name = Some(device_id.clone());
    }
    match finalize_local_device((device_id, config)) {
        Ok(local) => Ok(Step::Done(local)),
        Err(message) => Err(message),
    }
}

/// A local device that is served has the id that was found out, the host that was configured, a
/// code that is not blank and a name.
pub proof fn law_local_device_is_complete(
    id: String,
    config: LocalDeviceConfig,
    videos: Seq<PlacedVideo>,
    bound: Bound,
)
    ensures
        local_access(id, config, videos, bound) matches Ok(Step::Done(device)) ==> {
            &&& device.id == id
            &&& device.host == config.host
            &&& device.mqtt_port == config.mqtt_port
            &&& text::present(device.access_code)
            &&& text::present(device.name) || device.name == Some(id)
        },
{
}

/// A code that is configured is the code that is used, whatever cameras and bound devices say; and
/// then no bound device is looked at.
pub proof fn law_configured_code_wins(
    id: String,
    config: LocalDeviceConfig,
    videos: Seq<PlacedVideo>,
    bound: Bound,
)
    requires
        text::present(config.access_code),
    ensures
        local_access(id, config, videos, bound) matches Ok(Step::Done(device)) && device.access_code
            == config.access_code,
{
}

/// The local devices with their codes, in order; the first that cannot be had decides.
pub open spec fn all_local_access(
    devices: Seq<PendingDevice>,
    videos: Seq<PlacedVideo>,
    bound: Bound,
) -> Result<Step<Seq<LocalDevice>>, Seq<char>>
    decreases devices.len(),
{
    if devices.len() == 0 {
        Ok(Step::Done(Seq::empty()))
    } else {
        match all_local_access(devices.drop_last(), videos, bound) {
            Err(message) => Err(message),
            Ok(Step::ReadBound) => Ok(Step::ReadBound),
            Ok(Step::Done(front)) => match local_access(
                devices.last().0,
                devices.last().1,
                videos,
                bound,
            ) {
                Err(message) => Err(message),
                Ok(Step::ReadBound) => Ok(Step::ReadBound),
                Ok(Step::Done(device)) => Ok(Step::Done(front.push(device))),
            },
        }
    }
}

/// What comes of a list is no better than what comes of its beginning.
proof fn lemma_local_access_prefix(
    devices: Seq<PendingDevice>,
    n: int,
    videos: Seq<PlacedVideo>,
    bound: Bound,
)
    requires
        0 <= n <= devices.len(),
        !(all_local_access(devices.take(n), videos, bound) matches Ok(Step::Done(_))),
    ensures
        all_local_access(devices, videos, bound) == all_local_access(
            devices.take(n),
            videos,
            bound,
        ),
    decreases devices.len(),
{
    if n == devices.len() {
        assert(devices.take(n) =~= devices);
    } else {
        assert(devices.drop_last().take(n) =~= devices.take(n));
        lemma_local_access_prefix(devices.drop_last(), n, videos, bound);
    }
}

/// The local devices with their codes, or what has to happen before they can be known.
pub fn resolve_local_access(
    local_devices: &Vec<PendingDevice>,
    videos: &Vec<PlacedVideo>,
    bound: &Bound,
) -> (r: Result<Step<Vec<LocalDevice>>, String>)
    ensures
        match r {
            Ok(Step::Done(devices)) => all_local_access(local_devices@, videos@, *bound) == Ok::<
                Step<Seq<LocalDevice>>,
                Seq<char>,
            >(Step::Done(devices@)),
            Ok(Step::ReadBound) => all_local_access(local_devices@, videos@, *bound) == Ok::<
                Step<Seq<LocalDevice>>,
                Seq<char>,
            >(Step::ReadBound),
            Err(message) => all_local_access(local_devices@, videos@, *bound) == Err::<
                Step<Seq<LocalDevice>>,
                Seq<char>,
            >(message@),
        },
{
    let mut devices: Vec<LocalDevice> = Vec::new();
    let mut i: usize = 0;
    let ghost all = local_devices@;
    assert(all.take(0) =~= Seq::<PendingDevice>::empty());
    while i < local_devices.len()
        invariant
            all == local_devices@,
            i <= all.len(),
            all_local_access(all.take(i as int), videos@, *bound) == Ok::<
                Step<Seq<LocalDevice>>,
                Seq<char>,
            >(Step::Done(devices@)),
        decreases local_devices.len() - i,
    {
        assert(all.take(i + 1).drop_last() =~= all.take(i as int));
        match resolve_local_device_access(&local_devices[i], videos, bound) {
            Ok(Step::Done(device)) => devices.push(device),
            Ok(Step::ReadBound) => {
                proof {
                    lemma_local_access_prefix(all, i + 1, videos@, *bound);
                }
                return Ok(Step::ReadBound);
            },
            Err(message) => {
                proof {
                    lemma_local_access_prefix(all, i + 1, videos@, *bound);
                }
                return Err(message);
            },
        }
        i = i + 1;
    }
    assert(all.take(i as int) =~= all);
    Ok(Step::Done(devices))
}

/// Whether one of `devices` has the given id.
pub open spec fn has_pending(devices: Seq<PendingDevice>, id: Seq<char>) -> bool {
    exists|i: int| 0 <= i < devices.len() && (#[trigger] devices[i]).0@ == id
}

/// The place of the first device that has the id of an earlier one, if there is one.
pub open spec fn repeat_of(devices: Seq<PendingDevice>) -> Option<int>
    decreases devices.len(),
{
    if devices.len() == 0 {
        None
    } else {
        match repeat_of(devices.drop_last()) {
            Some(place) => Some(place),
            None => if has_pending(devices.drop_last(), devices.last().0@) {
                Some(devices.len() - 1)
            } else {
                None
            },
        }
    }
}

/// Whether no two devices have one id.
pub open spec fn distinct_ids(devices: Seq<PendingDevice>) -> bool {
    forall|i: int, j: int|
        0 <= i < j < devices.len() ==> (#[trigger] devices[i]).0@ != (#[trigger] devices[j]).0@
}

/// No device has the id of an earlier one exactly where no two devices have one id.
pub proof fn law_no_repeat_means_distinct(devices: Seq<PendingDevice>)
    ensures
        repeat_of(devices) is None <==> distinct_ids(devices),
        repeat_of(devices) matches Some(place) ==> 0 <= place < devices.len(),
    decreases devices.len(),
{
    if devices.len() > 0 {
        let front = devices.drop_last();
        let id = devices.last().0@;
        law_no_repeat_means_distinct(front);
        if distinct_ids(devices) {
            assert forall|i: int, j: int| 0 <= i < j < front.len() implies (#[trigger] front[i]).0@
                != (#[trigger] front[j]).0@ by {
                assert(devices[i] == front[i] && devices[j] == front[j]);
            }
            if has_pending(front, id) {
                let k = choose|k: int| 0 <= k < front.len() && (#[trigger] front[k]).0@ == id;
                assert(devices[k].0@ != devices[devices.len() - 1].0@);
            }
        }
        if repeat_of(devices) is None {
            assert forall|i: int, j: int|
                0 <= i < j < devices.len() implies (#[trigger] devices[i]).0@ != (
            #[trigger] devices[j]).0@ by {
                assert(devices[i] == front[i]);
                if j < front.len() {
                    assert(devices[j] == front[j]);
                }
            }
        }
    }
}

proof fn lemma_repeat_of_prefix(devices: Seq<PendingDevice>, n: int)
    requires
        0 <= n <= devices.len(),
        repeat_of(devices.take(n)) is Some,
    ensures
        repeat_of(devices) == repeat_of(devices.take(n)),
    decreases devices.len(),
{
    if n == devices.len() {
        assert(devices.take(n) =~= devices);
    } else {
        assert(devices.drop_last().take(n) =~= devices.take(n));
        lemma_repeat_of_prefix(devices.drop_last(), n);
    }
}

/// What is said of an id that two local devices have.
pub open spec fn repeated_id(id: Seq<char>) -> Seq<char> {
    "--local-device resolves duplicate device id `"@ + id + "`"@
}

/// Checks that no two local devices have one id.
pub fn ensure_unique_local_device_ids(local_devices: &Vec<PendingDevice>) -> (r: Result<(), String>)
    ensures
        match r {
            Ok(_) => repeat_of(local_devices@) is None,
            Err(message) => repeat_of(local_devices@) matches Some(place) && message@
                == repeated_id(local_devices@[place].0@),
        },
{
    let mut seen = NameSet::new();
    let mut i: usize = 0;
    let ghost all = local_devices@;
    assert(all.take(0) =~= Seq::<PendingDevice>::empty());
    while i < local_devices.len()
        invariant
            all == local_devices@,
            i <= all.len(),
            forall|name: Seq<char>| #[trigger]
                seen@.contains(name) <==> has_pending(all.take(i as int), name),
            repeat_of(all.take(i as int)) is None,
        decreases local_devices.len() - i,
    {
        let ghost before = seen@;
        let ghost front = all.take(i as int);
        let ghost next = all.take(i + 1);
        assert(next.drop_last() =~= front);
        let id = local_devices[i].0.clone();
        if !seen.insert(id) {
            assert(has_pending(front, all[i as int].0@));
            proof {
                lemma_repeat_of_prefix(all, i + 1);
            }
            return Err(
                "--local-device resolves duplicate device id `".to_owned().concat(
                    local_devices[i].0.as_str(),
                ).concat("`"),
            );
        }
        proof {
            assert(!has_pending(front, next.last().0@));
            assert forall|name: Seq<char>| #[trigger]
                seen@.contains(name) <==> has_pending(next, name) by {
                if has_pending(front, name) {
                    let k = choose|k: int| 0 <= k < front.len() && (#[trigger] front[k]).0@ == name;
                    assert(next[k] == front[k]);
                }
                if name == all[i as int].0@ {
                    assert(next[i as int].0@ == name);
                }
                if has_pending(next, name) {
                    let k = choose|k: int| 0 <= k < next.len() && (#[trigger] next[k]).0@ == name;
                    if k < i {
                        assert(front[k] == next[k]);
                    }
                }
            }
        }
        i = i + 1;
    }
    assert(all.take(i as int) =~= all);
    Ok(())
}

// ---------------------------------------------------------------------------
// The catalog
// ---------------------------------------------------------------------------

/// The ids of `devices`.
pub open spec fn ids_of(devices: Seq<LocalDevice>) -> Set<Seq<char>> {
    Set::new(
        |id: Seq<char>|
            exists|i: int| 0 <= i < devices.len() && (#[trigger] devices[i]).id@ == id,
    )
}

/// The ids of the local devices.
pub fn local_device_ids(local_devices: &Vec<LocalDevice>) -> (r: NameSet)
    ensures
        r@ == ids_of(local_devices@),
{
    let mut ids = NameSet::new();
    let mut i: usize = 0;
    let ghost all = local_devices@;
    assert(ids@ =~= ids_of(all.take(0)));
    while i < local_devices.len()
        invariant
            all == local_devices@,
            i <= all.len(),
            ids@ == ids_of(all.take(i as int)),
        decreases local_devices.len() - i,
    {
        let ghost before = ids@;
        ids.insert(local_devices[i].id.clone());
        proof {
            let next = all.take(i + 1);
            assert forall|id: Seq<char>| #[trigger]
                ids@.contains(id) <==> ids_of(next).contains(id) by {
                if before.contains(id) {
                    let k = choose|k: int|
                        0 <= k < i && (#[trigger] all.take(i as int)[k]).id@ == id;
                    assert(next[k].id@ == id);
                }
                if id == all[i as int].id@ {
                    assert(next[i as int].id@ == id);
                }
                if ids_of(next).contains(id) {
                    let k = choose|k: int| 0 <= k < i + 1 && (#[trigger] next[k]).id@ == id;
                    if k < i {
                        assert(all.take(i as int)[k].id@ == id);
                    }
                }
            }
            assert(ids@ =~= ids_of(next));
        }
        i = i + 1;
    }
    assert(all.take(i as int) =~= all);
    ids
}

/// Whether `device` is none of those that have the given ids.
pub open spec fn is_other(device: CloudDevice, ids: Set<Seq<char>>) -> bool {
    match device.id {
        Some(id) => !ids.contains(id@),
        None => true,
    }
}

/// The devices of the cloud that are none of the local ones, in order.
pub open spec fn cloud_part(devices: Seq<CloudDevice>, ids: Set<Seq<char>>) -> Seq<KnownDevice>
    decreases devices.len(),
{
    if devices.len() == 0 {
        Seq::empty()
    } else if is_other(devices.last(), ids) {
        cloud_part(devices.drop_last(), ids).push(known_cloud(devices.last()))
    } else {
        cloud_part(devices.drop_last(), ids)
    }
}

/// The local devices as entries of the catalog, in order.
pub open spec fn local_part(devices: Seq<LocalDevice>) -> Seq<KnownDevice> {
    Seq::new(devices.len(), |i: int| known_local(devices[i]))
}

/// The devices of the cloud, without those that are reached locally, and then the local ones.
pub fn catalog_devices(
    cloud_devices: Vec<CloudDevice>,
    local_devices: &Vec<LocalDevice>,
    local_ids: &NameSet,
) -> (r: Vec<KnownDevice>)
    ensures
        r@ == cloud_part(cloud_devices@, local_ids@) + local_part(local_devices@),
{
    let mut devices: Vec<KnownDevice> = Vec::new();
    let ghost all = cloud_devices@;
    assert(all.take(0) =~= Seq::<CloudDevice>::empty());
    for device in it: cloud_devices
        invariant
            it.seq() == all,
            devices@ == cloud_part(all.take(it.index() as int), local_ids@),
    {
        proof {
            let i = it.index() as int;
            assert(all.take(i + 1).drop_last() =~= all.take(i));
        }
        let other = match &device.id {
            Some(id) => !local_ids.contains(id.as_str()),
            None => true,
        };
        if other {
            devices.push(KnownDevice::from_cloud(device));
        }
    }
    assert(all.take(all.len() as int) =~= all);
    let ghost front = devices@;
    let ghost locals = local_devices@;
    let mut i: usize = 0;
    while i < local_devices.len()
        invariant
            locals == local_devices@,
            i <= locals.len(),
            devices@ == front + local_part(locals.take(i as int)),
        decreases local_devices.len() - i,
    {
        devices.push(KnownDevice::from_local(&local_devices[i]));
        i = i + 1;
        assert(devices@ =~= front + local_part(locals.take(i as int)));
    }
    assert(locals.take(i as int) =~= locals);
    devices
}

/// The ids that are known of `devices`.
pub open spec fn known_ids(devices: Seq<KnownDevice>) -> Set<Seq<char>> {
    Set::new(
        |id: Seq<char>|
            exists|i: int|
                0 <= i < devices.len() && (#[trigger] devices[i]).id is Some && devices[i].id->0@
                    == id,
    )
}

/// The ids of the devices that have one.
pub fn catalog_device_ids(devices: &Vec<KnownDevice>) -> (r: NameSet)
    ensures
        r@ == known_ids(devices@),
{
    let mut ids = NameSet::new();
    let mut i: usize = 0;
    let ghost all = devices@;
    assert(ids@ =~= known_ids(all.take(0)));
    while i < devices.len()
        invariant
            all == devices@,
            i <= all.len(),
            ids@ == known_ids(all.take(i as int)),
        decreases devices.len() - i,
    {
        let ghost before = ids@;
        if let Some(id) = &devices[i].id {
            ids.insert(id.clone());
        }
        proof {
            let next = all.take(i + 1);
            assert forall|id: Seq<char>| #[trigger]
                ids@.contains(id) <==> known_ids(next).contains(id) by {
                if before.contains(id) {
                    let k = choose|k: int|
                        0 <= k < i && (#[trigger] all.take(i as int)[k]).id is Some && all.take(
                            i as int,
                        )[k].id->0@ == id;
                    assert(next[k].id is Some && next[k].id->0@ == id);
                }
                if all[i as int].id is Some && id == all[i as int].id->0@ {
                    assert(next[i as int].id is Some);
                }
                if known_ids(next).contains(id) {
                    let k = choose|k: int|
                        0 <= k < i + 1 && (#[trigger] next[k]).id is Some && next[k].id->0@ == id;
                    if k < i {
                        assert(all.take(i as int)[k].id is Some);
                    }
                }
            }
            assert(ids@ =~= known_ids(next));
        }
        i = i + 1;
    }
    assert(all.take(i as int) =~= all);
    ids
}

/// The ids of the devices that are listened to through the cloud, in order.
pub open spec fn cloud_ids(devices: Seq<KnownDevice>) -> Seq<String>
    decreases devices.len(),
{
    if devices.len() == 0 {
        Seq::empty()
    } else if devices.last().source == DeviceSource::Cloud && devices.last().id is Some {
        cloud_ids(devices.drop_last()).push(devices.last().id->0)
    } else {
        cloud_ids(devices.drop_last())
    }
}

/// The ids of the devices that are listened to through the cloud, in order.
pub fn cloud_mqtt_device_ids(devices: &Vec<KnownDevice>) -> (r: Vec<String>)
    ensures
        r@ == cloud_ids(devices@),
{
    let mut ids: Vec<String> = Vec::new();
    let mut i: usize = 0;
    assert(devices@.take(0) =~= Seq::<KnownDevice>::empty());
    while i < devices.len()
        invariant
            i <= devices@.len(),
            ids@ == cloud_ids(devices@.take(i as int)),
        decreases devices.len() - i,
    {
        assert(devices@.take(i + 1).drop_last() =~= devices@.take(i as int));
        if devices[i].source == DeviceSource::Cloud {
            if let Some(id) = &devices[i].id {
                ids.push(id.clone());
            }
        }
        i = i + 1;
    }
    assert(devices@.take(i as int) =~= devices@);
    ids
}

/// A device that is reached locally is in the catalog as a local one, and as such alone; the
/// devices of the cloud that are not reached locally stay in it.
pub proof fn law_catalog_prefers_local(cloud: Seq<CloudDevice>, locals: Seq<LocalDevice>)
    ensures
        ({
            let catalog = cloud_part(cloud, ids_of(locals)) + local_part(locals);
            &&& forall|i: int|
                0 <= i < catalog.len() && (#[trigger] catalog[i]).source == DeviceSource::Cloud
                    && catalog[i].id is Some ==> !ids_of(locals).contains(catalog[i].id->0@)
            &&& forall|i: int|
                0 <= i < locals.len() ==> catalog.contains(known_local(#[trigger] locals[i]))
            &&& forall|i: int|
                0 <= i < cloud.len() && is_other(#[trigger] cloud[i], ids_of(locals))
                    ==> catalog.contains(known_cloud(cloud[i]))
        }),
{
    let ids = ids_of(locals);
    let front = cloud_part(cloud, ids);
    let back = local_part(locals);
    let catalog = front + back;
    lemma_cloud_part(cloud, ids);
    assert forall|i: int|
        0 <= i < catalog.len() && (#[trigger] catalog[i]).source == DeviceSource::Cloud
            && catalog[i].id is Some implies !ids.contains(catalog[i].id->0@) by {
        if i < front.len() {
            assert(catalog[i] == front[i]);
        } else {
            assert(catalog[i] == back[i - front.len()]);
        }
    }
    assert forall|i: int| 0 <= i < locals.len() implies catalog.contains(
        known_local(#[trigger] locals[i]),
    ) by {
        assert(catalog[front.len() + i] == back[i]);
    }
    assert forall|i: int|
        0 <= i < cloud.len() && is_other(#[trigger] cloud[i], ids) implies catalog.contains(
        known_cloud(cloud[i]),
    ) by {
        let k = choose|k: int| 0 <= k < front.len() && front[k] == known_cloud(cloud[i]);
        assert(catalog[k] == front[k]);
    }
}

proof fn lemma_cloud_part(cloud: Seq<CloudDevice>, ids: Set<Seq<char>>)
    ensures
        forall|k: int|
            0 <= k < cloud_part(cloud, ids).len() ==> (#[trigger] cloud_part(cloud, ids)[k]).source
                == DeviceSource::Cloud && (cloud_part(cloud, ids)[k].id is Some ==> !ids.contains(
                cloud_part(cloud, ids)[k].id->0@,
            )),
        forall|i: int|
            0 <= i < cloud.len() && is_other(#[trigger] cloud[i], ids) ==> cloud_part(
                cloud,
                ids,
            ).contains(known_cloud(cloud[i])),
    decreases cloud.len(),
{
    if cloud.len() > 0 {
        let rest = cloud.drop_last();
        lemma_cloud_part(rest, ids);
        let before = cloud_part(rest, ids);
        let after = cloud_part(cloud, ids);
        assert forall|i: int|
            0 <= i < cloud.len() && is_other(#[trigger] cloud[i], ids) implies after.contains(
            known_cloud(cloud[i]),
        ) by {
            if i < rest.len() {
                assert(rest[i] == cloud[i]);
                let k = choose|k: int| 0 <= k < before.len() && before[k] == known_cloud(cloud[i]);
                assert(after[k] == before[k]);
            } else {
                assert(after[after.len() - 1] == known_cloud(cloud[i]));
            }
        }
    }
}

// ---------------------------------------------------------------------------
// Access to the cameras of the catalog
// ---------------------------------------------------------------------------

/// `device` with the code of its camera, where it has none.
pub open spec fn with_camera_code(device: KnownDevice, video: VideoEndpoint) -> KnownDevice {
    if text::present(device.access_code) {
        device
    } else {
        KnownDevice { access_code: video.access_code, ..device }
    }
}

/// `device` with the code of the bound device, and with its name and state where they are missing.
pub open spec fn with_bound(device: KnownDevice, metadata: CloudDevice) -> KnownDevice {
    KnownDevice {
        access_code: metadata.access_code,
        name: if text::present(device.name) {
            device.name
        } else {
            metadata.name
        },
        online: models::either(device.online, metadata.online),
        ..device
    }
}

/// What becomes of a device that has a camera, and whether that is all or what has to happen first.
pub open spec fn known_access(device: KnownDevice, video: VideoEndpoint, bound: Bound) -> (
    KnownDevice,
    Result<Step<()>, Seq<char>>,
) {
    let device = with_camera_code(device, video);
    if text::present(device.access_code) || device.id is None {
        (device, Ok(Step::Done(())))
    } else {
        match cloud::bound_device(bound, device.id->0@) {
            Err(message) => (device, Err(message)),
            Ok(Step::ReadBound) => (device, Ok(Step::ReadBound)),
            Ok(Step::Done(None)) => (device, Ok(Step::Done(()))),
            Ok(Step::Done(Some(metadata))) => (with_bound(device, metadata), Ok(Step::Done(()))),
        }
    }
}

/// Whether two outcomes are the same.
pub open spec fn same_outcome(r: Result<Step<()>, String>, s: Result<Step<()>, Seq<char>>) -> bool {
    match r {
        Ok(step) => s == Ok::<Step<()>, Seq<char>>(step),
        Err(message) => s == Err::<Step<()>, Seq<char>>(message@),
    }
}

/// Completes a device that has a camera.
pub fn resolve_known_device_access(
    device: &mut KnownDevice,
    video: &VideoEndpoint,
    bound: &Bound,
) -> (r: Result<Step<()>, String>)
    ensures
        *final(device) == known_access(*old(device), *video, *bound).0,
        same_outcome(r, known_access(*old(device), *video, *bound).1),
{
    if !device.has_access_code() {
        device.access_code = video.access_code.clone();
    }
    if !device.has_access_code() {
        if let Some(device_id) = device.id.clone() {
            match cloud::bind_device(bound, device_id.as_str()) {
                Err(message) => return Err(message),
                Ok(Step::ReadBound) => return Ok(Step::ReadBound),
                Ok(Step::Done(None)) => {},
                Ok(Step::Done(Some(metadata))) => {
                    device.access_code = metadata.access_code.clone();
                    if !text::is_present(&device.name) {
                        device.name = metadata.name.clone();
                    }
                    if device.online.is_none() {
                        device.online = metadata.online;
                    }
                },
            }
        }
    }
    Ok(Step::Done(()))
}

/// The place of the first device that has the given id, if there is one.
pub open spec fn place_of(catalog: Seq<KnownDevice>, id: Seq<char>) -> Option<int>
    decreases catalog.len(),
{
    if catalog.len() == 0 {
        None
    } else {
        match place_of(catalog.drop_last(), id) {
            Some(place) => Some(place),
            None => if catalog.last().id matches Some(own) && own@ == id {
                Some(catalog.len() - 1)
            } else {
                None
            },
        }
    }
}

proof fn lemma_place_of(catalog: Seq<KnownDevice>, id: Seq<char>, n: int)
    requires
        0 <= n <= catalog.len(),
    ensures
        place_of(catalog.take(n), id) is Some ==> place_of(catalog, id) == place_of(
            catalog.take(n),
            id,
        ),
        place_of(catalog, id) matches Some(place) ==> 0 <= place < catalog.len(),
    decreases catalog.len(),
{
    if n == catalog.len() {
        assert(catalog.take(n) =~= catalog);
    } else {
        assert(catalog.drop_last().take(n) =~= catalog.take(n));
        lemma_place_of(catalog.drop_last(), id, n);
    }
    if catalog.len() > 0 && n == catalog.len() {
        lemma_place_of(catalog.drop_last(), id, n - 1);
    }
}

/// The place of the first device that has the given id.
pub fn find_device(catalog: &Vec<KnownDevice>, device_id: &str) -> (r: Option<usize>)
    ensures
        match r {
            Some(place) => place < catalog@.len() && place_of(catalog@, device_id@) == Some(
                place as int,
            ),
            None => place_of(catalog@, device_id@) is None,
        },
{
    let mut i: usize = 0;
    assert(catalog@.take(0) =~= Seq::<KnownDevice>::empty());
    while i < catalog.len()
        invariant
            i <= catalog@.len(),
            place_of(catalog@.take(i as int), device_id@) is None,
        decreases catalog.len() - i,
    {
        assert(catalog@.take(i + 1).drop_last() =~= catalog@.take(i as int));
        if let Some(id) = &catalog[i].id {
            if text::same(id.as_str(), device_id) {
                proof {
                    lemma_place_of(catalog@, device_id@, i + 1);
                }
                return Some(i);
            }
        }
        i = i + 1;
    }
    assert(catalog@.take(i as int) =~= catalog@);
    None
}

/// What becomes of a catalog whose devices have the given cameras: each completes the first device
/// that has its id, in order, and the first that cannot be completed decides.
pub open spec fn catalog_access(
    catalog: Seq<KnownDevice>,
    videos: Seq<PlacedVideo>,
    bound: Bound,
) -> (Seq<KnownDevice>, Result<Step<()>, Seq<char>>)
    decreases videos.len(),
{
    if videos.len() == 0 {
        (catalog, Ok(Step::Done(())))
    } else {
        let (before, outcome) = catalog_access(catalog, videos.drop_last(), bound);
        if outcome != Ok::<Step<()>, Seq<char>>(Step::Done(())) {
            (before, outcome)
        } else {
            match place_of(before, videos.last().0@) {
                None => (before, outcome),
                Some(place) => {
                    let (device, outcome) = known_access(before[place], videos.last().1, bound);
                    (before.update(place, device), outcome)
                },
            }
        }
    }
}

proof fn lemma_catalog_access_prefix(
    catalog: Seq<KnownDevice>,
    videos: Seq<PlacedVideo>,
    bound: Bound,
    n: int,
)
    requires
        0 <= n <= videos.len(),
        catalog_access(catalog, videos.take(n), bound).1 != Ok::<Step<()>, Seq<char>>(
            Step::Done(()),
        ),
    ensures
        catalog_access(catalog, videos, bound) == catalog_access(catalog, videos.take(n), bound),
    decreases videos.len(),
{
    if n == videos.len() {
        assert(videos.take(n) =~= videos);
    } else {
        assert(videos.drop_last().take(n) =~= videos.take(n));
        lemma_catalog_access_prefix(catalog, videos.drop_last(), bound, n);
    }
}

/// Completes the devices that have a camera.
pub fn resolve_catalog_video_access(
    catalog: &mut Vec<KnownDevice>,
    videos: &Vec<PlacedVideo>,
    bound: &Bound,
) -> (r: Result<Step<()>, String>)
    ensures
        final(catalog)@ == catalog_access(old(catalog)@, videos@, *bound).0,
        same_outcome(r, catalog_access(old(catalog)@, videos@, *bound).1),
{
    let ghost start = catalog@;
    let ghost all = videos@;
    let mut i: usize = 0;
    assert(all.take(0) =~= Seq::<PlacedVideo>::empty());
    while i < videos.len()
        invariant
            all == videos@,
            i <= all.len(),
            start == old(catalog)@,
            catalog_access(start, all.take(i as int), *bound) == (
                catalog@,
                Ok::<Step<()>, Seq<char>>(Step::Done(())),
            ),
        decreases videos.len() - i,
    {
        assert(all.take(i + 1).drop_last() =~= all.take(i as int));
        let ghost before = catalog@;
        if let Some(place) = find_device(catalog, videos[i].0.as_str()) {
            let outcome = resolve_known_device_access(&mut catalog[place], &videos[i].1, bound);
            assert(catalog@ =~= before.update(
                place as int,
                known_access(before[place as int], all[i as int].1, *bound).0,
            ));
            match outcome {
                Ok(Step::Done(_)) => {},
                Ok(Step::ReadBound) => {
                    proof {
                        lemma_catalog_access_prefix(start, all, *bound, i + 1);
                    }
                    return Ok(Step::ReadBound);
                },
                Err(message) => {
                    proof {
                        lemma_catalog_access_prefix(start, all, *bound, i + 1);
                    }
                    return Err(message);
                },
            }
        }
        i = i + 1;
    }
    assert(all.take(i as int) =~= all);
    Ok(Step::Done(()))
}

/// The bound devices are needed for a device only where neither it nor its camera has a code.
pub proof fn law_bound_devices_are_needed_only_without_a_code(
    device: KnownDevice,
    video: VideoEndpoint,
    bound: Bound,
)
    ensures
        known_access(device, video, bound).1 != Ok::<Step<()>, Seq<char>>(Step::Done(()))
            ==> !text::present(device.access_code) && !text::present(video.access_code),
        text::present(device.access_code) ==> known_access(device, video, bound).0 == device,
        !text::present(device.access_code) && text::present(video.access_code) ==> known_access(
            device,
            video,
            bound,
        ).0 == (KnownDevice { access_code: video.access_code, ..device }),
{
}

// ---------------------------------------------------------------------------
// All devices
// ---------------------------------------------------------------------------

/// The devices that are served.
#[derive(Debug)]
pub struct ResolvedDevices {
    pub catalog: Vec<KnownDevice>,
    pub local: Vec<LocalDevice>,
    pub cloud_mqtt_ids: Vec<String>,
    pub explicit_video: Vec<PlacedVideo>,
}

/// The view of the devices that are served.
pub struct ResolvedView {
    pub catalog: Seq<KnownDevice>,
    pub local: Seq<LocalDevice>,
    pub cloud_mqtt_ids: Seq<String>,
    pub explicit_video: Seq<PlacedVideo>,
}

impl View for ResolvedDevices {
    type V = ResolvedView;

    open spec fn view(&self) -> ResolvedView {
        ResolvedView {
            catalog: self.catalog@,
            local: self.local@,
            cloud_mqtt_ids: self.cloud_mqtt_ids@,
            explicit_video: self.explicit_video@,
        }
    }
}

/// What is said where no device is served.
pub open spec fn no_devices() -> Seq<char> {
    "no devices configured; run `bambu-overlay login`, set --cloud-device, or set --local-device"@
}

/// The devices of the cloud: those of the account, where it is listed, else those that are
/// configured.
pub open spec fn cloud_list(
    bound: Bound,
    cloud_configs: Seq<String>,
    local_devices: Seq<PendingDevice>,
) -> Step<Seq<CloudDevice>> {
    if cloud_configs.len() == 0 && local_devices.len() == 0 {
        match bound {
            Bound::NoSession => Step::Done(cloud::all_named(cloud_configs)),
            Bound::Unread => Step::ReadBound,
            Bound::Read(devices) => Step::Done(cloud::all_quiet(devices@)),
        }
    } else {
        Step::Done(cloud::all_named(cloud_configs))
    }
}

/// The devices that are served, or what is said of the configuration, or that the bound devices
/// have to be read first.
pub open spec fn resolved(
    bound: Bound,
    cloud_configs: Seq<String>,
    local_devices: Seq<PendingDevice>,
    videos: Seq<PlacedVideo>,
) -> Result<Step<ResolvedView>, Seq<char>> {
    match repeat_of(local_devices) {
        Some(place) => Err(repeated_id(local_devices[place].0@)),
        None => match cloud_list(bound, cloud_configs, local_devices) {
            Step::ReadBound => Ok(Step::ReadBound),
            Step::Done(listed) => match all_local_access(local_devices, videos, bound) {
                Err(message) => Err(message),
                Ok(Step::ReadBound) => Ok(Step::ReadBound),
                Ok(Step::Done(local)) => {
                    let (catalog, outcome) = catalog_access(
                        cloud_part(listed, ids_of(local)) + local_part(local),
                        videos,
                        bound,
                    );
                    match outcome {
                        Err(message) => Err(message),
                        Ok(Step::ReadBound) => Ok(Step::ReadBound),
                        Ok(Step::Done(_)) => if catalog.len() == 0 {
                            Err(no_devices())
                        } else {
                            Ok(
                                Step::Done(
                                    ResolvedView {
                                        catalog,
                                        local,
                                        cloud_mqtt_ids: cloud_ids(catalog),
                                        explicit_video: videos,
                                    },
                                ),
                            )
                        },
                    }
                },
            },
        },
    }
}

/// A copy of `videos`.
fn copy_videos(videos: &Vec<PlacedVideo>) -> (r: Vec<PlacedVideo>)
    ensures
        r@ == videos@,
{
    let mut out: Vec<PlacedVideo> = Vec::new();
    let mut i: usize = 0;
    while i < videos.len()
        invariant
            i <= videos@.len(),
            out@ == videos@.take(i as int),
        decreases videos.len() - i,
    {
        out.push((videos[i].0.clone(), videos[i].1.clone()));
        i = i + 1;
    }
    assert(videos@.take(i as int) =~= videos@);
    out
}

/// The devices that are served. Where the bound devices have to be read first, it is called again
/// with them.
pub fn resolve_devices(
    bound: &Bound,
    cloud_configs: &Vec<String>,
    local_devices: &Vec<PendingDevice>,
    explicit_video: &Vec<PlacedVideo>,
) -> (r: Result<Step<ResolvedDevices>, String>)
    ensures
        match r {
            Ok(Step::Done(devices)) => resolved(
                *bound,
                cloud_configs@,
                local_devices@,
                explicit_video@,
            ) == Ok::<Step<ResolvedView>, Seq<char>>(Step::Done(devices@)),
            Ok(Step::ReadBound) => resolved(
                *bound,
                cloud_configs@,
                local_devices@,
                explicit_video@,
            ) == Ok::<Step<ResolvedView>, Seq<char>>(Step::ReadBound),
            Err(message) => resolved(
                *bound,
                cloud_configs@,
                local_devices@,
                explicit_video@,
            ) == Err::<Step<ResolvedView>, Seq<char>>(message@),
        },
{
    match ensure_unique_local_device_ids(local_devices) {
        Ok(_) => {},
        Err(message) => return Err(message),
    }
    let available = match bound {
        Bound::NoSession => false,
        _ => true,
    };
    let listed = if should_enumerate_cloud_catalog(available, cloud_configs, local_devices) {
        match bound.devices() {
            Ok(Step::Done(devices)) => cloud::quiet_devices(devices),
            Ok(Step::ReadBound) => return Ok(Step::ReadBound),
            Err(message) => return Err(message),
        }
    } else {
        cloud::explicit_cloud_devices(cloud_configs)
    };
    let local = match resolve_local_access(local_devices, explicit_video, bound) {
        Ok(Step::Done(local)) => local,
        Ok(Step::ReadBound) => return Ok(Step::ReadBound),
        Err(message) => return Err(message),
    };
    let local_ids = local_device_ids(&local);
    let mut catalog = catalog_devices(listed, &local, &local_ids);
    match resolve_catalog_video_access(&mut catalog, explicit_video, bound) {
        Ok(Step::Done(_)) => {},
        Ok(Step::ReadBound) => return Ok(Step::ReadBound),
        Err(message) => return Err(message),
    }
    let cloud_mqtt_ids = cloud_mqtt_device_ids(&catalog);
    if catalog.len() == 0 {
        return Err(
            "no devices configured; run `bambu-overlay login`, set --cloud-device, or set --local-device".to_owned(),
        );
    }
    Ok(
        Step::Done(
            ResolvedDevices {
                catalog,
                local,
                cloud_mqtt_ids,
                explicit_video: copy_videos(explicit_video),
            },
        ),
    )
}

/// Once the bound devices were read, they are never asked for again.
pub proof fn law_bound_devices_are_read_once(
    devices: Vec<CloudDevice>,
    cloud_configs: Seq<String>,
    local_devices: Seq<PendingDevice>,
    videos: Seq<PlacedVideo>,
)
    ensures
        resolved(Bound::Read(devices), cloud_configs, local_devices, videos) != Ok::<
            Step<ResolvedView>,
            Seq<char>,
        >(Step::ReadBound),
{
    let bound = Bound::Read(devices);
    lemma_local_access_reads_once(local_devices, videos, bound);
    match all_local_access(local_devices, videos, bound) {
        Ok(Step::Done(local)) => {
            let listed = cloud_list(bound, cloud_configs, local_devices);
            if listed is Done {
                lemma_catalog_access_reads_once(
                    cloud_part(listed->Done_0, ids_of(local)) + local_part(local),
                    videos,
                    bound,
                );
            }
        },
        _ => {},
    }
}

proof fn lemma_local_access_reads_once(
    devices: Seq<PendingDevice>,
    videos: Seq<PlacedVideo>,
    bound: Bound,
)
    requires
        bound is Read,
    ensures
        all_local_access(devices, videos, bound) != Ok::<Step<Seq<LocalDevice>>, Seq<char>>(
            Step::ReadBound,
        ),
    decreases devices.len(),
{
    if devices.len() > 0 {
        lemma_local_access_reads_once(devices.drop_last(), videos, bound);
    }
}

proof fn lemma_catalog_access_reads_once(
    catalog: Seq<KnownDevice>,
    videos: Seq<PlacedVideo>,
    bound: Bound,
)
    requires
        bound is Read,
    ensures
        catalog_access(catalog, videos, bound).1 != Ok::<Step<()>, Seq<char>>(Step::ReadBound),
    decreases videos.len(),
{
    if videos.len() > 0 {
        lemma_catalog_access_reads_once(catalog, videos.drop_last(), bound);
    }
}

/// Where every device is local and its code is configured, and no camera is, nothing is asked of
/// the cloud, with or without a session.
pub proof fn law_local_devices_need_no_cloud(bound: Bound, local_devices: Seq<PendingDevice>)
    requires
        local_devices.len() > 0,
        forall|i: int|
            0 <= i < local_devices.len() ==> text::present(
                (#[trigger] local_devices[i]).1.access_code,
            ),
    ensures
        resolved(bound, Seq::empty(), local_devices, Seq::empty()) == resolved(
            Bound::NoSession,
            Seq::empty(),
            local_devices,
            Seq::empty(),
        ),
        resolved(bound, Seq::empty(), local_devices, Seq::empty()) != Ok::<
            Step<ResolvedView>,
            Seq<char>,
        >(Step::ReadBound),
{
    lemma_local_access_without_cloud(local_devices, bound);
}

proof fn lemma_local_access_without_cloud(devices: Seq<PendingDevice>, bound: Bound)
    requires
        forall|i: int|
            0 <= i < devices.len() ==> text::present((#[trigger] devices[i]).1.access_code),
    ensures
        all_local_access(devices, Seq::empty(), bound) == all_local_access(
            devices,
            Seq::empty(),
            Bound::NoSession,
        ),
        all_local_access(devices, Seq::empty(), bound) matches Ok(Step::Done(_)),
    decreases devices.len(),
{
    if devices.len() > 0 {
        let front = devices.drop_last();
        assert forall|i: int| 0 <= i < front.len() implies text::present(
            (#[trigger] front[i]).1.access_code,
        ) by {
            assert(front[i] == devices[i]);
        }
        lemma_local_access_without_cloud(front, bound);
        assert(text::present(devices[devices.len() - 1].1.access_code));
    }
}

/// Completing devices keeps their number and their order, and of each its id, its source and what
/// it reported.
pub proof fn law_completing_keeps_ids(
    catalog: Seq<KnownDevice>,
    videos: Seq<PlacedVideo>,
    bound: Bound,
)
    ensures
        ({
            let after = catalog_access(catalog, videos, bound).0;
            &&& after.len() == catalog.len()
            &&& forall|i: int|
                0 <= i < catalog.len() ==> {
                    &&& (#[trigger] after[i]).id == catalog[i].id
                    &&& after[i].source == catalog[i].source
                    &&& after[i].status == catalog[i].status
                }
        }),
    decreases videos.len(),
{
    if videos.len() > 0 {
        law_completing_keeps_ids(catalog, videos.drop_last(), bound);
        let before = catalog_access(catalog, videos.drop_last(), bound).0;
        lemma_place_of(before, videos.last().0@, before.len() as int);
    }
}

/// No device is listened to twice: a device that is listened to through the cloud is none of the
/// local ones.
pub proof fn law_no_device_is_listened_to_twice(
    bound: Bound,
    cloud_configs: Seq<String>,
    local_devices: Seq<PendingDevice>,
    videos: Seq<PlacedVideo>,
)
    ensures
        resolved(bound, cloud_configs, local_devices, videos) matches Ok(Step::Done(devices)) ==> (
        forall|i: int|
            0 <= i < devices.cloud_mqtt_ids.len() ==> !ids_of(devices.local).contains(
                (#[trigger] devices.cloud_mqtt_ids[i])@,
            )),
{
    if let Ok(Step::Done(devices)) = resolved(bound, cloud_configs, local_devices, videos) {
        let listed = cloud_list(bound, cloud_configs, local_devices)->Done_0;
        let local = devices.local;
        let catalog = cloud_part(listed, ids_of(local)) + local_part(local);
        law_catalog_prefers_local(listed, local);
        law_completing_keeps_ids(catalog, videos, bound);
        assert forall|i: int|
            0 <= i < devices.catalog.len() && (#[trigger] devices.catalog[i]).source
                == DeviceSource::Cloud && devices.catalog[i].id is Some implies !ids_of(
            local,
        ).contains(devices.catalog[i].id->0@) by {
            assert(catalog[i].id == devices.catalog[i].id);
        }
        lemma_cloud_ids(devices.catalog, ids_of(local));
    }
}

proof fn lemma_cloud_ids(devices: Seq<KnownDevice>, ids: Set<Seq<char>>)
    requires
        forall|i: int|
            0 <= i < devices.len() && (#[trigger] devices[i]).source == DeviceSource::Cloud
                && devices[i].id is Some ==> !ids.contains(devices[i].id->0@),
    ensures
        forall|i: int|
            0 <= i < cloud_ids(devices).len() ==> !ids.contains((#[trigger] cloud_ids(devices)[i])@),
    decreases devices.len(),
{
    if devices.len() > 0 {
        let front = devices.drop_last();
        assert forall|i: int|
            0 <= i < front.len() && (#[trigger] front[i]).source == DeviceSource::Cloud
                && front[i].id is Some implies !ids.contains(front[i].id->0@) by {
            assert(devices[i] == front[i]);
        }
        lemma_cloud_ids(front, ids);
        assert(devices[devices.len() - 1] == devices.last());
        let before = cloud_ids(front);
        let after = cloud_ids(devices);
        assert forall|i: int| 0 <= i < after.len() implies !ids.contains((#[trigger] after[i])@) by {
            if i < before.len() {
                assert(after[i] == before[i]);
            }
        }
    }
}

// ---------------------------------------------------------------------------
// Cameras
// ---------------------------------------------------------------------------

/// The cameras that are served.
#[derive(Debug)]
pub struct ResolvedVideoEndpoints {
    pub endpoints: Vec<VideoEndpoint>,
    pub probed_device_ids: NameSet,
    pub endpoint_map: Table<VideoEndpoint>,
}

/// The view of the cameras that are served.
#[verifier::ext_equal]
pub struct VideoView {
    pub endpoints: Seq<VideoEndpoint>,
    pub probed_device_ids: Set<Seq<char>>,
    pub endpoint_map: Map<Seq<char>, VideoEndpoint>,
}

impl View for ResolvedVideoEndpoints {
    type V = VideoView;

    open spec fn view(&self) -> VideoView {
        VideoView {
            endpoints: self.endpoints@,
            probed_device_ids: self.probed_device_ids@,
            endpoint_map: self.endpoint_map@,
        }
    }
}

/// No camera.
pub open spec fn no_video() -> VideoView {
    VideoView {
        endpoints: Seq::empty(),
        probed_device_ids: Set::empty(),
        endpoint_map: Map::empty(),
    }
}

/// The cameras with one more, which is the one of the device with the given id.
pub open spec fn with_video(videos: VideoView, id: Seq<char>, endpoint: VideoEndpoint) -> VideoView {
    VideoView {
        endpoints: videos.endpoints.push(endpoint),
        probed_device_ids: videos.probed_device_ids.insert(id),
        endpoint_map: videos.endpoint_map.insert(id, endpoint),
    }
}

/// The cameras that were placed, one after the other.
pub open spec fn all_placed(videos: Seq<PlacedVideo>) -> VideoView
    decreases videos.len(),
{
    if videos.len() == 0 {
        no_video()
    } else {
        with_video(all_placed(videos.drop_last()), videos.last().0@, videos.last().1)
    }
}

/// The place of the first camera whose device is unknown, if there is one.
pub open spec fn stray_of(videos: Seq<PlacedVideo>, ids: Set<Seq<char>>) -> Option<int>
    decreases videos.len(),
{
    if videos.len() == 0 {
        None
    } else {
        match stray_of(videos.drop_last(), ids) {
            Some(place) => Some(place),
            None => if ids.contains(videos.last().0@) {
                None
            } else {
                Some(videos.len() - 1)
            },
        }
    }
}

proof fn lemma_stray_of_prefix(videos: Seq<PlacedVideo>, ids: Set<Seq<char>>, n: int)
    requires
        0 <= n <= videos.len(),
        stray_of(videos.take(n), ids) is Some,
    ensures
        stray_of(videos, ids) == stray_of(videos.take(n), ids),
    decreases videos.len(),
{
    if n == videos.len() {
        assert(videos.take(n) =~= videos);
    } else {
        assert(videos.drop_last().take(n) =~= videos.take(n));
        lemma_stray_of_prefix(videos.drop_last(), ids, n);
    }
}

/// What is said of a camera whose device is unknown.
pub open spec fn stray_video(endpoint: VideoEndpoint, id: Seq<char>) -> Seq<char> {
    "--video-device `"@ + local::endpoint_text(endpoint.endpoint.host@, endpoint.endpoint.port)
        + "` is for device `"@ + id
        + "`, but no matching cloud or local device is configured"@
}

/// Checks that the device of a camera is known.
pub fn ensure_video_device_exists(
    endpoint: &VideoEndpoint,
    device_id: &str,
    catalog_device_ids: &NameSet,
) -> (r: Result<(), String>)
    ensures
        match r {
            Ok(_) => catalog_device_ids@.contains(device_id@),
            Err(message) => !catalog_device_ids@.contains(device_id@) && message@ == stray_video(
                *endpoint,
                device_id@,
            ),
        },
{
    if !catalog_device_ids.contains(device_id) {
        return Err(
            "--video-device `".to_owned().concat(endpoint.to_string().as_str()).concat(
                "` is for device `",
            ).concat(device_id).concat("`, but no matching cloud or local device is configured"),
        );
    }
    Ok(())
}

/// Where a local device is expected to have its camera. No code is given.
pub open spec fn expected_video(device: LocalDevice) -> VideoEndpoint {
    VideoEndpoint {
        endpoint: Endpoint { host: device.host, port: DEFAULT_VIDEO_PORT },
        access_code: None,
    }
}

/// Where a local device is expected to have its camera.
pub fn local_video_endpoint(device: &LocalDevice) -> (r: VideoEndpoint)
    ensures
        r == expected_video(*device),
{
    VideoEndpoint::new(Endpoint::new(device.host.clone(), DEFAULT_VIDEO_PORT), None)
}

/// Whether one of `videos` is at `endpoint`.
pub open spec fn is_placed(videos: Seq<PlacedVideo>, endpoint: VideoEndpoint) -> bool {
    exists|i: int| 0 <= i < videos.len() && (#[trigger] videos[i]).1@ == endpoint@
}

/// The cameras that are probed: those that the local devices are expected to have, in order,
/// without one that was placed or is probed already.
pub open spec fn probes_of(videos: Seq<PlacedVideo>, locals: Seq<LocalDevice>) -> Seq<PlacedVideo>
    decreases locals.len(),
{
    if locals.len() == 0 {
        Seq::empty()
    } else {
        let front = probes_of(videos, locals.drop_last());
        let endpoint = expected_video(locals.last());
        if is_placed(videos, endpoint) || is_placed(front, endpoint) {
            front
        } else {
            front.push((locals.last().id, endpoint))
        }
    }
}

/// Whether one of `videos` is at `endpoint`.
fn has_video(videos: &Vec<PlacedVideo>, endpoint: &VideoEndpoint) -> (r: bool)
    ensures
        r == is_placed(videos@, *endpoint),
{
    let mut i: usize = 0;
    while i < videos.len()
        invariant
            i <= videos@.len(),
            forall|k: int| 0 <= k < i ==> (#[trigger] videos@[k]).1@ != endpoint@,
        decreases videos.len() - i,
    {
        if videos[i].1.is_same(endpoint) {
            return true;
        }
        i = i + 1;
    }
    false
}

/// The cameras that were placed, and those that are still to be probed.
#[derive(Debug)]
pub struct VideoPlan {
    pub resolved: ResolvedVideoEndpoints,
    pub probes: Vec<PlacedVideo>,
}

impl ResolvedVideoEndpoints {
    /// Adds the camera of the device with the given id.
    pub fn add(&mut self, device_id: String, endpoint: VideoEndpoint)
        ensures
            final(self)@ == with_video(old(self)@, device_id@, endpoint),
    {
        self.endpoints.push(endpoint.clone());
        self.probed_device_ids.insert(device_id.clone());
        self.endpoint_map.insert(device_id, endpoint);
    }

    /// A probe ended: its camera is served where the probe succeeded. It does not take the place
    /// of a camera that its device has already.
    pub fn take_probe(&mut self, probe: PlacedVideo, succeeded: bool)
        ensures
            final(self)@ == after_probe(old(self)@, probe, succeeded),
    {
        if succeeded {
            let (device_id, endpoint) = probe;
            self.endpoints.push(endpoint.clone());
            self.probed_device_ids.insert(device_id.clone());
            if !self.endpoint_map.contains_key(device_id.as_str()) {
                self.endpoint_map.insert(device_id, endpoint);
            }
        }
    }
}

/// The cameras after a probe ended.
pub open spec fn after_probe(videos: VideoView, probe: PlacedVideo, succeeded: bool) -> VideoView {
    if succeeded {
        VideoView {
            endpoints: videos.endpoints.push(probe.1),
            probed_device_ids: videos.probed_device_ids.insert(probe.0@),
            endpoint_map: if videos.endpoint_map.contains_key(probe.0@) {
                videos.endpoint_map
            } else {
                videos.endpoint_map.insert(probe.0@, probe.1)
            },
        }
    } else {
        videos
    }
}

/// The cameras after probes ended, one after the other.
pub open spec fn after_probes(videos: VideoView, results: Seq<(PlacedVideo, bool)>) -> VideoView
    decreases results.len(),
{
    if results.len() == 0 {
        videos
    } else {
        after_probe(
            after_probes(videos, results.drop_last()),
            results.last().0,
            results.last().1,
        )
    }
}

/// Whether a probe found the device that it was made for, where `found` is the device that the
/// certificate at the endpoint names, if one answered.
pub fn probe_succeeded(probe: &PlacedVideo, found: Option<&str>) -> (r: bool)
    ensures
        r == (found matches Some(id) && id@ == probe.0@),
{
    match found {
        Some(id) => text::same(id, probe.0.as_str()),
        None => false,
    }
}

/// The camera that was placed last at a device stays the camera of the device, whichever probes end
/// in whatever way.
pub proof fn law_placed_video_outlives_probes(
    placed: Seq<PlacedVideo>,
    place: int,
    results: Seq<(PlacedVideo, bool)>,
)
    requires
        0 <= place < placed.len(),
        forall|j: int| place < j < placed.len() ==> (#[trigger] placed[j]).0@ != placed[place].0@,
    ensures
        after_probes(all_placed(placed), results).endpoint_map.contains_key(placed[place].0@),
        after_probes(all_placed(placed), results).endpoint_map[placed[place].0@]
            == placed[place].1,
    decreases results.len(),
{
    if results.len() > 0 {
        law_placed_video_outlives_probes(placed, place, results.drop_last());
    } else {
        lemma_placed_last(placed, place);
    }
}

proof fn lemma_placed_last(placed: Seq<PlacedVideo>, place: int)
    requires
        0 <= place < placed.len(),
        forall|j: int| place < j < placed.len() ==> (#[trigger] placed[j]).0@ != placed[place].0@,
    ensures
        all_placed(placed).endpoint_map.contains_key(placed[place].0@),
        all_placed(placed).endpoint_map[placed[place].0@] == placed[place].1,
    decreases placed.len(),
{
    if place < placed.len() - 1 {
        let front = placed.drop_last();
        assert(placed[placed.len() - 1].0@ != placed[place].0@);
        assert forall|j: int| place < j < front.len() implies (#[trigger] front[j]).0@
            != front[place].0@ by {
            assert(placed[j].0@ != placed[place].0@);
        }
        lemma_placed_last(front, place);
    }
}

/// The cameras that were placed, each of which has to be that of a known device, and those of the
/// local devices that are still to be probed.
pub fn resolve_video_endpoints(devices: &ResolvedDevices) -> (r: Result<VideoPlan, String>)
    ensures
        match r {
            Ok(plan) => {
                &&& stray_of(devices.explicit_video@, known_ids(devices.catalog@)) is None
                &&& plan.resolved@ == all_placed(devices.explicit_video@)
                &&& plan.probes@ == probes_of(devices.explicit_video@, devices.local@)
            },
            Err(message) => {
                &&& stray_of(devices.explicit_video@, known_ids(devices.catalog@)) matches Some(
                    place,
                )
                &&& message@ == stray_video(
                    devices.explicit_video@[place].1,
                    devices.explicit_video@[place].0@,
                )
            },
        },
{
    let catalog_ids = catalog_device_ids(&devices.catalog);
    let videos = &devices.explicit_video;
    let mut resolved = ResolvedVideoEndpoints {
        endpoints: Vec::new(),
        probed_device_ids: NameSet::new(),
        endpoint_map: Table::new(),
    };
    let ghost all = videos@;
    let ghost ids = known_ids(devices.catalog@);
    let mut i: usize = 0;
    assert(all.take(0) =~= Seq::<PlacedVideo>::empty());
    assert(resolved@ =~= no_video());
    while i < videos.len()
        invariant
            all == videos@,
            all == devices.explicit_video@,
            ids == known_ids(devices.catalog@),
            catalog_ids@ == ids,
            i <= all.len(),
            stray_of(all.take(i as int), ids) is None,
            resolved@ == all_placed(all.take(i as int)),
        decreases videos.len() - i,
    {
        assert(all.take(i + 1).drop_last() =~= all.take(i as int));
        match ensure_video_device_exists(&videos[i].1, videos[i].0.as_str(), &catalog_ids) {
            Ok(_) => {},
            Err(message) => {
                proof {
                    lemma_stray_of_prefix(all, ids, i + 1);
                }
                return Err(message);
            },
        }
        resolved.add(videos[i].0.clone(), videos[i].1.clone());
        i = i + 1;
    }
    assert(all.take(i as int) =~= all);

    let mut probes: Vec<PlacedVideo> = Vec::new();
    let ghost locals = devices.local@;
    let mut j: usize = 0;
    assert(locals.take(0) =~= Seq::<LocalDevice>::empty());
    while j < devices.local.len()
        invariant
            all == videos@,
            locals == devices.local@,
            j <= locals.len(),
            probes@ == probes_of(all, locals.take(j as int)),
        decreases devices.local.len() - j,
    {
        assert(locals.take(j + 1).drop_last() =~= locals.take(j as int));
        let endpoint = local_video_endpoint(&devices.local[j]);
        if !has_video(videos, &endpoint) && !has_video(&probes, &endpoint) {
            probes.push((devices.local[j].id.clone(), endpoint));
        }
        j = j + 1;
    }
    assert(locals.take(j as int) =~= locals);
    Ok(VideoPlan { resolved, probes })
}

/// Whether a device is listed as having a camera exactly where one is kept for it, and that one is
/// among the cameras.
pub open spec fn consistent(videos: VideoView) -> bool {
    &&& videos.probed_device_ids == videos.endpoint_map.dom()
    &&& forall|id: Seq<char>| #[trigger]
        videos.endpoint_map.contains_key(id) ==> videos.endpoints.contains(videos.endpoint_map[id])
}

/// The cameras stay consistent, whichever probes succeed and whenever they end.
pub proof fn law_video_stays_consistent(
    placed: Seq<PlacedVideo>,
    videos: VideoView,
    probe: PlacedVideo,
    succeeded: bool,
)
    ensures
        consistent(all_placed(placed)),
        consistent(videos) ==> consistent(after_probe(videos, probe, succeeded)),
    decreases placed.len(),
{
    if consistent(videos) && succeeded {
        lemma_with_video(videos, probe.0@, probe.1);
        let after = after_probe(videos, probe, succeeded);
        if videos.endpoint_map.contains_key(probe.0@) {
            assert(after.probed_device_ids =~= after.endpoint_map.dom());
            assert forall|name: Seq<char>| #[trigger]
                after.endpoint_map.contains_key(name) implies after.endpoints.contains(
                after.endpoint_map[name],
            ) by {
                let k = choose|k: int|
                    0 <= k < videos.endpoints.len() && videos.endpoints[k]
                        == videos.endpoint_map[name];
                assert(after.endpoints[k] == videos.endpoints[k]);
            }
        }
    }
    if placed.len() > 0 {
        law_video_stays_consistent(placed.drop_last(), videos, probe, succeeded);
        lemma_with_video(
            all_placed(placed.drop_last()),
            placed.last().0@,
            placed.last().1,
        );
    } else {
        assert(no_video().probed_device_ids =~= no_video().endpoint_map.dom());
    }
}

proof fn lemma_with_video(videos: VideoView, id: Seq<char>, endpoint: VideoEndpoint)
    requires
        consistent(videos),
    ensures
        consistent(with_video(videos, id, endpoint)),
{
    let after = with_video(videos, id, endpoint);
    assert(after.probed_device_ids =~= after.endpoint_map.dom());
    assert forall|name: Seq<char>| #[trigger]
        after.endpoint_map.contains_key(name) implies after.endpoints.contains(
        after.endpoint_map[name],
    ) by {
        if name == id {
            assert(after.endpoints[after.endpoints.len() - 1] == endpoint);
        } else {
            assert(videos.endpoint_map.contains_key(name));
            let k = choose|k: int|
                0 <= k < videos.endpoints.len() && videos.endpoints[k]
                    == videos.endpoint_map[name];
            assert(after.endpoints[k] == videos.endpoints[k]);
        }
    }
}

/// A probe is made for a local device, at its host, and gives away no code; and no two probes, nor
/// a probe and a placed camera, are for one endpoint.
pub proof fn law_probes_give_away_no_code(videos: Seq<PlacedVideo>, locals: Seq<LocalDevice>)
    ensures
        forall|i: int|
            0 <= i < probes_of(videos, locals).len() ==> {
                &&& (#[trigger] probes_of(videos, locals)[i]).1.access_code is None
                &&& ids_of(locals).contains(probes_of(videos, locals)[i].0@)
                &&& !is_placed(videos, probes_of(videos, locals)[i].1)
            },
        forall|i: int, j: int|
            0 <= i < j < probes_of(videos, locals).len() ==> (#[trigger] probes_of(
                videos,
                locals,
            )[i]).1@ != (#[trigger] probes_of(videos, locals)[j]).1@,
    decreases locals.len(),
{
    if locals.len() > 0 {
        let rest = locals.drop_last();
        law_probes_give_away_no_code(videos, rest);
        let before = probes_of(videos, rest);
        let after = probes_of(videos, locals);
        assert forall|i: int| 0 <= i < after.len() implies {
            &&& (#[trigger] after[i]).1.access_code is None
            &&& ids_of(locals).contains(after[i].0@)
            &&& !is_placed(videos, after[i].1)
        } by {
            if i < before.len() {
                assert(after[i] == before[i]);
                let k = choose|k: int| 0 <= k < rest.len() && (#[trigger] rest[k]).id@ == before[i].0@;
                assert(locals[k].id@ == after[i].0@);
            } else {
                assert(locals[locals.len() - 1].id@ == after[i].0@);
            }
        }
        assert forall|i: int, j: int| 0 <= i < j < after.len() implies (#[trigger] after[i]).1@ != (
        #[trigger] after[j]).1@ by {
            assert(after[i] == before[i]);
            if j < before.len() {
                assert(after[j] == before[j]);
            }
        }
    }
}

/// Where no camera is stray, the device of every placed camera is known.
pub proof fn law_placed_video_has_a_known_device(videos: Seq<PlacedVideo>, ids: Set<Seq<char>>)
    requires
        stray_of(videos, ids) is None,
    ensures
        forall|i: int| 0 <= i < videos.len() ==> ids.contains((#[trigger] videos[i]).0@),
        all_placed(videos).probed_device_ids.subset_of(ids),
    decreases videos.len(),
{
    if videos.len() > 0 {
        let front = videos.drop_last();
        law_placed_video_has_a_known_device(front, ids);
        assert forall|i: int| 0 <= i < videos.len() implies ids.contains(
            (#[trigger] videos[i]).0@,
        ) by {
            if i < front.len() {
                assert(front[i] == videos[i]);
            }
        }
    }
}

// ---------------------------------------------------------------------------
// What every catalog keeps to
// ---------------------------------------------------------------------------

/// An entry of the catalog has the id, the name, the state, the code and the status of its device,
/// each from where it belongs; and so has the device that is made of an entry again.
pub proof fn law_entries_keep_each_field(
    device: CloudDevice,
    local: &LocalDevice,
    known: KnownDevice,
    entry: KnownDevice,
    local_entry: KnownDevice,
    back: CloudDevice,
)
    requires
        call_ensures(KnownDevice::from_cloud, (device,), entry),
        call_ensures(KnownDevice::from_local, (local,), local_entry),
        call_ensures(KnownDevice::into_cloud_device, (known,), back),
    ensures
        entry.id == device.id,
        entry.name == device.name,
        entry.online == device.online,
        entry.access_code == device.access_code,
        entry.status == device.status,
        entry.source == DeviceSource::Cloud,
        local_entry.id == Some(local.id),
        local_entry.name == local.name,
        local_entry.online == Some(true),
        local_entry.access_code == local.access_code,
        local_entry.status.is_empty(),
        local_entry.source == DeviceSource::Local,
        back.id == known.id,
        back.name == known.name,
        back.online == known.online,
        back.access_code == known.access_code,
        back.status == known.status,
        back.model_name is None,
        back.product_name is None,
{
}

/// How many of the first `n` devices have none of the given ids.
pub open spec fn others_among(devices: Seq<CloudDevice>, ids: Set<Seq<char>>, n: int) -> nat
    decreases n,
{
    if n <= 0 {
        0
    } else if devices[n - 1].id is Some && ids.contains(devices[n - 1].id->0@) {
        others_among(devices, ids, n - 1)
    } else {
        others_among(devices, ids, n - 1) + 1
    }
}

/// The catalog has each device of the cloud that is not local, in order, and then each local one, in
/// order; each entry has the fields of its device, and there is no other.
pub proof fn law_catalog_has_every_device(
    cloud_devices: Vec<CloudDevice>,
    local_devices: &Vec<LocalDevice>,
    local_ids: &NameSet,
    r: Vec<KnownDevice>,
    i: int,
    j: int,
)
    requires
        call_ensures(catalog_devices, (cloud_devices, local_devices, local_ids), r),
    ensures
        ({
            let all = others_among(cloud_devices@, local_ids@, cloud_devices@.len() as int);
            &&& r@.len() == all + local_devices@.len()
            &&& 0 <= i < cloud_devices@.len() && !(cloud_devices@[i].id is Some
                && local_ids@.contains(cloud_devices@[i].id->0@)) ==> {
                let device = cloud_devices@[i];
                let place = others_among(cloud_devices@, local_ids@, i);
                let entry = r@[place as int];
                &&& place < all
                &&& entry.id == device.id
                &&& entry.name == device.name
                &&& entry.online == device.online
                &&& entry.access_code == device.access_code
                &&& entry.status == device.status
                &&& entry.source == DeviceSource::Cloud
            }
            &&& 0 <= j < local_devices@.len() ==> {
                let device = local_devices@[j];
                let entry = r@[all + j];
                &&& entry.id == Some(device.id)
                &&& entry.name == device.name
                &&& entry.online == Some(true)
                &&& entry.access_code == device.access_code
                &&& entry.status.is_empty()
                &&& entry.source == DeviceSource::Local
            }
        }),
{
    lemma_cloud_places(cloud_devices@, local_ids@, cloud_devices@.len() as int, i);
    assert(cloud_devices@.take(cloud_devices@.len() as int) =~= cloud_devices@);
    let front = cloud_part(cloud_devices@, local_ids@);
    let back = local_part(local_devices@);
    if 0 <= j < local_devices@.len() {
        assert((front + back)[front.len() + j] == back[j]);
    }
}

proof fn lemma_cloud_places(devices: Seq<CloudDevice>, ids: Set<Seq<char>>, n: int, i: int)
    requires
        0 <= n <= devices.len(),
    ensures
        cloud_part(devices.take(n), ids).len() == others_among(devices, ids, n),
        0 <= i < n && !(devices[i].id is Some && ids.contains(devices[i].id->0@)) ==> {
            let entry = cloud_part(devices.take(n), ids)[others_among(devices, ids, i) as int];
            &&& others_among(devices, ids, i) < others_among(devices, ids, n)
            &&& entry.id == devices[i].id
            &&& entry.name == devices[i].name
            &&& entry.online == devices[i].online
            &&& entry.access_code == devices[i].access_code
            &&& entry.status == devices[i].status
            &&& entry.source == DeviceSource::Cloud
        },
    decreases n,
{
    if n > 0 {
        lemma_cloud_places(devices, ids, n - 1, i);
        assert(devices.take(n).drop_last() =~= devices.take(n - 1));
        assert(devices.take(n).last() == devices[n - 1]);
    } else {
        assert(devices.take(n) =~= Seq::<CloudDevice>::empty());
    }
}

/// Where nothing is configured, each device that the account lists is served, in order: under its own
/// id and in its own state, with its own name and its own code where it has them, and without what it
/// printed. Where no camera is configured either, nothing at all is changed of these.
pub proof fn law_listed_devices_are_served(
    listed: Vec<CloudDevice>,
    bound: &Bound,
    cloud_configs: &Vec<String>,
    local_devices: &Vec<PendingDevice>,
    explicit_video: &Vec<PlacedVideo>,
    r: Result<Step<ResolvedDevices>, String>,
    i: int,
)
    requires
        *bound == Bound::Read(listed),
        cloud_configs@.len() == 0,
        local_devices@.len() == 0,
        0 <= i < listed@.len(),
        call_ensures(resolve_devices, (bound, cloud_configs, local_devices, explicit_video), r),
    ensures
        r matches Ok(Step::Done(devices)) && {
            let device = listed@[i];
            let entry = devices.catalog@[i];
            &&& devices.catalog@.len() == listed@.len()
            &&& devices.local@.len() == 0
            &&& entry.id == device.id
            &&& entry.source == DeviceSource::Cloud
            &&& entry.status.is_empty()
            &&& text::present(device.name) ==> entry.name == device.name
            &&& device.online is Some ==> entry.online == device.online
            &&& text::present(device.access_code) ==> entry.access_code == device.access_code
            &&& explicit_video@.len() == 0 ==> {
                &&& entry.name == device.name
                &&& entry.online == device.online
                &&& entry.access_code == device.access_code
            }
        },
{
    let quiet = cloud::all_quiet(listed@);
    let none = Seq::<LocalDevice>::empty();
    let videos = explicit_video@;
    assert(local_devices@ =~= Seq::<PendingDevice>::empty());
    assert(all_local_access(local_devices@, videos, *bound) == Ok::<
        Step<Seq<LocalDevice>>,
        Seq<char>,
    >(Step::Done(none)));
    let catalog = cloud_part(quiet, ids_of(none)) + local_part(none);
    lemma_all_others(quiet, ids_of(none), quiet.len() as int);
    lemma_all_others(quiet, ids_of(none), i);
    lemma_cloud_places(quiet, ids_of(none), quiet.len() as int, i);
    assert(quiet.take(quiet.len() as int) =~= quiet);
    assert(catalog =~= cloud_part(quiet, ids_of(none)));
    lemma_completing_keeps(catalog, videos, *bound, i);
    lemma_completing_ends(catalog, videos, *bound);
}

proof fn lemma_all_others(devices: Seq<CloudDevice>, ids: Set<Seq<char>>, n: int)
    requires
        0 <= n <= devices.len(),
        ids =~= Set::empty(),
    ensures
        others_among(devices, ids, n) == n,
    decreases n,
{
    if n > 0 {
        lemma_all_others(devices, ids, n - 1);
    }
}

/// Completing devices takes nothing away: a name, a state and a code that are there stay, and so does
/// all that a device without a camera has.
proof fn lemma_completing_keeps(
    catalog: Seq<KnownDevice>,
    videos: Seq<PlacedVideo>,
    bound: Bound,
    i: int,
)
    requires
        0 <= i < catalog.len(),
    ensures
        ({
            let after = catalog_access(catalog, videos, bound).0;
            &&& after.len() == catalog.len()
            &&& after[i].id == catalog[i].id
            &&& after[i].status == catalog[i].status
            &&& after[i].source == catalog[i].source
            &&& text::present(catalog[i].name) ==> after[i].name == catalog[i].name
            &&& catalog[i].online is Some ==> after[i].online == catalog[i].online
            &&& text::present(catalog[i].access_code) ==> after[i] == catalog[i]
            &&& videos.len() == 0 ==> after[i] == catalog[i]
        }),
    decreases videos.len(),
{
    if videos.len() > 0 {
        lemma_completing_keeps(catalog, videos.drop_last(), bound, i);
        let before = catalog_access(catalog, videos.drop_last(), bound).0;
        lemma_place_of(before, videos.last().0@, before.len() as int);
    }
}

/// Once the bound devices were read, every device can be completed.
proof fn lemma_completing_ends(
    catalog: Seq<KnownDevice>,
    videos: Seq<PlacedVideo>,
    bound: Bound,
)
    requires
        bound is Read,
    ensures
        catalog_access(catalog, videos, bound).1 == Ok::<Step<()>, Seq<char>>(Step::Done(())),
    decreases videos.len(),
{
    if videos.len() > 0 {
        lemma_completing_ends(catalog, videos.drop_last(), bound);
    }
}

/// Where devices are served, each local one is among them as it was configured, under the id that was
/// found out, with a code that is not blank, and it is the entry of the catalog at the same place
/// among the last ones; and each device of the cloud that is not local comes before them, in order,
/// under its own id and with what it has. What is listened to through the cloud are the entries of
/// the cloud.
pub proof fn law_served_devices_are_those_that_were_found(
    bound: &Bound,
    cloud_configs: &Vec<String>,
    local_devices: &Vec<PendingDevice>,
    explicit_video: &Vec<PlacedVideo>,
    r: Result<Step<ResolvedDevices>, String>,
    j: int,
    k: int,
)
    requires
        call_ensures(resolve_devices, (bound, cloud_configs, local_devices, explicit_video), r),
    ensures
        r matches Ok(Step::Done(devices)) ==> {
            let first = devices.catalog@.len() - devices.local@.len();
            &&& devices.local@.len() == local_devices@.len()
            &&& first >= 0
            &&& devices.catalog@.len() > 0
            &&& devices.explicit_video@ == explicit_video@
            &&& 0 <= j < local_devices@.len() ==> {
                let local = devices.local@[j];
                let config = local_devices@[j].1;
                let entry = devices.catalog@[first + j];
                &&& local.id == local_devices@[j].0
                &&& local.host == config.host
                &&& local.mqtt_port == config.mqtt_port
                &&& text::present(local.access_code)
                &&& text::present(config.access_code) ==> local.access_code == config.access_code
                &&& text::present(config.name) ==> local.name == config.name
                &&& entry.id == Some(local.id)
                &&& entry.name == local.name
                &&& entry.access_code == local.access_code
                &&& entry.online == Some(true)
                &&& entry.source == DeviceSource::Local
            }
            &&& cloud_configs@.len() > 0 && 0 <= k < cloud_configs@.len() && !ids_of(
                devices.local@,
            ).contains(cloud_configs@[k]@) ==> {
                let place = others_among(
                    cloud::all_named(cloud_configs@),
                    ids_of(devices.local@),
                    k,
                );
                &&& place < first
                &&& devices.catalog@[place as int].id == Some(cloud_configs@[k])
                &&& devices.catalog@[place as int].online == Some(true)
                &&& devices.catalog@[place as int].source == DeviceSource::Cloud
            }
            &&& devices.cloud_mqtt_ids@ == cloud_ids(devices.catalog@)
        },
{
    if let Ok(Step::Done(devices)) = r {
        let videos = explicit_video@;
        let listed = cloud_list(*bound, cloud_configs@, local_devices@)->Done_0;
        let local = devices.local@;
        let ids = ids_of(local);
        let front = cloud_part(listed, ids);
        let catalog = front + local_part(local);
        lemma_local_places(local_devices@, videos, *bound, j);
        if 0 <= j < local.len() {
            assert(catalog[front.len() + j] == known_local(local[j]));
            lemma_completing_keeps(catalog, videos, *bound, front.len() + j);
        }
        if catalog.len() > 0 {
            lemma_completing_keeps(catalog, videos, *bound, 0);
        } else {
            law_completing_keeps_ids(catalog, videos, *bound);
        }
        if cloud_configs@.len() > 0 && 0 <= k < cloud_configs@.len() {
            lemma_cloud_places(listed, ids, listed.len() as int, k);
            assert(listed.take(listed.len() as int) =~= listed);
            if !ids.contains(cloud_configs@[k]@) {
                let place = others_among(listed, ids, k) as int;
                assert(catalog[place] == front[place]);
                lemma_completing_keeps(catalog, videos, *bound, place);
            }
        }
    }
}

proof fn lemma_local_places(
    pending: Seq<PendingDevice>,
    videos: Seq<PlacedVideo>,
    bound: Bound,
    j: int,
)
    ensures
        all_local_access(pending, videos, bound) matches Ok(Step::Done(devices)) ==> {
            &&& devices.len() == pending.len()
            &&& 0 <= j < pending.len() ==> local_access(
                pending[j].0,
                pending[j].1,
                videos,
                bound,
            ) == Ok::<Step<LocalDevice>, Seq<char>>(Step::Done(devices[j]))
        },
    decreases pending.len(),
{
    if pending.len() > 0 {
        lemma_local_places(pending.drop_last(), videos, bound, j);
    }
}

/// The code of a local device is the one that is configured; else the one of the first camera that
/// was placed at it; else the one that the account has for it. Its name is the one that is configured,
/// else the one that the account has, where that was asked, else its id. Without a code it is not
/// served.
pub proof fn law_code_of_a_local_device_is_found(
    device: &PendingDevice,
    videos: &Vec<PlacedVideo>,
    listed: Vec<CloudDevice>,
    bound: &Bound,
    r: Result<Step<LocalDevice>, String>,
)
    requires
        *bound == Bound::Read(listed),
        call_ensures(resolve_local_device_access, (device, videos, bound), r),
    ensures
        ({
            let config = device.1;
            let camera = video_of(videos@, device.0@);
            let metadata = cloud::device_with_id(listed@, device.0@);
            let at_camera = camera is Some && text::present(camera->0.access_code);
            let named = text::present(config.name);
            &&& r != Ok::<Step<LocalDevice>, String>(Step::ReadBound)
            &&& r matches Ok(Step::Done(local)) ==> {
                &&& local.id == device.0
                &&& local.host == config.host
                &&& local.mqtt_port == config.mqtt_port
                &&& named ==> local.name == config.name
            }
            &&& text::present(config.access_code) ==> (r matches Ok(Step::Done(local)) && {
                &&& local.access_code == config.access_code
                &&& !named ==> local.name == Some(device.0)
            })
            &&& !text::present(config.access_code) && at_camera ==> (r matches Ok(
                Step::Done(local),
            ) && {
                &&& local.access_code == camera->0.access_code
                &&& !named ==> local.name == Some(device.0)
            })
            &&& !text::present(config.access_code) && !at_camera && metadata is Some
                && text::present(metadata->0.access_code) ==> (r matches Ok(Step::Done(local)) && {
                &&& local.access_code == metadata->0.access_code
                &&& !named && text::present(metadata->0.name) ==> local.name == metadata->0.name
                &&& !named && !text::present(metadata->0.name) ==> local.name == Some(device.0)
            })
            &&& !text::present(config.access_code) && !at_camera && (metadata is None
                || !text::present(metadata->0.access_code)) ==> r is Err
        }),
{
}

/// The camera of a device is the first that was placed at it.
pub proof fn law_first_camera_of_a_device_counts(videos: Seq<PlacedVideo>, id: Seq<char>, n: int)
    requires
        0 <= n <= videos.len(),
        forall|i: int| 0 <= i < n ==> (#[trigger] videos[i]).0@ != id,
    ensures
        n < videos.len() && videos[n].0@ == id ==> video_of(videos, id) == Some(videos[n].1),
        n == videos.len() ==> video_of(videos, id) is None,
    decreases videos.len(),
{
    if videos.len() > 0 && n > 0 {
        let rest = videos.drop_first();
        assert(videos[0].0@ != id);
        assert forall|i: int| 0 <= i < n - 1 implies (#[trigger] rest[i]).0@ != id by {
            assert(rest[i] == videos[i + 1]);
        }
        law_first_camera_of_a_device_counts(rest, id, n - 1);
    }
}

/// A device with a camera and without a code gets the code of the camera; where that has none, the
/// code that the account has for it, and with it the name and the state that it lacks. A device with
/// a code stays as it is, and nothing but these is changed of any.
pub proof fn law_code_of_a_camera_is_found(
    device: KnownDevice,
    video: VideoEndpoint,
    listed: Vec<CloudDevice>,
)
    ensures
        ({
            let after = known_access(device, video, Bound::Read(listed)).0;
            let metadata = cloud::device_with_id(listed@, device.id->0@);
            let without = !text::present(device.access_code);
            &&& after.id == device.id
            &&& after.status == device.status
            &&& after.source == device.source
            &&& !without ==> after == device
            &&& without && text::present(video.access_code) ==> {
                &&& after.access_code == video.access_code
                &&& after.name == device.name
                &&& after.online == device.online
            }
            &&& without && !text::present(video.access_code) && device.id is Some
                && metadata is Some ==> {
                &&& after.access_code == metadata->0.access_code
                &&& text::present(device.name) ==> after.name == device.name
                &&& !text::present(device.name) ==> after.name == metadata->0.name
                &&& device.online is Some ==> after.online == device.online
                &&& device.online is None ==> after.online == metadata->0.online
            }
            &&& without && (device.id is None || metadata is None) ==> {
                &&& after.access_code == video.access_code
                &&& after.name == device.name
                &&& after.online == device.online
            }
        }),
        known_access(device, video, Bound::Read(listed)).1 == Ok::<Step<()>, Seq<char>>(
            Step::Done(()),
        ),
{
}

/// The account is listed where there is a session and nothing is configured, and only there.
pub proof fn law_account_is_listed_where_nothing_is_configured(
    cloud_available: bool,
    cloud_configs: &Vec<String>,
    local_devices: &Vec<PendingDevice>,
    r: bool,
)
    requires
        call_ensures(
            should_enumerate_cloud_catalog,
            (cloud_available, cloud_configs, local_devices),
            r,
        ),
    ensures
        r ==> cloud_available,
        r ==> cloud_configs@.len() == 0,
        r ==> local_devices@.len() == 0,
        cloud_available && cloud_configs@.len() == 0 && local_devices@.len() == 0 ==> r,
{
}

/// How many of the first `n` devices are listened to through the cloud.
pub open spec fn heard_among(devices: Seq<KnownDevice>, n: int) -> nat
    decreases n,
{
    if n <= 0 {
        0
    } else if devices[n - 1].source == DeviceSource::Cloud && devices[n - 1].id is Some {
        heard_among(devices, n - 1) + 1
    } else {
        heard_among(devices, n - 1)
    }
}

/// Each device of the cloud that has an id is listened to through the cloud, in order, and no other.
pub proof fn law_cloud_devices_are_listened_to(
    devices: &Vec<KnownDevice>,
    r: Vec<String>,
    ids: NameSet,
    i: int,
    id: Seq<char>,
)
    requires
        call_ensures(cloud_mqtt_device_ids, (devices,), r),
        call_ensures(catalog_device_ids, (devices,), ids),
        0 <= i < devices@.len(),
    ensures
        r@.len() == heard_among(devices@, devices@.len() as int),
        devices@[i].source == DeviceSource::Cloud && devices@[i].id is Some ==> {
            &&& heard_among(devices@, i) < r@.len()
            &&& r@[heard_among(devices@, i) as int] == devices@[i].id->0
        },
        devices@[i].id is Some ==> ids@.contains(devices@[i].id->0@),
        ids@.contains(id) ==> exists|k: int|
            0 <= k < devices@.len() && (#[trigger] devices@[k]).id is Some && devices@[k].id->0@
                == id,
{
    lemma_heard_places(devices@, devices@.len() as int, i);
    assert(devices@.take(devices@.len() as int) =~= devices@);
}

proof fn lemma_heard_places(devices: Seq<KnownDevice>, n: int, i: int)
    requires
        0 <= n <= devices.len(),
    ensures
        cloud_ids(devices.take(n)).len() == heard_among(devices, n),
        0 <= i < n && devices[i].source == DeviceSource::Cloud && devices[i].id is Some ==> {
            &&& heard_among(devices, i) < heard_among(devices, n)
            &&& cloud_ids(devices.take(n))[heard_among(devices, i) as int] == devices[i].id->0
        },
    decreases n,
{
    if n > 0 {
        lemma_heard_places(devices, n - 1, i);
        assert(devices.take(n).drop_last() =~= devices.take(n - 1));
        assert(devices.take(n).last() == devices[n - 1]);
    } else {
        assert(devices.take(n) =~= Seq::<KnownDevice>::empty());
    }
}

/// Each camera that was placed is served at its endpoint, in order, and is known to be that of its
/// device; the last one at a device is its own. A camera of an unknown device is refused, the first
/// one by its device.
pub proof fn law_placed_cameras_are_served(
    devices: &ResolvedDevices,
    r: Result<VideoPlan, String>,
    i: int,
    id: Seq<char>,
)
    requires
        0 <= i < devices.explicit_video@.len(),
        call_ensures(resolve_video_endpoints, (devices,), r),
    ensures
        ({
            let videos = devices.explicit_video@;
            let known = |name: Seq<char>|
                exists|k: int|
                    0 <= k < devices.catalog@.len() && (#[trigger] devices.catalog@[k]).id is Some
                        && devices.catalog@[k].id->0@ == name;
            &&& !known(videos[i].0@) ==> r is Err
            &&& (forall|k: int| 0 <= k < videos.len() ==> known((#[trigger] videos[k]).0@))
                ==> r is Ok
            &&& r matches Ok(plan) ==> {
                &&& plan.resolved.endpoints@.len() == videos.len()
                &&& plan.resolved.endpoints@[i] == videos[i].1
                &&& plan.resolved.probed_device_ids@.contains(videos[i].0@)
                &&& plan.resolved.endpoint_map@.contains_key(videos[i].0@)
                &&& (forall|k: int|
                    i < k < videos.len() ==> (#[trigger] videos[k]).0@ != videos[i].0@)
                    ==> plan.resolved.endpoint_map@[videos[i].0@] == videos[i].1
                &&& plan.resolved.probed_device_ids@.contains(id) ==> exists|k: int|
                    0 <= k < videos.len() && (#[trigger] videos[k]).0@ == id
            }
        }),
{
    let videos = devices.explicit_video@;
    let ids = known_ids(devices.catalog@);
    lemma_stray(videos, ids, i);
    lemma_all_placed(videos, i, id);
    if forall|k: int| i < k < videos.len() ==> (#[trigger] videos[k]).0@ != videos[i].0@ {
        lemma_placed_last(videos, i);
    }
    if forall|k: int| 0 <= k < videos.len() ==> ids.contains((#[trigger] videos[k]).0@) {
        lemma_no_stray(videos, ids);
    }
    let known = |name: Seq<char>|
        exists|k: int|
            0 <= k < devices.catalog@.len() && (#[trigger] devices.catalog@[k]).id is Some
                && devices.catalog@[k].id->0@ == name;
    assert forall|name: Seq<char>| #[trigger] ids.contains(name) <==> known(name) by {}
    if forall|k: int| 0 <= k < videos.len() ==> known((#[trigger] videos[k]).0@) {
        assert forall|k: int| 0 <= k < videos.len() implies ids.contains(
            (#[trigger] videos[k]).0@,
        ) by {
            assert(known(videos[k].0@));
        }
        lemma_no_stray(videos, ids);
    }
}

proof fn lemma_stray(videos: Seq<PlacedVideo>, ids: Set<Seq<char>>, i: int)
    requires
        0 <= i < videos.len(),
    ensures
        !ids.contains(videos[i].0@) ==> stray_of(videos, ids) is Some,
    decreases videos.len(),
{
    if i < videos.len() - 1 {
        lemma_stray(videos.drop_last(), ids, i);
    }
}

proof fn lemma_no_stray(videos: Seq<PlacedVideo>, ids: Set<Seq<char>>)
    requires
        forall|k: int| 0 <= k < videos.len() ==> ids.contains((#[trigger] videos[k]).0@),
    ensures
        stray_of(videos, ids) is None,
    decreases videos.len(),
{
    if videos.len() > 0 {
        let front = videos.drop_last();
        assert forall|k: int| 0 <= k < front.len() implies ids.contains((#[trigger] front[k]).0@) by {
            assert(front[k] == videos[k]);
        }
        lemma_no_stray(front, ids);
        assert(ids.contains(videos[videos.len() - 1].0@));
    }
}

proof fn lemma_all_placed(videos: Seq<PlacedVideo>, i: int, id: Seq<char>)
    ensures
        all_placed(videos).endpoints.len() == videos.len(),
        0 <= i < videos.len() ==> {
            &&& all_placed(videos).endpoints[i] == videos[i].1
            &&& all_placed(videos).probed_device_ids.contains(videos[i].0@)
            &&& all_placed(videos).endpoint_map.contains_key(videos[i].0@)
        },
        all_placed(videos).probed_device_ids.contains(id) ==> exists|k: int|
            0 <= k < videos.len() && (#[trigger] videos[k]).0@ == id,
    decreases videos.len(),
{
    if videos.len() > 0 {
        let front = videos.drop_last();
        lemma_all_placed(front, i, id);
        if all_placed(front).probed_device_ids.contains(id) {
            let k = choose|k: int| 0 <= k < front.len() && (#[trigger] front[k]).0@ == id;
            assert(videos[k] == front[k]);
        }
        if all_placed(videos).probed_device_ids.contains(id) && !all_placed(
            front,
        ).probed_device_ids.contains(id) {
            assert(videos[videos.len() - 1].0@ == id);
        }
    }
}

/// The camera of each local device is looked for at its host, at the port of cameras, unless one was
/// placed there or is looked for there already; and the first device at a host is the one that it is
/// looked for.
pub proof fn law_cameras_of_local_devices_are_looked_for(
    videos: Seq<PlacedVideo>,
    locals: Seq<LocalDevice>,
    j: int,
)
    requires
        0 <= j < locals.len(),
    ensures
        expected_video(locals[j]).endpoint.host == locals[j].host,
        expected_video(locals[j]).endpoint.port == 6000,
        expected_video(locals[j]).access_code is None,
        is_placed(videos, expected_video(locals[j])) || is_placed(
            probes_of(videos, locals),
            expected_video(locals[j]),
        ),
        !is_placed(videos, expected_video(locals[j])) && (forall|k: int|
            0 <= k < j ==> (#[trigger] locals[k]).host@ != locals[j].host@) ==> exists|p: int|
            0 <= p < probes_of(videos, locals).len() && (#[trigger] probes_of(videos, locals)[p]).0
                == locals[j].id && probes_of(videos, locals)[p].1.endpoint.host == locals[j].host,
    decreases locals.len(),
{
    let front = locals.drop_last();
    let before = probes_of(videos, front);
    let after = probes_of(videos, locals);
    let own = expected_video(locals[j]);
    if j < front.len() {
        assert(front[j] == locals[j]);
        assert(forall|k: int| 0 <= k < j ==> front[k] == #[trigger] locals[k]);
        law_cameras_of_local_devices_are_looked_for(videos, front, j);
        if is_placed(before, own) {
            let p = choose|p: int| 0 <= p < before.len() && (#[trigger] before[p]).1@ == own@;
            assert(after[p] == before[p]);
        }
        if !is_placed(videos, own) && forall|k: int|
            0 <= k < j ==> (#[trigger] locals[k]).host@ != locals[j].host@ {
            assert forall|k: int| 0 <= k < j implies (#[trigger] front[k]).host@
                != front[j].host@ by {
                assert(locals[k].host@ != locals[j].host@);
            }
            let p = choose|p: int|
                0 <= p < before.len() && (#[trigger] before[p]).0 == front[j].id
                    && before[p].1.endpoint.host == front[j].host;
            assert(after[p] == before[p]);
        }
    } else {
        if !is_placed(videos, own) && !is_placed(before, own) {
            assert(after[after.len() - 1].1@ == own@);
            assert(after[after.len() - 1].0 == locals[j].id);
        }
        if !is_placed(videos, own) && forall|k: int|
            0 <= k < j ==> (#[trigger] locals[k]).host@ != locals[j].host@ {
            assert(forall|k: int| 0 <= k < j ==> front[k] == #[trigger] locals[k]);
            if is_placed(before, own) {
                let p = choose|p: int| 0 <= p < before.len() && (#[trigger] before[p]).1@ == own@;
                lemma_probe_has_a_host(videos, front, p);
                let k = choose|k: int|
                    0 <= k < front.len() && (#[trigger] front[k]).host@
                        == before[p].1.endpoint.host@;
                assert(locals[k].host@ == locals[j].host@);
            }
        }
    }
}

proof fn lemma_probe_has_a_host(videos: Seq<PlacedVideo>, locals: Seq<LocalDevice>, p: int)
    requires
        0 <= p < probes_of(videos, locals).len(),
    ensures
        exists|k: int|
            0 <= k < locals.len() && (#[trigger] locals[k]).host@ == probes_of(
                videos,
                locals,
            )[p].1.endpoint.host@,
    decreases locals.len(),
{
    if locals.len() > 0 {
        let front = locals.drop_last();
        let before = probes_of(videos, front);
        if p < before.len() {
            lemma_probe_has_a_host(videos, front, p);
            let k = choose|k: int|
                0 <= k < front.len() && (#[trigger] front[k]).host@ == before[p].1.endpoint.host@;
            assert(locals[k] == front[k]);
        } else {
            assert(locals[locals.len() - 1].host@ == probes_of(
                videos,
                locals,
            )[p].1.endpoint.host@);
        }
    }
}

/// A camera is found where the certificate there names the very device; it is then served as that of
/// the device, unless the device has one already, and one that is not found changes nothing.
pub proof fn law_found_cameras_are_served(
    videos: VideoView,
    probe: &PlacedVideo,
    named: &str,
    matched: bool,
    silent: bool,
)
    requires
        call_ensures(probe_succeeded, (probe, Some(named)), matched),
        call_ensures(probe_succeeded, (probe, None), silent),
    ensures
        matched <==> named@ == probe.0@,
        !silent,
        after_probe(videos, *probe, false) == videos,
        ({
            let after = after_probe(videos, *probe, true);
            &&& after.endpoints.len() == videos.endpoints.len() + 1
            &&& after.endpoints.last() == probe.1
            &&& forall|i: int|
                0 <= i < videos.endpoints.len() ==> #[trigger] after.endpoints[i]
                    == videos.endpoints[i]
            &&& after.probed_device_ids.contains(probe.0@)
            &&& forall|id: Seq<char>|
                id != probe.0@ ==> (#[trigger] after.probed_device_ids.contains(id)
                    <==> videos.probed_device_ids.contains(id))
            &&& videos.endpoint_map.contains_key(probe.0@) ==> after.endpoint_map
                == videos.endpoint_map
            &&& !videos.endpoint_map.contains_key(probe.0@) ==> after.endpoint_map.contains_key(
                probe.0@,
            ) && after.endpoint_map[probe.0@] == probe.1
            &&& forall|id: Seq<char>|
                id != probe.0@ && #[trigger] videos.endpoint_map.contains_key(id)
                    ==> after.endpoint_map.contains_key(id) && after.endpoint_map[id]
                    == videos.endpoint_map[id]
        }),
{
}

/// What is left of a device with a camera: a code that it has; else that of the camera; else that of
/// the account, with the name and the state that the device lacks.
pub proof fn law_devices_with_cameras_are_completed(
    device: &mut KnownDevice,
    video: &VideoEndpoint,
    listed: Vec<CloudDevice>,
    bound: &Bound,
    r: Result<Step<()>, String>,
)
    requires
        *bound == Bound::Read(listed),
        call_ensures(resolve_known_device_access, (device, video, bound), r),
    ensures
        r is Ok,
        final(device).id == old(device).id,
        final(device).status == old(device).status,
        final(device).source == old(device).source,
        text::present(old(device).access_code) ==> *final(device) == *old(device),
        !text::present(old(device).access_code) && text::present(video.access_code) ==> {
            &&& final(device).access_code == video.access_code
            &&& final(device).name == old(device).name
            &&& final(device).online == old(device).online
        },
        text::present(old(device).name) ==> final(device).name == old(device).name,
        old(device).online is Some ==> final(device).online == old(device).online,
{
}

/// A camera that is added is served at its endpoint and is the one of its device; and one that was
/// found is added unless its device has one.
pub proof fn law_cameras_are_added(
    videos: &mut ResolvedVideoEndpoints,
    device_id: String,
    endpoint: VideoEndpoint,
    probed: &mut ResolvedVideoEndpoints,
    succeeded: bool,
)
    requires
        call_ensures(ResolvedVideoEndpoints::add, (videos, device_id, endpoint), ()),
        call_ensures(
            ResolvedVideoEndpoints::take_probe,
            (probed, (device_id, endpoint), succeeded),
            (),
        ),
    ensures
        final(videos).endpoints@ == old(videos).endpoints@.push(endpoint),
        final(videos).endpoint_map@ == old(videos).endpoint_map@.insert(device_id@, endpoint),
        final(videos).probed_device_ids@ == old(videos).probed_device_ids@.insert(device_id@),
        !succeeded ==> {
            &&& final(probed).endpoints@ == old(probed).endpoints@
            &&& final(probed).endpoint_map@ == old(probed).endpoint_map@
            &&& final(probed).probed_device_ids@ == old(probed).probed_device_ids@
        },
        succeeded ==> {
            &&& final(probed).endpoints@ == old(probed).endpoints@.push(endpoint)
            &&& final(probed).probed_device_ids@ == old(probed).probed_device_ids@.insert(
                device_id@,
            )
            &&& old(probed).endpoint_map@.contains_key(device_id@) ==> final(probed).endpoint_map@
                == old(probed).endpoint_map@
            &&& !old(probed).endpoint_map@.contains_key(device_id@) ==> final(probed).endpoint_map@ == old(probed).endpoint_map@.insert(device_id@, endpoint)
        },
{
}

/// Two local devices of one id are refused, and devices of different ids are not; and the ids of local
/// devices are those that they have.
pub proof fn law_local_ids_are_told_apart(
    pending: &Vec<PendingDevice>,
    r: Result<(), String>,
    i: int,
    j: int,
    locals: &Vec<LocalDevice>,
    ids: NameSet,
    id: Seq<char>,
)
    requires
        call_ensures(ensure_unique_local_device_ids, (pending,), r),
        call_ensures(local_device_ids, (locals,), ids),
        0 <= i < j < pending@.len(),
    ensures
        pending@[i].0@ == pending@[j].0@ ==> r is Err,
        (forall|a: int, b: int|
            0 <= a < b < pending@.len() ==> (#[trigger] pending@[a]).0@ != (
            #[trigger] pending@[b]).0@) ==> r is Ok,
        ids@.contains(id) <==> exists|k: int|
            0 <= k < locals@.len() && (#[trigger] locals@[k]).id@ == id,
{
    law_no_repeat_means_distinct(pending@);
    if pending@[i].0@ == pending@[j].0@ {
        assert(!distinct_ids(pending@));
    }
}

/// Where nothing is configured, the account has to be listed first, where there is a session, and
/// without one there is nothing to serve. Local devices of one id are refused, whatever else there is.
pub proof fn law_something_has_to_be_configured(
    bound: &Bound,
    cloud_configs: &Vec<String>,
    local_devices: &Vec<PendingDevice>,
    explicit_video: &Vec<PlacedVideo>,
    r: Result<Step<ResolvedDevices>, String>,
    i: int,
    j: int,
)
    requires
        call_ensures(resolve_devices, (bound, cloud_configs, local_devices, explicit_video), r),
    ensures
        cloud_configs@.len() == 0 && local_devices@.len() == 0 && bound is Unread ==> r == Ok::<
            Step<ResolvedDevices>,
            String,
        >(Step::ReadBound),
        cloud_configs@.len() == 0 && local_devices@.len() == 0 && bound is NoSession
            && explicit_video@.len() == 0 ==> r is Err && r->Err_0@
            == "no devices configured; run `bambu-overlay login`, set --cloud-device, or set --local-device"@,
        0 <= i < j < local_devices@.len() && local_devices@[i].0@ == local_devices@[j].0@ ==> r is Err,
        r == Ok::<Step<ResolvedDevices>, String>(Step::ReadBound) ==> bound is Unread,
{
    law_no_repeat_means_distinct(local_devices@);
    if 0 <= i < j < local_devices@.len() && local_devices@[i].0@ == local_devices@[j].0@ {
        assert(!distinct_ids(local_devices@));
    }
    if local_devices@.len() == 0 {
        assert(local_devices@ =~= Seq::<PendingDevice>::empty());
        assert(distinct_ids(local_devices@));
    }
    if cloud_configs@.len() == 0 && local_devices@.len() == 0 && bound is NoSession {
        let none = Seq::<LocalDevice>::empty();
        assert(cloud::all_named(cloud_configs@) =~= Seq::<CloudDevice>::empty());
        assert(cloud_part(cloud::all_named(cloud_configs@), ids_of(none)) + local_part(none)
            =~= Seq::<KnownDevice>::empty());
    }
    if !(bound is Unread) {
        lemma_known_bound_is_not_read(local_devices@, explicit_video@, *bound);
        match all_local_access(local_devices@, explicit_video@, *bound) {
            Ok(Step::Done(local)) => {
                let listed = cloud_list(*bound, cloud_configs@, local_devices@);
                if listed is Done {
                    lemma_completing_does_not_read(
                        cloud_part(listed->Done_0, ids_of(local)) + local_part(local),
                        explicit_video@,
                        *bound,
                    );
                }
            },
            _ => {},
        }
    }
}

proof fn lemma_known_bound_is_not_read(
    devices: Seq<PendingDevice>,
    videos: Seq<PlacedVideo>,
    bound: Bound,
)
    requires
        !(bound is Unread),
    ensures
        all_local_access(devices, videos, bound) != Ok::<Step<Seq<LocalDevice>>, Seq<char>>(
            Step::ReadBound,
        ),
    decreases devices.len(),
{
    if devices.len() > 0 {
        lemma_known_bound_is_not_read(devices.drop_last(), videos, bound);
    }
}

proof fn lemma_completing_does_not_read(
    catalog: Seq<KnownDevice>,
    videos: Seq<PlacedVideo>,
    bound: Bound,
)
    requires
        !(bound is Unread),
    ensures
        catalog_access(catalog, videos, bound).1 != Ok::<Step<()>, Seq<char>>(Step::ReadBound),
    decreases videos.len(),
{
    if videos.len() > 0 {
        lemma_completing_does_not_read(catalog, videos.drop_last(), bound);
    }
}

/// The account is asked for the code of a local device only where neither the device nor its camera
/// has one; without a session such a device cannot be served.
pub proof fn law_account_is_asked_only_for_missing_codes(
    device: &PendingDevice,
    videos: &Vec<PlacedVideo>,
    unread: Result<Step<LocalDevice>, String>,
    alone: Result<Step<LocalDevice>, String>,
)
    requires
        call_ensures(resolve_local_device_access, (device, videos, &Bound::Unread), unread),
        call_ensures(resolve_local_device_access, (device, videos, &Bound::NoSession), alone),
    ensures
        ({
            let camera = video_of(videos@, device.0@);
            let found = text::present(device.1.access_code) || (camera is Some && text::present(
                camera->0.access_code,
            ));
            &&& found ==> (unread matches Ok(Step::Done(local)) && text::present(
                local.access_code,
            )) && (alone matches Ok(Step::Done(local)) && text::present(local.access_code))
            &&& !found ==> unread == Ok::<Step<LocalDevice>, String>(Step::ReadBound) && alone is Err
        }),
{
}

/// A camera completes the first device that has its id, and no other.
pub proof fn law_camera_completes_its_device(
    catalog: Seq<KnownDevice>,
    video: PlacedVideo,
    bound: Bound,
    i: int,
)
    requires
        0 <= i < catalog.len(),
        text::present(video.1.access_code),
        forall|k: int|
            0 <= k < i ==> (#[trigger] catalog[k]).id is None || catalog[k].id->0@ != video.0@,
    ensures
        ({
            let after = catalog_access(catalog, seq![video], bound).0;
            let own = catalog[i].id is Some && catalog[i].id->0@ == video.0@;
            &&& after.len() == catalog.len()
            &&& !own ==> after[i] == catalog[i]
            &&& own && text::present(catalog[i].access_code) ==> after[i] == catalog[i]
            &&& own && !text::present(catalog[i].access_code) ==> {
                &&& after[i].access_code == video.1.access_code
                &&& after[i].name == catalog[i].name
                &&& after[i].id == catalog[i].id
            }
        }),
{
    let none = Seq::<PlacedVideo>::empty();
    assert(seq![video].drop_last() =~= none);
    reveal_with_fuel(catalog_access, 2);
    lemma_first_place(catalog, video.0@, i);
}

proof fn lemma_first_place(catalog: Seq<KnownDevice>, id: Seq<char>, i: int)
    requires
        0 <= i < catalog.len(),
        forall|k: int| 0 <= k < i ==> (#[trigger] catalog[k]).id is None || catalog[k].id->0@ != id,
    ensures
        place_of(catalog, id) matches Some(place) ==> i <= place < catalog.len()
            && catalog[place].id is Some && catalog[place].id->0@ == id,
        catalog[i].id is Some && catalog[i].id->0@ == id ==> place_of(catalog, id) == Some(i),
    decreases catalog.len(),
{
    let front = catalog.drop_last();
    assert(forall|k: int| 0 <= k < front.len() ==> front[k] == #[trigger] catalog[k]);
    if i < front.len() {
        assert forall|k: int| 0 <= k < i implies (#[trigger] front[k]).id is None || front[k].id->0@
            != id by {
            assert(catalog[k].id is None || catalog[k].id->0@ != id);
        }
        lemma_first_place(front, id, i);
    } else {
        assert forall|k: int| 0 <= k < front.len() implies (#[trigger] front[k]).id is None
            || front[k].id->0@ != id by {
            assert(catalog[k].id is None || catalog[k].id->0@ != id);
        }
        lemma_no_place(front, id);
    }
}

proof fn lemma_no_place(catalog: Seq<KnownDevice>, id: Seq<char>)
    requires
        forall|k: int|
            0 <= k < catalog.len() ==> (#[trigger] catalog[k]).id is None || catalog[k].id->0@ != id,
    ensures
        place_of(catalog, id) is None,
    decreases catalog.len(),
{
    if catalog.len() > 0 {
        let front = catalog.drop_last();
        assert(catalog[catalog.len() - 1].id is None || catalog[catalog.len() - 1].id->0@ != id);
        assert forall|k: int| 0 <= k < front.len() implies (#[trigger] front[k]).id is None
            || front[k].id->0@ != id by {
            assert(catalog[k].id is None || catalog[k].id->0@ != id);
        }
        lemma_no_place(front, id);
    }
}

/// What is said of a local device without a code, of an id that two have, and of a camera of an unknown
/// device, tells which it is.
pub proof fn law_refusals_tell_of_whom(
    device: PendingDevice,
    r: Result<LocalDevice, String>,
    endpoint: &VideoEndpoint,
    device_id: &str,
    ids: &NameSet,
    stray: Result<(), String>,
)
    requires
        call_ensures(finalize_local_device, (device,), r),
        call_ensures(ensure_video_device_exists, (endpoint, device_id, ids), stray),
    ensures
        r is Ok <==> device.1.access_code is Some && text::has_text(device.1.access_code->0@),
        r matches Ok(local) ==> {
            &&& local.id == device.0
            &&& local.host == device.1.host
            &&& local.mqtt_port == device.1.mqtt_port
            &&& local.access_code == device.1.access_code
            &&& local.name == device.1.name
        },
        r is Err ==> r->Err_0@ == "--local-device `"@ + device.0@
            + "` is missing an access code; provide ACCESS_CODE or cloud metadata that exposes dev_access_code"@,
        stray is Ok <==> ids@.contains(device_id@),
        stray is Err ==> stray->Err_0@ == "--video-device `"@ + local::endpoint_text(
            endpoint.endpoint.host@,
            endpoint.endpoint.port,
        ) + "` is for device `"@ + device_id@
            + "`, but no matching cloud or local device is configured"@,
{
}

} // verus!
