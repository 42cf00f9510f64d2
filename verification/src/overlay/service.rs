//! What the overlay is sent.
use crate::bambu::models;
use crate::bambu::models::{CloudDevice, CurrentPrintResponse, PrinterStatus, TasksResponse};
use crate::overlay::spools;
use crate::overlay::summary;
use crate::overlay::summary::{DeviceSummary, Figures, OverlayDevice, SummaryView, TaskSource};
use crate::table::Table;
use crate::time;
use crate::time::Instant;
use vstd::prelude::*;

verus! {

/// The devices whose state the overlay shows.
#[derive(Debug, Clone)]
pub struct SnapshotService {
    devices: CurrentPrintResponse,
}

/// What the overlay is sent, where `M` is the state of the MQTT connections.
#[derive(Debug, Clone)]
pub struct OverlayPayload<M> {
    pub ok: bool,
    pub updated_at: String,
    pub mqtt: M,
    pub devices: Vec<OverlayDevice>,
}

/// What the overlay is sent where there is nothing to show, where `M` is the state of the MQTT
/// connections.
#[derive(Debug, Clone)]
pub struct ErrorPayload<M> {
    pub ok: bool,
    pub error: String,
    pub updated_at: String,
    pub mqtt: M,
    pub devices: Vec<OverlayDevice>,
}

impl SnapshotService {
    /// The devices, in order.
    pub closed spec fn catalog(self) -> Seq<CloudDevice> {
        self.devices.devices@
    }

    /// A service for `devices`.
    pub fn new(devices: Vec<CloudDevice>) -> (r: Self)
        ensures
            r.catalog() == devices@,
    {
        SnapshotService { devices: CurrentPrintResponse { devices } }
    }

    /// Tells whether the trays of every device can be labelled, and their colors read.
    pub fn is_readable(&self, reports: &Table<PrinterStatus>) -> (r: bool)
        ensures
            r == summary::all_trays_readable(self.catalog(), reports@),
    {
        let devices = &self.devices.devices;
        let mut i: usize = 0;
        while i < devices.len()
            invariant
                devices@ == self.catalog(),
                i <= devices@.len(),
                forall|k: int|
                    0 <= k < i ==> summary::trays_readable(
                        (#[trigger] devices@[k]).status,
                        summary::report_of(devices@[k], reports@),
                    ),
            decreases devices.len() - i,
        {
            if !summary::are_trays_readable(&devices[i], reports) {
                return false;
            }
            i = i + 1;
        }
        true
    }

    /// The state of every device, in order, by what it reported. There is no task history.
    pub fn summaries(&self, reports: &Table<PrinterStatus>) -> (r: Vec<DeviceSummary>)
        requires
            summary::all_trays_readable(self.catalog(), reports@),
        ensures
            r@.len() == self.catalog().len(),
            forall|i: int|
                0 <= i < r@.len() ==> (#[trigger] r@[i])@ == state_of(self.catalog()[i], reports@),
    {
        let tasks = TasksResponse::default();
        let summaries = summary::summarize_devices(&self.devices, &tasks, reports);
        assert forall|i: int| 0 <= i < summaries@.len() implies (#[trigger] summaries@[i])@
            == summary::full_summary(
            self.catalog()[i],
            summary::report_of(self.catalog()[i], reports@),
            None,
        ) by {
            assert(summary::history_of(self.catalog()[i], tasks.hits@) is None);
        }
        summaries
    }

    /// What the overlay is sent at `now`: the state of every device, in order, by what it reported
    /// and with its figures. Nothing is asked of the cloud, whether or not that is wished for.
    pub fn payload<M>(
        &self,
        _force_cloud_refresh: bool,
        reports: &Table<PrinterStatus>,
        figures: Vec<Figures>,
        mqtt: M,
        now: Instant,
    ) -> (r: OverlayPayload<M>)
        requires
            now.valid(),
            summary::all_trays_readable(self.catalog(), reports@),
            figures@.len() == self.catalog().len(),
            forall|i: int|
                0 <= i < figures@.len() ==> (#[trigger] figures@[i]).fit(
                    state_of(self.catalog()[i], reports@),
                ),
        ensures
            r.ok,
            r.updated_at@ == time::rfc3339_text(now.secs, now.nanos),
            r.mqtt == mqtt,
            r.devices@.len() == self.catalog().len(),
            forall|i: int|
                0 <= i < r.devices@.len() ==> (#[trigger] r.devices@[i])@ == summary::shown(
                    state_of(self.catalog()[i], reports@),
                    figures@[i],
                ),
    {
        let summaries = self.summaries(reports);
        overlay_payload(summary::overlay_devices(summaries, figures), mqtt, now)
    }
}

/// The state of a device by what it reported, without any task history.
pub open spec fn state_of(
    device: CloudDevice,
    reports: Map<Seq<char>, PrinterStatus>,
) -> SummaryView {
    summary::full_summary(device, summary::report_of(device, reports), None)
}

/// What the overlay is sent at `now`.
pub fn overlay_payload<M>(devices: Vec<OverlayDevice>, mqtt: M, now: Instant) -> (r: OverlayPayload<M>)
    requires
        now.valid(),
    ensures
        r.ok,
        r.updated_at@ == time::rfc3339_text(now.secs, now.nanos),
        r.mqtt == mqtt,
        r.devices == devices,
{
    OverlayPayload { ok: true, updated_at: now.to_rfc3339(), mqtt, devices }
}

/// What the overlay is sent at `now` where there is nothing to show.
pub fn error_payload<M>(error: String, mqtt: M, now: Instant) -> (r: ErrorPayload<M>)
    requires
        now.valid(),
    ensures
        !r.ok,
        r.error == error,
        r.updated_at@ == time::rfc3339_text(now.secs, now.nanos),
        r.mqtt == mqtt,
        r.devices@.len() == 0,
{
    ErrorPayload { ok: false, error, updated_at: now.to_rfc3339(), mqtt, devices: Vec::new() }
}

/// The overlay is sent each device of the service, in the order in which they were given to it, and
/// of each what it reported of a field under its own id, and where it did not, what is known of the
/// field; and whether a refresh was wished for makes no difference to that.
pub proof fn law_payload_tells_of_each_device<M>(
    devices: Vec<CloudDevice>,
    service: SnapshotService,
    force_cloud_refresh: bool,
    reports: &Table<PrinterStatus>,
    figures: Vec<Figures>,
    mqtt: M,
    now: Instant,
    r: OverlayPayload<M>,
    i: int,
)
    requires
        0 <= i < devices@.len(),
        call_ensures(SnapshotService::new, (devices,), service),
        call_ensures(
            SnapshotService::payload::<M>,
            (&service, force_cloud_refresh, reports, figures, mqtt, now),
            r,
        ),
    ensures
        r.ok,
        r.mqtt == mqtt,
        r.updated_at@ == time::rfc3339_text(now.secs, now.nanos),
        r.devices@.len() == devices@.len(),
        ({
            let device = devices@[i];
            let seen = r.devices@[i];
            let known = device.status;
            let heard = device.id is Some && reports@.contains_key(device.id->0@);
            let report = if heard {
                reports@[device.id->0@]
            } else {
                models::empty_status()
            };
            &&& device.name matches Some(name) ==> seen.name@ == name@
            &&& device.online matches Some(online) ==> seen.online == online
            &&& summary::is_latest_text(seen.title, report.task_name, known.task_name)
            &&& summary::is_latest_text(seen.task_name, report.task_name, known.task_name)
            &&& summary::is_latest_text(seen.filename, report.filename, known.filename)
            &&& summary::is_latest_text(seen.task_status, report.status, known.status)
            &&& summary::is_latest_text(seen.started, report.start_time, known.start_time)
            &&& summary::is_latest(seen.layer_current, report.layer_current, known.layer_current)
            &&& summary::is_latest(seen.layer_total, report.layer_total, known.layer_total)
            &&& seen.is_printing <==> summary::has_print_field(report)
                || summary::has_print_field(known)
            &&& seen.mode is Some <==> report.speed_level is Some || known.speed_level is Some
            &&& seen.progress == figures@[i].progress
            &&& seen.toolhead_temp is Some <==> figures@[i].toolhead_degrees is Some
            &&& seen.bed_temp is Some <==> figures@[i].bed_degrees is Some
            &&& seen.task_source == TaskSource::PrinterStatus
            &&& seen.thumbnail is None
            &&& seen.plate is None
            &&& report.ams is Some && report.ams->0.holds_spool() ==> seen.ams_spools@.len()
                == spools::loaded_spools(report.ams).len()
            &&& report.ams is None || !report.ams->0.holds_spool() ==> seen.ams_spools@.len()
                == spools::loaded_spools(known.ams).len()
        }),
{
    let device = devices@[i];
    let seen = r.devices@[i];
    assert(seen@ == summary::shown(state_of(device, reports@), figures@[i]));
    assert(spools::spool_views(seen.ams_spools@).len() == seen.ams_spools@.len());
    summary::law_view_of_what_is_shown_is_what_it_holds(seen);
}

/// Where there is nothing to show, the overlay is sent the error, and that it is one.
pub proof fn law_error_is_sent_as_one<M>(error: String, mqtt: M, now: Instant, r: ErrorPayload<M>)
    requires
        call_ensures(error_payload::<M>, (error, mqtt, now), r),
    ensures
        !r.ok,
        r.error@ == error@,
        r.mqtt == mqtt,
        r.devices@.len() == 0,
{
}

} // verus!
