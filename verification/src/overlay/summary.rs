//! One summary per printer, from its status, its live report and the task history.
use crate::bambu::models;
use crate::bambu::models::{
    AmsState, CloudDevice, CurrentPrintResponse, PrinterStatus, Real, Task, TasksResponse, Tray,
};
use crate::overlay::spools;
use crate::overlay::spools::{Spool, SpoolView};
use crate::table::Table;
use crate::text;
use crate::time::Instant;
use vstd::prelude::*;

verus! {

/// Where the task of a summary comes from.
#[derive(Debug, Clone, Copy, PartialEq, Eq, Structural)]
pub enum TaskSource {
    PrinterStatus,
    PrinterStatusWithTaskHistory,
    TaskHistory,
    TaskHistoryFallback,
}

impl TaskSource {
    /// The name of the source.
    pub open spec fn name(self) -> Seq<char> {
        match self {
            TaskSource::PrinterStatus => "printer status"@,
            TaskSource::PrinterStatusWithTaskHistory => "printer status + task history"@,
            TaskSource::TaskHistory => "task history"@,
            TaskSource::TaskHistoryFallback => "task history fallback"@,
        }
    }

    /// The name of the source.
    pub fn label(self) -> (r: &'static str)
        ensures
            r@ == self.name(),
    {
        match self {
            TaskSource::PrinterStatus => "printer status",
            TaskSource::PrinterStatusWithTaskHistory => "printer status + task history",
            TaskSource::TaskHistory => "task history",
            TaskSource::TaskHistoryFallback => "task history fallback",
        }
    }
}

/// What is known of a printer and its print.
#[derive(Debug)]
pub struct DeviceSummary {
    pub name: String,
    pub model_name: Option<String>,
    pub product_name: Option<String>,
    pub online: bool,
    pub task_id: Option<String>,
    pub task_name: Option<String>,
    pub title: Option<String>,
    pub filename: Option<String>,
    pub task_status: Option<String>,
    pub start_time: Option<String>,
    pub prediction: Option<Real>,
    pub progress: Option<Real>,
    pub thumbnail: Option<String>,
    pub weight: Option<String>,
    pub layer_current: Option<i64>,
    pub layer_total: Option<i64>,
    pub remaining_minutes: Option<Real>,
    pub toolhead_temperature: Option<Real>,
    pub bed_temperature: Option<Real>,
    pub fan_speed: Option<Real>,
    pub print_mode: Option<String>,
    pub ams_spools: Vec<Spool>,
    pub external_spool: Option<Spool>,
    pub is_printing: bool,
    pub task_source: TaskSource,
    pub plate_index: Option<String>,
}

/// The view of a spool, where there is one.
pub open spec fn spool_view(spool: Option<Spool>) -> Option<SpoolView> {
    match spool {
        Some(spool) => Some(spool@),
        None => None,
    }
}

/// The view of a summary.
pub struct SummaryView {
    pub name: Seq<char>,
    pub model_name: Option<Seq<char>>,
    pub product_name: Option<Seq<char>>,
    pub online: bool,
    pub task_id: Option<Seq<char>>,
    pub task_name: Option<Seq<char>>,
    pub title: Option<Seq<char>>,
    pub filename: Option<Seq<char>>,
    pub task_status: Option<Seq<char>>,
    pub start_time: Option<Seq<char>>,
    pub prediction: Option<Real>,
    pub progress: Option<Real>,
    pub thumbnail: Option<Seq<char>>,
    pub weight: Option<Seq<char>>,
    pub layer_current: Option<i64>,
    pub layer_total: Option<i64>,
    pub remaining_minutes: Option<Real>,
    pub toolhead_temperature: Option<Real>,
    pub bed_temperature: Option<Real>,
    pub fan_speed: Option<Real>,
    pub print_mode: Option<Seq<char>>,
    pub ams_spools: Seq<SpoolView>,
    pub external_spool: Option<SpoolView>,
    pub is_printing: bool,
    pub task_source: TaskSource,
    pub plate_index: Option<Seq<char>>,
}

impl View for DeviceSummary {
    type V = SummaryView;

    open spec fn view(&self) -> SummaryView {
        SummaryView {
            name: self.name@,
            model_name: text::chars(self.model_name),
            product_name: text::chars(self.product_name),
            online: self.online,
            task_id: text::chars(self.task_id),
            task_name: text::chars(self.task_name),
            title: text::chars(self.title),
            filename: text::chars(self.filename),
            task_status: text::chars(self.task_status),
            start_time: text::chars(self.start_time),
            prediction: self.prediction,
            progress: self.progress,
            thumbnail: text::chars(self.thumbnail),
            weight: text::chars(self.weight),
            layer_current: self.layer_current,
            layer_total: self.layer_total,
            remaining_minutes: self.remaining_minutes,
            toolhead_temperature: self.toolhead_temperature,
            bed_temperature: self.bed_temperature,
            fan_speed: self.fan_speed,
            print_mode: text::chars(self.print_mode),
            ams_spools: spools::spool_views(self.ams_spools@),
            external_spool: spool_view(self.external_spool),
            is_printing: self.is_printing,
            task_source: self.task_source,
            plate_index: text::chars(self.plate_index),
        }
    }
}

/// The characters of `value`, or `default` where there are none.
pub open spec fn chars_or(value: Option<String>, default: Seq<char>) -> Seq<char> {
    match value {
        Some(value) => value@,
        None => default,
    }
}

fn text_or(value: &Option<String>, default: &str) -> (r: String)
    ensures
        r@ == chars_or(*value, default@),
{
    match value {
        Some(value) => value.clone(),
        None => default.to_owned(),
    }
}

// ---------------------------------------------------------------------------
// From the status and the report of a printer
// ---------------------------------------------------------------------------

/// The status with what the live report, where there is one, puts in its place.
pub open spec fn live_status(status: PrinterStatus, report: Option<PrinterStatus>) -> PrinterStatus {
    match report {
        Some(report) => models::merged(status, report),
        None => status,
    }
}

/// The material systems to show: those of the report where they hold a spool, else the known ones.
pub open spec fn live_ams(status: PrinterStatus, report: Option<PrinterStatus>) -> Option<
    AmsState,
> {
    if report is Some && report->0.ams is Some && report->0.ams->0.holds_spool() {
        report->0.ams
    } else {
        status.ams
    }
}

/// The external tray to show: that of the report where it holds a spool, else the known one.
pub open spec fn live_external_tray(
    status: PrinterStatus,
    report: Option<PrinterStatus>,
) -> Option<Tray> {
    if report is Some && report->0.external_tray is Some
        && report->0.external_tray->0.holds_spool() {
        report->0.external_tray
    } else {
        status.external_tray
    }
}

/// Whether the trays to show can be labelled, and their colors read.
pub open spec fn trays_readable(status: PrinterStatus, report: Option<PrinterStatus>) -> bool {
    &&& live_ams(status, report) matches Some(ams) ==> ams.readable()
    &&& live_external_tray(status, report) matches Some(tray) ==> spools::color_readable(tray)
}

/// The name of a speed level.
pub open spec fn mode_name(speed_level: i64) -> Seq<char> {
    if speed_level == 1 {
        "Silent"@
    } else if speed_level == 2 {
        "Standard"@
    } else if speed_level == 3 {
        "Sport"@
    } else if speed_level == 4 {
        "Ludicrous"@
    } else {
        "Level "@ + text::signed_decimal(speed_level as int)
    }
}

/// Whether the status tells of a print.
pub open spec fn tells_of_print(status: PrinterStatus) -> bool {
    ||| status.task_name is Some
    ||| status.task_id is Some
    ||| status.status is Some
    ||| status.start_time is Some
    ||| status.prediction_seconds is Some
    ||| status.progress is Some
    ||| status.filename is Some
    ||| status.layer_current is Some
    ||| status.layer_total is Some
}

/// The summary of a device from its status and its live report.
pub open spec fn device_summary(
    device: CloudDevice,
    report: Option<PrinterStatus>,
) -> SummaryView {
    let status = live_status(device.status, report);
    SummaryView {
        name: chars_or(device.name, "Bambu printer"@),
        model_name: text::chars(device.model_name),
        product_name: text::chars(device.product_name),
        online: device.online != Some(false),
        task_id: text::chars(status.task_id),
        task_name: text::chars(status.task_name),
        title: text::chars(status.task_name),
        filename: text::chars(status.filename),
        task_status: text::chars(status.status),
        start_time: text::chars(status.start_time),
        prediction: status.prediction_seconds,
        progress: status.progress,
        thumbnail: None,
        weight: text::chars(status.weight),
        layer_current: status.layer_current,
        layer_total: status.layer_total,
        remaining_minutes: status.remaining_minutes,
        toolhead_temperature: status.toolhead_temperature,
        bed_temperature: status.bed_temperature,
        fan_speed: status.fan_speed,
        print_mode: match status.speed_level {
            Some(speed_level) => Some(mode_name(speed_level)),
            None => None,
        },
        ams_spools: spools::loaded_spools(live_ams(device.status, report)),
        external_spool: spools::outside_spool(live_external_tray(device.status, report)),
        is_printing: tells_of_print(status),
        task_source: TaskSource::PrinterStatus,
        plate_index: None,
    }
}

/// What a reference that may be absent refers to.
pub open spec fn target<T>(value: Option<&T>) -> Option<T> {
    match value {
        Some(value) => Some(*value),
        None => None,
    }
}

fn first_text(first: Option<&Option<String>>, second: &Option<String>) -> (r: Option<String>)
    ensures
        r == (match first {
            Some(first) => models::either(*first, *second),
            None => *second,
        }),
{
    if let Some(first) = first {
        if first.is_some() {
            return first.clone();
        }
    }
    second.clone()
}

fn first_copy<T: Copy>(first: Option<Option<T>>, second: Option<T>) -> (r: Option<T>)
    ensures
        r == (match first {
            Some(first) => models::either(first, second),
            None => second,
        }),
{
    match first {
        Some(Some(value)) => Some(value),
        _ => second,
    }
}

/// The name of the speed level that a status reports, if it reports one.
pub fn print_mode(print_status: &PrinterStatus) -> (r: Option<String>)
    ensures
        text::chars(r) == (match print_status.speed_level {
            Some(speed_level) => Some(mode_name(speed_level)),
            None => None,
        }),
{
    match print_status.speed_level {
        Some(speed_level) => Some(
            if speed_level == 1 {
                "Silent".to_owned()
            } else if speed_level == 2 {
                "Standard".to_owned()
            } else if speed_level == 3 {
                "Sport".to_owned()
            } else if speed_level == 4 {
                "Ludicrous".to_owned()
            } else {
                "Level ".to_owned().concat(text::signed_text(speed_level as i128).as_str())
            },
        ),
        None => None,
    }
}

/// A device together with its live report.
pub struct DeviceFields<'a> {
    pub device: &'a CloudDevice,
    pub report: Option<&'a PrinterStatus>,
}

impl<'a> DeviceFields<'a> {
    /// The status that the fields are read from.
    pub open spec fn status(&self) -> PrinterStatus {
        live_status(self.device.status, target(self.report))
    }

    pub fn new(device: &'a CloudDevice, report: Option<&'a PrinterStatus>) -> (r: Self)
        ensures
            r.device == device,
            r.report == report,
    {
        DeviceFields { device, report }
    }

    /// The material systems to show.
    pub fn ams(&self) -> (r: Option<&AmsState>)
        ensures
            target(r) == live_ams(self.device.status, target(self.report)),
    {
        if let Some(report) = self.report {
            if let Some(ams) = &report.ams {
                if ams.has_spool_data() {
                    return Some(ams);
                }
            }
        }
        self.device.status.ams.as_ref()
    }

    /// The external tray to show.
    pub fn external_tray(&self) -> (r: Option<&Tray>)
        ensures
            target(r) == live_external_tray(self.device.status, target(self.report)),
    {
        if let Some(report) = self.report {
            if let Some(tray) = &report.external_tray {
                if tray.has_spool_data() {
                    return Some(tray);
                }
            }
        }
        self.device.status.external_tray.as_ref()
    }

    /// The name of the speed level.
    pub fn display_mode(&self) -> (r: Option<String>)
        ensures
            text::chars(r) == (match self.status().speed_level {
                Some(speed_level) => Some(mode_name(speed_level)),
                None => None,
            }),
    {
        if let Some(report) = self.report {
            let mode = print_mode(report);
            if mode.is_some() {
                return mode;
            }
        }
        print_mode(&self.device.status)
    }

    pub fn task_id(&self) -> (r: Option<String>)
        ensures
            r == self.status().task_id,
    {
        let report = match self.report {
            Some(report) => Some(&report.task_id),
            None => None,
        };
        first_text(report, &self.device.status.task_id)
    }

    pub fn device_id(&self) -> (r: Option<String>)
        ensures
            r == self.device.id,
    {
        self.device.id.clone()
    }

    pub fn task_name(&self) -> (r: Option<String>)
        ensures
            r == self.status().task_name,
    {
        let report = match self.report {
            Some(report) => Some(&report.task_name),
            None => None,
        };
        first_text(report, &self.device.status.task_name)
    }

    pub fn task_status(&self) -> (r: Option<String>)
        ensures
            r == self.status().status,
    {
        let report = match self.report {
            Some(report) => Some(&report.status),
            None => None,
        };
        first_text(report, &self.device.status.status)
    }

    pub fn start_time(&self) -> (r: Option<String>)
        ensures
            r == self.status().start_time,
    {
        let report = match self.report {
            Some(report) => Some(&report.start_time),
            None => None,
        };
        first_text(report, &self.device.status.start_time)
    }

    pub fn filename(&self) -> (r: Option<String>)
        ensures
            r == self.status().filename,
    {
        let report = match self.report {
            Some(report) => Some(&report.filename),
            None => None,
        };
        first_text(report, &self.device.status.filename)
    }

    pub fn weight(&self) -> (r: Option<String>)
        ensures
            r == self.status().weight,
    {
        let report = match self.report {
            Some(report) => Some(&report.weight),
            None => None,
        };
        first_text(report, &self.device.status.weight)
    }

    pub fn progress(&self) -> (r: Option<Real>)
        ensures
            r == self.status().progress,
    {
        let report = match self.report {
            Some(report) => Some(report.progress),
            None => None,
        };
        first_copy(report, self.device.status.progress)
    }

    pub fn prediction(&self) -> (r: Option<Real>)
        ensures
            r == self.status().prediction_seconds,
    {
        let report = match self.report {
            Some(report) => Some(report.prediction_seconds),
            None => None,
        };
        first_copy(report, self.device.status.prediction_seconds)
    }

    pub fn remaining_minutes(&self) -> (r: Option<Real>)
        ensures
            r == self.status().remaining_minutes,
    {
        let report = match self.report {
            Some(report) => Some(report.remaining_minutes),
            None => None,
        };
        first_copy(report, self.device.status.remaining_minutes)
    }

    pub fn toolhead_temperature(&self) -> (r: Option<Real>)
        ensures
            r == self.status().toolhead_temperature,
    {
        let report = match self.report {
            Some(report) => Some(report.toolhead_temperature),
            None => None,
        };
        first_copy(report, self.device.status.toolhead_temperature)
    }

    pub fn bed_temperature(&self) -> (r: Option<Real>)
        ensures
            r == self.status().bed_temperature,
    {
        let report = match self.report {
            Some(report) => Some(report.bed_temperature),
            None => None,
        };
        first_copy(report, self.device.status.bed_temperature)
    }

    pub fn fan_speed(&self) -> (r: Option<Real>)
        ensures
            r == self.status().fan_speed,
    {
        let report = match self.report {
            Some(report) => Some(report.fan_speed),
            None => None,
        };
        first_copy(report, self.device.status.fan_speed)
    }

    pub fn layer_current(&self) -> (r: Option<i64>)
        ensures
            r == self.status().layer_current,
    {
        let report = match self.report {
            Some(report) => Some(report.layer_current),
            None => None,
        };
        first_copy(report, self.device.status.layer_current)
    }

    pub fn layer_total(&self) -> (r: Option<i64>)
        ensures
            r == self.status().layer_total,
    {
        let report = match self.report {
            Some(report) => Some(report.layer_total),
            None => None,
        };
        first_copy(report, self.device.status.layer_total)
    }

    /// Tells whether the status tells of a print.
    pub fn has_print_status_task(&self) -> (r: bool)
        ensures
            r == tells_of_print(self.status()),
    {
        self.task_name().is_some() || self.task_id().is_some() || self.task_status().is_some()
            || self.start_time().is_some() || self.prediction().is_some()
            || self.progress().is_some() || self.filename().is_some()
            || self.layer_current().is_some() || self.layer_total().is_some()
    }

    /// The summary of the device, and its id.
    pub fn summary(&self) -> (r: (Option<String>, DeviceSummary))
        requires
            trays_readable(self.device.status, target(self.report)),
        ensures
            r.0 == self.device.id,
            r.1@ == device_summary(*self.device, target(self.report)),
    {
        let name = text_or(&self.device.name, "Bambu printer");
        let online = match self.device.online {
            Some(online) => online,
            None => true,
        };
        let summary = DeviceSummary {
            name,
            model_name: self.device.model_name.clone(),
            product_name: self.device.product_name.clone(),
            online,
            task_id: self.task_id(),
            task_name: self.task_name(),
            title: self.task_name(),
            filename: self.filename(),
            task_status: self.task_status(),
            start_time: self.start_time(),
            prediction: self.prediction(),
            progress: self.progress(),
            thumbnail: None,
            weight: self.weight(),
            layer_current: self.layer_current(),
            layer_total: self.layer_total(),
            remaining_minutes: self.remaining_minutes(),
            toolhead_temperature: self.toolhead_temperature(),
            bed_temperature: self.bed_temperature(),
            fan_speed: self.fan_speed(),
            print_mode: self.display_mode(),
            ams_spools: spools::ams_spools(self.ams()),
            external_spool: spools::external_spool(self.external_tray()),
            is_printing: self.has_print_status_task(),
            task_source: TaskSource::PrinterStatus,
            plate_index: None,
        };
        (self.device_id(), summary)
    }
}

// ---------------------------------------------------------------------------
// From the task history
// ---------------------------------------------------------------------------

/// The instant that `text` names, where there is one.
pub open spec fn instant_of(text: Option<String>) -> Option<Instant> {
    match text {
        Some(text) => crate::overlay::format::bambu_datetime(text@),
        None => None,
    }
}

fn read_instant(text: &Option<String>) -> (r: Option<Instant>)
    ensures
        r == instant_of(*text),
        r matches Some(at) ==> at.valid(),
{
    match text {
        Some(text) => crate::overlay::format::parse_bambu_datetime(text.as_str()),
        None => None,
    }
}

/// Whether a task status names a running print.
pub open spec fn names_running(status: Option<String>) -> bool {
    status matches Some(status) && {
        let name = text::lowered(status@);
        name == "active"@ || name == "running"@ || name == "printing"@
    }
}

/// Whether a task that started and ended at the given instants is running.
///
/// A task with a start and no end runs, and so does one whose end lies within a minute of its
/// start. Otherwise its status decides.
pub open spec fn runs(start: Option<Instant>, end: Option<Instant>, status: Option<String>) -> bool {
    match (start, end) {
        (None, _) => false,
        (Some(_), None) => true,
        (Some(start), Some(end)) => {
            let seconds = crate::time::seconds_since(end.secs, end.nanos, start.secs, start.nanos);
            -60 <= seconds <= 60 || names_running(status)
        },
    }
}

/// Tells whether a task that started and ended at the given instants is running.
pub fn is_running(start: Option<Instant>, end: Option<Instant>, status: &Option<String>) -> (r: bool)
    requires
        start matches Some(at) ==> at.valid(),
        end matches Some(at) ==> at.valid(),
    ensures
        r == runs(start, end, *status),
{
    match (start, end) {
        (None, _) => false,
        (Some(_), None) => true,
        (Some(start), Some(end)) => {
            let seconds = end.seconds_since(start);
            if -60 <= seconds && seconds <= 60 {
                return true;
            }
            match status {
                Some(status) => {
                    let name = text::to_lower(status.as_str());
                    text::same(name.as_str(), "active") || text::same(name.as_str(), "running")
                        || text::same(name.as_str(), "printing")
                },
                None => false,
            }
        },
    }
}

/// Whether a task is running.
pub open spec fn task_runs(task: Task) -> bool {
    runs(instant_of(task.start_time), instant_of(task.end_time), task.status)
}

/// The second of an instant, or the least one where there is no instant.
pub open spec fn second_of(start: Option<Instant>) -> i64 {
    match start {
        Some(at) => at.secs,
        None => i64::MIN,
    }
}

/// Whether the history puts task `a` behind task `b`: running tasks come before others, and later
/// ones before earlier ones.
pub open spec fn ranks_below(a: Task, b: Task) -> bool {
    ||| !task_runs(a) && task_runs(b)
    ||| task_runs(a) == task_runs(b) && second_of(instant_of(a.start_time)) < second_of(
        instant_of(b.start_time),
    )
}

/// The summary of a device from a task of the history.
pub open spec fn task_summary(task: Task, active: bool) -> SummaryView {
    let title = Some(
        chars_or(
            models::either(task.title, models::either(task.design_title, task.translated_title)),
            "unknown task"@,
        ),
    );
    SummaryView {
        name: chars_or(task.device_name, "Bambu printer"@),
        model_name: text::chars(task.device_model),
        product_name: None,
        online: true,
        task_id: text::chars(task.id),
        task_name: title,
        title,
        filename: text::chars(task.plate_name),
        task_status: text::chars(task.status),
        start_time: text::chars(task.start_time),
        prediction: task.cost_time,
        progress: None,
        thumbnail: text::chars(task.cover),
        weight: text::chars(task.weight),
        layer_current: None,
        layer_total: None,
        remaining_minutes: None,
        toolhead_temperature: None,
        bed_temperature: None,
        fan_speed: None,
        print_mode: None,
        ams_spools: Seq::empty(),
        external_spool: None,
        is_printing: active,
        task_source: if active {
            TaskSource::TaskHistoryFallback
        } else {
            TaskSource::TaskHistory
        },
        plate_index: text::chars(task.plate_index),
    }
}

/// A task of the history.
pub struct TaskRecord<'a> {
    pub task: &'a Task,
}

impl<'a> TaskRecord<'a> {
    pub fn new(task: &'a Task) -> (r: Self)
        ensures
            r.task == task,
    {
        TaskRecord { task }
    }

    pub fn device_id(&self) -> (r: Option<String>)
        ensures
            r == self.task.device_id,
    {
        self.task.device_id.clone()
    }

    /// Tells whether the task is running.
    pub fn active(&self) -> (r: bool)
        ensures
            r == task_runs(*self.task),
    {
        let start = read_instant(&self.task.start_time);
        let end = read_instant(&self.task.end_time);
        is_running(start, end, &self.task.status)
    }

    /// The second at which the task started, or the least one where it is not known.
    pub fn start_sort_key(&self) -> (r: i64)
        ensures
            r == second_of(instant_of(self.task.start_time)),
    {
        match read_instant(&self.task.start_time) {
            Some(at) => at.secs,
            None => i64::MIN,
        }
    }

    /// The summary of the device of the task.
    pub fn summary(&self, active: bool) -> (r: DeviceSummary)
        ensures
            r@ == task_summary(*self.task, active),
    {
        let title = text_or(&self.task.display_title(), "unknown task");
        let ams_spools: Vec<Spool> = Vec::new();
        assert(spools::spool_views(ams_spools@) =~= Seq::empty());
        DeviceSummary {
            name: text_or(&self.task.device_name, "Bambu printer"),
            model_name: self.task.device_model.clone(),
            product_name: None,
            online: true,
            task_id: self.task.id.clone(),
            task_name: Some(title.clone()),
            title: Some(title),
            filename: self.task.plate_name.clone(),
            task_status: self.task.status.clone(),
            start_time: self.task.start_time.clone(),
            prediction: self.task.cost_time,
            progress: None,
            thumbnail: self.task.cover.clone(),
            weight: self.task.weight.clone(),
            layer_current: None,
            layer_total: None,
            remaining_minutes: None,
            toolhead_temperature: None,
            bed_temperature: None,
            fan_speed: None,
            print_mode: None,
            ams_spools,
            external_spool: None,
            is_printing: active,
            task_source: if active {
                TaskSource::TaskHistoryFallback
            } else {
                TaskSource::TaskHistory
            },
            plate_index: self.task.plate_index.clone(),
        }
    }
}

/// Whether a task is one of the device `id`.
pub open spec fn task_of(task: Task, id: Seq<char>) -> bool {
    task.device_id matches Some(device) && device@ == id
}

/// The place of the first-ranked task of the device `id` among the first `n` hits. Of tasks that
/// rank alike, the last one counts.
pub open spec fn best_hit(hits: Seq<Task>, id: Seq<char>, n: int) -> Option<int>
    decreases n,
{
    if n <= 0 {
        None
    } else {
        let before = best_hit(hits, id, n - 1);
        if task_of(hits[n - 1], id) && (before is None || !ranks_below(
            hits[n - 1],
            hits[before->0],
        )) {
            Some(n - 1)
        } else {
            before
        }
    }
}

/// The task that stands for the device `id`, if the history has one.
pub open spec fn matching_task(hits: Seq<Task>, id: Seq<char>) -> Option<Task> {
    match best_hit(hits, id, hits.len() as int) {
        Some(at) => Some(hits[at]),
        None => None,
    }
}

/// The task that stands for a device is one of its own, and there is one where the history has
/// any. None of its tasks ranks above it, and of those that rank alike it is the last.
pub proof fn law_best_hit(hits: Seq<Task>, id: Seq<char>, n: int)
    requires
        0 <= n <= hits.len(),
    ensures
        match best_hit(hits, id, n) {
            Some(at) => {
                &&& 0 <= at < n
                &&& task_of(hits[at], id)
                &&& forall|i: int|
                    0 <= i < n && task_of(#[trigger] hits[i], id) ==> {
                        &&& !ranks_below(hits[at], hits[i])
                        &&& i <= at || ranks_below(hits[i], hits[at])
                    }
            },
            None => forall|i: int| 0 <= i < n ==> !task_of(#[trigger] hits[i], id),
        },
    decreases n,
{
    if n > 0 {
        law_best_hit(hits, id, n - 1);
    }
}

/// A task and whether it is running.
#[derive(Debug)]
pub struct TaskMatch {
    pub task: Task,
    pub active: bool,
}

/// Whether `matches` holds, for each device, the task that stands for it.
pub open spec fn matches_history(matches: Map<Seq<char>, TaskMatch>, hits: Seq<Task>) -> bool {
    forall|id: Seq<char>|
        {
            &&& #[trigger] matches.contains_key(id) <==> matching_task(hits, id) is Some
            &&& matching_task(hits, id) matches Some(task) ==> matches[id].task == task
                && matches[id].active == task_runs(task)
        }
}

/// The task that stands for each device.
pub fn tasks_by_device(tasks_payload: &TasksResponse) -> (r: Table<TaskMatch>)
    ensures
        matches_history(r@, tasks_payload.hits@),
{
    let hits = &tasks_payload.hits;
    let mut by_device: Table<TaskMatch> = Table::new();
    let mut i: usize = 0;
    while i < hits.len()
        invariant
            i <= hits@.len(),
            hits@ == tasks_payload.hits@,
            forall|id: Seq<char>|
                {
                    &&& #[trigger] by_device@.contains_key(id) <==> best_hit(
                        hits@,
                        id,
                        i as int,
                    ) is Some
                    &&& best_hit(hits@, id, i as int) matches Some(at) ==> by_device@[id].task
                        == hits@[at] && by_device@[id].active == task_runs(hits@[at])
                },
        decreases hits.len() - i,
    {
        let ghost before = by_device@;
        let task = &hits[i];
        let record = TaskRecord::new(task);
        if let Some(device_id) = record.device_id() {
            let active = record.active();
            let key = record.start_sort_key();
            let better = match by_device.get(device_id.as_str()) {
                Some(known) => {
                    let known_key = TaskRecord::new(&known.task).start_sort_key();
                    let below = (!active && known.active) || (active == known.active && key
                        < known_key);
                    assert(below == ranks_below(*task, known.task));
                    !below
                },
                None => true,
            };
            if better {
                by_device.insert(device_id, TaskMatch { task: task.clone(), active });
            }
            proof {
                assert forall|id: Seq<char>|
                    {
                        &&& #[trigger] by_device@.contains_key(id) <==> best_hit(
                            hits@,
                            id,
                            i + 1,
                        ) is Some
                        &&& best_hit(hits@, id, i + 1) matches Some(at) ==> by_device@[id].task
                            == hits@[at] && by_device@[id].active == task_runs(hits@[at])
                    } by {
                    assert(before.contains_key(id) <==> best_hit(hits@, id, i as int) is Some);
                }
            }
        } else {
            assert forall|id: Seq<char>|
                best_hit(hits@, id, i + 1) == #[trigger] best_hit(hits@, id, i as int) by {}
            assert(forall|id: Seq<char>| #[trigger]
                by_device@.contains_key(id) <==> best_hit(hits@, id, i as int) is Some);
        }
        i = i + 1;
    }
    by_device
}

/// The summary with what it lacks taken from a task of the history.
pub open spec fn filled(summary: SummaryView, task: Task) -> SummaryView {
    let from_task = task_summary(task, true);
    SummaryView {
        task_id: models::either(summary.task_id, from_task.task_id),
        task_name: models::either(summary.task_name, from_task.task_name),
        title: models::either(summary.title, from_task.title),
        filename: models::either(summary.filename, from_task.filename),
        task_status: models::either(summary.task_status, from_task.task_status),
        start_time: models::either(summary.start_time, from_task.start_time),
        prediction: models::either(summary.prediction, from_task.prediction),
        thumbnail: models::either(summary.thumbnail, from_task.thumbnail),
        weight: models::either(summary.weight, from_task.weight),
        plate_index: models::either(summary.plate_index, from_task.plate_index),
        task_source: if summary.task_source == TaskSource::PrinterStatus {
            TaskSource::PrinterStatusWithTaskHistory
        } else {
            summary.task_source
        },
        ..summary
    }
}

fn fill<T>(target: &mut Option<T>, value: Option<T>)
    ensures
        *final(target) == models::either(*old(target), value),
{
    if target.is_none() {
        *target = value;
    }
}

/// Takes from a task of the history what the summary lacks.
pub fn fill_missing_from_task(summary: &mut DeviceSummary, task: &Task)
    ensures
        final(summary)@ == filled(old(summary)@, *task),
{
    let task_summary = TaskRecord::new(task).summary(true);
    fill(&mut summary.task_id, task_summary.task_id);
    fill(&mut summary.task_name, task_summary.task_name);
    fill(&mut summary.title, task_summary.title);
    fill(&mut summary.filename, task_summary.filename);
    fill(&mut summary.task_status, task_summary.task_status);
    fill(&mut summary.start_time, task_summary.start_time);
    fill(&mut summary.prediction, task_summary.prediction);
    fill(&mut summary.thumbnail, task_summary.thumbnail);
    fill(&mut summary.weight, task_summary.weight);
    fill(&mut summary.plate_index, task_summary.plate_index);
    if summary.task_source == TaskSource::PrinterStatus {
        summary.task_source = TaskSource::PrinterStatusWithTaskHistory;
    }
}

/// Filling twice is filling once, and what a summary has already stays.
pub proof fn law_fill_keeps_what_is_known(summary: SummaryView, task: Task, other: Task)
    ensures
        filled(filled(summary, task), task) == filled(summary, task),
        summary.title is Some ==> filled(summary, other).title == summary.title,
        summary.task_name is Some ==> filled(summary, other).task_name == summary.task_name,
        summary.task_id is Some ==> filled(summary, other).task_id == summary.task_id,
        summary.filename is Some ==> filled(summary, other).filename == summary.filename,
        summary.task_status is Some ==> filled(summary, other).task_status == summary.task_status,
        summary.start_time is Some ==> filled(summary, other).start_time == summary.start_time,
        summary.prediction is Some ==> filled(summary, other).prediction == summary.prediction,
        summary.weight is Some ==> filled(summary, other).weight == summary.weight,
        filled(summary, other).is_printing == summary.is_printing,
        filled(summary, other).progress == summary.progress,
        filled(summary, other).ams_spools == summary.ams_spools,
        filled(summary, other).external_spool == summary.external_spool,
{
}

// ---------------------------------------------------------------------------
// The summary of each device
// ---------------------------------------------------------------------------

/// The report of a device, where it has an id and reported.
pub open spec fn report_of(
    device: CloudDevice,
    reports: Map<Seq<char>, PrinterStatus>,
) -> Option<PrinterStatus> {
    match device.id {
        Some(id) => if reports.contains_key(id@) {
            Some(reports[id@])
        } else {
            None
        },
        None => None,
    }
}

/// The task of the history that stands for a device, and whether it runs, if there is one.
pub open spec fn history_of(device: CloudDevice, hits: Seq<Task>) -> Option<(Task, bool)> {
    match device.id {
        Some(id) => match matching_task(hits, id@) {
            Some(task) => Some((task, task_runs(task))),
            None => None,
        },
        None => None,
    }
}

/// The task that `matches` holds for a device, and whether it runs, if it holds one.
pub open spec fn match_of(
    device: CloudDevice,
    matches: Map<Seq<char>, TaskMatch>,
) -> Option<(Task, bool)> {
    match device.id {
        Some(id) => if matches.contains_key(id@) {
            Some((matches[id@].task, matches[id@].active))
        } else {
            None
        },
        None => None,
    }
}

/// The summary of a device: from its status and report where they tell of a print, with what is
/// missing from the history; else from the history, where that has a task; else what is known.
pub open spec fn full_summary(
    device: CloudDevice,
    report: Option<PrinterStatus>,
    task: Option<(Task, bool)>,
) -> SummaryView {
    let own = device_summary(device, report);
    match task {
        Some((task, active)) => if own.is_printing {
            filled(own, task)
        } else {
            task_summary(task, active)
        },
        None => own,
    }
}

/// The summary of a device.
pub fn summarize_device(
    device: &CloudDevice,
    tasks_by_device: &Table<TaskMatch>,
    reports: &Table<PrinterStatus>,
) -> (r: DeviceSummary)
    requires
        trays_readable(device.status, report_of(*device, reports@)),
    ensures
        r@ == full_summary(
            *device,
            report_of(*device, reports@),
            match_of(*device, tasks_by_device@),
        ),
{
    let report = match &device.id {
        Some(id) => reports.get(id.as_str()),
        None => None,
    };
    assert(target(report) == report_of(*device, reports@));
    let fields = DeviceFields::new(device, report);
    let (device_id, mut summary) = fields.summary();
    let task_match = match &device_id {
        Some(id) => tasks_by_device.get(id.as_str()),
        None => None,
    };
    if let Some(history_task) = task_match {
        if !summary.is_printing {
            summary = TaskRecord::new(&history_task.task).summary(history_task.active);
        } else {
            fill_missing_from_task(&mut summary, &history_task.task);
        }
    }
    summary
}

/// Whether the trays of every device can be labelled, and their colors read.
pub open spec fn all_trays_readable(
    devices: Seq<CloudDevice>,
    reports: Map<Seq<char>, PrinterStatus>,
) -> bool {
    forall|i: int|
        0 <= i < devices.len() ==> trays_readable(
            (#[trigger] devices[i]).status,
            report_of(devices[i], reports),
        )
}

/// The summary of every device, in order.
pub fn summarize_devices(
    print_payload: &CurrentPrintResponse,
    tasks_payload: &TasksResponse,
    reports: &Table<PrinterStatus>,
) -> (r: Vec<DeviceSummary>)
    requires
        all_trays_readable(print_payload.devices@, reports@),
    ensures
        r@.len() == print_payload.devices@.len(),
        forall|i: int|
            0 <= i < r@.len() ==> (#[trigger] r@[i])@ == full_summary(
                print_payload.devices@[i],
                report_of(print_payload.devices@[i], reports@),
                history_of(print_payload.devices@[i], tasks_payload.hits@),
            ),
{
    let tasks_by_device = tasks_by_device(tasks_payload);
    let mut summaries: Vec<DeviceSummary> = Vec::new();
    let mut i: usize = 0;
    while i < print_payload.devices.len()
        invariant
            i <= print_payload.devices@.len(),
            summaries@.len() == i,
            all_trays_readable(print_payload.devices@, reports@),
            matches_history(tasks_by_device@, tasks_payload.hits@),
            forall|j: int|
                0 <= j < i ==> (#[trigger] summaries@[j])@ == full_summary(
                    print_payload.devices@[j],
                    report_of(print_payload.devices@[j], reports@),
                    history_of(print_payload.devices@[j], tasks_payload.hits@),
                ),
        decreases print_payload.devices.len() - i,
    {
        let device = &print_payload.devices[i];
        proof {
            if let Some(id) = &device.id {
                assert(tasks_by_device@.contains_key(id@) <==> matching_task(
                    tasks_payload.hits@,
                    id@,
                ) is Some);
            }
        }
        summaries.push(summarize_device(device, &tasks_by_device, reports));
        i = i + 1;
    }
    summaries
}

/// Tells whether the trays of a device can be labelled, and their colors read.
pub fn are_trays_readable(device: &CloudDevice, reports: &Table<PrinterStatus>) -> (r: bool)
    ensures
        r == trays_readable(device.status, report_of(*device, reports@)),
{
    let report = match &device.id {
        Some(id) => reports.get(id.as_str()),
        None => None,
    };
    assert(target(report) == report_of(*device, reports@));
    let fields = DeviceFields::new(device, report);
    if let Some(ams) = fields.ams() {
        if !ams.is_readable() {
            return false;
        }
    }
    if let Some(tray) = fields.external_tray() {
        if !spools::is_color_readable(tray) {
            return false;
        }
    }
    true
}

/// A report of one device changes the summary of no other.
pub proof fn law_reports_stay_with_their_device(
    device: CloudDevice,
    task: Option<(Task, bool)>,
    reports: Map<Seq<char>, PrinterStatus>,
    other: Seq<char>,
    report: PrinterStatus,
)
    requires
        device.id matches Some(id) ==> id@ != other,
    ensures
        full_summary(device, report_of(device, reports.insert(other, report)), task)
            == full_summary(device, report_of(device, reports), task),
{
}

/// A device is summarized from its report as from a status that the report was merged into, as
/// far as the spools of the report are shown.
pub proof fn law_report_is_merged_status(device: CloudDevice, report: PrinterStatus)
    requires
        report.ams matches Some(ams) ==> ams.holds_spool(),
        report.external_tray matches Some(tray) ==> tray.holds_spool(),
    ensures
        device_summary(device, Some(report)) == device_summary(
            CloudDevice { status: models::merged(device.status, report), ..device },
            None,
        ),
{
}

/// A report that shows no spool leaves the spools that are known as they are.
pub proof fn law_reports_without_spools_keep_the_known_ones(
    device: CloudDevice,
    report: PrinterStatus,
)
    ensures
        (report.ams matches Some(ams) ==> !ams.holds_spool()) ==> device_summary(
            device,
            Some(report),
        ).ams_spools == device_summary(device, None).ams_spools,
        (report.external_tray matches Some(tray) ==> !tray.holds_spool()) ==> device_summary(
            device,
            Some(report),
        ).external_spool == device_summary(device, None).external_spool,
{
}

// ---------------------------------------------------------------------------
// What is shown
// ---------------------------------------------------------------------------

/// What the overlay shows of a printer.
#[derive(Debug, Clone)]
pub struct OverlayDevice {
    pub name: String,
    pub model: String,
    pub online: bool,
    pub is_printing: bool,
    pub title: Option<String>,
    pub filename: Option<String>,
    pub task_name: Option<String>,
    pub task_status: Option<String>,
    pub task_source: TaskSource,
    pub mode: Option<String>,
    pub progress: Option<Real>,
    pub progress_source: Option<String>,
    pub total_print_time: Option<String>,
    pub weight: Option<String>,
    pub layer_current: Option<i64>,
    pub layer_total: Option<i64>,
    pub time_remaining: Option<String>,
    pub toolhead_temp: Option<String>,
    pub bed_temp: Option<String>,
    pub fan_speed: Option<String>,
    pub started: Option<String>,
    pub plate: Option<String>,
    pub ams_spools: Vec<Spool>,
    pub external_spool: Option<Spool>,
    pub thumbnail: Option<String>,
}

/// The view of what the overlay shows of a printer.
pub struct OverlayView {
    pub name: Seq<char>,
    pub model: Seq<char>,
    pub online: bool,
    pub is_printing: bool,
    pub title: Option<Seq<char>>,
    pub filename: Option<Seq<char>>,
    pub task_name: Option<Seq<char>>,
    pub task_status: Option<Seq<char>>,
    pub task_source: TaskSource,
    pub mode: Option<Seq<char>>,
    pub progress: Option<Real>,
    pub progress_source: Option<Seq<char>>,
    pub total_print_time: Option<Seq<char>>,
    pub weight: Option<Seq<char>>,
    pub layer_current: Option<i64>,
    pub layer_total: Option<i64>,
    pub time_remaining: Option<Seq<char>>,
    pub toolhead_temp: Option<Seq<char>>,
    pub bed_temp: Option<Seq<char>>,
    pub fan_speed: Option<Seq<char>>,
    pub started: Option<Seq<char>>,
    pub plate: Option<Seq<char>>,
    pub ams_spools: Seq<SpoolView>,
    pub external_spool: Option<SpoolView>,
    pub thumbnail: Option<Seq<char>>,
}

impl View for OverlayDevice {
    type V = OverlayView;

    open spec fn view(&self) -> OverlayView {
        OverlayView {
            name: self.name@,
            model: self.model@,
            online: self.online,
            is_printing: self.is_printing,
            title: text::chars(self.title),
            filename: text::chars(self.filename),
            task_name: text::chars(self.task_name),
            task_status: text::chars(self.task_status),
            task_source: self.task_source,
            mode: text::chars(self.mode),
            progress: self.progress,
            progress_source: text::chars(self.progress_source),
            total_print_time: text::chars(self.total_print_time),
            weight: text::chars(self.weight),
            layer_current: self.layer_current,
            layer_total: self.layer_total,
            time_remaining: text::chars(self.time_remaining),
            toolhead_temp: text::chars(self.toolhead_temp),
            bed_temp: text::chars(self.bed_temp),
            fan_speed: text::chars(self.fan_speed),
            started: text::chars(self.started),
            plate: text::chars(self.plate),
            ams_spools: spools::spool_views(self.ams_spools@),
            external_spool: spool_view(self.external_spool),
            thumbnail: text::chars(self.thumbnail),
        }
    }
}

/// A weight in grams or kilograms, and its number with one digit after the point.
#[derive(Debug)]
pub struct Weight {
    pub kilograms: bool,
    pub amount: String,
}

/// The quantities of one summary, worked out for display.
#[derive(Debug)]
pub struct Figures {
    /// The progress in percent, rounded to a tenth: the reported one where it is finite, or an
    /// estimate where none was reported.
    pub progress: Option<Real>,
    /// The predicted duration in whole seconds.
    pub total_seconds: Option<i64>,
    /// The remaining time in whole seconds.
    pub remaining_seconds: Option<i64>,
    /// The temperature of the toolhead, rounded.
    pub toolhead_degrees: Option<i64>,
    /// The temperature of the bed, rounded.
    pub bed_degrees: Option<i64>,
    /// The fan speed in percent, in decimal.
    pub fan_percent: Option<String>,
    /// The weight, where it is a number.
    pub weight: Option<Weight>,
}

impl Figures {
    /// Whether a figure is there where the summary has the quantity it is worked out from. A
    /// progress is reported, or estimated from a start and a predicted duration.
    pub open spec fn fit(self, device: SummaryView) -> bool {
        &&& self.progress is Some ==> device.progress is Some || (device.start_time is Some
            && device.prediction is Some)
        &&& self.total_seconds is Some <==> device.prediction is Some
        &&& self.remaining_seconds is Some <==> device.remaining_minutes is Some
        &&& self.toolhead_degrees is Some <==> device.toolhead_temperature is Some
        &&& self.bed_degrees is Some <==> device.bed_temperature is Some
        &&& self.fan_percent is Some <==> device.fan_speed is Some
        &&& self.weight is Some ==> device.weight is Some
    }

    /// Tells whether a figure is there where the summary has the quantity it is worked out from.
    pub fn fits(&self, device: &DeviceSummary) -> (r: bool)
        ensures
            r == self.fit(device@),
    {
        (self.progress.is_none() || device.progress.is_some() || (device.start_time.is_some()
            && device.prediction.is_some())) && self.total_seconds.is_some()
            == device.prediction.is_some() && self.remaining_seconds.is_some()
            == device.remaining_minutes.is_some() && self.toolhead_degrees.is_some()
            == device.toolhead_temperature.is_some() && self.bed_degrees.is_some()
            == device.bed_temperature.is_some() && self.fan_percent.is_some()
            == device.fan_speed.is_some() && (self.weight.is_none() || device.weight.is_some())
    }
}

/// A duration, where there is one.
pub open spec fn shown_duration(seconds: Option<i64>) -> Option<Seq<char>> {
    match seconds {
        Some(seconds) => Some(crate::overlay::format::duration_text(seconds as int)),
        None => None,
    }
}

/// A temperature, where there is one.
pub open spec fn shown_temperature(degrees: Option<i64>) -> Option<Seq<char>> {
    match degrees {
        Some(degrees) => Some(text::signed_decimal(degrees as int) + "C"@),
        None => None,
    }
}

fn show_duration(seconds: Option<i64>) -> (r: Option<String>)
    ensures
        text::chars(r) == shown_duration(seconds),
{
    match seconds {
        Some(seconds) => Some(crate::overlay::format::format_seconds(seconds)),
        None => None,
    }
}

fn show_temperature(degrees: Option<i64>) -> (r: Option<String>)
    ensures
        text::chars(r) == shown_temperature(degrees),
{
    match degrees {
        Some(degrees) => Some(crate::overlay::format::format_temperature(degrees)),
        None => None,
    }
}

/// What the overlay shows of a summary and its figures.
pub open spec fn shown(device: SummaryView, figures: Figures) -> OverlayView {
    OverlayView {
        name: device.name,
        model: match models::either(device.product_name, device.model_name) {
            Some(model) => model,
            None => "unknown model"@,
        },
        online: device.online,
        is_printing: device.is_printing,
        title: models::either(device.title, device.task_name),
        filename: device.filename,
        task_name: device.task_name,
        task_status: device.task_status,
        task_source: device.task_source,
        mode: device.print_mode,
        progress: figures.progress,
        progress_source: if figures.progress is None {
            None
        } else if device.progress is Some {
            Some("reported"@)
        } else {
            Some("estimated"@)
        },
        total_print_time: shown_duration(figures.total_seconds),
        weight: match figures.weight {
            Some(weight) => Some(
                crate::overlay::format::weight_text(weight.kilograms, weight.amount@),
            ),
            None => None,
        },
        layer_current: device.layer_current,
        layer_total: device.layer_total,
        time_remaining: shown_duration(figures.remaining_seconds),
        toolhead_temp: shown_temperature(figures.toolhead_degrees),
        bed_temp: shown_temperature(figures.bed_degrees),
        fan_speed: match figures.fan_percent {
            Some(percent) => Some(percent@ + "%"@),
            None => None,
        },
        started: device.start_time,
        plate: device.plate_index,
        ams_spools: device.ams_spools,
        external_spool: device.external_spool,
        thumbnail: device.thumbnail,
    }
}

/// What the overlay shows of a summary and its figures.
pub fn overlay_device(device: DeviceSummary, figures: &Figures) -> (r: OverlayDevice)
    requires
        figures.fit(device@),
    ensures
        r@ == shown(device@, *figures),
{
    let progress_source = match figures.progress {
        Some(_) => Some(
            if device.progress.is_some() {
                "reported".to_owned()
            } else {
                "estimated".to_owned()
            },
        ),
        None => None,
    };
    let model = match device.product_name {
        Some(product_name) => product_name,
        None => match device.model_name {
            Some(model_name) => model_name,
            None => "unknown model".to_owned(),
        },
    };
    let title = match device.title {
        Some(title) => Some(title),
        None => device.task_name.clone(),
    };
    let weight = match &figures.weight {
        Some(weight) => Some(
            crate::overlay::format::format_weight(weight.kilograms, weight.amount.as_str()),
        ),
        None => None,
    };
    let fan_speed = match &figures.fan_percent {
        Some(percent) => Some(crate::overlay::format::format_percent(percent.as_str())),
        None => None,
    };
    OverlayDevice {
        name: device.name,
        model,
        online: device.online,
        is_printing: device.is_printing,
        title,
        filename: device.filename,
        task_name: device.task_name,
        task_status: device.task_status,
        task_source: device.task_source,
        mode: device.print_mode,
        progress: figures.progress,
        progress_source,
        total_print_time: show_duration(figures.total_seconds),
        weight,
        layer_current: device.layer_current,
        layer_total: device.layer_total,
        time_remaining: show_duration(figures.remaining_seconds),
        toolhead_temp: show_temperature(figures.toolhead_degrees),
        bed_temp: show_temperature(figures.bed_degrees),
        fan_speed,
        started: device.start_time,
        plate: device.plate_index,
        ams_spools: device.ams_spools,
        external_spool: device.external_spool,
        thumbnail: device.thumbnail,
    }
}

/// What the overlay shows of each summary and its figures, in order.
pub fn overlay_devices(summaries: Vec<DeviceSummary>, figures: Vec<Figures>) -> (r: Vec<
    OverlayDevice,
>)
    requires
        figures@.len() == summaries@.len(),
        forall|i: int|
            0 <= i < summaries@.len() ==> (#[trigger] figures@[i]).fit(summaries@[i]@),
    ensures
        r@.len() == summaries@.len(),
        forall|i: int|
            0 <= i < r@.len() ==> (#[trigger] r@[i])@ == shown(summaries@[i]@, figures@[i]),
{
    let mut devices: Vec<OverlayDevice> = Vec::new();
    let ghost all = summaries@;
    for device in it: summaries
        invariant
            it.seq() == all,
            figures@.len() == all.len(),
            devices@.len() == it.index(),
            forall|i: int| 0 <= i < all.len() ==> (#[trigger] figures@[i]).fit(all[i]@),
            forall|i: int|
                0 <= i < devices@.len() ==> (#[trigger] devices@[i])@ == shown(
                    all[i]@,
                    figures@[i],
                ),
    {
        let i = devices.len();
        assert(figures@[i as int].fit(all[i as int]@));
        devices.push(overlay_device(device, &figures[i]));
    }
    devices
}

/// What an estimate of the progress rests on: the seconds since the start, and the predicted
/// duration.
#[derive(Debug)]
pub struct Estimate {
    pub elapsed_seconds: i64,
    pub prediction: Real,
}

/// What an estimate rests on for a print that began at `start`, where the progress is not
/// reported and the duration is predicted.
pub fn estimate_since(
    start: Option<Instant>,
    progress: Option<Real>,
    prediction: Option<Real>,
    now: Instant,
) -> (r: Option<Estimate>)
    requires
        now.valid(),
        start matches Some(at) ==> at.valid(),
    ensures
        r is Some <==> progress is None && start is Some && prediction is Some,
        r matches Some(estimate) ==> {
            &&& estimate.elapsed_seconds == crate::time::seconds_since(
                now.secs,
                now.nanos,
                start->0.secs,
                start->0.nanos,
            )
            &&& estimate.prediction == prediction->0
        },
{
    if progress.is_some() {
        return None;
    }
    match (start, prediction) {
        (Some(start), Some(prediction)) => Some(
            Estimate { elapsed_seconds: now.seconds_since(start), prediction },
        ),
        _ => None,
    }
}

/// What an estimate of the progress of `device` rests on, where one can be made.
pub fn estimated_progress(device: &DeviceSummary, now: Instant) -> (r: Option<Estimate>)
    requires
        now.valid(),
    ensures
        r is Some <==> device.progress is None && instant_of(device.start_time) is Some
            && device.prediction is Some,
        r matches Some(estimate) ==> {
            let start = instant_of(device.start_time)->0;
            &&& estimate.elapsed_seconds == crate::time::seconds_since(
                now.secs,
                now.nanos,
                start.secs,
                start.nanos,
            )
            &&& estimate.prediction == device.prediction->0
        },
{
    estimate_since(read_instant(&device.start_time), device.progress, device.prediction, now)
}

// ---------------------------------------------------------------------------
// What every summary and every device that is shown keeps to
// ---------------------------------------------------------------------------

/// Whether `value` is what was reported, where it was, and else what was known before.
pub open spec fn is_latest<T>(value: Option<T>, reported: Option<T>, known: Option<T>) -> bool {
    &&& reported is Some ==> value == reported
    &&& reported is None ==> value == known
}
/// What the overlay shows of a device that reported, without any history, field by field: what the
/// device reported of the field, and where it did not, what was known of it.
pub proof fn law_reported_fields_are_shown(
    device: CloudDevice,
    report: PrinterStatus,
    figures: Figures,
)
    ensures
        ({
            let seen = shown(full_summary(device, Some(report), None), figures);
            &&& is_latest(seen.title, text::chars(report.task_name), text::chars(device.status.task_name))
            &&& is_latest(seen.task_name, text::chars(report.task_name), text::chars(device.status.task_name))
            &&& is_latest(seen.filename, text::chars(report.filename), text::chars(device.status.filename))
            &&& is_latest(seen.task_status, text::chars(report.status), text::chars(device.status.status))
            &&& is_latest(seen.started, text::chars(report.start_time), text::chars(device.status.start_time))
            &&& is_latest(seen.layer_current, report.layer_current, device.status.layer_current)
            &&& is_latest(seen.layer_total, report.layer_total, device.status.layer_total)
        }),
{
}

/// What the overlay shows of a device that did not report, without any history, field by field: what
/// is known of the field.
pub proof fn law_known_fields_are_shown(device: CloudDevice, figures: Figures)
    ensures
        ({
            let seen = shown(full_summary(device, None, None), figures);
            &&& seen.title == text::chars(device.status.task_name)
            &&& seen.task_name == text::chars(device.status.task_name)
            &&& seen.filename == text::chars(device.status.filename)
            &&& seen.task_status == text::chars(device.status.status)
            &&& seen.started == text::chars(device.status.start_time)
            &&& seen.layer_current == device.status.layer_current
            &&& seen.layer_total == device.status.layer_total
        }),
{
}

/// What is known of a device that reported, field by field: what the device reported of the field,
/// and where it did not, what was known of it.
pub proof fn law_reported_fields_are_summarized(device: CloudDevice, report: PrinterStatus)
    ensures
        ({
            let own = full_summary(device, Some(report), None);
            let silent = full_summary(device, None, None);
            &&& is_latest(own.task_id, text::chars(report.task_id), text::chars(device.status.task_id))
            &&& silent.task_id == text::chars(device.status.task_id)
            &&& is_latest(own.task_name, text::chars(report.task_name), text::chars(device.status.task_name))
            &&& silent.task_name == text::chars(device.status.task_name)
            &&& is_latest(own.title, text::chars(report.task_name), text::chars(device.status.task_name))
            &&& silent.title == text::chars(device.status.task_name)
            &&& is_latest(own.filename, text::chars(report.filename), text::chars(device.status.filename))
            &&& silent.filename == text::chars(device.status.filename)
            &&& is_latest(own.task_status, text::chars(report.status), text::chars(device.status.status))
            &&& silent.task_status == text::chars(device.status.status)
            &&& is_latest(own.start_time, text::chars(report.start_time), text::chars(device.status.start_time))
            &&& silent.start_time == text::chars(device.status.start_time)
            &&& is_latest(own.weight, text::chars(report.weight), text::chars(device.status.weight))
            &&& silent.weight == text::chars(device.status.weight)
            &&& is_latest(own.prediction, report.prediction_seconds, device.status.prediction_seconds)
            &&& silent.prediction == device.status.prediction_seconds
            &&& is_latest(own.progress, report.progress, device.status.progress)
            &&& silent.progress == device.status.progress
            &&& is_latest(own.layer_current, report.layer_current, device.status.layer_current)
            &&& silent.layer_current == device.status.layer_current
            &&& is_latest(own.layer_total, report.layer_total, device.status.layer_total)
            &&& silent.layer_total == device.status.layer_total
            &&& is_latest(own.remaining_minutes, report.remaining_minutes, device.status.remaining_minutes)
            &&& silent.remaining_minutes == device.status.remaining_minutes
            &&& is_latest(own.toolhead_temperature, report.toolhead_temperature, device.status.toolhead_temperature)
            &&& silent.toolhead_temperature == device.status.toolhead_temperature
            &&& is_latest(own.bed_temperature, report.bed_temperature, device.status.bed_temperature)
            &&& silent.bed_temperature == device.status.bed_temperature
            &&& is_latest(own.fan_speed, report.fan_speed, device.status.fan_speed)
            &&& silent.fan_speed == device.status.fan_speed
            &&& own.task_source == TaskSource::PrinterStatus
            &&& silent.task_source == TaskSource::PrinterStatus
            &&& own.thumbnail is None && silent.thumbnail is None
            &&& own.plate_index is None && silent.plate_index is None
        }),
{
}

/// A device is shown by its own name, product and state, whatever it reported: without a name it is a
/// `Bambu printer`, its product counts before its model, and it is online unless it is known not to
/// be.
pub proof fn law_device_is_shown_as_itself(
    device: CloudDevice,
    report: Option<PrinterStatus>,
    figures: Figures,
)
    ensures
        ({
            let seen = shown(full_summary(device, report, None), figures);
            &&& device.name matches Some(name) ==> seen.name == name@
            &&& device.name is None ==> seen.name == "Bambu printer"@
            &&& device.product_name matches Some(product) ==> seen.model == product@
            &&& device.product_name is None ==> (device.model_name matches Some(model)
                ==> seen.model == model@)
            &&& device.product_name is None && device.model_name is None ==> seen.model
                == "unknown model"@
            &&& device.online matches Some(online) ==> seen.online == online
            &&& device.online is None ==> seen.online
            &&& seen.task_source == TaskSource::PrinterStatus
            &&& seen.thumbnail is None
            &&& seen.plate is None
        }),
{
}

/// Whether a status has one of the fields that tell of a print.
pub open spec fn has_print_field(status: PrinterStatus) -> bool {
    status.task_name is Some || status.task_id is Some || status.status is Some
        || status.start_time is Some || status.prediction_seconds is Some || status.progress is Some
        || status.filename is Some || status.layer_current is Some || status.layer_total is Some
}

/// A device prints where what it reported, or what is known of it, tells of a print; and no report
/// takes a print away.
pub proof fn law_print_is_told_by_its_fields(
    device: CloudDevice,
    report: PrinterStatus,
    figures: Figures,
)
    ensures
        shown(full_summary(device, Some(report), None), figures).is_printing <==> has_print_field(
            report,
        ) || has_print_field(device.status),
        shown(full_summary(device, None, None), figures).is_printing <==> has_print_field(
            device.status,
        ),
{
}

/// The four levels of speed have their names, the slowest first, and any other level is named by its
/// number. The level that the device reported counts before the one that is known.
pub proof fn law_speed_is_named(
    device: CloudDevice,
    report: PrinterStatus,
    figures: Figures,
    level: i64,
)
    ensures
        mode_name(1) == "Silent"@,
        mode_name(2) == "Standard"@,
        mode_name(3) == "Sport"@,
        mode_name(4) == "Ludicrous"@,
        level < 1 || level > 4 ==> mode_name(level) == "Level "@ + text::signed_decimal(
            level as int,
        ),
        report.speed_level == Some(level) ==> shown(
            full_summary(device, Some(report), None),
            figures,
        ).mode == Some(mode_name(level)),
        report.speed_level is None && device.status.speed_level == Some(level) ==> shown(
            full_summary(device, Some(report), None),
            figures,
        ).mode == Some(mode_name(level)),
        device.status.speed_level == Some(level) ==> shown(
            full_summary(device, None, None),
            figures,
        ).mode == Some(mode_name(level)),
        report.speed_level is None && device.status.speed_level is None ==> shown(
            full_summary(device, Some(report), None),
            figures,
        ).mode is None,
        device.status.speed_level is None ==> shown(
            full_summary(device, None, None),
            figures,
        ).mode is None,
{
}

/// The spools of the report are shown where it tells of one, and else the known ones: those of the
/// material systems, and the external one for itself.
pub proof fn law_spools_of_the_report_are_shown(
    device: CloudDevice,
    report: PrinterStatus,
    figures: Figures,
)
    ensures
        ({
            let seen = shown(full_summary(device, Some(report), None), figures);
            let silent = shown(full_summary(device, None, None), figures);
            &&& report.ams is Some && report.ams->0.holds_spool() ==> seen.ams_spools
                == spools::loaded_spools(report.ams)
            &&& report.ams is None || !report.ams->0.holds_spool() ==> seen.ams_spools
                == spools::loaded_spools(device.status.ams)
            &&& report.external_tray is Some && report.external_tray->0.holds_spool()
                ==> seen.external_spool == spools::outside_spool(report.external_tray)
            &&& report.external_tray is None || !report.external_tray->0.holds_spool()
                ==> seen.external_spool == spools::outside_spool(device.status.external_tray)
            &&& silent.ams_spools == spools::loaded_spools(device.status.ams)
            &&& silent.external_spool == spools::outside_spool(device.status.external_tray)
        }),
{
}

/// What the overlay shows of a summary is what the summary has, field by field; and each quantity is
/// that of its own figure.
pub proof fn law_shown_is_what_is_known(device: SummaryView, figures: Figures)
    ensures
        ({
            let seen = shown(device, figures);
            &&& seen.name == device.name
            &&& device.product_name is Some ==> Some(seen.model) == device.product_name
            &&& device.product_name is None && device.model_name is Some ==> Some(seen.model)
                == device.model_name
            &&& seen.online == device.online
            &&& seen.is_printing == device.is_printing
            &&& device.title is Some ==> seen.title == device.title
            &&& device.title is None ==> seen.title == device.task_name
            &&& seen.filename == device.filename
            &&& seen.task_name == device.task_name
            &&& seen.task_status == device.task_status
            &&& seen.task_source == device.task_source
            &&& seen.mode == device.print_mode
            &&& seen.layer_current == device.layer_current
            &&& seen.layer_total == device.layer_total
            &&& seen.started == device.start_time
            &&& seen.plate == device.plate_index
            &&& seen.ams_spools == device.ams_spools
            &&& seen.external_spool == device.external_spool
            &&& seen.thumbnail == device.thumbnail
            &&& seen.progress == figures.progress
            &&& figures.progress is None ==> seen.progress_source is None
            &&& figures.progress is Some && device.progress is Some ==> seen.progress_source
                == Some("reported"@)
            &&& figures.progress is Some && device.progress is None ==> seen.progress_source
                == Some("estimated"@)
            &&& figures.total_seconds matches Some(seconds) ==> seen.total_print_time == Some(
                crate::overlay::format::duration_text(seconds as int),
            )
            &&& figures.total_seconds is None ==> seen.total_print_time is None
            &&& figures.remaining_seconds matches Some(seconds) ==> seen.time_remaining == Some(
                crate::overlay::format::duration_text(seconds as int),
            )
            &&& figures.remaining_seconds is None ==> seen.time_remaining is None
            &&& figures.toolhead_degrees matches Some(degrees) ==> seen.toolhead_temp == Some(
                text::signed_decimal(degrees as int).push('C'),
            )
            &&& figures.toolhead_degrees is None ==> seen.toolhead_temp is None
            &&& figures.bed_degrees matches Some(degrees) ==> seen.bed_temp == Some(
                text::signed_decimal(degrees as int).push('C'),
            )
            &&& figures.bed_degrees is None ==> seen.bed_temp is None
            &&& figures.fan_percent matches Some(percent) ==> seen.fan_speed == Some(
                percent@.push('%'),
            )
            &&& figures.fan_percent is None ==> seen.fan_speed is None
            &&& figures.weight matches Some(weight) ==> seen.weight == Some(
                crate::overlay::format::weight_text(weight.kilograms, weight.amount@),
            )
            &&& figures.weight is None ==> seen.weight is None
        }),
{
    reveal_strlit("C");
    reveal_strlit("%");
    if let Some(degrees) = figures.toolhead_degrees {
        let number = text::signed_decimal(degrees as int);
        assert(number + "C"@ =~= number.push('C'));
    }
    if let Some(degrees) = figures.bed_degrees {
        let number = text::signed_decimal(degrees as int);
        assert(number + "C"@ =~= number.push('C'));
    }
    if let Some(percent) = figures.fan_percent {
        assert(percent@ + "%"@ =~= percent@.push('%'));
    }
}

/// A figure is worked out exactly where the summary has its quantity; a progress and a weight may be
/// left out, and a progress is there without being reported only for a print that has a start and a
/// predicted duration.
pub proof fn law_figures_are_those_of_the_summary(device: SummaryView, figures: Figures)
    requires
        figures.fit(device),
    ensures
        figures.total_seconds is Some == device.prediction is Some,
        figures.remaining_seconds is Some == device.remaining_minutes is Some,
        figures.toolhead_degrees is Some == device.toolhead_temperature is Some,
        figures.bed_degrees is Some == device.bed_temperature is Some,
        figures.fan_percent is Some == device.fan_speed is Some,
        device.weight is None ==> figures.weight is None,
        device.progress is None && (device.start_time is None || device.prediction is None)
            ==> figures.progress is None,
{
}

/// A print that the device tells of is completed from the history: what the device tells stays, and
/// what it does not is taken from the field of the task that it belongs to.
pub proof fn law_history_completes_a_print(
    device: CloudDevice,
    report: Option<PrinterStatus>,
    task: Task,
    active: bool,
)
    requires
        full_summary(device, report, None).is_printing,
    ensures
        ({
            let own = full_summary(device, report, None);
            let full = full_summary(device, report, Some((task, active)));
            &&& is_latest(full.task_id, own.task_id, text::chars(task.id))
            &&& is_latest(full.filename, own.filename, text::chars(task.plate_name))
            &&& is_latest(full.task_status, own.task_status, text::chars(task.status))
            &&& is_latest(full.start_time, own.start_time, text::chars(task.start_time))
            &&& is_latest(full.thumbnail, own.thumbnail, text::chars(task.cover))
            &&& is_latest(full.weight, own.weight, text::chars(task.weight))
            &&& is_latest(full.plate_index, own.plate_index, text::chars(task.plate_index))
            &&& is_latest(full.prediction, own.prediction, task.cost_time)
            &&& own.task_name is Some ==> full.task_name == own.task_name
            &&& own.task_name is None ==> full.task_name == Some(title_of(task))
            &&& own.title is Some ==> full.title == own.title
            &&& own.title is None ==> full.title == Some(title_of(task))
            &&& full.name == own.name
            &&& full.model_name == own.model_name
            &&& full.product_name == own.product_name
            &&& full.online == own.online
            &&& full.progress == own.progress
            &&& full.layer_current == own.layer_current
            &&& full.layer_total == own.layer_total
            &&& full.remaining_minutes == own.remaining_minutes
            &&& full.toolhead_temperature == own.toolhead_temperature
            &&& full.bed_temperature == own.bed_temperature
            &&& full.fan_speed == own.fan_speed
            &&& full.print_mode == own.print_mode
            &&& full.ams_spools == own.ams_spools
            &&& full.external_spool == own.external_spool
            &&& full.is_printing == own.is_printing
            &&& full.task_source == TaskSource::PrinterStatusWithTaskHistory
        }),
{
}

/// The title of a task: its own, else that of its design, else its translation, else `unknown task`.
pub open spec fn title_of(task: Task) -> Seq<char> {
    if task.title is Some {
        task.title->0@
    } else if task.design_title is Some {
        task.design_title->0@
    } else if task.translated_title is Some {
        task.translated_title->0@
    } else {
        "unknown task"@
    }
}

/// A device that tells of no print is shown by its task of the history, field by field, and by
/// nothing else. Where the task runs, the device prints.
pub proof fn law_history_stands_in_for_a_print(
    device: CloudDevice,
    report: Option<PrinterStatus>,
    task: Task,
    active: bool,
)
    requires
        !full_summary(device, report, None).is_printing,
    ensures
        ({
            let full = full_summary(device, report, Some((task, active)));
            &&& task.device_name matches Some(name) ==> full.name == name@
            &&& task.device_name is None ==> full.name == "Bambu printer"@
            &&& full.model_name == text::chars(task.device_model)
            &&& full.product_name is None
            &&& full.online
            &&& full.task_id == text::chars(task.id)
            &&& full.task_name == Some(title_of(task))
            &&& full.title == Some(title_of(task))
            &&& full.filename == text::chars(task.plate_name)
            &&& full.task_status == text::chars(task.status)
            &&& full.start_time == text::chars(task.start_time)
            &&& full.prediction == task.cost_time
            &&& full.thumbnail == text::chars(task.cover)
            &&& full.weight == text::chars(task.weight)
            &&& full.plate_index == text::chars(task.plate_index)
            &&& full.is_printing == active
            &&& active ==> full.task_source == TaskSource::TaskHistoryFallback
            &&& !active ==> full.task_source == TaskSource::TaskHistory
            &&& full.progress is None
            &&& full.layer_current is None
            &&& full.layer_total is None
            &&& full.remaining_minutes is None
            &&& full.toolhead_temperature is None
            &&& full.bed_temperature is None
            &&& full.fan_speed is None
            &&& full.print_mode is None
            &&& full.ams_spools.len() == 0
            &&& full.external_spool is None
        }),
{
}

/// A task without a readable start does not run, and one with a start and no end does. One with both
/// runs where they lie no more than a minute apart, either way, or where its status says so, in
/// whatever case.
pub proof fn law_task_runs_until_it_ends(task: Task)
    ensures
        ({
            let start = instant_of(task.start_time);
            let end = instant_of(task.end_time);
            let seconds = crate::time::seconds_since(
                end->0.secs,
                end->0.nanos,
                start->0.secs,
                start->0.nanos,
            );
            let said = task.status is Some && (text::lowered(task.status->0@) == "active"@
                || text::lowered(task.status->0@) == "running"@ || text::lowered(task.status->0@)
                == "printing"@);
            &&& start is None ==> !task_runs(task)
            &&& start is Some && end is None ==> task_runs(task)
            &&& start is Some && end is Some ==> (task_runs(task) <==> said || (seconds <= 60
                && seconds >= -60))
        }),
        task.start_time matches Some(start) ==> instant_of(task.start_time)
            == crate::overlay::format::bambu_datetime(start@),
        task.start_time is None ==> instant_of(task.start_time) is None,
{
}

/// Of two tasks of a device, the one that runs stands for the device rather than the one that does
/// not; of two that run, or that do not, the one that began later. A task whose start is not known
/// began before all others.
pub proof fn law_running_and_later_tasks_come_first(a: Task, b: Task)
    ensures
        task_runs(a) && !task_runs(b) ==> ranks_below(b, a) && !ranks_below(a, b),
        task_runs(a) == task_runs(b) ==> (ranks_below(a, b) <==> {
            let begun = instant_of(a.start_time);
            let later = instant_of(b.start_time);
            ||| begun is Some && later is Some && begun->0.secs < later->0.secs
            ||| begun is None && later is Some && later->0.secs > i64::MIN
        }),
{
}

/// The task that stands for a device is one of its own, of which none ranks higher, and there is one
/// wherever the history has a task of the device.
pub proof fn law_task_of_a_device_is_its_own(device: CloudDevice, hits: Seq<Task>, i: int)
    requires
        0 <= i < hits.len(),
    ensures
        device.id is None ==> history_of(device, hits) is None,
        device.id is Some && hits[i].device_id is Some && hits[i].device_id->0@ == device.id->0@
            ==> {
            &&& history_of(device, hits) matches Some((task, active))
            &&& !ranks_below(task, hits[i])
        },
        history_of(device, hits) matches Some((task, active)) ==> {
            &&& hits.contains(task)
            &&& task.device_id is Some
            &&& task.device_id->0@ == device.id->0@
            &&& active == task_runs(task)
        },
{
    if let Some(id) = device.id {
        law_best_hit(hits, id@, hits.len() as int);
    }
}

/// A device is summarized by the report that came under its own id, if one did.
pub proof fn law_report_of_a_device_is_its_own(
    device: CloudDevice,
    reports: Map<Seq<char>, PrinterStatus>,
)
    ensures
        device.id is None ==> report_of(device, reports) is None,
        device.id matches Some(id) ==> {
            &&& reports.contains_key(id@) ==> report_of(device, reports) == Some(reports[id@])
            &&& !reports.contains_key(id@) ==> report_of(device, reports) is None
        },
{
}

/// Each source of a task has its name.
pub proof fn law_sources_are_named()
    ensures
        TaskSource::PrinterStatus.name() == "printer status"@,
        TaskSource::PrinterStatusWithTaskHistory.name() == "printer status + task history"@,
        TaskSource::TaskHistory.name() == "task history"@,
        TaskSource::TaskHistoryFallback.name() == "task history fallback"@,
{
}

/// The view of a summary is what its fields hold.
pub proof fn law_view_of_a_summary_is_what_it_holds(device: DeviceSummary)
    ensures
        device@.name == device.name@,
        device.model_name matches Some(value) ==> device@.model_name == Some(value@),
        device.model_name is None ==> device@.model_name is None,
        device.product_name matches Some(value) ==> device@.product_name == Some(value@),
        device.product_name is None ==> device@.product_name is None,
        device.task_id matches Some(value) ==> device@.task_id == Some(value@),
        device.task_id is None ==> device@.task_id is None,
        device.task_name matches Some(value) ==> device@.task_name == Some(value@),
        device.task_name is None ==> device@.task_name is None,
        device.title matches Some(value) ==> device@.title == Some(value@),
        device.title is None ==> device@.title is None,
        device.filename matches Some(value) ==> device@.filename == Some(value@),
        device.filename is None ==> device@.filename is None,
        device.task_status matches Some(value) ==> device@.task_status == Some(value@),
        device.task_status is None ==> device@.task_status is None,
        device.start_time matches Some(value) ==> device@.start_time == Some(value@),
        device.start_time is None ==> device@.start_time is None,
        device.thumbnail matches Some(value) ==> device@.thumbnail == Some(value@),
        device.thumbnail is None ==> device@.thumbnail is None,
        device.weight matches Some(value) ==> device@.weight == Some(value@),
        device.weight is None ==> device@.weight is None,
        device.print_mode matches Some(value) ==> device@.print_mode == Some(value@),
        device.print_mode is None ==> device@.print_mode is None,
        device.plate_index matches Some(value) ==> device@.plate_index == Some(value@),
        device.plate_index is None ==> device@.plate_index is None,
        device@.online == device.online,
        device@.prediction == device.prediction,
        device@.progress == device.progress,
        device@.layer_current == device.layer_current,
        device@.layer_total == device.layer_total,
        device@.remaining_minutes == device.remaining_minutes,
        device@.toolhead_temperature == device.toolhead_temperature,
        device@.bed_temperature == device.bed_temperature,
        device@.fan_speed == device.fan_speed,
        device@.is_printing == device.is_printing,
        device@.task_source == device.task_source,
        device@.ams_spools == spools::spool_views(device.ams_spools@),
        device.external_spool matches Some(spool) ==> device@.external_spool == Some(spool@),
        device.external_spool is None ==> device@.external_spool is None,
{
}

/// The view of what is shown is what its fields hold.
pub proof fn law_view_of_what_is_shown_is_what_it_holds(device: OverlayDevice)
    ensures
        device@.name == device.name@,
        device@.model == device.model@,
        device.title matches Some(value) ==> device@.title == Some(value@),
        device.title is None ==> device@.title is None,
        device.filename matches Some(value) ==> device@.filename == Some(value@),
        device.filename is None ==> device@.filename is None,
        device.task_name matches Some(value) ==> device@.task_name == Some(value@),
        device.task_name is None ==> device@.task_name is None,
        device.task_status matches Some(value) ==> device@.task_status == Some(value@),
        device.task_status is None ==> device@.task_status is None,
        device.mode matches Some(value) ==> device@.mode == Some(value@),
        device.mode is None ==> device@.mode is None,
        device.progress_source matches Some(value) ==> device@.progress_source == Some(value@),
        device.progress_source is None ==> device@.progress_source is None,
        device.total_print_time matches Some(value) ==> device@.total_print_time == Some(value@),
        device.total_print_time is None ==> device@.total_print_time is None,
        device.weight matches Some(value) ==> device@.weight == Some(value@),
        device.weight is None ==> device@.weight is None,
        device.time_remaining matches Some(value) ==> device@.time_remaining == Some(value@),
        device.time_remaining is None ==> device@.time_remaining is None,
        device.toolhead_temp matches Some(value) ==> device@.toolhead_temp == Some(value@),
        device.toolhead_temp is None ==> device@.toolhead_temp is None,
        device.bed_temp matches Some(value) ==> device@.bed_temp == Some(value@),
        device.bed_temp is None ==> device@.bed_temp is None,
        device.fan_speed matches Some(value) ==> device@.fan_speed == Some(value@),
        device.fan_speed is None ==> device@.fan_speed is None,
        device.started matches Some(value) ==> device@.started == Some(value@),
        device.started is None ==> device@.started is None,
        device.plate matches Some(value) ==> device@.plate == Some(value@),
        device.plate is None ==> device@.plate is None,
        device.thumbnail matches Some(value) ==> device@.thumbnail == Some(value@),
        device.thumbnail is None ==> device@.thumbnail is None,
        device@.online == device.online,
        device@.is_printing == device.is_printing,
        device@.task_source == device.task_source,
        device@.progress == device.progress,
        device@.layer_current == device.layer_current,
        device@.layer_total == device.layer_total,
        device@.ams_spools == spools::spool_views(device.ams_spools@),
        device.external_spool matches Some(spool) ==> device@.external_spool == Some(spool@),
        device.external_spool is None ==> device@.external_spool is None,
{
}

/// Whether two texts that may be absent are the same.
pub open spec fn same_text(a: Option<String>, b: Option<String>) -> bool {
    &&& a is Some <==> b is Some
    &&& a is Some ==> a->0@ == b->0@
}

/// Whether `value` is the text that was reported, where one was, and else the one that was known.
pub open spec fn is_latest_text(
    value: Option<String>,
    reported: Option<String>,
    known: Option<String>,
) -> bool {
    &&& reported is Some ==> same_text(value, reported)
    &&& reported is None ==> same_text(value, known)
}

/// What [`overlay_device`] gives holds, field by field, what the summary and the figures hold.
pub proof fn law_overlay_device_keeps_each_field(
    device: DeviceSummary,
    figures: &Figures,
    r: OverlayDevice,
)
    requires
        call_ensures(overlay_device, (device, figures), r),
    ensures
        r.name@ == device.name@,
        device.product_name matches Some(product) ==> r.model@ == product@,
        device.product_name is None ==> (device.model_name matches Some(model) ==> r.model@
            == model@),
        device.product_name is None && device.model_name is None ==> r.model@ == "unknown model"@,
        r.online == device.online,
        r.is_printing == device.is_printing,
        is_latest_text(r.title, device.title, device.task_name),
        same_text(r.filename, device.filename),
        same_text(r.task_name, device.task_name),
        same_text(r.task_status, device.task_status),
        r.task_source == device.task_source,
        same_text(r.mode, device.print_mode),
        r.progress == figures.progress,
        r.progress_source is Some <==> figures.progress is Some,
        r.layer_current == device.layer_current,
        r.layer_total == device.layer_total,
        same_text(r.started, device.start_time),
        same_text(r.plate, device.plate_index),
        same_text(r.thumbnail, device.thumbnail),
        r.ams_spools@.len() == device.ams_spools@.len(),
        forall|i: int|
            0 <= i < r.ams_spools@.len() ==> {
                &&& (#[trigger] r.ams_spools@[i]).label@ == device.ams_spools@[i].label@
                &&& r.ams_spools@[i].material@ == device.ams_spools@[i].material@
                &&& r.ams_spools@[i].color@ == device.ams_spools@[i].color@
            },
        r.external_spool is Some <==> device.external_spool is Some,
        r.external_spool matches Some(spool) ==> {
            &&& spool.label@ == device.external_spool->0.label@
            &&& spool.material@ == device.external_spool->0.material@
            &&& spool.color@ == device.external_spool->0.color@
        },
        figures.total_seconds is Some <==> r.total_print_time is Some,
        figures.remaining_seconds is Some <==> r.time_remaining is Some,
        figures.toolhead_degrees is Some <==> r.toolhead_temp is Some,
        figures.bed_degrees is Some <==> r.bed_temp is Some,
        figures.fan_percent is Some <==> r.fan_speed is Some,
        figures.weight is Some <==> r.weight is Some,
{
    assert(spools::spool_views(r.ams_spools@).len() == spools::spool_views(
        device.ams_spools@,
    ).len());
    assert forall|i: int| 0 <= i < r.ams_spools@.len() implies (#[trigger] r.ams_spools@[i])@
        == device.ams_spools@[i]@ by {
        assert(spools::spool_views(r.ams_spools@)[i] == r.ams_spools@[i]@);
        assert(spools::spool_views(device.ams_spools@)[i] == device.ams_spools@[i]@);
    }
}

/// What [`fill_missing_from_task`] leaves: what the summary has, and what it lacks from the field of
/// the task that it belongs to.
pub proof fn law_filling_takes_what_is_missing(summary: &mut DeviceSummary, task: &Task)
    requires
        call_ensures(fill_missing_from_task, (summary, task), ()),
    ensures
        is_latest_text(final(summary).task_id, old(summary).task_id, task.id),
        is_latest_text(final(summary).filename, old(summary).filename, task.plate_name),
        is_latest_text(final(summary).task_status, old(summary).task_status, task.status),
        is_latest_text(final(summary).start_time, old(summary).start_time, task.start_time),
        is_latest_text(final(summary).thumbnail, old(summary).thumbnail, task.cover),
        is_latest_text(final(summary).weight, old(summary).weight, task.weight),
        is_latest_text(final(summary).plate_index, old(summary).plate_index, task.plate_index),
        is_latest(final(summary).prediction, old(summary).prediction, task.cost_time),
        old(summary).title is Some ==> same_text(final(summary).title, old(summary).title),
        old(summary).title is None ==> final(summary).title is Some && final(summary).title->0@
            == title_of(*task),
        old(summary).task_name is Some ==> same_text(
            final(summary).task_name,
            old(summary).task_name,
        ),
        old(summary).task_name is None ==> final(summary).task_name is Some && final(summary).task_name->0@ == title_of(*task),
        final(summary).name@ == old(summary).name@,
        final(summary).online == old(summary).online,
        final(summary).progress == old(summary).progress,
        final(summary).layer_current == old(summary).layer_current,
        final(summary).layer_total == old(summary).layer_total,
        final(summary).remaining_minutes == old(summary).remaining_minutes,
        final(summary).toolhead_temperature == old(summary).toolhead_temperature,
        final(summary).bed_temperature == old(summary).bed_temperature,
        final(summary).fan_speed == old(summary).fan_speed,
        final(summary).is_printing == old(summary).is_printing,
        same_text(final(summary).print_mode, old(summary).print_mode),
        old(summary).task_source == TaskSource::PrinterStatus ==> final(summary).task_source
            == TaskSource::PrinterStatusWithTaskHistory,
        old(summary).task_source != TaskSource::PrinterStatus ==> final(summary).task_source == old(summary).task_source,
{
    let after = final(summary)@;
    let before = old(summary)@;
    assert(after == filled(before, *task));
}

/// Each device is summarized, in order, by its own report and its own task: one that tells of a print
/// by that, and one that tells of none by the task that stands for it, where the history has one.
pub proof fn law_devices_are_summarized_in_order(
    print_payload: &CurrentPrintResponse,
    tasks_payload: &TasksResponse,
    reports: &Table<PrinterStatus>,
    r: Vec<DeviceSummary>,
    i: int,
)
    requires
        call_ensures(summarize_devices, (print_payload, tasks_payload, reports), r),
        0 <= i < print_payload.devices@.len(),
    ensures
        r@.len() == print_payload.devices@.len(),
        ({
            let device = print_payload.devices@[i];
            let own = r@[i];
            let report = report_of(device, reports@);
            let prints = has_print_field(device.status) || (report is Some && has_print_field(
                report->0,
            ));
            let reported = if report is Some {
                report->0
            } else {
                models::empty_status()
            };
            let history = history_of(device, tasks_payload.hits@);
            &&& prints ==> {
                &&& own.is_printing
                &&& device.name is Some ==> own.name@ == device.name->0@
                &&& device.online is Some ==> own.online == device.online->0
                &&& is_latest(own.progress, reported.progress, device.status.progress)
                &&& is_latest(own.layer_current, reported.layer_current, device.status.layer_current)
                &&& is_latest(own.layer_total, reported.layer_total, device.status.layer_total)
                &&& is_latest(
                    own.remaining_minutes,
                    reported.remaining_minutes,
                    device.status.remaining_minutes,
                )
                &&& is_latest(
                    own.toolhead_temperature,
                    reported.toolhead_temperature,
                    device.status.toolhead_temperature,
                )
                &&& is_latest(
                    own.bed_temperature,
                    reported.bed_temperature,
                    device.status.bed_temperature,
                )
                &&& is_latest(own.fan_speed, reported.fan_speed, device.status.fan_speed)
                &&& reported.task_name is Some ==> same_text(own.title, reported.task_name)
                &&& history is None ==> own.task_source == TaskSource::PrinterStatus
                &&& history is Some ==> own.task_source == TaskSource::PrinterStatusWithTaskHistory
            }
            &&& !prints && history is None ==> !own.is_printing
            &&& !prints ==> (history matches Some((task, active)) ==> {
                &&& own.is_printing == active
                &&& own.title is Some && own.title->0@ == title_of(task)
                &&& same_text(own.task_status, task.status)
                &&& same_text(own.start_time, task.start_time)
                &&& own.prediction == task.cost_time
                &&& own.progress is None
            })
        }),
{
    let device = print_payload.devices@[i];
    assert(r@[i]@ == full_summary(
        device,
        report_of(device, reports@),
        history_of(device, tasks_payload.hits@),
    ));
    law_view_of_a_summary_is_what_it_holds(r@[i]);
}

/// An estimate rests on the seconds from the start until now, which is in no leap second, and on the
/// predicted duration, and is made only where no progress was reported and both are known.
pub proof fn law_estimates_rest_on_start_and_prediction(
    device: &DeviceSummary,
    now: Instant,
    start: Option<Instant>,
    progress: Option<Real>,
    prediction: Option<Real>,
    r: Option<Estimate>,
    of_device: Option<Estimate>,
)
    requires
        call_ensures(estimate_since, (start, progress, prediction, now), r),
        call_ensures(estimated_progress, (device, now), of_device),
        now.nanos < 1_000_000_000,
    ensures
        progress is Some || start is None || prediction is None ==> r is None,
        progress is None ==> (start matches Some(begun) ==> (prediction matches Some(predicted) ==> {
            &&& r is Some
            &&& r->0.prediction == predicted
            &&& begun.nanos == now.nanos ==> r->0.elapsed_seconds == now.secs - begun.secs
        })),
        of_device is Some <==> device.progress is None && device.prediction is Some
            && device.start_time is Some && crate::overlay::format::bambu_datetime(
            device.start_time->0@,
        ) is Some,
        of_device matches Some(estimate) ==> {
            let begun = crate::overlay::format::bambu_datetime(device.start_time->0@)->0;
            &&& Some(estimate.prediction) == device.prediction
            &&& begun.nanos == now.nanos ==> estimate.elapsed_seconds == now.secs - begun.secs
        },
{
}

/// A field is read from the report where that has it, and else from what is known of the device.
pub proof fn law_fields_are_read_from_the_report_first<'a>(
    fields: &DeviceFields<'a>,
    title: Option<String>,
    current: Option<i64>,
    total: Option<i64>,
    progress: Option<Real>,
    prints: bool,
)
    requires
        call_ensures(DeviceFields::task_name, (fields,), title),
        call_ensures(DeviceFields::layer_current, (fields,), current),
        call_ensures(DeviceFields::layer_total, (fields,), total),
        call_ensures(DeviceFields::progress, (fields,), progress),
        call_ensures(DeviceFields::has_print_status_task, (fields,), prints),
    ensures
        fields.report matches Some(report) ==> {
            &&& is_latest(title, report.task_name, fields.device.status.task_name)
            &&& is_latest(current, report.layer_current, fields.device.status.layer_current)
            &&& is_latest(total, report.layer_total, fields.device.status.layer_total)
            &&& is_latest(progress, report.progress, fields.device.status.progress)
            &&& prints <==> has_print_field(*report) || has_print_field(fields.device.status)
        },
        fields.report is None ==> {
            &&& title == fields.device.status.task_name
            &&& current == fields.device.status.layer_current
            &&& total == fields.device.status.layer_total
            &&& progress == fields.device.status.progress
            &&& prints <==> has_print_field(fields.device.status)
        },
{
}

/// The task that stands for each device is one of its own of which none ranks higher.
pub proof fn law_tasks_stand_for_their_devices(
    tasks_payload: &TasksResponse,
    r: Table<TaskMatch>,
    i: int,
    id: Seq<char>,
)
    requires
        call_ensures(tasks_by_device, (tasks_payload,), r),
        0 <= i < tasks_payload.hits@.len(),
    ensures
        ({
            let task = tasks_payload.hits@[i];
            &&& task.device_id is Some ==> {
                &&& r@.contains_key(task.device_id->0@)
                &&& !ranks_below(r@[task.device_id->0@].task, task)
            }
            &&& r@.contains_key(id) ==> {
                &&& tasks_payload.hits@.contains(r@[id].task)
                &&& r@[id].task.device_id is Some
                &&& r@[id].task.device_id->0@ == id
                &&& r@[id].active == task_runs(r@[id].task)
            }
        }),
{
    let hits = tasks_payload.hits@;
    let task = hits[i];
    if task.device_id is Some {
        let own = task.device_id->0@;
        law_best_hit(hits, own, hits.len() as int);
        assert(r@.contains_key(own) <==> matching_task(hits, own) is Some);
    }
    law_best_hit(hits, id, hits.len() as int);
    assert(r@.contains_key(id) <==> matching_task(hits, id) is Some);
}

/// A device can be shown where the trays that would be shown of it can be.
pub proof fn law_devices_can_be_shown(device: &CloudDevice, reports: &Table<PrinterStatus>, r: bool)
    requires
        call_ensures(are_trays_readable, (device, reports), r),
    ensures
        ({
            let report = report_of(*device, reports@);
            let own = report is Some && report->0.ams is Some && report->0.ams->0.holds_spool();
            let outside = report is Some && report->0.external_tray is Some
                && report->0.external_tray->0.holds_spool();
            let systems = if own {
                report->0.ams
            } else {
                device.status.ams
            };
            let tray = if outside {
                report->0.external_tray
            } else {
                device.status.external_tray
            };
            r <==> (systems is None || systems->0.readable()) && (tray is None
                || spools::color_readable(tray->0))
        }),
{
}

} // verus!
