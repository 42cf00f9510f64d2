//! The data that Bambu Cloud and the printers report.
use crate::text;
use vstd::prelude::*;

verus! {

/// A reported quantity, kept as the bits of an IEEE 754 double.
///
/// The overlay moves quantities about; it does not compute with them.
#[derive(Debug, Clone, Copy, PartialEq, Eq, Structural)]
pub struct Real {
    pub bits: u64,
}

/// What the login endpoint answers.
#[derive(Debug, Clone)]
pub struct LoginResponse {
    pub access_token: Option<String>,
    pub refresh_token: Option<String>,
    pub expires_in: Option<i64>,
    pub login_type: Option<String>,
}

/// The devices of an account.
#[derive(Debug, Clone)]
pub struct CurrentPrintResponse {
    pub devices: Vec<CloudDevice>,
}

/// A device as Bambu Cloud knows it.
#[derive(Debug, Clone)]
pub struct CloudDevice {
    pub id: Option<String>,
    pub name: Option<String>,
    pub model_name: Option<String>,
    pub product_name: Option<String>,
    pub online: Option<bool>,
    pub access_code: Option<String>,
    pub status: PrinterStatus,
}

/// What a printer reports of itself and of its print. A field that is absent was not reported.
#[derive(Debug, Clone, PartialEq)]
pub struct PrinterStatus {
    pub task_id: Option<String>,
    pub task_name: Option<String>,
    pub status: Option<String>,
    pub progress: Option<Real>,
    pub prediction_seconds: Option<Real>,
    pub start_time: Option<String>,
    pub filename: Option<String>,
    pub weight: Option<String>,
    pub layer_current: Option<i64>,
    pub layer_total: Option<i64>,
    pub remaining_minutes: Option<Real>,
    pub toolhead_temperature: Option<Real>,
    pub bed_temperature: Option<Real>,
    pub fan_speed: Option<Real>,
    pub ams: Option<AmsState>,
    pub external_tray: Option<Tray>,
    pub speed_level: Option<i64>,
}

/// The automatic material systems of a printer.
#[derive(Debug, Clone, PartialEq)]
pub struct AmsState {
    pub ams: Vec<AmsUnit>,
}

/// One automatic material system.
#[derive(Debug, Clone, PartialEq)]
pub struct AmsUnit {
    pub id: Option<i64>,
    pub tray: Vec<Tray>,
}

/// The place of one spool.
#[derive(Debug, Clone, PartialEq)]
pub struct Tray {
    pub id: Option<i64>,
    pub material: Option<String>,
    pub display_name: Option<String>,
    pub sub_brand: Option<String>,
    pub info_index: Option<String>,
    pub color: Option<String>,
    pub cols: Vec<String>,
}

/// The task history of an account.
#[derive(Debug, Clone)]
pub struct TasksResponse {
    pub hits: Vec<Task>,
}

/// One print of the task history.
#[derive(Debug)]
pub struct Task {
    pub device_id: Option<String>,
    pub title: Option<String>,
    pub design_title: Option<String>,
    pub translated_title: Option<String>,
    pub device_name: Option<String>,
    pub device_model: Option<String>,
    pub id: Option<String>,
    pub status: Option<String>,
    pub start_time: Option<String>,
    pub end_time: Option<String>,
    pub cost_time: Option<Real>,
    pub cover: Option<String>,
    pub weight: Option<String>,
    pub plate_index: Option<String>,
    pub plate_name: Option<String>,
}

/// The preferences of a user.
#[derive(Debug, Clone)]
pub struct UserPreference {
    pub uid: Option<String>,
}

// ---------------------------------------------------------------------------
// Empty values
// ---------------------------------------------------------------------------

impl PrinterStatus {
    /// Whether nothing was reported.
    pub open spec fn is_empty(self) -> bool {
        &&& self.task_id is None
        &&& self.task_name is None
        &&& self.status is None
        &&& self.progress is None
        &&& self.prediction_seconds is None
        &&& self.start_time is None
        &&& self.filename is None
        &&& self.weight is None
        &&& self.layer_current is None
        &&& self.layer_total is None
        &&& self.remaining_minutes is None
        &&& self.toolhead_temperature is None
        &&& self.bed_temperature is None
        &&& self.fan_speed is None
        &&& self.ams is None
        &&& self.external_tray is None
        &&& self.speed_level is None
    }

    /// Whether everything was reported.
    pub open spec fn is_full(self) -> bool {
        &&& self.task_id is Some
        &&& self.task_name is Some
        &&& self.status is Some
        &&& self.progress is Some
        &&& self.prediction_seconds is Some
        &&& self.start_time is Some
        &&& self.filename is Some
        &&& self.weight is Some
        &&& self.layer_current is Some
        &&& self.layer_total is Some
        &&& self.remaining_minutes is Some
        &&& self.toolhead_temperature is Some
        &&& self.bed_temperature is Some
        &&& self.fan_speed is Some
        &&& self.ams is Some
        &&& self.external_tray is Some
        &&& self.speed_level is Some
    }
}

/// The status of which nothing was reported.
pub open spec fn empty_status() -> PrinterStatus {
    PrinterStatus {
        task_id: None,
        task_name: None,
        status: None,
        progress: None,
        prediction_seconds: None,
        start_time: None,
        filename: None,
        weight: None,
        layer_current: None,
        layer_total: None,
        remaining_minutes: None,
        toolhead_temperature: None,
        bed_temperature: None,
        fan_speed: None,
        ams: None,
        external_tray: None,
        speed_level: None,
    }
}

impl Default for PrinterStatus {
    fn default() -> (r: Self)
        ensures
            r == empty_status(),
    {
        PrinterStatus {
            task_id: None,
            task_name: None,
            status: None,
            progress: None,
            prediction_seconds: None,
            start_time: None,
            filename: None,
            weight: None,
            layer_current: None,
            layer_total: None,
            remaining_minutes: None,
            toolhead_temperature: None,
            bed_temperature: None,
            fan_speed: None,
            ams: None,
            external_tray: None,
            speed_level: None,
        }
    }
}

impl CloudDevice {
    /// Whether nothing is known of the device.
    pub open spec fn is_empty(self) -> bool {
        &&& self.id is None
        &&& self.name is None
        &&& self.model_name is None
        &&& self.product_name is None
        &&& self.online is None
        &&& self.access_code is None
        &&& self.status.is_empty()
    }
}

impl Default for CloudDevice {
    fn default() -> (r: Self)
        ensures
            r.is_empty(),
    {
        CloudDevice {
            id: None,
            name: None,
            model_name: None,
            product_name: None,
            online: None,
            access_code: None,
            status: PrinterStatus::default(),
        }
    }
}

impl Default for CurrentPrintResponse {
    fn default() -> (r: Self)
        ensures
            r.devices@.len() == 0,
    {
        CurrentPrintResponse { devices: Vec::new() }
    }
}

impl Default for AmsState {
    fn default() -> (r: Self)
        ensures
            r.ams@.len() == 0,
    {
        AmsState { ams: Vec::new() }
    }
}

impl Default for AmsUnit {
    fn default() -> (r: Self)
        ensures
            r.id is None,
            r.tray@.len() == 0,
    {
        AmsUnit { id: None, tray: Vec::new() }
    }
}

impl Default for Tray {
    fn default() -> (r: Self)
        ensures
            r.id is None,
            r.material is None,
            r.display_name is None,
            r.sub_brand is None,
            r.info_index is None,
            r.color is None,
            r.cols@.len() == 0,
    {
        Tray {
            id: None,
            material: None,
            display_name: None,
            sub_brand: None,
            info_index: None,
            color: None,
            cols: Vec::new(),
        }
    }
}

impl Default for TasksResponse {
    fn default() -> (r: Self)
        ensures
            r.hits@.len() == 0,
    {
        TasksResponse { hits: Vec::new() }
    }
}

impl Default for UserPreference {
    fn default() -> (r: Self)
        ensures
            r.uid is None,
    {
        UserPreference { uid: None }
    }
}

impl Task {
    /// Whether nothing is known of the task.
    pub open spec fn is_empty(self) -> bool {
        &&& self.device_id is None
        &&& self.title is None
        &&& self.design_title is None
        &&& self.translated_title is None
        &&& self.device_name is None
        &&& self.device_model is None
        &&& self.id is None
        &&& self.status is None
        &&& self.start_time is None
        &&& self.end_time is None
        &&& self.cost_time is None
        &&& self.cover is None
        &&& self.weight is None
        &&& self.plate_index is None
        &&& self.plate_name is None
    }
}

impl Default for Task {
    fn default() -> (r: Self)
        ensures
            r.is_empty(),
    {
        Task {
            device_id: None,
            title: None,
            design_title: None,
            translated_title: None,
            device_name: None,
            device_model: None,
            id: None,
            status: None,
            start_time: None,
            end_time: None,
            cost_time: None,
            cover: None,
            weight: None,
            plate_index: None,
            plate_name: None,
        }
    }
}

impl Clone for Task {
    fn clone(&self) -> (r: Self)
        ensures
            r == *self,
    {
        Task {
            device_id: self.device_id.clone(),
            title: self.title.clone(),
            design_title: self.design_title.clone(),
            translated_title: self.translated_title.clone(),
            device_name: self.device_name.clone(),
            device_model: self.device_model.clone(),
            id: self.id.clone(),
            status: self.status.clone(),
            start_time: self.start_time.clone(),
            end_time: self.end_time.clone(),
            cost_time: self.cost_time,
            cover: self.cover.clone(),
            weight: self.weight.clone(),
            plate_index: self.plate_index.clone(),
            plate_name: self.plate_name.clone(),
        }
    }
}

// ---------------------------------------------------------------------------
// Merging reports
// ---------------------------------------------------------------------------

/// `first` where it is present, else `second`.
pub open spec fn either<T>(first: Option<T>, second: Option<T>) -> Option<T> {
    if first is Some {
        first
    } else {
        second
    }
}

/// Puts `patch` in the place of `target`, where there is a patch.
pub fn merge_option<T>(target: &mut Option<T>, patch: Option<T>)
    ensures
        *final(target) == either(patch, *old(target)),
{
    if patch.is_some() {
        *target = patch;
    }
}

/// The status that `base` becomes when `patch` is reported.
pub open spec fn merged(base: PrinterStatus, patch: PrinterStatus) -> PrinterStatus {
    PrinterStatus {
        task_id: either(patch.task_id, base.task_id),
        task_name: either(patch.task_name, base.task_name),
        status: either(patch.status, base.status),
        progress: either(patch.progress, base.progress),
        prediction_seconds: either(patch.prediction_seconds, base.prediction_seconds),
        start_time: either(patch.start_time, base.start_time),
        filename: either(patch.filename, base.filename),
        weight: either(patch.weight, base.weight),
        layer_current: either(patch.layer_current, base.layer_current),
        layer_total: either(patch.layer_total, base.layer_total),
        remaining_minutes: either(patch.remaining_minutes, base.remaining_minutes),
        toolhead_temperature: either(patch.toolhead_temperature, base.toolhead_temperature),
        bed_temperature: either(patch.bed_temperature, base.bed_temperature),
        fan_speed: either(patch.fan_speed, base.fan_speed),
        ams: either(patch.ams, base.ams),
        external_tray: either(patch.external_tray, base.external_tray),
        speed_level: either(patch.speed_level, base.speed_level),
    }
}

impl PrinterStatus {
    /// Takes over what `patch` reports and keeps the rest.
    pub fn merge(&mut self, patch: PrinterStatus)
        ensures
            *final(self) == merged(*old(self), patch),
    {
        merge_option(&mut self.task_id, patch.task_id);
        merge_option(&mut self.task_name, patch.task_name);
        merge_option(&mut self.status, patch.status);
        merge_option(&mut self.progress, patch.progress);
        merge_option(&mut self.prediction_seconds, patch.prediction_seconds);
        merge_option(&mut self.start_time, patch.start_time);
        merge_option(&mut self.filename, patch.filename);
        merge_option(&mut self.weight, patch.weight);
        merge_option(&mut self.layer_current, patch.layer_current);
        merge_option(&mut self.layer_total, patch.layer_total);
        merge_option(&mut self.remaining_minutes, patch.remaining_minutes);
        merge_option(&mut self.toolhead_temperature, patch.toolhead_temperature);
        merge_option(&mut self.bed_temperature, patch.bed_temperature);
        merge_option(&mut self.fan_speed, patch.fan_speed);
        merge_option(&mut self.ams, patch.ams);
        merge_option(&mut self.external_tray, patch.external_tray);
        merge_option(&mut self.speed_level, patch.speed_level);
    }
}

/// A patch that reports everything replaces the status; one that reports nothing leaves it as it
/// is; and reporting the same patch twice changes nothing more.
pub proof fn law_merge_extremes(base: PrinterStatus, patch: PrinterStatus)
    ensures
        patch.is_full() ==> merged(base, patch) == patch,
        patch.is_empty() ==> merged(base, patch) == base,
        merged(merged(base, patch), patch) == merged(base, patch),
{
}

/// Each field for itself, whatever becomes of the others: what the patch reports is what is known
/// then, and what it does not report stays as it was known.
pub proof fn law_merge_field_by_field(base: PrinterStatus, patch: PrinterStatus)
    ensures
        patch.task_id is Some ==> merged(base, patch).task_id == patch.task_id,
        patch.task_id is None ==> merged(base, patch).task_id == base.task_id,
        patch.task_name is Some ==> merged(base, patch).task_name == patch.task_name,
        patch.task_name is None ==> merged(base, patch).task_name == base.task_name,
        patch.status is Some ==> merged(base, patch).status == patch.status,
        patch.status is None ==> merged(base, patch).status == base.status,
        patch.progress is Some ==> merged(base, patch).progress == patch.progress,
        patch.progress is None ==> merged(base, patch).progress == base.progress,
        patch.prediction_seconds is Some ==> merged(base, patch).prediction_seconds == patch.prediction_seconds,
        patch.prediction_seconds is None ==> merged(base, patch).prediction_seconds == base.prediction_seconds,
        patch.start_time is Some ==> merged(base, patch).start_time == patch.start_time,
        patch.start_time is None ==> merged(base, patch).start_time == base.start_time,
        patch.filename is Some ==> merged(base, patch).filename == patch.filename,
        patch.filename is None ==> merged(base, patch).filename == base.filename,
        patch.weight is Some ==> merged(base, patch).weight == patch.weight,
        patch.weight is None ==> merged(base, patch).weight == base.weight,
        patch.layer_current is Some ==> merged(base, patch).layer_current == patch.layer_current,
        patch.layer_current is None ==> merged(base, patch).layer_current == base.layer_current,
        patch.layer_total is Some ==> merged(base, patch).layer_total == patch.layer_total,
        patch.layer_total is None ==> merged(base, patch).layer_total == base.layer_total,
        patch.remaining_minutes is Some ==> merged(base, patch).remaining_minutes == patch.remaining_minutes,
        patch.remaining_minutes is None ==> merged(base, patch).remaining_minutes == base.remaining_minutes,
        patch.toolhead_temperature is Some ==> merged(base, patch).toolhead_temperature == patch.toolhead_temperature,
        patch.toolhead_temperature is None ==> merged(base, patch).toolhead_temperature == base.toolhead_temperature,
        patch.bed_temperature is Some ==> merged(base, patch).bed_temperature == patch.bed_temperature,
        patch.bed_temperature is None ==> merged(base, patch).bed_temperature == base.bed_temperature,
        patch.fan_speed is Some ==> merged(base, patch).fan_speed == patch.fan_speed,
        patch.fan_speed is None ==> merged(base, patch).fan_speed == base.fan_speed,
        patch.ams is Some ==> merged(base, patch).ams == patch.ams,
        patch.ams is None ==> merged(base, patch).ams == base.ams,
        patch.external_tray is Some ==> merged(base, patch).external_tray == patch.external_tray,
        patch.external_tray is None ==> merged(base, patch).external_tray == base.external_tray,
        patch.speed_level is Some ==> merged(base, patch).speed_level == patch.speed_level,
        patch.speed_level is None ==> merged(base, patch).speed_level == base.speed_level,
{
}

/// Of a status of which nothing was reported, no field is known.
pub proof fn law_empty_status_tells_nothing()
    ensures
        empty_status().task_id is None,
        empty_status().task_name is None,
        empty_status().status is None,
        empty_status().progress is None,
        empty_status().prediction_seconds is None,
        empty_status().start_time is None,
        empty_status().filename is None,
        empty_status().weight is None,
        empty_status().layer_current is None,
        empty_status().layer_total is None,
        empty_status().remaining_minutes is None,
        empty_status().toolhead_temperature is None,
        empty_status().bed_temperature is None,
        empty_status().fan_speed is None,
        empty_status().ams is None,
        empty_status().external_tray is None,
        empty_status().speed_level is None,
{
}

/// The first of two values that may be absent counts where it is there, and else the second.
pub proof fn law_first_present_counts<T>(first: T, second: Option<T>)
    ensures
        either(Some(first), second) == Some(first),
        either(None, second) == second,
{
}

/// Reports may be merged one after the other, or with each other first.
pub proof fn law_merge_associative(
    base: PrinterStatus,
    first: PrinterStatus,
    second: PrinterStatus,
)
    ensures
        merged(merged(base, first), second) == merged(base, merged(first, second)),
{
}

// ---------------------------------------------------------------------------
// Titles and users
// ---------------------------------------------------------------------------

impl Task {
    /// The title, else the title of the design, else its translation.
    pub fn display_title(&self) -> (r: Option<String>)
        ensures
            r == either(self.title, either(self.design_title, self.translated_title)),
    {
        if self.title.is_some() {
            self.title.clone()
        } else if self.design_title.is_some() {
            self.design_title.clone()
        } else {
            self.translated_title.clone()
        }
    }
}

/// The user that a `uid` names: without white space around it and without one leading `u_`.
pub open spec fn user_of(uid: Seq<char>) -> Seq<char> {
    if text::begins_with(text::trimmed(uid), "u_"@) {
        text::trimmed(uid).skip(2)
    } else {
        text::trimmed(uid)
    }
}

impl UserPreference {
    /// The user name for MQTT, where the preferences name one.
    pub fn mqtt_user_id(&self) -> (r: Option<String>)
        ensures
            match r {
                Some(user) => self.uid is Some && user@ == user_of(self.uid->0@) && user@.len() > 0,
                None => self.uid is None || user_of(self.uid->0@).len() == 0,
            },
    {
        proof {
            reveal_strlit("u_");
        }
        match &self.uid {
            Some(uid) => {
                let value = text::trim(uid.as_str());
                let normalized = match text::strip_prefix(value, "u_") {
                    Some(rest) => rest,
                    None => value,
                };
                if normalized.is_empty() {
                    None
                } else {
                    Some(normalized.to_owned())
                }
            },
            None => None,
        }
    }
}

/// A user that `u_` stands before is named without it, once; any other is named as it stands. White
/// space around a name is no part of it.
pub proof fn law_user_is_named_without_prefix(before: Seq<char>, name: Seq<char>, after: Seq<char>)
    requires
        name.len() > 0,
        !text::white_space(name[0]),
        !text::white_space(name.last()),
        forall|i: int| 0 <= i < before.len() ==> text::white_space(#[trigger] before[i]),
        forall|i: int| 0 <= i < after.len() ==> text::white_space(#[trigger] after[i]),
    ensures
        user_of(before + seq!['u', '_'] + name + after) == name,
        name[0] != 'u' || name.len() < 2 || name[1] != '_' ==> user_of(before + name + after)
            == name,
{
    reveal_strlit("u_");
    let prefixed = seq!['u', '_'] + name;
    assert(before + seq!['u', '_'] + name + after =~= before + prefixed + after);
    text::law_trim_takes_white_space_around(before, prefixed, after);
    text::law_trim_takes_white_space_around(before, name, after);
    assert(prefixed.take(2) =~= "u_"@);
    assert(prefixed.skip(2) =~= name);
    if text::begins_with(name, "u_"@) {
        assert(name.take(2)[0] == 'u' && name.take(2)[1] == '_');
    }
}

/// What [`PrinterStatus::merge`] leaves: each field that the patch reports as it reports it, and each
/// other field as it was.
pub proof fn law_merging_changes_what_is_reported(status: &mut PrinterStatus, patch: PrinterStatus)
    requires
        call_ensures(PrinterStatus::merge, (status, patch), ()),
    ensures
        patch.task_id is Some ==> final(status).task_id == patch.task_id,
        patch.task_id is None ==> final(status).task_id == old(status).task_id,
        patch.task_name is Some ==> final(status).task_name == patch.task_name,
        patch.task_name is None ==> final(status).task_name == old(status).task_name,
        patch.status is Some ==> final(status).status == patch.status,
        patch.status is None ==> final(status).status == old(status).status,
        patch.progress is Some ==> final(status).progress == patch.progress,
        patch.progress is None ==> final(status).progress == old(status).progress,
        patch.prediction_seconds is Some ==> final(status).prediction_seconds == patch.prediction_seconds,
        patch.prediction_seconds is None ==> final(status).prediction_seconds == old(status).prediction_seconds,
        patch.start_time is Some ==> final(status).start_time == patch.start_time,
        patch.start_time is None ==> final(status).start_time == old(status).start_time,
        patch.filename is Some ==> final(status).filename == patch.filename,
        patch.filename is None ==> final(status).filename == old(status).filename,
        patch.weight is Some ==> final(status).weight == patch.weight,
        patch.weight is None ==> final(status).weight == old(status).weight,
        patch.layer_current is Some ==> final(status).layer_current == patch.layer_current,
        patch.layer_current is None ==> final(status).layer_current == old(status).layer_current,
        patch.layer_total is Some ==> final(status).layer_total == patch.layer_total,
        patch.layer_total is None ==> final(status).layer_total == old(status).layer_total,
        patch.remaining_minutes is Some ==> final(status).remaining_minutes == patch.remaining_minutes,
        patch.remaining_minutes is None ==> final(status).remaining_minutes == old(status).remaining_minutes,
        patch.toolhead_temperature is Some ==> final(status).toolhead_temperature == patch.toolhead_temperature,
        patch.toolhead_temperature is None ==> final(status).toolhead_temperature == old(status).toolhead_temperature,
        patch.bed_temperature is Some ==> final(status).bed_temperature == patch.bed_temperature,
        patch.bed_temperature is None ==> final(status).bed_temperature == old(status).bed_temperature,
        patch.fan_speed is Some ==> final(status).fan_speed == patch.fan_speed,
        patch.fan_speed is None ==> final(status).fan_speed == old(status).fan_speed,
        patch.ams is Some ==> final(status).ams == patch.ams,
        patch.ams is None ==> final(status).ams == old(status).ams,
        patch.external_tray is Some ==> final(status).external_tray == patch.external_tray,
        patch.external_tray is None ==> final(status).external_tray == old(status).external_tray,
        patch.speed_level is Some ==> final(status).speed_level == patch.speed_level,
        patch.speed_level is None ==> final(status).speed_level == old(status).speed_level,
{
}

/// A task is titled by its own title; else by that of its design; else by its translation.
pub proof fn law_title_is_the_own_first(task: &Task, r: Option<String>)
    requires
        call_ensures(Task::display_title, (task,), r),
    ensures
        task.title is Some ==> r == task.title,
        task.title is None && task.design_title is Some ==> r == task.design_title,
        task.title is None && task.design_title is None ==> r == task.translated_title,
{
}

/// The user of MQTT is the one that the preferences name, where they name one that is not empty.
pub proof fn law_preferences_name_the_user(preference: &UserPreference, r: Option<String>)
    requires
        call_ensures(UserPreference::mqtt_user_id, (preference,), r),
    ensures
        preference.uid is None ==> r is None,
        preference.uid matches Some(uid) ==> {
            &&& r is Some <==> user_of(uid@).len() > 0
            &&& r is Some ==> r->0@ == user_of(uid@)
        },
{
}

} // verus!
