//! Devices as the command line names them.
use crate::local;
use crate::text;
use std::str::FromStr;
use vstd::prelude::*;

verus! {

/// A device of the cloud that is named by its id alone.
#[derive(Debug, PartialEq, Eq)]
pub struct DeviceConfig {
    pub id: String,
}

impl Clone for DeviceConfig {
    fn clone(&self) -> (r: Self)
        ensures
            r == *self,
    {
        DeviceConfig { id: self.id.clone() }
    }
}

/// The id that `value`, without white space around it, is, or what is said of it.
pub open spec fn device_id_of(value: Seq<char>) -> Result<Seq<char>, Seq<char>> {
    if value.len() == 0 {
        Err("cloud device id must not be empty"@)
    } else if value.contains(',') {
        Err(local::not_a("cloud device"@, value) + ": expected only DEVICE_ID"@)
    } else {
        Ok(value)
    }
}

/// The device that `value` names.
pub fn parse_device_config(value: &str) -> (r: Result<DeviceConfig, String>)
    ensures
        match r {
            Ok(config) => device_id_of(text::trimmed(value@)) == Ok::<Seq<char>, Seq<char>>(
                config.id@,
            ),
            Err(message) => device_id_of(text::trimmed(value@)) == Err::<Seq<char>, Seq<char>>(
                message@,
            ),
        },
{
    let value = text::trim(value);
    if value.is_empty() {
        return Err("cloud device id must not be empty".to_owned());
    }
    if text::contains_char(value, ',') {
        return Err(
            local::not_a_text("cloud device", value).concat(": expected only DEVICE_ID"),
        );
    }
    Ok(DeviceConfig { id: value.to_owned() })
}

impl FromStr for DeviceConfig {
    type Err = String;

    fn from_str(value: &str) -> (r: Result<Self, String>)
        ensures
            match r {
                Ok(config) => device_id_of(text::trimmed(value@)) == Ok::<Seq<char>, Seq<char>>(
                    config.id@,
                ),
                Err(message) => device_id_of(text::trimmed(value@)) == Err::<
                    Seq<char>,
                    Seq<char>,
                >(message@),
            },
    {
        parse_device_config(value)
    }
}

impl DeviceConfig {
    /// The text of the device: its id.
    pub fn to_string(&self) -> (r: String)
        ensures
            r == self.id,
    {
        self.id.clone()
    }
}

/// A device that was read is named by its text: reading the text again gives the same id.
pub proof fn law_device_reads_back(value: Seq<char>)
    requires
        device_id_of(text::trimmed(value)) is Ok,
    ensures
        device_id_of(text::trimmed(device_id_of(text::trimmed(value))->Ok_0)) == device_id_of(
            text::trimmed(value),
        ),
{
    text::lemma_trim_is_trimmed(value);
}

/// A device is named by its id alone, white space around it left out; nothing is no id, and neither
/// is anything with a comma in it.
pub proof fn law_device_is_named_by_its_id(
    before: Seq<char>,
    id: Seq<char>,
    after: Seq<char>,
    value: &str,
    r: Result<DeviceConfig, String>,
)
    requires
        forall|i: int| 0 <= i < before.len() ==> text::white_space(#[trigger] before[i]),
        forall|i: int| 0 <= i < after.len() ==> text::white_space(#[trigger] after[i]),
        id.len() > 0 ==> !text::white_space(id[0]) && !text::white_space(id.last()),
        value@ == before + id + after,
        call_ensures(parse_device_config, (value,), r),
    ensures
        id.len() == 0 ==> r is Err,
        (exists|i: int| 0 <= i < id.len() && id[i] == ',') ==> r is Err,
        id.len() > 0 && (forall|i: int| 0 <= i < id.len() ==> id[i] != ',') ==> r is Ok
            && r->Ok_0.id@ == id,
{
    text::law_trim_takes_white_space_around(before, id, after);
    if exists|i: int| 0 <= i < id.len() && id[i] == ',' {
        let i = choose|i: int| 0 <= i < id.len() && id[i] == ',';
        assert(id.contains(id[i]));
    }
}

} // verus!
