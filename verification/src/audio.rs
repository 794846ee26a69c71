//! Audio routing decisions: settings changes and the description of audio devices.
use crate::protocol::{AudioDevice, AudioDeviceRole, AudioFrameHeader, AudioSettings};
use crate::text::{decimal, push_decimal};
use vstd::prelude::*;

verus! {

/// Something that happened to the audio stream.
#[derive(Debug, Clone)]
pub enum AudioEvent {
    CapturedFrame { header: AudioFrameHeader, data: Vec<u8> },
    PlaybackFrame { header: AudioFrameHeader, data: Vec<u8> },
    AudioStreamToggled { enabled: bool },
    Error(String),
}

/// Replaces the audio settings; returns the new `enabled` flag when it changed.
pub fn update_audio_settings(current: &mut AudioSettings, new_settings: AudioSettings) -> (toggled:
    Option<bool>)
    ensures
        *final(current) == new_settings,
        toggled == (if old(current).enabled != new_settings.enabled {
            Some(new_settings.enabled)
        } else {
            None
        }),
{
    let was_enabled = current.enabled;
    let now_enabled = new_settings.enabled;
    *current = new_settings;
    if was_enabled != now_enabled {
        Some(now_enabled)
    } else {
        None
    }
}

/// The name given to the `index`-th output (or input) device whose own name
/// cannot be read: `Output <index>` (or `Input <index>`).
pub open spec fn fallback_device_name(is_output: bool, index: usize) -> Seq<char> {
    (if is_output {
        "Output "@
    } else {
        "Input "@
    }) + decimal(index as nat)
}

/// The name under which a device is listed: its own name, or the fallback name.
pub open spec fn listed_device_name(is_output: bool, index: usize, name: Option<String>) -> Seq<
    char,
> {
    match name {
        Some(n) => n@,
        None => fallback_device_name(is_output, index),
    }
}

/// Describes the `index`-th output (or input) device of the host, given its name
/// (`None` when it cannot be read) and the name of the host's default device of that
/// kind (`None` when there is none or its name cannot be read). The device's id is
/// its listed name, and it is the default when the default device's name equals it.
pub fn describe_device(
    is_output: bool,
    index: usize,
    name: Option<String>,
    default_name: Option<String>,
) -> (device: AudioDevice)
    ensures
        device.name@ == listed_device_name(is_output, index, name),
        device.id@ == device.name@,
        device.is_default == (default_name matches Some(d) && d@ == device.name@),
        device.role == (if is_output {
            AudioDeviceRole::Output
        } else {
            AudioDeviceRole::Input
        }),
{
    let listed = match name {
        Some(n) => n,
        None => {
            let mut fallback = if is_output {
                "Output ".to_owned()
            } else {
                "Input ".to_owned()
            };
            push_decimal(&mut fallback, index as u64);
            fallback
        },
    };
    let is_default = match default_name {
        Some(d) => d == listed,
        None => false,
    };
    let role = if is_output {
        AudioDeviceRole::Output
    } else {
        AudioDeviceRole::Input
    };
    AudioDevice { id: listed.clone(), name: listed, is_default, role }
}

} // verus!
