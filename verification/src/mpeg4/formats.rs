//! Audio object types and channel configurations of MPEG-4 audio.
use vstd::prelude::*;

verus! {

/// Audio Object Types, as far as they are told apart here:
/// 0: Null, 1: AAC Main, 2: AAC LC (Low Complexity),
/// 3: AAC SSR (Scalable Sample Rate), 4: AAC LTP (Long Term Prediction).
#[derive(Debug, Clone, Copy, PartialEq, Eq, Structural)]
pub enum AudioObjectTypes {
    Null,
    AAC,
    AACLC,
    AACSSR,
    AACLTP,
}

/// The audio object type for the number `v`: 1 and 2 are AAC Main and AAC LC,
/// every other number gives `Null`.
pub open spec fn audio_object_type_of(v: u8) -> AudioObjectTypes {
    if v == 1 {
        AudioObjectTypes::AAC
    } else if v == 2 {
        AudioObjectTypes::AACLC
    } else {
        AudioObjectTypes::Null
    }
}

impl AudioObjectTypes {
    /// The display name of this audio object type.
    pub fn to_string(&self) -> (r: String)
        ensures
            r@ == (match self {
                AudioObjectTypes::Null => "Unknown"@,
                AudioObjectTypes::AAC => "AAC Main"@,
                AudioObjectTypes::AACLC => "AAC Low Complexity"@,
                AudioObjectTypes::AACSSR => "AAC Scalable Sample Rate"@,
                AudioObjectTypes::AACLTP => "AAC Long Term Prediction"@,
            }),
    {
        let s = match self {
            AudioObjectTypes::Null => "Unknown",
            AudioObjectTypes::AAC => "AAC Main",
            AudioObjectTypes::AACLC => "AAC Low Complexity",
            AudioObjectTypes::AACSSR => "AAC Scalable Sample Rate",
            AudioObjectTypes::AACLTP => "AAC Long Term Prediction",
        };
        s.to_owned()
    }
}

impl From<u8> for AudioObjectTypes {
    fn from(v: u8) -> (r: AudioObjectTypes) {
        if v == 1 {
            AudioObjectTypes::AAC
        } else if v == 2 {
            AudioObjectTypes::AACLC
        } else {
            AudioObjectTypes::Null
        }
    }
}

impl vstd::std_specs::convert::FromSpecImpl<u8> for AudioObjectTypes {
    open spec fn obeys_from_spec() -> bool {
        true
    }

    open spec fn from_spec(v: u8) -> AudioObjectTypes {
        audio_object_type_of(v)
    }
}

impl Default for AudioObjectTypes {
    fn default() -> (r: AudioObjectTypes)
        ensures
            r == AudioObjectTypes::Null,
    {
        AudioObjectTypes::Null
    }
}

/// Channel Configurations
/// 0: Defined in AOT Specifc Config
/// 1: 1 channel: front-center
/// 2: 2 channels: front-left, front-right
/// 3: 3 channels: front-center, front-left, front-right
/// 4: 4 channels: front-center, front-left, front-right, back-center
/// 5: 5 channels: front-center, front-left, front-right, back-left, back-right
/// 6: 6 channels: front-center, front-left, front-right, back-left, back-right, LFE-channel
/// 7: 8 channels: front-center, front-left, front-right, side-left, side-right, back-left, back-right, LFE-channel
/// 8-15: Reserved
#[derive(Debug, Clone, Copy, PartialEq, Eq, Structural)]
pub enum ChannelConfig {
    /// One of the defined configurations 0 to 7.
    Defined(u8),
    /// One of the reserved values 8 to 15.
    Reserved(u8),
    /// Not known.
    Unknown,
}

/// The channel configuration for the number `v`.
pub open spec fn channel_config_of(v: u8) -> ChannelConfig {
    if v <= 7 {
        ChannelConfig::Defined(v)
    } else if v <= 15 {
        ChannelConfig::Reserved(v)
    } else {
        ChannelConfig::Unknown
    }
}

impl From<u8> for ChannelConfig {
    fn from(v: u8) -> (r: ChannelConfig) {
        if v <= 7 {
            ChannelConfig::Defined(v)
        } else if v <= 15 {
            ChannelConfig::Reserved(v)
        } else {
            ChannelConfig::Unknown
        }
    }
}

impl vstd::std_specs::convert::FromSpecImpl<u8> for ChannelConfig {
    open spec fn obeys_from_spec() -> bool {
        true
    }

    open spec fn from_spec(v: u8) -> ChannelConfig {
        channel_config_of(v)
    }
}

impl Default for ChannelConfig {
    fn default() -> (r: ChannelConfig)
        ensures
            r == ChannelConfig::Unknown,
    {
        ChannelConfig::Unknown
    }
}

} // verus!
