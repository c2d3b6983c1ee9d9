//! Coarse classification of a device by keywords in its name.
use vstd::prelude::*;
use crate::text::{chars_of, contains, contains_exec};

verus! {

/// The coarse category of a device.
#[derive(Clone, Copy, Debug, PartialEq, Eq, Structural)]
pub enum DeviceType {
    Peripheral,
    AudioVideo,
    Phone,
    Unknown,
}

pub const MOUSE: &'static str = "mouse";
pub const KEYBOARD: &'static str = "keyboard";
pub const HEADPHONE: &'static str = "headphone";
pub const SPEAKER: &'static str = "speaker";
pub const AUDIO: &'static str = "audio";
/// A vendor's model marker that identifies its headsets.
pub const VENDOR_AUDIO: &'static str = "hl7bt";
pub const PHONE: &'static str = "phone";
pub const MOBILE: &'static str = "mobile";

/// The lower-case form of a name, as `str::to_lowercase` computes it.
pub uninterp spec fn lower_of(s: Seq<char>) -> Seq<char>;

/// Relies on `str::to_lowercase`: its result depends on the characters of
/// the input alone.
#[verifier::external_body]
fn lowercase(s: &str) -> (r: String)
    ensures
        r@ == lower_of(s@),
{
    s.to_lowercase()
}

/// The category of an already lower-cased name: the first keyword group
/// that has a member in it decides.
pub open spec fn classify_lowered_spec(l: Seq<char>) -> DeviceType {
    if contains(l, MOUSE@) || contains(l, KEYBOARD@) {
        DeviceType::Peripheral
    } else if contains(l, HEADPHONE@) || contains(l, SPEAKER@) || contains(l, AUDIO@) || contains(
        l,
        VENDOR_AUDIO@,
    ) {
        DeviceType::AudioVideo
    } else if contains(l, PHONE@) || contains(l, MOBILE@) {
        DeviceType::Phone
    } else {
        DeviceType::Unknown
    }
}

/// The category of a device name.
pub open spec fn classify_spec(name: Seq<char>) -> DeviceType {
    classify_lowered_spec(lower_of(name))
}

/// Whether the word `w` occurs in `l`.
fn has_word(l: &Vec<char>, w: &str) -> (r: bool)
    ensures
        r == contains(l@, w@),
{
    let wv = chars_of(w);
    contains_exec(l, &wv)
}

/// Classifies an already lower-cased name.
pub fn classify_lowered(lowered: &str) -> (r: DeviceType)
    ensures
        r == classify_lowered_spec(lowered@),
{
    let l = chars_of(lowered);
    if has_word(&l, MOUSE) || has_word(&l, KEYBOARD) {
        DeviceType::Peripheral
    } else if has_word(&l, HEADPHONE) || has_word(&l, SPEAKER) || has_word(&l, AUDIO) || has_word(
        &l,
        VENDOR_AUDIO,
    ) {
        DeviceType::AudioVideo
    } else if has_word(&l, PHONE) || has_word(&l, MOBILE) {
        DeviceType::Phone
    } else {
        DeviceType::Unknown
    }
}

/// Classifies a device name, ignoring case.
pub fn classify(name: &str) -> (r: DeviceType)
    ensures
        r == classify_spec(name@),
{
    let lowered = lowercase(name);
    classify_lowered(lowered.as_str())
}

impl DeviceType {
    /// The text shown for this category.
    pub open spec fn spec_label(self) -> Seq<char> {
        match self {
            DeviceType::Peripheral => "Peripheral"@,
            DeviceType::AudioVideo => "Audio/Video"@,
            DeviceType::Phone => "Phone"@,
            DeviceType::Unknown => "Unknown"@,
        }
    }

    /// The text shown for this category.
    pub fn label(&self) -> (r: String)
        ensures
            r@ == self.spec_label(),
    {
        match self {
            DeviceType::Peripheral => "Peripheral".to_string(),
            DeviceType::AudioVideo => "Audio/Video".to_string(),
            DeviceType::Phone => "Phone".to_string(),
            DeviceType::Unknown => "Unknown".to_string(),
        }
    }
}

} // verus!
