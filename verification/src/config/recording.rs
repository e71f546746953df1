//! How calls are recorded.
use crate::option::RecorderFormat;
use crate::text;
use vstd::prelude::*;
use vstd::string::*;

verus! {

/// Directory for recordings unless told otherwise.
pub const DEFAULT_RECORDER_PATH: &'static str = "./config/recorders";

/// How calls are recorded.
#[derive(Debug, PartialEq, Eq)]
pub struct RecordingPolicy {
    pub enabled: bool,
    pub auto_start: Option<bool>,
    pub filename_pattern: Option<String>,
    pub samplerate: Option<u32>,
    pub ptime: Option<u32>,
    pub path: Option<String>,
    pub format: Option<RecorderFormat>,
    /// Keep the rate of the source.
    pub native_samplerate: Option<bool>,
}

impl Clone for RecordingPolicy {
    fn clone(&self) -> (r: Self)
        ensures
            r == *self,
    {
        RecordingPolicy {
            enabled: self.enabled,
            auto_start: self.auto_start,
            filename_pattern: self.filename_pattern.clone(),
            samplerate: self.samplerate,
            ptime: self.ptime,
            path: self.path.clone(),
            format: self.format,
            native_samplerate: self.native_samplerate,
        }
    }
}

impl Default for RecordingPolicy {
    fn default() -> (r: Self)
        ensures
            r == (RecordingPolicy {
                enabled: false,
                auto_start: None,
                filename_pattern: None,
                samplerate: None,
                ptime: None,
                path: None,
                format: None,
                native_samplerate: None,
            }),
    {
        RecordingPolicy {
            enabled: false,
            auto_start: None,
            filename_pattern: None,
            samplerate: None,
            ptime: None,
            path: None,
            format: None,
            native_samplerate: None,
        }
    }
}

impl RecordingPolicy {
    /// A directory is named.
    pub open spec fn has_path(&self) -> bool {
        self.path matches Some(p) && text::trim_of(p@).len() > 0
    }

    /// The directory for recordings.
    pub open spec fn path_of(&self) -> Seq<char> {
        if self.has_path() {
            text::trim_of(self.path->0@)
        } else {
            DEFAULT_RECORDER_PATH@
        }
    }

    /// The settings after what they leave open was filled in.
    pub open spec fn filled_from(self, before: RecordingPolicy) -> bool {
        &&& self == (RecordingPolicy { path: self.path, ..before })
        &&& if before.has_path() {
            self.path == before.path
        } else {
            text::opt_view(self.path) == Some(DEFAULT_RECORDER_PATH@)
        }
    }

    /// The directory for recordings.
    pub fn recorder_path(&self) -> (r: String)
        ensures
            r@ == self.path_of(),
    {
        if let Some(p) = &self.path {
            let p: String = text::trim(p.as_str());
            if p.as_str().unicode_len() != 0 {
                return p;
            }
        }
        DEFAULT_RECORDER_PATH.to_string()
    }

    /// The format of recordings.
    pub fn recorder_format(&self) -> (r: RecorderFormat)
        ensures
            r == match self.format {
                Some(f) => f,
                None => RecorderFormat::Wav,
            },
    {
        match self.format {
            Some(f) => f,
            None => RecorderFormat::default(),
        }
    }

    /// Names a directory where none is named. Nothing is ever taken back for
    /// it.
    pub fn ensure_defaults(&mut self) -> (r: bool)
        ensures
            !r,
            final(self).filled_from(*old(self)),
    {
        let blank: bool = match &self.path {
            Some(p) => text::trim(p.as_str()).as_str().unicode_len() == 0,
            None => true,
        };
        if blank {
            self.path = Some(DEFAULT_RECORDER_PATH.to_string());
        }
        false
    }
}

/// Filling in the directory does not change which one is used.
pub proof fn law_filled_policy_uses_same_path(before: RecordingPolicy, after: RecordingPolicy)
    requires
        after.filled_from(before),
    ensures
        after.path_of() == before.path_of(),
{
    if !before.has_path() {
        reveal_strlit("./config/recorders");
        text::lemma_plain_is_trimmed(DEFAULT_RECORDER_PATH@);
    }
}

/// Recordings go where the settings say, without the white space around it; where
/// they say nothing, they go to a place of their own. Filling in names just that
/// place, and touches nothing else.
pub proof fn law_recordings_have_a_place(policy: RecordingPolicy, after: RecordingPolicy)
    ensures
        policy.path matches Some(p) ==> (text::trim_of(p@).len() > 0 ==> policy.path_of()
            == text::trim_of(p@)),
        policy.path matches Some(p) ==> (text::trim_of(p@).len() == 0 ==> policy.path_of()
            == "./config/recorders"@),
        policy.path is None ==> policy.path_of() == "./config/recorders"@,
        after.filled_from(policy) ==> {
            &&& after.path is Some
            &&& policy.path matches Some(p) ==> (text::trim_of(p@).len() > 0 ==> after.path
                == policy.path)
            &&& after == (RecordingPolicy { path: after.path, ..policy })
        },
{
}

}
