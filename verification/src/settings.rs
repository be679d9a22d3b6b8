//! Instance settings served and updated over the API: currently only the
//! behaviour when a requested medium is missing locally.

use vstd::prelude::*;

use crate::config::spec_lookup;
use crate::downloader::{lower_of, to_ascii_lower};
use crate::text::{spec_trim, str_eq, str_to_chars, trim_range};

verus! {

/// What the frontend should do when a requested medium is not on disk.
#[derive(Clone, Copy, Debug, PartialEq, Eq, Structural)]
pub enum MissingMediaBehavior {
    NotFound,
    Prompt,
}

/// The spellings accepted for each behaviour, compared after trimming
/// and lowercasing.
pub open spec fn spec_missing_media_behavior(value: Seq<char>) -> Option<MissingMediaBehavior> {
    let norm = lower_of(spec_trim(value));
    if norm == "404"@ || norm == "not_found"@ || norm == "notfound"@ {
        Some(MissingMediaBehavior::NotFound)
    } else if norm == "prompt"@ || norm == "download"@ || norm == "ask"@ {
        Some(MissingMediaBehavior::Prompt)
    } else {
        None
    }
}

impl MissingMediaBehavior {
    pub fn parse(value: &str) -> (r: Option<Self>)
        ensures
            r == spec_missing_media_behavior(value@),
    {
        let chars = str_to_chars(value);
        let n = chars.len();
        let (lo, hi) = trim_range(&chars, 0, n);
        proof {
            assert(chars@.subrange(0, n as int) =~= chars@);
        }
        let trimmed = crate::text::chars_to_string(&chars, lo, hi);
        let norm = to_ascii_lower(trimmed.as_str());
        let v = norm.as_str();
        if str_eq(v, "404") || str_eq(v, "not_found") || str_eq(v, "notfound") {
            Some(MissingMediaBehavior::NotFound)
        } else if str_eq(v, "prompt") || str_eq(v, "download") || str_eq(v, "ask") {
            Some(MissingMediaBehavior::Prompt)
        } else {
            None
        }
    }
}

/// The settings record persisted beside the media root.
#[derive(Clone, Copy, Debug, PartialEq, Eq, Structural)]
pub struct InstanceSettings {
    pub missing_media_behavior: MissingMediaBehavior,
}

impl InstanceSettings {
    /// The defaults taken from the environment layers: an unset or
    /// unparsable behaviour falls back to not-found.
    pub fn from_env(file_vars: &Vec<(String, String)>, env_vars: &Vec<(String, String)>) -> (r:
        Self)
        ensures
            r.missing_media_behavior == (match spec_lookup(
                "NEWTUBE_MISSING_MEDIA_BEHAVIOR"@,
                file_vars.deep_view(),
                env_vars.deep_view(),
            ) {
                Some(raw) => match spec_missing_media_behavior(raw) {
                    Some(b) => b,
                    None => MissingMediaBehavior::NotFound,
                },
                None => MissingMediaBehavior::NotFound,
            }),
    {
        let raw = crate::config::lookup_value("NEWTUBE_MISSING_MEDIA_BEHAVIOR", file_vars, env_vars);
        let missing_media_behavior = match raw {
            Some(v) => match MissingMediaBehavior::parse(v.as_str()) {
                Some(b) => b,
                None => MissingMediaBehavior::NotFound,
            },
            None => MissingMediaBehavior::NotFound,
        };
        InstanceSettings { missing_media_behavior }
    }
}

} // verus!
