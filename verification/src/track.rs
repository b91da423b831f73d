use vstd::prelude::*;

verus! {

/// Metadata for one queued audio track, as plain values.
///
/// A missing or zero duration means the source is live/unbounded and has no
/// finite length to display.
pub struct Track {
    pub title: Option<String>,
    pub source_url: Option<String>,
    pub duration_secs: Option<u64>,
    pub thumbnail: Option<String>,
}

fn clone_opt_string(s: &Option<String>) -> (r: Option<String>)
    ensures
        r == *s,
{
    match s {
        Some(x) => Some(x.clone()),
        None => None,
    }
}

impl Clone for Track {
    fn clone(&self) -> (r: Track)
        ensures
            r == *self,
    {
        Track {
            title: clone_opt_string(&self.title),
            source_url: clone_opt_string(&self.source_url),
            duration_secs: self.duration_secs,
            thumbnail: clone_opt_string(&self.thumbnail),
        }
    }
}

impl Track {
    /// The title to display for this track, falling back to a fixed label
    /// when the source carried none.
    pub fn display_title(&self) -> (r: String)
        ensures
            r@ == spec_display_title(self.title),
    {
        match &self.title {
            Some(t) => t.clone(),
            None => String::from_str("Unknown title"),
        }
    }
}

/// What [`Track::display_title`] returns for a given optional title.
pub open spec fn spec_display_title(title: Option<String>) -> Seq<char> {
    match title {
        Some(t) => t@,
        None => "Unknown title"@,
    }
}

/// The text humantime renders for a duration of `secs` whole seconds; it is a
/// function of the seconds alone.
pub uninterp spec fn human_duration(secs: u64) -> Seq<char>;

/// Relies on `humantime::format_duration`: the rendered text depends only on
/// the duration passed in.
#[verifier::external_body]
fn format_secs(secs: u64) -> (r: String)
    ensures
        r@ == human_duration(secs),
{
    humantime::format_duration(std::time::Duration::from_secs(secs)).to_string()
}

/// What [`duration_format`] returns: the human-readable rendering for a
/// finite, non-zero duration, and the fixed live label otherwise.
pub open spec fn spec_duration_format(duration: Option<u64>) -> Seq<char> {
    match duration {
        Some(secs) => if secs != 0 {
            human_duration(secs)
        } else {
            "Live"@
        },
        None => "Live"@,
    }
}

/// Renders an optional track duration for display: a missing or zero
/// duration is shown as live, anything else through humantime.
pub fn duration_format(duration: Option<u64>) -> (r: String)
    ensures
        r@ == spec_duration_format(duration),
{
    match duration {
        Some(secs) => if secs != 0 {
            format_secs(secs)
        } else {
            String::from_str("Live")
        },
        None => String::from_str("Live"),
    }
}

} // verus!
