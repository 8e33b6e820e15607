//! Metric kinds and the status updates built from fetched summaries: the
//! visible title/subtitle lines, the degraded placeholder shown when a fetch
//! fails, the overlay rendering, and the fetch-error message fallback.

use vstd::prelude::*;
use crate::models::{StepsSummaryResponse, WaterSummaryResponse};
use crate::numfmt::{dec_rep, format_number, spec_format_number, u64_dec};

verus! {

/// One tracked personal-metric category, in fixed priority order.
#[derive(Clone, Copy, Debug, PartialEq, Eq, Structural)]
pub enum MetricKind {
    Steps,
    Water,
    Sleep,
}

/// The lower-case name of a kind, as shown in degraded statuses.
pub open spec fn spec_kind_name(k: MetricKind) -> Seq<char> {
    match k {
        MetricKind::Steps => "steps"@,
        MetricKind::Water => "water"@,
        MetricKind::Sleep => "sleep"@,
    }
}

/// The hover text shown over a kind's decorative image.
pub open spec fn spec_hover_text(k: MetricKind) -> Seq<char> {
    match k {
        MetricKind::Steps => "I'm walking here!"@,
        MetricKind::Water => "Staying hydrated!"@,
        MetricKind::Sleep => "Fast asleep!"@,
    }
}

/// Every kind, in the fixed priority order that rotation follows.
pub fn all_kinds() -> (r: Vec<MetricKind>)
    ensures
        r@ == seq![MetricKind::Steps, MetricKind::Water, MetricKind::Sleep],
{
    let mut v: Vec<MetricKind> = Vec::new();
    v.push(MetricKind::Steps);
    v.push(MetricKind::Water);
    v.push(MetricKind::Sleep);
    proof {
        assert(v@ =~= seq![MetricKind::Steps, MetricKind::Water, MetricKind::Sleep]);
    }
    v
}

impl MetricKind {
    /// The lower-case name of this kind.
    pub fn name(&self) -> (r: String)
        ensures
            r@ == spec_kind_name(*self),
    {
        match self {
            MetricKind::Steps => String::from_str("steps"),
            MetricKind::Water => String::from_str("water"),
            MetricKind::Sleep => String::from_str("sleep"),
        }
    }

    /// The hover text for this kind's decorative image.
    pub fn hover_text(&self) -> (r: String)
        ensures
            r@ == spec_hover_text(*self),
    {
        match self {
            MetricKind::Steps => String::from_str("I'm walking here!"),
            MetricKind::Water => String::from_str("Staying hydrated!"),
            MetricKind::Sleep => String::from_str("Fast asleep!"),
        }
    }
}

/// A fetched daily/monthly/yearly aggregate for one kind. Sources either
/// return raw counts, which the library formats, or pre-formatted display
/// strings, which are shown as they came.
#[allow(inconsistent_fields)]
pub enum MetricSummary {
    Counts { daily: i64, monthly: i64, yearly: i64 },
    Display { daily: String, monthly: String, yearly: String },
}

/// The display text for a summary's daily aggregate.
pub open spec fn spec_daily_text(s: MetricSummary) -> Seq<char> {
    match s {
        MetricSummary::Counts { daily, .. } => spec_format_number(daily as int),
        MetricSummary::Display { daily, .. } => daily@,
    }
}

/// The display text for a summary's monthly aggregate.
pub open spec fn spec_monthly_text(s: MetricSummary) -> Seq<char> {
    match s {
        MetricSummary::Counts { monthly, .. } => spec_format_number(monthly as int),
        MetricSummary::Display { monthly, .. } => monthly@,
    }
}

/// The display text for a summary's yearly aggregate.
pub open spec fn spec_yearly_text(s: MetricSummary) -> Seq<char> {
    match s {
        MetricSummary::Counts { yearly, .. } => spec_format_number(yearly as int),
        MetricSummary::Display { yearly, .. } => yearly@,
    }
}

/// The status title line for a summary.
pub open spec fn spec_details(s: MetricSummary) -> Seq<char> {
    "Today: "@ + spec_daily_text(s)
}

/// The status subtitle line for a summary.
pub open spec fn spec_state(s: MetricSummary) -> Seq<char> {
    "Monthly: "@ + spec_monthly_text(s) + " | Yearly: "@ + spec_yearly_text(s)
}

/// The plain-text overlay rendering of a summary: the title and subtitle
/// lines, each newline-terminated.
pub open spec fn spec_overlay(s: MetricSummary) -> Seq<char> {
    spec_details(s) + "\n"@ + spec_state(s) + "\n"@
}

/// A decorative image reference carried by a status update.
pub struct ImageAsset {
    pub key: String,
    pub hover: String,
}

/// One visible presence status: a title, a subtitle, an optional visible
/// time window (Unix seconds), and an optional decorative image.
pub struct StatusUpdate {
    pub details: String,
    pub state: String,
    pub window: Option<(u64, u64)>,
    pub image: Option<ImageAsset>,
}

/// The image carried by a status built for `kind` with the configured
/// `image_key`: present exactly when a non-empty key is configured.
pub open spec fn spec_image_of(k: MetricKind, image_key: Option<String>) -> Option<
    (Seq<char>, Seq<char>),
> {
    match image_key {
        Some(key) => if key@.len() > 0 {
            Some((key@, spec_hover_text(k)))
        } else {
            None
        },
        None => None,
    }
}

/// Builds the daily-aggregate title line of a summary.
fn daily_text(s: &MetricSummary) -> (r: String)
    ensures
        r@ == spec_daily_text(*s),
{
    match s {
        MetricSummary::Counts { daily, .. } => format_number(*daily),
        MetricSummary::Display { daily, .. } => daily.clone(),
    }
}

/// Builds the monthly-aggregate display text of a summary.
fn monthly_text(s: &MetricSummary) -> (r: String)
    ensures
        r@ == spec_monthly_text(*s),
{
    match s {
        MetricSummary::Counts { monthly, .. } => format_number(*monthly),
        MetricSummary::Display { monthly, .. } => monthly.clone(),
    }
}

/// Builds the yearly-aggregate display text of a summary.
fn yearly_text(s: &MetricSummary) -> (r: String)
    ensures
        r@ == spec_yearly_text(*s),
{
    match s {
        MetricSummary::Counts { yearly, .. } => format_number(*yearly),
        MetricSummary::Display { yearly, .. } => yearly.clone(),
    }
}

/// Builds the status update for a successfully fetched summary: the exact
/// title and subtitle lines, the given visible time window (absent when
/// none could be determined), and the kind's decorative image when a
/// non-empty key is configured.
pub fn build_status(
    kind: MetricKind,
    summary: &MetricSummary,
    window: Option<(u64, u64)>,
    image_key: &Option<String>,
) -> (r: StatusUpdate)
    ensures
        r.details@ == spec_details(*summary),
        r.state@ == spec_state(*summary),
        r.window == window,
        (match r.image {
            Some(a) => spec_image_of(kind, *image_key) == Some((a.key@, a.hover@)),
            None => spec_image_of(kind, *image_key) is None,
        }),
{
    let mut details = String::from_str("Today: ");
    let d = daily_text(summary);
    details.append(d.as_str());

    let mut state = String::from_str("Monthly: ");
    let m = monthly_text(summary);
    state.append(m.as_str());
    state.append(" | Yearly: ");
    let y = yearly_text(summary);
    state.append(y.as_str());

    let image: Option<ImageAsset> = match image_key {
        Some(key) => if key.as_str().unicode_len() > 0 {
            Some(ImageAsset { key: key.clone(), hover: kind.hover_text() })
        } else {
            None
        },
        None => None,
    };

    assert(details@ =~= spec_details(*summary));
    assert(state@ =~= spec_state(*summary));
    StatusUpdate { details, state, window, image }
}

/// Builds the degraded placeholder status published when a fetch for `kind`
/// fails: a fixed error title and a "Unable to fetch <kind>" subtitle, with
/// no time window and no image.
pub fn degraded_status(kind: MetricKind) -> (r: StatusUpdate)
    ensures
        r.details@ == "API connection error"@,
        r.state@ == "Unable to fetch "@ + spec_kind_name(kind),
        r.window is None,
        r.image is None,
{
    let details = String::from_str("API connection error");
    let mut state = String::from_str("Unable to fetch ");
    let n = kind.name();
    state.append(n.as_str());
    assert(state@ =~= "Unable to fetch "@ + spec_kind_name(kind));
    StatusUpdate { details, state, window: None, image: None }
}

/// Renders a summary for the overlay file: the title and subtitle lines,
/// each newline-terminated.
pub fn overlay_text(summary: &MetricSummary) -> (r: String)
    ensures
        r@ == spec_overlay(*summary),
{
    let mut text = String::from_str("Today: ");
    let d = daily_text(summary);
    text.append(d.as_str());
    text.append("\n");
    text.append("Monthly: ");
    let m = monthly_text(summary);
    text.append(m.as_str());
    text.append(" | Yearly: ");
    let y = yearly_text(summary);
    text.append(y.as_str());
    text.append("\n");
    assert(text@ =~= spec_overlay(*summary));
    text
}

/// The message reported for a failed fetch: the error field of the response
/// body when one was parsed, else "HTTP <code> <reason>".
pub fn fetch_error_message(body_error: Option<String>, code: u16, reason: &str) -> (r: String)
    ensures
        (match body_error {
            Some(e) => r@ == e@,
            None => r@ == "HTTP "@ + dec_rep(code as nat) + " "@ + reason@,
        }),
{
    match body_error {
        Some(e) => e,
        None => {
            let mut msg = String::from_str("HTTP ");
            let c = u64_dec(code as u64);
            msg.append(c.as_str());
            msg.append(" ");
            msg.append(reason);
            assert(msg@ =~= "HTTP "@ + dec_rep(code as nat) + " "@ + reason@);
            msg
        },
    }
}

/// Wraps a raw-count summary, as the steps endpoint returns one.
pub fn summary_from_steps(s: StepsSummaryResponse) -> (r: MetricSummary)
    ensures
        r == (MetricSummary::Counts { daily: s.daily, monthly: s.monthly, yearly: s.yearly }),
{
    MetricSummary::Counts { daily: s.daily, monthly: s.monthly, yearly: s.yearly }
}

/// Wraps a pre-formatted summary, as the water endpoint returns one.
pub fn summary_from_water(w: WaterSummaryResponse) -> (r: MetricSummary)
    ensures
        (r matches MetricSummary::Display { daily, monthly, yearly } && daily@
            == w.daily_display@ && monthly@ == w.monthly_display@ && yearly@
            == w.yearly_display@),
{
    MetricSummary::Display {
        daily: w.daily_display,
        monthly: w.monthly_display,
        yearly: w.yearly_display,
    }
}

} // verus!
