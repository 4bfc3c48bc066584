//! The manifest root.
use crate::duration_iso_8601::Duration;
use crate::element_writer::{
    all_well_formed, duration_well_formed, lemma_all_read_well_formed, lemma_duration_read,
    lemma_tags_read, put_children, put_duration, put_required_tags, put_required_text,
    put_timestamp, tags_well_formed, ToElement,
};
use crate::period::Period;
use crate::segments::{base_url_text, BaseURL};
use crate::tags::tokens_view;
use crate::text::same_text;
use crate::utils::{Descriptor, Metrics, ProgramInformation, Url};
use crate::xml::{
    all_valid, attr, children_named, collect_children, duration_attr, duration_ms, duration_value,
    get_attribute, maps_all, required_text_attr, tags_attr, tags_value, text_option, FromElement,
    ManifestError, XmlElement,
};
use vstd::prelude::*;
use vstd::string::*;

verus! {

/// The kind of presentation that a manifest describes.
#[derive(Debug, Clone, Copy, PartialEq, Eq, Structural)]
pub enum MPDType {
    Dynamic,
}

/// Whether chrono reads `s` as a timestamp with an offset.
pub uninterp spec fn timestamp_accepted(s: Seq<char>) -> bool;

/// Relies on chrono's `FromStr` for `DateTime<FixedOffset>` (RFC 3339, with a space
/// also allowed between date and time): whether it accepts the text depends on
/// the text alone.
#[verifier::external_body]
fn is_timestamp(s: &str) -> (r: bool)
    ensures
        r == timestamp_accepted(s@),
{
    s.parse::<chrono::DateTime<chrono::FixedOffset>>().is_ok()
}

/// A timestamp attribute: absent, or a text that chrono accepts.
pub open spec fn timestamp_valid(e: XmlElement, name: Seq<char>) -> bool {
    attr(e, name) is Some ==> timestamp_accepted(attr(e, name)->Some_0)
}

/// Reads a timestamp attribute; the text is kept as written.
pub fn timestamp_attr(e: &XmlElement, name: &str) -> (r: Result<Option<String>, ManifestError>)
    ensures
        r is Ok <==> timestamp_valid(*e, name@),
        r matches Ok(t) ==> text_option(t) == attr(*e, name@),
        r matches Err(err) ==> crate::xml::is_mismatch(err, *e, name@),
{
    match get_attribute(e, name) {
        Some(v) => if is_timestamp(v.as_str()) {
            Ok(Some(v.clone()))
        } else {
            Err(crate::xml::mismatch(e, name, v))
        },
        None => Ok(None),
    }
}

/// A manifest: the presentation's profiles, timing and periods.
#[derive(Debug, PartialEq)]
pub struct MPD {
    pub mpd_type: MPDType,
    pub profiles: Vec<String>,
    pub availability_start_time: Option<String>,
    pub availability_end_time: Option<String>,
    pub publish_time: Option<String>,
    pub media_presentation_duration: Option<Duration>,
    pub minimum_update_period: Option<Duration>,
    pub min_buffer_time: Option<Duration>,
    pub time_shift_buffer_depth: Option<Duration>,
    pub suggested_presentation_delay: Option<Duration>,
    pub max_segment_duration: Option<Duration>,
    pub max_subsegment_duration: Option<Duration>,
    pub periods: Vec<Period>,
    pub programme_information: Vec<ProgramInformation>,
    pub base_url: Vec<BaseURL>,
    pub locations: Vec<Url>,
    pub metrics: Vec<Metrics>,
    pub essential_property: Vec<Descriptor>,
    pub supplemental_property: Vec<Descriptor>,
    pub utc_timing: Vec<Descriptor>,
}

impl FromElement for MPD {
    open spec fn valid_element(e: XmlElement) -> bool {
        &&& attr(e, "type"@) == Some("dynamic"@)
        &&& attr(e, "profiles"@) is Some
        &&& timestamp_valid(e, "availabilityStartTime"@)
        &&& timestamp_valid(e, "availabilityEndTime"@)
        &&& timestamp_valid(e, "publishTime"@)
        &&& duration_value(e, "mediaPresentationDuration"@) is Some
        &&& duration_value(e, "minimumUpdatePeriod"@) is Some
        &&& duration_value(e, "minBufferTime"@) is Some
        &&& duration_value(e, "timeShiftBufferDepth"@) is Some
        &&& duration_value(e, "suggestedPresentationDelay"@) is Some
        &&& duration_value(e, "maxSegmentDuration"@) is Some
        &&& duration_value(e, "maxSubsegmentDuration"@) is Some
        &&& children_named(e, "Period"@).len() > 0
        &&& all_valid::<Period>(children_named(e, "Period"@))
        &&& all_valid::<ProgramInformation>(children_named(e, "ProgramInformation"@))
        &&& all_valid::<BaseURL>(children_named(e, "BaseURL"@))
        &&& all_valid::<Url>(children_named(e, "Location"@))
        &&& all_valid::<Metrics>(children_named(e, "Metrics"@))
        &&& all_valid::<Descriptor>(children_named(e, "EssentialProperty"@))
        &&& all_valid::<Descriptor>(children_named(e, "SupplementalProperty"@))
        &&& all_valid::<Descriptor>(children_named(e, "UTCTiming"@))
    }

    open spec fn maps_from(e: XmlElement, v: MPD) -> bool {
        &&& v.mpd_type == MPDType::Dynamic
        &&& tokens_view(v.profiles@) == tags_value(e, "profiles"@)
        &&& text_option(v.availability_start_time) == attr(e, "availabilityStartTime"@)
        &&& text_option(v.availability_end_time) == attr(e, "availabilityEndTime"@)
        &&& text_option(v.publish_time) == attr(e, "publishTime"@)
        &&& duration_value(e, "mediaPresentationDuration"@) == Some(
            duration_ms(v.media_presentation_duration),
        )
        &&& duration_value(e, "minimumUpdatePeriod"@) == Some(duration_ms(v.minimum_update_period))
        &&& duration_value(e, "minBufferTime"@) == Some(duration_ms(v.min_buffer_time))
        &&& duration_value(e, "timeShiftBufferDepth"@) == Some(
            duration_ms(v.time_shift_buffer_depth),
        )
        &&& duration_value(e, "suggestedPresentationDelay"@) == Some(
            duration_ms(v.suggested_presentation_delay),
        )
        &&& duration_value(e, "maxSegmentDuration"@) == Some(duration_ms(v.max_segment_duration))
        &&& duration_value(e, "maxSubsegmentDuration"@) == Some(
            duration_ms(v.max_subsegment_duration),
        )
        &&& maps_all(children_named(e, "Period"@), v.periods@)
        &&& maps_all(children_named(e, "ProgramInformation"@), v.programme_information@)
        &&& maps_all(children_named(e, "BaseURL"@), v.base_url@)
        &&& maps_all(children_named(e, "Location"@), v.locations@)
        &&& maps_all(children_named(e, "Metrics"@), v.metrics@)
        &&& maps_all(children_named(e, "EssentialProperty"@), v.essential_property@)
        &&& maps_all(children_named(e, "SupplementalProperty"@), v.supplemental_property@)
        &&& maps_all(children_named(e, "UTCTiming"@), v.utc_timing@)
    }

    fn from_element(e: &XmlElement) -> (r: Result<MPD, ManifestError>) {
        let kind = required_text_attr(e, "type")?;
        if !same_text(kind.as_str(), "dynamic") {
            return Err(crate::xml::mismatch(e, "type", &kind));
        }
        required_text_attr(e, "profiles")?;
        let availability_start_time = timestamp_attr(e, "availabilityStartTime")?;
        let availability_end_time = timestamp_attr(e, "availabilityEndTime")?;
        let publish_time = timestamp_attr(e, "publishTime")?;
        let media_presentation_duration = duration_attr(e, "mediaPresentationDuration")?;
        let minimum_update_period = duration_attr(e, "minimumUpdatePeriod")?;
        let min_buffer_time = duration_attr(e, "minBufferTime")?;
        let time_shift_buffer_depth = duration_attr(e, "timeShiftBufferDepth")?;
        let suggested_presentation_delay = duration_attr(e, "suggestedPresentationDelay")?;
        let max_segment_duration = duration_attr(e, "maxSegmentDuration")?;
        let max_subsegment_duration = duration_attr(e, "maxSubsegmentDuration")?;
        let periods: Vec<Period> = collect_children(e, "Period")?;
        if periods.len() == 0 {
            return Err(
                ManifestError::SchemaViolation {
                    element: e.name.clone(),
                    field: String::from_str("Period"),
                },
            );
        }
        let programme_information = collect_children(e, "ProgramInformation")?;
        let base_url = collect_children(e, "BaseURL")?;
        let locations = collect_children(e, "Location")?;
        let metrics = collect_children(e, "Metrics")?;
        let essential_property = collect_children(e, "EssentialProperty")?;
        let supplemental_property = collect_children(e, "SupplementalProperty")?;
        let utc_timing = collect_children(e, "UTCTiming")?;
        Ok(
            MPD {
                mpd_type: MPDType::Dynamic,
                profiles: tags_attr(e, "profiles"),
                availability_start_time,
                availability_end_time,
                publish_time,
                media_presentation_duration,
                minimum_update_period,
                min_buffer_time,
                time_shift_buffer_depth,
                suggested_presentation_delay,
                max_segment_duration,
                max_subsegment_duration,
                periods,
                programme_information,
                base_url,
                locations,
                metrics,
                essential_property,
                supplemental_property,
                utc_timing,
            },
        )
    }
}

/// The texts with `sep` between each two.
pub open spec fn join_with(l: Seq<Seq<char>>, sep: Seq<char>) -> Seq<char>
    decreases l.len(),
{
    if l.len() == 0 {
        Seq::empty()
    } else if l.len() == 1 {
        l[0]
    } else {
        join_with(l.drop_last(), sep) + sep + l.last()
    }
}

/// Lists the texts, separated by a comma and a space.
pub fn display_vec_with_commat(items: &Vec<String>) -> (r: String)
    ensures
        r@ == join_with(tokens_view(items@), ", "@),
{
    let mut out = String::new();
    let n = items.len();
    if n == 0 {
        return out;
    }
    out.append(items[0].as_str());
    let mut i: usize = 1;
    assert(tokens_view(items@).take(1) =~= seq![items@[0]@]);
    while i < n
        invariant
            1 <= i <= n,
            n == items@.len(),
            out@ == join_with(tokens_view(items@).take(i as int), ", "@),
        decreases n - i,
    {
        let ghost t = tokens_view(items@).take(i + 1);
        assert(t.drop_last() =~= tokens_view(items@).take(i as int));
        out.append(", ");
        out.append(items[i].as_str());
        assert(out@ =~= join_with(t, ", "@));
        i = i + 1;
    }
    assert(tokens_view(items@).take(n as int) =~= tokens_view(items@));
    out
}

/// The summary of a manifest: its locations and its base URLs, each list only
/// where it is not empty.
pub open spec fn mpd_summary(m: MPD) -> Seq<char> {
    let locations = m.locations@.map_values(|u: Url| u.url@);
    let bases = m.base_url@.map_values(|b: BaseURL| base_url_text(b));
    (if locations.len() > 0 {
        "locations: "@ + join_with(locations, ", "@)
    } else {
        Seq::empty()
    }) + (if bases.len() > 0 {
        "base urls: "@ + join_with(bases, ", "@)
    } else {
        Seq::empty()
    })
}

impl MPD {
    /// A one-line summary of the manifest.
    pub fn display(&self) -> (r: String)
        ensures
            r@ == mpd_summary(*self),
    {
        let mut out = String::new();
        if self.locations.len() > 0 {
            let mut texts: Vec<String> = Vec::new();
            let mut i: usize = 0;
            while i < self.locations.len()
                invariant
                    i <= self.locations@.len(),
                    texts@.len() == i,
                    forall|j: int|
                        0 <= j < i ==> (#[trigger] texts@[j])@ == self.locations@[j].url@,
                decreases self.locations@.len() - i,
            {
                texts.push(self.locations[i].url.clone());
                i = i + 1;
            }
            assert(tokens_view(texts@) =~= self.locations@.map_values(|u: Url| u.url@));
            out.append("locations: ");
            out.append(display_vec_with_commat(&texts).as_str());
        }
        if self.base_url.len() > 0 {
            let mut texts: Vec<String> = Vec::new();
            let mut i: usize = 0;
            while i < self.base_url.len()
                invariant
                    i <= self.base_url@.len(),
                    texts@.len() == i,
                    forall|j: int|
                        0 <= j < i ==> (#[trigger] texts@[j])@ == base_url_text(
                            self.base_url@[j],
                        ),
                decreases self.base_url@.len() - i,
            {
                texts.push(self.base_url[i].display());
                i = i + 1;
            }
            assert(tokens_view(texts@) =~= self.base_url@.map_values(
                |b: BaseURL| base_url_text(b),
            ));
            out.append("base urls: ");
            out.append(display_vec_with_commat(&texts).as_str());
        }
        assert(out@ =~= mpd_summary(*self));
        out
    }
}

/// A timestamp that chrono accepts, or none.
pub open spec fn timestamp_well_formed(t: Option<String>) -> bool {
    match t {
        Some(x) => timestamp_accepted(x@),
        None => true,
    }
}

impl ToElement for MPD {
    open spec fn well_formed(&self) -> bool {
        &&& self.profiles@.len() > 0
        &&& tags_well_formed(self.profiles@)
        &&& timestamp_well_formed(self.availability_start_time)
        &&& timestamp_well_formed(self.availability_end_time)
        &&& timestamp_well_formed(self.publish_time)
        &&& duration_well_formed(self.media_presentation_duration)
        &&& duration_well_formed(self.minimum_update_period)
        &&& duration_well_formed(self.min_buffer_time)
        &&& duration_well_formed(self.time_shift_buffer_depth)
        &&& duration_well_formed(self.suggested_presentation_delay)
        &&& duration_well_formed(self.max_segment_duration)
        &&& duration_well_formed(self.max_subsegment_duration)
        &&& self.periods@.len() > 0
        &&& all_well_formed(self.periods@)
        &&& all_well_formed(self.programme_information@)
        &&& all_well_formed(self.base_url@)
        &&& all_well_formed(self.locations@)
        &&& all_well_formed(self.metrics@)
        &&& all_well_formed(self.essential_property@)
        &&& all_well_formed(self.supplemental_property@)
        &&& all_well_formed(self.utc_timing@)
    }

    open spec fn writes_attr(n: Seq<char>) -> bool {
        n == "type"@ || n == "profiles"@ || n == "availabilityStartTime"@ || n == "availabilityEndTime"@ || n == "publishTime"@ || n == "mediaPresentationDuration"@ || n == "minimumUpdatePeriod"@ || n == "minBufferTime"@ || n == "timeShiftBufferDepth"@ || n == "suggestedPresentationDelay"@ || n == "maxSegmentDuration"@ || n == "maxSubsegmentDuration"@
    }

    open spec fn writes_child(n: Seq<char>) -> bool {
        n == "Period"@ || n == "ProgramInformation"@ || n == "BaseURL"@ || n == "Location"@ || n == "Metrics"@ || n == "EssentialProperty"@ || n == "SupplementalProperty"@ || n == "UTCTiming"@
    }

    proof fn lemma_read_well_formed(e: XmlElement, v: MPD) {
        lemma_tags_read(e, "profiles"@, v.profiles@);
        crate::tags::lemma_split_len(attr(e, "profiles"@)->Some_0);
        lemma_duration_read(e, "mediaPresentationDuration"@, v.media_presentation_duration);
        lemma_duration_read(e, "minimumUpdatePeriod"@, v.minimum_update_period);
        lemma_duration_read(e, "minBufferTime"@, v.min_buffer_time);
        lemma_duration_read(e, "timeShiftBufferDepth"@, v.time_shift_buffer_depth);
        lemma_duration_read(e, "suggestedPresentationDelay"@, v.suggested_presentation_delay);
        lemma_duration_read(e, "maxSegmentDuration"@, v.max_segment_duration);
        lemma_duration_read(e, "maxSubsegmentDuration"@, v.max_subsegment_duration);
        lemma_all_read_well_formed::<Period>(children_named(e, "Period"@), v.periods@);
        lemma_all_read_well_formed::<ProgramInformation>(children_named(e, "ProgramInformation"@), v.programme_information@);
        lemma_all_read_well_formed::<BaseURL>(children_named(e, "BaseURL"@), v.base_url@);
        lemma_all_read_well_formed::<Url>(children_named(e, "Location"@), v.locations@);
        lemma_all_read_well_formed::<Metrics>(children_named(e, "Metrics"@), v.metrics@);
        lemma_all_read_well_formed::<Descriptor>(children_named(e, "EssentialProperty"@), v.essential_property@);
        lemma_all_read_well_formed::<Descriptor>(children_named(e, "SupplementalProperty"@), v.supplemental_property@);
        lemma_all_read_well_formed::<Descriptor>(children_named(e, "UTCTiming"@), v.utc_timing@);
    }

    #[verifier::rlimit(60)]
    fn to_element(&self, name: &str) -> (r: XmlElement) {
        proof {
            reveal_strlit("type");
            reveal_strlit("profiles");
            reveal_strlit("availabilityStartTime");
            reveal_strlit("availabilityEndTime");
            reveal_strlit("publishTime");
            reveal_strlit("mediaPresentationDuration");
            reveal_strlit("minimumUpdatePeriod");
            reveal_strlit("minBufferTime");
            reveal_strlit("timeShiftBufferDepth");
            reveal_strlit("suggestedPresentationDelay");
            reveal_strlit("maxSegmentDuration");
            reveal_strlit("maxSubsegmentDuration");
            reveal_strlit("Period");
            reveal_strlit("ProgramInformation");
            reveal_strlit("BaseURL");
            reveal_strlit("Location");
            reveal_strlit("Metrics");
            reveal_strlit("EssentialProperty");
            reveal_strlit("SupplementalProperty");
            reveal_strlit("UTCTiming");
            reveal_strlit("dynamic");
            assert("type"@.len() == 4);
            assert("profiles"@.len() == 8);
            assert("availabilityStartTime"@.len() == 21);
            assert("availabilityEndTime"@.len() == 19);
            assert("publishTime"@.len() == 11);
            assert("mediaPresentationDuration"@.len() == 25);
            assert("minimumUpdatePeriod"@.len() == 19);
            assert("minBufferTime"@.len() == 13);
            assert("timeShiftBufferDepth"@.len() == 20);
            assert("suggestedPresentationDelay"@.len() == 26);
            assert("maxSegmentDuration"@.len() == 18);
            assert("maxSubsegmentDuration"@.len() == 21);
            assert("Period"@.len() == 6);
            assert("ProgramInformation"@.len() == 18);
            assert("BaseURL"@.len() == 7);
            assert("Location"@.len() == 8);
            assert("Metrics"@.len() == 7);
            assert("EssentialProperty"@.len() == 17);
            assert("SupplementalProperty"@.len() == 20);
            assert("UTCTiming"@.len() == 9);
            assert("dynamic"@.len() == 7);
            assert("profiles"@[0] == 'p');
            assert("availabilityStartTime"@[0] == 'a');
            assert("availabilityEndTime"@[0] == 'a');
            assert("minimumUpdatePeriod"@[0] == 'm');
            assert("timeShiftBufferDepth"@[0] == 't');
            assert("maxSegmentDuration"@[0] == 'm');
            assert("maxSubsegmentDuration"@[0] == 'm');
            assert("ProgramInformation"@[0] == 'P');
            assert("BaseURL"@[0] == 'B');
            assert("Location"@[0] == 'L');
            assert("Metrics"@[0] == 'M');
            assert("SupplementalProperty"@[0] == 'S');
            assert("dynamic"@[0] == 'd');
        }
        let mut e = XmlElement::new(name);
        put_required_text(&mut e, "type", &String::from_str("dynamic"));
        put_required_tags(&mut e, "profiles", &self.profiles);
        put_timestamp(&mut e, "availabilityStartTime", &self.availability_start_time);
        put_timestamp(&mut e, "availabilityEndTime", &self.availability_end_time);
        put_timestamp(&mut e, "publishTime", &self.publish_time);
        put_duration(&mut e, "mediaPresentationDuration", self.media_presentation_duration);
        put_duration(&mut e, "minimumUpdatePeriod", self.minimum_update_period);
        put_duration(&mut e, "minBufferTime", self.min_buffer_time);
        put_duration(&mut e, "timeShiftBufferDepth", self.time_shift_buffer_depth);
        put_duration(&mut e, "suggestedPresentationDelay", self.suggested_presentation_delay);
        put_duration(&mut e, "maxSegmentDuration", self.max_segment_duration);
        put_duration(&mut e, "maxSubsegmentDuration", self.max_subsegment_duration);
        put_children(&mut e, "Period", &self.periods);
        put_children(&mut e, "ProgramInformation", &self.programme_information);
        put_children(&mut e, "BaseURL", &self.base_url);
        put_children(&mut e, "Location", &self.locations);
        put_children(&mut e, "Metrics", &self.metrics);
        put_children(&mut e, "EssentialProperty", &self.essential_property);
        put_children(&mut e, "SupplementalProperty", &self.supplemental_property);
        put_children(&mut e, "UTCTiming", &self.utc_timing);
        e
    }
}

/// Reads a manifest from its root element. A manifest that is read can always be
/// written back.
pub fn read_manifest(e: &XmlElement) -> (r: Result<MPD, ManifestError>)
    ensures
        r is Ok <==> MPD::valid_element(*e),
        r matches Ok(m) ==> MPD::maps_from(*e, m) && m.well_formed(),
{
    let r = MPD::from_element(e);
    proof {
        if r is Ok {
            MPD::lemma_read_well_formed(*e, r->Ok_0);
        }
    }
    r
}

/// Writes a manifest as an `MPD` element that reads back as the same manifest:
/// the same fields and values, and the same children in the same order.
pub fn write_manifest(m: &MPD) -> (r: XmlElement)
    requires
        m.well_formed(),
    ensures
        r.name@ == "MPD"@,
        MPD::valid_element(r),
        MPD::maps_from(r, *m),
{
    m.to_element("MPD")
}

} // verus!
