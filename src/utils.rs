//! The small entities shared across the document: remote inclusion, descriptors,
//! metrics, program information, events, subsets, content components, switching.
use crate::duration_iso_8601::Duration;
use crate::element_writer::{
    all_well_formed, duration_well_formed, keeps_others, lemma_all_read_well_formed,
    lemma_duration_read, put_attribute, put_children, put_duration, put_required_text,
    put_required_u64, put_required_u64_list, put_text, put_text_child, put_u64, ToElement,
};
use crate::text::same_text;
use crate::xml::{
    all_valid, attr, child_text, child_text_value, children_named, collect_children, duration_attr,
    duration_ms, duration_value, get_attribute, maps_all, required_text_attr, required_u64_attr,
    text_attr, text_value, u64_attr, u64_list_attr, u64_list_value, u64_value, FromElement,
    ManifestError, XmlElement,
};
use vstd::prelude::*;
use vstd::string::*;

verus! {

/// When remotely included content is resolved.
#[derive(Debug, Clone, Copy, PartialEq, Eq, Structural)]
pub enum HrefActuate {
    OnLoad,
    OnRequest,
    Other,
    Never,
}

impl HrefActuate {
    /// Remote content is resolved on request unless the document says otherwise.
    pub fn default() -> (r: Self)
        ensures
            r == HrefActuate::OnRequest,
    {
        HrefActuate::OnRequest
    }
}

pub open spec fn actuate_of_text(v: Seq<char>) -> Option<HrefActuate> {
    if v == "onLoad"@ {
        Some(HrefActuate::OnLoad)
    } else if v == "onRequest"@ {
        Some(HrefActuate::OnRequest)
    } else if v == "other"@ {
        Some(HrefActuate::Other)
    } else if v == "none"@ {
        Some(HrefActuate::Never)
    } else {
        None
    }
}

/// The `xlink:actuate` attribute: absent is on request.
pub open spec fn actuate_value(e: XmlElement) -> Option<HrefActuate> {
    match attr(e, "xlink:actuate"@) {
        Some(v) => actuate_of_text(v),
        None => Some(HrefActuate::OnRequest),
    }
}

/// Reads the `xlink:actuate` attribute.
pub fn actuate_attr(e: &XmlElement) -> (r: Result<HrefActuate, ManifestError>)
    ensures
        r is Ok <==> actuate_value(*e) is Some,
        r matches Ok(a) ==> actuate_value(*e) == Some(a),
        r matches Err(err) ==> crate::xml::is_mismatch(err, *e, "xlink:actuate"@),
{
    match get_attribute(e, "xlink:actuate") {
        Some(v) => {
            let t = v.as_str();
            if same_text(t, "onLoad") {
                Ok(HrefActuate::OnLoad)
            } else if same_text(t, "onRequest") {
                Ok(HrefActuate::OnRequest)
            } else if same_text(t, "other") {
                Ok(HrefActuate::Other)
            } else if same_text(t, "none") {
                Ok(HrefActuate::Never)
            } else {
                Err(crate::xml::mismatch(e, "xlink:actuate", v))
            }
        },
        None => Ok(HrefActuate::default()),
    }
}

/// A location given as the text of an element.
#[derive(Debug, PartialEq)]
pub struct Url {
    pub url: String,
}

impl FromElement for Url {
    open spec fn valid_element(e: XmlElement) -> bool {
        true
    }

    open spec fn maps_from(e: XmlElement, v: Url) -> bool {
        v.url@ == e.text@
    }

    fn from_element(e: &XmlElement) -> (r: Result<Url, ManifestError>) {
        Ok(Url { url: e.text.clone() })
    }
}

/// A property named by a scheme, with an optional value and id.
#[derive(Debug, PartialEq)]
pub struct Descriptor {
    pub scheme_id_uri: String,
    pub value: String,
    pub id: String,
}

impl FromElement for Descriptor {
    open spec fn valid_element(e: XmlElement) -> bool {
        attr(e, "schemeIdUri"@) is Some
    }

    open spec fn maps_from(e: XmlElement, v: Descriptor) -> bool {
        &&& attr(e, "schemeIdUri"@) == Some(v.scheme_id_uri@)
        &&& v.value@ == text_value(e, "value"@)
        &&& v.id@ == text_value(e, "id"@)
    }

    fn from_element(e: &XmlElement) -> (r: Result<Descriptor, ManifestError>) {
        let scheme_id_uri = required_text_attr(e, "schemeIdUri")?;
        Ok(Descriptor { scheme_id_uri, value: text_attr(e, "value"), id: text_attr(e, "id") })
    }
}

/// The time span over which metrics are collected.
#[derive(Debug, PartialEq)]
pub struct Range {
    pub start_time: Option<Duration>,
    pub duration: Option<Duration>,
}

impl FromElement for Range {
    open spec fn valid_element(e: XmlElement) -> bool {
        &&& duration_value(e, "starttime"@) is Some
        &&& duration_value(e, "duration"@) is Some
    }

    open spec fn maps_from(e: XmlElement, v: Range) -> bool {
        &&& duration_value(e, "starttime"@) == Some(duration_ms(v.start_time))
        &&& duration_value(e, "duration"@) == Some(duration_ms(v.duration))
    }

    fn from_element(e: &XmlElement) -> (r: Result<Range, ManifestError>) {
        let start_time = duration_attr(e, "starttime")?;
        let duration = duration_attr(e, "duration")?;
        Ok(Range { start_time, duration })
    }
}

/// Which metrics a client reports, how, and over which ranges.
#[derive(Debug, PartialEq)]
pub struct Metrics {
    pub metrics: String,
    pub reporting: Vec<Descriptor>,
    pub range: Vec<Range>,
}

impl FromElement for Metrics {
    open spec fn valid_element(e: XmlElement) -> bool {
        &&& attr(e, "metrics"@) is Some
        &&& all_valid::<Descriptor>(children_named(e, "Reporting"@))
        &&& all_valid::<Range>(children_named(e, "Range"@))
    }

    open spec fn maps_from(e: XmlElement, v: Metrics) -> bool {
        &&& attr(e, "metrics"@) == Some(v.metrics@)
        &&& maps_all(children_named(e, "Reporting"@), v.reporting@)
        &&& maps_all(children_named(e, "Range"@), v.range@)
    }

    fn from_element(e: &XmlElement) -> (r: Result<Metrics, ManifestError>) {
        let metrics = required_text_attr(e, "metrics")?;
        let reporting = collect_children(e, "Reporting")?;
        let range = collect_children(e, "Range")?;
        Ok(Metrics { metrics, reporting, range })
    }
}

/// Descriptive information about the presentation.
#[derive(Debug, PartialEq)]
pub struct ProgramInformation {
    pub lang: String,
    pub more_information_url: String,
    pub title: String,
    pub source: String,
    pub copyright: String,
}

impl FromElement for ProgramInformation {
    open spec fn valid_element(e: XmlElement) -> bool {
        true
    }

    open spec fn maps_from(e: XmlElement, v: ProgramInformation) -> bool {
        &&& v.lang@ == text_value(e, "lang"@)
        &&& v.more_information_url@ == text_value(e, "moreInformationURL"@)
        &&& v.title@ == child_text_value(e, "Title"@)
        &&& v.source@ == child_text_value(e, "Source"@)
        &&& v.copyright@ == child_text_value(e, "Copyright"@)
    }

    fn from_element(e: &XmlElement) -> (r: Result<ProgramInformation, ManifestError>) {
        Ok(
            ProgramInformation {
                lang: text_attr(e, "lang"),
                more_information_url: text_attr(e, "moreInformationURL"),
                title: child_text(e, "Title"),
                source: child_text(e, "Source"),
                copyright: child_text(e, "Copyright"),
            },
        )
    }
}

/// One event of an event stream. Its duration is kept as written.
#[derive(Debug, PartialEq)]
pub struct Event {
    pub presentation_time: u64,
    pub duration: String,
    pub id: u64,
    pub message_data: String,
}

impl FromElement for Event {
    open spec fn valid_element(e: XmlElement) -> bool {
        &&& u64_value(e, "presentationTime"@) is Some
        &&& u64_value(e, "id"@) is Some
    }

    open spec fn maps_from(e: XmlElement, v: Event) -> bool {
        &&& u64_value(e, "presentationTime"@) == Some(v.presentation_time)
        &&& v.duration@ == text_value(e, "duration"@)
        &&& u64_value(e, "id"@) == Some(v.id)
        &&& v.message_data@ == text_value(e, "messageData"@)
    }

    fn from_element(e: &XmlElement) -> (r: Result<Event, ManifestError>) {
        let presentation_time = u64_attr(e, "presentationTime")?;
        let id = u64_attr(e, "id")?;
        Ok(
            Event {
                presentation_time,
                duration: text_attr(e, "duration"),
                id,
                message_data: text_attr(e, "messageData"),
            },
        )
    }
}

/// A stream of events, inline or in-band.
#[derive(Debug, PartialEq)]
pub struct EventStream {
    pub href: String,
    pub href_actuate: HrefActuate,
    pub message_data: String,
    pub scheme_id_uri: String,
    pub value: String,
    pub timescale: u64,
    pub events: Vec<Event>,
}

impl FromElement for EventStream {
    open spec fn valid_element(e: XmlElement) -> bool {
        &&& actuate_value(e) is Some
        &&& attr(e, "schemeIdUri"@) is Some
        &&& u64_value(e, "timescale"@) is Some
        &&& all_valid::<Event>(children_named(e, "Event"@))
    }

    open spec fn maps_from(e: XmlElement, v: EventStream) -> bool {
        &&& v.href@ == text_value(e, "xlink:href"@)
        &&& actuate_value(e) == Some(v.href_actuate)
        &&& v.message_data@ == text_value(e, "messageData"@)
        &&& attr(e, "schemeIdUri"@) == Some(v.scheme_id_uri@)
        &&& v.value@ == text_value(e, "value"@)
        &&& u64_value(e, "timescale"@) == Some(v.timescale)
        &&& maps_all(children_named(e, "Event"@), v.events@)
    }

    fn from_element(e: &XmlElement) -> (r: Result<EventStream, ManifestError>) {
        let href_actuate = actuate_attr(e)?;
        let scheme_id_uri = required_text_attr(e, "schemeIdUri")?;
        let timescale = u64_attr(e, "timescale")?;
        let events = collect_children(e, "Event")?;
        Ok(
            EventStream {
                href: text_attr(e, "xlink:href"),
                href_actuate,
                message_data: text_attr(e, "messageData"),
                scheme_id_uri,
                value: text_attr(e, "value"),
                timescale,
                events,
            },
        )
    }
}

/// A set of adaptation sets that may be played together, by their ids.
#[derive(Debug, PartialEq)]
pub struct Subset {
    pub contains: Vec<u64>,
    pub id: String,
}

impl FromElement for Subset {
    open spec fn valid_element(e: XmlElement) -> bool {
        &&& attr(e, "contains"@) is Some
        &&& u64_list_value(e, "contains"@) is Some
    }

    open spec fn maps_from(e: XmlElement, v: Subset) -> bool {
        &&& u64_list_value(e, "contains"@) == Some(v.contains@)
        &&& v.id@ == text_value(e, "id"@)
    }

    fn from_element(e: &XmlElement) -> (r: Result<Subset, ManifestError>) {
        required_text_attr(e, "contains")?;
        let contains = u64_list_attr(e, "contains")?;
        Ok(Subset { contains, id: text_attr(e, "id") })
    }
}

/// One media component of an adaptation set.
#[derive(Debug, PartialEq)]
pub struct ContentComponent {
    pub id: String,
    pub lang: String,
    pub content_type: String,
    pub par: String,
    pub accessibilities: Vec<Descriptor>,
    pub roles: Vec<Descriptor>,
    pub ratings: Vec<Descriptor>,
    pub viewpoints: Vec<Descriptor>,
}

impl FromElement for ContentComponent {
    open spec fn valid_element(e: XmlElement) -> bool {
        &&& all_valid::<Descriptor>(children_named(e, "Accessibility"@))
        &&& all_valid::<Descriptor>(children_named(e, "Role"@))
        &&& all_valid::<Descriptor>(children_named(e, "Rating"@))
        &&& all_valid::<Descriptor>(children_named(e, "Viewpoint"@))
    }

    open spec fn maps_from(e: XmlElement, v: ContentComponent) -> bool {
        &&& v.id@ == text_value(e, "id"@)
        &&& v.lang@ == text_value(e, "lang"@)
        &&& v.content_type@ == text_value(e, "contentType"@)
        &&& v.par@ == text_value(e, "par"@)
        &&& maps_all(children_named(e, "Accessibility"@), v.accessibilities@)
        &&& maps_all(children_named(e, "Role"@), v.roles@)
        &&& maps_all(children_named(e, "Rating"@), v.ratings@)
        &&& maps_all(children_named(e, "Viewpoint"@), v.viewpoints@)
    }

    fn from_element(e: &XmlElement) -> (r: Result<ContentComponent, ManifestError>) {
        let accessibilities = collect_children(e, "Accessibility")?;
        let roles = collect_children(e, "Role")?;
        let ratings = collect_children(e, "Rating")?;
        let viewpoints = collect_children(e, "Viewpoint")?;
        Ok(
            ContentComponent {
                id: text_attr(e, "id"),
                lang: text_attr(e, "lang"),
                content_type: text_attr(e, "contentType"),
                par: text_attr(e, "par"),
                accessibilities,
                roles,
                ratings,
                viewpoints,
            },
        )
    }
}

/// How a video is scanned.
#[derive(Debug, Clone, Copy, PartialEq, Eq, Structural)]
pub enum VideoScan {
    Progressive,
    Interlaced,
    Unknown,
}

impl VideoScan {
    /// Video is progressive unless the document says otherwise.
    pub fn default() -> (r: VideoScan)
        ensures
            r == VideoScan::Progressive,
    {
        VideoScan::Progressive
    }
}

pub open spec fn scan_of_text(v: Seq<char>) -> Option<VideoScan> {
    if v == "progressive"@ {
        Some(VideoScan::Progressive)
    } else if v == "interlaced"@ {
        Some(VideoScan::Interlaced)
    } else if v == "unknown"@ {
        Some(VideoScan::Unknown)
    } else {
        None
    }
}

/// The `scanType` attribute: absent is progressive.
pub open spec fn scan_value(e: XmlElement) -> Option<VideoScan> {
    match attr(e, "scanType"@) {
        Some(v) => scan_of_text(v),
        None => Some(VideoScan::Progressive),
    }
}

/// Reads the `scanType` attribute.
pub fn scan_attr(e: &XmlElement) -> (r: Result<VideoScan, ManifestError>)
    ensures
        r is Ok <==> scan_value(*e) is Some,
        r matches Ok(s) ==> scan_value(*e) == Some(s),
        r matches Err(err) ==> crate::xml::is_mismatch(err, *e, "scanType"@),
{
    match get_attribute(e, "scanType") {
        Some(v) => {
            let t = v.as_str();
            if same_text(t, "progressive") {
                Ok(VideoScan::Progressive)
            } else if same_text(t, "interlaced") {
                Ok(VideoScan::Interlaced)
            } else if same_text(t, "unknown") {
                Ok(VideoScan::Unknown)
            } else {
                Err(crate::xml::mismatch(e, "scanType", v))
            }
        },
        None => Ok(VideoScan::default()),
    }
}

/// What a switching point allows.
#[derive(Debug, Clone, Copy, PartialEq, Eq, Structural)]
pub enum SwitchingType {
    Media,
    Bitstream,
}

pub open spec fn switching_type_of_text(v: Seq<char>) -> Option<SwitchingType> {
    if v == "media"@ {
        Some(SwitchingType::Media)
    } else if v == "bitstream"@ {
        Some(SwitchingType::Bitstream)
    } else {
        None
    }
}

/// A declaration of switching points: their interval and kind.
#[derive(Debug, PartialEq)]
pub struct Switching {
    pub interval: u64,
    pub switching_type: SwitchingType,
}

impl FromElement for Switching {
    open spec fn valid_element(e: XmlElement) -> bool {
        &&& attr(e, "interval"@) is Some
        &&& u64_value(e, "interval"@) is Some
        &&& attr(e, "type"@) is Some
        &&& switching_type_of_text(attr(e, "type"@)->Some_0) is Some
    }

    open spec fn maps_from(e: XmlElement, v: Switching) -> bool {
        &&& u64_value(e, "interval"@) == Some(v.interval)
        &&& switching_type_of_text(attr(e, "type"@)->Some_0) == Some(v.switching_type)
    }

    fn from_element(e: &XmlElement) -> (r: Result<Switching, ManifestError>) {
        let interval = required_u64_attr(e, "interval")?;
        let t = required_text_attr(e, "type")?;
        let switching_type = if same_text(t.as_str(), "media") {
            SwitchingType::Media
        } else if same_text(t.as_str(), "bitstream") {
            SwitchingType::Bitstream
        } else {
            return Err(crate::xml::mismatch(e, "type", &t));
        };
        Ok(Switching { interval, switching_type })
    }
}

// Writing.

/// Writes the `xlink:actuate` attribute, left out where it is on request.
pub fn put_actuate(e: &mut XmlElement, a: HrefActuate)
    ensures
        keeps_others(*old(e), *final(e), "xlink:actuate"@),
        attr(*old(e), "xlink:actuate"@) is None ==> actuate_value(*final(e)) == Some(a),
{
    proof {
        reveal_strlit("onLoad");
        reveal_strlit("onRequest");
        reveal_strlit("other");
        reveal_strlit("none");
        assert("onLoad"@.len() == 6);
        assert("onRequest"@.len() == 9);
        assert("other"@.len() == 5);
        assert("none"@.len() == 4);
    }
    match a {
        HrefActuate::OnLoad => put_attribute(e, "xlink:actuate", String::from_str("onLoad")),
        HrefActuate::OnRequest => {},
        HrefActuate::Other => put_attribute(e, "xlink:actuate", String::from_str("other")),
        HrefActuate::Never => put_attribute(e, "xlink:actuate", String::from_str("none")),
    }
}

/// Writes the `scanType` attribute, left out where it is progressive.
pub fn put_scan(e: &mut XmlElement, s: VideoScan)
    ensures
        keeps_others(*old(e), *final(e), "scanType"@),
        attr(*old(e), "scanType"@) is None ==> scan_value(*final(e)) == Some(s),
{
    proof {
        reveal_strlit("progressive");
        reveal_strlit("interlaced");
        reveal_strlit("unknown");
        assert("progressive"@.len() == 11);
        assert("interlaced"@.len() == 10);
        assert("unknown"@.len() == 7);
    }
    match s {
        VideoScan::Progressive => {},
        VideoScan::Interlaced => put_attribute(e, "scanType", String::from_str("interlaced")),
        VideoScan::Unknown => put_attribute(e, "scanType", String::from_str("unknown")),
    }
}

impl ToElement for Url {
    open spec fn well_formed(&self) -> bool {
        true
    }

    open spec fn writes_attr(n: Seq<char>) -> bool {
        false
    }

    open spec fn writes_child(n: Seq<char>) -> bool {
        false
    }

    proof fn lemma_read_well_formed(e: XmlElement, v: Url) {
    }

    fn to_element(&self, name: &str) -> (r: XmlElement) {
        let mut e = XmlElement::new(name);
        e.text = self.url.clone();
        e
    }
}

impl ToElement for Descriptor {
    open spec fn well_formed(&self) -> bool {
        true
    }

    open spec fn writes_attr(n: Seq<char>) -> bool {
        n == "schemeIdUri"@ || n == "value"@ || n == "id"@
    }

    open spec fn writes_child(n: Seq<char>) -> bool {
        false
    }

    proof fn lemma_read_well_formed(e: XmlElement, v: Descriptor) {
    }

    fn to_element(&self, name: &str) -> (r: XmlElement) {
        proof {
            reveal_strlit("schemeIdUri");
            reveal_strlit("value");
            reveal_strlit("id");
            assert("schemeIdUri"@.len() == 11);
            assert("value"@.len() == 5);
            assert("id"@.len() == 2);
        }
        let mut e = XmlElement::new(name);
        put_required_text(&mut e, "schemeIdUri", &self.scheme_id_uri);
        put_text(&mut e, "value", &self.value);
        put_text(&mut e, "id", &self.id);
        e
    }
}

impl ToElement for Range {
    open spec fn well_formed(&self) -> bool {
        duration_well_formed(self.start_time) && duration_well_formed(self.duration)
    }

    open spec fn writes_attr(n: Seq<char>) -> bool {
        n == "starttime"@ || n == "duration"@
    }

    open spec fn writes_child(n: Seq<char>) -> bool {
        false
    }

    proof fn lemma_read_well_formed(e: XmlElement, v: Range) {
        lemma_duration_read(e, "starttime"@, v.start_time);
        lemma_duration_read(e, "duration"@, v.duration);
    }

    fn to_element(&self, name: &str) -> (r: XmlElement) {
        proof {
            reveal_strlit("starttime");
            reveal_strlit("duration");
            assert("starttime"@.len() == 9);
            assert("duration"@.len() == 8);
        }
        let mut e = XmlElement::new(name);
        put_duration(&mut e, "starttime", self.start_time);
        put_duration(&mut e, "duration", self.duration);
        e
    }
}

impl ToElement for Metrics {
    open spec fn well_formed(&self) -> bool {
        all_well_formed(self.reporting@) && all_well_formed(self.range@)
    }

    open spec fn writes_attr(n: Seq<char>) -> bool {
        n == "metrics"@
    }

    open spec fn writes_child(n: Seq<char>) -> bool {
        n == "Reporting"@ || n == "Range"@
    }

    proof fn lemma_read_well_formed(e: XmlElement, v: Metrics) {
        lemma_all_read_well_formed::<Descriptor>(children_named(e, "Reporting"@), v.reporting@);
        lemma_all_read_well_formed::<Range>(children_named(e, "Range"@), v.range@);
    }

    fn to_element(&self, name: &str) -> (r: XmlElement) {
        proof {
            reveal_strlit("Reporting");
            reveal_strlit("Range");
            assert("Reporting"@.len() == 9);
            assert("Range"@.len() == 5);
        }
        let mut e = XmlElement::new(name);
        put_required_text(&mut e, "metrics", &self.metrics);
        put_children(&mut e, "Reporting", &self.reporting);
        put_children(&mut e, "Range", &self.range);
        e
    }
}

impl ToElement for ProgramInformation {
    open spec fn well_formed(&self) -> bool {
        true
    }

    open spec fn writes_attr(n: Seq<char>) -> bool {
        n == "lang"@ || n == "moreInformationURL"@
    }

    open spec fn writes_child(n: Seq<char>) -> bool {
        n == "Title"@ || n == "Source"@ || n == "Copyright"@
    }

    proof fn lemma_read_well_formed(e: XmlElement, v: ProgramInformation) {
    }

    fn to_element(&self, name: &str) -> (r: XmlElement) {
        proof {
            reveal_strlit("lang");
            reveal_strlit("moreInformationURL");
            reveal_strlit("Title");
            reveal_strlit("Source");
            reveal_strlit("Copyright");
            assert("lang"@.len() == 4);
            assert("moreInformationURL"@.len() == 18);
            assert("Title"@.len() == 5);
            assert("Source"@.len() == 6);
            assert("Copyright"@.len() == 9);
        }
        let mut e = XmlElement::new(name);
        put_text(&mut e, "lang", &self.lang);
        put_text(&mut e, "moreInformationURL", &self.more_information_url);
        put_text_child(&mut e, "Title", &self.title);
        put_text_child(&mut e, "Source", &self.source);
        put_text_child(&mut e, "Copyright", &self.copyright);
        e
    }
}

impl ToElement for Event {
    open spec fn well_formed(&self) -> bool {
        true
    }

    open spec fn writes_attr(n: Seq<char>) -> bool {
        n == "presentationTime"@ || n == "duration"@ || n == "id"@ || n == "messageData"@
    }

    open spec fn writes_child(n: Seq<char>) -> bool {
        false
    }

    proof fn lemma_read_well_formed(e: XmlElement, v: Event) {
    }

    fn to_element(&self, name: &str) -> (r: XmlElement) {
        proof {
            reveal_strlit("presentationTime");
            reveal_strlit("duration");
            reveal_strlit("id");
            reveal_strlit("messageData");
            assert("presentationTime"@.len() == 16);
            assert("duration"@.len() == 8);
            assert("id"@.len() == 2);
            assert("messageData"@.len() == 11);
        }
        let mut e = XmlElement::new(name);
        put_u64(&mut e, "presentationTime", self.presentation_time);
        put_text(&mut e, "duration", &self.duration);
        put_u64(&mut e, "id", self.id);
        put_text(&mut e, "messageData", &self.message_data);
        e
    }
}

impl ToElement for EventStream {
    open spec fn well_formed(&self) -> bool {
        all_well_formed(self.events@)
    }

    open spec fn writes_attr(n: Seq<char>) -> bool {
        n == "xlink:href"@ || n == "xlink:actuate"@ || n == "messageData"@ || n == "schemeIdUri"@
            || n == "value"@ || n == "timescale"@
    }

    open spec fn writes_child(n: Seq<char>) -> bool {
        n == "Event"@
    }

    proof fn lemma_read_well_formed(e: XmlElement, v: EventStream) {
        lemma_all_read_well_formed::<Event>(children_named(e, "Event"@), v.events@);
    }

    fn to_element(&self, name: &str) -> (r: XmlElement) {
        proof {
            reveal_strlit("xlink:href");
            reveal_strlit("xlink:actuate");
            reveal_strlit("messageData");
            reveal_strlit("schemeIdUri");
            reveal_strlit("value");
            reveal_strlit("timescale");
            assert("xlink:href"@.len() == 10);
            assert("xlink:actuate"@.len() == 13);
            assert("messageData"@.len() == 11);
            assert("schemeIdUri"@.len() == 11);
            assert("value"@.len() == 5);
            assert("timescale"@.len() == 9);
            assert("messageData"@[0] == 'm');
            assert("schemeIdUri"@[0] == 's');
        }
        let mut e = XmlElement::new(name);
        put_text(&mut e, "xlink:href", &self.href);
        put_actuate(&mut e, self.href_actuate);
        put_text(&mut e, "messageData", &self.message_data);
        put_required_text(&mut e, "schemeIdUri", &self.scheme_id_uri);
        put_text(&mut e, "value", &self.value);
        put_u64(&mut e, "timescale", self.timescale);
        put_children(&mut e, "Event", &self.events);
        e
    }
}

impl ToElement for Subset {
    open spec fn well_formed(&self) -> bool {
        true
    }

    open spec fn writes_attr(n: Seq<char>) -> bool {
        n == "contains"@ || n == "id"@
    }

    open spec fn writes_child(n: Seq<char>) -> bool {
        false
    }

    proof fn lemma_read_well_formed(e: XmlElement, v: Subset) {
    }

    fn to_element(&self, name: &str) -> (r: XmlElement) {
        proof {
            reveal_strlit("contains");
            reveal_strlit("id");
            assert("contains"@.len() == 8);
            assert("id"@.len() == 2);
        }
        let mut e = XmlElement::new(name);
        put_required_u64_list(&mut e, "contains", &self.contains);
        put_text(&mut e, "id", &self.id);
        e
    }
}

impl ToElement for ContentComponent {
    open spec fn well_formed(&self) -> bool {
        &&& all_well_formed(self.accessibilities@)
        &&& all_well_formed(self.roles@)
        &&& all_well_formed(self.ratings@)
        &&& all_well_formed(self.viewpoints@)
    }

    open spec fn writes_attr(n: Seq<char>) -> bool {
        n == "id"@ || n == "lang"@ || n == "contentType"@ || n == "par"@
    }

    open spec fn writes_child(n: Seq<char>) -> bool {
        n == "Accessibility"@ || n == "Role"@ || n == "Rating"@ || n == "Viewpoint"@
    }

    proof fn lemma_read_well_formed(e: XmlElement, v: ContentComponent) {
        lemma_all_read_well_formed::<Descriptor>(children_named(e, "Accessibility"@), v.accessibilities@);
        lemma_all_read_well_formed::<Descriptor>(children_named(e, "Role"@), v.roles@);
        lemma_all_read_well_formed::<Descriptor>(children_named(e, "Rating"@), v.ratings@);
        lemma_all_read_well_formed::<Descriptor>(children_named(e, "Viewpoint"@), v.viewpoints@);
    }

    fn to_element(&self, name: &str) -> (r: XmlElement) {
        proof {
            reveal_strlit("id");
            reveal_strlit("lang");
            reveal_strlit("contentType");
            reveal_strlit("par");
            reveal_strlit("Accessibility");
            reveal_strlit("Role");
            reveal_strlit("Rating");
            reveal_strlit("Viewpoint");
            assert("id"@.len() == 2);
            assert("lang"@.len() == 4);
            assert("contentType"@.len() == 11);
            assert("par"@.len() == 3);
            assert("Accessibility"@.len() == 13);
            assert("Role"@.len() == 4);
            assert("Rating"@.len() == 6);
            assert("Viewpoint"@.len() == 9);
            assert("lang"@[0] == 'l');
            assert("Role"@[0] == 'R');
        }
        let mut e = XmlElement::new(name);
        put_text(&mut e, "id", &self.id);
        put_text(&mut e, "lang", &self.lang);
        put_text(&mut e, "contentType", &self.content_type);
        put_text(&mut e, "par", &self.par);
        put_children(&mut e, "Accessibility", &self.accessibilities);
        put_children(&mut e, "Role", &self.roles);
        put_children(&mut e, "Rating", &self.ratings);
        put_children(&mut e, "Viewpoint", &self.viewpoints);
        e
    }
}

impl ToElement for Switching {
    open spec fn well_formed(&self) -> bool {
        true
    }

    open spec fn writes_attr(n: Seq<char>) -> bool {
        n == "interval"@ || n == "type"@
    }

    open spec fn writes_child(n: Seq<char>) -> bool {
        false
    }

    proof fn lemma_read_well_formed(e: XmlElement, v: Switching) {
    }

    fn to_element(&self, name: &str) -> (r: XmlElement) {
        proof {
            reveal_strlit("interval");
            reveal_strlit("type");
            reveal_strlit("media");
            reveal_strlit("bitstream");
            assert("interval"@.len() == 8);
            assert("type"@.len() == 4);
            assert("media"@.len() == 5);
            assert("bitstream"@.len() == 9);
        }
        let mut e = XmlElement::new(name);
        put_required_u64(&mut e, "interval", self.interval);
        let t = match self.switching_type {
            SwitchingType::Media => String::from_str("media"),
            SwitchingType::Bitstream => String::from_str("bitstream"),
        };
        put_required_text(&mut e, "type", &t);
        e
    }
}

} // verus!
