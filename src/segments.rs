//! How media segments are addressed: a single segment with its index
//! (`SegmentBase`), an explicit list (`SegmentList`), or a URL template
//! (`SegmentTemplate`), with the timeline that the last two may share.
use crate::element_writer::{
    all_well_formed, lemma_all_read_well_formed, lemma_first_read_well_formed, option_well_formed,
    put_bool, put_children, put_optional_child, put_optional_u64, put_required_u64, put_text,
    put_u64, ToElement,
};
use crate::utils::{actuate_attr, actuate_value, put_actuate, HrefActuate};
use crate::xml::{
    all_valid, attr, bool_attr, bool_value, children_named, collect_children, first_child,
    first_maps, first_valid, maps_all, optional_u64_attr, required_u64_attr, text_attr, text_value,
    u64_attr, u64_value, FromElement, ManifestError, XmlElement,
};
use vstd::prelude::*;
use vstd::string::*;

verus! {

/// One entry of a segment timeline: an optional start `t`, a number `n`, a duration
/// `d` in timescale ticks, and a repeat count `r`.
#[derive(Debug, PartialEq)]
pub struct Segment {
    pub start: Option<u64>,
    pub n: u64,
    pub duration: u64,
    pub repeat: u64,
}

impl FromElement for Segment {
    open spec fn valid_element(e: XmlElement) -> bool {
        &&& (attr(e, "t"@) is Some ==> u64_value(e, "t"@) is Some)
        &&& u64_value(e, "n"@) is Some
        &&& attr(e, "d"@) is Some
        &&& u64_value(e, "d"@) is Some
        &&& u64_value(e, "r"@) is Some
    }

    open spec fn maps_from(e: XmlElement, v: Segment) -> bool {
        &&& match v.start {
            Some(t) => attr(e, "t"@) is Some && u64_value(e, "t"@) == Some(t),
            None => attr(e, "t"@) is None,
        }
        &&& u64_value(e, "n"@) == Some(v.n)
        &&& u64_value(e, "d"@) == Some(v.duration)
        &&& u64_value(e, "r"@) == Some(v.repeat)
    }

    fn from_element(e: &XmlElement) -> (r: Result<Segment, ManifestError>) {
        let start = optional_u64_attr(e, "t")?;
        let n = u64_attr(e, "n")?;
        let duration = required_u64_attr(e, "d")?;
        let repeat = u64_attr(e, "r")?;
        Ok(Segment { start, n, duration, repeat })
    }
}

/// The segments of a representation, in order.
#[derive(Debug, PartialEq)]
pub struct SegmentTimeline {
    pub segments: Vec<Segment>,
}

impl FromElement for SegmentTimeline {
    open spec fn valid_element(e: XmlElement) -> bool {
        all_valid::<Segment>(children_named(e, "S"@))
    }

    open spec fn maps_from(e: XmlElement, v: SegmentTimeline) -> bool {
        maps_all(children_named(e, "S"@), v.segments@)
    }

    fn from_element(e: &XmlElement) -> (r: Result<SegmentTimeline, ManifestError>) {
        let segments = collect_children(e, "S")?;
        Ok(SegmentTimeline { segments })
    }
}

/// One segment of a segment list: its media and index locations and byte ranges.
#[derive(Debug, PartialEq)]
pub struct SegmentListUrl {
    pub media: String,
    pub media_range: String,
    pub index: String,
    pub index_range: String,
}

impl FromElement for SegmentListUrl {
    open spec fn valid_element(e: XmlElement) -> bool {
        true
    }

    open spec fn maps_from(e: XmlElement, v: SegmentListUrl) -> bool {
        &&& v.media@ == text_value(e, "media"@)
        &&& v.media_range@ == text_value(e, "mediaRange"@)
        &&& v.index@ == text_value(e, "index"@)
        &&& v.index_range@ == text_value(e, "indexRange"@)
    }

    fn from_element(e: &XmlElement) -> (r: Result<SegmentListUrl, ManifestError>) {
        Ok(
            SegmentListUrl {
                media: text_attr(e, "media"),
                media_range: text_attr(e, "mediaRange"),
                index: text_attr(e, "index"),
                index_range: text_attr(e, "indexRange"),
            },
        )
    }
}

/// A location and byte range (an initialization segment, an index).
#[derive(Debug, PartialEq)]
pub struct SegmentUrl {
    pub source_url: String,
    pub range: String,
}

impl FromElement for SegmentUrl {
    open spec fn valid_element(e: XmlElement) -> bool {
        true
    }

    open spec fn maps_from(e: XmlElement, v: SegmentUrl) -> bool {
        &&& v.source_url@ == text_value(e, "sourceURL"@)
        &&& v.range@ == text_value(e, "range"@)
    }

    fn from_element(e: &XmlElement) -> (r: Result<SegmentUrl, ManifestError>) {
        Ok(SegmentUrl { source_url: text_attr(e, "sourceURL"), range: text_attr(e, "range") })
    }
}

/// A single segment: its timescale, index range and initialization.
/// The availability time offset is a decimal kept as written.
#[derive(Debug, PartialEq)]
pub struct SegmentBase {
    pub timescale: u64,
    pub presentation_time_offset: u64,
    pub index_range: String,
    pub index_range_exact: bool,
    pub availability_time_offset: String,
    pub availability_time_complete: bool,
    pub initialization: Option<SegmentUrl>,
    pub representation_index: Option<SegmentUrl>,
}

impl FromElement for SegmentBase {
    open spec fn valid_element(e: XmlElement) -> bool {
        &&& u64_value(e, "timescale"@) is Some
        &&& u64_value(e, "presentationTimeOffset"@) is Some
        &&& bool_value(e, "indexRangeExact"@) is Some
        &&& bool_value(e, "availabilityTimeComplete"@) is Some
        &&& first_valid::<SegmentUrl>(children_named(e, "Initialization"@))
        &&& first_valid::<SegmentUrl>(children_named(e, "RepresentationIndex"@))
    }

    open spec fn maps_from(e: XmlElement, v: SegmentBase) -> bool {
        &&& u64_value(e, "timescale"@) == Some(v.timescale)
        &&& u64_value(e, "presentationTimeOffset"@) == Some(v.presentation_time_offset)
        &&& v.index_range@ == text_value(e, "indexRange"@)
        &&& bool_value(e, "indexRangeExact"@) == Some(v.index_range_exact)
        &&& v.availability_time_offset@ == text_value(e, "availabilityTimeOffset"@)
        &&& bool_value(e, "availabilityTimeComplete"@) == Some(v.availability_time_complete)
        &&& first_maps(children_named(e, "Initialization"@), v.initialization)
        &&& first_maps(children_named(e, "RepresentationIndex"@), v.representation_index)
    }

    fn from_element(e: &XmlElement) -> (r: Result<SegmentBase, ManifestError>) {
        let timescale = u64_attr(e, "timescale")?;
        let presentation_time_offset = u64_attr(e, "presentationTimeOffset")?;
        let index_range_exact = bool_attr(e, "indexRangeExact")?;
        let availability_time_complete = bool_attr(e, "availabilityTimeComplete")?;
        let initialization = first_child(e, "Initialization")?;
        let representation_index = first_child(e, "RepresentationIndex")?;
        Ok(
            SegmentBase {
                timescale,
                presentation_time_offset,
                index_range: text_attr(e, "indexRange"),
                index_range_exact,
                availability_time_offset: text_attr(e, "availabilityTimeOffset"),
                availability_time_complete,
                initialization,
                representation_index,
            },
        )
    }
}

/// What a segment list and a segment template share: the single segment fields,
/// a start number, a duration, a timeline and a bitstream switching segment.
#[derive(Debug, PartialEq)]
pub struct MultipleSegmentBaseType {
    pub timescale: u64,
    pub start_number: u64,
    pub duration: u64,
    pub presentation_time_offset: u64,
    pub index_range: String,
    pub index_range_exact: bool,
    pub availability_time_offset: String,
    pub availability_time_complete: bool,
    pub initialization: Option<SegmentUrl>,
    pub representation_index: Option<SegmentUrl>,
    pub segment_timeline: Option<SegmentTimeline>,
    pub bitstream_switching: Option<SegmentUrl>,
}

impl FromElement for MultipleSegmentBaseType {
    open spec fn valid_element(e: XmlElement) -> bool {
        &&& u64_value(e, "timescale"@) is Some
        &&& u64_value(e, "startNumber"@) is Some
        &&& u64_value(e, "duration"@) is Some
        &&& u64_value(e, "presentationTimeOffset"@) is Some
        &&& bool_value(e, "indexRangeExact"@) is Some
        &&& bool_value(e, "availabilityTimeComplete"@) is Some
        &&& first_valid::<SegmentUrl>(children_named(e, "Initialization"@))
        &&& first_valid::<SegmentUrl>(children_named(e, "RepresentationIndex"@))
        &&& first_valid::<SegmentTimeline>(children_named(e, "SegmentTimeline"@))
        &&& first_valid::<SegmentUrl>(children_named(e, "BitstreamSwitching"@))
    }

    open spec fn maps_from(e: XmlElement, v: MultipleSegmentBaseType) -> bool {
        &&& u64_value(e, "timescale"@) == Some(v.timescale)
        &&& u64_value(e, "startNumber"@) == Some(v.start_number)
        &&& u64_value(e, "duration"@) == Some(v.duration)
        &&& u64_value(e, "presentationTimeOffset"@) == Some(v.presentation_time_offset)
        &&& v.index_range@ == text_value(e, "indexRange"@)
        &&& bool_value(e, "indexRangeExact"@) == Some(v.index_range_exact)
        &&& v.availability_time_offset@ == text_value(e, "availabilityTimeOffset"@)
        &&& bool_value(e, "availabilityTimeComplete"@) == Some(v.availability_time_complete)
        &&& first_maps(children_named(e, "Initialization"@), v.initialization)
        &&& first_maps(children_named(e, "RepresentationIndex"@), v.representation_index)
        &&& first_maps(children_named(e, "SegmentTimeline"@), v.segment_timeline)
        &&& first_maps(children_named(e, "BitstreamSwitching"@), v.bitstream_switching)
    }

    fn from_element(e: &XmlElement) -> (r: Result<MultipleSegmentBaseType, ManifestError>) {
        let timescale = u64_attr(e, "timescale")?;
        let start_number = u64_attr(e, "startNumber")?;
        let duration = u64_attr(e, "duration")?;
        let presentation_time_offset = u64_attr(e, "presentationTimeOffset")?;
        let index_range_exact = bool_attr(e, "indexRangeExact")?;
        let availability_time_complete = bool_attr(e, "availabilityTimeComplete")?;
        let initialization = first_child(e, "Initialization")?;
        let representation_index = first_child(e, "RepresentationIndex")?;
        let segment_timeline = first_child(e, "SegmentTimeline")?;
        let bitstream_switching = first_child(e, "BitstreamSwitching")?;
        Ok(
            MultipleSegmentBaseType {
                timescale,
                start_number,
                duration,
                presentation_time_offset,
                index_range: text_attr(e, "indexRange"),
                index_range_exact,
                availability_time_offset: text_attr(e, "availabilityTimeOffset"),
                availability_time_complete,
                initialization,
                representation_index,
                segment_timeline,
                bitstream_switching,
            },
        )
    }
}

/// Segments given one by one.
#[derive(Debug, PartialEq)]
pub struct SegmentList {
    pub base: MultipleSegmentBaseType,
    pub href: String,
    pub href_actuate: HrefActuate,
    pub segment_url: Vec<SegmentListUrl>,
}

impl FromElement for SegmentList {
    open spec fn valid_element(e: XmlElement) -> bool {
        &&& MultipleSegmentBaseType::valid_element(e)
        &&& actuate_value(e) is Some
    }

    open spec fn maps_from(e: XmlElement, v: SegmentList) -> bool {
        &&& MultipleSegmentBaseType::maps_from(e, v.base)
        &&& v.href@ == text_value(e, "xlink:href"@)
        &&& actuate_value(e) == Some(v.href_actuate)
        &&& maps_all(children_named(e, "SegmentURL"@), v.segment_url@)
    }

    fn from_element(e: &XmlElement) -> (r: Result<SegmentList, ManifestError>) {
        let base = MultipleSegmentBaseType::from_element(e)?;
        let href_actuate = actuate_attr(e)?;
        let segment_url = collect_children(e, "SegmentURL")?;
        Ok(SegmentList { base, href: text_attr(e, "xlink:href"), href_actuate, segment_url })
    }
}

/// Segments named by URL templates for media, index and initialization.
#[derive(Debug, PartialEq)]
pub struct SegmentTemplate {
    pub base: MultipleSegmentBaseType,
    pub media: String,
    pub index: String,
    pub initialization_url: String,
    pub bitstream_switching_url: String,
}

impl FromElement for SegmentTemplate {
    open spec fn valid_element(e: XmlElement) -> bool {
        MultipleSegmentBaseType::valid_element(e)
    }

    open spec fn maps_from(e: XmlElement, v: SegmentTemplate) -> bool {
        &&& MultipleSegmentBaseType::maps_from(e, v.base)
        &&& v.media@ == text_value(e, "media"@)
        &&& v.index@ == text_value(e, "index"@)
        &&& v.initialization_url@ == text_value(e, "initialization"@)
        &&& v.bitstream_switching_url@ == text_value(e, "bitstreamSwitching"@)
    }

    fn from_element(e: &XmlElement) -> (r: Result<SegmentTemplate, ManifestError>) {
        let base = MultipleSegmentBaseType::from_element(e)?;
        Ok(
            SegmentTemplate {
                base,
                media: text_attr(e, "media"),
                index: text_attr(e, "index"),
                initialization_url: text_attr(e, "initialization"),
                bitstream_switching_url: text_attr(e, "bitstreamSwitching"),
            },
        )
    }
}

/// A base location that relative locations below it resolve against.
/// The availability time offset is a decimal kept as written.
#[derive(Debug, PartialEq)]
pub struct BaseURL {
    pub service_location: String,
    pub byte_range: String,
    pub availability_time_offset: String,
    pub availability_time_complete: bool,
    pub url: String,
}

impl FromElement for BaseURL {
    open spec fn valid_element(e: XmlElement) -> bool {
        bool_value(e, "availabilityTimeComplete"@) is Some
    }

    open spec fn maps_from(e: XmlElement, v: BaseURL) -> bool {
        &&& v.service_location@ == text_value(e, "serviceLocation"@)
        &&& v.byte_range@ == text_value(e, "byteRange"@)
        &&& v.availability_time_offset@ == text_value(e, "availabilityTimeOffset"@)
        &&& bool_value(e, "availabilityTimeComplete"@) == Some(v.availability_time_complete)
        &&& v.url@ == e.text@
    }

    fn from_element(e: &XmlElement) -> (r: Result<BaseURL, ManifestError>) {
        let availability_time_complete = bool_attr(e, "availabilityTimeComplete")?;
        Ok(
            BaseURL {
                service_location: text_attr(e, "serviceLocation"),
                byte_range: text_attr(e, "byteRange"),
                availability_time_offset: text_attr(e, "availabilityTimeOffset"),
                availability_time_complete,
                url: e.text.clone(),
            },
        )
    }
}

/// A base URL as text: the location, then its service location in parentheses.
pub open spec fn base_url_text(b: BaseURL) -> Seq<char> {
    b.url@ + " ("@ + b.service_location@ + ")"@
}

impl BaseURL {
    /// The location, then its service location in parentheses.
    pub fn display(&self) -> (r: String)
        ensures
            r@ == base_url_text(*self),
    {
        let mut out = self.url.clone();
        out.append(" (");
        out.append(self.service_location.as_str());
        out.append(")");
        out
    }
}

// Writing.

impl ToElement for Segment {
    open spec fn well_formed(&self) -> bool {
        true
    }

    open spec fn writes_attr(n: Seq<char>) -> bool {
        n == "t"@ || n == "n"@ || n == "d"@ || n == "r"@
    }

    open spec fn writes_child(n: Seq<char>) -> bool {
        false
    }

    proof fn lemma_read_well_formed(e: XmlElement, v: Segment) {
    }

    fn to_element(&self, name: &str) -> (r: XmlElement) {
        proof {
            reveal_strlit("t");
            reveal_strlit("n");
            reveal_strlit("d");
            reveal_strlit("r");
            assert("t"@.len() == 1);
            assert("n"@.len() == 1);
            assert("d"@.len() == 1);
            assert("r"@.len() == 1);
            assert("t"@[0] == 't');
            assert("n"@[0] == 'n');
            assert("d"@[0] == 'd');
            assert("r"@[0] == 'r');
        }
        let mut e = XmlElement::new(name);
        put_optional_u64(&mut e, "t", self.start);
        put_u64(&mut e, "n", self.n);
        put_required_u64(&mut e, "d", self.duration);
        put_u64(&mut e, "r", self.repeat);
        e
    }
}

impl ToElement for SegmentTimeline {
    open spec fn well_formed(&self) -> bool {
        all_well_formed(self.segments@)
    }

    open spec fn writes_attr(n: Seq<char>) -> bool {
        false
    }

    open spec fn writes_child(n: Seq<char>) -> bool {
        n == "S"@
    }

    proof fn lemma_read_well_formed(e: XmlElement, v: SegmentTimeline) {
        lemma_all_read_well_formed::<Segment>(children_named(e, "S"@), v.segments@);
    }

    fn to_element(&self, name: &str) -> (r: XmlElement) {
        let mut e = XmlElement::new(name);
        put_children(&mut e, "S", &self.segments);
        e
    }
}

impl ToElement for SegmentListUrl {
    open spec fn well_formed(&self) -> bool {
        true
    }

    open spec fn writes_attr(n: Seq<char>) -> bool {
        n == "media"@ || n == "mediaRange"@ || n == "index"@ || n == "indexRange"@
    }

    open spec fn writes_child(n: Seq<char>) -> bool {
        false
    }

    proof fn lemma_read_well_formed(e: XmlElement, v: SegmentListUrl) {
    }

    fn to_element(&self, name: &str) -> (r: XmlElement) {
        proof {
            reveal_strlit("media");
            reveal_strlit("mediaRange");
            reveal_strlit("index");
            reveal_strlit("indexRange");
            assert("media"@.len() == 5);
            assert("mediaRange"@.len() == 10);
            assert("index"@.len() == 5);
            assert("indexRange"@.len() == 10);
            assert("media"@[0] == 'm');
            assert("mediaRange"@[0] == 'm');
            assert("index"@[0] == 'i');
            assert("indexRange"@[0] == 'i');
        }
        let mut e = XmlElement::new(name);
        put_text(&mut e, "media", &self.media);
        put_text(&mut e, "mediaRange", &self.media_range);
        put_text(&mut e, "index", &self.index);
        put_text(&mut e, "indexRange", &self.index_range);
        e
    }
}

impl ToElement for SegmentUrl {
    open spec fn well_formed(&self) -> bool {
        true
    }

    open spec fn writes_attr(n: Seq<char>) -> bool {
        n == "sourceURL"@ || n == "range"@
    }

    open spec fn writes_child(n: Seq<char>) -> bool {
        false
    }

    proof fn lemma_read_well_formed(e: XmlElement, v: SegmentUrl) {
    }

    fn to_element(&self, name: &str) -> (r: XmlElement) {
        proof {
            reveal_strlit("sourceURL");
            reveal_strlit("range");
            assert("sourceURL"@.len() == 9);
            assert("range"@.len() == 5);
        }
        let mut e = XmlElement::new(name);
        put_text(&mut e, "sourceURL", &self.source_url);
        put_text(&mut e, "range", &self.range);
        e
    }
}

impl ToElement for SegmentBase {
    open spec fn well_formed(&self) -> bool {
        option_well_formed(self.initialization) && option_well_formed(self.representation_index)
    }

    open spec fn writes_attr(n: Seq<char>) -> bool {
        n == "timescale"@ || n == "presentationTimeOffset"@ || n == "indexRange"@ || n == "indexRangeExact"@ || n == "availabilityTimeOffset"@ || n == "availabilityTimeComplete"@
    }

    open spec fn writes_child(n: Seq<char>) -> bool {
        n == "Initialization"@ || n == "RepresentationIndex"@
    }

    proof fn lemma_read_well_formed(e: XmlElement, v: SegmentBase) {
        lemma_first_read_well_formed::<SegmentUrl>(children_named(e, "Initialization"@), v.initialization);
        lemma_first_read_well_formed::<SegmentUrl>(children_named(e, "RepresentationIndex"@), v.representation_index);
    }

    fn to_element(&self, name: &str) -> (r: XmlElement) {
        proof {
            reveal_strlit("timescale");
            reveal_strlit("presentationTimeOffset");
            reveal_strlit("indexRange");
            reveal_strlit("indexRangeExact");
            reveal_strlit("availabilityTimeOffset");
            reveal_strlit("availabilityTimeComplete");
            reveal_strlit("Initialization");
            reveal_strlit("RepresentationIndex");
            assert("timescale"@.len() == 9);
            assert("presentationTimeOffset"@.len() == 22);
            assert("indexRange"@.len() == 10);
            assert("indexRangeExact"@.len() == 15);
            assert("availabilityTimeOffset"@.len() == 22);
            assert("availabilityTimeComplete"@.len() == 24);
            assert("Initialization"@.len() == 14);
            assert("RepresentationIndex"@.len() == 19);
            assert("presentationTimeOffset"@[0] == 'p');
            assert("availabilityTimeOffset"@[0] == 'a');
        }
        let mut e = XmlElement::new(name);
        put_u64(&mut e, "timescale", self.timescale);
        put_u64(&mut e, "presentationTimeOffset", self.presentation_time_offset);
        put_text(&mut e, "indexRange", &self.index_range);
        put_bool(&mut e, "indexRangeExact", self.index_range_exact);
        put_text(&mut e, "availabilityTimeOffset", &self.availability_time_offset);
        put_bool(&mut e, "availabilityTimeComplete", self.availability_time_complete);
        put_optional_child(&mut e, "Initialization", &self.initialization);
        put_optional_child(&mut e, "RepresentationIndex", &self.representation_index);
        e
    }
}

impl ToElement for MultipleSegmentBaseType {
    open spec fn well_formed(&self) -> bool {
        &&& option_well_formed(self.initialization)
        &&& option_well_formed(self.representation_index)
        &&& option_well_formed(self.segment_timeline)
        &&& option_well_formed(self.bitstream_switching)
    }

    open spec fn writes_attr(n: Seq<char>) -> bool {
        n == "timescale"@ || n == "startNumber"@ || n == "duration"@ || n == "presentationTimeOffset"@ || n == "indexRange"@ || n == "indexRangeExact"@ || n == "availabilityTimeOffset"@ || n == "availabilityTimeComplete"@
    }

    open spec fn writes_child(n: Seq<char>) -> bool {
        n == "Initialization"@ || n == "RepresentationIndex"@ || n == "SegmentTimeline"@ || n == "BitstreamSwitching"@
    }

    proof fn lemma_read_well_formed(e: XmlElement, v: MultipleSegmentBaseType) {
        lemma_first_read_well_formed::<SegmentUrl>(children_named(e, "Initialization"@), v.initialization);
        lemma_first_read_well_formed::<SegmentUrl>(children_named(e, "RepresentationIndex"@), v.representation_index);
        lemma_first_read_well_formed::<SegmentTimeline>(children_named(e, "SegmentTimeline"@), v.segment_timeline);
        lemma_first_read_well_formed::<SegmentUrl>(children_named(e, "BitstreamSwitching"@), v.bitstream_switching);
    }

    fn to_element(&self, name: &str) -> (r: XmlElement) {
        proof {
            reveal_strlit("timescale");
            reveal_strlit("startNumber");
            reveal_strlit("duration");
            reveal_strlit("presentationTimeOffset");
            reveal_strlit("indexRange");
            reveal_strlit("indexRangeExact");
            reveal_strlit("availabilityTimeOffset");
            reveal_strlit("availabilityTimeComplete");
            reveal_strlit("Initialization");
            reveal_strlit("RepresentationIndex");
            reveal_strlit("SegmentTimeline");
            reveal_strlit("BitstreamSwitching");
            assert("timescale"@.len() == 9);
            assert("startNumber"@.len() == 11);
            assert("duration"@.len() == 8);
            assert("presentationTimeOffset"@.len() == 22);
            assert("indexRange"@.len() == 10);
            assert("indexRangeExact"@.len() == 15);
            assert("availabilityTimeOffset"@.len() == 22);
            assert("availabilityTimeComplete"@.len() == 24);
            assert("Initialization"@.len() == 14);
            assert("RepresentationIndex"@.len() == 19);
            assert("SegmentTimeline"@.len() == 15);
            assert("BitstreamSwitching"@.len() == 18);
            assert("presentationTimeOffset"@[0] == 'p');
            assert("indexRangeExact"@[0] == 'i');
            assert("availabilityTimeOffset"@[0] == 'a');
            assert("SegmentTimeline"@[0] == 'S');
        }
        let mut e = XmlElement::new(name);
        put_u64(&mut e, "timescale", self.timescale);
        put_u64(&mut e, "startNumber", self.start_number);
        put_u64(&mut e, "duration", self.duration);
        put_u64(&mut e, "presentationTimeOffset", self.presentation_time_offset);
        put_text(&mut e, "indexRange", &self.index_range);
        put_bool(&mut e, "indexRangeExact", self.index_range_exact);
        put_text(&mut e, "availabilityTimeOffset", &self.availability_time_offset);
        put_bool(&mut e, "availabilityTimeComplete", self.availability_time_complete);
        put_optional_child(&mut e, "Initialization", &self.initialization);
        put_optional_child(&mut e, "RepresentationIndex", &self.representation_index);
        put_optional_child(&mut e, "SegmentTimeline", &self.segment_timeline);
        put_optional_child(&mut e, "BitstreamSwitching", &self.bitstream_switching);
        e
    }
}

impl ToElement for SegmentList {
    open spec fn well_formed(&self) -> bool {
        self.base.well_formed() && all_well_formed(self.segment_url@)
    }

    open spec fn writes_attr(n: Seq<char>) -> bool {
        MultipleSegmentBaseType::writes_attr(n) || n == "xlink:href"@ || n == "xlink:actuate"@
    }

    open spec fn writes_child(n: Seq<char>) -> bool {
        MultipleSegmentBaseType::writes_child(n) || n == "SegmentURL"@
    }

    proof fn lemma_read_well_formed(e: XmlElement, v: SegmentList) {
        MultipleSegmentBaseType::lemma_read_well_formed(e, v.base);
        lemma_all_read_well_formed::<SegmentListUrl>(children_named(e, "SegmentURL"@), v.segment_url@);
    }

    fn to_element(&self, name: &str) -> (r: XmlElement) {
        proof {
            reveal_strlit("timescale");
            reveal_strlit("startNumber");
            reveal_strlit("duration");
            reveal_strlit("presentationTimeOffset");
            reveal_strlit("indexRange");
            reveal_strlit("indexRangeExact");
            reveal_strlit("availabilityTimeOffset");
            reveal_strlit("availabilityTimeComplete");
            reveal_strlit("Initialization");
            reveal_strlit("RepresentationIndex");
            reveal_strlit("SegmentTimeline");
            reveal_strlit("BitstreamSwitching");
            reveal_strlit("xlink:href");
            reveal_strlit("xlink:actuate");
            reveal_strlit("SegmentURL");
            assert("timescale"@.len() == 9);
            assert("startNumber"@.len() == 11);
            assert("duration"@.len() == 8);
            assert("presentationTimeOffset"@.len() == 22);
            assert("indexRange"@.len() == 10);
            assert("indexRangeExact"@.len() == 15);
            assert("availabilityTimeOffset"@.len() == 22);
            assert("availabilityTimeComplete"@.len() == 24);
            assert("Initialization"@.len() == 14);
            assert("RepresentationIndex"@.len() == 19);
            assert("SegmentTimeline"@.len() == 15);
            assert("BitstreamSwitching"@.len() == 18);
            assert("xlink:href"@.len() == 10);
            assert("xlink:actuate"@.len() == 13);
            assert("SegmentURL"@.len() == 10);
            assert("presentationTimeOffset"@[0] == 'p');
            assert("indexRange"@[0] == 'i');
            assert("indexRangeExact"@[0] == 'i');
            assert("availabilityTimeOffset"@[0] == 'a');
            assert("SegmentTimeline"@[0] == 'S');
            assert("xlink:href"@[0] == 'x');
            assert("SegmentURL"@[0] == 'S');
        }
        let mut e = self.base.to_element(name);
        put_text(&mut e, "xlink:href", &self.href);
        put_actuate(&mut e, self.href_actuate);
        put_children(&mut e, "SegmentURL", &self.segment_url);
        e
    }
}

impl ToElement for SegmentTemplate {
    open spec fn well_formed(&self) -> bool {
        self.base.well_formed()
    }

    open spec fn writes_attr(n: Seq<char>) -> bool {
        MultipleSegmentBaseType::writes_attr(n) || n == "media"@ || n == "index"@ || n
            == "initialization"@ || n == "bitstreamSwitching"@
    }

    open spec fn writes_child(n: Seq<char>) -> bool {
        MultipleSegmentBaseType::writes_child(n)
    }

    proof fn lemma_read_well_formed(e: XmlElement, v: SegmentTemplate) {
        MultipleSegmentBaseType::lemma_read_well_formed(e, v.base);
    }

    fn to_element(&self, name: &str) -> (r: XmlElement) {
        proof {
            reveal_strlit("timescale");
            reveal_strlit("startNumber");
            reveal_strlit("duration");
            reveal_strlit("presentationTimeOffset");
            reveal_strlit("indexRange");
            reveal_strlit("indexRangeExact");
            reveal_strlit("availabilityTimeOffset");
            reveal_strlit("availabilityTimeComplete");
            reveal_strlit("Initialization");
            reveal_strlit("RepresentationIndex");
            reveal_strlit("SegmentTimeline");
            reveal_strlit("BitstreamSwitching");
            reveal_strlit("media");
            reveal_strlit("index");
            reveal_strlit("initialization");
            reveal_strlit("bitstreamSwitching");
            assert("timescale"@.len() == 9);
            assert("startNumber"@.len() == 11);
            assert("duration"@.len() == 8);
            assert("presentationTimeOffset"@.len() == 22);
            assert("indexRange"@.len() == 10);
            assert("indexRangeExact"@.len() == 15);
            assert("availabilityTimeOffset"@.len() == 22);
            assert("availabilityTimeComplete"@.len() == 24);
            assert("Initialization"@.len() == 14);
            assert("RepresentationIndex"@.len() == 19);
            assert("SegmentTimeline"@.len() == 15);
            assert("BitstreamSwitching"@.len() == 18);
            assert("media"@.len() == 5);
            assert("index"@.len() == 5);
            assert("initialization"@.len() == 14);
            assert("bitstreamSwitching"@.len() == 18);
            assert("presentationTimeOffset"@[0] == 'p');
            assert("indexRangeExact"@[0] == 'i');
            assert("availabilityTimeOffset"@[0] == 'a');
            assert("Initialization"@[0] == 'I');
            assert("SegmentTimeline"@[0] == 'S');
            assert("BitstreamSwitching"@[0] == 'B');
            assert("media"@[0] == 'm');
            assert("index"@[0] == 'i');
            assert("initialization"@[0] == 'i');
            assert("bitstreamSwitching"@[0] == 'b');
        }
        let mut e = self.base.to_element(name);
        put_text(&mut e, "media", &self.media);
        put_text(&mut e, "index", &self.index);
        put_text(&mut e, "initialization", &self.initialization_url);
        put_text(&mut e, "bitstreamSwitching", &self.bitstream_switching_url);
        e
    }
}

impl ToElement for BaseURL {
    open spec fn well_formed(&self) -> bool {
        true
    }

    open spec fn writes_attr(n: Seq<char>) -> bool {
        n == "serviceLocation"@ || n == "byteRange"@ || n == "availabilityTimeOffset"@ || n
            == "availabilityTimeComplete"@
    }

    open spec fn writes_child(n: Seq<char>) -> bool {
        false
    }

    proof fn lemma_read_well_formed(e: XmlElement, v: BaseURL) {
    }

    fn to_element(&self, name: &str) -> (r: XmlElement) {
        proof {
            reveal_strlit("serviceLocation");
            reveal_strlit("byteRange");
            reveal_strlit("availabilityTimeOffset");
            reveal_strlit("availabilityTimeComplete");
            assert("serviceLocation"@.len() == 15);
            assert("byteRange"@.len() == 9);
            assert("availabilityTimeOffset"@.len() == 22);
            assert("availabilityTimeComplete"@.len() == 24);
        }
        let mut e = XmlElement::new(name);
        e.text = self.url.clone();
        put_text(&mut e, "serviceLocation", &self.service_location);
        put_text(&mut e, "byteRange", &self.byte_range);
        put_text(&mut e, "availabilityTimeOffset", &self.availability_time_offset);
        put_bool(&mut e, "availabilityTimeComplete", self.availability_time_complete);
        e
    }
}

} // verus!
