//! A period: a stretch of the presentation, with its adaptation sets.
use crate::duration_iso_8601::{iso_text, Duration, Iso8601};
use crate::element_writer::{
    all_well_formed, duration_well_formed, lemma_all_read_well_formed, lemma_duration_read,
    lemma_first_read_well_formed, option_well_formed, put_bool, put_children, put_duration,
    put_optional_child, put_text, ToElement,
};
use crate::representations::AdaptationSet;
use crate::segments::{BaseURL, SegmentBase, SegmentList, SegmentTemplate};
use crate::utils::{
    actuate_attr, actuate_value, put_actuate, Descriptor, EventStream, HrefActuate, Subset,
};
use crate::xml::{
    all_valid, bool_attr, bool_value, children_named, collect_children, duration_attr, duration_ms,
    duration_value, first_child, first_maps, first_valid, maps_all, text_attr, text_value,
    FromElement, ManifestError, XmlElement,
};
use vstd::prelude::*;
use vstd::string::*;

verus! {

/// A period. Its start and duration are each optional; an absent duration is
/// not derived from the next period's start.
#[derive(Debug, PartialEq)]
pub struct Period {
    pub href: String,
    pub href_actuate: HrefActuate,
    pub id: String,
    pub start: Option<Duration>,
    pub duration: Option<Duration>,
    pub bitstream_switching: bool,
    pub base_urls: Vec<BaseURL>,
    pub segment_base: Option<SegmentBase>,
    pub segment_list: Option<SegmentList>,
    pub segment_template: Option<SegmentTemplate>,
    pub asset_identifier: Option<Descriptor>,
    pub event_stream: Vec<EventStream>,
    pub adaptations: Vec<AdaptationSet>,
    pub subsets: Vec<Subset>,
}

impl FromElement for Period {
    open spec fn valid_element(e: XmlElement) -> bool {
        &&& actuate_value(e) is Some
        &&& duration_value(e, "start"@) is Some
        &&& duration_value(e, "duration"@) is Some
        &&& bool_value(e, "bitstreamSwitching"@) is Some
        &&& all_valid::<BaseURL>(children_named(e, "BaseURL"@))
        &&& first_valid::<SegmentBase>(children_named(e, "SegmentBase"@))
        &&& first_valid::<SegmentList>(children_named(e, "SegmentList"@))
        &&& first_valid::<SegmentTemplate>(children_named(e, "SegmentTemplate"@))
        &&& first_valid::<Descriptor>(children_named(e, "AssetIdentifier"@))
        &&& all_valid::<EventStream>(children_named(e, "EventStream"@))
        &&& all_valid::<AdaptationSet>(children_named(e, "AdaptationSet"@))
        &&& all_valid::<Subset>(children_named(e, "Subset"@))
    }

    open spec fn maps_from(e: XmlElement, v: Period) -> bool {
        &&& v.href@ == text_value(e, "xlink:href"@)
        &&& actuate_value(e) == Some(v.href_actuate)
        &&& v.id@ == text_value(e, "id"@)
        &&& duration_value(e, "start"@) == Some(duration_ms(v.start))
        &&& duration_value(e, "duration"@) == Some(duration_ms(v.duration))
        &&& bool_value(e, "bitstreamSwitching"@) == Some(v.bitstream_switching)
        &&& maps_all(children_named(e, "BaseURL"@), v.base_urls@)
        &&& first_maps(children_named(e, "SegmentBase"@), v.segment_base)
        &&& first_maps(children_named(e, "SegmentList"@), v.segment_list)
        &&& first_maps(children_named(e, "SegmentTemplate"@), v.segment_template)
        &&& first_maps(children_named(e, "AssetIdentifier"@), v.asset_identifier)
        &&& maps_all(children_named(e, "EventStream"@), v.event_stream@)
        &&& maps_all(children_named(e, "AdaptationSet"@), v.adaptations@)
        &&& maps_all(children_named(e, "Subset"@), v.subsets@)
    }

    fn from_element(e: &XmlElement) -> (r: Result<Period, ManifestError>) {
        let href_actuate = actuate_attr(e)?;
        let start = duration_attr(e, "start")?;
        let duration = duration_attr(e, "duration")?;
        let bitstream_switching = bool_attr(e, "bitstreamSwitching")?;
        let base_urls = collect_children(e, "BaseURL")?;
        let segment_base = first_child(e, "SegmentBase")?;
        let segment_list = first_child(e, "SegmentList")?;
        let segment_template = first_child(e, "SegmentTemplate")?;
        let asset_identifier = first_child(e, "AssetIdentifier")?;
        let event_stream = collect_children(e, "EventStream")?;
        let adaptations = collect_children(e, "AdaptationSet")?;
        let subsets = collect_children(e, "Subset")?;
        Ok(
            Period {
                href: text_attr(e, "xlink:href"),
                href_actuate,
                id: text_attr(e, "id"),
                start,
                duration,
                bitstream_switching,
                base_urls,
                segment_base,
                segment_list,
                segment_template,
                asset_identifier,
                event_stream,
                adaptations,
                subsets,
            },
        )
    }
}

impl ToElement for Period {
    open spec fn well_formed(&self) -> bool {
        &&& duration_well_formed(self.start)
        &&& duration_well_formed(self.duration)
        &&& all_well_formed(self.base_urls@)
        &&& option_well_formed(self.segment_base)
        &&& option_well_formed(self.segment_list)
        &&& option_well_formed(self.segment_template)
        &&& option_well_formed(self.asset_identifier)
        &&& all_well_formed(self.event_stream@)
        &&& all_well_formed(self.adaptations@)
        &&& all_well_formed(self.subsets@)
    }

    open spec fn writes_attr(n: Seq<char>) -> bool {
        n == "xlink:href"@ || n == "xlink:actuate"@ || n == "id"@ || n == "start"@ || n == "duration"@ || n == "bitstreamSwitching"@
    }

    open spec fn writes_child(n: Seq<char>) -> bool {
        n == "BaseURL"@ || n == "SegmentBase"@ || n == "SegmentList"@ || n == "SegmentTemplate"@ || n == "AssetIdentifier"@ || n == "EventStream"@ || n == "AdaptationSet"@ || n == "Subset"@
    }

    proof fn lemma_read_well_formed(e: XmlElement, v: Period) {
        lemma_duration_read(e, "start"@, v.start);
        lemma_duration_read(e, "duration"@, v.duration);
        lemma_all_read_well_formed::<BaseURL>(children_named(e, "BaseURL"@), v.base_urls@);
        lemma_first_read_well_formed::<SegmentBase>(children_named(e, "SegmentBase"@), v.segment_base);
        lemma_first_read_well_formed::<SegmentList>(children_named(e, "SegmentList"@), v.segment_list);
        lemma_first_read_well_formed::<SegmentTemplate>(children_named(e, "SegmentTemplate"@), v.segment_template);
        lemma_first_read_well_formed::<Descriptor>(children_named(e, "AssetIdentifier"@), v.asset_identifier);
        lemma_all_read_well_formed::<EventStream>(children_named(e, "EventStream"@), v.event_stream@);
        lemma_all_read_well_formed::<AdaptationSet>(children_named(e, "AdaptationSet"@), v.adaptations@);
        lemma_all_read_well_formed::<Subset>(children_named(e, "Subset"@), v.subsets@);
    }

    #[verifier::rlimit(40)]
    fn to_element(&self, name: &str) -> (r: XmlElement) {
        proof {
            reveal_strlit("xlink:href");
            reveal_strlit("xlink:actuate");
            reveal_strlit("id");
            reveal_strlit("start");
            reveal_strlit("duration");
            reveal_strlit("bitstreamSwitching");
            reveal_strlit("BaseURL");
            reveal_strlit("SegmentBase");
            reveal_strlit("SegmentList");
            reveal_strlit("SegmentTemplate");
            reveal_strlit("AssetIdentifier");
            reveal_strlit("EventStream");
            reveal_strlit("AdaptationSet");
            reveal_strlit("Subset");
            assert("xlink:href"@.len() == 10);
            assert("xlink:actuate"@.len() == 13);
            assert("id"@.len() == 2);
            assert("start"@.len() == 5);
            assert("duration"@.len() == 8);
            assert("bitstreamSwitching"@.len() == 18);
            assert("BaseURL"@.len() == 7);
            assert("SegmentBase"@.len() == 11);
            assert("SegmentList"@.len() == 11);
            assert("SegmentTemplate"@.len() == 15);
            assert("AssetIdentifier"@.len() == 15);
            assert("EventStream"@.len() == 11);
            assert("AdaptationSet"@.len() == 13);
            assert("Subset"@.len() == 6);
            assert("xlink:actuate"@[0] == 'x');
            assert("SegmentBase"@[0] == 'S');
            assert("SegmentBase"@[7] == 'B');
            assert("SegmentList"@[0] == 'S');
            assert("SegmentList"@[7] == 'L');
            assert("SegmentTemplate"@[0] == 'S');
            assert("AssetIdentifier"@[0] == 'A');
            assert("EventStream"@[0] == 'E');
            assert("AdaptationSet"@[0] == 'A');
        }
        let mut e = XmlElement::new(name);
        put_text(&mut e, "xlink:href", &self.href);
        put_actuate(&mut e, self.href_actuate);
        put_text(&mut e, "id", &self.id);
        put_duration(&mut e, "start", self.start);
        put_duration(&mut e, "duration", self.duration);
        put_bool(&mut e, "bitstreamSwitching", self.bitstream_switching);
        put_children(&mut e, "BaseURL", &self.base_urls);
        put_optional_child(&mut e, "SegmentBase", &self.segment_base);
        put_optional_child(&mut e, "SegmentList", &self.segment_list);
        put_optional_child(&mut e, "SegmentTemplate", &self.segment_template);
        put_optional_child(&mut e, "AssetIdentifier", &self.asset_identifier);
        put_children(&mut e, "EventStream", &self.event_stream);
        put_children(&mut e, "AdaptationSet", &self.adaptations);
        put_children(&mut e, "Subset", &self.subsets);
        e
    }
}

/// The summary of a period: its id on a line, then its start and duration where
/// they are given.
pub open spec fn period_summary(p: Period) -> Seq<char> {
    "Period ID : "@ + p.id@ + "\n"@ + (match p.start {
        Some(d) => "Start : "@ + iso_text(d.ms as int),
        None => Seq::empty(),
    }) + (match p.duration {
        Some(d) => "Duration : "@ + iso_text(d.ms as int),
        None => Seq::empty(),
    })
}

impl Period {
    /// A short summary of the period.
    pub fn display(&self) -> (r: String)
        ensures
            r@ == period_summary(*self),
    {
        let mut out = String::from_str("Period ID : ");
        out.append(self.id.as_str());
        out.append("\n");
        match self.start {
            Some(d) => {
                out.append("Start : ");
                out.append(Iso8601::to_string(d).as_str());
            },
            None => {},
        }
        match self.duration {
            Some(d) => {
                out.append("Duration : ");
                out.append(Iso8601::to_string(d).as_str());
            },
            None => {},
        }
        assert(out@ =~= period_summary(*self));
        out
    }
}

} // verus!
