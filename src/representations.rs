//! Adaptation sets, representations and sub-representations: three levels that
//! share one vocabulary of attributes and children, held in `RepresentationBase`.
use crate::conditional_uint::ConditionalUint;
use crate::element_writer::{
    all_well_formed, lemma_all_read_well_formed, lemma_first_read_well_formed, lemma_tags_read,
    lemma_words_read, option_well_formed, put_bool, put_children, put_conditional,
    put_optional_child, put_optional_text, put_required_text, put_sap, put_tags, put_text, put_u64,
    put_u64_list, put_words, tags_well_formed, words_well_formed, ToElement,
};
use crate::segments::{BaseURL, SegmentBase, SegmentList, SegmentTemplate};
use crate::tags::tokens_view;
use crate::text::same_text;
use crate::utils::{
    actuate_attr, actuate_value, put_actuate, put_scan, scan_attr, scan_value, ContentComponent,
    Descriptor, EventStream, HrefActuate, Switching, VideoScan,
};
use crate::xml::{
    all_valid, attr, bool_attr, bool_value, children_named, collect_children, conditional_attr,
    conditional_value, first_child, first_maps, first_valid, maps_all, optional_text_attr,
    required_text_attr, sap_attr, sap_value, tags_attr, tags_value, text_attr, text_option,
    text_value, u64_attr, u64_list_attr, u64_list_value, u64_value, words_attr, words_value,
    FromElement, ManifestError, XmlElement,
};
use vstd::prelude::*;
use vstd::string::*;

verus! {

/// A scheme-specific value of a content protection entry, tagged by the
/// vocabulary it comes from. The payload is kept as written.
#[derive(Debug, PartialEq)]
pub enum ProtectionAttribut {
    CencPssh(String),
    MsprPro(String),
    DashifAuthzurl(String),
    DashifLaurl(String),
}

/// Whether an element name is one of the protection vocabularies.
pub open spec fn is_protection_name(n: Seq<char>) -> bool {
    n == "cenc:pssh"@ || n == "mspr:pro"@ || n == "dashif:authzurl"@ || n == "dashif:laurl"@
}

/// The children of a content protection entry that carry a protection value, in order.
pub open spec fn protection_children(s: Seq<XmlElement>) -> Seq<XmlElement>
    decreases s.len(),
{
    if s.len() == 0 {
        Seq::empty()
    } else if is_protection_name(s.last().name@) {
        protection_children(s.drop_last()).push(s.last())
    } else {
        protection_children(s.drop_last())
    }
}

/// `p` is the value that the element `e` carries.
pub open spec fn protection_maps(e: XmlElement, p: ProtectionAttribut) -> bool {
    match p {
        ProtectionAttribut::CencPssh(t) => e.name@ == "cenc:pssh"@ && t@ == e.text@,
        ProtectionAttribut::MsprPro(t) => e.name@ == "mspr:pro"@ && t@ == e.text@,
        ProtectionAttribut::DashifAuthzurl(t) => e.name@ == "dashif:authzurl"@ && t@ == e.text@,
        ProtectionAttribut::DashifLaurl(t) => e.name@ == "dashif:laurl"@ && t@ == e.text@,
    }
}

/// The protection values of the elements `s`, in order.
pub fn protection_values(s: &Vec<XmlElement>) -> (r: Vec<ProtectionAttribut>)
    ensures
        r@.len() == protection_children(s@).len(),
        forall|i: int|
            0 <= i < r@.len() ==> protection_maps(protection_children(s@)[i], #[trigger] r@[i]),
{
    let n = s.len();
    let mut out: Vec<ProtectionAttribut> = Vec::new();
    let mut i: usize = 0;
    assert(s@.take(0) =~= Seq::<XmlElement>::empty());
    while i < n
        invariant
            i <= n,
            n == s@.len(),
            out@.len() == protection_children(s@.take(i as int)).len(),
            forall|j: int|
                0 <= j < out@.len() ==> protection_maps(
                    protection_children(s@.take(i as int))[j],
                    #[trigger] out@[j],
                ),
        decreases n - i,
    {
        let c = &s[i];
        assert(s@.take(i + 1).drop_last() =~= s@.take(i as int));
        let name = c.name.as_str();
        if same_text(name, "cenc:pssh") {
            out.push(ProtectionAttribut::CencPssh(c.text.clone()));
        } else if same_text(name, "mspr:pro") {
            out.push(ProtectionAttribut::MsprPro(c.text.clone()));
        } else if same_text(name, "dashif:authzurl") {
            out.push(ProtectionAttribut::DashifAuthzurl(c.text.clone()));
        } else if same_text(name, "dashif:laurl") {
            out.push(ProtectionAttribut::DashifLaurl(c.text.clone()));
        }
        i = i + 1;
    }
    assert(s@.take(n as int) =~= s@);
    out
}

/// A content protection scheme, with its default key id and its scheme-specific values.
#[derive(Debug, PartialEq)]
pub struct ContentProtection {
    pub scheme_id_uri: String,
    pub value: String,
    pub id: String,
    pub default_kid: Option<String>,
    pub protection_key: Vec<ProtectionAttribut>,
}

impl FromElement for ContentProtection {
    open spec fn valid_element(e: XmlElement) -> bool {
        attr(e, "schemeIdUri"@) is Some
    }

    open spec fn maps_from(e: XmlElement, v: ContentProtection) -> bool {
        &&& attr(e, "schemeIdUri"@) == Some(v.scheme_id_uri@)
        &&& v.value@ == text_value(e, "value"@)
        &&& v.id@ == text_value(e, "id"@)
        &&& text_option(v.default_kid) == attr(e, "cenc:default_KID"@)
        &&& v.protection_key@.len() == protection_children(e.children@).len()
        &&& forall|i: int|
            0 <= i < v.protection_key@.len() ==> protection_maps(
                protection_children(e.children@)[i],
                #[trigger] v.protection_key@[i],
            )
    }

    fn from_element(e: &XmlElement) -> (r: Result<ContentProtection, ManifestError>) {
        let scheme_id_uri = required_text_attr(e, "schemeIdUri")?;
        Ok(
            ContentProtection {
                scheme_id_uri,
                value: text_attr(e, "value"),
                id: text_attr(e, "id"),
                default_kid: optional_text_attr(e, "cenc:default_KID"),
                protection_key: protection_values(&e.children),
            },
        )
    }
}

/// What adaptation sets, representations and sub-representations have in common.
/// The maximum SAP period and maximum playout rate are decimals kept as written.
#[derive(Debug, PartialEq)]
pub struct RepresentationBase {
    pub profiles: Vec<String>,
    pub width: u64,
    pub height: u64,
    pub sar: String,
    pub frame_rate: String,
    pub audio_sampling_rate: String,
    pub mime_type: String,
    pub segment_profiles: Vec<String>,
    pub codecs: Vec<String>,
    pub maximum_sap_period: String,
    pub start_with_sap: u8,
    pub max_playout_rate: String,
    pub coding_dependency: bool,
    pub scan_type: VideoScan,
    pub frame_packing: Vec<Descriptor>,
    pub audio_channel_configuration: Vec<Descriptor>,
    pub content_protection: Vec<ContentProtection>,
    pub essential_property: Vec<Descriptor>,
    pub supplemental_property: Vec<Descriptor>,
    pub inband_event_stream: Vec<EventStream>,
    pub switching: Vec<Switching>,
}

impl FromElement for RepresentationBase {
    open spec fn valid_element(e: XmlElement) -> bool {
        &&& u64_value(e, "width"@) is Some
        &&& u64_value(e, "height"@) is Some
        &&& sap_value(e, "startWithSAP"@) is Some
        &&& bool_value(e, "codingDependency"@) is Some
        &&& scan_value(e) is Some
        &&& all_valid::<Descriptor>(children_named(e, "FramePacking"@))
        &&& all_valid::<Descriptor>(children_named(e, "AudioChannelConfiguration"@))
        &&& all_valid::<ContentProtection>(children_named(e, "ContentProtection"@))
        &&& all_valid::<Descriptor>(children_named(e, "EssentialProperty"@))
        &&& all_valid::<Descriptor>(children_named(e, "SupplementalProperty"@))
        &&& all_valid::<EventStream>(children_named(e, "InbandEventStream"@))
        &&& all_valid::<Switching>(children_named(e, "Switching"@))
    }

    open spec fn maps_from(e: XmlElement, v: RepresentationBase) -> bool {
        &&& tokens_view(v.profiles@) == tags_value(e, "profiles"@)
        &&& u64_value(e, "width"@) == Some(v.width)
        &&& u64_value(e, "height"@) == Some(v.height)
        &&& v.sar@ == text_value(e, "sar"@)
        &&& v.frame_rate@ == text_value(e, "frameRate"@)
        &&& v.audio_sampling_rate@ == text_value(e, "audioSamplingRate"@)
        &&& v.mime_type@ == text_value(e, "mimeType"@)
        &&& tokens_view(v.segment_profiles@) == tags_value(e, "segmentProfiles"@)
        &&& tokens_view(v.codecs@) == tags_value(e, "codecs"@)
        &&& v.maximum_sap_period@ == text_value(e, "maximumSAPPeriod"@)
        &&& sap_value(e, "startWithSAP"@) == Some(v.start_with_sap)
        &&& v.max_playout_rate@ == text_value(e, "maxPlayoutRate"@)
        &&& bool_value(e, "codingDependency"@) == Some(v.coding_dependency)
        &&& scan_value(e) == Some(v.scan_type)
        &&& maps_all(children_named(e, "FramePacking"@), v.frame_packing@)
        &&& maps_all(children_named(e, "AudioChannelConfiguration"@), v.audio_channel_configuration@)
        &&& maps_all(children_named(e, "ContentProtection"@), v.content_protection@)
        &&& maps_all(children_named(e, "EssentialProperty"@), v.essential_property@)
        &&& maps_all(children_named(e, "SupplementalProperty"@), v.supplemental_property@)
        &&& maps_all(children_named(e, "InbandEventStream"@), v.inband_event_stream@)
        &&& maps_all(children_named(e, "Switching"@), v.switching@)
    }

    fn from_element(e: &XmlElement) -> (r: Result<RepresentationBase, ManifestError>) {
        let width = u64_attr(e, "width")?;
        let height = u64_attr(e, "height")?;
        let start_with_sap = sap_attr(e, "startWithSAP")?;
        let coding_dependency = bool_attr(e, "codingDependency")?;
        let scan_type = scan_attr(e)?;
        let frame_packing = collect_children(e, "FramePacking")?;
        let audio_channel_configuration = collect_children(e, "AudioChannelConfiguration")?;
        let content_protection = collect_children(e, "ContentProtection")?;
        let essential_property = collect_children(e, "EssentialProperty")?;
        let supplemental_property = collect_children(e, "SupplementalProperty")?;
        let inband_event_stream = collect_children(e, "InbandEventStream")?;
        let switching = collect_children(e, "Switching")?;
        Ok(
            RepresentationBase {
                profiles: tags_attr(e, "profiles"),
                width,
                height,
                sar: text_attr(e, "sar"),
                frame_rate: text_attr(e, "frameRate"),
                audio_sampling_rate: text_attr(e, "audioSamplingRate"),
                mime_type: text_attr(e, "mimeType"),
                segment_profiles: tags_attr(e, "segmentProfiles"),
                codecs: tags_attr(e, "codecs"),
                maximum_sap_period: text_attr(e, "maximumSAPPeriod"),
                start_with_sap,
                max_playout_rate: text_attr(e, "maxPlayoutRate"),
                coding_dependency,
                scan_type,
                frame_packing,
                audio_channel_configuration,
                content_protection,
                essential_property,
                supplemental_property,
                inband_event_stream,
                switching,
            },
        )
    }
}

/// A part of a representation (a level of it).
#[derive(Debug, PartialEq)]
pub struct SubRepresentation {
    pub base: RepresentationBase,
    pub level: u64,
    pub dependency_level: Vec<u64>,
    pub bandwidth: u64,
    pub content_component: Vec<String>,
}

impl FromElement for SubRepresentation {
    open spec fn valid_element(e: XmlElement) -> bool {
        &&& RepresentationBase::valid_element(e)
        &&& u64_value(e, "level"@) is Some
        &&& u64_list_value(e, "dependencyLevel"@) is Some
        &&& u64_value(e, "bandwidth"@) is Some
    }

    open spec fn maps_from(e: XmlElement, v: SubRepresentation) -> bool {
        &&& RepresentationBase::maps_from(e, v.base)
        &&& u64_value(e, "level"@) == Some(v.level)
        &&& u64_list_value(e, "dependencyLevel"@) == Some(v.dependency_level@)
        &&& u64_value(e, "bandwidth"@) == Some(v.bandwidth)
        &&& tokens_view(v.content_component@) == words_value(e, "contentComponent"@)
    }

    fn from_element(e: &XmlElement) -> (r: Result<SubRepresentation, ManifestError>) {
        let base = RepresentationBase::from_element(e)?;
        let level = u64_attr(e, "level")?;
        let dependency_level = u64_list_attr(e, "dependencyLevel")?;
        let bandwidth = u64_attr(e, "bandwidth")?;
        Ok(
            SubRepresentation {
                base,
                level,
                dependency_level,
                bandwidth,
                content_component: words_attr(e, "contentComponent"),
            },
        )
    }
}

/// One encoded alternative of an adaptation set.
#[derive(Debug, PartialEq)]
pub struct Representation {
    pub base: RepresentationBase,
    pub id: String,
    pub bandwidth: u64,
    pub quality_ranking: u64,
    pub dependency_id: Vec<String>,
    pub media_stream_structure_id: Vec<String>,
    pub sub_representations: Vec<SubRepresentation>,
    pub base_urls: Vec<BaseURL>,
    pub segment_base: Option<SegmentBase>,
    pub segment_list: Option<SegmentList>,
    pub segment_template: Option<SegmentTemplate>,
}

impl FromElement for Representation {
    open spec fn valid_element(e: XmlElement) -> bool {
        &&& RepresentationBase::valid_element(e)
        &&& attr(e, "id"@) is Some
        &&& u64_value(e, "bandwidth"@) is Some
        &&& u64_value(e, "qualityRanking"@) is Some
        &&& all_valid::<SubRepresentation>(children_named(e, "SubRepresentation"@))
        &&& all_valid::<BaseURL>(children_named(e, "BaseURL"@))
        &&& first_valid::<SegmentBase>(children_named(e, "SegmentBase"@))
        &&& first_valid::<SegmentList>(children_named(e, "SegmentList"@))
        &&& first_valid::<SegmentTemplate>(children_named(e, "SegmentTemplate"@))
    }

    open spec fn maps_from(e: XmlElement, v: Representation) -> bool {
        &&& RepresentationBase::maps_from(e, v.base)
        &&& attr(e, "id"@) == Some(v.id@)
        &&& u64_value(e, "bandwidth"@) == Some(v.bandwidth)
        &&& u64_value(e, "qualityRanking"@) == Some(v.quality_ranking)
        &&& tokens_view(v.dependency_id@) == words_value(e, "dependencyId"@)
        &&& tokens_view(v.media_stream_structure_id@) == words_value(e, "mediaStreamStructureId"@)
        &&& maps_all(children_named(e, "SubRepresentation"@), v.sub_representations@)
        &&& maps_all(children_named(e, "BaseURL"@), v.base_urls@)
        &&& first_maps(children_named(e, "SegmentBase"@), v.segment_base)
        &&& first_maps(children_named(e, "SegmentList"@), v.segment_list)
        &&& first_maps(children_named(e, "SegmentTemplate"@), v.segment_template)
    }

    fn from_element(e: &XmlElement) -> (r: Result<Representation, ManifestError>) {
        let base = RepresentationBase::from_element(e)?;
        let id = required_text_attr(e, "id")?;
        let bandwidth = u64_attr(e, "bandwidth")?;
        let quality_ranking = u64_attr(e, "qualityRanking")?;
        let sub_representations = collect_children(e, "SubRepresentation")?;
        let base_urls = collect_children(e, "BaseURL")?;
        let segment_base = first_child(e, "SegmentBase")?;
        let segment_list = first_child(e, "SegmentList")?;
        let segment_template = first_child(e, "SegmentTemplate")?;
        Ok(
            Representation {
                base,
                id,
                bandwidth,
                quality_ranking,
                dependency_id: words_attr(e, "dependencyId"),
                media_stream_structure_id: words_attr(e, "mediaStreamStructureId"),
                sub_representations,
                base_urls,
                segment_base,
                segment_list,
                segment_template,
            },
        )
    }
}

/// A group of interchangeable encodings of one media component.
#[derive(Debug, PartialEq)]
pub struct AdaptationSet {
    pub base: RepresentationBase,
    pub href: String,
    pub href_actuate: HrefActuate,
    pub id: String,
    pub group: String,
    pub lang: String,
    pub content_type: String,
    pub par: String,
    pub max_bandwidth: u64,
    pub min_width: u64,
    pub max_width: u64,
    pub min_height: u64,
    pub max_height: u64,
    pub min_frame_rate: String,
    pub max_frame_rate: String,
    pub segment_alignment: ConditionalUint,
    pub subsegment_alignment: ConditionalUint,
    pub subsegment_starts_with_sap: u8,
    pub bitstream_switching: bool,
    pub accessibilities: Vec<Descriptor>,
    pub roles: Vec<Descriptor>,
    pub ratings: Vec<Descriptor>,
    pub viewpoints: Vec<Descriptor>,
    pub content_components: Vec<ContentComponent>,
    pub representations: Vec<Representation>,
    pub base_urls: Vec<BaseURL>,
    pub segment_base: Option<SegmentBase>,
    pub segment_list: Option<SegmentList>,
    pub segment_template: Option<SegmentTemplate>,
}

impl FromElement for AdaptationSet {
    open spec fn valid_element(e: XmlElement) -> bool {
        &&& RepresentationBase::valid_element(e)
        &&& actuate_value(e) is Some
        &&& u64_value(e, "maxBandwidth"@) is Some
        &&& u64_value(e, "minWidth"@) is Some
        &&& u64_value(e, "maxWidth"@) is Some
        &&& u64_value(e, "minHeight"@) is Some
        &&& u64_value(e, "maxHeight"@) is Some
        &&& conditional_value(e, "segmentAlignment"@) is Some
        &&& conditional_value(e, "subsegmentAlignment"@) is Some
        &&& sap_value(e, "subsegmentStartsWithSAP"@) is Some
        &&& bool_value(e, "bitstreamSwitching"@) is Some
        &&& all_valid::<Descriptor>(children_named(e, "Accessibility"@))
        &&& all_valid::<Descriptor>(children_named(e, "Role"@))
        &&& all_valid::<Descriptor>(children_named(e, "Rating"@))
        &&& all_valid::<Descriptor>(children_named(e, "Viewpoint"@))
        &&& all_valid::<ContentComponent>(children_named(e, "ContentComponent"@))
        &&& all_valid::<Representation>(children_named(e, "Representation"@))
        &&& all_valid::<BaseURL>(children_named(e, "BaseURL"@))
        &&& first_valid::<SegmentBase>(children_named(e, "SegmentBase"@))
        &&& first_valid::<SegmentList>(children_named(e, "SegmentList"@))
        &&& first_valid::<SegmentTemplate>(children_named(e, "SegmentTemplate"@))
    }

    open spec fn maps_from(e: XmlElement, v: AdaptationSet) -> bool {
        &&& RepresentationBase::maps_from(e, v.base)
        &&& v.href@ == text_value(e, "xlink:href"@)
        &&& actuate_value(e) == Some(v.href_actuate)
        &&& v.id@ == text_value(e, "id"@)
        &&& v.group@ == text_value(e, "group"@)
        &&& v.lang@ == text_value(e, "lang"@)
        &&& v.content_type@ == text_value(e, "contentType"@)
        &&& v.par@ == text_value(e, "par"@)
        &&& u64_value(e, "maxBandwidth"@) == Some(v.max_bandwidth)
        &&& u64_value(e, "minWidth"@) == Some(v.min_width)
        &&& u64_value(e, "maxWidth"@) == Some(v.max_width)
        &&& u64_value(e, "minHeight"@) == Some(v.min_height)
        &&& u64_value(e, "maxHeight"@) == Some(v.max_height)
        &&& v.min_frame_rate@ == text_value(e, "minFrameRate"@)
        &&& v.max_frame_rate@ == text_value(e, "maxFrameRate"@)
        &&& conditional_value(e, "segmentAlignment"@) == Some(v.segment_alignment)
        &&& conditional_value(e, "subsegmentAlignment"@) == Some(v.subsegment_alignment)
        &&& sap_value(e, "subsegmentStartsWithSAP"@) == Some(v.subsegment_starts_with_sap)
        &&& bool_value(e, "bitstreamSwitching"@) == Some(v.bitstream_switching)
        &&& maps_all(children_named(e, "Accessibility"@), v.accessibilities@)
        &&& maps_all(children_named(e, "Role"@), v.roles@)
        &&& maps_all(children_named(e, "Rating"@), v.ratings@)
        &&& maps_all(children_named(e, "Viewpoint"@), v.viewpoints@)
        &&& maps_all(children_named(e, "ContentComponent"@), v.content_components@)
        &&& maps_all(children_named(e, "Representation"@), v.representations@)
        &&& maps_all(children_named(e, "BaseURL"@), v.base_urls@)
        &&& first_maps(children_named(e, "SegmentBase"@), v.segment_base)
        &&& first_maps(children_named(e, "SegmentList"@), v.segment_list)
        &&& first_maps(children_named(e, "SegmentTemplate"@), v.segment_template)
    }

    fn from_element(e: &XmlElement) -> (r: Result<AdaptationSet, ManifestError>) {
        let base = RepresentationBase::from_element(e)?;
        let href_actuate = actuate_attr(e)?;
        let max_bandwidth = u64_attr(e, "maxBandwidth")?;
        let min_width = u64_attr(e, "minWidth")?;
        let max_width = u64_attr(e, "maxWidth")?;
        let min_height = u64_attr(e, "minHeight")?;
        let max_height = u64_attr(e, "maxHeight")?;
        let segment_alignment = conditional_attr(e, "segmentAlignment")?;
        let subsegment_alignment = conditional_attr(e, "subsegmentAlignment")?;
        let subsegment_starts_with_sap = sap_attr(e, "subsegmentStartsWithSAP")?;
        let bitstream_switching = bool_attr(e, "bitstreamSwitching")?;
        let accessibilities = collect_children(e, "Accessibility")?;
        let roles = collect_children(e, "Role")?;
        let ratings = collect_children(e, "Rating")?;
        let viewpoints = collect_children(e, "Viewpoint")?;
        let content_components = collect_children(e, "ContentComponent")?;
        let representations = collect_children(e, "Representation")?;
        let base_urls = collect_children(e, "BaseURL")?;
        let segment_base = first_child(e, "SegmentBase")?;
        let segment_list = first_child(e, "SegmentList")?;
        let segment_template = first_child(e, "SegmentTemplate")?;
        Ok(
            AdaptationSet {
                base,
                href: text_attr(e, "xlink:href"),
                href_actuate,
                id: text_attr(e, "id"),
                group: text_attr(e, "group"),
                lang: text_attr(e, "lang"),
                content_type: text_attr(e, "contentType"),
                par: text_attr(e, "par"),
                max_bandwidth,
                min_width,
                max_width,
                min_height,
                max_height,
                min_frame_rate: text_attr(e, "minFrameRate"),
                max_frame_rate: text_attr(e, "maxFrameRate"),
                segment_alignment,
                subsegment_alignment,
                subsegment_starts_with_sap,
                bitstream_switching,
                accessibilities,
                roles,
                ratings,
                viewpoints,
                content_components,
                representations,
                base_urls,
                segment_base,
                segment_list,
                segment_template,
            },
        )
    }
}

// Writing.

fn protection_element(p: &ProtectionAttribut) -> (r: XmlElement)
    ensures
        is_protection_name(r.name@),
        protection_maps(r, *p),
{
    let (name, text) = match p {
        ProtectionAttribut::CencPssh(t) => ("cenc:pssh", t),
        ProtectionAttribut::MsprPro(t) => ("mspr:pro", t),
        ProtectionAttribut::DashifAuthzurl(t) => ("dashif:authzurl", t),
        ProtectionAttribut::DashifLaurl(t) => ("dashif:laurl", t),
    };
    let mut e = XmlElement::new(name);
    e.text = text.clone();
    e
}

impl ToElement for ContentProtection {
    open spec fn well_formed(&self) -> bool {
        true
    }

    open spec fn writes_attr(n: Seq<char>) -> bool {
        n == "schemeIdUri"@ || n == "value"@ || n == "id"@ || n == "cenc:default_KID"@
    }

    open spec fn writes_child(n: Seq<char>) -> bool {
        is_protection_name(n)
    }

    proof fn lemma_read_well_formed(e: XmlElement, v: ContentProtection) {
    }

    fn to_element(&self, name: &str) -> (r: XmlElement) {
        proof {
            reveal_strlit("schemeIdUri");
            reveal_strlit("value");
            reveal_strlit("id");
            reveal_strlit("cenc:default_KID");
            assert("schemeIdUri"@.len() == 11);
            assert("value"@.len() == 5);
            assert("id"@.len() == 2);
            assert("cenc:default_KID"@.len() == 16);
        }
        let mut e = XmlElement::new(name);
        put_required_text(&mut e, "schemeIdUri", &self.scheme_id_uri);
        put_text(&mut e, "value", &self.value);
        put_text(&mut e, "id", &self.id);
        put_optional_text(&mut e, "cenc:default_KID", &self.default_kid);
        let ghost attrs_done = e;
        let n = self.protection_key.len();
        let mut i: usize = 0;
        assert(e.children@ =~= Seq::<XmlElement>::empty());
        while i < n
            invariant
                i <= n,
                n == self.protection_key@.len(),
                e.name == attrs_done.name,
                e.attributes == attrs_done.attributes,
                e.text == attrs_done.text,
                forall|j: int|
                    0 <= j < e.children@.len() ==> is_protection_name(
                        (#[trigger] e.children@[j]).name@,
                    ),
                protection_children(e.children@) == e.children@,
                e.children@.len() == i,
                forall|j: int|
                    0 <= j < i ==> protection_maps(
                        #[trigger] e.children@[j],
                        self.protection_key@[j],
                    ),
            decreases n - i,
        {
            let c = protection_element(&self.protection_key[i]);
            let ghost before = e.children@;
            e.push_child(c);
            assert(e.children@.drop_last() =~= before);
            i = i + 1;
        }
        proof {
            assert forall|m: Seq<char>| true implies #[trigger] attr(e, m) == attr(attrs_done, m) by {}
            assert(attr(e, "schemeIdUri"@) == attr(attrs_done, "schemeIdUri"@));
            assert(attr(e, "value"@) == attr(attrs_done, "value"@));
            assert(attr(e, "id"@) == attr(attrs_done, "id"@));
            assert(attr(e, "cenc:default_KID"@) == attr(attrs_done, "cenc:default_KID"@));
            assert forall|m: Seq<char>| !is_protection_name(m) implies #[trigger] children_named(
                e,
                m,
            ).len() == 0 by {
                lemma_none_named(e.children@, m);
            }
        }
        e
    }
}

proof fn lemma_none_named(s: Seq<XmlElement>, m: Seq<char>)
    requires
        !is_protection_name(m),
        forall|j: int| 0 <= j < s.len() ==> is_protection_name((#[trigger] s[j]).name@),
    ensures
        crate::xml::named(s, m).len() == 0,
    decreases s.len(),
{
    if s.len() > 0 {
        assert(is_protection_name(s[s.len() - 1].name@));
        lemma_none_named(s.drop_last(), m);
    }
}

impl ToElement for RepresentationBase {
    open spec fn well_formed(&self) -> bool {
        &&& tags_well_formed(self.profiles@)
        &&& tags_well_formed(self.segment_profiles@)
        &&& tags_well_formed(self.codecs@)
        &&& self.start_with_sap <= 6
        &&& all_well_formed(self.frame_packing@)
        &&& all_well_formed(self.audio_channel_configuration@)
        &&& all_well_formed(self.content_protection@)
        &&& all_well_formed(self.essential_property@)
        &&& all_well_formed(self.supplemental_property@)
        &&& all_well_formed(self.inband_event_stream@)
        &&& all_well_formed(self.switching@)
    }

    open spec fn writes_attr(n: Seq<char>) -> bool {
        n == "profiles"@ || n == "width"@ || n == "height"@ || n == "sar"@ || n == "frameRate"@ || n == "audioSamplingRate"@ || n == "mimeType"@ || n == "segmentProfiles"@ || n == "codecs"@ || n == "maximumSAPPeriod"@ || n == "startWithSAP"@ || n == "maxPlayoutRate"@ || n == "codingDependency"@ || n == "scanType"@
    }

    open spec fn writes_child(n: Seq<char>) -> bool {
        n == "FramePacking"@ || n == "AudioChannelConfiguration"@ || n == "ContentProtection"@ || n == "EssentialProperty"@ || n == "SupplementalProperty"@ || n == "InbandEventStream"@ || n == "Switching"@
    }

    proof fn lemma_read_well_formed(e: XmlElement, v: RepresentationBase) {
        lemma_tags_read(e, "profiles"@, v.profiles@);
        lemma_tags_read(e, "segmentProfiles"@, v.segment_profiles@);
        lemma_tags_read(e, "codecs"@, v.codecs@);
        lemma_all_read_well_formed::<Descriptor>(children_named(e, "FramePacking"@), v.frame_packing@);
        lemma_all_read_well_formed::<Descriptor>(children_named(e, "AudioChannelConfiguration"@), v.audio_channel_configuration@);
        lemma_all_read_well_formed::<ContentProtection>(children_named(e, "ContentProtection"@), v.content_protection@);
        lemma_all_read_well_formed::<Descriptor>(children_named(e, "EssentialProperty"@), v.essential_property@);
        lemma_all_read_well_formed::<Descriptor>(children_named(e, "SupplementalProperty"@), v.supplemental_property@);
        lemma_all_read_well_formed::<EventStream>(children_named(e, "InbandEventStream"@), v.inband_event_stream@);
        lemma_all_read_well_formed::<Switching>(children_named(e, "Switching"@), v.switching@);
    }

    #[verifier::rlimit(40)]
    fn to_element(&self, name: &str) -> (r: XmlElement) {
        proof {
            reveal_strlit("profiles");
            reveal_strlit("width");
            reveal_strlit("height");
            reveal_strlit("sar");
            reveal_strlit("frameRate");
            reveal_strlit("audioSamplingRate");
            reveal_strlit("mimeType");
            reveal_strlit("segmentProfiles");
            reveal_strlit("codecs");
            reveal_strlit("maximumSAPPeriod");
            reveal_strlit("startWithSAP");
            reveal_strlit("maxPlayoutRate");
            reveal_strlit("codingDependency");
            reveal_strlit("scanType");
            reveal_strlit("FramePacking");
            reveal_strlit("AudioChannelConfiguration");
            reveal_strlit("ContentProtection");
            reveal_strlit("EssentialProperty");
            reveal_strlit("SupplementalProperty");
            reveal_strlit("InbandEventStream");
            reveal_strlit("Switching");
            assert("profiles"@.len() == 8);
            assert("width"@.len() == 5);
            assert("height"@.len() == 6);
            assert("sar"@.len() == 3);
            assert("frameRate"@.len() == 9);
            assert("audioSamplingRate"@.len() == 17);
            assert("mimeType"@.len() == 8);
            assert("segmentProfiles"@.len() == 15);
            assert("codecs"@.len() == 6);
            assert("maximumSAPPeriod"@.len() == 16);
            assert("startWithSAP"@.len() == 12);
            assert("maxPlayoutRate"@.len() == 14);
            assert("codingDependency"@.len() == 16);
            assert("scanType"@.len() == 8);
            assert("FramePacking"@.len() == 12);
            assert("AudioChannelConfiguration"@.len() == 25);
            assert("ContentProtection"@.len() == 17);
            assert("EssentialProperty"@.len() == 17);
            assert("SupplementalProperty"@.len() == 20);
            assert("InbandEventStream"@.len() == 17);
            assert("Switching"@.len() == 9);
            assert("profiles"@[0] == 'p');
            assert("height"@[0] == 'h');
            assert("frameRate"@[0] == 'f');
            assert("audioSamplingRate"@[0] == 'a');
            assert("mimeType"@[0] == 'm');
            assert("codecs"@[0] == 'c');
            assert("maximumSAPPeriod"@[0] == 'm');
            assert("startWithSAP"@[0] == 's');
            assert("codingDependency"@[0] == 'c');
            assert("scanType"@[0] == 's');
            assert("FramePacking"@[0] == 'F');
            assert("ContentProtection"@[0] == 'C');
            assert("EssentialProperty"@[0] == 'E');
            assert("InbandEventStream"@[0] == 'I');
            assert("Switching"@[0] == 'S');
        }
        let mut e = XmlElement::new(name);
        put_tags(&mut e, "profiles", &self.profiles);
        put_u64(&mut e, "width", self.width);
        put_u64(&mut e, "height", self.height);
        put_text(&mut e, "sar", &self.sar);
        put_text(&mut e, "frameRate", &self.frame_rate);
        put_text(&mut e, "audioSamplingRate", &self.audio_sampling_rate);
        put_text(&mut e, "mimeType", &self.mime_type);
        put_tags(&mut e, "segmentProfiles", &self.segment_profiles);
        put_tags(&mut e, "codecs", &self.codecs);
        put_text(&mut e, "maximumSAPPeriod", &self.maximum_sap_period);
        put_sap(&mut e, "startWithSAP", self.start_with_sap);
        put_text(&mut e, "maxPlayoutRate", &self.max_playout_rate);
        put_bool(&mut e, "codingDependency", self.coding_dependency);
        put_scan(&mut e, self.scan_type);
        put_children(&mut e, "FramePacking", &self.frame_packing);
        put_children(&mut e, "AudioChannelConfiguration", &self.audio_channel_configuration);
        put_children(&mut e, "ContentProtection", &self.content_protection);
        put_children(&mut e, "EssentialProperty", &self.essential_property);
        put_children(&mut e, "SupplementalProperty", &self.supplemental_property);
        put_children(&mut e, "InbandEventStream", &self.inband_event_stream);
        put_children(&mut e, "Switching", &self.switching);
        e
    }
}

impl ToElement for SubRepresentation {
    open spec fn well_formed(&self) -> bool {
        self.base.well_formed() && words_well_formed(self.content_component@)
    }

    open spec fn writes_attr(n: Seq<char>) -> bool {
        RepresentationBase::writes_attr(n) || n == "level"@ || n == "dependencyLevel"@ || n == "bandwidth"@ || n == "contentComponent"@
    }

    open spec fn writes_child(n: Seq<char>) -> bool {
        RepresentationBase::writes_child(n)
    }

    proof fn lemma_read_well_formed(e: XmlElement, v: SubRepresentation) {
        RepresentationBase::lemma_read_well_formed(e, v.base);
        lemma_words_read(e, "contentComponent"@, v.content_component@);
    }

    #[verifier::rlimit(40)]
    fn to_element(&self, name: &str) -> (r: XmlElement) {
        proof {
            reveal_strlit("profiles");
            reveal_strlit("width");
            reveal_strlit("height");
            reveal_strlit("sar");
            reveal_strlit("frameRate");
            reveal_strlit("audioSamplingRate");
            reveal_strlit("mimeType");
            reveal_strlit("segmentProfiles");
            reveal_strlit("codecs");
            reveal_strlit("maximumSAPPeriod");
            reveal_strlit("startWithSAP");
            reveal_strlit("maxPlayoutRate");
            reveal_strlit("codingDependency");
            reveal_strlit("scanType");
            reveal_strlit("FramePacking");
            reveal_strlit("AudioChannelConfiguration");
            reveal_strlit("ContentProtection");
            reveal_strlit("EssentialProperty");
            reveal_strlit("SupplementalProperty");
            reveal_strlit("InbandEventStream");
            reveal_strlit("Switching");
            reveal_strlit("level");
            reveal_strlit("dependencyLevel");
            reveal_strlit("bandwidth");
            reveal_strlit("contentComponent");
            assert("profiles"@.len() == 8);
            assert("width"@.len() == 5);
            assert("height"@.len() == 6);
            assert("sar"@.len() == 3);
            assert("frameRate"@.len() == 9);
            assert("audioSamplingRate"@.len() == 17);
            assert("mimeType"@.len() == 8);
            assert("segmentProfiles"@.len() == 15);
            assert("codecs"@.len() == 6);
            assert("maximumSAPPeriod"@.len() == 16);
            assert("startWithSAP"@.len() == 12);
            assert("maxPlayoutRate"@.len() == 14);
            assert("codingDependency"@.len() == 16);
            assert("scanType"@.len() == 8);
            assert("FramePacking"@.len() == 12);
            assert("AudioChannelConfiguration"@.len() == 25);
            assert("ContentProtection"@.len() == 17);
            assert("EssentialProperty"@.len() == 17);
            assert("SupplementalProperty"@.len() == 20);
            assert("InbandEventStream"@.len() == 17);
            assert("Switching"@.len() == 9);
            assert("level"@.len() == 5);
            assert("dependencyLevel"@.len() == 15);
            assert("bandwidth"@.len() == 9);
            assert("contentComponent"@.len() == 16);
            assert("profiles"@[0] == 'p');
            assert("width"@[0] == 'w');
            assert("height"@[0] == 'h');
            assert("frameRate"@[0] == 'f');
            assert("audioSamplingRate"@[0] == 'a');
            assert("mimeType"@[0] == 'm');
            assert("segmentProfiles"@[0] == 's');
            assert("codecs"@[0] == 'c');
            assert("maximumSAPPeriod"@[0] == 'm');
            assert("startWithSAP"@[0] == 's');
            assert("codingDependency"@[0] == 'c');
            assert("codingDependency"@[2] == 'd');
            assert("scanType"@[0] == 's');
            assert("FramePacking"@[0] == 'F');
            assert("ContentProtection"@[0] == 'C');
            assert("EssentialProperty"@[0] == 'E');
            assert("InbandEventStream"@[0] == 'I');
            assert("Switching"@[0] == 'S');
            assert("level"@[0] == 'l');
            assert("dependencyLevel"@[0] == 'd');
            assert("bandwidth"@[0] == 'b');
            assert("contentComponent"@[0] == 'c');
            assert("contentComponent"@[2] == 'n');
        }
        let mut e = self.base.to_element(name);
        put_u64(&mut e, "level", self.level);
        put_u64_list(&mut e, "dependencyLevel", &self.dependency_level);
        put_u64(&mut e, "bandwidth", self.bandwidth);
        put_words(&mut e, "contentComponent", &self.content_component);
        e
    }
}

impl ToElement for Representation {
    open spec fn well_formed(&self) -> bool {
        &&& self.base.well_formed()
        &&& words_well_formed(self.dependency_id@)
        &&& words_well_formed(self.media_stream_structure_id@)
        &&& all_well_formed(self.sub_representations@)
        &&& all_well_formed(self.base_urls@)
        &&& option_well_formed(self.segment_base)
        &&& option_well_formed(self.segment_list)
        &&& option_well_formed(self.segment_template)
    }

    open spec fn writes_attr(n: Seq<char>) -> bool {
        RepresentationBase::writes_attr(n) || n == "id"@ || n == "bandwidth"@ || n == "qualityRanking"@ || n == "dependencyId"@ || n == "mediaStreamStructureId"@
    }

    open spec fn writes_child(n: Seq<char>) -> bool {
        RepresentationBase::writes_child(n) || n == "SubRepresentation"@ || n == "BaseURL"@ || n == "SegmentBase"@ || n == "SegmentList"@ || n == "SegmentTemplate"@
    }

    proof fn lemma_read_well_formed(e: XmlElement, v: Representation) {
        RepresentationBase::lemma_read_well_formed(e, v.base);
        lemma_words_read(e, "dependencyId"@, v.dependency_id@);
        lemma_words_read(e, "mediaStreamStructureId"@, v.media_stream_structure_id@);
        lemma_all_read_well_formed::<SubRepresentation>(children_named(e, "SubRepresentation"@), v.sub_representations@);
        lemma_all_read_well_formed::<BaseURL>(children_named(e, "BaseURL"@), v.base_urls@);
        lemma_first_read_well_formed::<SegmentBase>(children_named(e, "SegmentBase"@), v.segment_base);
        lemma_first_read_well_formed::<SegmentList>(children_named(e, "SegmentList"@), v.segment_list);
        lemma_first_read_well_formed::<SegmentTemplate>(children_named(e, "SegmentTemplate"@), v.segment_template);
    }

    #[verifier::rlimit(60)]
    fn to_element(&self, name: &str) -> (r: XmlElement) {
        proof {
            reveal_strlit("profiles");
            reveal_strlit("width");
            reveal_strlit("height");
            reveal_strlit("sar");
            reveal_strlit("frameRate");
            reveal_strlit("audioSamplingRate");
            reveal_strlit("mimeType");
            reveal_strlit("segmentProfiles");
            reveal_strlit("codecs");
            reveal_strlit("maximumSAPPeriod");
            reveal_strlit("startWithSAP");
            reveal_strlit("maxPlayoutRate");
            reveal_strlit("codingDependency");
            reveal_strlit("scanType");
            reveal_strlit("FramePacking");
            reveal_strlit("AudioChannelConfiguration");
            reveal_strlit("ContentProtection");
            reveal_strlit("EssentialProperty");
            reveal_strlit("SupplementalProperty");
            reveal_strlit("InbandEventStream");
            reveal_strlit("Switching");
            reveal_strlit("id");
            reveal_strlit("bandwidth");
            reveal_strlit("qualityRanking");
            reveal_strlit("dependencyId");
            reveal_strlit("mediaStreamStructureId");
            reveal_strlit("SubRepresentation");
            reveal_strlit("BaseURL");
            reveal_strlit("SegmentBase");
            reveal_strlit("SegmentList");
            reveal_strlit("SegmentTemplate");
            assert("profiles"@.len() == 8);
            assert("width"@.len() == 5);
            assert("height"@.len() == 6);
            assert("sar"@.len() == 3);
            assert("frameRate"@.len() == 9);
            assert("audioSamplingRate"@.len() == 17);
            assert("mimeType"@.len() == 8);
            assert("segmentProfiles"@.len() == 15);
            assert("codecs"@.len() == 6);
            assert("maximumSAPPeriod"@.len() == 16);
            assert("startWithSAP"@.len() == 12);
            assert("maxPlayoutRate"@.len() == 14);
            assert("codingDependency"@.len() == 16);
            assert("scanType"@.len() == 8);
            assert("FramePacking"@.len() == 12);
            assert("AudioChannelConfiguration"@.len() == 25);
            assert("ContentProtection"@.len() == 17);
            assert("EssentialProperty"@.len() == 17);
            assert("SupplementalProperty"@.len() == 20);
            assert("InbandEventStream"@.len() == 17);
            assert("Switching"@.len() == 9);
            assert("id"@.len() == 2);
            assert("bandwidth"@.len() == 9);
            assert("qualityRanking"@.len() == 14);
            assert("dependencyId"@.len() == 12);
            assert("mediaStreamStructureId"@.len() == 22);
            assert("SubRepresentation"@.len() == 17);
            assert("BaseURL"@.len() == 7);
            assert("SegmentBase"@.len() == 11);
            assert("SegmentList"@.len() == 11);
            assert("SegmentTemplate"@.len() == 15);
            assert("profiles"@[0] == 'p');
            assert("height"@[0] == 'h');
            assert("frameRate"@[0] == 'f');
            assert("audioSamplingRate"@[0] == 'a');
            assert("mimeType"@[0] == 'm');
            assert("segmentProfiles"@[0] == 's');
            assert("codecs"@[0] == 'c');
            assert("maximumSAPPeriod"@[0] == 'm');
            assert("startWithSAP"@[0] == 's');
            assert("maxPlayoutRate"@[0] == 'm');
            assert("codingDependency"@[0] == 'c');
            assert("scanType"@[0] == 's');
            assert("FramePacking"@[0] == 'F');
            assert("ContentProtection"@[0] == 'C');
            assert("EssentialProperty"@[0] == 'E');
            assert("InbandEventStream"@[0] == 'I');
            assert("Switching"@[0] == 'S');
            assert("bandwidth"@[0] == 'b');
            assert("qualityRanking"@[0] == 'q');
            assert("dependencyId"@[0] == 'd');
            assert("SubRepresentation"@[0] == 'S');
            assert("SegmentBase"@[7] == 'B');
            assert("SegmentList"@[7] == 'L');
            assert("SegmentTemplate"@[0] == 'S');
        }
        let mut e = self.base.to_element(name);
        put_required_text(&mut e, "id", &self.id);
        put_u64(&mut e, "bandwidth", self.bandwidth);
        put_u64(&mut e, "qualityRanking", self.quality_ranking);
        put_words(&mut e, "dependencyId", &self.dependency_id);
        put_words(&mut e, "mediaStreamStructureId", &self.media_stream_structure_id);
        put_children(&mut e, "SubRepresentation", &self.sub_representations);
        put_children(&mut e, "BaseURL", &self.base_urls);
        put_optional_child(&mut e, "SegmentBase", &self.segment_base);
        put_optional_child(&mut e, "SegmentList", &self.segment_list);
        put_optional_child(&mut e, "SegmentTemplate", &self.segment_template);
        e
    }
}

impl ToElement for AdaptationSet {
    open spec fn well_formed(&self) -> bool {
        &&& self.base.well_formed()
        &&& self.subsegment_starts_with_sap <= 6
        &&& all_well_formed(self.accessibilities@)
        &&& all_well_formed(self.roles@)
        &&& all_well_formed(self.ratings@)
        &&& all_well_formed(self.viewpoints@)
        &&& all_well_formed(self.content_components@)
        &&& all_well_formed(self.representations@)
        &&& all_well_formed(self.base_urls@)
        &&& option_well_formed(self.segment_base)
        &&& option_well_formed(self.segment_list)
        &&& option_well_formed(self.segment_template)
    }

    open spec fn writes_attr(n: Seq<char>) -> bool {
        RepresentationBase::writes_attr(n) || n == "xlink:href"@ || n == "xlink:actuate"@ || n == "id"@ || n == "group"@ || n == "lang"@ || n == "contentType"@ || n == "par"@ || n == "maxBandwidth"@ || n == "minWidth"@ || n == "maxWidth"@ || n == "minHeight"@ || n == "maxHeight"@ || n == "minFrameRate"@ || n == "maxFrameRate"@ || n == "segmentAlignment"@ || n == "subsegmentAlignment"@ || n == "subsegmentStartsWithSAP"@ || n == "bitstreamSwitching"@
    }

    open spec fn writes_child(n: Seq<char>) -> bool {
        RepresentationBase::writes_child(n) || n == "Accessibility"@ || n == "Role"@ || n == "Rating"@ || n == "Viewpoint"@ || n == "ContentComponent"@ || n == "Representation"@ || n == "BaseURL"@ || n == "SegmentBase"@ || n == "SegmentList"@ || n == "SegmentTemplate"@
    }

    proof fn lemma_read_well_formed(e: XmlElement, v: AdaptationSet) {
        RepresentationBase::lemma_read_well_formed(e, v.base);
        lemma_all_read_well_formed::<Descriptor>(children_named(e, "Accessibility"@), v.accessibilities@);
        lemma_all_read_well_formed::<Descriptor>(children_named(e, "Role"@), v.roles@);
        lemma_all_read_well_formed::<Descriptor>(children_named(e, "Rating"@), v.ratings@);
        lemma_all_read_well_formed::<Descriptor>(children_named(e, "Viewpoint"@), v.viewpoints@);
        lemma_all_read_well_formed::<ContentComponent>(children_named(e, "ContentComponent"@), v.content_components@);
        lemma_all_read_well_formed::<Representation>(children_named(e, "Representation"@), v.representations@);
        lemma_all_read_well_formed::<BaseURL>(children_named(e, "BaseURL"@), v.base_urls@);
        lemma_first_read_well_formed::<SegmentBase>(children_named(e, "SegmentBase"@), v.segment_base);
        lemma_first_read_well_formed::<SegmentList>(children_named(e, "SegmentList"@), v.segment_list);
        lemma_first_read_well_formed::<SegmentTemplate>(children_named(e, "SegmentTemplate"@), v.segment_template);
    }

    #[verifier::rlimit(100)]
    fn to_element(&self, name: &str) -> (r: XmlElement) {
        proof {
            reveal_strlit("profiles");
            reveal_strlit("width");
            reveal_strlit("height");
            reveal_strlit("sar");
            reveal_strlit("frameRate");
            reveal_strlit("audioSamplingRate");
            reveal_strlit("mimeType");
            reveal_strlit("segmentProfiles");
            reveal_strlit("codecs");
            reveal_strlit("maximumSAPPeriod");
            reveal_strlit("startWithSAP");
            reveal_strlit("maxPlayoutRate");
            reveal_strlit("codingDependency");
            reveal_strlit("scanType");
            reveal_strlit("FramePacking");
            reveal_strlit("AudioChannelConfiguration");
            reveal_strlit("ContentProtection");
            reveal_strlit("EssentialProperty");
            reveal_strlit("SupplementalProperty");
            reveal_strlit("InbandEventStream");
            reveal_strlit("Switching");
            reveal_strlit("xlink:href");
            reveal_strlit("xlink:actuate");
            reveal_strlit("id");
            reveal_strlit("group");
            reveal_strlit("lang");
            reveal_strlit("contentType");
            reveal_strlit("par");
            reveal_strlit("maxBandwidth");
            reveal_strlit("minWidth");
            reveal_strlit("maxWidth");
            reveal_strlit("minHeight");
            reveal_strlit("maxHeight");
            reveal_strlit("minFrameRate");
            reveal_strlit("maxFrameRate");
            reveal_strlit("segmentAlignment");
            reveal_strlit("subsegmentAlignment");
            reveal_strlit("subsegmentStartsWithSAP");
            reveal_strlit("bitstreamSwitching");
            reveal_strlit("Accessibility");
            reveal_strlit("Role");
            reveal_strlit("Rating");
            reveal_strlit("Viewpoint");
            reveal_strlit("ContentComponent");
            reveal_strlit("Representation");
            reveal_strlit("BaseURL");
            reveal_strlit("SegmentBase");
            reveal_strlit("SegmentList");
            reveal_strlit("SegmentTemplate");
            assert("profiles"@.len() == 8);
            assert("width"@.len() == 5);
            assert("height"@.len() == 6);
            assert("sar"@.len() == 3);
            assert("frameRate"@.len() == 9);
            assert("audioSamplingRate"@.len() == 17);
            assert("mimeType"@.len() == 8);
            assert("segmentProfiles"@.len() == 15);
            assert("codecs"@.len() == 6);
            assert("maximumSAPPeriod"@.len() == 16);
            assert("startWithSAP"@.len() == 12);
            assert("maxPlayoutRate"@.len() == 14);
            assert("codingDependency"@.len() == 16);
            assert("scanType"@.len() == 8);
            assert("FramePacking"@.len() == 12);
            assert("AudioChannelConfiguration"@.len() == 25);
            assert("ContentProtection"@.len() == 17);
            assert("EssentialProperty"@.len() == 17);
            assert("SupplementalProperty"@.len() == 20);
            assert("InbandEventStream"@.len() == 17);
            assert("Switching"@.len() == 9);
            assert("xlink:href"@.len() == 10);
            assert("xlink:actuate"@.len() == 13);
            assert("id"@.len() == 2);
            assert("group"@.len() == 5);
            assert("lang"@.len() == 4);
            assert("contentType"@.len() == 11);
            assert("par"@.len() == 3);
            assert("maxBandwidth"@.len() == 12);
            assert("minWidth"@.len() == 8);
            assert("maxWidth"@.len() == 8);
            assert("minHeight"@.len() == 9);
            assert("maxHeight"@.len() == 9);
            assert("minFrameRate"@.len() == 12);
            assert("maxFrameRate"@.len() == 12);
            assert("segmentAlignment"@.len() == 16);
            assert("subsegmentAlignment"@.len() == 19);
            assert("subsegmentStartsWithSAP"@.len() == 23);
            assert("bitstreamSwitching"@.len() == 18);
            assert("Accessibility"@.len() == 13);
            assert("Role"@.len() == 4);
            assert("Rating"@.len() == 6);
            assert("Viewpoint"@.len() == 9);
            assert("ContentComponent"@.len() == 16);
            assert("Representation"@.len() == 14);
            assert("BaseURL"@.len() == 7);
            assert("SegmentBase"@.len() == 11);
            assert("SegmentList"@.len() == 11);
            assert("SegmentTemplate"@.len() == 15);
            assert("profiles"@[0] == 'p');
            assert("width"@[0] == 'w');
            assert("height"@[0] == 'h');
            assert("sar"@[0] == 's');
            assert("frameRate"@[0] == 'f');
            assert("audioSamplingRate"@[0] == 'a');
            assert("mimeType"@[0] == 'm');
            assert("mimeType"@[1] == 'i');
            assert("mimeType"@[2] == 'm');
            assert("segmentProfiles"@[0] == 's');
            assert("codecs"@[0] == 'c');
            assert("maximumSAPPeriod"@[0] == 'm');
            assert("startWithSAP"@[0] == 's');
            assert("maxPlayoutRate"@[0] == 'm');
            assert("codingDependency"@[0] == 'c');
            assert("scanType"@[0] == 's');
            assert("FramePacking"@[0] == 'F');
            assert("ContentProtection"@[0] == 'C');
            assert("EssentialProperty"@[0] == 'E');
            assert("InbandEventStream"@[0] == 'I');
            assert("Switching"@[0] == 'S');
            assert("xlink:actuate"@[0] == 'x');
            assert("group"@[0] == 'g');
            assert("lang"@[0] == 'l');
            assert("contentType"@[0] == 'c');
            assert("par"@[0] == 'p');
            assert("maxBandwidth"@[0] == 'm');
            assert("maxBandwidth"@[1] == 'a');
            assert("maxBandwidth"@[3] == 'B');
            assert("minWidth"@[0] == 'm');
            assert("minWidth"@[1] == 'i');
            assert("minWidth"@[2] == 'n');
            assert("maxWidth"@[0] == 'm');
            assert("maxWidth"@[1] == 'a');
            assert("minHeight"@[0] == 'm');
            assert("minHeight"@[1] == 'i');
            assert("maxHeight"@[0] == 'm');
            assert("maxHeight"@[1] == 'a');
            assert("minFrameRate"@[0] == 'm');
            assert("minFrameRate"@[1] == 'i');
            assert("maxFrameRate"@[0] == 'm');
            assert("maxFrameRate"@[1] == 'a');
            assert("maxFrameRate"@[3] == 'F');
            assert("segmentAlignment"@[0] == 's');
            assert("Accessibility"@[0] == 'A');
            assert("Role"@[0] == 'R');
            assert("Rating"@[0] == 'R');
            assert("Viewpoint"@[0] == 'V');
            assert("ContentComponent"@[0] == 'C');
            assert("Representation"@[0] == 'R');
            assert("SegmentBase"@[0] == 'S');
            assert("SegmentBase"@[7] == 'B');
            assert("SegmentList"@[0] == 'S');
            assert("SegmentList"@[7] == 'L');
            assert("SegmentTemplate"@[0] == 'S');
        }
        let mut e = self.base.to_element(name);
        put_text(&mut e, "xlink:href", &self.href);
        put_actuate(&mut e, self.href_actuate);
        put_text(&mut e, "id", &self.id);
        put_text(&mut e, "group", &self.group);
        put_text(&mut e, "lang", &self.lang);
        put_text(&mut e, "contentType", &self.content_type);
        put_text(&mut e, "par", &self.par);
        put_u64(&mut e, "maxBandwidth", self.max_bandwidth);
        put_u64(&mut e, "minWidth", self.min_width);
        put_u64(&mut e, "maxWidth", self.max_width);
        put_u64(&mut e, "minHeight", self.min_height);
        put_u64(&mut e, "maxHeight", self.max_height);
        put_text(&mut e, "minFrameRate", &self.min_frame_rate);
        put_text(&mut e, "maxFrameRate", &self.max_frame_rate);
        put_conditional(&mut e, "segmentAlignment", self.segment_alignment);
        put_conditional(&mut e, "subsegmentAlignment", self.subsegment_alignment);
        put_sap(&mut e, "subsegmentStartsWithSAP", self.subsegment_starts_with_sap);
        put_bool(&mut e, "bitstreamSwitching", self.bitstream_switching);
        put_children(&mut e, "Accessibility", &self.accessibilities);
        put_children(&mut e, "Role", &self.roles);
        put_children(&mut e, "Rating", &self.ratings);
        put_children(&mut e, "Viewpoint", &self.viewpoints);
        put_children(&mut e, "ContentComponent", &self.content_components);
        put_children(&mut e, "Representation", &self.representations);
        put_children(&mut e, "BaseURL", &self.base_urls);
        put_optional_child(&mut e, "SegmentBase", &self.segment_base);
        put_optional_child(&mut e, "SegmentList", &self.segment_list);
        put_optional_child(&mut e, "SegmentTemplate", &self.segment_template);
        e
    }
}

} // verus!
