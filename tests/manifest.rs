use mpd_codec::conditional_uint::ConditionalUint;
use mpd_codec::duration_iso_8601::Duration;
use mpd_codec::element_writer::ToElement;
use mpd_codec::mpd::{display_vec_with_commat, read_manifest, write_manifest, MPDType, MPD};
use mpd_codec::period::Period;
use mpd_codec::representations::{AdaptationSet, ContentProtection, ProtectionAttribut};
use mpd_codec::segments::{BaseURL, SegmentTemplate};
use mpd_codec::utils::{Descriptor, HrefActuate, Subset, VideoScan};
use mpd_codec::xml::{FromElement, ManifestError, XmlElement};

fn element(name: &str, attrs: &[(&str, &str)]) -> XmlElement {
    let mut e = XmlElement::new(name);
    for (k, v) in attrs {
        e.push_attribute(k, v.to_string());
    }
    e
}

fn minimal_manifest() -> XmlElement {
    let mut root = element(
        "MPD",
        &[("type", "dynamic"), ("profiles", "a,b,c"), ("minimumUpdatePeriod", "PT5S")],
    );
    let mut period = element("Period", &[("id", "main")]);
    let mut adaptation = element("AdaptationSet", &[("mimeType", "video/mp4")]);
    adaptation.push_child(element("Representation", &[("id", "r0"), ("bandwidth", "500000")]));
    period.push_child(adaptation);
    root.push_child(period);
    root
}

#[test]
fn minimal_manifest_parses_and_writes_back() {
    let root = minimal_manifest();
    let mpd = read_manifest(&root).unwrap();
    assert_eq!(mpd.mpd_type, MPDType::Dynamic);
    assert_eq!(mpd.minimum_update_period, Some(Duration::milliseconds(5000)));
    assert_eq!(mpd.profiles, vec!["a".to_string(), "b".to_string(), "c".to_string()]);
    assert_eq!(mpd.periods.len(), 1);
    assert_eq!(mpd.periods[0].id, "main");
    assert_eq!(mpd.periods[0].adaptations.len(), 1);
    let set = &mpd.periods[0].adaptations[0];
    assert_eq!(set.base.mime_type, "video/mp4");
    assert_eq!(set.representations.len(), 1);
    assert_eq!(set.representations[0].id, "r0");
    assert_eq!(set.representations[0].bandwidth, 500000);

    let written = write_manifest(&mpd);
    assert_eq!(written, root);
    let again = read_manifest(&written).unwrap();
    assert_eq!(again, mpd);
}

#[test]
fn absent_fields_take_their_defaults() {
    let root = minimal_manifest();
    let mpd = MPD::from_element(&root).unwrap();
    assert_eq!(mpd.min_buffer_time, None);
    assert_eq!(mpd.availability_start_time, None);
    let period = &mpd.periods[0];
    assert_eq!(period.href_actuate, HrefActuate::OnRequest);
    assert_eq!(period.start, None);
    assert!(period.segment_template.is_none());
    assert!(!period.bitstream_switching);
    let set = &period.adaptations[0];
    assert_eq!(set.base.scan_type, VideoScan::Progressive);
    assert_eq!(set.segment_alignment, ConditionalUint::Flag(false));
    assert_eq!(set.base.width, 0);
    assert!(set.base.codecs.is_empty());
    assert_eq!(set.href, "");
}

#[test]
fn defaults_of_remote_actuation_and_scan() {
    assert_eq!(HrefActuate::default(), HrefActuate::OnRequest);
    assert_eq!(VideoScan::default(), VideoScan::Progressive);
}

#[test]
fn missing_type_is_a_schema_violation() {
    let root = element("MPD", &[("profiles", "a")]);
    match MPD::from_element(&root) {
        Err(ManifestError::SchemaViolation { field, .. }) => assert_eq!(field, "type"),
        other => panic!("unexpected {:?}", other.is_ok()),
    }
}

#[test]
fn manifest_without_period_is_refused() {
    let root = element("MPD", &[("type", "dynamic"), ("profiles", "a")]);
    assert!(matches!(
        MPD::from_element(&root),
        Err(ManifestError::SchemaViolation { .. })
    ));
}

#[test]
fn bad_duration_aborts_the_whole_read() {
    let mut root = minimal_manifest();
    root.push_attribute("minBufferTime", "5S".to_string());
    assert!(matches!(MPD::from_element(&root), Err(ManifestError::Duration(_))));
}

#[test]
fn bad_timestamp_is_refused_and_good_one_kept() {
    let mut root = minimal_manifest();
    root.push_attribute("publishTime", "2020-01-01T00:00:00Z".to_string());
    let mpd = MPD::from_element(&root).unwrap();
    assert_eq!(mpd.publish_time, Some("2020-01-01T00:00:00Z".to_string()));

    let mut bad = minimal_manifest();
    bad.push_attribute("publishTime", "yesterday".to_string());
    assert!(matches!(MPD::from_element(&bad), Err(ManifestError::TypeMismatch { .. })));
}

#[test]
fn conditional_alignment_and_sap_range() {
    let set = element(
        "AdaptationSet",
        &[("segmentAlignment", "true"), ("subsegmentAlignment", "3"), ("startWithSAP", "6")],
    );
    let parsed = AdaptationSet::from_element(&set).unwrap();
    assert_eq!(parsed.segment_alignment, ConditionalUint::Flag(true));
    assert_eq!(parsed.subsegment_alignment, ConditionalUint::Count(3));
    assert_eq!(parsed.base.start_with_sap, 6);

    let bad = element("AdaptationSet", &[("segmentAlignment", "abc")]);
    assert!(matches!(
        AdaptationSet::from_element(&bad),
        Err(ManifestError::TypeMismatch { .. })
    ));
    let out_of_range = element("AdaptationSet", &[("startWithSAP", "7")]);
    assert!(AdaptationSet::from_element(&out_of_range).is_err());
}

#[test]
fn children_keep_their_order() {
    let mut period = element("Period", &[("id", "p")]);
    for id in ["x", "y", "z"] {
        period.push_child(element("AdaptationSet", &[("id", id)]));
        period.push_child(element("Unrelated", &[]));
    }
    let parsed = Period::from_element(&period).unwrap();
    let ids: Vec<&str> = parsed.adaptations.iter().map(|a| a.id.as_str()).collect();
    assert_eq!(ids, vec!["x", "y", "z"]);
}

#[test]
fn segment_template_and_timeline() {
    let mut template = element(
        "SegmentTemplate",
        &[
            ("timescale", "90000"),
            ("media", "seg-$Number$.m4s"),
            ("initialization", "init.mp4"),
            ("startNumber", "1"),
        ],
    );
    let mut timeline = element("SegmentTimeline", &[]);
    timeline.push_child(element("S", &[("t", "0"), ("d", "180000"), ("r", "4")]));
    timeline.push_child(element("S", &[("d", "90000")]));
    template.push_child(timeline);
    let parsed = SegmentTemplate::from_element(&template).unwrap();
    assert_eq!(parsed.base.timescale, 90000);
    assert_eq!(parsed.media, "seg-$Number$.m4s");
    assert_eq!(parsed.initialization_url, "init.mp4");
    let segments = &parsed.base.segment_timeline.as_ref().unwrap().segments;
    assert_eq!(segments.len(), 2);
    assert_eq!(segments[0].start, Some(0));
    assert_eq!(segments[0].duration, 180000);
    assert_eq!(segments[0].repeat, 4);
    assert_eq!(segments[1].start, None);
    let again = SegmentTemplate::from_element(&parsed.to_element("SegmentTemplate")).unwrap();
    assert_eq!(again, parsed);

    let mut no_duration = element("SegmentTimeline", &[]);
    no_duration.push_child(element("S", &[("t", "0")]));
    let mut template2 = element("SegmentTemplate", &[]);
    template2.push_child(no_duration);
    assert!(SegmentTemplate::from_element(&template2).is_err());
}

#[test]
fn content_protection_values_in_order() {
    let mut cp = element(
        "ContentProtection",
        &[("schemeIdUri", "urn:uuid:1"), ("cenc:default_KID", "abc")],
    );
    let mut pssh = XmlElement::new("cenc:pssh");
    pssh.text = "AAAA".to_string();
    let mut laurl = XmlElement::new("dashif:laurl");
    laurl.text = "https://license".to_string();
    cp.push_child(pssh);
    cp.push_child(XmlElement::new("other:thing"));
    cp.push_child(laurl);
    let parsed = ContentProtection::from_element(&cp).unwrap();
    assert_eq!(parsed.default_kid, Some("abc".to_string()));
    assert_eq!(
        parsed.protection_key,
        vec![
            ProtectionAttribut::CencPssh("AAAA".to_string()),
            ProtectionAttribut::DashifLaurl("https://license".to_string())
        ]
    );
    let again = ContentProtection::from_element(&parsed.to_element("ContentProtection")).unwrap();
    assert_eq!(again, parsed);
}

#[test]
fn descriptor_needs_a_scheme() {
    assert!(Descriptor::from_element(&element("Role", &[("value", "main")])).is_err());
    let d = Descriptor::from_element(&element("Role", &[("schemeIdUri", "urn:x"), ("value", "main")]))
        .unwrap();
    assert_eq!(d.value, "main");
    assert_eq!(d.id, "");
}

#[test]
fn subset_lists_numbers() {
    let s = Subset::from_element(&element("Subset", &[("contains", "1 2  3")])).unwrap();
    assert_eq!(s.contains, vec![1, 2, 3]);
    assert!(Subset::from_element(&element("Subset", &[("contains", "1 x")])).is_err());
    assert!(Subset::from_element(&element("Subset", &[])).is_err());
    let again = Subset::from_element(&s.to_element("Subset")).unwrap();
    assert_eq!(again, s);
}

#[test]
fn actuate_words() {
    let mut period = element("Period", &[("xlink:actuate", "onLoad")]);
    assert_eq!(Period::from_element(&period).unwrap().href_actuate, HrefActuate::OnLoad);
    period = element("Period", &[("xlink:actuate", "none")]);
    assert_eq!(Period::from_element(&period).unwrap().href_actuate, HrefActuate::Never);
    period = element("Period", &[("xlink:actuate", "later")]);
    assert!(Period::from_element(&period).is_err());
}

#[test]
fn summaries() {
    assert_eq!(
        display_vec_with_commat(&vec!["a".to_string(), "b".to_string()]),
        "a, b"
    );
    assert_eq!(display_vec_with_commat(&Vec::new()), "");
    let mut root = minimal_manifest();
    let mut base = XmlElement::new("BaseURL");
    base.text = "http://cdn/".to_string();
    base.push_attribute("serviceLocation", "eu".to_string());
    root.push_child(base);
    let mut loc = XmlElement::new("Location");
    loc.text = "http://a/m.mpd".to_string();
    root.push_child(loc);
    let mpd = MPD::from_element(&root).unwrap();
    assert_eq!(mpd.display(), "locations: http://a/m.mpdbase urls: http://cdn/ (eu)");
    assert_eq!(BaseURL::from_element(&XmlElement::new("BaseURL")).unwrap().url, "");

    let period = element("Period", &[("id", "intro"), ("start", "PT1M"), ("duration", "PT30S")]);
    let parsed = Period::from_element(&period).unwrap();
    assert_eq!(parsed.display(), "Period ID : intro\nStart : PT1MDuration : PT30S");
}

#[test]
fn written_values_use_canonical_text() {
    let mut root = minimal_manifest();
    root.push_attribute("minBufferTime", "PT0.50S".to_string());
    root.push_attribute("maxSegmentDuration", "P1DT24H".to_string());
    let mpd = read_manifest(&root).unwrap();
    let written = write_manifest(&mpd);
    let value = |name: &str| {
        written
            .attributes
            .iter()
            .find(|a| a.name == name)
            .map(|a| a.value.clone())
    };
    assert_eq!(value("minBufferTime"), Some("PT0.5S".to_string()));
    assert_eq!(value("maxSegmentDuration"), Some("P2D".to_string()));
    assert_eq!(value("minimumUpdatePeriod"), Some("PT5S".to_string()));
    assert_eq!(read_manifest(&written).unwrap(), mpd);
}

#[test]
fn tree_builder_nests_elements() {
    let mut builder = mpd_codec::xml::TreeBuilder::new();
    builder.start(XmlElement::new("MPD"));
    builder.start(XmlElement::new("BaseURL"));
    builder.text("http://cdn/");
    builder.text("video/");
    builder.end();
    builder.start(XmlElement::new("Period"));
    builder.end();
    builder.end();
    let root = builder.finish().unwrap();
    assert_eq!(root.name, "MPD");
    assert_eq!(root.children.len(), 2);
    assert_eq!(root.children[0].text, "http://cdn/video/");
    assert_eq!(root.children[1].name, "Period");
}

#[test]
fn tree_builder_refuses_unbalanced_documents() {
    let mut open = mpd_codec::xml::TreeBuilder::new();
    open.start(XmlElement::new("MPD"));
    assert!(open.finish().is_none());

    let mut two_roots = mpd_codec::xml::TreeBuilder::new();
    two_roots.start(XmlElement::new("MPD"));
    two_roots.end();
    two_roots.start(XmlElement::new("MPD"));
    two_roots.end();
    assert!(two_roots.finish().is_none());

    let mut stray_end = mpd_codec::xml::TreeBuilder::new();
    stray_end.end();
    assert!(stray_end.finish().is_none());
}
