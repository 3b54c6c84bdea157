use riv::gain_map::{
    find_ultra_hdr, gain_map_candidates, hdrgm_prefix, jpeg_carries_mpf, mp_entry_list,
    mpf_secondary_ranges, parse_hdrgm, property_is_named, property_values, read_metadata, usable, HdrgmNumbers,
    HdrgmProperties, MpfReader, PlaneNumbers, PlaneText, ReadCandidate, UltraHdr, XMP_IDENTIFIER,
};
use riv::image::GainMapMetadata;

const APPLICATION_1: u8 = 0xE1;
const APPLICATION_2: u8 = 0xE2;
const MPF_IDENTIFIER: &[u8] = b"MPF\0";
const MP_ENTRY_TAG: u16 = 0xB002;
const MP_ENTRY_BYTES: usize = 16;

fn xmp_packet(attributes: &str) -> String {
    format!(
        "<x:xmpmeta xmlns:x=\"adobe:ns:meta/\"><rdf:RDF \
         xmlns:rdf=\"http://www.w3.org/1999/02/22-rdf-syntax-ns#\">\
         <rdf:Description xmlns:hdrgm=\"http://ns.adobe.com/hdr-gain-map/1.0/\" \
         {attributes}/></rdf:RDF></x:xmpmeta>"
    )
}

fn jpeg_with_segments(segments: &[(u8, Vec<u8>)]) -> Vec<u8> {
    let mut jpeg = vec![0xFF, 0xD8];
    for (marker, payload) in segments {
        jpeg.extend([0xFF, *marker]);
        jpeg.extend(u16::try_from(payload.len() + 2).unwrap().to_be_bytes());
        jpeg.extend(payload);
    }
    jpeg.extend([0xFF, 0xD9]);
    jpeg
}

fn gain_map_jpeg(attributes: &str) -> Vec<u8> {
    let mut payload = XMP_IDENTIFIER.to_vec();
    payload.extend(xmp_packet(attributes).into_bytes());
    jpeg_with_segments(&[(APPLICATION_1, payload)])
}

/// Container with an MPF index whose second entry points at the appended JPEG.
fn ultra_hdr_file(gain_map: &[u8]) -> Vec<u8> {
    let mut index = MPF_IDENTIFIER.to_vec();
    index.extend(b"MM\x00\x2A");
    index.extend(8u32.to_be_bytes());
    index.extend(1u16.to_be_bytes());
    index.extend(MP_ENTRY_TAG.to_be_bytes());
    index.extend(7u16.to_be_bytes());
    index.extend(32u32.to_be_bytes());
    index.extend(26u32.to_be_bytes());
    index.extend(0u32.to_be_bytes());
    let entries_placeholder = index.len();
    index.extend([0u8; 32]);
    let mut file = jpeg_with_segments(&[(APPLICATION_2, index)]);
    let header = file
        .windows(4)
        .position(|window| window == b"MM\x00\x2A")
        .unwrap();
    let gain_map_offset = (file.len() - header) as u32;
    let payload_start = header - MPF_IDENTIFIER.len() + entries_placeholder;
    let second_entry = payload_start + MP_ENTRY_BYTES;
    file[second_entry + 4..second_entry + 8]
        .copy_from_slice(&(gain_map.len() as u32).to_be_bytes());
    file[second_entry + 8..second_entry + 12].copy_from_slice(&gain_map_offset.to_be_bytes());
    file.extend(gain_map);
    file
}

const REQUIRED: &str =
    "hdrgm:Version=\"1.0\" hdrgm:GainMapMax=\"4.709\" hdrgm:HDRCapacityMax=\"4.709\"";

fn number(text: &str) -> Option<u32> {
    text.parse::<f32>().ok().map(f32::to_bits)
}

fn planes(text: &PlaneText) -> PlaneNumbers {
    match text {
        PlaneText::One(one) => PlaneNumbers::One(number(one)),
        PlaneText::Three(red, green, blue) => {
            PlaneNumbers::Three(number(red), number(green), number(blue))
        }
    }
}

fn read(properties: &HdrgmProperties) -> Option<GainMapMetadata> {
    read_metadata(&HdrgmNumbers {
        gain_map_maximum: planes(&properties.gain_map_maximum),
        gain_map_minimum: properties.gain_map_minimum.as_ref().map(planes),
        gamma: properties.gamma.as_ref().map(planes),
        offset_sdr: properties.offset_sdr.as_ref().map(planes),
        offset_hdr: properties.offset_hdr.as_ref().map(planes),
        hdr_capacity_minimum: properties.hdr_capacity_minimum.as_deref().map(number),
        hdr_capacity_maximum: number(&properties.hdr_capacity_maximum),
        base_rendition_is_hdr: properties.base_rendition_is_hdr,
    })
}

fn parsed(xml: &str) -> Option<GainMapMetadata> {
    parse_hdrgm(xml).and_then(|properties| read(&properties))
}

fn find(file: &[u8]) -> Option<UltraHdr> {
    let candidates = gain_map_candidates(file)
        .iter()
        .map(|candidate| ReadCandidate {
            start: candidate.start,
            end: candidate.end,
            packets: candidate.packets.iter().map(read).collect(),
        })
        .collect();
    find_ultra_hdr(&candidates)
}

fn every_plane(value: f32) -> (u32, u32, u32) {
    (value.to_bits(), value.to_bits(), value.to_bits())
}

#[test]
fn a_declared_entry_count_cannot_outrun_the_file() {
    let gain_map = gain_map_jpeg(REQUIRED);
    let mut file = ultra_hdr_file(&gain_map);
    let header = file
        .windows(4)
        .position(|window| window == b"MM\x00\x2A")
        .unwrap();
    // The index claims four gigabytes of entries in a file of a few kilobytes.
    file[header + 14..header + 18].copy_from_slice(&u32::MAX.to_be_bytes());
    let reader = MpfReader {
        file: &file,
        header,
        little_endian: false,
    };
    let entries = mp_entry_list(&reader).expect("entry list");
    assert!(
        entries.count <= file.len() / MP_ENTRY_BYTES,
        "{}",
        entries.count
    );
    // The entries that are really there still parse.
    assert!(find(&file).is_some());
}

#[test]
fn finds_gain_map_and_metadata_defaults() {
    let gain_map = gain_map_jpeg(REQUIRED);
    let file = ultra_hdr_file(&gain_map);
    let found = find(&file).expect("gain map");
    assert_eq!(&file[found.start..found.end], gain_map.as_slice());
    let metadata = found.metadata;
    assert_eq!(metadata.gain_map_maximum, every_plane(4.709));
    assert_eq!(metadata.gain_map_minimum, every_plane(0.0));
    assert_eq!(metadata.gamma, every_plane(1.0));
    assert_eq!(metadata.offset_sdr, every_plane(1.0 / 64.0));
    assert_eq!(metadata.offset_hdr, every_plane(1.0 / 64.0));
    assert_eq!(metadata.hdr_capacity_minimum, 0.0f32.to_bits());
    assert_eq!(metadata.hdr_capacity_maximum, 4.709f32.to_bits());
    assert!(!metadata.base_rendition_is_hdr);
}

#[test]
fn reads_explicit_values_and_boolean() {
    let attributes = "hdrgm:Version=\"1.0\" hdrgm:GainMapMin=\"-0.5\" \
         hdrgm:GainMapMax=\"3.0\" hdrgm:Gamma=\"1.5\" hdrgm:OffsetSDR=\"0.25\" \
         hdrgm:OffsetHDR=\"0.125\" hdrgm:HDRCapacityMin=\"0.5\" \
         hdrgm:HDRCapacityMax=\"3.0\" hdrgm:BaseRenditionIsHDR=\"True\"";
    let metadata = parsed(&xmp_packet(attributes)).expect("metadata");
    assert_eq!(metadata.gain_map_minimum, every_plane(-0.5));
    assert_eq!(metadata.gamma, every_plane(1.5));
    assert_eq!(metadata.offset_sdr, every_plane(0.25));
    assert_eq!(metadata.offset_hdr, every_plane(0.125));
    assert_eq!(metadata.hdr_capacity_minimum, 0.5f32.to_bits());
    assert!(metadata.base_rendition_is_hdr);
    // The HDR-base layout parses but stays out of scope, so the find rejects it.
    assert!(!usable(&metadata));
}

#[test]
fn reads_per_plane_list_elements() {
    let xml = xmp_packet(REQUIRED).replace(
        "/></rdf:RDF>",
        "><hdrgm:GainMapMin><rdf:Seq><rdf:li>0.1</rdf:li><rdf:li>0.2</rdf:li>\
         <rdf:li>0.3</rdf:li></rdf:Seq></hdrgm:GainMapMin></rdf:Description></rdf:RDF>",
    );
    let metadata = parsed(&xml).expect("metadata");
    assert_eq!(
        metadata.gain_map_minimum,
        (0.1f32.to_bits(), 0.2f32.to_bits(), 0.3f32.to_bits())
    );
}

#[test]
fn rejects_missing_required_and_empty_capacity_span() {
    let no_version = "hdrgm:GainMapMax=\"4.709\" hdrgm:HDRCapacityMax=\"4.709\"";
    assert_eq!(parsed(&xmp_packet(no_version)), None);
    let empty_span = "hdrgm:Version=\"1.0\" hdrgm:GainMapMax=\"4.709\" \
         hdrgm:HDRCapacityMin=\"2.0\" hdrgm:HDRCapacityMax=\"2.0\"";
    let metadata = parsed(&xmp_packet(empty_span)).expect("metadata");
    assert!(!usable(&metadata));
}

#[test]
fn invalid_elements_fail_closed_instead_of_panicking() {
    // Close tags placed before the opening '>' used to reverse the slice range.
    let element = "<hdrgm:GainMapMax</hdrgm:GainMapMax bar >";
    assert_eq!(property_values(element, "hdrgm", "GainMapMax"), None);
    let list_item = "<hdrgm:GainMapMin><rdf:Seq><rdf:li</rdf:li ></rdf:Seq></hdrgm:GainMapMin>";
    assert_eq!(property_values(list_item, "hdrgm", "GainMapMin"), None);
}

#[test]
fn plain_jpeg_has_no_gain_map() {
    assert_eq!(find(&jpeg_with_segments(&[])), None);
    assert_eq!(find(b"not a jpeg"), None);
}

#[test]
fn mpf_probe_matches_the_full_parse() {
    let file = ultra_hdr_file(&gain_map_jpeg(REQUIRED));
    assert!(jpeg_carries_mpf(&file));
    assert!(!jpeg_carries_mpf(&jpeg_with_segments(&[])));
    assert!(!jpeg_carries_mpf(b"not a jpeg"));
    let other_application_2 = jpeg_with_segments(&[(APPLICATION_2, b"ICC\0data".to_vec())]);
    assert!(!jpeg_carries_mpf(&other_application_2));
}

#[test]
fn secondary_ranges_leave_the_primary_out() {
    let gain_map = gain_map_jpeg(REQUIRED);
    let file = ultra_hdr_file(&gain_map);
    assert_eq!(
        mpf_secondary_ranges(&file),
        [(file.len() - gain_map.len(), file.len())]
    );
}

#[test]
fn the_namespace_binds_the_prefix() {
    assert_eq!(
        hdrgm_prefix("<a xmlns:b='x' xmlns:gm='http://ns.adobe.com/hdr-gain-map/1.0/'/>")
            .as_deref(),
        Some("gm")
    );
    assert_eq!(hdrgm_prefix("<a xmlns:b='x'/>"), None);
}

#[test]
fn a_property_that_cannot_be_read_rejects_the_packet() {
    assert!(parse_hdrgm(&xmp_packet(REQUIRED)).is_some());
    for unreadable in ["hdrgm:Gamma=1.5", "hdrgm:BaseRenditionIsHDR=True", "hdrgm:HDRCapacityMin= "] {
        let packet = xmp_packet(&format!("{REQUIRED} {unreadable}"));
        assert!(parse_hdrgm(&packet).is_none(), "{unreadable}");
    }
    let element = "<hdrgm:GainMapMin><rdf:Seq><rdf:li</rdf:li ></rdf:Seq></hdrgm:GainMapMin>";
    assert!(property_is_named(element, "hdrgm", "GainMapMin"));
    assert!(!property_is_named(element, "hdrgm", "Gamma"));
    assert!(parse_hdrgm(&(xmp_packet(REQUIRED) + element)).is_none());
}

#[test]
fn a_value_that_is_no_number_rejects_the_packet() {
    let attributes = "hdrgm:Version=\"1.0\" hdrgm:GainMapMax=\"4.709\" \
         hdrgm:HDRCapacityMax=\"4.709\" hdrgm:Gamma=\"bright\"";
    assert!(parse_hdrgm(&xmp_packet(attributes)).is_some());
    assert_eq!(parsed(&xmp_packet(attributes)), None);
}

#[test]
fn an_infinite_parameter_is_not_acted_on() {
    let metadata = parsed(&xmp_packet(REQUIRED)).expect("metadata");
    assert!(usable(&metadata));
    assert!(!usable(&GainMapMetadata {
        offset_hdr: every_plane(f32::INFINITY),
        ..metadata
    }));
    assert!(!usable(&GainMapMetadata {
        gain_map_minimum: every_plane(5.0),
        ..metadata
    }));
    assert!(!usable(&GainMapMetadata {
        gamma: every_plane(0.0),
        ..metadata
    }));
}
