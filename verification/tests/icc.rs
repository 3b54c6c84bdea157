use riv::icc::{colorants, curve_sample, profile_description, tag_offset, tone_curve, ToneCurve};

fn profile(tag_type: &[u8; 4], payload: &[u8]) -> Vec<u8> {
    let mut icc = vec![0u8; 128];
    icc.extend_from_slice(&1u32.to_be_bytes());
    icc.extend_from_slice(b"desc");
    icc.extend_from_slice(&144u32.to_be_bytes());
    icc.extend_from_slice(&(8 + payload.len() as u32).to_be_bytes());
    icc.extend_from_slice(tag_type);
    icc.extend_from_slice(&[0u8; 4]);
    icc.extend_from_slice(payload);
    icc
}

#[test]
fn reads_a_version2_text_description() {
    let name = b"Adobe RGB (1998)\0";
    let mut payload = (name.len() as u32).to_be_bytes().to_vec();
    payload.extend_from_slice(name);
    let icc = profile(b"desc", &payload);
    assert_eq!(
        profile_description(&icc).as_deref(),
        Some("Adobe RGB (1998)")
    );
}

#[test]
fn reads_a_version4_mluc_description() {
    let text: Vec<u8> = "Display P3"
        .encode_utf16()
        .flat_map(|unit| unit.to_be_bytes())
        .collect();
    let mut payload = 1u32.to_be_bytes().to_vec();
    payload.extend_from_slice(&12u32.to_be_bytes());
    payload.extend_from_slice(b"enUS");
    payload.extend_from_slice(&(text.len() as u32).to_be_bytes());
    payload.extend_from_slice(&28u32.to_be_bytes());
    payload.extend_from_slice(&text);
    let icc = profile(b"mluc", &payload);
    assert_eq!(profile_description(&icc).as_deref(), Some("Display P3"));
}

#[test]
fn garbage_profiles_yield_none() {
    assert_eq!(profile_description(&[0u8; 16]), None);
    assert_eq!(profile_description(b"not an icc profile"), None);
}

#[test]
fn a_description_that_is_not_text_yields_none() {
    let mut payload = 2u32.to_be_bytes().to_vec();
    payload.extend_from_slice(&[0xFF, 0xFE]);
    assert_eq!(profile_description(&profile(b"desc", &payload)), None);
    let mut blank = 3u32.to_be_bytes().to_vec();
    blank.extend_from_slice(b" \t\0");
    assert_eq!(profile_description(&profile(b"desc", &blank)), None);
}

fn tagged(name: &[u8; 4], tag: &[u8]) -> Vec<u8> {
    let mut icc = vec![0u8; 128];
    icc.extend_from_slice(&1u32.to_be_bytes());
    icc.extend_from_slice(name);
    icc.extend_from_slice(&144u32.to_be_bytes());
    icc.extend_from_slice(&(tag.len() as u32).to_be_bytes());
    icc.extend_from_slice(tag);
    icc
}

#[test]
fn a_gamma_curve_keeps_its_exponent() {
    let mut tag = b"curv\0\0\0\0".to_vec();
    tag.extend_from_slice(&1u32.to_be_bytes());
    tag.extend_from_slice(&563u16.to_be_bytes());
    let icc = tagged(b"rTRC", &tag);
    assert_eq!(tag_offset(&icc, (b'r', b'T', b'R', b'C')), Some(144));
    assert!(matches!(
        tone_curve(&icc, (b'r', b'T', b'R', b'C')),
        Some(ToneCurve::Gamma(563))
    ));
    assert!(tone_curve(&icc, (b'g', b'T', b'R', b'C')).is_none());
}

#[test]
fn a_sampled_curve_reads_its_entries() {
    let mut tag = b"curv\0\0\0\0".to_vec();
    tag.extend_from_slice(&2u32.to_be_bytes());
    tag.extend_from_slice(&17u16.to_be_bytes());
    tag.extend_from_slice(&65535u16.to_be_bytes());
    let icc = tagged(b"rTRC", &tag);
    assert_eq!(curve_sample(&icc, 156, 0), Some(17));
    assert_eq!(curve_sample(&icc, 156, 1), Some(65535));
    assert_eq!(curve_sample(&icc, 156, 2), None);
}

#[test]
fn colorants_need_all_three_columns() {
    let names: [&[u8; 4]; 3] = [b"rXYZ", b"gXYZ", b"bXYZ"];
    let mut icc = vec![0u8; 128];
    icc.extend_from_slice(&3u32.to_be_bytes());
    for (index, name) in names.iter().enumerate() {
        icc.extend_from_slice(*name);
        icc.extend_from_slice(&(168 + 20 * index as u32).to_be_bytes());
        icc.extend_from_slice(&20u32.to_be_bytes());
    }
    for column in 0..3i32 {
        icc.extend_from_slice(b"XYZ \0\0\0\0");
        for row in 0..3i32 {
            icc.extend_from_slice(&(column * 10 + row - 5).to_be_bytes());
        }
    }
    assert_eq!(
        colorants(&icc),
        Some(((-5, -4, -3), (5, 6, 7), (15, 16, 17)))
    );
    let length = icc.len();
    icc.truncate(length - 1);
    assert_eq!(colorants(&icc), None);
}
