use riv::archive::{is_archive_extension, path_is_archive, supported_extensions, url_is_archive};
use riv::path::FilePath;
use riv::registry::{
    descriptor_for_bytes, descriptor_for_content, descriptor_for_extension, descriptor_for_magic,
    descriptor_for_path, format_groups, format_name_for_extension, header_decides,
    is_two_stage_preview, refine_by_content, two_stage_preview, webp_has_animation_flag,
    weight_depends_on_display, Adapter, FrameSemantics, ImageFormat, PreviewStage,
};

#[test]
fn archive_extensions_cover_the_confirmed_scope() {
    for extension in ["zip", "7z", "rar", "tar", "cbz", "cbr", "cb7", "cbt"] {
        assert!(is_archive_extension(extension), "{extension}");
    }
    assert!(!is_archive_extension("png"));
    assert!(!is_archive_extension("gz")); // compressed tar is out of scope (Q1)
}

#[test]
fn archives_are_told_by_their_name() {
    assert!(path_is_archive(&FilePath::from_text("C:\\books\\One.CBZ")));
    assert!(!path_is_archive(&FilePath::from_text("C:\\books\\zip")));
    assert!(url_is_archive("https://a.com/b.zip?x=1"));
    assert!(!url_is_archive("https://a.com/b.png"));
    assert_eq!(supported_extensions().len(), 8);
}

#[test]
fn two_stage_detection_is_extension_only() {
    assert!(is_two_stage_preview(&FilePath::from_text("photo.dng")));
    assert!(is_two_stage_preview(&FilePath::from_text("PHOTO.DNG")));
    assert!(is_two_stage_preview(&FilePath::from_text("capture.jxr")));
    assert!(!is_two_stage_preview(&FilePath::from_text("photo.png")));
    assert!(!is_two_stage_preview(&FilePath::from_text("photo")));
}

#[test]
fn the_two_stages_differ() {
    assert_eq!(
        two_stage_preview(&FilePath::from_text("photo.dng")),
        Some(PreviewStage::RawEmbedded)
    );
    assert_eq!(
        two_stage_preview(&FilePath::from_text("capture.jxr")),
        Some(PreviewStage::Subresolution)
    );
    assert_eq!(two_stage_preview(&FilePath::from_text("photo.png")), None);
}

#[test]
fn xml_probes_as_svg_only_with_an_svg_tag() {
    let svg_document = b"<?xml version=\"1.0\"?>\n<svg xmlns=\"http://www.w3.org/2000/svg\"/>";
    assert_eq!(
        descriptor_for_magic(svg_document).map(|d| d.name),
        Some("SVG")
    );
    let plain_xml = b"<?xml version=\"1.0\"?>\n<note><to>reader</to></note>";
    assert!(descriptor_for_magic(plain_xml).is_none());
    let bare_svg = b"<svg xmlns=\"http://www.w3.org/2000/svg\"/>";
    assert_eq!(descriptor_for_magic(bare_svg).map(|d| d.name), Some("SVG"));
}

/// PNG signature + IHDR(13 bytes) + an acTL chunk header.
fn animated_png_header() -> Vec<u8> {
    let mut header = b"\x89PNG\r\n\x1a\n".to_vec();
    header.extend_from_slice(&13u32.to_be_bytes());
    header.extend_from_slice(b"IHDR");
    header.extend_from_slice(&[0u8; 13 + 4]); // data + CRC
    header.extend_from_slice(&8u32.to_be_bytes());
    header.extend_from_slice(b"acTL");
    header
}

#[test]
fn magic_wins_without_an_extension_hint() {
    let descriptor = descriptor_for_bytes(b"\x89PNG\r\n\x1a\nrest", None).expect("descriptor");
    assert_eq!(descriptor.name, "PNG");
}

#[test]
fn extension_hint_selects_the_descriptor() {
    let descriptor = descriptor_for_bytes(b"\xFF\xD8\xFFdata", Some("JPG")).expect("descriptor");
    assert_eq!(descriptor.name, "JPEG");
}

#[test]
fn content_refinement_promotes_apng() {
    let descriptor =
        descriptor_for_bytes(&animated_png_header(), Some("png")).expect("descriptor");
    assert_eq!(descriptor.name, "APNG");
}

#[test]
fn unknown_bytes_yield_none() {
    assert!(descriptor_for_bytes(b"plain text", None).is_none());
    assert!(descriptor_for_bytes(&[], None).is_none());
}

#[test]
fn reserved_bytes_tell_a_bitmap_from_text() {
    assert!(descriptor_for_bytes(b"BMW service manual, page 6", None).is_none());
    let mut bitmap = b"BM".to_vec();
    bitmap.extend_from_slice(&64u32.to_le_bytes());
    bitmap.extend_from_slice(&[0u8; 4]); // the two reserved fields
    bitmap.extend_from_slice(&54u32.to_le_bytes());
    let descriptor = descriptor_for_bytes(&bitmap, None).expect("descriptor");
    assert_eq!(descriptor.name, "BMP");
}

/// Box size, "ftyp", the major brand, the minor version, the compatible brands.
fn ftyp_header(major_brand: &[u8; 4], compatible_brands: &[&[u8; 4]]) -> Vec<u8> {
    let box_size = 16 + 4 * compatible_brands.len();
    let mut header = (box_size as u32).to_be_bytes().to_vec();
    header.extend_from_slice(b"ftyp");
    header.extend_from_slice(major_brand);
    header.extend_from_slice(&[0u8; 4]);
    for brand in compatible_brands {
        header.extend_from_slice(*brand);
    }
    header
}

#[test]
fn content_refinement_promotes_avif() {
    let header = ftyp_header(b"mif1", &[b"mif1", b"avif"]);
    let descriptor = descriptor_for_bytes(&header, None).expect("descriptor");
    assert_eq!(descriptor.name, "AVIF");
}

#[test]
fn a_heif_without_an_avif_brand_stays_heif() {
    let header = ftyp_header(b"heic", &[b"heic"]);
    let descriptor = descriptor_for_bytes(&header, None).expect("descriptor");
    assert_eq!(descriptor.name, "HEIF");
}

#[test]
fn an_avif_sequence_is_told_by_its_brand() {
    let still = ftyp_header(b"avif", &[b"avif", b"mif1"]);
    assert_eq!(
        refine_by_content(ImageFormat::Avif, &still),
        ImageFormat::Avif
    );
    let sequence = ftyp_header(b"avif", &[b"avif", b"avis", b"msf1"]);
    for named in [ImageFormat::Avif, ImageFormat::Heif] {
        assert_eq!(
            refine_by_content(named, &sequence),
            ImageFormat::AnimatedAvif
        );
    }
    let descriptor = descriptor_for_bytes(&sequence, Some("avif")).expect("descriptor");
    assert_eq!(descriptor.name, "AVIF");
    assert_eq!(descriptor.adapter, Adapter::AvifSequence);
}

#[test]
fn refining_settles() {
    let header = animated_png_header();
    let once = refine_by_content(ImageFormat::Png, &header);
    assert_eq!(once, ImageFormat::Apng);
    assert_eq!(refine_by_content(once, &header), once);
}

#[test]
fn an_animated_webp_is_told_by_its_flag() {
    let mut header = b"RIFF\0\0\0\0WEBPVP8X".to_vec();
    header.extend_from_slice(&[10, 0, 0, 0, 2, 0, 0, 0]);
    assert!(webp_has_animation_flag(&header));
    header[20] = 0;
    assert!(!webp_has_animation_flag(&header));
}

#[test]
fn descriptors_name_their_way() {
    let svg = descriptor_for_extension("svg").expect("descriptor");
    assert_eq!(svg.adapter, Adapter::Svg);
    assert_eq!(svg.semantics, FrameSemantics::Single);
    let icon = descriptor_for_extension("ico").expect("descriptor");
    assert_eq!(icon.semantics, FrameSemantics::SizeVariants);
    assert!(descriptor_for_extension("txt").is_none());
    assert_eq!(format_name_for_extension("jpeg"), Some("JPEG"));
    assert!(weight_depends_on_display("svg"));
    assert!(!weight_depends_on_display("png"));
    assert!(format_groups().iter().any(|(name, _)| *name == "PNG"));
}

#[test]
fn content_decides_where_the_name_does_not() {
    let png = FilePath::from_text("C:\\a.png");
    assert!(header_decides(&png));
    assert!(!header_decides(&FilePath::from_text("C:\\a.jpg")));
    assert_eq!(
        descriptor_for_path(&png, Some(&animated_png_header()[..])).map(|d| d.name),
        Some("APNG")
    );
    assert_eq!(descriptor_for_path(&png, None).map(|d| d.name), Some("PNG"));
    assert_eq!(
        descriptor_for_content(b"GIF89a....").map(|d| d.name),
        Some("GIF")
    );
}

#[test]
fn an_extension_belongs_to_one_group() {
    let groups = format_groups();
    for (name, extensions) in &groups {
        for extension in extensions {
            assert_eq!(format_name_for_extension(extension), Some(*name));
            assert_eq!(format_name_for_extension(&extension.to_uppercase()), None);
            let listing = groups
                .iter()
                .filter(|(_, list)| list.contains(extension))
                .count();
            assert_eq!(listing, 1, "{extension}");
        }
    }
    assert_eq!(format_name_for_extension("svgz"), Some("SVG"));
    assert_eq!(format_name_for_extension("txt"), None);
    assert_eq!(format_name_for_extension(""), None);
}
