//! The image formats: their extensions, their signatures, and how each decodes.

use vstd::prelude::*;

use crate::bytes;
use crate::bytes::{reads_pair_at, reads_triple_at, reads_word_at};
use crate::path::FilePath;
use crate::strings;
use crate::strings::{characters_of, same_text, text_of};
use crate::text::lower_character;

verus! {

/// What the frames of a file are to each other.
#[derive(Clone, Copy, PartialEq, Eq, Structural, Debug)]
pub enum FrameSemantics {
    Single,
    Animation,
    SizeVariants,
}

/// The decoder a format goes through.
#[derive(Clone, Copy, PartialEq, Eq, Structural, Debug)]
pub enum Adapter {
    Wic,
    WicRawTwoStage,
    WicSubresolutionTwoStage,
    Apng,
    Svg,
    WebPAnimation,
    AvifSequence,
    Exr,
    HeifWithWicPreferred,
}

/// The formats in registry order; the animated WebP and AVIF are reached by content alone.
#[derive(Clone, Copy, PartialEq, Eq, Structural, Debug)]
pub enum ImageFormat {
    Png,
    Apng,
    Svg,
    Jpeg,
    Gif,
    WebP,
    Bmp,
    Ico,
    Tiff,
    Dds,
    Heif,
    Exr,
    Avif,
    JpegXl,
    JpegXr,
    Raw,
    AnimatedWebP,
    AnimatedAvif,
}

/// Every format a file can be asked about, in the order they are asked.
pub const FORMAT_ORDER: [ImageFormat; 16] = [
    ImageFormat::Png,
    ImageFormat::Apng,
    ImageFormat::Svg,
    ImageFormat::Jpeg,
    ImageFormat::Gif,
    ImageFormat::WebP,
    ImageFormat::Bmp,
    ImageFormat::Ico,
    ImageFormat::Tiff,
    ImageFormat::Dds,
    ImageFormat::Heif,
    ImageFormat::Exr,
    ImageFormat::Avif,
    ImageFormat::JpegXl,
    ImageFormat::JpegXr,
    ImageFormat::Raw,
];

/// Extensions in lower case, grouped by format in registry order.
pub const EXTENSIONS: [(&'static str, ImageFormat); 42] = [
    ("png", ImageFormat::Png),
    ("apng", ImageFormat::Apng),
    ("svg", ImageFormat::Svg),
    ("svgz", ImageFormat::Svg),
    ("jpe", ImageFormat::Jpeg),
    ("jpeg", ImageFormat::Jpeg),
    ("jpg", ImageFormat::Jpeg),
    ("gif", ImageFormat::Gif),
    ("webp", ImageFormat::WebP),
    ("bmp", ImageFormat::Bmp),
    ("dib", ImageFormat::Bmp),
    ("ico", ImageFormat::Ico),
    ("tiff", ImageFormat::Tiff),
    ("tif", ImageFormat::Tiff),
    ("dds", ImageFormat::Dds),
    ("heic", ImageFormat::Heif),
    ("heif", ImageFormat::Heif),
    ("hif", ImageFormat::Heif),
    ("exr", ImageFormat::Exr),
    ("avif", ImageFormat::Avif),
    ("jxl", ImageFormat::JpegXl),
    ("jxr", ImageFormat::JpegXr),
    ("wdp", ImageFormat::JpegXr),
    ("arw", ImageFormat::Raw),
    ("cr2", ImageFormat::Raw),
    ("cr3", ImageFormat::Raw),
    ("crw", ImageFormat::Raw),
    ("dng", ImageFormat::Raw),
    ("erf", ImageFormat::Raw),
    ("kdc", ImageFormat::Raw),
    ("mrw", ImageFormat::Raw),
    ("nef", ImageFormat::Raw),
    ("nrw", ImageFormat::Raw),
    ("orf", ImageFormat::Raw),
    ("pef", ImageFormat::Raw),
    ("raf", ImageFormat::Raw),
    ("raw", ImageFormat::Raw),
    ("rw2", ImageFormat::Raw),
    ("rwl", ImageFormat::Raw),
    ("sr2", ImageFormat::Raw),
    ("srw", ImageFormat::Raw),
    ("x3f", ImageFormat::Raw),
];

impl ImageFormat {
    pub open spec fn title(self) -> Seq<char> {
        match self {
            ImageFormat::Png => "PNG"@,
            ImageFormat::Apng => "APNG"@,
            ImageFormat::Svg => "SVG"@,
            ImageFormat::Jpeg => "JPEG"@,
            ImageFormat::Gif => "GIF"@,
            ImageFormat::WebP => "WebP"@,
            ImageFormat::Bmp => "BMP"@,
            ImageFormat::Ico => "ICO"@,
            ImageFormat::Tiff => "TIFF"@,
            ImageFormat::Dds => "DDS"@,
            ImageFormat::Heif => "HEIF"@,
            ImageFormat::Exr => "EXR"@,
            ImageFormat::Avif => "AVIF"@,
            ImageFormat::JpegXl => "JPEG XL"@,
            ImageFormat::JpegXr => "JPEG XR"@,
            ImageFormat::Raw => "RAW"@,
            ImageFormat::AnimatedWebP => "WebP"@,
            ImageFormat::AnimatedAvif => "AVIF"@,
        }
    }

    pub open spec fn frame_semantics(self) -> FrameSemantics {
        match self {
            ImageFormat::Apng
            | ImageFormat::Gif
            | ImageFormat::AnimatedWebP
            | ImageFormat::AnimatedAvif => FrameSemantics::Animation,
            ImageFormat::Ico => FrameSemantics::SizeVariants,
            _ => FrameSemantics::Single,
        }
    }

    pub open spec fn decoder(self) -> Adapter {
        match self {
            ImageFormat::Apng => Adapter::Apng,
            ImageFormat::Svg => Adapter::Svg,
            ImageFormat::Heif => Adapter::HeifWithWicPreferred,
            ImageFormat::Exr => Adapter::Exr,
            ImageFormat::JpegXr => Adapter::WicSubresolutionTwoStage,
            ImageFormat::Raw => Adapter::WicRawTwoStage,
            ImageFormat::AnimatedWebP => Adapter::WebPAnimation,
            ImageFormat::AnimatedAvif => Adapter::AvifSequence,
            _ => Adapter::Wic,
        }
    }

    /// The Store extensions that bring a codec for the format.
    pub open spec fn store_codecs(self) -> Seq<Seq<char>> {
        match self {
            ImageFormat::WebP => seq!["WebP Image Extensions"@],
            ImageFormat::Avif => seq!["HEIF Image Extension"@, "AV1 Video Extension"@],
            ImageFormat::JpegXl => seq!["JPEG XL Image Extension"@],
            ImageFormat::Raw => seq!["Raw Image Extension"@],
            _ => Seq::empty(),
        }
    }

    /// The extensions listed for the format, from one row of the list on.
    pub open spec fn extensions_from(self, row: int) -> Seq<Seq<char>>
        decreases EXTENSIONS@.len() - row,
    {
        if row < 0 || row >= EXTENSIONS@.len() {
            Seq::empty()
        } else if EXTENSIONS@[row].1 == self {
            seq![EXTENSIONS@[row].0@] + self.extensions_from(row + 1)
        } else {
            self.extensions_from(row + 1)
        }
    }

    pub fn name(self) -> (name: &'static str)
        ensures
            name@ == self.title(),
    {
        match self {
            ImageFormat::Png => "PNG",
            ImageFormat::Apng => "APNG",
            ImageFormat::Svg => "SVG",
            ImageFormat::Jpeg => "JPEG",
            ImageFormat::Gif => "GIF",
            ImageFormat::WebP => "WebP",
            ImageFormat::Bmp => "BMP",
            ImageFormat::Ico => "ICO",
            ImageFormat::Tiff => "TIFF",
            ImageFormat::Dds => "DDS",
            ImageFormat::Heif => "HEIF",
            ImageFormat::Exr => "EXR",
            ImageFormat::Avif => "AVIF",
            ImageFormat::JpegXl => "JPEG XL",
            ImageFormat::JpegXr => "JPEG XR",
            ImageFormat::Raw => "RAW",
            ImageFormat::AnimatedWebP => "WebP",
            ImageFormat::AnimatedAvif => "AVIF",
        }
    }

    pub fn semantics(self) -> (semantics: FrameSemantics)
        ensures
            semantics == self.frame_semantics(),
    {
        match self {
            ImageFormat::Apng
            | ImageFormat::Gif
            | ImageFormat::AnimatedWebP
            | ImageFormat::AnimatedAvif => FrameSemantics::Animation,
            ImageFormat::Ico => FrameSemantics::SizeVariants,
            _ => FrameSemantics::Single,
        }
    }

    pub fn adapter(self) -> (adapter: Adapter)
        ensures
            adapter == self.decoder(),
    {
        match self {
            ImageFormat::Apng => Adapter::Apng,
            ImageFormat::Svg => Adapter::Svg,
            ImageFormat::Heif => Adapter::HeifWithWicPreferred,
            ImageFormat::Exr => Adapter::Exr,
            ImageFormat::JpegXr => Adapter::WicSubresolutionTwoStage,
            ImageFormat::Raw => Adapter::WicRawTwoStage,
            ImageFormat::AnimatedWebP => Adapter::WebPAnimation,
            ImageFormat::AnimatedAvif => Adapter::AvifSequence,
            _ => Adapter::Wic,
        }
    }

    pub fn store_codec_names(self) -> (names: Vec<&'static str>)
        ensures
            strings::texts(names@) == self.store_codecs(),
    {
        let names = match self {
            ImageFormat::WebP => vec!["WebP Image Extensions"],
            ImageFormat::Avif => vec!["HEIF Image Extension", "AV1 Video Extension"],
            ImageFormat::JpegXl => vec!["JPEG XL Image Extension"],
            ImageFormat::Raw => vec!["Raw Image Extension"],
            _ => Vec::new(),
        };
        assert(strings::texts(names@) =~= self.store_codecs());
        names
    }

    /// The extensions listed for the format.
    pub fn extensions(self) -> (list: Vec<&'static str>)
        ensures
            strings::texts(list@) == self.extensions_from(0),
    {
        let mut list: Vec<&'static str> = Vec::new();
        let mut row: usize = 0;
        while row < EXTENSIONS.len()
            invariant
                row <= EXTENSIONS@.len(),
                strings::texts(list@) + self.extensions_from(row as int) == self.extensions_from(0),
            decreases EXTENSIONS@.len() - row,
        {
            if EXTENSIONS[row].1 == self {
                let ghost before = list@;
                list.push(EXTENSIONS[row].0);
                proof {
                    let text = EXTENSIONS@[row as int].0@;
                    assert(strings::texts(list@) =~= strings::texts(before).push(text));
                    assert(strings::texts(before) + (seq![text] + self.extensions_from(row + 1))
                        =~= strings::texts(list@) + self.extensions_from(row + 1));
                }
            }
            row += 1;
        }
        assert(strings::texts(list@) + self.extensions_from(row as int) =~= strings::texts(list@));
        list
    }
}

/// One format as callers read it.
pub struct FormatDescriptor {
    pub format: ImageFormat,
    pub name: &'static str,
    pub extensions: Vec<&'static str>,
    pub semantics: FrameSemantics,
    pub adapter: Adapter,
    pub store_codec_names: Vec<&'static str>,
    /// The container can carry an Ultra HDR gain map worth probing for.
    pub carries_gain_map: bool,
}

impl FormatDescriptor {
    /// The descriptor says of its format what the registry says.
    pub open spec fn describes(self, format: ImageFormat) -> bool {
        &&& self.format == format
        &&& self.name@ == format.title()
        &&& strings::texts(self.extensions@) == listed_extensions(format)
        &&& self.semantics == format.frame_semantics()
        &&& self.adapter == format.decoder()
        &&& strings::texts(self.store_codec_names@) == format.store_codecs()
        &&& self.carries_gain_map == (format == ImageFormat::Jpeg)
    }
}

/// The extensions a format is looked up by.
pub open spec fn listed_extensions(format: ImageFormat) -> Seq<Seq<char>> {
    format.extensions_from(0)
}

pub fn describe(format: ImageFormat) -> (descriptor: FormatDescriptor)
    ensures
        descriptor.describes(format),
{
    FormatDescriptor {
        format,
        name: format.name(),
        extensions: format.extensions(),
        semantics: format.semantics(),
        adapter: format.adapter(),
        store_codec_names: format.store_codec_names(),
        carries_gain_map: format == ImageFormat::Jpeg,
    }
}

/// A descriptor for the format found, none where none was.
pub open spec fn answers(descriptor: Option<FormatDescriptor>, format: Option<ImageFormat>) -> bool {
    match (descriptor, format) {
        (Some(found), Some(expected)) => found.describes(expected),
        (None, None) => true,
        _ => false,
    }
}

fn describe_found(format: Option<ImageFormat>) -> (descriptor: Option<FormatDescriptor>)
    ensures
        answers(descriptor, format),
{
    match format {
        Some(found) => Some(describe(found)),
        None => None,
    }
}

/// Format groups in registry order, each with its extensions.
pub fn format_groups() -> (groups: Vec<(&'static str, Vec<&'static str>)>)
    ensures
        groups@.len() == FORMAT_ORDER@.len(),
        forall|index: int|
            0 <= index < groups@.len() ==> (#[trigger] groups@[index]).0@
                == FORMAT_ORDER@[index].title() && strings::texts(groups@[index].1@) == listed_extensions(
                FORMAT_ORDER@[index],
            ),
{
    let mut groups: Vec<(&'static str, Vec<&'static str>)> = Vec::new();
    let mut index: usize = 0;
    while index < FORMAT_ORDER.len()
        invariant
            index <= FORMAT_ORDER@.len(),
            groups@.len() == index,
            forall|earlier: int|
                0 <= earlier < index ==> (#[trigger] groups@[earlier]).0@
                    == FORMAT_ORDER@[earlier].title() && strings::texts(groups@[earlier].1@)
                    == listed_extensions(FORMAT_ORDER@[earlier]),
        decreases FORMAT_ORDER@.len() - index,
    {
        let format = FORMAT_ORDER[index];
        groups.push((format.name(), format.extensions()));
        index += 1;
    }
    groups
}

/// The format of the first row from `row` on that lists the extension.
pub open spec fn format_listing(extension: Seq<char>, row: int) -> Option<ImageFormat>
    decreases EXTENSIONS@.len() - row,
{
    if row < 0 || row >= EXTENSIONS@.len() {
        None
    } else if EXTENSIONS@[row].0@ == extension {
        Some(EXTENSIONS@[row].1)
    } else {
        format_listing(extension, row + 1)
    }
}

/// The format an extension in lower case stands for.
pub open spec fn format_of_extension(extension: Seq<char>) -> Option<ImageFormat> {
    format_listing(extension, 0)
}

pub fn format_for_extension(extension: &str) -> (format: Option<ImageFormat>)
    ensures
        format == format_of_extension(extension@),
{
    let mut row: usize = 0;
    while row < EXTENSIONS.len()
        invariant
            row <= EXTENSIONS@.len(),
            format_of_extension(extension@) == format_listing(extension@, row as int),
        decreases EXTENSIONS@.len() - row,
    {
        if same_text(EXTENSIONS[row].0, extension) {
            return Some(EXTENSIONS[row].1);
        }
        row += 1;
    }
    None
}

pub fn descriptor_for_extension(extension: &str) -> (descriptor: Option<FormatDescriptor>)
    ensures
        answers(descriptor, format_of_extension(extension@)),
{
    describe_found(format_for_extension(extension))
}

pub fn format_name_for_extension(extension: &str) -> (name: Option<&'static str>)
    ensures
        match (name, format_of_extension(extension@)) {
            (Some(text), Some(format)) => text@ == format.title(),
            (None, None) => true,
            _ => false,
        },
{
    match format_for_extension(extension) {
        Some(format) => Some(format.name()),
        None => None,
    }
}

/// Formats rastered at the largest monitor's size, so cached weights expire with it.
pub fn weight_depends_on_display(extension: &str) -> (depends: bool)
    ensures
        depends == (format_of_extension(extension@) == Some(ImageFormat::Svg)),
{
    match format_for_extension(extension) {
        Some(format) => format == ImageFormat::Svg,
        None => false,
    }
}

/// Whether a header starts the way files of the format do.
pub open spec fn has_signature(format: ImageFormat, header: Seq<u8>) -> bool {
    match format {
        ImageFormat::Png => bytes::word_at(header, 0, 0x89, 0x50, 0x4E, 0x47) && bytes::word_at(header, 4, 0x0D, 0x0A, 0x1A, 0x0A),
        ImageFormat::Svg => bytes::word_at(header, 0, 0x3C, 0x73, 0x76, 0x67),
        ImageFormat::Jpeg => bytes::triple_at(header, 0, 0xFF, 0xD8, 0xFF),
        ImageFormat::Gif => bytes::word_at(header, 0, 0x47, 0x49, 0x46, 0x38),
        ImageFormat::WebP => bytes::word_at(header, 0, 0x52, 0x49, 0x46, 0x46) && bytes::word_at(header, 8, 0x57, 0x45, 0x42, 0x50),
        ImageFormat::Bmp => bytes::pair_at(header, 0, 0x42, 0x4D) && bytes::word_at(header, 6, 0x00, 0x00, 0x00, 0x00),
        ImageFormat::Ico => bytes::word_at(header, 0, 0x00, 0x00, 0x01, 0x00),
        ImageFormat::Tiff => bytes::word_at(header, 0, 0x49, 0x49, 0x2A, 0x00) || bytes::word_at(header, 0, 0x4D, 0x4D, 0x00, 0x2A),
        ImageFormat::Dds => bytes::word_at(header, 0, 0x44, 0x44, 0x53, 0x20),
        ImageFormat::Heif => (bytes::word_at(header, 4, 0x66, 0x74, 0x79, 0x70) && bytes::word_at(header, 8, 0x68, 0x65, 0x69, 0x63)) || (bytes::word_at(header, 4, 0x66, 0x74, 0x79, 0x70) && bytes::word_at(header, 8, 0x68, 0x65, 0x69, 0x78)) || (bytes::word_at(header, 4, 0x66, 0x74, 0x79, 0x70) && bytes::word_at(header, 8, 0x6D, 0x69, 0x66, 0x31)) || (bytes::word_at(header, 4, 0x66, 0x74, 0x79, 0x70) && bytes::word_at(header, 8, 0x6D, 0x73, 0x66, 0x31)) || (bytes::word_at(header, 4, 0x66, 0x74, 0x79, 0x70) && bytes::word_at(header, 8, 0x68, 0x65, 0x76, 0x63)),
        ImageFormat::Exr => bytes::word_at(header, 0, 0x76, 0x2F, 0x31, 0x01),
        ImageFormat::Avif => (bytes::word_at(header, 4, 0x66, 0x74, 0x79, 0x70) && bytes::word_at(header, 8, 0x61, 0x76, 0x69, 0x66)) || (bytes::word_at(header, 4, 0x66, 0x74, 0x79, 0x70) && bytes::word_at(header, 8, 0x61, 0x76, 0x69, 0x73)),
        ImageFormat::JpegXl => (bytes::word_at(header, 0, 0x00, 0x00, 0x00, 0x0C) && bytes::word_at(header, 4, 0x4A, 0x58, 0x4C, 0x20) && bytes::word_at(header, 8, 0x0D, 0x0A, 0x87, 0x0A)) || bytes::pair_at(header, 0, 0xFF, 0x0A),
        ImageFormat::JpegXr => bytes::word_at(header, 0, 0x49, 0x49, 0xBC, 0x01) || bytes::word_at(header, 0, 0x49, 0x49, 0xBC, 0x00),
        ImageFormat::Apng
        | ImageFormat::Raw
        | ImageFormat::AnimatedWebP
        | ImageFormat::AnimatedAvif => false,
    }
}

fn reads_signature(format: ImageFormat, header: &[u8]) -> (found: bool)
    ensures
        found == has_signature(format, header@),
{
    match format {
        ImageFormat::Png => reads_word_at(header, 0, 0x89, 0x50, 0x4E, 0x47) && reads_word_at(header, 4, 0x0D, 0x0A, 0x1A, 0x0A),
        ImageFormat::Svg => reads_word_at(header, 0, 0x3C, 0x73, 0x76, 0x67),
        ImageFormat::Jpeg => reads_triple_at(header, 0, 0xFF, 0xD8, 0xFF),
        ImageFormat::Gif => reads_word_at(header, 0, 0x47, 0x49, 0x46, 0x38),
        ImageFormat::WebP => reads_word_at(header, 0, 0x52, 0x49, 0x46, 0x46) && reads_word_at(header, 8, 0x57, 0x45, 0x42, 0x50),
        ImageFormat::Bmp => reads_pair_at(header, 0, 0x42, 0x4D) && reads_word_at(header, 6, 0x00, 0x00, 0x00, 0x00),
        ImageFormat::Ico => reads_word_at(header, 0, 0x00, 0x00, 0x01, 0x00),
        ImageFormat::Tiff => reads_word_at(header, 0, 0x49, 0x49, 0x2A, 0x00) || reads_word_at(header, 0, 0x4D, 0x4D, 0x00, 0x2A),
        ImageFormat::Dds => reads_word_at(header, 0, 0x44, 0x44, 0x53, 0x20),
        ImageFormat::Heif => (reads_word_at(header, 4, 0x66, 0x74, 0x79, 0x70) && reads_word_at(header, 8, 0x68, 0x65, 0x69, 0x63)) || (reads_word_at(header, 4, 0x66, 0x74, 0x79, 0x70) && reads_word_at(header, 8, 0x68, 0x65, 0x69, 0x78)) || (reads_word_at(header, 4, 0x66, 0x74, 0x79, 0x70) && reads_word_at(header, 8, 0x6D, 0x69, 0x66, 0x31)) || (reads_word_at(header, 4, 0x66, 0x74, 0x79, 0x70) && reads_word_at(header, 8, 0x6D, 0x73, 0x66, 0x31)) || (reads_word_at(header, 4, 0x66, 0x74, 0x79, 0x70) && reads_word_at(header, 8, 0x68, 0x65, 0x76, 0x63)),
        ImageFormat::Exr => reads_word_at(header, 0, 0x76, 0x2F, 0x31, 0x01),
        ImageFormat::Avif => (reads_word_at(header, 4, 0x66, 0x74, 0x79, 0x70) && reads_word_at(header, 8, 0x61, 0x76, 0x69, 0x66)) || (reads_word_at(header, 4, 0x66, 0x74, 0x79, 0x70) && reads_word_at(header, 8, 0x61, 0x76, 0x69, 0x73)),
        ImageFormat::JpegXl => (reads_word_at(header, 0, 0x00, 0x00, 0x00, 0x0C) && reads_word_at(header, 4, 0x4A, 0x58, 0x4C, 0x20) && reads_word_at(header, 8, 0x0D, 0x0A, 0x87, 0x0A)) || reads_pair_at(header, 0, 0xFF, 0x0A),
        ImageFormat::JpegXr => reads_word_at(header, 0, 0x49, 0x49, 0xBC, 0x01) || reads_word_at(header, 0, 0x49, 0x49, 0xBC, 0x00),
        ImageFormat::Apng
        | ImageFormat::Raw
        | ImageFormat::AnimatedWebP
        | ImageFormat::AnimatedAvif => false,
    }
}

/// The first format in registry order, from one place on, whose signature the header carries.
pub open spec fn format_signed(header: Seq<u8>, place: int) -> Option<ImageFormat>
    decreases FORMAT_ORDER@.len() - place,
{
    if place < 0 || place >= FORMAT_ORDER@.len() {
        None
    } else if has_signature(FORMAT_ORDER@[place], header) {
        Some(FORMAT_ORDER@[place])
    } else {
        format_signed(header, place + 1)
    }
}

/// An XML document that holds an SVG element.
pub open spec fn is_xml_with_svg(header: Seq<u8>) -> bool {
    &&& bytes::word_at(header, 0, 0x3C, 0x3F, 0x78, 0x6D)
    &&& header.len() >= 5
    &&& header[4] == 0x6C
    &&& exists|place: int| 0 <= place && #[trigger] bytes::word_at(header, place, 0x3C, 0x73, 0x76, 0x67)
}

/// The format a header gives away by its signature.
pub open spec fn format_of_magic(header: Seq<u8>) -> Option<ImageFormat> {
    match format_signed(header, 0) {
        Some(format) => Some(format),
        None => if is_xml_with_svg(header) {
            Some(ImageFormat::Svg)
        } else {
            None
        },
    }
}

/// Whether a header is that of an XML document with an SVG element.
pub fn xml_svg_probe(header: &[u8]) -> (found: bool)
    ensures
        found == is_xml_with_svg(header@),
{
    if !(reads_word_at(header, 0, 0x3C, 0x3F, 0x78, 0x6D) && header.len() >= 5 && header[4]
        == 0x6C) {
        return false;
    }
    let mut place: usize = 0;
    while place < header.len()
        invariant
            bytes::word_at(header@, 0, 0x3C, 0x3F, 0x78, 0x6D),
            header.len() >= 5,
            header@[4] == 0x6C,
            place <= header.len(),
            forall|earlier: int|
                0 <= earlier < place ==> !(#[trigger] bytes::word_at(
                    header@,
                    earlier,
                    0x3C,
                    0x73,
                    0x76,
                    0x67,
                )),
        decreases header.len() - place,
    {
        if reads_word_at(header, place, 0x3C, 0x73, 0x76, 0x67) {
            return true;
        }
        place += 1;
    }
    false
}

fn format_for_magic(header: &[u8]) -> (format: Option<ImageFormat>)
    ensures
        format == format_of_magic(header@),
{
    let mut place: usize = 0;
    while place < FORMAT_ORDER.len()
        invariant
            place <= FORMAT_ORDER@.len(),
            format_signed(header@, 0) == format_signed(header@, place as int),
        decreases FORMAT_ORDER@.len() - place,
    {
        if reads_signature(FORMAT_ORDER[place], header) {
            return Some(FORMAT_ORDER[place]);
        }
        place += 1;
    }
    if xml_svg_probe(header) {
        Some(ImageFormat::Svg)
    } else {
        None
    }
}

pub fn descriptor_for_magic(header: &[u8]) -> (descriptor: Option<FormatDescriptor>)
    ensures
        answers(descriptor, format_of_magic(header@)),
{
    describe_found(format_for_magic(header))
}

/// The formats `refine_by_content` can reclassify; keep the two in step.
pub open spec fn content_refines(format: ImageFormat) -> bool {
    format == ImageFormat::Png || format == ImageFormat::WebP || format == ImageFormat::AnimatedWebP
        || format == ImageFormat::Heif || format == ImageFormat::Avif || format
        == ImageFormat::AnimatedAvif
}

/// Whether an animation control chunk comes before the image data, from one chunk on.
pub open spec fn animation_control_from(header: Seq<u8>, offset: int) -> bool
    decreases header.len() - offset,
{
    if offset < 0 || offset + 8 > header.len() {
        false
    } else if bytes::word_at(header, offset + 4, 0x61, 0x63, 0x54, 0x4C) {
        true
    } else if bytes::word_at(header, offset + 4, 0x49, 0x44, 0x41, 0x54) || bytes::word_at(
        header,
        offset + 4,
        0x49,
        0x45,
        0x4E,
        0x44,
    ) {
        false
    } else {
        proof {
            bytes::lemma_big_endian_bounds(header, offset);
        }
        let next = offset + 12 + bytes::big_endian_at(header, offset);
        next <= header.len() && animation_control_from(header, next)
    }
}

/// A WebP whose extended header raises the animation flag.
pub open spec fn has_animation_flag(header: Seq<u8>) -> bool {
    bytes::word_at(header, 12, 0x56, 0x50, 0x38, 0x58) && header.len() > 20 && (header[20] / 2) % 2 == 1
}

/// The brand stands as the major brand of the file type box or among the compatible ones.
pub open spec fn names_brand(header: Seq<u8>, a: u8, b: u8, c: u8, d: u8) -> bool {
    let size = bytes::big_endian_at(header, 0);
    let end = if size < header.len() {
        size
    } else {
        header.len() as int
    };
    &&& bytes::word_at(header, 4, 0x66, 0x74, 0x79, 0x70)
    &&& bytes::word_at(header, 8, a, b, c, d) || exists|place: int|
        16 <= place && place + 4 <= end && (place - 16) % 4 == 0 && #[trigger] bytes::word_at(
            header,
            place,
            a,
            b,
            c,
            d,
        )
}

/// PNG with animation control is APNG, WebP with the flag is animated, HEIF with an AVIF brand is AVIF,
/// and AVIF with the brand of a sequence is animated.
pub open spec fn refined(format: ImageFormat, header: Seq<u8>) -> ImageFormat {
    if format == ImageFormat::Png && animation_control_from(header, 8) {
        ImageFormat::Apng
    } else if format == ImageFormat::WebP && has_animation_flag(header) {
        ImageFormat::AnimatedWebP
    } else if (format == ImageFormat::Heif || format == ImageFormat::Avif) && names_brand(
        header,
        0x61,
        0x76,
        0x69,
        0x73,
    ) {
        ImageFormat::AnimatedAvif
    } else if format == ImageFormat::Heif && names_brand(header, 0x61, 0x76, 0x69, 0x66) {
        ImageFormat::Avif
    } else {
        format
    }
}

/// A format content cannot reclassify is never reclassified, and reclassifying settles at once.
pub proof fn lemma_refining_settles(format: ImageFormat, header: Seq<u8>)
    ensures
        !content_refines(format) ==> refined(format, header) == format,
        refined(refined(format, header), header) == refined(format, header),
{
}

/// The header is worth reading only for these formats.
pub fn refines_by_content(format: ImageFormat) -> (refines: bool)
    ensures
        refines == content_refines(format),
{
    format == ImageFormat::Png || format == ImageFormat::WebP || format == ImageFormat::AnimatedWebP
        || format == ImageFormat::Heif || format == ImageFormat::Avif || format
        == ImageFormat::AnimatedAvif
}

pub fn png_has_animation_control(header: &[u8]) -> (found: bool)
    ensures
        found == animation_control_from(header@, 8),
{
    let mut offset: u128 = 8;
    while offset + 8 <= header.len() as u128
        invariant
            offset <= header.len() + 0x1_0000_0010,
            animation_control_from(header@, 8) == animation_control_from(header@, offset as int),
        decreases header.len() + 0x1_0000_0010 - offset,
    {
        let at: usize = offset as usize;
        if reads_word_at(header, at + 4, 0x61, 0x63, 0x54, 0x4C) {
            return true;
        }
        if reads_word_at(header, at + 4, 0x49, 0x44, 0x41, 0x54) || reads_word_at(
            header,
            at + 4,
            0x49,
            0x45,
            0x4E,
            0x44,
        ) {
            return false;
        }
        let length: u32 = bytes::big_endian(header, at);
        offset = offset + 12 + length as u128;
    }
    false
}

pub fn webp_has_animation_flag(header: &[u8]) -> (found: bool)
    ensures
        found == has_animation_flag(header@),
{
    reads_word_at(header, 12, 0x56, 0x50, 0x38, 0x58) && header.len() > 20 && (header[20] / 2) % 2
        == 1
}

pub fn ftyp_has_brand(header: &[u8], a: u8, b: u8, c: u8, d: u8) -> (found: bool)
    ensures
        found == names_brand(header@, a, b, c, d),
{
    if !reads_word_at(header, 4, 0x66, 0x74, 0x79, 0x70) {
        return false;
    }
    if reads_word_at(header, 8, a, b, c, d) {
        return true;
    }
    let size: u32 = bytes::big_endian(header, 0);
    let end: usize = if (size as u64) < header.len() as u64 {
        size as usize
    } else {
        header.len()
    };
    let mut place: usize = 16;
    while place < end && end - place >= 4
        invariant
            16 <= place,
            (place - 16) % 4 == 0,
            bytes::word_at(header@, 4, 0x66, 0x74, 0x79, 0x70),
            !bytes::word_at(header@, 8, a, b, c, d),
            size == bytes::big_endian_at(header@, 0),
            end <= header.len(),
            end == size || end == header.len() <= size,
            forall|earlier: int|
                16 <= earlier < place && (earlier - 16) % 4 == 0 ==> !(#[trigger] bytes::word_at(
                    header@,
                    earlier,
                    a,
                    b,
                    c,
                    d,
                )),
        decreases end - place,
    {
        if reads_word_at(header, place, a, b, c, d) {
            return true;
        }
        place += 4;
    }
    false
}

/// The format once its header has been read.
pub fn refine_by_content(format: ImageFormat, header: &[u8]) -> (found: ImageFormat)
    ensures
        found == refined(format, header@),
{
    if format == ImageFormat::Png && png_has_animation_control(header) {
        ImageFormat::Apng
    } else if format == ImageFormat::WebP && webp_has_animation_flag(header) {
        ImageFormat::AnimatedWebP
    } else if (format == ImageFormat::Heif || format == ImageFormat::Avif) && ftyp_has_brand(
        header,
        0x61,
        0x76,
        0x69,
        0x73,
    ) {
        ImageFormat::AnimatedAvif
    } else if format == ImageFormat::Heif && ftyp_has_brand(header, 0x61, 0x76, 0x69, 0x66) {
        ImageFormat::Avif
    } else {
        format
    }
}

/// The format a header alone gives away.
pub open spec fn format_of_content(header: Seq<u8>) -> Option<ImageFormat> {
    match format_of_magic(header) {
        Some(format) => Some(refined(format, header)),
        None => None,
    }
}

fn format_for_content(header: &[u8]) -> (format: Option<ImageFormat>)
    ensures
        format == format_of_content(header@),
{
    match format_for_magic(header) {
        Some(format) => Some(refine_by_content(format, header)),
        None => None,
    }
}

/// The format of a file whose header reads as given.
pub fn descriptor_for_content(header: &[u8]) -> (descriptor: Option<FormatDescriptor>)
    ensures
        answers(descriptor, format_of_content(header@)),
{
    describe_found(format_for_content(header))
}

/// The format of a file: by its extension, corrected by the header where the header can tell; by
/// the header alone where the extension says nothing.
pub open spec fn format_of_file(extension: Option<Seq<char>>, header: Option<Seq<u8>>) -> Option<
    ImageFormat,
> {
    let listed = match extension {
        Some(text) => format_of_extension(text),
        None => None,
    };
    match (listed, header) {
        (Some(format), Some(bytes)) => Some(refined(format, bytes)),
        (Some(format), None) => Some(format),
        (None, Some(bytes)) => format_of_content(bytes),
        (None, None) => None,
    }
}

/// The bytes an optional header holds.
pub open spec fn header_bytes(header: Option<&[u8]>) -> Option<Seq<u8>> {
    match header {
        Some(bytes) => Some(bytes@),
        None => None,
    }
}

/// Whether finding the format of a file takes its header.
pub fn header_decides(path: &FilePath) -> (decides: bool)
    ensures
        !decides ==> forall|header: Option<Seq<u8>>|
            #[trigger] format_of_file(crate::path::extension(path@), header) == format_of_file(
                crate::path::extension(path@),
                None,
            ),
        !decides <==> match crate::path::extension(path@) {
            Some(text) => format_of_extension(text) matches Some(format) && !content_refines(
                format,
            ),
            None => false,
        },
{
    match path.extension_lowercase() {
        Some(extension) => match format_for_extension(&extension) {
            Some(format) => refines_by_content(format),
            None => true,
        },
        None => true,
    }
}

/// The format of a file; `header` is what reading its start gave, none where that failed.
pub fn descriptor_for_path(path: &FilePath, header: Option<&[u8]>) -> (descriptor: Option<
    FormatDescriptor,
>)
    ensures
        answers(
            descriptor,
            format_of_file(crate::path::extension(path@), header_bytes(header)),
        ),
{
    let listed = match path.extension_lowercase() {
        Some(extension) => format_for_extension(&extension),
        None => None,
    };
    let format = match (listed, header) {
        (Some(format), Some(bytes)) => Some(refine_by_content(format, bytes)),
        (Some(format), None) => Some(format),
        (None, Some(bytes)) => format_for_content(bytes),
        (None, None) => None,
    };
    describe_found(format)
}

/// How much of a file its format is read from.
pub const HEADER_BYTES: usize = 4096;

/// Lower case of a character of an extension hint. The Kelvin sign is the one character outside
/// ASCII whose lower case is an ASCII letter.
pub open spec fn hint_char(character: char) -> char {
    if character == '\u{212A}' {
        'k'
    } else {
        crate::text::lower_char(character)
    }
}

/// An extension hint in lower case.
pub open spec fn hint_text(hint: Seq<char>) -> Seq<char> {
    hint.map_values(|character: char| hint_char(character))
}

fn lower_hint(hint: &str) -> (lower: String)
    ensures
        lower@ == hint_text(hint@),
{
    let characters = characters_of(hint);
    let mut lower: Vec<char> = Vec::new();
    let mut index: usize = 0;
    while index < characters.len()
        invariant
            characters@ == hint@,
            index <= characters.len(),
            lower@ == hint_text(hint@).take(index as int),
        decreases characters.len() - index,
    {
        let character = characters[index];
        lower.push(if character == '\u{212A}' {
            'k'
        } else {
            lower_character(character)
        });
        index += 1;
        assert(lower@ =~= hint_text(hint@).take(index as int));
    }
    assert(hint_text(hint@).take(hint@.len() as int) =~= hint_text(hint@));
    text_of(&lower)
}

/// The start of the data, as far as formats are read from it.
pub open spec fn header_of(bytes: Seq<u8>) -> Seq<u8> {
    bytes.take(if bytes.len() < HEADER_BYTES {
        bytes.len() as int
    } else {
        HEADER_BYTES as int
    })
}

/// The format of data in memory under an extension hint.
pub open spec fn format_of_bytes(bytes: Seq<u8>, hint: Option<Seq<char>>) -> Option<ImageFormat> {
    format_of_file(
        match hint {
            Some(text) => Some(hint_text(text)),
            None => None,
        },
        Some(header_of(bytes)),
    )
}

/// The text an optional hint holds.
pub open spec fn hint_view(hint: Option<&str>) -> Option<Seq<char>> {
    match hint {
        Some(text) => Some(text@),
        None => None,
    }
}

pub fn descriptor_for_bytes(bytes: &[u8], extension: Option<&str>) -> (descriptor: Option<
    FormatDescriptor,
>)
    ensures
        answers(descriptor, format_of_bytes(bytes@, hint_view(extension))),
{
    let end: usize = if bytes.len() < HEADER_BYTES {
        bytes.len()
    } else {
        HEADER_BYTES
    };
    let header = vstd::slice::slice_subrange(bytes, 0, end);
    assert(header@ =~= header_of(bytes@));
    let listed = match extension {
        Some(hint) => format_for_extension(&lower_hint(hint)),
        None => None,
    };
    let format = match listed {
        Some(format) => Some(refine_by_content(format, header)),
        None => format_for_content(header),
    };
    describe_found(format)
}

/// A decode in two stages, a preview first.
pub open spec fn is_two_stage(format: Option<ImageFormat>) -> bool {
    format == Some(ImageFormat::Raw) || format == Some(ImageFormat::JpegXr)
}

/// The format a path's extension stands for.
pub open spec fn format_of_path_extension(path: Seq<u16>) -> Option<ImageFormat> {
    match crate::path::extension(path) {
        Some(text) => format_of_extension(text),
        None => None,
    }
}

/// Extension-only lookup, so checks on the UI thread do no I/O.
pub fn descriptor_for_path_extension(path: &FilePath) -> (descriptor: Option<FormatDescriptor>)
    ensures
        answers(descriptor, format_of_path_extension(path@)),
{
    match path.extension_lowercase() {
        Some(extension) => descriptor_for_extension(&extension),
        None => None,
    }
}

/// A file whose decode runs preview first; magic probing never yields these formats.
pub fn is_two_stage_preview(path: &FilePath) -> (two_stage: bool)
    ensures
        two_stage == is_two_stage(format_of_path_extension(path@)),
{
    match path.extension_lowercase() {
        Some(extension) => match format_for_extension(&extension) {
            Some(format) => format == ImageFormat::Raw || format == ImageFormat::JpegXr,
            None => false,
        },
        None => false,
    }
}

/// The preview stage a file has, if any: a RAW embedded preview or a sub-resolution pass.
#[derive(Clone, Copy, PartialEq, Eq, Structural, Debug)]
pub enum PreviewStage {
    RawEmbedded,
    Subresolution,
}

/// The preview a two-stage file decodes first.
pub fn two_stage_preview(path: &FilePath) -> (stage: Option<PreviewStage>)
    ensures
        stage == match format_of_path_extension(path@) {
            Some(ImageFormat::Raw) => Some(PreviewStage::RawEmbedded),
            Some(ImageFormat::JpegXr) => Some(PreviewStage::Subresolution),
            _ => None,
        },
        stage is Some <==> is_two_stage(format_of_path_extension(path@)),
{
    match path.extension_lowercase() {
        Some(extension) => match format_for_extension(&extension) {
            Some(ImageFormat::Raw) => Some(PreviewStage::RawEmbedded),
            Some(ImageFormat::JpegXr) => Some(PreviewStage::Subresolution),
            _ => None,
        },
        None => None,
    }
}

} // verus!
