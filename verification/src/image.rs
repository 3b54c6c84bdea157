//! Decoded images and the errors a decode ends in.

use vstd::prelude::*;

use crate::strings;

verus! {

/// One frame's pixels and how long an animation shows it.
pub struct Frame {
    pub pixels: Vec<u8>,
    pub delay_milliseconds: u32,
}

#[verifier::ext_equal]
pub struct FrameModel {
    pub pixels: Seq<u8>,
    pub delay_milliseconds: u32,
}

impl View for Frame {
    type V = FrameModel;

    open spec fn view(&self) -> FrameModel {
        FrameModel { pixels: self.pixels@, delay_milliseconds: self.delay_milliseconds }
    }
}

/// What the frames of an image hold.
pub open spec fn frames_model(frames: Seq<Frame>) -> Seq<FrameModel> {
    frames.map_values(|frame: Frame| frame@)
}

#[derive(Clone, Copy, PartialEq, Eq, Structural, Debug)]
pub enum PixelStorage {
    Bgra8,
    RgbaHalf,
}

impl PixelStorage {
    pub open spec fn pixel_size(self) -> u32 {
        match self {
            PixelStorage::Bgra8 => 4,
            PixelStorage::RgbaHalf => 8,
        }
    }

    pub fn bytes_per_pixel(self) -> (bytes: u32)
        ensures
            bytes == self.pixel_size(),
    {
        match self {
            PixelStorage::Bgra8 => 4,
            PixelStorage::RgbaHalf => 8,
        }
    }
}

/// Photo facts a file declares. Numbers with a fraction are kept as the bits of a double; times
/// count 100 ns intervals from 1601.
pub struct ExifMetadata {
    pub date_taken: Option<u64>,
    pub rating: Option<u32>,
    pub camera_maker: Option<String>,
    pub camera_model: Option<String>,
    pub f_stop: Option<u64>,
    pub exposure_time_seconds: Option<u64>,
    pub iso_speed: Option<u32>,
    pub exposure_bias: Option<u64>,
    pub focal_length_millimeters: Option<u64>,
    pub maximum_aperture: Option<u64>,
    pub metering_mode: Option<u32>,
    pub flash: Option<u32>,
}

#[verifier::ext_equal]
pub struct ExifModel {
    pub date_taken: Option<u64>,
    pub rating: Option<u32>,
    pub camera_maker: Option<Seq<char>>,
    pub camera_model: Option<Seq<char>>,
    pub f_stop: Option<u64>,
    pub exposure_time_seconds: Option<u64>,
    pub iso_speed: Option<u32>,
    pub exposure_bias: Option<u64>,
    pub focal_length_millimeters: Option<u64>,
    pub maximum_aperture: Option<u64>,
    pub metering_mode: Option<u32>,
    pub flash: Option<u32>,
}

/// The text an optional string holds.
pub open spec fn optional_text(text: Option<String>) -> Option<Seq<char>> {
    match text {
        Some(found) => Some(found@),
        None => None,
    }
}

impl View for ExifMetadata {
    type V = ExifModel;

    open spec fn view(&self) -> ExifModel {
        ExifModel {
            date_taken: self.date_taken,
            rating: self.rating,
            camera_maker: optional_text(self.camera_maker),
            camera_model: optional_text(self.camera_model),
            f_stop: self.f_stop,
            exposure_time_seconds: self.exposure_time_seconds,
            iso_speed: self.iso_speed,
            exposure_bias: self.exposure_bias,
            focal_length_millimeters: self.focal_length_millimeters,
            maximum_aperture: self.maximum_aperture,
            metering_mode: self.metering_mode,
            flash: self.flash,
        }
    }
}

fn copy_text(text: &Option<String>) -> (copy: Option<String>)
    ensures
        optional_text(copy) == optional_text(*text),
{
    match text {
        Some(found) => Some(found.clone()),
        None => None,
    }
}

impl ExifMetadata {
    /// Whether the file declares any of the facts; a record without one is no record.
    pub fn any_present(&self) -> (present: bool)
        ensures
            !present <==> self@ == (ExifModel {
                date_taken: None,
                rating: None,
                camera_maker: None,
                camera_model: None,
                f_stop: None,
                exposure_time_seconds: None,
                iso_speed: None,
                exposure_bias: None,
                focal_length_millimeters: None,
                maximum_aperture: None,
                metering_mode: None,
                flash: None,
            }),
    {
        self.date_taken.is_some() || self.rating.is_some() || self.camera_maker.is_some()
            || self.camera_model.is_some() || self.f_stop.is_some()
            || self.exposure_time_seconds.is_some() || self.iso_speed.is_some()
            || self.exposure_bias.is_some() || self.focal_length_millimeters.is_some()
            || self.maximum_aperture.is_some() || self.metering_mode.is_some()
            || self.flash.is_some()
    }
}

impl Clone for ExifMetadata {
    fn clone(&self) -> (copy: Self)
        ensures
            copy@ == self@,
    {
        ExifMetadata {
            date_taken: self.date_taken,
            rating: self.rating,
            camera_maker: copy_text(&self.camera_maker),
            camera_model: copy_text(&self.camera_model),
            f_stop: self.f_stop,
            exposure_time_seconds: self.exposure_time_seconds,
            iso_speed: self.iso_speed,
            exposure_bias: self.exposure_bias,
            focal_length_millimeters: self.focal_length_millimeters,
            maximum_aperture: self.maximum_aperture,
            metering_mode: self.metering_mode,
            flash: self.flash,
        }
    }
}

/// Gain map parameters, one value per color plane, each as the bits of a float.
#[derive(Clone, Copy, PartialEq, Eq, Debug)]
pub struct GainMapMetadata {
    pub gain_map_minimum: (u32, u32, u32),
    pub gain_map_maximum: (u32, u32, u32),
    pub gamma: (u32, u32, u32),
    pub offset_sdr: (u32, u32, u32),
    pub offset_hdr: (u32, u32, u32),
    pub hdr_capacity_minimum: u32,
    pub hdr_capacity_maximum: u32,
    pub base_rendition_is_hdr: bool,
}

/// The gain map decoded to BGRA pixels, kept beside the base frame until upload.
pub struct GainMapPlane {
    pub width: u32,
    pub height: u32,
    pub pixels: Vec<u8>,
}

#[verifier::ext_equal]
pub struct PlaneModel {
    pub width: u32,
    pub height: u32,
    pub pixels: Seq<u8>,
}

impl View for GainMapPlane {
    type V = PlaneModel;

    open spec fn view(&self) -> PlaneModel {
        PlaneModel { width: self.width, height: self.height, pixels: self.pixels@ }
    }
}

impl GainMapPlane {
    /// The gain map stays at or below the base size; anything larger is corrupt.
    pub fn size_fits_within(
        width: u32,
        height: u32,
        base_width: u32,
        base_height: u32,
    ) -> (fits: bool)
        ensures
            fits == (0 < width <= base_width && 0 < height <= base_height),
    {
        width > 0 && height > 0 && width <= base_width && height <= base_height
    }
}

/// CIE xy of the red, green and blue primaries, each coordinate as the bits of a float.
pub type PrimaryBits = ((u32, u32), (u32, u32), (u32, u32));

pub struct DecodedImage {
    pub width: u32,
    pub height: u32,
    pub pixel_width: u32,
    pub pixel_height: u32,
    pub format_name: &'static str,
    pub icc_profile: Option<Vec<u8>>,
    pub exif: Option<ExifMetadata>,
    pub storage: PixelStorage,
    /// Meaningful bits per channel of the decoded pixels (8 for Bgra8 storage).
    pub source_bits_per_channel: u32,
    /// Content peak in nits, as the bits of a float.
    pub peak_luminance_nits: Option<u32>,
    /// The source primaries when the file states them; None means unknown.
    pub source_primaries: Option<PrimaryBits>,
    pub frames: Vec<Frame>,
    /// The animation would expand past the byte limit; only the first frame is kept.
    pub frames_truncated: bool,
    /// Ultra HDR gain map parameters, when the file carries one.
    pub gain_map: Option<GainMapMetadata>,
    /// The decoded gain map pixels; released with the frames once a texture holds them.
    pub gain_map_plane: Option<GainMapPlane>,
}

#[verifier::ext_equal]
pub struct ImageModel {
    pub width: u32,
    pub height: u32,
    pub pixel_width: u32,
    pub pixel_height: u32,
    pub format_name: Seq<char>,
    pub icc_profile: Option<Seq<u8>>,
    pub exif: Option<ExifModel>,
    pub storage: PixelStorage,
    pub source_bits_per_channel: u32,
    pub peak_luminance_nits: Option<u32>,
    pub source_primaries: Option<PrimaryBits>,
    pub frames: Seq<FrameModel>,
    pub frames_truncated: bool,
    pub gain_map: Option<GainMapMetadata>,
    pub gain_map_plane: Option<PlaneModel>,
}

/// The bytes an optional profile holds.
pub open spec fn optional_bytes(bytes: Option<Vec<u8>>) -> Option<Seq<u8>> {
    match bytes {
        Some(found) => Some(found@),
        None => None,
    }
}

impl View for DecodedImage {
    type V = ImageModel;

    open spec fn view(&self) -> ImageModel {
        ImageModel {
            width: self.width,
            height: self.height,
            pixel_width: self.pixel_width,
            pixel_height: self.pixel_height,
            format_name: self.format_name@,
            icc_profile: optional_bytes(self.icc_profile),
            exif: match self.exif {
                Some(exif) => Some(exif@),
                None => None,
            },
            storage: self.storage,
            source_bits_per_channel: self.source_bits_per_channel,
            peak_luminance_nits: self.peak_luminance_nits,
            source_primaries: self.source_primaries,
            frames: frames_model(self.frames@),
            frames_truncated: self.frames_truncated,
            gain_map: self.gain_map,
            gain_map_plane: match self.gain_map_plane {
                Some(plane) => Some(plane@),
                None => None,
            },
        }
    }
}

/// Pixel bytes of all frames together.
pub open spec fn frames_bytes(frames: Seq<FrameModel>) -> nat
    decreases frames.len(),
{
    if frames.len() == 0 {
        0
    } else {
        frames_bytes(frames.drop_last()) + frames.last().pixels.len()
    }
}

impl ImageModel {
    /// Bytes the image holds: its frames and its gain map plane.
    pub open spec fn pixel_bytes(self) -> nat {
        frames_bytes(self.frames) + match self.gain_map_plane {
            Some(plane) => plane.pixels.len(),
            None => 0,
        }
    }

    /// Bytes per row of a frame.
    pub open spec fn row_pitch(self) -> int {
        self.pixel_width * self.storage.pixel_size()
    }

    /// Bytes of one frame.
    pub open spec fn frame_byte_length(self) -> int {
        self.row_pitch() * self.pixel_height
    }

    /// What the machine can address: the bytes held and the bytes of a row and of a frame.
    pub open spec fn addressable(self) -> bool {
        &&& self.pixel_bytes() <= usize::MAX
        &&& self.row_pitch() <= u32::MAX
        &&& self.frame_byte_length() <= usize::MAX
    }

    /// The image with its pixels released; everything else stays.
    pub open spec fn without_pixels(self) -> ImageModel {
        ImageModel {
            frames: self.frames.map_values(
                |frame: FrameModel|
                    FrameModel {
                        pixels: Seq::empty(),
                        delay_milliseconds: frame.delay_milliseconds,
                    },
            ),
            gain_map_plane: None,
            ..self
        }
    }
}

impl ImageModel {
    /// The image with its pixels released but for the first frame's, which are these.
    pub open spec fn with_first_pixels(self, pixels: Seq<u8>) -> ImageModel {
        let slim = self.without_pixels();
        if slim.frames.len() == 0 {
            slim
        } else {
            ImageModel {
                frames: slim.frames.update(
                    0,
                    FrameModel {
                        pixels,
                        delay_milliseconds: slim.frames[0].delay_milliseconds,
                    },
                ),
                ..slim
            }
        }
    }
}

/// Bytes of the frames once the first one's pixels, which were none, are these.
proof fn lemma_first_pixels_weigh(frames: Seq<FrameModel>, first: FrameModel)
    requires
        frames.len() > 0,
        forall|index: int| 0 <= index < frames.len() ==> (#[trigger] frames[index]).pixels.len() == 0,
    ensures
        frames_bytes(frames.update(0, first)) == first.pixels.len(),
    decreases frames.len(),
{
    let changed = frames.update(0, first);
    if frames.len() == 1 {
        assert(changed.drop_last() =~= Seq::<FrameModel>::empty());
        assert(frames_bytes(changed.drop_last()) == 0);
    } else {
        assert(changed.drop_last() =~= frames.drop_last().update(0, first));
        lemma_first_pixels_weigh(frames.drop_last(), first);
        assert(changed.last() == frames[frames.len() - 1]);
    }
}

/// An image read back holds the bytes read, where it has a frame to hold them.
pub proof fn lemma_read_back_pixels_weigh(image: ImageModel, pixels: Seq<u8>)
    ensures
        image.with_first_pixels(pixels).pixel_bytes() == (if image.frames.len() > 0 {
            pixels.len()
        } else {
            0
        }),
        image.with_first_pixels(pixels).frame_byte_length() == image.frame_byte_length(),
        image.addressable() && pixels.len() <= usize::MAX ==> image.with_first_pixels(
            pixels,
        ).addressable(),
{
    let slim = image.without_pixels();
    lemma_released_pixels_are_gone(image);
    if slim.frames.len() > 0 {
        lemma_first_pixels_weigh(
            slim.frames,
            FrameModel { pixels, delay_milliseconds: slim.frames[0].delay_milliseconds },
        );
    }
}

proof fn lemma_frames_bytes_grow(frames: Seq<FrameModel>, count: int)
    requires
        0 <= count <= frames.len(),
    ensures
        frames_bytes(frames.take(count)) <= frames_bytes(frames),
    decreases frames.len(),
{
    if count < frames.len() {
        assert(frames.drop_last().take(count) =~= frames.take(count));
        lemma_frames_bytes_grow(frames.drop_last(), count);
    } else {
        assert(frames.take(count) =~= frames);
    }
}

proof fn lemma_no_pixels_no_bytes(frames: Seq<FrameModel>)
    requires
        forall|index: int| 0 <= index < frames.len() ==> (#[trigger] frames[index]).pixels.len() == 0,
    ensures
        frames_bytes(frames) == 0,
    decreases frames.len(),
{
    if frames.len() > 0 {
        lemma_no_pixels_no_bytes(frames.drop_last());
    }
}

/// Releasing the pixels leaves none behind, keeps the geometry, and doing it twice changes
/// nothing.
pub proof fn lemma_released_pixels_are_gone(image: ImageModel)
    ensures
        image.without_pixels().pixel_bytes() == 0,
        image.without_pixels().frame_byte_length() == image.frame_byte_length(),
        image.without_pixels().frames.len() == image.frames.len(),
        image.without_pixels().without_pixels() == image.without_pixels(),
        image.addressable() ==> image.without_pixels().addressable(),
{
    lemma_no_pixels_no_bytes(image.without_pixels().frames);
    assert(image.without_pixels().without_pixels() =~= image.without_pixels());
}

impl DecodedImage {
    /// Bytes the image holds: its frames and its gain map plane.
    pub fn pixel_bytes(&self) -> (bytes: usize)
        requires
            self@.pixel_bytes() <= usize::MAX,
        ensures
            bytes == self@.pixel_bytes(),
    {
        let mut bytes: usize = match &self.gain_map_plane {
            Some(plane) => plane.pixels.len(),
            None => 0,
        };
        let ghost plane_bytes = bytes as int;
        let mut index: usize = 0;
        while index < self.frames.len()
            invariant
                index <= self.frames.len(),
                self@.pixel_bytes() == frames_bytes(self@.frames) + plane_bytes,
                self@.pixel_bytes() <= usize::MAX,
                bytes == plane_bytes + frames_bytes(self@.frames.take(index as int)),
            decreases self.frames.len() - index,
        {
            proof {
                assert(self@.frames.take(index + 1).drop_last() =~= self@.frames.take(
                    index as int,
                ));
                lemma_frames_bytes_grow(self@.frames, index + 1);
            }
            bytes += self.frames[index].pixels.len();
            index += 1;
        }
        assert(self@.frames.take(index as int) =~= self@.frames);
        bytes
    }

    /// Bytes per row of a frame; the texture pitch and the buffer stride alike.
    pub fn row_pitch(&self) -> (bytes: u32)
        requires
            self@.row_pitch() <= u32::MAX,
        ensures
            bytes == self@.row_pitch(),
    {
        self.pixel_width * self.storage.bytes_per_pixel()
    }

    pub fn frame_byte_length(&self) -> (bytes: usize)
        requires
            self@.row_pitch() <= u32::MAX,
            self@.frame_byte_length() <= usize::MAX,
        ensures
            bytes == self@.frame_byte_length(),
    {
        self.row_pitch() as usize * self.pixel_height as usize
    }

    /// The metadata with pixels released; a texture is the only copy afterward.
    pub fn without_pixels(&self) -> (slim: Self)
        ensures
            slim@ == self@.without_pixels(),
    {
        let mut frames: Vec<Frame> = Vec::new();
        let mut index: usize = 0;
        while index < self.frames.len()
            invariant
                index <= self.frames.len(),
                frames_model(frames@) == self@.without_pixels().frames.take(index as int),
            decreases self.frames.len() - index,
        {
            let frame = Frame {
                pixels: Vec::new(),
                delay_milliseconds: self.frames[index].delay_milliseconds,
            };
            let ghost before = frames@;
            frames.push(frame);
            index += 1;
            proof {
                assert(frame@ =~= self@.without_pixels().frames[index - 1]);
                assert(frames_model(frames@) =~= frames_model(before).push(frame@));
                assert(frames_model(frames@) =~= self@.without_pixels().frames.take(
                    index as int,
                ));
            }
        }
        let icc_profile = match &self.icc_profile {
            Some(profile) => {
                let copy = profile.clone();
                assert(copy@ =~= profile@);
                Some(copy)
            },
            None => None,
        };
        let slim = DecodedImage {
            width: self.width,
            height: self.height,
            pixel_width: self.pixel_width,
            pixel_height: self.pixel_height,
            format_name: self.format_name,
            icc_profile,
            exif: match &self.exif {
                Some(exif) => Some(exif.clone()),
                None => None,
            },
            storage: self.storage,
            source_bits_per_channel: self.source_bits_per_channel,
            peak_luminance_nits: self.peak_luminance_nits,
            source_primaries: self.source_primaries,
            frames,
            frames_truncated: self.frames_truncated,
            gain_map: self.gain_map,
            gain_map_plane: None,
        };
        assert(slim@ =~= self@.without_pixels());
        slim
    }
}

impl DecodedImage {
    /// The image with its pixels released but for the first frame's, which are these.
    pub fn with_first_pixels(&self, pixels: Vec<u8>) -> (restored: Self)
        ensures
            restored@ == self@.with_first_pixels(pixels@),
    {
        let mut restored = self.without_pixels();
        let ghost slim = restored@;
        if restored.frames.len() > 0 {
            let delay_milliseconds = restored.frames[0].delay_milliseconds;
            let first = Frame { pixels, delay_milliseconds };
            restored.frames.set(0, first);
            assert(restored@.frames =~= slim.frames.update(0, first@));
            assert(restored@ =~= self@.with_first_pixels(pixels@));
        }
        restored
    }

    /// Whether the machine can address the bytes held, a row and a frame.
    pub fn is_addressable(&self) -> (fits: bool)
        ensures
            fits == self@.addressable(),
    {
        let mut total: usize = match &self.gain_map_plane {
            Some(plane) => plane.pixels.len(),
            None => 0,
        };
        let ghost plane_bytes = total as int;
        let mut index: usize = 0;
        while index < self.frames.len()
            invariant
                index <= self.frames.len(),
                self@.pixel_bytes() == frames_bytes(self@.frames) + plane_bytes,
                total == plane_bytes + frames_bytes(self@.frames.take(index as int)),
            decreases self.frames.len() - index,
        {
            proof {
                assert(self@.frames.take(index + 1).drop_last() =~= self@.frames.take(
                    index as int,
                ));
                lemma_frames_bytes_grow(self@.frames, index + 1);
            }
            match total.checked_add(self.frames[index].pixels.len()) {
                Some(sum) => total = sum,
                None => {
                    return false;
                },
            }
            index += 1;
        }
        assert(self@.frames.take(index as int) =~= self@.frames);
        let pitch = match self.pixel_width.checked_mul(self.storage.bytes_per_pixel()) {
            Some(pitch) => pitch,
            None => {
                return false;
            },
        };
        assert(pitch == self@.row_pitch());
        assert(pitch * self.pixel_height <= u32::MAX * u32::MAX) by (nonlinear_arith)
            requires
                pitch <= u32::MAX,
                self.pixel_height <= u32::MAX,
        ;
        let length: u64 = pitch as u64 * self.pixel_height as u64;
        assert(length == self@.frame_byte_length());
        length <= usize::MAX as u64
    }
}

/// A texture uploaded off the UI thread, usable only while its generation is current.
#[derive(Clone, Copy, PartialEq, Eq, Structural, Debug)]
pub struct UploadedTexture {
    /// What the renderer finds the texture under.
    pub texture: u64,
    /// What it finds the gain map under that was uploaded beside it.
    pub gain_map: Option<u64>,
    pub generation: u64,
}

/// The device textures are uploaded through.
#[derive(Clone, Copy, PartialEq, Eq, Structural, Debug)]
pub struct UploadDevice {
    pub generation: u64,
    /// This adapter's per-resource ceiling; larger frames stay on the UI-thread path.
    pub maximum_frame_bytes: u64,
}

/// The code of a cancelled decode (`E_ABORT`).
pub const CANCELLED_CODE: i32 = -2147467260;

/// No codec recognizes the data (`WINCODEC_ERR_COMPONENTNOTFOUND`).
pub const COMPONENT_NOT_FOUND_CODE: i32 = -2003292336;

/// A codec is registered but broken (`WINCODEC_ERR_COMPONENTINITIALIZEFAILURE`).
pub const COMPONENT_INITIALIZE_FAILURE_CODE: i32 = -2003292277;

/// No video codec for the data (`MF_E_TOPO_CODEC_NOT_FOUND`).
pub const CODEC_NOT_FOUND_CODE: i32 = -1072868846;

pub struct DecodeError {
    pub code: i32,
    pub message: String,
    pub store_codec_names: Vec<&'static str>,
}

#[verifier::ext_equal]
pub struct ErrorModel {
    pub code: i32,
    pub message: Seq<char>,
    pub store_codec_names: Seq<Seq<char>>,
}

impl View for DecodeError {
    type V = ErrorModel;

    open spec fn view(&self) -> ErrorModel {
        ErrorModel {
            code: self.code,
            message: self.message@,
            store_codec_names: strings::texts(self.store_codec_names@),
        }
    }
}

impl ErrorModel {
    pub open spec fn is_cancelled(self) -> bool {
        self.code == CANCELLED_CODE
    }

    /// No decoder recognized the data and no Store codec is named.
    pub open spec fn is_unrecognized_format(self) -> bool {
        self.code == COMPONENT_NOT_FOUND_CODE && self.store_codec_names.len() == 0
    }
}

/// The error with this message and no code.
pub open spec fn uncoded(message: Seq<char>) -> ErrorModel {
    ErrorModel { code: 0, message, store_codec_names: Seq::empty() }
}

/// The error a cancelled decode ends in.
pub open spec fn cancelled_error() -> ErrorModel {
    ErrorModel {
        code: CANCELLED_CODE,
        message: "cancelled"@,
        store_codec_names: Seq::empty(),
    }
}

impl Clone for DecodeError {
    fn clone(&self) -> (copy: Self)
        ensures
            copy@ == self@,
    {
        let names = self.store_codec_names.clone();
        assert(strings::texts(names@) =~= strings::texts(self.store_codec_names@));
        DecodeError { code: self.code, message: self.message.clone(), store_codec_names: names }
    }
}

impl DecodeError {
    pub fn cancelled() -> (error: Self)
        ensures
            error@ == cancelled_error(),
    {
        let error = DecodeError {
            code: CANCELLED_CODE,
            message: "cancelled".to_owned(),
            store_codec_names: Vec::new(),
        };
        assert(error@ =~= cancelled_error());
        error
    }

    pub fn is_cancelled(&self) -> (cancelled: bool)
        ensures
            cancelled == self@.is_cancelled(),
    {
        self.code == CANCELLED_CODE
    }

    /// True when no decoder recognized the data and no Store codec is named.
    pub fn is_unrecognized_format(&self) -> (unrecognized: bool)
        ensures
            unrecognized == self@.is_unrecognized_format(),
    {
        self.code == COMPONENT_NOT_FOUND_CODE && self.store_codec_names.len() == 0
    }
}

/// Code 0 means "no code", not a real one; the error overlay omits it.
pub fn uncoded_error(message: &str) -> (error: DecodeError)
    ensures
        error@ == uncoded(message@),
{
    let error = DecodeError {
        code: 0,
        message: message.to_owned(),
        store_codec_names: Vec::new(),
    };
    assert(error@ =~= uncoded(message@));
    error
}

/// What downloaded bytes that no decoder recognizes are answered: an HTML page, most often.
pub open spec fn url_error(error: ErrorModel) -> ErrorModel {
    if error.is_unrecognized_format() {
        ErrorModel { message: "No image at this URL"@, ..error }
    } else {
        error
    }
}

/// Unrecognized downloaded bytes get a plain message; every other error stays.
pub fn url_decode_error(error: DecodeError) -> (reported: DecodeError)
    ensures
        reported@ == url_error(error@),
{
    if error.is_unrecognized_format() {
        DecodeError {
            code: error.code,
            message: "No image at this URL".to_owned(),
            store_codec_names: error.store_codec_names,
        }
    } else {
        error
    }
}

/// Failures a Store codec can remedy: the codec is absent, or registered but broken.
pub fn is_missing_codec_error(code: i32) -> (missing: bool)
    ensures
        missing == (code == COMPONENT_NOT_FOUND_CODE || code == COMPONENT_INITIALIZE_FAILURE_CODE
            || code == CODEC_NOT_FOUND_CODE),
{
    code == COMPONENT_NOT_FOUND_CODE || code == COMPONENT_INITIALIZE_FAILURE_CODE || code
        == CODEC_NOT_FOUND_CODE
}

} // verus!
