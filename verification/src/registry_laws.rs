//! Laws of the format registry: its extensions tell the formats apart.

use vstd::prelude::*;

use crate::registry::{
    format_listing, format_of_extension, listed_extensions, ImageFormat, EXTENSIONS, FORMAT_ORDER,
};
use crate::text;

verus! {

/// An extension told apart by its length and four of its characters.
spec fn extension_key(extension: Seq<char>) -> int {
    extension.len() * 268435456 + (extension[0] as int) * 2097152 + (extension[1] as int) * 16384 + (
    extension[2] as int) * 128 + (extension.last() as int)
}

/// The row whose extension has this key.
spec fn row_of_key(key: int) -> int {
    if key == 1042002919 {
        0
    } else if key == 1279014759 {
        1
    } else if key == 1048425447 {
        2
    } else if key == 1316860922 {
        3
    } else if key == 1029452517 {
        4
    } else if key == 1297887975 {
        5
    } else if key == 1029452775 {
        6
    } else if key == 1023046502 {
        7
    } else if key == 1324970352 {
        8
    } else if key == 1012627568 {
        9
    } else if key == 1016754530 {
        10
    } else if key == 1027143663 {
        11
    } else if key == 1318744934 {
        12
    } else if key == 1050309478 {
        13
    } else if key == 1016674803 {
        14
    } else if key == 1293513955 {
        15
    } else if key == 1293513958 {
        16
    } else if key == 1025143654 {
        17
    } else if key == 1019099506 {
        18
    } else if key == 1279112422 {
        19
    } else if key == 1029584492 {
        20
    } else if key == 1029585266 {
        21
    } else if key == 1056520304 {
        22
    } else if key == 1010613239 {
        23
    } else if key == 1014798642 {
        24
    } else if key == 1014798771 {
        25
    } else if key == 1014807543 {
        26
    } else if key == 1016837095 {
        27
    } else if key == 1018999654 {
        28
    } else if key == 1031352803 {
        29
    } else if key == 1035779063 {
        30
    } else if key == 1037661030 {
        31
    } else if key == 1037876215 {
        32
    } else if key == 1039971174 {
        33
    } else if key == 1041855334 {
        34
    } else if key == 1045984102 {
        35
    } else if key == 1045986295 {
        36
    } else if key == 1046337842 {
        37
    } else if key == 1046345324 {
        38
    } else if key == 1048353074 {
        39
    } else if key == 1048361975 {
        40
    } else if key == 1057813350 {
        41
    } else {
        -1
    }
}

spec fn is_lower_case(extension: Seq<char>) -> bool {
    &&& 3 <= extension.len() <= 4
    &&& forall|index: int|
        0 <= index < extension.len() ==> 'a' <= #[trigger] extension[index] <= 'z' || '0'
            <= extension[index] <= '9'
}

proof fn lemma_drawn_extension(row: int)
    requires
        0 <= row < 14,
    ensures
        row_of_key(extension_key(EXTENSIONS@[row].0@)) == row,
        is_lower_case(EXTENSIONS@[row].0@),
        exists|place: int|
            0 <= place < FORMAT_ORDER@.len() && #[trigger] FORMAT_ORDER@[place] == EXTENSIONS@[row].1,
{
    let extension = EXTENSIONS@[row].0@;
    if row == 0 {
        reveal_strlit("png");
        assert(extension == "png"@);
        assert(extension.len() == 3 && extension[0] == 'p' && extension[1] == 'n' && extension[2] == 'g');
        assert(extension_key(extension) == 1042002919);
        assert(FORMAT_ORDER@[0] == ImageFormat::Png);
    } else if row == 1 {
        reveal_strlit("apng");
        assert(extension == "apng"@);
        assert(extension.len() == 4 && extension[0] == 'a' && extension[1] == 'p' && extension[2] == 'n' && extension[3] == 'g');
        assert(extension_key(extension) == 1279014759);
        assert(FORMAT_ORDER@[1] == ImageFormat::Apng);
    } else if row == 2 {
        reveal_strlit("svg");
        assert(extension == "svg"@);
        assert(extension.len() == 3 && extension[0] == 's' && extension[1] == 'v' && extension[2] == 'g');
        assert(extension_key(extension) == 1048425447);
        assert(FORMAT_ORDER@[2] == ImageFormat::Svg);
    } else if row == 3 {
        reveal_strlit("svgz");
        assert(extension == "svgz"@);
        assert(extension.len() == 4 && extension[0] == 's' && extension[1] == 'v' && extension[2] == 'g' && extension[3] == 'z');
        assert(extension_key(extension) == 1316860922);
        assert(FORMAT_ORDER@[2] == ImageFormat::Svg);
    } else if row == 4 {
        reveal_strlit("jpe");
        assert(extension == "jpe"@);
        assert(extension.len() == 3 && extension[0] == 'j' && extension[1] == 'p' && extension[2] == 'e');
        assert(extension_key(extension) == 1029452517);
        assert(FORMAT_ORDER@[3] == ImageFormat::Jpeg);
    } else if row == 5 {
        reveal_strlit("jpeg");
        assert(extension == "jpeg"@);
        assert(extension.len() == 4 && extension[0] == 'j' && extension[1] == 'p' && extension[2] == 'e' && extension[3] == 'g');
        assert(extension_key(extension) == 1297887975);
        assert(FORMAT_ORDER@[3] == ImageFormat::Jpeg);
    } else if row == 6 {
        reveal_strlit("jpg");
        assert(extension == "jpg"@);
        assert(extension.len() == 3 && extension[0] == 'j' && extension[1] == 'p' && extension[2] == 'g');
        assert(extension_key(extension) == 1029452775);
        assert(FORMAT_ORDER@[3] == ImageFormat::Jpeg);
    } else if row == 7 {
        reveal_strlit("gif");
        assert(extension == "gif"@);
        assert(extension.len() == 3 && extension[0] == 'g' && extension[1] == 'i' && extension[2] == 'f');
        assert(extension_key(extension) == 1023046502);
        assert(FORMAT_ORDER@[4] == ImageFormat::Gif);
    } else if row == 8 {
        reveal_strlit("webp");
        assert(extension == "webp"@);
        assert(extension.len() == 4 && extension[0] == 'w' && extension[1] == 'e' && extension[2] == 'b' && extension[3] == 'p');
        assert(extension_key(extension) == 1324970352);
        assert(FORMAT_ORDER@[5] == ImageFormat::WebP);
    } else if row == 9 {
        reveal_strlit("bmp");
        assert(extension == "bmp"@);
        assert(extension.len() == 3 && extension[0] == 'b' && extension[1] == 'm' && extension[2] == 'p');
        assert(extension_key(extension) == 1012627568);
        assert(FORMAT_ORDER@[6] == ImageFormat::Bmp);
    } else if row == 10 {
        reveal_strlit("dib");
        assert(extension == "dib"@);
        assert(extension.len() == 3 && extension[0] == 'd' && extension[1] == 'i' && extension[2] == 'b');
        assert(extension_key(extension) == 1016754530);
        assert(FORMAT_ORDER@[6] == ImageFormat::Bmp);
    } else if row == 11 {
        reveal_strlit("ico");
        assert(extension == "ico"@);
        assert(extension.len() == 3 && extension[0] == 'i' && extension[1] == 'c' && extension[2] == 'o');
        assert(extension_key(extension) == 1027143663);
        assert(FORMAT_ORDER@[7] == ImageFormat::Ico);
    } else if row == 12 {
        reveal_strlit("tiff");
        assert(extension == "tiff"@);
        assert(extension.len() == 4 && extension[0] == 't' && extension[1] == 'i' && extension[2] == 'f' && extension[3] == 'f');
        assert(extension_key(extension) == 1318744934);
        assert(FORMAT_ORDER@[8] == ImageFormat::Tiff);
    } else if row == 13 {
        reveal_strlit("tif");
        assert(extension == "tif"@);
        assert(extension.len() == 3 && extension[0] == 't' && extension[1] == 'i' && extension[2] == 'f');
        assert(extension_key(extension) == 1050309478);
        assert(FORMAT_ORDER@[8] == ImageFormat::Tiff);
    }
}

proof fn lemma_coded_extension(row: int)
    requires
        14 <= row < 28,
    ensures
        row_of_key(extension_key(EXTENSIONS@[row].0@)) == row,
        is_lower_case(EXTENSIONS@[row].0@),
        exists|place: int|
            0 <= place < FORMAT_ORDER@.len() && #[trigger] FORMAT_ORDER@[place] == EXTENSIONS@[row].1,
{
    let extension = EXTENSIONS@[row].0@;
    if row == 14 {
        reveal_strlit("dds");
        assert(extension == "dds"@);
        assert(extension.len() == 3 && extension[0] == 'd' && extension[1] == 'd' && extension[2] == 's');
        assert(extension_key(extension) == 1016674803);
        assert(FORMAT_ORDER@[9] == ImageFormat::Dds);
    } else if row == 15 {
        reveal_strlit("heic");
        assert(extension == "heic"@);
        assert(extension.len() == 4 && extension[0] == 'h' && extension[1] == 'e' && extension[2] == 'i' && extension[3] == 'c');
        assert(extension_key(extension) == 1293513955);
        assert(FORMAT_ORDER@[10] == ImageFormat::Heif);
    } else if row == 16 {
        reveal_strlit("heif");
        assert(extension == "heif"@);
        assert(extension.len() == 4 && extension[0] == 'h' && extension[1] == 'e' && extension[2] == 'i' && extension[3] == 'f');
        assert(extension_key(extension) == 1293513958);
        assert(FORMAT_ORDER@[10] == ImageFormat::Heif);
    } else if row == 17 {
        reveal_strlit("hif");
        assert(extension == "hif"@);
        assert(extension.len() == 3 && extension[0] == 'h' && extension[1] == 'i' && extension[2] == 'f');
        assert(extension_key(extension) == 1025143654);
        assert(FORMAT_ORDER@[10] == ImageFormat::Heif);
    } else if row == 18 {
        reveal_strlit("exr");
        assert(extension == "exr"@);
        assert(extension.len() == 3 && extension[0] == 'e' && extension[1] == 'x' && extension[2] == 'r');
        assert(extension_key(extension) == 1019099506);
        assert(FORMAT_ORDER@[11] == ImageFormat::Exr);
    } else if row == 19 {
        reveal_strlit("avif");
        assert(extension == "avif"@);
        assert(extension.len() == 4 && extension[0] == 'a' && extension[1] == 'v' && extension[2] == 'i' && extension[3] == 'f');
        assert(extension_key(extension) == 1279112422);
        assert(FORMAT_ORDER@[12] == ImageFormat::Avif);
    } else if row == 20 {
        reveal_strlit("jxl");
        assert(extension == "jxl"@);
        assert(extension.len() == 3 && extension[0] == 'j' && extension[1] == 'x' && extension[2] == 'l');
        assert(extension_key(extension) == 1029584492);
        assert(FORMAT_ORDER@[13] == ImageFormat::JpegXl);
    } else if row == 21 {
        reveal_strlit("jxr");
        assert(extension == "jxr"@);
        assert(extension.len() == 3 && extension[0] == 'j' && extension[1] == 'x' && extension[2] == 'r');
        assert(extension_key(extension) == 1029585266);
        assert(FORMAT_ORDER@[14] == ImageFormat::JpegXr);
    } else if row == 22 {
        reveal_strlit("wdp");
        assert(extension == "wdp"@);
        assert(extension.len() == 3 && extension[0] == 'w' && extension[1] == 'd' && extension[2] == 'p');
        assert(extension_key(extension) == 1056520304);
        assert(FORMAT_ORDER@[14] == ImageFormat::JpegXr);
    } else if row == 23 {
        reveal_strlit("arw");
        assert(extension == "arw"@);
        assert(extension.len() == 3 && extension[0] == 'a' && extension[1] == 'r' && extension[2] == 'w');
        assert(extension_key(extension) == 1010613239);
        assert(FORMAT_ORDER@[15] == ImageFormat::Raw);
    } else if row == 24 {
        reveal_strlit("cr2");
        assert(extension == "cr2"@);
        assert(extension.len() == 3 && extension[0] == 'c' && extension[1] == 'r' && extension[2] == '2');
        assert(extension_key(extension) == 1014798642);
        assert(FORMAT_ORDER@[15] == ImageFormat::Raw);
    } else if row == 25 {
        reveal_strlit("cr3");
        assert(extension == "cr3"@);
        assert(extension.len() == 3 && extension[0] == 'c' && extension[1] == 'r' && extension[2] == '3');
        assert(extension_key(extension) == 1014798771);
        assert(FORMAT_ORDER@[15] == ImageFormat::Raw);
    } else if row == 26 {
        reveal_strlit("crw");
        assert(extension == "crw"@);
        assert(extension.len() == 3 && extension[0] == 'c' && extension[1] == 'r' && extension[2] == 'w');
        assert(extension_key(extension) == 1014807543);
        assert(FORMAT_ORDER@[15] == ImageFormat::Raw);
    } else if row == 27 {
        reveal_strlit("dng");
        assert(extension == "dng"@);
        assert(extension.len() == 3 && extension[0] == 'd' && extension[1] == 'n' && extension[2] == 'g');
        assert(extension_key(extension) == 1016837095);
        assert(FORMAT_ORDER@[15] == ImageFormat::Raw);
    }
}

proof fn lemma_raw_extension(row: int)
    requires
        28 <= row < 42,
    ensures
        row_of_key(extension_key(EXTENSIONS@[row].0@)) == row,
        is_lower_case(EXTENSIONS@[row].0@),
        exists|place: int|
            0 <= place < FORMAT_ORDER@.len() && #[trigger] FORMAT_ORDER@[place] == EXTENSIONS@[row].1,
{
    let extension = EXTENSIONS@[row].0@;
    if row == 28 {
        reveal_strlit("erf");
        assert(extension == "erf"@);
        assert(extension.len() == 3 && extension[0] == 'e' && extension[1] == 'r' && extension[2] == 'f');
        assert(extension_key(extension) == 1018999654);
        assert(FORMAT_ORDER@[15] == ImageFormat::Raw);
    } else if row == 29 {
        reveal_strlit("kdc");
        assert(extension == "kdc"@);
        assert(extension.len() == 3 && extension[0] == 'k' && extension[1] == 'd' && extension[2] == 'c');
        assert(extension_key(extension) == 1031352803);
        assert(FORMAT_ORDER@[15] == ImageFormat::Raw);
    } else if row == 30 {
        reveal_strlit("mrw");
        assert(extension == "mrw"@);
        assert(extension.len() == 3 && extension[0] == 'm' && extension[1] == 'r' && extension[2] == 'w');
        assert(extension_key(extension) == 1035779063);
        assert(FORMAT_ORDER@[15] == ImageFormat::Raw);
    } else if row == 31 {
        reveal_strlit("nef");
        assert(extension == "nef"@);
        assert(extension.len() == 3 && extension[0] == 'n' && extension[1] == 'e' && extension[2] == 'f');
        assert(extension_key(extension) == 1037661030);
        assert(FORMAT_ORDER@[15] == ImageFormat::Raw);
    } else if row == 32 {
        reveal_strlit("nrw");
        assert(extension == "nrw"@);
        assert(extension.len() == 3 && extension[0] == 'n' && extension[1] == 'r' && extension[2] == 'w');
        assert(extension_key(extension) == 1037876215);
        assert(FORMAT_ORDER@[15] == ImageFormat::Raw);
    } else if row == 33 {
        reveal_strlit("orf");
        assert(extension == "orf"@);
        assert(extension.len() == 3 && extension[0] == 'o' && extension[1] == 'r' && extension[2] == 'f');
        assert(extension_key(extension) == 1039971174);
        assert(FORMAT_ORDER@[15] == ImageFormat::Raw);
    } else if row == 34 {
        reveal_strlit("pef");
        assert(extension == "pef"@);
        assert(extension.len() == 3 && extension[0] == 'p' && extension[1] == 'e' && extension[2] == 'f');
        assert(extension_key(extension) == 1041855334);
        assert(FORMAT_ORDER@[15] == ImageFormat::Raw);
    } else if row == 35 {
        reveal_strlit("raf");
        assert(extension == "raf"@);
        assert(extension.len() == 3 && extension[0] == 'r' && extension[1] == 'a' && extension[2] == 'f');
        assert(extension_key(extension) == 1045984102);
        assert(FORMAT_ORDER@[15] == ImageFormat::Raw);
    } else if row == 36 {
        reveal_strlit("raw");
        assert(extension == "raw"@);
        assert(extension.len() == 3 && extension[0] == 'r' && extension[1] == 'a' && extension[2] == 'w');
        assert(extension_key(extension) == 1045986295);
        assert(FORMAT_ORDER@[15] == ImageFormat::Raw);
    } else if row == 37 {
        reveal_strlit("rw2");
        assert(extension == "rw2"@);
        assert(extension.len() == 3 && extension[0] == 'r' && extension[1] == 'w' && extension[2] == '2');
        assert(extension_key(extension) == 1046337842);
        assert(FORMAT_ORDER@[15] == ImageFormat::Raw);
    } else if row == 38 {
        reveal_strlit("rwl");
        assert(extension == "rwl"@);
        assert(extension.len() == 3 && extension[0] == 'r' && extension[1] == 'w' && extension[2] == 'l');
        assert(extension_key(extension) == 1046345324);
        assert(FORMAT_ORDER@[15] == ImageFormat::Raw);
    } else if row == 39 {
        reveal_strlit("sr2");
        assert(extension == "sr2"@);
        assert(extension.len() == 3 && extension[0] == 's' && extension[1] == 'r' && extension[2] == '2');
        assert(extension_key(extension) == 1048353074);
        assert(FORMAT_ORDER@[15] == ImageFormat::Raw);
    } else if row == 40 {
        reveal_strlit("srw");
        assert(extension == "srw"@);
        assert(extension.len() == 3 && extension[0] == 's' && extension[1] == 'r' && extension[2] == 'w');
        assert(extension_key(extension) == 1048361975);
        assert(FORMAT_ORDER@[15] == ImageFormat::Raw);
    } else if row == 41 {
        reveal_strlit("x3f");
        assert(extension == "x3f"@);
        assert(extension.len() == 3 && extension[0] == 'x' && extension[1] == '3' && extension[2] == 'f');
        assert(extension_key(extension) == 1057813350);
        assert(FORMAT_ORDER@[15] == ImageFormat::Raw);
    }
}

proof fn lemma_extension_row(row: int)
    requires
        0 <= row < EXTENSIONS@.len(),
    ensures
        row_of_key(extension_key(EXTENSIONS@[row].0@)) == row,
        is_lower_case(EXTENSIONS@[row].0@),
        exists|place: int|
            0 <= place < FORMAT_ORDER@.len() && #[trigger] FORMAT_ORDER@[place] == EXTENSIONS@[row].1,
{
    if row < 14 {
        lemma_drawn_extension(row);
    } else if row < 28 {
        lemma_coded_extension(row);
    } else {
        lemma_raw_extension(row);
    }
}

/// No extension is listed twice.
pub proof fn lemma_extensions_are_listed_once(first: int, second: int)
    requires
        0 <= first < EXTENSIONS@.len(),
        0 <= second < EXTENSIONS@.len(),
        EXTENSIONS@[first].0@ == EXTENSIONS@[second].0@,
    ensures
        first == second,
{
    lemma_extension_row(first);
    lemma_extension_row(second);
}

/// Every extension is listed in lower case, so one that is not names no format.
pub proof fn lemma_extensions_are_lower_case(extension: Seq<char>)
    ensures
        format_of_extension(extension) is Some ==> text::lowered(extension) == extension,
{
    lemma_listing_row(extension, 0);
    if format_of_extension(extension) is Some {
        let row = choose|row: int|
            0 <= row < EXTENSIONS@.len() && (#[trigger] EXTENSIONS@[row]).0@ == extension
                && format_of_extension(extension) == Some(EXTENSIONS@[row].1);
        lemma_extension_row(row);
        assert(text::lowered(extension) =~= extension);
    }
}

proof fn lemma_listing_row(extension: Seq<char>, from: int)
    requires
        0 <= from <= EXTENSIONS@.len(),
    ensures
        match format_listing(extension, from) {
            Some(format) => exists|row: int|
                from <= row < EXTENSIONS@.len() && (#[trigger] EXTENSIONS@[row]).0@ == extension
                    && format == EXTENSIONS@[row].1,
            None => forall|row: int|
                from <= row < EXTENSIONS@.len() ==> (#[trigger] EXTENSIONS@[row]).0@ != extension,
        },
    decreases EXTENSIONS@.len() - from,
{
    if from < EXTENSIONS@.len() && EXTENSIONS@[from].0@ != extension {
        lemma_listing_row(extension, from + 1);
    }
}

proof fn lemma_listed_rows(format: ImageFormat, extension: Seq<char>, from: int)
    requires
        0 <= from <= EXTENSIONS@.len(),
    ensures
        format.extensions_from(from).contains(extension) <==> exists|row: int|
            from <= row < EXTENSIONS@.len() && (#[trigger] EXTENSIONS@[row]).0@ == extension
                && EXTENSIONS@[row].1 == format,
    decreases EXTENSIONS@.len() - from,
{
    if from < EXTENSIONS@.len() {
        lemma_listed_rows(format, extension, from + 1);
        let list = format.extensions_from(from);
        let rest = format.extensions_from(from + 1);
        if EXTENSIONS@[from].1 == format {
            assert(list == seq![EXTENSIONS@[from].0@] + rest);
            assert(list[0] == EXTENSIONS@[from].0@);
            if rest.contains(extension) {
                let index = rest.index_of(extension);
                assert(list[index + 1] == extension);
            }
            if list.contains(extension) && EXTENSIONS@[from].0@ != extension {
                let index = list.index_of(extension);
                assert(rest[index - 1] == extension);
            }
        }
    }
}

/// An extension has a format's name exactly when a group of that name lists it.
pub proof fn lemma_extension_names_its_group(extension: Seq<char>, name: Seq<char>)
    ensures
        (format_of_extension(extension) matches Some(format) && format.title() == name) <==> exists|
            place: int,
        |
            0 <= place < FORMAT_ORDER@.len() && (#[trigger] FORMAT_ORDER@[place]).title() == name
                && listed_extensions(FORMAT_ORDER@[place]).contains(extension),
{
    lemma_listing_row(extension, 0);
    if format_of_extension(extension) is Some {
        let found = format_of_extension(extension)->Some_0;
        let row = choose|row: int|
            0 <= row < EXTENSIONS@.len() && (#[trigger] EXTENSIONS@[row]).0@ == extension && found
                == EXTENSIONS@[row].1;
        lemma_extension_row(row);
        lemma_listed_rows(found, extension, 0);
        assert(listed_extensions(found).contains(extension));
        assert forall|place: int|
            0 <= place < FORMAT_ORDER@.len() && listed_extensions(
                #[trigger] FORMAT_ORDER@[place],
            ).contains(extension) implies FORMAT_ORDER@[place] == found by {
            lemma_listed_rows(FORMAT_ORDER@[place], extension, 0);
            let other = choose|other: int|
                0 <= other < EXTENSIONS@.len() && (#[trigger] EXTENSIONS@[other]).0@ == extension
                    && EXTENSIONS@[other].1 == FORMAT_ORDER@[place];
            lemma_extensions_are_listed_once(row, other);
        }
    } else {
        assert forall|place: int| 0 <= place < FORMAT_ORDER@.len() implies !listed_extensions(
            #[trigger] FORMAT_ORDER@[place],
        ).contains(extension) by {
            lemma_listed_rows(FORMAT_ORDER@[place], extension, 0);
        }
    }
}

/// An extension names the format whose files carry it, and no other extension names one.
pub proof fn lemma_extensions_name_their_formats(extension: Seq<char>)
    ensures
        match format_of_extension(extension) {
            Some(ImageFormat::Png) => extension == "png"@,
            Some(ImageFormat::Apng) => extension == "apng"@,
            Some(ImageFormat::Svg) => extension == "svg"@ || extension == "svgz"@,
            Some(ImageFormat::Jpeg) => extension == "jpe"@ || extension == "jpeg"@ || extension == "jpg"@,
            Some(ImageFormat::Gif) => extension == "gif"@,
            Some(ImageFormat::WebP) => extension == "webp"@,
            Some(ImageFormat::Bmp) => extension == "bmp"@ || extension == "dib"@,
            Some(ImageFormat::Ico) => extension == "ico"@,
            Some(ImageFormat::Tiff) => extension == "tiff"@ || extension == "tif"@,
            Some(ImageFormat::Dds) => extension == "dds"@,
            Some(ImageFormat::Heif) => extension == "heic"@ || extension == "heif"@ || extension == "hif"@,
            Some(ImageFormat::Exr) => extension == "exr"@,
            Some(ImageFormat::Avif) => extension == "avif"@,
            Some(ImageFormat::JpegXl) => extension == "jxl"@,
            Some(ImageFormat::JpegXr) => extension == "jxr"@ || extension == "wdp"@,
            Some(ImageFormat::Raw) => extension == "arw"@ || extension == "cr2"@ || extension == "cr3"@ || extension == "crw"@ || extension == "dng"@ || extension == "erf"@ || extension == "kdc"@ || extension == "mrw"@ || extension == "nef"@ || extension == "nrw"@ || extension == "orf"@ || extension == "pef"@ || extension == "raf"@ || extension == "raw"@ || extension == "rw2"@ || extension == "rwl"@ || extension == "sr2"@ || extension == "srw"@ || extension == "x3f"@,
            Some(_) => false,
            None => extension != "png"@ && extension != "apng"@ && extension != "svg"@ && extension != "svgz"@ && extension != "jpe"@ && extension != "jpeg"@ && extension != "jpg"@ && extension != "gif"@ && extension != "webp"@ && extension != "bmp"@ && extension != "dib"@ && extension != "ico"@ && extension != "tiff"@ && extension != "tif"@ && extension != "dds"@ && extension != "heic"@ && extension != "heif"@ && extension != "hif"@ && extension != "exr"@ && extension != "avif"@ && extension != "jxl"@ && extension != "jxr"@ && extension != "wdp"@ && extension != "arw"@ && extension != "cr2"@ && extension != "cr3"@ && extension != "crw"@ && extension != "dng"@ && extension != "erf"@ && extension != "kdc"@ && extension != "mrw"@ && extension != "nef"@ && extension != "nrw"@ && extension != "orf"@ && extension != "pef"@ && extension != "raf"@ && extension != "raw"@ && extension != "rw2"@ && extension != "rwl"@ && extension != "sr2"@ && extension != "srw"@ && extension != "x3f"@,
        },
{
    lemma_listing_row(extension, 0);

    assert(EXTENSIONS@[0].0@ == "png"@);
    assert(EXTENSIONS@[1].0@ == "apng"@);
    assert(EXTENSIONS@[2].0@ == "svg"@);
    assert(EXTENSIONS@[3].0@ == "svgz"@);
    assert(EXTENSIONS@[4].0@ == "jpe"@);
    assert(EXTENSIONS@[5].0@ == "jpeg"@);
    assert(EXTENSIONS@[6].0@ == "jpg"@);
    assert(EXTENSIONS@[7].0@ == "gif"@);
    assert(EXTENSIONS@[8].0@ == "webp"@);
    assert(EXTENSIONS@[9].0@ == "bmp"@);
    assert(EXTENSIONS@[10].0@ == "dib"@);
    assert(EXTENSIONS@[11].0@ == "ico"@);
    assert(EXTENSIONS@[12].0@ == "tiff"@);
    assert(EXTENSIONS@[13].0@ == "tif"@);
    assert(EXTENSIONS@[14].0@ == "dds"@);
    assert(EXTENSIONS@[15].0@ == "heic"@);
    assert(EXTENSIONS@[16].0@ == "heif"@);
    assert(EXTENSIONS@[17].0@ == "hif"@);
    assert(EXTENSIONS@[18].0@ == "exr"@);
    assert(EXTENSIONS@[19].0@ == "avif"@);
    assert(EXTENSIONS@[20].0@ == "jxl"@);
    assert(EXTENSIONS@[21].0@ == "jxr"@);
    assert(EXTENSIONS@[22].0@ == "wdp"@);
    assert(EXTENSIONS@[23].0@ == "arw"@);
    assert(EXTENSIONS@[24].0@ == "cr2"@);
    assert(EXTENSIONS@[25].0@ == "cr3"@);
    assert(EXTENSIONS@[26].0@ == "crw"@);
    assert(EXTENSIONS@[27].0@ == "dng"@);
    assert(EXTENSIONS@[28].0@ == "erf"@);
    assert(EXTENSIONS@[29].0@ == "kdc"@);
    assert(EXTENSIONS@[30].0@ == "mrw"@);
    assert(EXTENSIONS@[31].0@ == "nef"@);
    assert(EXTENSIONS@[32].0@ == "nrw"@);
    assert(EXTENSIONS@[33].0@ == "orf"@);
    assert(EXTENSIONS@[34].0@ == "pef"@);
    assert(EXTENSIONS@[35].0@ == "raf"@);
    assert(EXTENSIONS@[36].0@ == "raw"@);
    assert(EXTENSIONS@[37].0@ == "rw2"@);
    assert(EXTENSIONS@[38].0@ == "rwl"@);
    assert(EXTENSIONS@[39].0@ == "sr2"@);
    assert(EXTENSIONS@[40].0@ == "srw"@);
    assert(EXTENSIONS@[41].0@ == "x3f"@);
}

} // verus!
