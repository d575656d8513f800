//! Variants of image files: compressed and converted copies beside the original.
use crate::sequence::{insert_ordered, lemma_insert_ordered, sort_ordered};
use crate::text::{
    chars_of, concat2, contains, ends_with, finishes_with, is_digit, occurs_in, owned, result_view,
    same, string_between,
};
use vstd::prelude::*;

verus! {

/// The largest media file that is handled, in bytes.
pub const MAX_MEDIA_ASSET_BYTES: u64 = 536_870_912;

/// The digits of the time stamp in the name of a variant.
pub const STAMP_DIGITS: usize = 14;

// ---------------------------------------------------------------------------
// Names
// ---------------------------------------------------------------------------

/// The grades that mark a variant.
pub open spec fn is_grade(s: Seq<char>) -> bool {
    ||| s == "lossless"@
    ||| s == "q80"@
    ||| s == "q60"@
    ||| s == "jpg"@
    ||| s == "png"@
    ||| s == "webp"@
    ||| s == "bmp"@
    ||| s == "gif"@
}

/// The length of the mark, with the dash before it, at the end of a name.
pub open spec fn grade_length(head: Seq<char>) -> Option<int> {
    if finishes_with(head, "-lossless"@) {
        Some(9)
    } else if finishes_with(head, "-webp"@) {
        Some(5)
    } else if finishes_with(head, "-q80"@) || finishes_with(head, "-q60"@) || finishes_with(
        head,
        "-jpg"@,
    ) || finishes_with(head, "-png"@) || finishes_with(head, "-bmp"@) || finishes_with(
        head,
        "-gif"@,
    ) {
        Some(4)
    } else {
        None
    }
}

/// Whether a text ends with a dash and the digits of a time stamp.
pub open spec fn ends_with_stamp(s: Seq<char>) -> bool {
    &&& s.len() > STAMP_DIGITS
    &&& s[s.len() - STAMP_DIGITS - 1] == '-'
    &&& forall|i: int| s.len() - STAMP_DIGITS <= i < s.len() ==> is_digit(#[trigger] s[i])
}

/// The name of the original of a file: without the mark and the time stamp of a variant.
pub open spec fn original_of(s: Seq<char>) -> Seq<char> {
    if ends_with_stamp(s) {
        let head = s.subrange(0, s.len() - STAMP_DIGITS - 1);
        match grade_length(head) {
            Some(n) => head.subrange(0, head.len() - n),
            None => s,
        }
    } else {
        s
    }
}

fn stamp_at_end(cs: &Vec<char>) -> (r: bool)
    ensures
        r == ends_with_stamp(cs@),
{
    if cs.len() <= STAMP_DIGITS {
        return false;
    }
    let start: usize = cs.len() - STAMP_DIGITS;
    if cs[start - 1] != '-' {
        return false;
    }
    let mut i: usize = start;
    while i < cs.len()
        invariant
            start == cs.len() - STAMP_DIGITS,
            start <= i <= cs.len(),
            forall|j: int| start <= j < i ==> is_digit(#[trigger] cs@[j]),
        decreases cs.len() - i,
    {
        if !('0' <= cs[i] && cs[i] <= '9') {
            assert(!is_digit(cs@[i as int]));
            return false;
        }
        i += 1;
    }
    true
}

/// The name of the original of a file.
pub fn original_stem(file_stem: &str) -> (r: String)
    ensures
        r@ == original_of(file_stem@),
{
    let cs = chars_of(file_stem);
    if !stamp_at_end(&cs) {
        return owned(file_stem);
    }
    proof {
        reveal_strlit("-lossless");
        reveal_strlit("-webp");
        reveal_strlit("-q80");
        reveal_strlit("-q60");
        reveal_strlit("-jpg");
        reveal_strlit("-png");
        reveal_strlit("-bmp");
        reveal_strlit("-gif");
        assert("-lossless"@.len() == 9 && "-webp"@.len() == 5 && "-q80"@.len() == 4);
        assert("-q60"@.len() == 4 && "-jpg"@.len() == 4 && "-png"@.len() == 4);
        assert("-bmp"@.len() == 4 && "-gif"@.len() == 4);
    }
    let size: usize = cs.len() - STAMP_DIGITS - 1;
    let text = string_between(&cs, 0, size);
    let head = text.as_str();
    let mark: usize = if ends_with(head, "-lossless") {
        9
    } else if ends_with(head, "-webp") {
        5
    } else if ends_with(head, "-q80") || ends_with(head, "-q60") || ends_with(head, "-jpg")
        || ends_with(head, "-png") || ends_with(head, "-bmp") || ends_with(head, "-gif") {
        4
    } else {
        return owned(file_stem);
    };
    let r = string_between(&cs, 0, size - mark);
    assert(r@ =~= text@.subrange(0, text@.len() - mark));
    r
}

/// The name of a variant without its extension.
pub open spec fn variant_stem(origin: Seq<char>, grade: Seq<char>, stamp: Seq<char>) -> Seq<char> {
    origin + "-"@ + grade + "-"@ + stamp
}

/// The name of a variant.
pub fn variant_file_name(origin: &str, grade: &str, stamp: &str, extension: &str) -> (r: String)
    ensures
        r@ == variant_stem(origin@, grade@, stamp@) + "."@ + extension@,
{
    let mut out = owned(origin);
    out.append("-");
    out.append(grade);
    out.append("-");
    out.append(stamp);
    out.append(".");
    out.append(extension);
    out
}

/// The original of a variant is the file that it was made from, where its time stamp has
/// fourteen digits.
pub proof fn variant_names_lead_back(origin: Seq<char>, grade: Seq<char>, stamp: Seq<char>)
    requires
        is_grade(grade),
        stamp.len() == STAMP_DIGITS,
        forall|i: int| 0 <= i < stamp.len() ==> is_digit(#[trigger] stamp[i]),
    ensures
        original_of(variant_stem(origin, grade, stamp)) == origin,
{
    reveal_strlit("-");
    reveal_strlit("lossless");
    reveal_strlit("q80");
    reveal_strlit("q60");
    reveal_strlit("jpg");
    reveal_strlit("png");
    reveal_strlit("webp");
    reveal_strlit("bmp");
    reveal_strlit("gif");
    reveal_strlit("-lossless");
    reveal_strlit("-webp");
    reveal_strlit("-q80");
    reveal_strlit("-q60");
    reveal_strlit("-jpg");
    reveal_strlit("-png");
    reveal_strlit("-bmp");
    reveal_strlit("-gif");
    let dash = "-"@;
    assert(dash =~= seq!['-']);
    let s = variant_stem(origin, grade, stamp);
    let head = origin + dash + grade;
    assert(s =~= head + dash + stamp);
    assert(s.len() == head.len() + 15);
    assert forall|i: int| s.len() - STAMP_DIGITS <= i < s.len() implies is_digit(
        #[trigger] s[i],
    ) by {
        assert(s[i] == stamp[i - head.len() - 1]);
    }
    assert(s[head.len() as int] == '-');
    assert(s.subrange(0, s.len() - STAMP_DIGITS - 1) =~= head);
    let n = grade.len() as int;
    assert(head.subrange(0, head.len() - n - 1) =~= origin);
    let tail = head.subrange(head.len() - n - 1, head.len() as int);
    assert(tail =~= dash + grade);
    let last = grade[n - 1];
    assert(head[head.len() - 1] == last);
    lemma_mark(head, grade);
}

proof fn lemma_mark(head: Seq<char>, grade: Seq<char>)
    requires
        is_grade(grade),
        finishes_with(head, "-"@ + grade),
    ensures
        grade_length(head) == Some(grade.len() + 1int),
{
    reveal_strlit("-");
    reveal_strlit("lossless");
    reveal_strlit("q80");
    reveal_strlit("q60");
    reveal_strlit("jpg");
    reveal_strlit("png");
    reveal_strlit("webp");
    reveal_strlit("bmp");
    reveal_strlit("gif");
    reveal_strlit("-lossless");
    reveal_strlit("-webp");
    reveal_strlit("-q80");
    reveal_strlit("-q60");
    reveal_strlit("-jpg");
    reveal_strlit("-png");
    reveal_strlit("-bmp");
    reveal_strlit("-gif");
    let mark = "-"@ + grade;
    assert("-"@ =~= seq!['-']);
    let n = head.len();
    let m = mark.len();
    let tail = head.subrange(n - m, n as int);
    assert(tail == mark);
    if grade == "lossless"@ {
        assert(mark =~= "-lossless"@);
    } else {
        assert(head[n - 1] == mark[m - 1]);
        if finishes_with(head, "-lossless"@) {
            let t = head.subrange(n - 9, n as int);
            assert(t == "-lossless"@);
            assert(t[8] == head[n - 1] && t[8] == 's');
            assert(false);
        }
        if grade == "webp"@ {
            assert(mark =~= "-webp"@);
        } else {
            assert(m == 4);
            assert(tail[0] == '-' && tail[0] == head[n - 4]);
            if finishes_with(head, "-webp"@) {
                let t = head.subrange(n - 5, n as int);
                assert(t == "-webp"@);
                assert(t[1] == head[n - 4] && t[1] == 'w');
                assert(false);
            }
            if grade == "q80"@ {
                assert(mark =~= "-q80"@);
            } else if grade == "q60"@ {
                assert(mark =~= "-q60"@);
            } else if grade == "jpg"@ {
                assert(mark =~= "-jpg"@);
            } else if grade == "png"@ {
                assert(mark =~= "-png"@);
            } else if grade == "bmp"@ {
                assert(mark =~= "-bmp"@);
            } else {
                assert(mark =~= "-gif"@);
            }
        }
    }
}

// ---------------------------------------------------------------------------
// Labels
// ---------------------------------------------------------------------------

/// The label of a compression level.
pub fn compression_level_label(level: &str) -> (r: Result<&'static str, String>)
    ensures
        if level@ == "lossless"@ || level@ == "q80"@ || level@ == "q60"@ {
            r matches Ok(s) && s@ == level@
        } else {
            r matches Err(e) && e@ == "未知压缩等级"@
        },
{
    if same(level, "lossless") {
        Ok("lossless")
    } else if same(level, "q80") {
        Ok("q80")
    } else if same(level, "q60") {
        Ok("q60")
    } else {
        Err(owned("未知压缩等级"))
    }
}

/// The label of a target format.
pub open spec fn target_label(format: Seq<char>) -> Option<Seq<char>> {
    if format == "jpg"@ || format == "jpeg"@ {
        Some("jpg"@)
    } else if format == "png"@ || format == "webp"@ || format == "bmp"@ || format == "gif"@ {
        Some(format)
    } else {
        None
    }
}

/// The label of a target format.
pub fn convert_format_label(format: &str) -> (r: Result<&'static str, String>)
    ensures
        match target_label(format@) {
            Some(label) => r matches Ok(s) && s@ == label,
            None => r matches Err(e) && e@ == "不支持的目标格式"@,
        },
{
    if same(format, "jpg") || same(format, "jpeg") {
        Ok("jpg")
    } else if same(format, "png") {
        Ok("png")
    } else if same(format, "webp") {
        Ok("webp")
    } else if same(format, "bmp") {
        Ok("bmp")
    } else if same(format, "gif") {
        Ok("gif")
    } else {
        Err(owned("不支持的目标格式"))
    }
}

/// The extension of a compressed copy.
pub open spec fn compressed_extension(grade: Seq<char>, format: Seq<char>) -> Seq<char> {
    if grade == "lossless"@ && (format == "png"@ || format == "gif"@ || format == "bmp"@) {
        "png"@
    } else if grade == "lossless"@ && format == "webp"@ {
        "webp"@
    } else {
        "jpg"@
    }
}

/// The extension of a compressed copy.
pub fn extension_of_compressed(grade: &str, format: &str) -> (r: &'static str)
    ensures
        r@ == compressed_extension(grade@, format@),
{
    if same(grade, "lossless") && (same(format, "png") || same(format, "gif") || same(
        format,
        "bmp",
    )) {
        "png"
    } else if same(grade, "lossless") && same(format, "webp") {
        "webp"
    } else {
        "jpg"
    }
}

// ---------------------------------------------------------------------------
// Encoding
// ---------------------------------------------------------------------------

/// The lossless file formats.
#[derive(Debug, Clone, Copy, PartialEq, Eq, Structural)]
pub enum PlainFormat {
    Png,
    WebP,
    Bmp,
    Gif,
}

/// Why a picture could not be written again.
#[derive(Debug)]
pub enum CodecError {
    /// The source is no picture.
    Decode(String),
    /// The picture could not be encoded.
    Encode(String),
}

/// Why a picture could not be written again, in characters.
pub enum CodecErrorView {
    Decode(Seq<char>),
    Encode(Seq<char>),
}

impl View for CodecError {
    type V = CodecErrorView;

    open spec fn view(&self) -> CodecErrorView {
        match self {
            CodecError::Decode(s) => CodecErrorView::Decode(s@),
            CodecError::Encode(s) => CodecErrorView::Encode(s@),
        }
    }
}

/// The view of what an encoder returns.
pub open spec fn codec_view(r: Result<Vec<u8>, CodecError>) -> Result<Seq<u8>, CodecErrorView> {
    match r {
        Ok(b) => Ok(b@),
        Err(e) => Err(e@),
    }
}

/// The picture of a file written again in a plain format.
pub uninterp spec fn written_plain(bytes: Seq<u8>, format: PlainFormat) -> Result<
    Seq<u8>,
    CodecErrorView,
>;

/// The picture of a file written again as JPEG of a quality.
pub uninterp spec fn written_jpeg(bytes: Seq<u8>, quality: u8) -> Result<Seq<u8>, CodecErrorView>;

/// Calls `image::load_from_memory` and `DynamicImage::write_to`: the file depends on the bytes
/// and the format alone.
#[verifier::external_body]
fn write_plain(bytes: &Vec<u8>, format: PlainFormat) -> (r: Result<Vec<u8>, CodecError>)
    ensures
        codec_view(r) == written_plain(bytes@, format),
{
    let format = match format {
        PlainFormat::Png => image::ImageFormat::Png,
        PlainFormat::WebP => image::ImageFormat::WebP,
        PlainFormat::Bmp => image::ImageFormat::Bmp,
        PlainFormat::Gif => image::ImageFormat::Gif,
    };
    let mut out = std::io::Cursor::new(Vec::new());
    let picture = image::load_from_memory(bytes).map_err(|e| CodecError::Decode(e.to_string()))?;
    picture.write_to(&mut out, format).map_err(|e| CodecError::Encode(e.to_string()))?;
    Ok(out.into_inner())
}

/// Calls `image::load_from_memory` and the JPEG encoder on the picture without opacity: the
/// file depends on the bytes and the quality alone.
#[verifier::external_body]
fn write_jpeg(bytes: &Vec<u8>, quality: u8) -> (r: Result<Vec<u8>, CodecError>)
    requires
        1 <= quality <= 100,
    ensures
        codec_view(r) == written_jpeg(bytes@, quality),
{
    let mut out = std::io::Cursor::new(Vec::new());
    let picture = image::load_from_memory(bytes).map_err(|e| CodecError::Decode(e.to_string()))?;
    let encoder = image::codecs::jpeg::JpegEncoder::new_with_quality(&mut out, quality);
    let written = picture.to_rgb8().write_with_encoder(encoder);
    written.map_err(|e| CodecError::Encode(e.to_string()))?;
    Ok(out.into_inner())
}

/// The result of an encoder with its error in words.
pub open spec fn told(r: Result<Seq<u8>, CodecErrorView>, prefix: Seq<char>) -> Result<
    Seq<u8>,
    Seq<char>,
> {
    match r {
        Ok(b) => Ok(b),
        Err(CodecErrorView::Decode(e)) => Err(e),
        Err(CodecErrorView::Encode(e)) => Err(prefix + e),
    }
}

/// Puts the error of an encoder in words.
pub fn tell(r: Result<Vec<u8>, CodecError>, prefix: &str) -> (out: Result<Vec<u8>, String>)
    ensures
        result_view(out) == told(codec_view(r), prefix@),
{
    match r {
        Ok(b) => Ok(b),
        Err(CodecError::Decode(e)) => Err(e),
        Err(CodecError::Encode(e)) => Err(concat2(prefix, e.as_str())),
    }
}

/// A picture converted to another format.
pub open spec fn converted(bytes: Seq<u8>, format: Seq<char>) -> Result<Seq<u8>, Seq<char>> {
    if format == "jpg"@ {
        told(written_jpeg(bytes, 90), "JPEG 编码失败: "@)
    } else if format == "png"@ {
        told(written_plain(bytes, PlainFormat::Png), "PNG 编码失败: "@)
    } else if format == "webp"@ {
        told(written_plain(bytes, PlainFormat::WebP), "WebP 编码失败: "@)
    } else if format == "bmp"@ {
        told(written_plain(bytes, PlainFormat::Bmp), "BMP 编码失败: "@)
    } else if format == "gif"@ {
        told(written_plain(bytes, PlainFormat::Gif), "GIF 编码失败: "@)
    } else {
        Err("不支持的目标格式: "@ + format)
    }
}

/// Converts a picture to another format.
pub fn encode_converted(source: &Vec<u8>, format: &str) -> (r: Result<Vec<u8>, String>)
    ensures
        result_view(r) == converted(source@, format@),
{
    if same(format, "jpg") {
        tell(write_jpeg(source, 90), "JPEG 编码失败: ")
    } else if same(format, "png") {
        tell(write_plain(source, PlainFormat::Png), "PNG 编码失败: ")
    } else if same(format, "webp") {
        tell(write_plain(source, PlainFormat::WebP), "WebP 编码失败: ")
    } else if same(format, "bmp") {
        tell(write_plain(source, PlainFormat::Bmp), "BMP 编码失败: ")
    } else if same(format, "gif") {
        tell(write_plain(source, PlainFormat::Gif), "GIF 编码失败: ")
    } else {
        Err(concat2("不支持的目标格式: ", format))
    }
}

/// Whether a format can be compressed with loss.
pub open spec fn is_lossy_source(format: Seq<char>) -> bool {
    ||| format == "jpg"@
    ||| format == "jpeg"@
    ||| format == "png"@
    ||| format == "webp"@
    ||| format == "gif"@
    ||| format == "bmp"@
}

/// A picture compressed at a level: without loss in its own format as far as possible, with
/// loss always as JPEG.
pub open spec fn compressed(bytes: Seq<u8>, format: Seq<char>, level: Seq<char>) -> Result<
    Seq<u8>,
    Seq<char>,
> {
    if level == "lossless"@ && format == "png"@ {
        told(written_plain(bytes, PlainFormat::Png), "PNG 无损编码失败: "@)
    } else if level == "lossless"@ && (format == "jpg"@ || format == "jpeg"@) {
        told(written_jpeg(bytes, 95), "JPEG 近无损编码失败: "@)
    } else if level == "lossless"@ && format == "webp"@ {
        told(written_plain(bytes, PlainFormat::WebP), "WebP 编码失败: "@)
    } else if (level == "q80"@ || level == "q60"@) && is_lossy_source(format) {
        told(
            written_jpeg(
                bytes,
                if level == "q80"@ {
                    80
                } else {
                    60
                },
            ),
            "JPEG 有损编码失败: "@,
        )
    } else if level == "lossless"@ && (format == "gif"@ || format == "bmp"@) {
        told(written_plain(bytes, PlainFormat::Png), "无损转 PNG 失败: "@)
    } else {
        Err("不支持压缩该格式: "@ + format)
    }
}

/// Compresses a picture at a level.
pub fn encode_compressed(source: &Vec<u8>, format: &str, level: &str) -> (r: Result<
    Vec<u8>,
    String,
>)
    ensures
        result_view(r) == compressed(source@, format@, level@),
{
    let lossless = same(level, "lossless");
    let lossy = same(level, "q80") || same(level, "q60");
    if lossless && same(format, "png") {
        tell(write_plain(source, PlainFormat::Png), "PNG 无损编码失败: ")
    } else if lossless && (same(format, "jpg") || same(format, "jpeg")) {
        tell(write_jpeg(source, 95), "JPEG 近无损编码失败: ")
    } else if lossless && same(format, "webp") {
        tell(write_plain(source, PlainFormat::WebP), "WebP 编码失败: ")
    } else if lossy && (same(format, "jpg") || same(format, "jpeg") || same(format, "png") || same(
        format,
        "webp",
    ) || same(format, "gif") || same(format, "bmp")) {
        let quality: u8 = if same(level, "q80") {
            80
        } else {
            60
        };
        tell(write_jpeg(source, quality), "JPEG 有损编码失败: ")
    } else if lossless && (same(format, "gif") || same(format, "bmp")) {
        tell(write_plain(source, PlainFormat::Png), "无损转 PNG 失败: ")
    } else {
        Err(concat2("不支持压缩该格式: ", format))
    }
}

/// A copy of an image file, to be written beside it.
#[derive(Debug)]
pub struct ImageCopy {
    pub file_name: String,
    pub extension: String,
    pub bytes: Vec<u8>,
}

/// Whether a copy has a name, an extension and bytes.
pub open spec fn is_copy(
    c: ImageCopy,
    stem: Seq<char>,
    label: Seq<char>,
    stamp: Seq<char>,
    extension: Seq<char>,
    bytes: Seq<u8>,
) -> bool {
    &&& c.file_name@ == variant_stem(original_of(stem), label, stamp) + "."@ + extension
    &&& c.extension@ == extension
    &&& c.bytes@ == bytes
}

fn check_source(bytes: usize) -> (r: Result<(), String>)
    ensures
        r is Ok <==> bytes <= MAX_MEDIA_ASSET_BYTES,
        r matches Err(e) ==> e@ == "图片超过 512 MiB 大小限制"@,
{
    if bytes <= 536_870_912 {
        Ok(())
    } else {
        Err(owned("图片超过 512 MiB 大小限制"))
    }
}

/// Makes a compressed copy of an image file. `format` is what its bytes were recognised as,
/// `stem` its name without the extension, and `stamp` the present time.
pub fn compress_image_file(
    source: &Vec<u8>,
    format: Option<&str>,
    stem: &str,
    level: &str,
    stamp: &str,
) -> (r: Result<ImageCopy, String>)
    ensures
        if !(level@ == "lossless"@ || level@ == "q80"@ || level@ == "q60"@) {
            r matches Err(e) && e@ == "未知压缩等级"@
        } else if source.len() > MAX_MEDIA_ASSET_BYTES {
            r matches Err(e) && e@ == "图片超过 512 MiB 大小限制"@
        } else {
            match format {
                None => r matches Err(e) && e@ == "不支持的图片格式"@,
                Some(f) => match compressed(source@, f@, level@) {
                    Err(c) => r matches Err(e) && e@ == c,
                    Ok(b) => r matches Ok(c) && is_copy(
                        c,
                        stem@,
                        level@,
                        stamp@,
                        compressed_extension(level@, f@),
                        b,
                    ),
                },
            }
        },
{
    let grade = match compression_level_label(level) {
        Ok(grade) => grade,
        Err(e) => return Err(e),
    };
    match check_source(source.len()) {
        Ok(_) => {},
        Err(e) => return Err(e),
    }
    let format = match format {
        Some(format) => format,
        None => return Err(owned("不支持的图片格式")),
    };
    let bytes = match encode_compressed(source, format, grade) {
        Ok(bytes) => bytes,
        Err(e) => return Err(e),
    };
    let origin = original_stem(stem);
    let extension = extension_of_compressed(grade, format);
    Ok(
        ImageCopy {
            file_name: variant_file_name(origin.as_str(), grade, stamp, extension),
            extension: owned(extension),
            bytes,
        },
    )
}

/// Makes a copy of an image file in another format. `recognised` tells whether its bytes are
/// of a known format.
pub fn convert_image_file(
    source: &Vec<u8>,
    recognised: bool,
    stem: &str,
    format: &str,
    stamp: &str,
) -> (r: Result<ImageCopy, String>)
    ensures
        match target_label(format@) {
            None => r matches Err(e) && e@ == "不支持的目标格式"@,
            Some(target) => if source.len() > MAX_MEDIA_ASSET_BYTES {
                r matches Err(e) && e@ == "图片超过 512 MiB 大小限制"@
            } else if !recognised {
                r matches Err(e) && e@ == "不支持的图片格式"@
            } else {
                match converted(source@, target) {
                    Err(c) => r matches Err(e) && e@ == c,
                    Ok(b) => r matches Ok(c) && is_copy(c, stem@, target, stamp@, target, b),
                }
            },
        },
{
    let target = match convert_format_label(format) {
        Ok(target) => target,
        Err(e) => return Err(e),
    };
    match check_source(source.len()) {
        Ok(_) => {},
        Err(e) => return Err(e),
    }
    if !recognised {
        return Err(owned("不支持的图片格式"));
    }
    let bytes = match encode_converted(source, target) {
        Ok(bytes) => bytes,
        Err(e) => return Err(e),
    };
    let origin = original_stem(stem);
    Ok(
        ImageCopy {
            file_name: variant_file_name(origin.as_str(), target, stamp, target),
            extension: owned(target),
            bytes,
        },
    )
}

// ---------------------------------------------------------------------------
// Variants beside a file
// ---------------------------------------------------------------------------

/// A file of a directory.
#[derive(Debug)]
pub struct FileEntry {
    pub path: String,
    pub file_name: String,
    pub file_stem: String,
    pub bytes: u64,
    pub modified_at: u64,
}

/// A variant of an image file.
#[derive(Debug)]
pub struct VariantEntry {
    pub path: String,
    pub file_name: String,
    pub level: String,
    pub bytes: u64,
    pub modified_at: u64,
}

/// What a variant says.
pub struct VariantView {
    pub path: Seq<char>,
    pub file_name: Seq<char>,
    pub level: Seq<char>,
    pub bytes: int,
    pub modified_at: int,
}

impl View for VariantEntry {
    type V = VariantView;

    open spec fn view(&self) -> VariantView {
        VariantView {
            path: self.path@,
            file_name: self.file_name@,
            level: self.level@,
            bytes: self.bytes as int,
            modified_at: self.modified_at as int,
        }
    }
}

/// The views of a list of variants.
pub open spec fn variants_view(v: Seq<VariantEntry>) -> Seq<VariantView> {
    v.map_values(|e: VariantEntry| e@)
}

/// The level of a variant by its name.
pub open spec fn level_of(file_stem: Seq<char>, stem: Seq<char>) -> Seq<char> {
    if file_stem == stem {
        "original"@
    } else if occurs_in(file_stem, "-lossless-"@) {
        "lossless"@
    } else if occurs_in(file_stem, "-q80-"@) {
        "q80"@
    } else if occurs_in(file_stem, "-q60-"@) {
        "q60"@
    } else if occurs_in(file_stem, "-jpg-"@) {
        "jpg"@
    } else if occurs_in(file_stem, "-png-"@) {
        "png"@
    } else if occurs_in(file_stem, "-webp-"@) {
        "webp"@
    } else if occurs_in(file_stem, "-bmp-"@) {
        "bmp"@
    } else if occurs_in(file_stem, "-gif-"@) {
        "gif"@
    } else {
        "other"@
    }
}

/// A file as a variant of the original of a name.
pub open spec fn variant_of(e: FileEntry, stem: Seq<char>) -> VariantView {
    VariantView {
        path: e.path@,
        file_name: e.file_name@,
        level: level_of(e.file_stem@, stem),
        bytes: e.bytes as int,
        modified_at: e.modified_at as int,
    }
}

/// Whether a variant comes before another: the later one first.
pub open spec fn variant_before() -> spec_fn(VariantView, VariantView) -> bool {
    |a: VariantView, b: VariantView| a.modified_at > b.modified_at
}

/// The files of a directory that are variants of the original of a name, in the order of the
/// directory.
pub open spec fn variants_among(entries: Seq<FileEntry>, stem: Seq<char>) -> Seq<VariantView>
    decreases entries.len(),
{
    if entries.len() == 0 {
        Seq::empty()
    } else {
        let before = variants_among(entries.drop_last(), stem);
        if original_of(entries.last().file_stem@) == stem {
            before.push(variant_of(entries.last(), stem))
        } else {
            before
        }
    }
}

fn level_text(file_stem: &str, stem: &str) -> (r: &'static str)
    ensures
        r@ == level_of(file_stem@, stem@),
{
    if same(file_stem, stem) {
        "original"
    } else if contains(file_stem, "-lossless-") {
        "lossless"
    } else if contains(file_stem, "-q80-") {
        "q80"
    } else if contains(file_stem, "-q60-") {
        "q60"
    } else if contains(file_stem, "-jpg-") {
        "jpg"
    } else if contains(file_stem, "-png-") {
        "png"
    } else if contains(file_stem, "-webp-") {
        "webp"
    } else if contains(file_stem, "-bmp-") {
        "bmp"
    } else if contains(file_stem, "-gif-") {
        "gif"
    } else {
        "other"
    }
}

fn enter_variant(list: &mut Vec<VariantEntry>, e: VariantEntry)
    ensures
        variants_view(final(list)@) == insert_ordered(
            variants_view(old(list)@),
            e@,
            variant_before(),
        ),
{
    let ghost before = variants_view(list@);
    let mut k: usize = list.len();
    while k > 0 && e.modified_at > list[k - 1].modified_at
        invariant
            k <= list.len(),
            before == variants_view(list@),
            forall|i: int| k <= i < list.len() ==> variant_before()(e@, #[trigger] before[i]),
        decreases k,
    {
        k -= 1;
    }
    proof {
        lemma_insert_ordered(before, e@, variant_before(), k as int);
    }
    list.insert(k, e);
    assert(variants_view(list@) =~= before.insert(k as int, e@));
}

/// Lists the variants of the original of a name among the files of its directory, the latest
/// first.
pub fn list_image_variants(entries: &Vec<FileEntry>, stem: &str) -> (r: Vec<VariantEntry>)
    ensures
        variants_view(r@) == sort_ordered(variants_among(entries@, stem@), variant_before()),
{
    let mut out: Vec<VariantEntry> = Vec::new();
    let mut i: usize = 0;
    assert(variants_view(out@) =~= sort_ordered(
        variants_among(entries@.take(0), stem@),
        variant_before(),
    ));
    while i < entries.len()
        invariant
            i <= entries.len(),
            variants_view(out@) == sort_ordered(
                variants_among(entries@.take(i as int), stem@),
                variant_before(),
            ),
        decreases entries.len() - i,
    {
        let e = &entries[i];
        let ghost so_far = variants_among(entries@.take(i as int), stem@);
        proof {
            assert(entries@.take(i + 1).drop_last() =~= entries@.take(i as int));
            assert(entries@.take(i + 1).last() == entries@[i as int]);
        }
        if same(original_stem(e.file_stem.as_str()).as_str(), stem) {
            let v = VariantEntry {
                path: e.path.clone(),
                file_name: e.file_name.clone(),
                level: owned(level_text(e.file_stem.as_str(), stem)),
                bytes: e.bytes,
                modified_at: e.modified_at,
            };
            proof {
                assert(so_far.push(v@).drop_last() =~= so_far);
            }
            enter_variant(&mut out, v);
        }
        i += 1;
    }
    assert(entries@.take(i as int) =~= entries@);
    out
}

/// The path that is shown for an image: that of its latest variant, else its own.
pub fn display_path(variants: &Vec<VariantEntry>, own_path: &str) -> (r: String)
    ensures
        r@ == if variants.len() > 0 {
            variants@[0].path@
        } else {
            own_path@
        },
{
    if variants.len() > 0 {
        variants[0].path.clone()
    } else {
        owned(own_path)
    }
}

} // verus!
