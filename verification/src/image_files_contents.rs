//! What copies of image files are called and made of.
use crate::image_files::{
    compressed, compressed_extension, converted, is_copy, is_grade, level_of, original_of,
    target_label, variant_before, variant_names_lead_back, variant_of, variant_stem, variants_among,
    written_jpeg, written_plain, FileEntry, ImageCopy, PlainFormat, VariantView,
};
use crate::sequence::{is_order_relation, sort_ordered, sorting_orders};
use crate::text::{is_digit, occurs_at, occurs_in};
use vstd::prelude::*;

verus! {

/// A compressed copy is of the format that its ending says: the picture written again without
/// loss as PNG or WebP, and else as JPEG, of a quality of 80 or 60 at these levels, and of 95
/// where nothing is to be lost.
pub proof fn compressed_copy_is_of_its_ending(bytes: Seq<u8>, format: Seq<char>, level: Seq<char>)
    requires
        compressed(bytes, format, level) is Ok,
    ensures
        ({
            let out = compressed(bytes, format, level)->Ok_0;
            let ending = compressed_extension(level, format);
            let quality = if level == "q80"@ {
                80u8
            } else if level == "q60"@ {
                60u8
            } else {
                95u8
            };
            &&& level == "lossless"@ || level == "q80"@ || level == "q60"@
            &&& ending == "png"@ || ending == "webp"@ || ending == "jpg"@
            &&& ending == "png"@ ==> level == "lossless"@ && written_plain(bytes, PlainFormat::Png)
                is Ok && out == written_plain(bytes, PlainFormat::Png)->Ok_0
            &&& ending == "webp"@ ==> level == "lossless"@ && format == "webp"@ && written_plain(
                bytes,
                PlainFormat::WebP,
            ) is Ok && out == written_plain(bytes, PlainFormat::WebP)->Ok_0
            &&& ending == "jpg"@ ==> written_jpeg(bytes, quality) is Ok && out == written_jpeg(
                bytes,
                quality,
            )->Ok_0
            &&& level == "q80"@ || level == "q60"@ ==> ending == "jpg"@
        }),
{
    reveal_strlit("png");
    reveal_strlit("webp");
    reveal_strlit("jpg");
    reveal_strlit("jpeg");
    reveal_strlit("gif");
    reveal_strlit("bmp");
    reveal_strlit("lossless");
    reveal_strlit("q80");
    reveal_strlit("q60");
    assert("png"@.len() == 3);
    assert("jpg"@.len() == 3);
    assert("gif"@.len() == 3);
    assert("bmp"@.len() == 3);
    assert("q80"@.len() == 3);
    assert("q60"@.len() == 3);
    assert("png"@[0] == 'p');
    assert("jpg"@[0] == 'j');
    assert("gif"@[0] == 'g');
    assert("bmp"@[0] == 'b');
    assert("q80"@[0] == 'q');
    assert("q60"@[0] == 'q');
    assert("png"@[1] == 'n');
    assert("jpg"@[1] == 'p');
    assert("gif"@[1] == 'i');
    assert("bmp"@[1] == 'm');
    assert("q80"@[1] == '8');
    assert("q60"@[1] == '6');
    assert("webp"@.len() == 4);
    assert("jpeg"@.len() == 4);
    assert("webp"@[0] == 'w');
    assert("jpeg"@[0] == 'j');
    assert("lossless"@.len() == 8);
}

/// A converted copy is the picture written again in the format that was asked for.
pub proof fn converted_copy_is_of_its_format(bytes: Seq<u8>, format: Seq<char>)
    ensures
        target_label(format) is Some <==> format == "jpg"@ || format == "jpeg"@ || format == "png"@
            || format == "webp"@ || format == "bmp"@ || format == "gif"@,
        target_label(format) matches Some(target) ==> {
            let out = converted(bytes, target);
            &&& target == format || (format == "jpeg"@ && target == "jpg"@)
            &&& out is Ok ==> match target {
                _ if target == "jpg"@ => written_jpeg(bytes, 90) is Ok && out->Ok_0
                    == written_jpeg(bytes, 90)->Ok_0,
                _ if target == "png"@ => is_plain_copy(bytes, PlainFormat::Png, out->Ok_0),
                _ if target == "webp"@ => is_plain_copy(bytes, PlainFormat::WebP, out->Ok_0),
                _ if target == "bmp"@ => is_plain_copy(bytes, PlainFormat::Bmp, out->Ok_0),
                _ => is_plain_copy(bytes, PlainFormat::Gif, out->Ok_0),
            }
        },
{
    reveal_strlit("png");
    reveal_strlit("webp");
    reveal_strlit("jpg");
    reveal_strlit("jpeg");
    reveal_strlit("gif");
    reveal_strlit("bmp");
    assert("png"@.len() == 3);
    assert("jpg"@.len() == 3);
    assert("gif"@.len() == 3);
    assert("bmp"@.len() == 3);
    assert("png"@[0] == 'p');
    assert("jpg"@[0] == 'j');
    assert("gif"@[0] == 'g');
    assert("bmp"@[0] == 'b');
    assert("webp"@.len() == 4);
    assert("jpeg"@.len() == 4);
    assert("webp"@[0] == 'w');
    assert("jpeg"@[0] == 'j');
}

/// Whether bytes are a picture written again in a plain format.
pub open spec fn is_plain_copy(bytes: Seq<u8>, format: PlainFormat, out: Seq<u8>) -> bool {
    written_plain(bytes, format) is Ok && out == written_plain(bytes, format)->Ok_0
}

/// A copy is named after the original of its file, its grade and its time, so that its name
/// leads back to the same original; also the copy of a copy does.
pub proof fn copy_leads_back_to_the_original(
    c: ImageCopy,
    stem: Seq<char>,
    grade: Seq<char>,
    stamp: Seq<char>,
    extension: Seq<char>,
    bytes: Seq<u8>,
) -> (name: Seq<char>)
    requires
        is_copy(c, stem, grade, stamp, extension, bytes),
        is_grade(grade),
        stamp.len() == 14,
        forall|i: int| 0 <= i < stamp.len() ==> is_digit(#[trigger] stamp[i]),
    ensures
        c.file_name@ == name + "."@ + extension,
        name == original_of(stem) + "-"@ + grade + "-"@ + stamp,
        original_of(name) == original_of(stem),
        c.extension@ == extension && c.bytes@ == bytes,
{
    variant_names_lead_back(original_of(stem), grade, stamp);
    variant_stem(original_of(stem), grade, stamp)
}

proof fn lemma_only_mark(origin: Seq<char>, grade: Seq<char>, stamp: Seq<char>, mark: Seq<char>)
    requires
        forall|i: int| 0 <= i < origin.len() ==> #[trigger] origin[i] != '-',
        forall|i: int| 0 <= i < grade.len() ==> #[trigger] grade[i] != '-',
        forall|i: int| 0 <= i < stamp.len() ==> #[trigger] stamp[i] != '-',
        mark.len() >= 2,
        mark[0] == '-',
        mark.last() == '-',
    ensures
        occurs_in(variant_stem(origin, grade, stamp), mark) <==> mark == "-"@ + grade + "-"@,
{
    reveal_strlit("-");
    let s = variant_stem(origin, grade, stamp);
    let own = "-"@ + grade + "-"@;
    let first = origin.len() as int;
    let second = (origin.len() + 1 + grade.len()) as int;
    assert(s.len() == origin.len() + 1 + grade.len() + 1 + stamp.len());
    assert(s[first] == '-' && s[second] == '-');
    assert forall|i: int| 0 <= i < s.len() && #[trigger] s[i] == '-' implies i == first || i
        == second by {
        if i < first {
            assert(s[i] == origin[i]);
        } else if first < i < second {
            assert(s[i] == grade[i - first - 1]);
        } else if i > second {
            assert(s[i] == stamp[i - second - 1]);
        }
    }
    assert(s.subrange(first, second + 1) =~= own);
    if mark == own {
        assert(occurs_at(s, mark, first));
    }
    if occurs_in(s, mark) {
        let at = choose|at: int| occurs_at(s, mark, at);
        let part = s.subrange(at, at + mark.len());
        assert(part[0] == s[at] && part[mark.len() - 1] == s[at + mark.len() - 1]);
        assert(at == first && at + mark.len() - 1 == second);
    }
}

/// A copy is listed at its own grade, where the name of its original has no dash; the original
/// itself is listed as such.
pub proof fn copy_is_listed_at_its_grade(origin: Seq<char>, grade: Seq<char>, stamp: Seq<char>)
    requires
        is_grade(grade),
        forall|i: int| 0 <= i < origin.len() ==> #[trigger] origin[i] != '-',
        forall|i: int| 0 <= i < stamp.len() ==> is_digit(#[trigger] stamp[i]),
    ensures
        level_of(variant_stem(origin, grade, stamp), origin) == grade,
        level_of(origin, origin) == "original"@,
{
    reveal_strlit("-lossless-");
    reveal_strlit("-q80-");
    reveal_strlit("-q60-");
    reveal_strlit("-jpg-");
    reveal_strlit("-png-");
    reveal_strlit("-webp-");
    reveal_strlit("-bmp-");
    reveal_strlit("-gif-");
    reveal_strlit("lossless");
    reveal_strlit("q80");
    reveal_strlit("q60");
    reveal_strlit("jpg");
    reveal_strlit("png");
    reveal_strlit("webp");
    reveal_strlit("bmp");
    reveal_strlit("gif");
    reveal_strlit("-");
    reveal_strlit("original");
    assert("-"@.len() == 1);
    assert("q80"@.len() == 3);
    assert("q60"@.len() == 3);
    assert("jpg"@.len() == 3);
    assert("png"@.len() == 3);
    assert("bmp"@.len() == 3);
    assert("gif"@.len() == 3);
    assert("q80"@[1] == '8');
    assert("q60"@[1] == '6');
    assert("jpg"@[1] == 'p');
    assert("png"@[1] == 'n');
    assert("bmp"@[1] == 'm');
    assert("gif"@[1] == 'i');
    assert("webp"@.len() == 4);
    assert("-q80-"@.len() == 5);
    assert("-q60-"@.len() == 5);
    assert("-jpg-"@.len() == 5);
    assert("-png-"@.len() == 5);
    assert("-bmp-"@.len() == 5);
    assert("-gif-"@.len() == 5);
    assert("-q80-"@[2] == '8');
    assert("-q60-"@[2] == '6');
    assert("-jpg-"@[2] == 'p');
    assert("-png-"@[2] == 'n');
    assert("-bmp-"@[2] == 'm');
    assert("-gif-"@[2] == 'i');
    assert("-webp-"@.len() == 6);
    assert("lossless"@.len() == 8);
    assert("original"@.len() == 8);
    assert("lossless"@[0] == 'l');
    assert("original"@[0] == 'o');
    assert("-lossless-"@.len() == 10);
    lemma_only_mark(origin, grade, stamp, "-lossless-"@);
    lemma_only_mark(origin, grade, stamp, "-q80-"@);
    lemma_only_mark(origin, grade, stamp, "-q60-"@);
    lemma_only_mark(origin, grade, stamp, "-jpg-"@);
    lemma_only_mark(origin, grade, stamp, "-png-"@);
    lemma_only_mark(origin, grade, stamp, "-webp-"@);
    lemma_only_mark(origin, grade, stamp, "-bmp-"@);
    lemma_only_mark(origin, grade, stamp, "-gif-"@);
    let s = variant_stem(origin, grade, stamp);
    assert(s.len() > origin.len());
    assert("-"@ + "lossless"@ + "-"@ =~= "-lossless-"@);
    assert("-"@ + "q80"@ + "-"@ =~= "-q80-"@);
    assert("-"@ + "q60"@ + "-"@ =~= "-q60-"@);
    assert("-"@ + "jpg"@ + "-"@ =~= "-jpg-"@);
    assert("-"@ + "png"@ + "-"@ =~= "-png-"@);
    assert("-"@ + "webp"@ + "-"@ =~= "-webp-"@);
    assert("-"@ + "bmp"@ + "-"@ =~= "-bmp-"@);
    assert("-"@ + "gif"@ + "-"@ =~= "-gif-"@);
}

/// Whether a listed variant is a file of the directory.
pub open spec fn lists_file(v: VariantView, e: FileEntry, stem: Seq<char>) -> bool {
    &&& v.path == e.path@
    &&& v.file_name == e.file_name@
    &&& v.bytes == e.bytes
    &&& v.modified_at == e.modified_at
    &&& original_of(e.file_stem@) == stem
}

proof fn lemma_variants(entries: Seq<FileEntry>, stem: Seq<char>)
    ensures
        ({
            let v = variants_among(entries, stem);
            &&& forall|i: int| 0 <= i < v.len() ==> is_listed_from(#[trigger] v[i], entries, stem)
            &&& forall|j: int|
                0 <= j < entries.len() && original_of((#[trigger] entries[j]).file_stem@) == stem
                    ==> v.contains(variant_of(entries[j], stem))
        }),
    decreases entries.len(),
{
    if entries.len() > 0 {
        let rest = entries.drop_last();
        let n = entries.len() - 1;
        lemma_variants(rest, stem);
        let before = variants_among(rest, stem);
        let v = variants_among(entries, stem);
        assert(entries.last() == entries[n]);
        assert forall|i: int| 0 <= i < v.len() implies is_listed_from(
            #[trigger] v[i],
            entries,
            stem,
        ) by {
            if i < before.len() {
                assert(v[i] == before[i]);
                assert(is_listed_from(before[i], rest, stem));
                let j = choose|j: int|
                    0 <= j < rest.len() && lists_file(before[i], #[trigger] rest[j], stem);
                assert(lists_file(v[i], entries[j], stem));
            } else {
                assert(lists_file(v[i], entries[n], stem));
            }
        }
        assert forall|j: int|
            0 <= j < entries.len() && original_of(
                (#[trigger] entries[j]).file_stem@,
            ) == stem implies v.contains(variant_of(entries[j], stem)) by {
            if j < n {
                assert(rest[j] == entries[j]);
                assert(before.contains(variant_of(rest[j], stem)));
                let i = choose|i: int|
                    0 <= i < before.len() && before[i] == variant_of(rest[j], stem);
                assert(v[i] == variant_of(entries[j], stem));
            } else {
                assert(v[before.len() as int] == variant_of(entries[j], stem));
            }
        }
    }
}

/// Whether a listed variant is one of the files of a directory.
pub open spec fn is_listed_from(v: VariantView, entries: Seq<FileEntry>, stem: Seq<char>) -> bool {
    exists|j: int| 0 <= j < entries.len() && lists_file(v, #[trigger] entries[j], stem)
}

/// The variants of a file are the files of its directory that lead back to the same original,
/// each as it is there, none left out, and the latest first.
pub proof fn variants_are_listed_latest_first(entries: Seq<FileEntry>, stem: Seq<char>)
    ensures
        ({
            let out = sort_ordered(variants_among(entries, stem), variant_before());
            &&& forall|i: int| 0 <= i < out.len() ==> is_listed_from(#[trigger] out[i], entries, stem)
            &&& forall|j: int|
                0 <= j < entries.len() && original_of((#[trigger] entries[j]).file_stem@) == stem
                    ==> out.contains(variant_of(entries[j], stem))
            &&& forall|i: int, k: int|
                0 <= i < k < out.len() ==> (#[trigger] out[i]).modified_at >= (
                #[trigger] out[k]).modified_at
        }),
{
    broadcast use vstd::seq_lib::group_to_multiset_ensures;

    lemma_variants(entries, stem);
    let v = variants_among(entries, stem);
    let out = sort_ordered(v, variant_before());
    assert(is_order_relation(variant_before()));
    sorting_orders(v, variant_before());
    assert forall|i: int| 0 <= i < out.len() implies is_listed_from(
        #[trigger] out[i],
        entries,
        stem,
    ) by {
        assert(out.to_multiset().contains(out[i]));
        assert(v.to_multiset().contains(out[i]));
        assert(v.contains(out[i]));
        let k = choose|k: int| 0 <= k < v.len() && v[k] == out[i];
        assert(is_listed_from(v[k], entries, stem));
    }
    assert forall|j: int|
        0 <= j < entries.len() && original_of(
            (#[trigger] entries[j]).file_stem@,
        ) == stem implies out.contains(variant_of(entries[j], stem)) by {
        let x = variant_of(entries[j], stem);
        assert(v.contains(x));
        assert(v.to_multiset().contains(x));
        assert(out.to_multiset().contains(x));
    }
    assert forall|i: int, k: int| 0 <= i < k < out.len() implies (#[trigger] out[i]).modified_at
        >= (#[trigger] out[k]).modified_at by {
        assert(!variant_before()(out[k], out[i]));
    }
}

/// Every picture of a known format can be compressed at every level, and converted to every
/// format, as far as it can be written: only the writing itself fails.
pub proof fn only_writing_fails(bytes: Seq<u8>, format: Seq<char>, level: Seq<char>)
    requires
        is_known_format(format),
    ensures
        level == "q80"@ ==> (compressed(bytes, format, level) is Ok <==> written_jpeg(bytes, 80) is Ok),
        level == "q60"@ ==> (compressed(bytes, format, level) is Ok <==> written_jpeg(bytes, 60) is Ok),
        level == "lossless"@ && (format == "jpg"@ || format == "jpeg"@) ==> (compressed(
            bytes,
            format,
            level,
        ) is Ok <==> written_jpeg(bytes, 95) is Ok),
        level == "lossless"@ && format == "webp"@ ==> (compressed(bytes, format, level) is Ok
            <==> written_plain(bytes, PlainFormat::WebP) is Ok),
        level == "lossless"@ && (format == "png"@ || format == "gif"@ || format == "bmp"@) ==> (
        compressed(bytes, format, level) is Ok <==> written_plain(bytes, PlainFormat::Png) is Ok),
        converted(bytes, "jpg"@) is Ok <==> written_jpeg(bytes, 90) is Ok,
        converted(bytes, "png"@) is Ok <==> written_plain(bytes, PlainFormat::Png) is Ok,
        converted(bytes, "webp"@) is Ok <==> written_plain(bytes, PlainFormat::WebP) is Ok,
        converted(bytes, "bmp"@) is Ok <==> written_plain(bytes, PlainFormat::Bmp) is Ok,
        converted(bytes, "gif"@) is Ok <==> written_plain(bytes, PlainFormat::Gif) is Ok,
{
    reveal_strlit("png");
    reveal_strlit("webp");
    reveal_strlit("jpg");
    reveal_strlit("jpeg");
    reveal_strlit("gif");
    reveal_strlit("bmp");
    reveal_strlit("lossless");
    reveal_strlit("q80");
    reveal_strlit("q60");
    assert("png"@.len() == 3);
    assert("jpg"@.len() == 3);
    assert("gif"@.len() == 3);
    assert("bmp"@.len() == 3);
    assert("q80"@.len() == 3);
    assert("q60"@.len() == 3);
    assert("png"@[0] == 'p');
    assert("jpg"@[0] == 'j');
    assert("gif"@[0] == 'g');
    assert("bmp"@[0] == 'b');
    assert("q80"@[0] == 'q');
    assert("q60"@[0] == 'q');
    assert("png"@[1] == 'n');
    assert("jpg"@[1] == 'p');
    assert("gif"@[1] == 'i');
    assert("bmp"@[1] == 'm');
    assert("q80"@[1] == '8');
    assert("q60"@[1] == '6');
    assert("webp"@.len() == 4);
    assert("jpeg"@.len() == 4);
    assert("webp"@[0] == 'w');
    assert("jpeg"@[0] == 'j');
    assert("lossless"@.len() == 8);
}

/// Whether a format is one of those that are known.
pub open spec fn is_known_format(format: Seq<char>) -> bool {
    format == "jpg"@ || format == "jpeg"@ || format == "png"@ || format == "webp"@ || format == "gif"@
        || format == "bmp"@
}

} // verus!
