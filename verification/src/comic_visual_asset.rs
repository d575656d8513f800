//! The asset of a page run, read only with its whole lineage.
use crate::comic_visual_render::{candidate_holds, validate_candidate_asset, CandidateFacts};
use crate::commands::AssetRef;
use crate::json::{json_parsed, text_at, Json, JsonView};
use crate::text::{is_text, owned, same};
use vstd::prelude::*;

verus! {

/// What is said wherever the asset of a run cannot be shown.
pub const ASSET_UNAVAILABLE: &'static str = "VISUAL_PAGE_ASSET_UNAVAILABLE";

#[derive(Debug)]
pub struct ComicVisualPageAssetGetInput {
    pub project_id: String,
    pub novel_work_id: String,
    pub run_id: String,
}

/// A run with its manifest, its page and its asset, as they are stored.
#[derive(Debug)]
pub struct AssetCandidateRow {
    pub asset: AssetRef,
    pub metadata: String,
    pub run_id: String,
    pub run_status: String,
    pub run_project_id: String,
    pub run_novel_work_id: String,
    pub project_id: String,
    pub novel_work_id: String,
    pub production_chapter_id: String,
    pub page_chapter_id: String,
    pub manifest_id: String,
    pub production_page_id: String,
    pub generation_attempt_id: String,
    pub run_fingerprint: String,
    pub manifest_fingerprint: String,
}

/// A stored width or height, which must fit in thirty-two bits.
pub fn read_dimension(value: Option<i64>) -> (r: Result<Option<u32>, String>)
    ensures
        match value {
            None => r matches Ok(d) && d is None,
            Some(v) => if 0 <= v <= u32::MAX {
                r matches Ok(d) && d == Some(v as u32)
            } else {
                r matches Err(e) && e@ == ASSET_UNAVAILABLE@
            },
        },
{
    match value {
        None => Ok(None),
        Some(v) => if v >= 0 && v <= 0xffff_ffff {
            Ok(Some(v as u32))
        } else {
            Err(owned(ASSET_UNAVAILABLE))
        },
    }
}

/// Whether a run with its manifest and its page is a candidate of the project and the work.
pub open spec fn is_candidate_of(
    row: AssetCandidateRow,
    input: ComicVisualPageAssetGetInput,
) -> bool {
    &&& row.run_id@ == input.run_id@
    &&& row.run_project_id@ == input.project_id@
    &&& row.run_novel_work_id@ == input.novel_work_id@
    &&& row.run_status@ == "candidate_ready"@
    &&& row.project_id@ == input.project_id@
    &&& row.novel_work_id@ == input.novel_work_id@
    &&& row.run_fingerprint@ == row.manifest_fingerprint@
    &&& row.page_chapter_id@ == row.production_chapter_id@
}

/// Decides whether a run is a candidate of the project and the work.
pub fn candidate_of(row: &AssetCandidateRow, input: &ComicVisualPageAssetGetInput) -> (r: bool)
    ensures
        r == is_candidate_of(*row, *input),
{
    same(row.run_id.as_str(), input.run_id.as_str()) && same(
        row.run_project_id.as_str(),
        input.project_id.as_str(),
    ) && same(row.run_novel_work_id.as_str(), input.novel_work_id.as_str()) && same(
        row.run_status.as_str(),
        "candidate_ready",
    ) && same(row.project_id.as_str(), input.project_id.as_str()) && same(
        row.novel_work_id.as_str(),
        input.novel_work_id.as_str(),
    ) && same(row.run_fingerprint.as_str(), row.manifest_fingerprint.as_str()) && same(
        row.page_chapter_id.as_str(),
        row.production_chapter_id.as_str(),
    )
}

/// Whether the metadata of an asset names the whole lineage of a run.
pub open spec fn lineage_holds(
    metadata: JsonView,
    row: AssetCandidateRow,
    input: ComicVisualPageAssetGetInput,
) -> bool {
    &&& row.project_id@ == input.project_id@
    &&& row.novel_work_id@ == input.novel_work_id@
    &&& text_at(metadata, "projectId"@) == Some(input.project_id@)
    &&& text_at(metadata, "novelWorkId"@) == Some(input.novel_work_id@)
    &&& text_at(metadata, "productionChapterId"@) == Some(row.production_chapter_id@)
    &&& text_at(metadata, "comicVisualManifestId"@) == Some(row.manifest_id@)
    &&& text_at(metadata, "productionPageId"@) == Some(row.production_page_id@)
    &&& text_at(metadata, "visualRunId"@) == Some(input.run_id@)
    &&& text_at(metadata, "generationAttemptId"@) == Some(row.generation_attempt_id@)
    &&& text_at(metadata, "manifestFingerprint"@) == Some(row.run_fingerprint@)
}

/// Decides whether metadata names the whole lineage of a run.
pub fn names_lineage(
    metadata: &Json,
    row: &AssetCandidateRow,
    input: &ComicVisualPageAssetGetInput,
) -> (r: bool)
    ensures
        r == lineage_holds(metadata@, *row, *input),
{
    same(row.project_id.as_str(), input.project_id.as_str()) && same(
        row.novel_work_id.as_str(),
        input.novel_work_id.as_str(),
    ) && is_text(metadata.text_at("projectId"), input.project_id.as_str()) && is_text(
        metadata.text_at("novelWorkId"),
        input.novel_work_id.as_str(),
    ) && is_text(
        metadata.text_at("productionChapterId"),
        row.production_chapter_id.as_str(),
    ) && is_text(metadata.text_at("comicVisualManifestId"), row.manifest_id.as_str()) && is_text(
        metadata.text_at("productionPageId"),
        row.production_page_id.as_str(),
    ) && is_text(metadata.text_at("visualRunId"), input.run_id.as_str()) && is_text(
        metadata.text_at("generationAttemptId"),
        row.generation_attempt_id.as_str(),
    ) && is_text(metadata.text_at("manifestFingerprint"), row.run_fingerprint.as_str())
}

/// Checks the lineage of a stored asset: its metadata must be JSON that names it all.
pub fn validate_lineage(row: &AssetCandidateRow, input: &ComicVisualPageAssetGetInput) -> (r:
    Result<(), String>)
    ensures
        r is Ok <==> (json_parsed(row.metadata@) matches Some(m) && lineage_holds(
            m,
            *row,
            *input,
        )),
        r matches Err(e) ==> e@ == ASSET_UNAVAILABLE@,
{
    match Json::from_text(row.metadata.as_str()) {
        Some(metadata) => if names_lineage(&metadata, row, input) {
            Ok(())
        } else {
            Err(owned(ASSET_UNAVAILABLE))
        },
        None => Err(owned(ASSET_UNAVAILABLE)),
    }
}

/// Whether the asset of a run can be shown: it is a candidate, its metadata names the lineage,
/// and its file is an image of the run.
pub open spec fn is_available(
    row: AssetCandidateRow,
    facts: CandidateFacts,
    input: ComicVisualPageAssetGetInput,
) -> bool {
    &&& is_candidate_of(row, input)
    &&& json_parsed(row.metadata@) matches Some(m) && lineage_holds(m, row, input)
    &&& candidate_holds(facts)
}

/// Reads the asset of a run. `row` is what is stored of it, and `facts` what is known of its
/// file.
pub fn get_inner(
    row: Option<AssetCandidateRow>,
    facts: &CandidateFacts,
    input: &ComicVisualPageAssetGetInput,
) -> (r: Result<AssetRef, String>)
    ensures
        r is Ok <==> row is Some && is_available(row->0, *facts, *input),
        r matches Ok(asset) ==> asset == row->0.asset,
        r matches Err(e) ==> e@ == ASSET_UNAVAILABLE@,
{
    let row = match row {
        Some(row) => row,
        None => return Err(owned(ASSET_UNAVAILABLE)),
    };
    if !candidate_of(&row, input) {
        return Err(owned(ASSET_UNAVAILABLE));
    }
    match validate_lineage(&row, input) {
        Ok(_) => {},
        Err(e) => return Err(e),
    }
    match validate_candidate_asset(facts) {
        Ok(_) => Ok(row.asset),
        Err(_) => Err(owned(ASSET_UNAVAILABLE)),
    }
}

/// An asset that can be shown belongs to the project and the work that ask for it, and its file
/// lies in the directory of the run.
pub proof fn shown_asset_belongs_to_the_caller(
    row: AssetCandidateRow,
    facts: CandidateFacts,
    input: ComicVisualPageAssetGetInput,
)
    requires
        is_available(row, facts, input),
    ensures
        row.run_project_id@ == input.project_id@ && row.run_novel_work_id@ == input.novel_work_id@,
        row.project_id@ == input.project_id@ && row.novel_work_id@ == input.novel_work_id@,
        row.run_status@ == "candidate_ready"@,
        facts.path is Some && facts.output_dir is Some,
        crate::paths::lies_under(
            crate::text::texts_view(facts.path->0@),
            crate::text::texts_view(facts.output_dir->0@),
        ),
{
}

} // verus!
