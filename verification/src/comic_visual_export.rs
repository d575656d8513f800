//! Exports of page candidates: explicit, verified and never overwriting.
use crate::comic_visual::hash_tells_apart;
use crate::comic_visual_asset::ComicVisualPageAssetGetInput;
use crate::commands::AssetRef;
use crate::digest::{sha256_digest, sha256_hex};
use crate::json::{
    fields, is_plain, items_view, json_array, json_parsed, json_pretty, json_same,
    json_same_reflexive, json_text, no_members, Json, JsonView,
};
use crate::outside::{decode_picture, is_picture};
use crate::paths::{lies_under, path_lies_under};
use crate::sequence::{
    find_first, insert_ordered, is_order_relation, is_ordered, lemma_find_first,
    lemma_insert_ordered, lemma_mapped_multisets, sort_ordered, sorting_orders,
};
use crate::text::{
    begins_with, blank, chars_of, concat2, decimal, decimal_i64, decimal_int, decimal_u64,
    is_ascii_alphanumeric, is_blank, is_text, opt_view, owned, precedes, result_view, same,
    starts_with, text_precedes, texts_view,
};
use vstd::prelude::*;

verus! {

/// The name of the command under which the receipts of exports are kept.
pub const COMMAND_EXPORT: &'static str = "comic_visual_batch_export";

/// What is said wherever an export cannot be made or shown.
pub const EXPORT_UNAVAILABLE: &'static str = "VISUAL_EXPORT_UNAVAILABLE";

/// A page of a batch that is to be exported.
#[derive(Debug)]
pub struct ComicVisualExportSelection {
    pub member_id: String,
    pub run_id: String,
    pub asset_id: String,
}

#[derive(Debug)]
pub struct ComicVisualBatchExportInput {
    pub project_id: String,
    pub novel_work_id: String,
    pub batch_id: String,
    pub selections: Vec<ComicVisualExportSelection>,
    pub destination_dir: String,
    pub idempotency_key: String,
}

/// An export of one page, whose destination the application chooses.
#[derive(Debug)]
pub struct ComicVisualPageExportDefaultInput {
    pub project_id: String,
    pub novel_work_id: String,
    pub batch_id: String,
    pub selection: ComicVisualExportSelection,
    pub idempotency_key: String,
}

#[derive(Debug)]
pub struct ComicVisualExportOpenInput {
    pub project_id: String,
    pub novel_work_id: String,
    pub export_id: String,
    pub member_id: Option<String>,
}

#[derive(Debug)]
pub struct ComicVisualExportFile {
    pub member_id: String,
    pub ordinal: i64,
    pub manifest_id: String,
    pub production_chapter_id: String,
    pub production_page_id: String,
    pub run_id: String,
    pub asset_id: String,
    pub path: String,
    pub sha256: String,
}

#[derive(Debug)]
pub struct ComicVisualExport {
    pub export_id: String,
    pub batch_id: String,
    pub directory_path: String,
    pub manifest_path: String,
    pub created_at: i64,
    pub files: Vec<ComicVisualExportFile>,
}

/// What a selection says.
pub struct SelectionView {
    pub member_id: Seq<char>,
    pub run_id: Seq<char>,
    pub asset_id: Seq<char>,
}

impl View for ComicVisualExportSelection {
    type V = SelectionView;

    open spec fn view(&self) -> SelectionView {
        SelectionView {
            member_id: self.member_id@,
            run_id: self.run_id@,
            asset_id: self.asset_id@,
        }
    }
}

impl ComicVisualExportSelection {
    /// A copy of the selection.
    pub fn copy(&self) -> (r: ComicVisualExportSelection)
        ensures
            r@ == self@,
    {
        ComicVisualExportSelection {
            member_id: self.member_id.clone(),
            run_id: self.run_id.clone(),
            asset_id: self.asset_id.clone(),
        }
    }
}

/// The views of selections.
pub open spec fn selections_view(v: Seq<ComicVisualExportSelection>) -> Seq<SelectionView> {
    v.map_values(|s: ComicVisualExportSelection| s@)
}

/// What a file of an export says.
pub struct FileView {
    pub member_id: Seq<char>,
    pub ordinal: int,
    pub manifest_id: Seq<char>,
    pub production_chapter_id: Seq<char>,
    pub production_page_id: Seq<char>,
    pub run_id: Seq<char>,
    pub asset_id: Seq<char>,
    pub path: Seq<char>,
    pub sha256: Seq<char>,
}

impl View for ComicVisualExportFile {
    type V = FileView;

    open spec fn view(&self) -> FileView {
        FileView {
            member_id: self.member_id@,
            ordinal: self.ordinal as int,
            manifest_id: self.manifest_id@,
            production_chapter_id: self.production_chapter_id@,
            production_page_id: self.production_page_id@,
            run_id: self.run_id@,
            asset_id: self.asset_id@,
            path: self.path@,
            sha256: self.sha256@,
        }
    }
}

/// The views of the files of an export.
pub open spec fn files_view(v: Seq<ComicVisualExportFile>) -> Seq<FileView> {
    v.map_values(|f: ComicVisualExportFile| f@)
}

// ---------------------------------------------------------------------------
// Requests
// ---------------------------------------------------------------------------

/// Whether a member is selected twice.
pub open spec fn has_duplicate(s: Seq<SelectionView>) -> bool {
    exists|i: int, j: int|
        0 <= i < j < s.len() && (#[trigger] s[i]).member_id == (#[trigger] s[j]).member_id
}

/// Whether a selection comes before another: by the identifier of its member.
pub open spec fn selection_before() -> spec_fn(SelectionView, SelectionView) -> bool {
    |a: SelectionView, b: SelectionView| precedes(a.member_id, b.member_id)
}

/// Selections in the order of their members.
pub open spec fn ordered_selections(s: Seq<SelectionView>) -> Seq<SelectionView> {
    sort_ordered(s, selection_before())
}

/// A selection as JSON.
pub open spec fn selection_value(s: SelectionView) -> JsonView {
    JsonView::Obj(
        no_members()
            .push(("memberId"@, JsonView::Str(s.member_id)))
            .push(("runId"@, JsonView::Str(s.run_id)))
            .push(("assetId"@, JsonView::Str(s.asset_id))),
    )
}

/// Selections as JSON.
pub open spec fn selections_value(s: Seq<SelectionView>) -> JsonView {
    JsonView::Arr(s.map_values(|x: SelectionView| selection_value(x)))
}

/// The request that identifies an export; its hash guards the idempotency key.
pub open spec fn export_request_value(
    input: ComicVisualBatchExportInput,
    destination: Seq<char>,
) -> JsonView {
    JsonView::Obj(
        no_members()
            .push(("projectId"@, JsonView::Str(input.project_id@)))
            .push(("novelWorkId"@, JsonView::Str(input.novel_work_id@)))
            .push(("batchId"@, JsonView::Str(input.batch_id@)))
            .push(
            (
                "selections"@,
                selections_value(ordered_selections(selections_view(input.selections@))),
            ),
        )
            .push(("destinationDir"@, JsonView::Str(destination))),
    )
}

/// Why an export is refused at once, where it is.
pub open spec fn export_refusal(input: ComicVisualBatchExportInput) -> Option<Seq<char>> {
    if is_blank(input.idempotency_key@) || input.selections.len() == 0 {
        Some("VISUAL_EXPORT_INPUT_REQUIRED"@)
    } else if has_duplicate(selections_view(input.selections@)) {
        Some("VISUAL_EXPORT_SELECTION_DUPLICATE"@)
    } else {
        None
    }
}

/// An export that has passed the first checks.
#[derive(Debug)]
pub struct ExportRequest {
    pub selections: Vec<ComicVisualExportSelection>,
    pub request: Json,
    pub pending: Json,
}

fn selection_json(s: &ComicVisualExportSelection) -> (r: Json)
    ensures
        r@ == selection_value(s@),
{
    fields().text("memberId", s.member_id.as_str()).text("runId", s.run_id.as_str()).text(
        "assetId",
        s.asset_id.as_str(),
    ).object()
}

fn selections_json(list: &Vec<ComicVisualExportSelection>) -> (r: Json)
    ensures
        r@ == selections_value(selections_view(list@)),
{
    let mut out: Vec<Json> = Vec::new();
    let mut i: usize = 0;
    while i < list.len()
        invariant
            i <= list.len(),
            out.len() == i,
            forall|j: int| 0 <= j < i ==> (#[trigger] out@[j])@ == selection_value(list@[j]@),
        decreases list.len() - i,
    {
        out.push(selection_json(&list[i]));
        i += 1;
    }
    assert(items_view(out@) =~= selections_view(list@).map_values(
        |x: SelectionView| selection_value(x),
    ));
    json_array(out)
}

fn duplicated(list: &Vec<ComicVisualExportSelection>) -> (r: bool)
    ensures
        r == has_duplicate(selections_view(list@)),
{
    let ghost views = selections_view(list@);
    let mut i: usize = 0;
    while i < list.len()
        invariant
            i <= list.len(),
            views == selections_view(list@),
            forall|a: int, b: int|
                0 <= a < i && a < b < list.len() ==> (#[trigger] views[a]).member_id != (
                #[trigger] views[b]).member_id,
        decreases list.len() - i,
    {
        let mut k: usize = i + 1;
        while k < list.len()
            invariant
                i < k <= list.len(),
                views == selections_view(list@),
                forall|b: int|
                    i < b < k ==> views[i as int].member_id != (#[trigger] views[b]).member_id,
            decreases list.len() - k,
        {
            assert(views[i as int] == list@[i as int]@ && views[k as int] == list@[k as int]@);
            if same(list[i].member_id.as_str(), list[k].member_id.as_str()) {
                assert(views[i as int].member_id == views[k as int].member_id);
                return true;
            }
            k += 1;
        }
        i += 1;
    }
    false
}

fn enter_selection(list: &mut Vec<ComicVisualExportSelection>, s: ComicVisualExportSelection)
    ensures
        selections_view(final(list)@) == insert_ordered(
            selections_view(old(list)@),
            s@,
            selection_before(),
        ),
{
    let ghost before = selections_view(list@);
    let mut k: usize = list.len();
    while k > 0 && text_precedes(s.member_id.as_str(), list[k - 1].member_id.as_str())
        invariant
            k <= list.len(),
            before == selections_view(list@),
            forall|i: int| k <= i < list.len() ==> selection_before()(s@, #[trigger] before[i]),
        decreases k,
    {
        k -= 1;
    }
    proof {
        lemma_insert_ordered(before, s@, selection_before(), k as int);
    }
    list.insert(k, s);
    assert(selections_view(list@) =~= before.insert(k as int, s@));
}

fn sort_selections(list: &Vec<ComicVisualExportSelection>) -> (r: Vec<ComicVisualExportSelection>)
    ensures
        selections_view(r@) == ordered_selections(selections_view(list@)),
{
    let ghost views = selections_view(list@);
    let mut out: Vec<ComicVisualExportSelection> = Vec::new();
    let mut i: usize = 0;
    assert(selections_view(out@) =~= ordered_selections(views.take(0)));
    while i < list.len()
        invariant
            i <= list.len(),
            views == selections_view(list@),
            selections_view(out@) == ordered_selections(views.take(i as int)),
        decreases list.len() - i,
    {
        proof {
            assert(views.take(i + 1).drop_last() =~= views.take(i as int));
            assert(views.take(i + 1).last() == list@[i as int]@);
        }
        enter_selection(&mut out, list[i].copy());
        i += 1;
    }
    assert(views.take(i as int) =~= views);
    out
}

/// Checks an export and puts its selections in the order of their members. `destination` is
/// the resolved directory that it goes to.
pub fn prepare_export(input: &ComicVisualBatchExportInput, destination: &str) -> (r: Result<
    ExportRequest,
    String,
>)
    ensures
        match export_refusal(*input) {
            Some(e) => r matches Err(f) && f@ == e,
            None => {
                let ordered = ordered_selections(selections_view(input.selections@));
                &&& r is Ok
                &&& selections_view(r->Ok_0.selections@) == ordered
                &&& r->Ok_0.request@ == export_request_value(*input, destination@)
                &&& r->Ok_0.pending@ == JsonView::Obj(
                    no_members()
                        .push(("candidate"@, JsonView::Bool(true)))
                        .push(("requestedSelections"@, selections_value(ordered))),
                )
            },
        },
{
    if blank(input.idempotency_key.as_str()) || input.selections.len() == 0 {
        return Err(owned("VISUAL_EXPORT_INPUT_REQUIRED"));
    }
    if duplicated(&input.selections) {
        return Err(owned("VISUAL_EXPORT_SELECTION_DUPLICATE"));
    }
    let selections = sort_selections(&input.selections);
    let request = fields().text("projectId", input.project_id.as_str()).text(
        "novelWorkId",
        input.novel_work_id.as_str(),
    ).text("batchId", input.batch_id.as_str()).with("selections", selections_json(&selections)).text(
        "destinationDir",
        destination,
    ).object();
    let pending = fields().flag("candidate", true).with(
        "requestedSelections",
        selections_json(&selections),
    ).object();
    Ok(ExportRequest { selections, request, pending })
}

/// The selections of an export are in the order of their members; none is lost or added.
pub proof fn selections_come_in_order(s: Seq<SelectionView>)
    ensures
        is_ordered(ordered_selections(s), selection_before()),
        ordered_selections(s).to_multiset() == s.to_multiset(),
{
    let before = selection_before();
    assert forall|x: SelectionView, y: SelectionView| #[trigger] before(x, y) implies !before(
        y,
        x,
    ) by {
        crate::text::lemma_precedes_total(x.member_id, y.member_id);
    }
    assert forall|x: SelectionView, y: SelectionView, z: SelectionView|
        #[trigger] before(x, y) && !(#[trigger] before(z, y)) implies before(x, z) by {
        crate::text::lemma_precedes_total(y.member_id, z.member_id);
        if z.member_id != y.member_id {
            crate::text::lemma_precedes_trans(x.member_id, y.member_id, z.member_id);
        }
    }
    assert(is_order_relation(before));
    sorting_orders(s, before);
}

/// The stored receipt of an export.
#[derive(Debug)]
pub struct ExportReceipt {
    pub request_hash: String,
    pub export_id: String,
}

impl View for ExportReceipt {
    type V = (Seq<char>, Seq<char>);

    /// The request hash and the export of a receipt.
    open spec fn view(&self) -> (Seq<char>, Seq<char>) {
        (self.request_hash@, self.export_id@)
    }
}

/// What is to be done for an export.
#[derive(Debug)]
pub enum ExportStep {
    /// Show the export that was made before.
    Replay(String),
    /// Make a new one.
    Write,
}

/// What is to be done for an export, in characters.
pub enum ExportStepView {
    Replay(Seq<char>),
    Write,
}

impl View for ExportStep {
    type V = ExportStepView;

    open spec fn view(&self) -> ExportStepView {
        match self {
            ExportStep::Replay(id) => ExportStepView::Replay(id@),
            ExportStep::Write => ExportStepView::Write,
        }
    }
}

/// What is to be done for an export: a used key shows its own export, and is refused for
/// another request.
pub open spec fn export_answer(receipt: Option<(Seq<char>, Seq<char>)>, request_hash: Seq<char>) -> Result<
    ExportStepView,
    Seq<char>,
> {
    match receipt {
        Some(receipt) => if receipt.0 == request_hash {
            Ok(ExportStepView::Replay(receipt.1))
        } else {
            Err("VISUAL_EXPORT_IDEMPOTENCY_MISMATCH"@)
        },
        None => Ok(ExportStepView::Write),
    }
}

/// Decides whether an export is new. `receipt` is what is stored under its idempotency key.
pub fn decide_export(receipt: Option<ExportReceipt>, request_hash: &str) -> (r: Result<
    ExportStep,
    String,
>)
    ensures
        result_view(r) == export_answer(opt_view(receipt), request_hash@),
{
    match receipt {
        Some(receipt) => if same(receipt.request_hash.as_str(), request_hash) {
            Ok(ExportStep::Replay(receipt.export_id))
        } else {
            Err(owned("VISUAL_EXPORT_IDEMPOTENCY_MISMATCH"))
        },
        None => Ok(ExportStep::Write),
    }
}

/// In which order the selections are given does not matter: the same ones come out in the same
/// order.
pub proof fn selections_are_ordered_alike(a: Seq<SelectionView>, b: Seq<SelectionView>)
    requires
        a.to_multiset() == b.to_multiset(),
        !has_duplicate(a),
    ensures
        ordered_selections(a) == ordered_selections(b),
{
    selections_come_in_order(a);
    selections_come_in_order(b);
    lemma_distinct_after_reordering(a, ordered_selections(a));
    lemma_one_order(ordered_selections(a), ordered_selections(b));
}

proof fn lemma_count_of_distinct(s: Seq<SelectionView>, i: int)
    requires
        !has_duplicate(s),
        0 <= i < s.len(),
    ensures
        forall|j: int|
            0 <= j < s.len() && j != i ==> (#[trigger] s[j]).member_id != s[i].member_id,
{
    assert forall|j: int| 0 <= j < s.len() && j != i implies (#[trigger] s[j]).member_id
        != s[i].member_id by {
        if j < i {
            assert(!(s[j].member_id == s[i].member_id));
        } else {
            assert(!(s[i].member_id == s[j].member_id));
        }
    }
}

proof fn lemma_distinct_after_reordering(a: Seq<SelectionView>, b: Seq<SelectionView>)
    requires
        a.to_multiset() == b.to_multiset(),
        !has_duplicate(a),
    ensures
        !has_duplicate(b),
{
    broadcast use vstd::seq_lib::group_to_multiset_ensures;

    assert forall|i: int, j: int| 0 <= i < j < b.len() implies (#[trigger] b[i]).member_id != (
    #[trigger] b[j]).member_id by {
        if b[i].member_id == b[j].member_id {
            assert(b.to_multiset().count(b[i]) > 0);
            assert(b.to_multiset().count(b[j]) > 0);
            let p = choose|p: int| 0 <= p < a.len() && a[p] == b[i];
            let q = choose|q: int| 0 <= q < a.len() && a[q] == b[j];
            assert(a.contains(b[i]) && a.contains(b[j]));
            lemma_count_of_distinct(a, p);
            assert(p == q);
            let rest = b.remove(j);
            assert(b =~= rest.insert(j, b[j]));
            assert(rest[i] == b[i]);
            assert(rest.to_multiset().count(b[i]) > 0);
            assert(b.to_multiset() == rest.to_multiset().insert(b[j]));
            assert(b.to_multiset().count(b[i]) > 1);
            let rest = a.remove(p);
            assert(a =~= rest.insert(p, a[p]));
            assert(a.to_multiset() == rest.to_multiset().insert(a[p]));
            assert(rest.to_multiset().count(a[p]) > 0);
            assert(rest.contains(a[p]));
            let k = choose|k: int| 0 <= k < rest.len() && rest[k] == a[p];
            let l = if k < p {
                k
            } else {
                k + 1
            };
            assert(a[l] == a[p]);
        }
    }
}

/// Two ordered sequences of the same selections are equal.
proof fn lemma_one_order(p: Seq<SelectionView>, q: Seq<SelectionView>)
    requires
        is_ordered(p, selection_before()),
        is_ordered(q, selection_before()),
        p.to_multiset() == q.to_multiset(),
        !has_duplicate(p),
    ensures
        p == q,
    decreases p.len(),
{
    broadcast use vstd::seq_lib::group_to_multiset_ensures;

    assert(p.len() == p.to_multiset().len() && q.len() == q.to_multiset().len());
    if p.len() == 0 {
        assert(p =~= q);
    } else {
        let before = selection_before();
        let n = p.len() - 1;
        let x = p.last();
        let y = q.last();
        assert(p.contains(x) && q.contains(y));
        assert(p.to_multiset().count(x) > 0 && q.to_multiset().count(y) > 0);
        assert(q.contains(x) && p.contains(y));
        let i = choose|i: int| 0 <= i < q.len() && q[i] == x;
        let j = choose|j: int| 0 <= j < p.len() && p[j] == y;
        if x != y {
            assert(i < n && j < n);
            assert(!before(q[n], q[i]));
            assert(!before(p[n], p[j]));
            crate::text::lemma_precedes_total(x.member_id, y.member_id);
            assert(p[j].member_id == p[n].member_id);
        }
        let a = p.drop_last();
        let b = q.drop_last();
        assert(p =~= a.push(x) && q =~= b.push(x));
        assert(a.to_multiset() =~= p.to_multiset().remove(x));
        assert(b.to_multiset() =~= q.to_multiset().remove(x));
        assert forall|s: int, t: int| 0 <= s < t < a.len() implies (#[trigger] a[s]).member_id != (
        #[trigger] a[t]).member_id by {
            assert(p[s].member_id != p[t].member_id);
        }
        assert forall|s: int, t: int| 0 <= s < t < a.len() implies !before(
            #[trigger] a[t],
            #[trigger] a[s],
        ) by {
            assert(!before(p[t], p[s]));
        }
        assert forall|s: int, t: int| 0 <= s < t < b.len() implies !before(
            #[trigger] b[t],
            #[trigger] b[s],
        ) by {
            assert(!before(q[t], q[s]));
        }
        lemma_one_order(a, b);
    }
}

/// Whether two exports ask for the same pages of the same batch, under whatever keys and in
/// whatever order.
pub open spec fn same_export(
    a: ComicVisualBatchExportInput,
    b: ComicVisualBatchExportInput,
) -> bool {
    &&& a.project_id@ == b.project_id@
    &&& a.novel_work_id@ == b.novel_work_id@
    &&& a.batch_id@ == b.batch_id@
    &&& selections_view(a.selections@).to_multiset() == selections_view(b.selections@).to_multiset()
}

proof fn lemma_selections_value(a: Seq<SelectionView>, b: Seq<SelectionView>)
    requires
        selections_value(a) == selections_value(b),
    ensures
        a == b,
{
    let p = selections_value(a)->Arr_0;
    let q = selections_value(b)->Arr_0;
    assert(p.len() == a.len() && q.len() == b.len());
    assert forall|i: int| 0 <= i < a.len() implies a[i] == b[i] by {
        assert(p[i] == selection_value(a[i]) && q[i] == selection_value(b[i]));
        let x = selection_value(a[i])->Obj_0;
        let y = selection_value(b[i])->Obj_0;
        assert(x[0] == ("memberId"@, JsonView::Str(a[i].member_id)));
        assert(y[0] == ("memberId"@, JsonView::Str(b[i].member_id)));
        assert(x[1] == ("runId"@, JsonView::Str(a[i].run_id)));
        assert(y[1] == ("runId"@, JsonView::Str(b[i].run_id)));
        assert(x[2] == ("assetId"@, JsonView::Str(a[i].asset_id)));
        assert(y[2] == ("assetId"@, JsonView::Str(b[i].asset_id)));
    }
    assert(a =~= b);
}

/// What a request hash is taken of tells two exports apart exactly where they ask for
/// different pages, another batch or another destination.
pub proof fn export_request_tells_requests_apart(
    a: ComicVisualBatchExportInput,
    to: Seq<char>,
    b: ComicVisualBatchExportInput,
    other: Seq<char>,
)
    requires
        export_refusal(a) is None,
    ensures
        export_request_value(a, to) == export_request_value(b, other) <==> same_export(a, b) && to
            == other,
{
    let x = selections_view(a.selections@);
    let y = selections_view(b.selections@);
    if export_request_value(a, to) == export_request_value(b, other) {
        let p = export_request_value(a, to)->Obj_0;
        let q = export_request_value(b, other)->Obj_0;
        assert(p[0] == ("projectId"@, JsonView::Str(a.project_id@)));
        assert(q[0] == ("projectId"@, JsonView::Str(b.project_id@)));
        assert(p[1] == ("novelWorkId"@, JsonView::Str(a.novel_work_id@)));
        assert(q[1] == ("novelWorkId"@, JsonView::Str(b.novel_work_id@)));
        assert(p[2] == ("batchId"@, JsonView::Str(a.batch_id@)));
        assert(q[2] == ("batchId"@, JsonView::Str(b.batch_id@)));
        assert(p[3] == ("selections"@, selections_value(ordered_selections(x))));
        assert(q[3] == ("selections"@, selections_value(ordered_selections(y))));
        assert(p[4] == ("destinationDir"@, JsonView::Str(to)));
        assert(q[4] == ("destinationDir"@, JsonView::Str(other)));
        lemma_selections_value(ordered_selections(x), ordered_selections(y));
        selections_come_in_order(x);
        selections_come_in_order(y);
    }
    if same_export(a, b) {
        selections_are_ordered_alike(x, y);
    }
}

/// The name of the directory of an export.
pub open spec fn directory_name(export_id: Seq<char>) -> Seq<char> {
    "comic-pages-"@ + export_id
}

/// The name of the directory of an export.
pub fn export_directory_name(export_id: &str) -> (r: String)
    ensures
        r@ == directory_name(export_id@),
{
    concat2("comic-pages-", export_id)
}

/// Exports under different identifiers go to different directories: none overwrites another.
pub proof fn export_directories_differ(a: Seq<char>, b: Seq<char>)
    requires
        a != b,
    ensures
        directory_name(a) != directory_name(b),
{
    let p = "comic-pages-"@;
    if p + a == p + b {
        assert((p + a).subrange(p.len() as int, (p + a).len() as int) =~= a);
        assert((p + b).subrange(p.len() as int, (p + b).len() as int) =~= b);
    }
}

/// The code under which a failed export is stored.
pub fn failure_code(error: &str) -> (r: String)
    ensures
        r@ == if begins_with(error@, "VISUAL_EXPORT_"@) {
            error@
        } else {
            "VISUAL_EXPORT_WRITE_FAILED"@
        },
{
    if starts_with(error, "VISUAL_EXPORT_") {
        owned(error)
    } else {
        owned("VISUAL_EXPORT_WRITE_FAILED")
    }
}

// ---------------------------------------------------------------------------
// Selected pages
// ---------------------------------------------------------------------------

/// A member with its batch and its run, as they are stored.
#[derive(Debug)]
pub struct ExportMemberRow {
    pub batch_id: String,
    pub batch_project_id: String,
    pub batch_novel_work_id: String,
    pub member_id: String,
    pub member_status: String,
    pub ordinal: i64,
    pub manifest_id: String,
    pub production_chapter_id: String,
    pub production_page_id: String,
    pub page_no: i64,
    pub run_id: String,
    pub run_asset_id: Option<String>,
    pub run_status: String,
    pub run_project_id: String,
    pub run_novel_work_id: String,
    pub run_manifest_id: String,
    pub run_page_id: String,
}

/// Whether a stored member is the selected candidate of the batch.
pub open spec fn is_selected(
    row: ExportMemberRow,
    project_id: Seq<char>,
    novel_work_id: Seq<char>,
    batch_id: Seq<char>,
    s: SelectionView,
) -> bool {
    &&& row.batch_id@ == batch_id
    &&& row.batch_project_id@ == project_id
    &&& row.batch_novel_work_id@ == novel_work_id
    &&& row.member_id@ == s.member_id
    &&& row.member_status@ == "candidate_ready"@
    &&& row.run_id@ == s.run_id
    &&& opt_view(row.run_asset_id) == Some(s.asset_id)
    &&& row.run_status@ == "candidate_ready"@
    &&& row.run_project_id@ == row.batch_project_id@
    &&& row.run_novel_work_id@ == row.batch_novel_work_id@
    &&& row.run_manifest_id@ == row.manifest_id@
    &&& row.run_page_id@ == row.production_page_id@
}

/// Checks that a stored member is the selected candidate of the batch.
pub fn load_selection(
    row: Option<ExportMemberRow>,
    project_id: &str,
    novel_work_id: &str,
    batch_id: &str,
    selection: &ComicVisualExportSelection,
) -> (r: Result<ExportMemberRow, String>)
    ensures
        r is Ok <==> row is Some && is_selected(
            row->0,
            project_id@,
            novel_work_id@,
            batch_id@,
            selection@,
        ),
        r matches Ok(found) ==> found == row->0,
        r matches Err(e) ==> e@ == EXPORT_UNAVAILABLE@,
{
    let row = match row {
        Some(row) => row,
        None => return Err(owned(EXPORT_UNAVAILABLE)),
    };
    let asset = match &row.run_asset_id {
        Some(id) => Some(id.as_str()),
        None => None,
    };
    if same(row.batch_id.as_str(), batch_id) && same(row.batch_project_id.as_str(), project_id)
        && same(row.batch_novel_work_id.as_str(), novel_work_id) && same(
        row.member_id.as_str(),
        selection.member_id.as_str(),
    ) && same(row.member_status.as_str(), "candidate_ready") && same(
        row.run_id.as_str(),
        selection.run_id.as_str(),
    ) && is_text(asset, selection.asset_id.as_str()) && same(
        row.run_status.as_str(),
        "candidate_ready",
    ) && same(row.run_project_id.as_str(), row.batch_project_id.as_str()) && same(
        row.run_novel_work_id.as_str(),
        row.batch_novel_work_id.as_str(),
    ) && same(row.run_manifest_id.as_str(), row.manifest_id.as_str()) && same(
        row.run_page_id.as_str(),
        row.production_page_id.as_str(),
    ) {
        Ok(row)
    } else {
        Err(owned(EXPORT_UNAVAILABLE))
    }
}

/// Why the asset of a run is not the one to be exported, where it is not.
pub open spec fn asset_refusal(
    asset: AssetRef,
    selection: SelectionView,
    require_png: bool,
) -> Option<Seq<char>> {
    if asset.id@ != selection.asset_id {
        Some(EXPORT_UNAVAILABLE@)
    } else if require_png && opt_view(asset.format) != Some("png"@) {
        Some("VISUAL_EXPORT_DEFAULT_PNG_REQUIRED"@)
    } else {
        None
    }
}

/// Checks that the asset of a run is the one to be exported.
pub fn check_selected_asset(
    asset: &AssetRef,
    selection: &ComicVisualExportSelection,
    require_png: bool,
) -> (r: Result<(), String>)
    ensures
        match asset_refusal(*asset, selection@, require_png) {
            Some(e) => r matches Err(f) && f@ == e,
            None => r is Ok,
        },
{
    if !same(asset.id.as_str(), selection.asset_id.as_str()) {
        return Err(owned(EXPORT_UNAVAILABLE));
    }
    let format = match &asset.format {
        Some(format) => Some(format.as_str()),
        None => None,
    };
    if require_png && !is_text(format, "png") {
        return Err(owned("VISUAL_EXPORT_DEFAULT_PNG_REQUIRED"));
    }
    Ok(())
}

/// Digits with zeros before them up to a width.
pub open spec fn zero_filled(digits: Seq<char>, width: int) -> Seq<char> {
    if digits.len() < width {
        Seq::new((width - digits.len()) as nat, |i: int| '0') + digits
    } else {
        digits
    }
}

/// A number of at least three characters, with zeros behind its sign.
pub open spec fn three_wide(n: int) -> Seq<char> {
    if n < 0 {
        "-"@ + zero_filled(decimal((-n) as nat), 2)
    } else {
        zero_filled(decimal(n as nat), 3)
    }
}

fn fill_zeros(digits: &str, width: usize) -> (r: String)
    ensures
        r@ == zero_filled(digits@, width as int),
{
    let size: usize = chars_of(digits).len();
    let mut out = String::new();
    let mut i: usize = size;
    assert(out@ =~= Seq::new(0, |i: int| '0'));
    while i < width
        invariant
            size <= i,
            size >= width ==> i == size,
            size < width ==> i <= width,
            out@ =~= Seq::new((i - size) as nat, |i: int| '0'),
        decreases width - i,
    {
        out.push('0');
        i += 1;
    }
    out.append(digits);
    assert(out@ =~= zero_filled(digits@, width as int));
    out
}

fn write_three_wide(n: i64) -> (r: String)
    ensures
        r@ == three_wide(n as int),
{
    if n < 0 {
        let size: u64 = if n == i64::MIN {
            9_223_372_036_854_775_808
        } else {
            (-n) as u64
        };
        concat2("-", fill_zeros(decimal_u64(size).as_str(), 2).as_str())
    } else {
        fill_zeros(decimal_u64(n as u64).as_str(), 3)
    }
}

/// The name of an exported page.
pub open spec fn page_file_name(ordinal: int, page_no: int, extension: Seq<char>) -> Seq<char> {
    three_wide(ordinal) + "-page-"@ + decimal_int(page_no) + "."@ + extension
}

/// Whether pages of a format can be exported.
pub open spec fn is_export_format(s: Seq<char>) -> bool {
    s == "png"@ || s == "jpg"@ || s == "jpeg"@ || s == "webp"@
}

/// The name and the digest of an exported page.
#[derive(Debug)]
pub struct ExportSource {
    pub file_name: String,
    pub sha256: String,
}

/// The digest of bytes with its algorithm.
pub open spec fn digest_text(bytes: Seq<u8>) -> Seq<char> {
    "sha256:"@ + sha256_hex(bytes)
}

/// The digest of bytes with its algorithm.
pub fn sha256(bytes: &Vec<u8>) -> (r: String)
    ensures
        r@ == digest_text(bytes@),
{
    concat2("sha256:", sha256_digest(bytes).as_str())
}

/// Names a page from what was found in its bytes; `decodes` tells whether they are a picture,
/// and `digest` is their digest.
pub fn name_source(
    decodes: bool,
    digest: String,
    format: Option<&str>,
    ordinal: i64,
    page_no: i64,
) -> (r: Result<ExportSource, String>)
    ensures
        if !decodes {
            r matches Err(e) && e@ == "VISUAL_EXPORT_SOURCE_INVALID"@
        } else if format is None || !is_export_format(format->0@) {
            r matches Err(e) && e@ == EXPORT_UNAVAILABLE@
        } else {
            r matches Ok(s) && s.sha256@ == digest@ && s.file_name@ == page_file_name(
                ordinal as int,
                page_no as int,
                format->0@,
            )
        },
{
    if !decodes {
        return Err(owned("VISUAL_EXPORT_SOURCE_INVALID"));
    }
    match format {
        Some(f) => if same(f, "png") || same(f, "jpg") || same(f, "jpeg") || same(f, "webp") {
            let mut name = write_three_wide(ordinal);
            name.append("-page-");
            name.append(decimal_i64(page_no).as_str());
            name.append(".");
            name.append(f);
            Ok(ExportSource { file_name: name, sha256: digest })
        } else {
            Err(owned(EXPORT_UNAVAILABLE))
        },
        None => Err(owned(EXPORT_UNAVAILABLE)),
    }
}

/// Checks the bytes of a page and names the file that they go to.
pub fn export_source(bytes: &Vec<u8>, format: Option<&str>, ordinal: i64, page_no: i64) -> (r:
    Result<ExportSource, String>)
    ensures
        if !is_picture(bytes@) {
            r matches Err(e) && e@ == "VISUAL_EXPORT_SOURCE_INVALID"@
        } else if format is None || !is_export_format(format->0@) {
            r matches Err(e) && e@ == EXPORT_UNAVAILABLE@
        } else {
            r matches Ok(s) && s.sha256@ == digest_text(bytes@) && s.file_name@ == page_file_name(
                ordinal as int,
                page_no as int,
                format->0@,
            )
        },
{
    name_source(decode_picture(bytes), sha256(bytes), format, ordinal, page_no)
}

/// The record of an exported page; `path` is where it was written.
pub fn export_file(
    selection: &ComicVisualExportSelection,
    row: &ExportMemberRow,
    path: &str,
    sha256: &str,
) -> (r: ComicVisualExportFile)
    ensures
        r@ == (FileView {
            member_id: selection.member_id@,
            ordinal: row.ordinal as int,
            manifest_id: row.manifest_id@,
            production_chapter_id: row.production_chapter_id@,
            production_page_id: row.production_page_id@,
            run_id: selection.run_id@,
            asset_id: selection.asset_id@,
            path: path@,
            sha256: sha256@,
        }),
{
    ComicVisualExportFile {
        member_id: selection.member_id.clone(),
        ordinal: row.ordinal,
        manifest_id: row.manifest_id.clone(),
        production_chapter_id: row.production_chapter_id.clone(),
        production_page_id: row.production_page_id.clone(),
        run_id: selection.run_id.clone(),
        asset_id: selection.asset_id.clone(),
        path: owned(path),
        sha256: owned(sha256),
    }
}

/// Whether a file comes before another: by the place of its page in the batch.
pub open spec fn file_before() -> spec_fn(FileView, FileView) -> bool {
    |a: FileView, b: FileView| a.ordinal < b.ordinal
}

/// Files in the order of their pages.
pub open spec fn ordered_files(files: Seq<FileView>) -> Seq<FileView> {
    sort_ordered(files, file_before())
}

fn enter_file(list: &mut Vec<ComicVisualExportFile>, f: ComicVisualExportFile)
    ensures
        files_view(final(list)@) == insert_ordered(files_view(old(list)@), f@, file_before()),
{
    let ghost before = files_view(list@);
    let mut k: usize = list.len();
    while k > 0 && f.ordinal < list[k - 1].ordinal
        invariant
            k <= list.len(),
            before == files_view(list@),
            forall|i: int| k <= i < list.len() ==> file_before()(f@, #[trigger] before[i]),
        decreases k,
    {
        k -= 1;
    }
    proof {
        lemma_insert_ordered(before, f@, file_before(), k as int);
    }
    list.insert(k, f);
    assert(files_view(list@) =~= before.insert(k as int, f@));
}

fn sort_files(files: Vec<ComicVisualExportFile>) -> (r: Vec<ComicVisualExportFile>)
    ensures
        files_view(r@) == ordered_files(files_view(files@)),
{
    let ghost views = files_view(files@);
    let mut out: Vec<ComicVisualExportFile> = Vec::new();
    let mut i: usize = 0;
    assert(files_view(out@) =~= ordered_files(views.take(0)));
    while i < files.len()
        invariant
            i <= files.len(),
            views == files_view(files@),
            files_view(out@) == ordered_files(views.take(i as int)),
        decreases files.len() - i,
    {
        proof {
            assert(views.take(i + 1).drop_last() =~= views.take(i as int));
            assert(views.take(i + 1).last() == files@[i as int]@);
        }
        let f = &files[i];
        let copied = ComicVisualExportFile {
            member_id: f.member_id.clone(),
            ordinal: f.ordinal,
            manifest_id: f.manifest_id.clone(),
            production_chapter_id: f.production_chapter_id.clone(),
            production_page_id: f.production_page_id.clone(),
            run_id: f.run_id.clone(),
            asset_id: f.asset_id.clone(),
            path: f.path.clone(),
            sha256: f.sha256.clone(),
        };
        enter_file(&mut out, copied);
        i += 1;
    }
    assert(views.take(i as int) =~= views);
    out
}

/// A file as JSON.
pub open spec fn file_value(f: FileView) -> JsonView {
    JsonView::Obj(
        no_members()
            .push(("memberId"@, JsonView::Str(f.member_id)))
            .push(("ordinal"@, JsonView::Int(f.ordinal)))
            .push(("manifestId"@, JsonView::Str(f.manifest_id)))
            .push(("productionChapterId"@, JsonView::Str(f.production_chapter_id)))
            .push(("productionPageId"@, JsonView::Str(f.production_page_id)))
            .push(("runId"@, JsonView::Str(f.run_id)))
            .push(("assetId"@, JsonView::Str(f.asset_id)))
            .push(("path"@, JsonView::Str(f.path)))
            .push(("sha256"@, JsonView::Str(f.sha256))),
    )
}

/// Files as JSON.
pub open spec fn files_value(files: Seq<FileView>) -> JsonView {
    JsonView::Arr(files.map_values(|f: FileView| file_value(f)))
}

/// The manifest of an export: whether it holds the whole batch, and its files.
pub open spec fn manifest_value(files: Seq<FileView>, member_count: int) -> JsonView {
    JsonView::Obj(
        no_members()
            .push(
            (
                "kind"@,
                JsonView::Str(
                    if files.len() == member_count {
                        "full_batch"@
                    } else {
                        "subset"@
                    },
                ),
            ),
        )
            .push(("candidate"@, JsonView::Bool(true)))
            .push(("files"@, files_value(files))),
    )
}

fn file_json(f: &ComicVisualExportFile) -> (r: Json)
    ensures
        r@ == file_value(f@),
{
    fields().text("memberId", f.member_id.as_str()).number("ordinal", f.ordinal).text(
        "manifestId",
        f.manifest_id.as_str(),
    ).text("productionChapterId", f.production_chapter_id.as_str()).text(
        "productionPageId",
        f.production_page_id.as_str(),
    ).text("runId", f.run_id.as_str()).text("assetId", f.asset_id.as_str()).text(
        "path",
        f.path.as_str(),
    ).text("sha256", f.sha256.as_str()).object()
}

/// A finished export: its files in order, and its manifest.
#[derive(Debug)]
pub struct FinishedExport {
    pub files: Vec<ComicVisualExportFile>,
    pub manifest: Json,
}

/// Puts the files of an export in order and writes its manifest; `member_count` is the number
/// of the members of the batch.
pub fn finish_export(files: Vec<ComicVisualExportFile>, member_count: usize) -> (r: FinishedExport)
    ensures
        files_view(r.files@) == ordered_files(files_view(files@)),
        r.manifest@ == manifest_value(ordered_files(files_view(files@)), member_count as int),
{
    let files = sort_files(files);
    let ghost views = files_view(files@);
    let mut list: Vec<Json> = Vec::new();
    let mut i: usize = 0;
    while i < files.len()
        invariant
            i <= files.len(),
            list.len() == i,
            forall|j: int| 0 <= j < i ==> (#[trigger] list@[j])@ == file_value(files@[j]@),
        decreases files.len() - i,
    {
        list.push(file_json(&files[i]));
        i += 1;
    }
    assert(items_view(list@) =~= views.map_values(|f: FileView| file_value(f)));
    let kind = if files.len() == member_count {
        "full_batch"
    } else {
        "subset"
    };
    let manifest = fields().text("kind", kind).flag("candidate", true).with(
        "files",
        json_array(list),
    ).object();
    FinishedExport { files, manifest }
}

/// The files of an export are in the order of their pages; none is lost or added.
pub proof fn exported_files_are_in_order(files: Seq<FileView>)
    ensures
        forall|i: int, j: int|
            0 <= i < j < ordered_files(files).len() ==> (#[trigger] ordered_files(
                files,
            )[i]).ordinal <= (#[trigger] ordered_files(files)[j]).ordinal,
        ordered_files(files).to_multiset() == files.to_multiset(),
        ordered_files(files).len() == files.len(),
{
    assert(is_order_relation(file_before()));
    sorting_orders(files, file_before());
    let sorted = ordered_files(files);
    assert forall|i: int, j: int| 0 <= i < j < sorted.len() implies (#[trigger] sorted[i]).ordinal
        <= (#[trigger] sorted[j]).ordinal by {
        assert(!file_before()(sorted[j], sorted[i]));
    }
}

/// Whether files record the export of selections, one file for each.
pub open spec fn records(files: Seq<FileView>, selections: Seq<SelectionView>) -> bool {
    &&& files.len() == selections.len()
    &&& forall|i: int|
        0 <= i < files.len() ==> (#[trigger] files[i]).member_id == selections[i].member_id
            && files[i].run_id == selections[i].run_id && files[i].asset_id
            == selections[i].asset_id
}

/// The selection of which a file is the record.
pub open spec fn recorded() -> spec_fn(FileView) -> SelectionView {
    |f: FileView|
        SelectionView { member_id: f.member_id, run_id: f.run_id, asset_id: f.asset_id }
}

/// A finished export has one file for each selection and no other, in the order of the pages.
pub proof fn export_holds_one_file_per_selection(
    files: Seq<FileView>,
    selections: Seq<SelectionView>,
)
    requires
        records(files, selections),
    ensures
        ordered_files(files).len() == selections.len(),
        ordered_files(files).map_values(recorded()).to_multiset() == selections.to_multiset(),
        is_ordered(ordered_files(files), file_before()),
{
    exported_files_are_in_order(files);
    assert(is_order_relation(file_before()));
    sorting_orders(files, file_before());
    assert(files.map_values(recorded()) =~= selections);
    lemma_mapped_multisets(ordered_files(files), files, recorded());
}

proof fn lemma_text_is_plain(s: Seq<char>, depth: nat)
    ensures
        is_plain(JsonView::Str(s), depth),
{
}

proof fn lemma_integer_is_plain(n: int, depth: nat)
    requires
        i64::MIN <= n <= u64::MAX,
    ensures
        is_plain(JsonView::Int(n), depth),
{
}

proof fn lemma_file_is_plain(f: FileView, depth: nat)
    requires
        depth > 0,
        i64::MIN <= f.ordinal <= u64::MAX,
    ensures
        is_plain(file_value(f), depth),
{
    reveal_strlit("memberId");
    reveal_strlit("ordinal");
    reveal_strlit("manifestId");
    reveal_strlit("productionChapterId");
    reveal_strlit("productionPageId");
    reveal_strlit("runId");
    reveal_strlit("assetId");
    reveal_strlit("path");
    reveal_strlit("sha256");
    assert("memberId"@.len() == 8 && "ordinal"@.len() == 7 && "manifestId"@.len() == 10);
    assert("productionChapterId"@.len() == 19 && "productionPageId"@.len() == 16);
    assert("runId"@.len() == 5 && "assetId"@.len() == 7 && "path"@.len() == 4);
    assert("sha256"@.len() == 6);
    assert("ordinal"@[0] == 'o' && "assetId"@[0] == 'a');
    let m = file_value(f)->Obj_0;
    assert(m.len() == 9);
    assert(m[1].1 == JsonView::Int(f.ordinal));
    lemma_integer_is_plain(f.ordinal, (depth - 1) as nat);
    lemma_text_is_plain(f.member_id, (depth - 1) as nat);
    lemma_text_is_plain(f.manifest_id, (depth - 1) as nat);
    lemma_text_is_plain(f.production_chapter_id, (depth - 1) as nat);
    lemma_text_is_plain(f.production_page_id, (depth - 1) as nat);
    lemma_text_is_plain(f.run_id, (depth - 1) as nat);
    lemma_text_is_plain(f.asset_id, (depth - 1) as nat);
    lemma_text_is_plain(f.path, (depth - 1) as nat);
    lemma_text_is_plain(f.sha256, (depth - 1) as nat);
    assert forall|i: int| 0 <= i < m.len() implies is_plain(
        (#[trigger] m[i]).1,
        (depth - 1) as nat,
    ) by {}
}

/// The manifest of an export is written and read back without loss.
pub proof fn export_manifest_is_plain(files: Seq<FileView>, member_count: int)
    requires
        forall|i: int|
            0 <= i < files.len() ==> i64::MIN <= (#[trigger] files[i]).ordinal <= i64::MAX,
    ensures
        is_plain(manifest_value(files, member_count), 100),
{
    reveal_strlit("kind");
    reveal_strlit("candidate");
    reveal_strlit("files");
    assert("kind"@.len() == 4 && "candidate"@.len() == 9 && "files"@.len() == 5);
    let list = files.map_values(|f: FileView| file_value(f));
    assert forall|i: int| 0 <= i < list.len() implies is_plain(#[trigger] list[i], 98) by {
        lemma_file_is_plain(files[i], 98);
    }
    assert(is_plain(files_value(files), 99));
    let m = manifest_value(files, member_count)->Obj_0;
    lemma_text_is_plain("full_batch"@, 99);
    lemma_text_is_plain("subset"@, 99);
    assert(m.len() == 3);
    assert(m[1].1 == JsonView::Bool(true));
    assert(is_plain(JsonView::Bool(true), 99));
    assert forall|i: int| 0 <= i < m.len() implies is_plain((#[trigger] m[i]).1, 99) by {}
}

// ---------------------------------------------------------------------------
// Verified reading
// ---------------------------------------------------------------------------

/// What is stored of an export.
#[derive(Debug)]
pub struct ExportHeader {
    pub batch_id: String,
    pub directory_path: String,
    pub manifest_path: String,
    pub created_at: i64,
    pub status: String,
    pub selection_json: String,
}

/// What is found on disk: the components of the resolved directory and manifest, what they
/// are, and the text of the manifest.
#[derive(Debug)]
pub struct ExportFacts {
    pub directory: Option<Vec<String>>,
    pub directory_is_dir: bool,
    pub manifest: Option<Vec<String>>,
    pub manifest_is_file: bool,
    pub manifest_text: Option<String>,
}

/// What is found on disk of a file: the components of its resolved path, and its bytes.
#[derive(Debug)]
pub struct ExportFileFacts {
    pub path: Option<Vec<String>>,
    pub bytes: Option<Vec<u8>>,
}

/// Whether two texts are JSON and say the same.
pub open spec fn texts_agree(a: Seq<char>, b: Seq<char>) -> bool {
    &&& json_parsed(a) is Some
    &&& json_parsed(b) is Some
    &&& json_same(json_parsed(a)->0, json_parsed(b)->0)
}

/// Decides whether the manifest on disk says what is stored. A manifest that was written for a
/// value without fractions agrees with the text that was stored for it.
pub fn manifests_agree(manifest_text: &str, selection_json: &str) -> (r: bool)
    ensures
        r == texts_agree(manifest_text@, selection_json@),
        forall|j: JsonView|
            is_plain(j, 100) && #[trigger] json_pretty(j) == manifest_text@ && json_text(j)
                == selection_json@ ==> r,
{
    let stored = crate::json::parse(selection_json);
    let found = crate::json::parse(manifest_text);
    match (found, stored) {
        (Some(a), Some(b)) => {
            proof {
                json_same_reflexive(b@);
            }
            a.same(&b)
        },
        _ => false,
    }
}

/// Whether a file of an export is where it was written and has the bytes that were written.
pub open spec fn file_holds(
    f: ComicVisualExportFile,
    facts: ExportFileFacts,
    directory: Seq<Seq<char>>,
) -> bool {
    &&& facts.path is Some
    &&& lies_under(texts_view(facts.path->0@), directory)
    &&& facts.bytes is Some
    &&& digest_text(facts.bytes->0@) == f.sha256@
}

/// Whether an export is complete and unchanged on disk.
pub open spec fn export_holds(
    header: ExportHeader,
    facts: ExportFacts,
    files: Seq<ComicVisualExportFile>,
    file_facts: Seq<ExportFileFacts>,
) -> bool {
    &&& header.status@ == "complete"@
    &&& facts.directory is Some && facts.directory_is_dir
    &&& facts.manifest is Some && facts.manifest_is_file
    &&& lies_under(texts_view(facts.manifest->0@), texts_view(facts.directory->0@))
    &&& facts.manifest_text is Some
    &&& texts_agree(facts.manifest_text->0@, header.selection_json@)
    &&& files.len() > 0
    &&& forall|i: int|
        0 <= i < files.len() ==> file_holds(
            #[trigger] files[i],
            file_facts[i],
            texts_view(facts.directory->0@),
        )
}

fn file_is_intact(f: &ComicVisualExportFile, facts: &ExportFileFacts, directory: &Vec<String>) -> (r:
    bool)
    ensures
        r == file_holds(*f, *facts, texts_view(directory@)),
{
    match (&facts.path, &facts.bytes) {
        (Some(path), Some(bytes)) => digest_agrees(
            path,
            directory,
            sha256(bytes).as_str(),
            f.sha256.as_str(),
        ),
        _ => false,
    }
}

/// Whether a file lies in the directory of its export and has the digest that was stored.
pub fn digest_agrees(path: &Vec<String>, directory: &Vec<String>, digest: &str, stored: &str) -> (r:
    bool)
    ensures
        r == (lies_under(texts_view(path@), texts_view(directory@)) && digest@ == stored@),
{
    path_lies_under(path, directory) && same(digest, stored)
}

/// Reads an export: only one that is complete and unchanged on disk is shown. `files` are its
/// stored files in order, with a fact for each.
pub fn read_export_verified(
    id: &str,
    header: Option<ExportHeader>,
    facts: &ExportFacts,
    files: Vec<ComicVisualExportFile>,
    file_facts: &Vec<ExportFileFacts>,
) -> (r: Result<ComicVisualExport, String>)
    requires
        file_facts.len() == files.len(),
    ensures
        r is Ok <==> header is Some && export_holds(header->0, *facts, files@, file_facts@),
        r matches Ok(e) ==> {
            &&& e.export_id@ == id@
            &&& e.batch_id@ == header->0.batch_id@
            &&& e.directory_path@ == header->0.directory_path@
            &&& e.manifest_path@ == header->0.manifest_path@
            &&& e.created_at == header->0.created_at
            &&& e.files == files
        },
        r matches Err(e) ==> e@ == EXPORT_UNAVAILABLE@,
{
    let header = match header {
        Some(header) => header,
        None => return Err(owned(EXPORT_UNAVAILABLE)),
    };
    let (directory, manifest) = match (&facts.directory, &facts.manifest) {
        (Some(directory), Some(manifest)) => (directory, manifest),
        _ => return Err(owned(EXPORT_UNAVAILABLE)),
    };
    if !same(header.status.as_str(), "complete") || !facts.directory_is_dir
        || !facts.manifest_is_file || !path_lies_under(manifest, directory) {
        return Err(owned(EXPORT_UNAVAILABLE));
    }
    match &facts.manifest_text {
        Some(text) => {
            if !manifests_agree(text.as_str(), header.selection_json.as_str()) {
                return Err(owned(EXPORT_UNAVAILABLE));
            }
        },
        None => return Err(owned(EXPORT_UNAVAILABLE)),
    }
    if files.len() == 0 {
        return Err(owned(EXPORT_UNAVAILABLE));
    }
    let mut i: usize = 0;
    while i < files.len()
        invariant
            i <= files.len() == file_facts.len(),
            facts.directory == Some(*directory),
            forall|j: int|
                0 <= j < i ==> file_holds(
                    #[trigger] files@[j],
                    file_facts@[j],
                    texts_view(directory@),
                ),
        decreases files.len() - i,
    {
        if !file_is_intact(&files[i], &file_facts[i], directory) {
            assert(!file_holds(files@[i as int], file_facts@[i as int], texts_view(directory@)));
            return Err(owned(EXPORT_UNAVAILABLE));
        }
        i += 1;
    }
    Ok(
        ComicVisualExport {
            export_id: owned(id),
            batch_id: header.batch_id,
            directory_path: header.directory_path,
            manifest_path: header.manifest_path,
            created_at: header.created_at,
            files,
        },
    )
}

/// A page as it was exported: what was selected, the place of the page in the batch, and the
/// path and digest of its file. A path is the sequence of its parts.
pub struct ExportedPage {
    pub selection: SelectionView,
    pub ordinal: int,
    pub path: Seq<Seq<char>>,
    pub sha256: Seq<char>,
}

/// An export as it is stored.
pub struct ExportRecord {
    pub project_id: Seq<char>,
    pub novel_work_id: Seq<char>,
    pub directory: Seq<Seq<char>>,
    pub status: Seq<char>,
    pub selection_json: Seq<char>,
    pub pages: Seq<ExportedPage>,
}

/// What the database and the disk hold of exports: the receipts by their keys, each with the
/// request hash and the export, the exports by their identifiers, the files by their paths, and
/// the listings by their directories.
pub struct ExportStore {
    pub receipts: Map<Seq<char>, (Seq<char>, Seq<char>)>,
    pub exports: Map<Seq<char>, ExportRecord>,
    pub files: Map<Seq<Seq<char>>, Seq<u8>>,
    pub listings: Map<Seq<Seq<char>>, Seq<char>>,
}

/// An export that is shown.
pub struct ShownExport {
    pub id: Seq<char>,
    pub directory: Seq<Seq<char>>,
    pub pages: Seq<ExportedPage>,
}

/// The receipt under a key.
pub open spec fn export_receipt(store: ExportStore, key: Seq<char>) -> Option<
    (Seq<char>, Seq<char>),
> {
    if store.receipts.dom().contains(key) {
        Some(store.receipts[key])
    } else {
        None
    }
}

/// Whether the file of a page is there, below a directory, with its bytes unchanged.
pub open spec fn page_holds(store: ExportStore, directory: Seq<Seq<char>>, p: ExportedPage) -> bool {
    &&& lies_under(p.path, directory)
    &&& store.files.dom().contains(p.path)
    &&& digest_text(store.files[p.path]) == p.sha256
}

/// The export that is shown for an identifier: only one that is complete and unchanged.
pub open spec fn shown(store: ExportStore, project: Seq<char>, work: Seq<char>, id: Seq<char>) -> Result<
    ShownExport,
    Seq<char>,
> {
    let r = store.exports[id];
    if store.exports.dom().contains(id) && r.project_id == project && r.novel_work_id == work
        && r.status == "complete"@ && store.listings.dom().contains(r.directory) && texts_agree(
        store.listings[r.directory],
        r.selection_json,
    ) && r.pages.len() > 0 && forall|i: int|
        0 <= i < r.pages.len() ==> page_holds(store, r.directory, #[trigger] r.pages[i]) {
        Ok(ShownExport { id, directory: r.directory, pages: r.pages })
    } else {
        Err(EXPORT_UNAVAILABLE@)
    }
}

/// What writing an export gives: its pages in the order of the selections, the texts of its
/// listing on disk and in the database, and the files on disk afterwards.
pub struct WrittenExport {
    pub pages: Seq<ExportedPage>,
    pub listing: Seq<char>,
    pub selection_json: Seq<char>,
    pub files: Map<Seq<Seq<char>>, Seq<u8>>,
}

/// Whether a page comes before another: by its place in the batch.
pub open spec fn exported_before() -> spec_fn(ExportedPage, ExportedPage) -> bool {
    |a: ExportedPage, b: ExportedPage| a.ordinal < b.ordinal
}

/// What an export makes of the store, and its result. `to` is the destination as it is named in
/// the request and `place` its path; `hash` stands for the request hash, `id` for the new
/// identifier, `written` for what writing the export gives, where it comes to that.
pub open spec fn exported(
    store: ExportStore,
    input: ComicVisualBatchExportInput,
    to: Seq<char>,
    place: Seq<Seq<char>>,
    hash: spec_fn(JsonView) -> Seq<char>,
    id: Seq<char>,
    written: Result<WrittenExport, Seq<char>>,
) -> (ExportStore, Result<ShownExport, Seq<char>>) {
    let key = input.idempotency_key@;
    let request_hash = hash(export_request_value(input, to));
    let project = input.project_id@;
    let work = input.novel_work_id@;
    match export_refusal(input) {
        Some(e) => (store, Err(e)),
        None => match export_answer(export_receipt(store, key), request_hash) {
            Err(e) => (store, Err(e)),
            Ok(ExportStepView::Replay(old)) => (store, shown(store, project, work, old)),
            Ok(ExportStepView::Write) => {
                let begun = ExportRecord {
                    project_id: project,
                    novel_work_id: work,
                    directory: place.push(directory_name(id)),
                    status: "failed"@,
                    selection_json: Seq::empty(),
                    pages: Seq::empty(),
                };
                let receipts = store.receipts.insert(key, (request_hash, id));
                match written {
                    Err(e) => (
                        ExportStore { receipts, exports: store.exports.insert(id, begun), ..store },
                        Err(e),
                    ),
                    Ok(w) => {
                        let after = ExportStore {
                            receipts,
                            exports: store.exports.insert(
                                id,
                                ExportRecord {
                                    status: "complete"@,
                                    selection_json: w.selection_json,
                                    pages: sort_ordered(w.pages, exported_before()),
                                    ..begun
                                },
                            ),
                            files: w.files,
                            listings: store.listings.insert(begun.directory, w.listing),
                        };
                        (after, shown(after, project, work, id))
                    },
                }
            },
        },
    }
}

/// Whether what writing an export gives belongs to its selections: one page for each, in their
/// order.
pub open spec fn pages_fit(input: ComicVisualBatchExportInput, w: WrittenExport) -> bool {
    let selections = ordered_selections(selections_view(input.selections@));
    &&& w.pages.len() == selections.len()
    &&& forall|i: int|
        0 <= i < w.pages.len() ==> (#[trigger] w.pages[i]).selection == selections[i]
}

/// Whether a store is that of an earlier time as far as an export is concerned: its record and
/// its receipt are there, and its files and its listing are untouched.
pub open spec fn export_untouched(
    earlier: ExportStore,
    store: ExportStore,
    key: Seq<char>,
    id: Seq<char>,
) -> bool {
    let r = earlier.exports[id];
    &&& export_receipt(store, key) == export_receipt(earlier, key)
    &&& store.exports.dom().contains(id) && store.exports[id] == r
    &&& store.listings.dom().contains(r.directory) && store.listings[r.directory]
        == earlier.listings[r.directory]
    &&& forall|i: int|
        0 <= i < r.pages.len() ==> store.files.dom().contains((#[trigger] r.pages[i]).path)
            && store.files[r.pages[i].path] == earlier.files[r.pages[i].path]
}

/// What was selected for a page.
pub open spec fn selected_for() -> spec_fn(ExportedPage) -> SelectionView {
    |p: ExportedPage| p.selection
}

/// An export that is given for the first time under its key and is shown has one page for each
/// selection and no other, in the order of the pages, each in a file below the directory of the
/// export with the digest of its bytes; the directory is a new one in the destination. Asked for
/// again at any later time, while its files are untouched, the same pages to the same
/// destination under the same key show the same export, and nothing is written. The same key
/// for other pages, another batch or another destination is refused. A new key makes an export
/// in another directory. `later` is the store by then, `renewed` the request under a new key
/// and `other_id` the identifier that its export gets.
pub proof fn repeated_export_gives_the_same_export(
    store: ExportStore,
    input: ComicVisualBatchExportInput,
    to: Seq<char>,
    place: Seq<Seq<char>>,
    hash: spec_fn(JsonView) -> Seq<char>,
    id: Seq<char>,
    written: Result<WrittenExport, Seq<char>>,
    later: ExportStore,
    again: ComicVisualBatchExportInput,
    other: ComicVisualBatchExportInput,
    other_to: Seq<char>,
    renewed: ComicVisualBatchExportInput,
    other_id: Seq<char>,
    later_written: Result<WrittenExport, Seq<char>>,
)
    requires
        hash_tells_apart(hash),
        export_receipt(store, input.idempotency_key@) is None,
        written is Ok ==> pages_fit(input, written->Ok_0),
        exported(store, input, to, place, hash, id, written).1 is Ok,
        export_untouched(
            exported(store, input, to, place, hash, id, written).0,
            later,
            input.idempotency_key@,
            id,
        ),
        same_export(again, input),
        again.idempotency_key@ == input.idempotency_key@,
        export_refusal(other) is None,
        other.idempotency_key@ == input.idempotency_key@,
        !same_export(other, input) || other_to != to,
        same_export(renewed, input),
        export_receipt(later, renewed.idempotency_key@) is None,
        other_id != id,
    ensures
        ({
            let (after, result) = exported(store, input, to, place, hash, id, written);
            let e = result->Ok_0;
            let fresh = exported(later, renewed, to, place, hash, other_id, later_written);
            &&& e.id == id
            &&& e.directory == place.push(directory_name(id))
            &&& e.pages.len() == input.selections.len()
            &&& e.pages.map_values(selected_for()).to_multiset() == selections_view(
                input.selections@,
            ).to_multiset()
            &&& is_ordered(e.pages, exported_before())
            &&& forall|i: int|
                0 <= i < e.pages.len() ==> page_holds(after, e.directory, #[trigger] e.pages[i])
            &&& exported(later, again, to, place, hash, other_id, later_written) == (later, result)
            &&& exported(later, other, other_to, place, hash, other_id, later_written) == (
                later,
                Err::<ShownExport, _>("VISUAL_EXPORT_IDEMPOTENCY_MISMATCH"@),
            )
            &&& fresh.1 is Ok ==> fresh.1->Ok_0.id == other_id && fresh.1->Ok_0.directory
                != e.directory
        }),
{
    let selections = selections_view(input.selections@);
    let (after, result) = exported(store, input, to, place, hash, id, written);
    let w = written->Ok_0;
    let r = after.exports[id];
    let before = exported_before();
    assert(is_order_relation(before));
    sorting_orders(w.pages, before);
    selections_come_in_order(selections);
    assert(w.pages.map_values(selected_for()) =~= ordered_selections(selections));
    lemma_mapped_multisets(r.pages, w.pages, selected_for());
    assert(selections.len() == selections.to_multiset().len()) by {
        broadcast use vstd::seq_lib::group_to_multiset_ensures;

    }
    assert(ordered_selections(selections).len() == selections.len()) by {
        broadcast use vstd::seq_lib::group_to_multiset_ensures;

    }
    export_request_tells_requests_apart(input, to, again, to);
    export_request_tells_requests_apart(input, to, other, other_to);
    lemma_same_export(again, input);
    lemma_same_export(renewed, input);
    assert forall|i: int| 0 <= i < r.pages.len() implies page_holds(
        later,
        r.directory,
        #[trigger] r.pages[i],
    ) by {
        assert(page_holds(after, r.directory, r.pages[i]));
    }
    export_directories_differ(other_id, id);
    if place.push(directory_name(other_id)) == place.push(directory_name(id)) {
        assert(place.push(directory_name(other_id)).last() == place.push(
            directory_name(id),
        ).last());
    }
}

/// A request for the same pages is refused by itself only for its key.
proof fn lemma_same_export(a: ComicVisualBatchExportInput, b: ComicVisualBatchExportInput)
    requires
        same_export(a, b),
        export_refusal(b) is None,
    ensures
        !is_blank(a.idempotency_key@) ==> export_refusal(a) is None,
{
    broadcast use vstd::seq_lib::group_to_multiset_ensures;

    let x = selections_view(a.selections@);
    let y = selections_view(b.selections@);
    assert(x.len() == x.to_multiset().len() && y.len() == y.to_multiset().len());
    lemma_distinct_after_reordering(y, x);
}

/// Whether a file is that of a member.
pub open spec fn is_file_of(member_id: Seq<char>) -> spec_fn(ComicVisualExportFile) -> bool {
    |f: ComicVisualExportFile| f.member_id@ == member_id
}

/// What is opened of an export: the file of a member, or the directory.
pub fn open_target(export: &ComicVisualExport, member_id: Option<&str>) -> (r: Result<
    String,
    String,
>)
    ensures
        match member_id {
            None => r matches Ok(s) && s@ == export.directory_path@,
            Some(id) => match find_first(export.files@, is_file_of(id@)) {
                Some(f) => r matches Ok(s) && s@ == f.path@,
                None => r matches Err(e) && e@ == EXPORT_UNAVAILABLE@,
            },
        },
{
    let id = match member_id {
        Some(id) => id,
        None => return Ok(export.directory_path.clone()),
    };
    let mut i: usize = 0;
    while i < export.files.len()
        invariant
            i <= export.files.len(),
            member_id == Some(id),
            forall|j: int| 0 <= j < i ==> !is_file_of(id@)(#[trigger] export.files@[j]),
        decreases export.files.len() - i,
    {
        if same(export.files[i].member_id.as_str(), id) {
            proof {
                lemma_find_first(export.files@, is_file_of(id@), i as int);
            }
            return Ok(export.files[i].path.clone());
        }
        i += 1;
    }
    proof {
        lemma_find_first(export.files@, is_file_of(id@), i as int);
    }
    Err(owned(EXPORT_UNAVAILABLE))
}

// ---------------------------------------------------------------------------
// Destinations
// ---------------------------------------------------------------------------

/// Whether a character can stand in the name of a directory that is made from an identifier.
pub open spec fn is_safe_char(c: char) -> bool {
    is_ascii_alphanumeric(c) || c == '-' || c == '_'
}

/// Whether an identifier can be the name of a directory.
pub open spec fn is_safe_component(s: Seq<char>) -> bool {
    &&& 0 < s.len() <= 160
    &&& forall|i: int| 0 <= i < s.len() ==> is_safe_char(#[trigger] s[i])
}

/// Checks that an identifier can be the name of a directory.
pub fn safe_path_component(value: &str) -> (r: Result<String, String>)
    ensures
        if is_safe_component(value@) {
            r matches Ok(s) && s@ == value@
        } else {
            r matches Err(e) && e@ == "VISUAL_EXPORT_DEFAULT_SEGMENT_INVALID"@
        },
{
    let cs = chars_of(value);
    if cs.len() == 0 || cs.len() > 160 {
        return Err(owned("VISUAL_EXPORT_DEFAULT_SEGMENT_INVALID"));
    }
    let mut i: usize = 0;
    while i < cs.len()
        invariant
            i <= cs.len() <= 160,
            cs@ == value@,
            forall|j: int| 0 <= j < i ==> is_safe_char(#[trigger] value@[j]),
        decreases cs.len() - i,
    {
        let c = cs[i];
        if !(('a' <= c && c <= 'z') || ('A' <= c && c <= 'Z') || ('0' <= c && c <= '9') || c == '-'
            || c == '_') {
            assert(!is_safe_char(value@[i as int]));
            return Err(owned("VISUAL_EXPORT_DEFAULT_SEGMENT_INVALID"));
        }
        i += 1;
    }
    Ok(owned(value))
}

/// An identifier that can be the name of a directory leads nowhere else: it holds neither a
/// separator nor a dot.
pub proof fn safe_component_stays_inside(s: Seq<char>)
    requires
        is_safe_component(s),
    ensures
        forall|i: int|
            0 <= i < s.len() ==> (#[trigger] s[i]) != '/' && s[i] != '\\' && s[i] != '.' && s[i]
                != ':',
        s != "."@ && s != ".."@,
{
    reveal_strlit(".");
    reveal_strlit("..");
    if s == "."@ || s == ".."@ {
        assert(s[0] == '.');
        assert(!is_safe_char(s[0]));
    }
}

/// The directories below the data directory that a page is exported to.
pub fn default_segments(novel_work_id: &str, production_chapter_id: &str) -> (r: Result<
    Vec<String>,
    String,
>)
    ensures
        if is_safe_component(novel_work_id@) && is_safe_component(production_chapter_id@) {
            r matches Ok(v) && texts_view(v@) == seq![
                "漫画导出"@,
                novel_work_id@,
                production_chapter_id@,
            ]
        } else {
            r matches Err(e) && e@ == "VISUAL_EXPORT_DEFAULT_SEGMENT_INVALID"@
        },
{
    let work = match safe_path_component(novel_work_id) {
        Ok(work) => work,
        Err(e) => return Err(e),
    };
    let chapter = match safe_path_component(production_chapter_id) {
        Ok(chapter) => chapter,
        Err(e) => return Err(e),
    };
    let mut out: Vec<String> = Vec::new();
    out.push(owned("漫画导出"));
    out.push(work);
    out.push(chapter);
    assert(texts_view(out@) =~= seq!["漫画导出"@, novel_work_id@, production_chapter_id@]);
    Ok(out)
}

/// What is found at a path without following links.
#[derive(Debug, Clone, Copy, PartialEq, Eq, Structural)]
pub enum PathState {
    /// Nothing.
    Missing,
    /// Something that cannot be looked at.
    Unreadable,
    /// A directory that is no link.
    Directory,
    /// Anything else.
    Other,
}

/// Checks the data directory: a directory that is no link and that can be resolved to one.
pub fn check_default_root(state: PathState, resolved_is_dir: Option<bool>) -> (r: Result<
    (),
    String,
>)
    ensures
        match state {
            PathState::Missing | PathState::Unreadable => r matches Err(e) && e@
                == "VISUAL_EXPORT_DEFAULT_ROOT_INVALID"@,
            PathState::Other => r matches Err(e) && e@ == "VISUAL_EXPORT_DEFAULT_PATH_UNSAFE"@,
            PathState::Directory => if resolved_is_dir == Some(true) {
                r is Ok
            } else {
                r matches Err(e) && e@ == "VISUAL_EXPORT_DEFAULT_ROOT_INVALID"@
            },
        },
{
    match state {
        PathState::Missing | PathState::Unreadable => Err(
            owned("VISUAL_EXPORT_DEFAULT_ROOT_INVALID"),
        ),
        PathState::Other => Err(owned("VISUAL_EXPORT_DEFAULT_PATH_UNSAFE")),
        PathState::Directory => match resolved_is_dir {
            Some(true) => Ok(()),
            _ => Err(owned("VISUAL_EXPORT_DEFAULT_ROOT_INVALID")),
        },
    }
}

/// Decides whether a directory has to be made; what is there must be a directory.
pub fn child_is_missing(state: PathState) -> (r: Result<bool, String>)
    ensures
        match state {
            PathState::Missing => r matches Ok(m) && m,
            PathState::Directory => r matches Ok(m) && !m,
            _ => r matches Err(e) && e@ == "VISUAL_EXPORT_DEFAULT_PATH_UNSAFE"@,
        },
{
    match state {
        PathState::Missing => Ok(true),
        PathState::Directory => Ok(false),
        _ => Err(owned("VISUAL_EXPORT_DEFAULT_PATH_UNSAFE")),
    }
}

/// Checks a directory after it was made or found: no link, and below its parent once it is
/// resolved.
pub fn create_verified_child(
    state: PathState,
    resolved: Option<&Vec<String>>,
    parent: &Vec<String>,
) -> (r: Result<(), String>)
    ensures
        if state is Directory && resolved is Some && lies_under(
            texts_view(resolved->0@),
            texts_view(parent@),
        ) {
            r is Ok
        } else {
            r matches Err(e) && e@ == "VISUAL_EXPORT_DEFAULT_PATH_UNSAFE"@
        },
{
    match (state, resolved) {
        (PathState::Directory, Some(path)) => if path_lies_under(path, parent) {
            Ok(())
        } else {
            Err(owned("VISUAL_EXPORT_DEFAULT_PATH_UNSAFE"))
        },
        _ => Err(owned("VISUAL_EXPORT_DEFAULT_PATH_UNSAFE")),
    }
}

/// Why the directory of an export cannot be used, where it cannot.
pub open spec fn directory_refusal(
    state: PathState,
    directory: Option<&Vec<String>>,
    destination: Option<&Vec<String>>,
) -> Option<Seq<char>> {
    if state is Missing || state is Unreadable {
        Some("VISUAL_EXPORT_DIRECTORY_CREATE_FAILED"@)
    } else if state is Other {
        Some("VISUAL_EXPORT_PATH_UNSAFE"@)
    } else if directory is None {
        Some("VISUAL_EXPORT_DIRECTORY_CREATE_FAILED"@)
    } else if destination is None || !lies_under(
        texts_view(directory->0@),
        texts_view(destination->0@),
    ) {
        Some("VISUAL_EXPORT_PATH_UNSAFE"@)
    } else {
        None
    }
}

/// Checks the directory of an export after it was made: no link, and below its destination
/// once both are resolved.
pub fn verify_created_export_directory(
    state: PathState,
    directory: Option<&Vec<String>>,
    destination: Option<&Vec<String>>,
) -> (r: Result<(), String>)
    ensures
        match directory_refusal(state, directory, destination) {
            Some(e) => r matches Err(f) && f@ == e,
            None => r is Ok,
        },
{
    match state {
        PathState::Missing | PathState::Unreadable => return Err(
            owned("VISUAL_EXPORT_DIRECTORY_CREATE_FAILED"),
        ),
        PathState::Other => return Err(owned("VISUAL_EXPORT_PATH_UNSAFE")),
        PathState::Directory => {},
    }
    let directory = match directory {
        Some(directory) => directory,
        None => return Err(owned("VISUAL_EXPORT_DIRECTORY_CREATE_FAILED")),
    };
    match destination {
        Some(destination) => if path_lies_under(directory, destination) {
            Ok(())
        } else {
            Err(owned("VISUAL_EXPORT_PATH_UNSAFE"))
        },
        None => Err(owned("VISUAL_EXPORT_PATH_UNSAFE")),
    }
}

/// Checks a destination: an absolute path that can be resolved to a directory.
pub fn canonical_destination(is_absolute: bool, resolved_is_dir: Option<bool>) -> (r: Result<
    (),
    String,
>)
    ensures
        r is Ok <==> is_absolute && resolved_is_dir == Some(true),
        r matches Err(e) ==> e@ == "VISUAL_EXPORT_DESTINATION_INVALID"@,
{
    if !is_absolute {
        return Err(owned("VISUAL_EXPORT_DESTINATION_INVALID"));
    }
    match resolved_is_dir {
        Some(true) => Ok(()),
        _ => Err(owned("VISUAL_EXPORT_DESTINATION_INVALID")),
    }
}

/// Checks an export of one page before its destination is made: `row` is the selected member
/// and `asset` the asset of its run. The result is the chapter of the page.
pub fn check_default_page(
    input: &ComicVisualPageExportDefaultInput,
    row: Result<ExportMemberRow, String>,
    asset: Result<&AssetRef, String>,
) -> (r: Result<String, String>)
    ensures
        if is_blank(input.idempotency_key@) {
            r matches Err(e) && e@ == "VISUAL_EXPORT_INPUT_REQUIRED"@
        } else {
            match (row, asset) {
                (Err(e), _) => r matches Err(f) && f@ == e@,
                (Ok(_), Err(e)) => r matches Err(f) && f@ == e@,
                (Ok(row), Ok(asset)) => match asset_refusal(*asset, input.selection@, true) {
                    Some(e) => r matches Err(f) && f@ == e,
                    None => r matches Ok(s) && s@ == row.production_chapter_id@,
                },
            }
        },
{
    if blank(input.idempotency_key.as_str()) {
        return Err(owned("VISUAL_EXPORT_INPUT_REQUIRED"));
    }
    let row = match row {
        Ok(row) => row,
        Err(e) => return Err(e),
    };
    let asset = match asset {
        Ok(asset) => asset,
        Err(e) => return Err(e),
    };
    match check_selected_asset(asset, &input.selection, true) {
        Ok(_) => Ok(row.production_chapter_id),
        Err(e) => Err(e),
    }
}

/// The export that an export of one page amounts to; the destination is the application's.
pub fn default_export_input(input: &ComicVisualPageExportDefaultInput, destination: &str) -> (r:
    ComicVisualBatchExportInput)
    ensures
        r.project_id@ == input.project_id@,
        r.novel_work_id@ == input.novel_work_id@,
        r.batch_id@ == input.batch_id@,
        selections_view(r.selections@) == seq![input.selection@],
        r.destination_dir@ == destination@,
        r.idempotency_key@ == input.idempotency_key@,
{
    let mut selections: Vec<ComicVisualExportSelection> = Vec::new();
    selections.push(input.selection.copy());
    assert(selections_view(selections@) =~= seq![input.selection@]);
    ComicVisualBatchExportInput {
        project_id: input.project_id.clone(),
        novel_work_id: input.novel_work_id.clone(),
        batch_id: input.batch_id.clone(),
        selections,
        destination_dir: owned(destination),
        idempotency_key: input.idempotency_key.clone(),
    }
}

/// The request for the asset of a selected run.
pub fn asset_request(project_id: &str, novel_work_id: &str, run_id: &str) -> (r:
    ComicVisualPageAssetGetInput)
    ensures
        r.project_id@ == project_id@,
        r.novel_work_id@ == novel_work_id@,
        r.run_id@ == run_id@,
{
    ComicVisualPageAssetGetInput {
        project_id: owned(project_id),
        novel_work_id: owned(novel_work_id),
        run_id: owned(run_id),
    }
}

} // verus!
