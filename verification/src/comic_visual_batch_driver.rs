//! Driving a batch: from a finished production job to its pages, and from one page to the
//! next.
use crate::comic_page_compiler::COMPILER_CONTRACT;
use crate::comic_visual::{ComicVisualManifest, ComicVisualManifestPrepareInput};
use crate::comic_visual_batch::{
    batch_model, first_open, first_open_index, first_unknown, holds, members_in_order, members_of,
    outcomes_known, reconcile_unlinked_members, relinked, set_batch_status, sync_member_outcomes,
    synced, synced_upto, with_status, BatchState, BatchView, MemberState, MemberView, ProductionJob,
    ScopedRun,
};
use crate::comic_visual_render::ComicVisualPageRunStartInput;
use crate::json::{
    fields, int_at, items_at, items_view, json_parsed, no_members, parse, text_at, Json, JsonView,
};
use crate::sequence::{insert_ordered, lemma_insert_ordered, sort_ordered, sorting_orders};
use crate::text::{concat3, contains_text, opt_view, owned, same, texts_view};
use vstd::prelude::*;

verus! {

// ---------------------------------------------------------------------------
// Preparing the members of a batch
// ---------------------------------------------------------------------------

/// A batch that is blocked because what it was authorized for has changed.
pub open spec fn blocked_stale(b: BatchView, code: Seq<char>, message: Seq<char>, now: i64) -> BatchView {
    with_status(b, "blocked_stale"@, Some((code, message)), now)
}

/// What becomes of a batch when its production job is looked at, and the adaptation and apply
/// operation from which its members are to be made, where there are none yet.
pub open spec fn scope_step(b: BatchView, job: ProductionJob, now: i64) -> (
    BatchView,
    Option<(Seq<char>, Seq<char>)>,
) {
    if job.novel_chapter_id@ != b.novel_chapter_id || job.source_revision_id@
        != b.source_revision_id {
        (
            blocked_stale(
                b,
                "VISUAL_BATCH_SOURCE_MISMATCH"@,
                "漫画生成授权的章节来源不再匹配，已暂停生成。"@,
                now,
            ),
            None,
        )
    } else if job.status@ != "succeeded"@ {
        (
            with_status(
                b,
                "waiting_text"@,
                Some(("VISUAL_BATCH_WAITING_TEXT"@, "正在等待文字生产与漫画结构完成。"@)),
                now,
            ),
            None,
        )
    } else {
        match (opt_view(job.default_adaptation_id), opt_view(job.apply_operation_id)) {
            (Some(adaptation), Some(operation)) => if b.comic_adaptation_id is Some
                && b.comic_adaptation_id != Some(adaptation) {
                (
                    blocked_stale(
                        b,
                        "VISUAL_BATCH_ADAPTATION_DRIFT"@,
                        "漫画改编来源已变化，已暂停生成。"@,
                        now,
                    ),
                    None,
                )
            } else if b.apply_operation_id is Some && b.apply_operation_id != Some(operation) {
                (
                    blocked_stale(
                        b,
                        "VISUAL_BATCH_APPLY_DRIFT"@,
                        "漫画生产回执已变化，已暂停生成。"@,
                        now,
                    ),
                    None,
                )
            } else {
                let fixed = if b.comic_adaptation_id is None && b.apply_operation_id is None {
                    BatchView {
                        comic_adaptation_id: Some(adaptation),
                        apply_operation_id: Some(operation),
                        status: "preparing"@,
                        ..b
                    }
                } else {
                    b
                };
                (
                    fixed,
                    if b.members.len() > 0 {
                        None
                    } else {
                        Some((adaptation, operation))
                    },
                )
            },
            _ => (
                blocked_stale(
                    b,
                    "VISUAL_BATCH_APPLY_MISSING"@,
                    "文字生产缺少已确认的漫画生产回执。"@,
                    now,
                ),
                None,
            ),
        }
    }
}

/// Looks at the production job of a batch. Where members are to be made, the result holds the
/// adaptation and the apply operation to make them from.
pub fn prepare_scope(batch: &mut BatchState, job: &ProductionJob, now: i64) -> (r: Option<
    (String, String),
>)
    ensures
        (final(batch)@, match r {
            Some(p) => Some((p.0@, p.1@)),
            None => None,
        }) == scope_step(old(batch)@, *job, now),
{
    if !same(job.novel_chapter_id.as_str(), batch.novel_chapter_id.as_str()) || !same(
        job.source_revision_id.as_str(),
        batch.source_revision_id.as_str(),
    ) {
        set_batch_status(
            batch,
            "blocked_stale",
            Some(("VISUAL_BATCH_SOURCE_MISMATCH", "漫画生成授权的章节来源不再匹配，已暂停生成。")),
            now,
        );
        return None;
    }
    if !same(job.status.as_str(), "succeeded") {
        set_batch_status(
            batch,
            "waiting_text",
            Some(("VISUAL_BATCH_WAITING_TEXT", "正在等待文字生产与漫画结构完成。")),
            now,
        );
        return None;
    }
    let (adaptation, operation) = match (&job.default_adaptation_id, &job.apply_operation_id) {
        (Some(adaptation), Some(operation)) => (adaptation, operation),
        _ => {
            set_batch_status(
                batch,
                "blocked_stale",
                Some(("VISUAL_BATCH_APPLY_MISSING", "文字生产缺少已确认的漫画生产回执。")),
                now,
            );
            return None;
        },
    };
    let adaptation_drift = match &batch.comic_adaptation_id {
        Some(fixed) => !same(fixed.as_str(), adaptation.as_str()),
        None => false,
    };
    if adaptation_drift {
        set_batch_status(
            batch,
            "blocked_stale",
            Some(("VISUAL_BATCH_ADAPTATION_DRIFT", "漫画改编来源已变化，已暂停生成。")),
            now,
        );
        return None;
    }
    let operation_drift = match &batch.apply_operation_id {
        Some(fixed) => !same(fixed.as_str(), operation.as_str()),
        None => false,
    };
    if operation_drift {
        set_batch_status(
            batch,
            "blocked_stale",
            Some(("VISUAL_BATCH_APPLY_DRIFT", "漫画生产回执已变化，已暂停生成。")),
            now,
        );
        return None;
    }
    if batch.comic_adaptation_id.is_none() && batch.apply_operation_id.is_none() {
        batch.comic_adaptation_id = Some(adaptation.clone());
        batch.apply_operation_id = Some(operation.clone());
        batch.status = owned("preparing");
    }
    if batch.members.len() > 0 {
        return None;
    }
    Some((adaptation.clone(), operation.clone()))
}

/// A production chapter that the apply receipt maps, with the chapter plan that names it.
#[derive(Debug)]
pub struct ChapterMapRow {
    pub stable_key: String,
    pub entity_id: String,
    pub revision_id: String,
    pub body_json: String,
}

/// The chapter that a stable key is mapped to: the last of several.
pub open spec fn mapped_chapter(rows: Seq<ChapterMapRow>, key: Seq<char>) -> Option<Seq<char>>
    decreases rows.len(),
{
    if rows.len() == 0 {
        None
    } else if rows.last().stable_key@ == key {
        Some(rows.last().entity_id@)
    } else {
        mapped_chapter(rows.drop_last(), key)
    }
}

/// The stable key of a planned chapter, where it is there and not empty.
pub open spec fn chapter_key(chapter: JsonView) -> Option<Seq<char>> {
    match text_at(chapter, "stableKey"@) {
        Some(s) => if s.len() > 0 {
            Some(s)
        } else {
            None
        },
        None => None,
    }
}

/// The stable keys of a chapter plan, where every chapter has one.
pub open spec fn planned_keys(body: Seq<char>) -> Option<Seq<Seq<char>>> {
    keys_of_plan(json_parsed(body))
}

/// The stable keys of a chapter plan from its value.
pub open spec fn keys_of_plan(plan: Option<JsonView>) -> Option<Seq<Seq<char>>> {
    match plan {
        None => None,
        Some(plan) => match items_at(plan, "chapters"@) {
            None => None,
            Some(chapters) => if forall|i: int|
                0 <= i < chapters.len() ==> chapter_key(#[trigger] chapters[i]) is Some {
                Some(Seq::new(chapters.len(), |i: int| chapter_key(chapters[i])->0))
            } else {
                None
            },
        },
    }
}

/// Whether every row names the same revision with the same body as the first.
pub open spec fn one_revision(rows: Seq<ChapterMapRow>) -> bool {
    forall|i: int|
        0 <= i < rows.len() ==> (#[trigger] rows[i]).revision_id@ == rows[0].revision_id@
            && rows[i].body_json@ == rows[0].body_json@
}

/// Whether every mapped key is planned, and planned once.
pub open spec fn keys_agree(rows: Seq<ChapterMapRow>, keys: Seq<Seq<char>>) -> bool {
    &&& forall|i: int| 0 <= i < rows.len() ==> keys.contains((#[trigger] rows[i]).stable_key@)
    &&& forall|i: int, j: int|
        0 <= i < j < keys.len() && (#[trigger] keys[i]) == (#[trigger] keys[j]) ==> mapped_chapter(
            rows,
            keys[i],
        ) is None
}

/// The mapped chapters in the order of the plan.
pub open spec fn chapters_in_order(rows: Seq<ChapterMapRow>, keys: Seq<Seq<char>>) -> Seq<
    (Seq<char>, Seq<char>),
>
    decreases keys.len(),
{
    if keys.len() == 0 {
        Seq::empty()
    } else {
        let before = chapters_in_order(rows, keys.drop_last());
        match mapped_chapter(rows, keys.last()) {
            Some(id) => before.push((id, keys.last())),
            None => before,
        }
    }
}

/// The chapters of an apply receipt, in the order of the one plan revision that they were
/// applied from.
pub open spec fn ordered_chapters(rows: Seq<ChapterMapRow>) -> Result<
    Seq<(Seq<char>, Seq<char>)>,
    Seq<char>,
> {
    if rows.len() == 0 {
        Err("VISUAL_BATCH_CHAPTER_ORDER_MISSING"@)
    } else if !one_revision(rows) {
        Err("VISUAL_BATCH_CHAPTER_ORDER_MISMATCH"@)
    } else {
        match planned_keys(rows[0].body_json@) {
            None => Err("VISUAL_BATCH_CHAPTER_ORDER_INVALID"@),
            Some(keys) => if !keys_agree(rows, keys) {
                Err("VISUAL_BATCH_CHAPTER_ORDER_MISMATCH"@)
            } else {
                Ok(chapters_in_order(rows, keys))
            },
        }
    }
}

/// The views of a list of pairs of texts.
pub open spec fn pairs_view(v: Seq<(String, String)>) -> Seq<(Seq<char>, Seq<char>)> {
    v.map_values(|p: (String, String)| (p.0@, p.1@))
}

fn find_mapped(rows: &Vec<ChapterMapRow>, key: &str) -> (r: Option<String>)
    ensures
        opt_view(r) == mapped_chapter(rows@, key@),
{
    let mut i: usize = rows.len();
    assert(rows@.take(i as int) =~= rows@);
    while i > 0
        invariant
            i <= rows.len(),
            mapped_chapter(rows@, key@) == mapped_chapter(rows@.take(i as int), key@),
        decreases i,
    {
        i -= 1;
        proof {
            let t = rows@.take(i + 1);
            assert(t.drop_last() =~= rows@.take(i as int));
            assert(t.last() == rows@[i as int]);
        }
        if same(rows[i].stable_key.as_str(), key) {
            return Some(rows[i].entity_id.clone());
        }
    }
    None
}

fn read_planned_keys(body: &str) -> (r: Option<Vec<String>>)
    ensures
        (match r {
            Some(v) => Some(texts_view(v@)),
            None => None,
        }) == planned_keys(body@),
{
    chapter_keys(parse(body).as_ref())
}

/// The stable keys of a chapter plan; `plan` is its value, where it is JSON.
pub fn chapter_keys(plan: Option<&Json>) -> (r: Option<Vec<String>>)
    ensures
        (match r {
            Some(v) => Some(texts_view(v@)),
            None => None,
        }) == keys_of_plan(opt_view(plan)),
{
    let value = match plan {
        Some(value) => value,
        None => return None,
    };
    let chapters = match value.items_at("chapters") {
        Some(chapters) => chapters,
        None => return None,
    };
    let ghost views = items_view(chapters@);
    let mut out: Vec<String> = Vec::new();
    let mut i: usize = 0;
    while i < chapters.len()
        invariant
            i <= chapters.len(),
            views == items_view(chapters@),
            plan == Some(value),
            items_at(value@, "chapters"@) == Some(views),
            out.len() == i,
            forall|j: int| 0 <= j < i ==> chapter_key(#[trigger] views[j]) == Some(out@[j]@),
        decreases chapters.len() - i,
    {
        assert(views[i as int] == chapters@[i as int]@);
        match chapters[i].text_at("stableKey") {
            Some(s) => {
                if s.is_empty() {
                    assert(chapter_key(views[i as int]) is None);
                    return None;
                }
                out.push(owned(s));
            },
            None => {
                assert(chapter_key(views[i as int]) is None);
                return None;
            },
        }
        i += 1;
    }
    assert(texts_view(out@) =~= Seq::new(views.len(), |i: int| chapter_key(views[i])->0));
    Some(out)
}

fn revisions_agree(rows: &Vec<ChapterMapRow>) -> (r: bool)
    requires
        rows.len() > 0,
    ensures
        r == one_revision(rows@),
{
    let mut i: usize = 0;
    while i < rows.len()
        invariant
            i <= rows.len(),
            rows.len() > 0,
            forall|j: int|
                0 <= j < i ==> (#[trigger] rows@[j]).revision_id@ == rows@[0].revision_id@
                    && rows@[j].body_json@ == rows@[0].body_json@,
        decreases rows.len() - i,
    {
        if !same(rows[i].revision_id.as_str(), rows[0].revision_id.as_str()) || !same(
            rows[i].body_json.as_str(),
            rows[0].body_json.as_str(),
        ) {
            return false;
        }
        i += 1;
    }
    true
}

fn all_planned(rows: &Vec<ChapterMapRow>, keys: &Vec<String>) -> (r: bool)
    ensures
        r == (forall|i: int|
            0 <= i < rows@.len() ==> texts_view(keys@).contains((#[trigger] rows@[i]).stable_key@)),
{
    let mut i: usize = 0;
    while i < rows.len()
        invariant
            i <= rows.len(),
            forall|j: int|
                0 <= j < i ==> texts_view(keys@).contains((#[trigger] rows@[j]).stable_key@),
        decreases rows.len() - i,
    {
        if !contains_text(keys, rows[i].stable_key.as_str()) {
            return false;
        }
        i += 1;
    }
    true
}

/// Orders the chapters of an apply receipt.
pub fn ordered_chapters_from_receipt(rows: &Vec<ChapterMapRow>) -> (r: Result<
    Vec<(String, String)>,
    String,
>)
    ensures
        (match r {
            Ok(v) => Ok(pairs_view(v@)),
            Err(e) => Err(e@),
        }) == ordered_chapters(rows@),
{
    if rows.len() == 0 {
        return Err(owned("VISUAL_BATCH_CHAPTER_ORDER_MISSING"));
    }
    if !revisions_agree(rows) {
        return Err(owned("VISUAL_BATCH_CHAPTER_ORDER_MISMATCH"));
    }
    let keys = match read_planned_keys(rows[0].body_json.as_str()) {
        Some(keys) => keys,
        None => return Err(owned("VISUAL_BATCH_CHAPTER_ORDER_INVALID")),
    };
    let ghost all = texts_view(keys@);
    if !all_planned(rows, &keys) {
        return Err(owned("VISUAL_BATCH_CHAPTER_ORDER_MISMATCH"));
    }
    let mut used: Vec<String> = Vec::new();
    let mut out: Vec<(String, String)> = Vec::new();
    let mut i: usize = 0;
    assert(pairs_view(out@) =~= chapters_in_order(rows@, all.take(0)));
    while i < keys.len()
        invariant
            i <= keys.len(),
            rows.len() > 0,
            one_revision(rows@),
            all == texts_view(keys@),
            planned_keys(rows@[0].body_json@) == Some(all),
            forall|j: int| 0 <= j < rows@.len() ==> all.contains((#[trigger] rows@[j]).stable_key@),
            pairs_view(out@) == chapters_in_order(rows@, all.take(i as int)),
            forall|s: Seq<char>| #[trigger]
                texts_view(used@).contains(s) ==> (exists|j: int|
                    0 <= j < i && #[trigger] all[j] == s) && mapped_chapter(rows@, s) is Some,
            forall|j: int|
                0 <= j < i && mapped_chapter(rows@, #[trigger] all[j]) is Some ==> texts_view(
                    used@,
                ).contains(all[j]),
            forall|j: int, k: int|
                0 <= j < k < i && (#[trigger] all[j]) == (#[trigger] all[k]) ==> mapped_chapter(
                    rows@,
                    all[j],
                ) is None,
        decreases keys.len() - i,
    {
        let key = keys[i].as_str();
        proof {
            assert(all[i as int] == key@);
            assert(all.take(i + 1).drop_last() =~= all.take(i as int));
            assert(all.take(i + 1).last() == key@);
        }
        match find_mapped(rows, key) {
            Some(id) => {
                if contains_text(&used, key) {
                    proof {
                        let j = choose|j: int| 0 <= j < i && #[trigger] all[j] == key@;
                        assert(all[j] == all[i as int]);
                        assert(!keys_agree(rows@, all));
                    }
                    return Err(owned("VISUAL_BATCH_CHAPTER_ORDER_MISMATCH"));
                }
                let ghost names = texts_view(used@);
                let ghost done = pairs_view(out@);
                out.push((id, owned(key)));
                used.push(owned(key));
                proof {
                    assert(pairs_view(out@) =~= done.push((id@, key@)));
                    assert(texts_view(used@) =~= names.push(key@));
                    assert forall|s: Seq<char>| #[trigger] texts_view(used@).contains(s) implies (
                    exists|j: int| 0 <= j < i + 1 && #[trigger] all[j] == s) && mapped_chapter(
                        rows@,
                        s,
                    ) is Some by {
                        if s == key@ {
                            assert(all[i as int] == s);
                        } else {
                            let k = choose|k: int|
                                0 <= k < names.push(key@).len() && names.push(key@)[k] == s;
                            assert(names[k] == s);
                            assert(names.contains(s));
                        }
                    }
                    assert forall|j: int|
                        0 <= j < i + 1 && mapped_chapter(
                            rows@,
                            #[trigger] all[j],
                        ) is Some implies texts_view(used@).contains(all[j]) by {
                        if j == i {
                            assert(names.push(key@)[names.len() as int] == key@);
                        } else {
                            assert(names.contains(all[j]));
                            let k = choose|k: int| 0 <= k < names.len() && names[k] == all[j];
                            assert(names.push(key@)[k] == all[j]);
                        }
                    }
                    assert forall|j: int, k: int|
                        0 <= j < k < i + 1 && (#[trigger] all[j]) == (#[trigger] all[k]) implies
                        mapped_chapter(rows@, all[j]) is None by {
                        if k == i && mapped_chapter(rows@, all[j]) is Some {
                            assert(names.contains(all[j]));
                        }
                    }
                }
            },
            None => {},
        }
        i += 1;
    }
    assert(all.take(i as int) =~= all);
    Ok(out)
}

// ---------------------------------------------------------------------------
// Pages of a chapter
// ---------------------------------------------------------------------------

/// A page of a chapter.
#[derive(Debug)]
pub struct ChapterPage {
    pub page_id: String,
    pub page_no: i64,
    pub stable_key: String,
}

/// What a page of a chapter says.
pub struct ChapterPageView {
    pub page_id: Seq<char>,
    pub page_no: int,
    pub stable_key: Seq<char>,
}

impl View for ChapterPage {
    type V = ChapterPageView;

    open spec fn view(&self) -> ChapterPageView {
        ChapterPageView {
            page_id: self.page_id@,
            page_no: self.page_no as int,
            stable_key: self.stable_key@,
        }
    }
}

/// The views of a list of pages.
pub open spec fn pages_view(v: Seq<ChapterPage>) -> Seq<ChapterPageView> {
    v.map_values(|p: ChapterPage| p@)
}

/// A page of a manifest, where it has an identifier, a positive number and a stable key.
pub open spec fn chapter_page(page: JsonView) -> Option<ChapterPageView> {
    match (
        text_at(page, "productionPageId"@),
        int_at(page, "pageNo"@),
        text_at(page, "stableKey"@),
    ) {
        (Some(id), Some(no), Some(key)) => if id.len() > 0 && no > 0 && key.len() > 0 {
            Some(ChapterPageView { page_id: id, page_no: no, stable_key: key })
        } else {
            None
        },
        _ => None,
    }
}

/// Whether a page comes before another: by number.
pub open spec fn page_before() -> spec_fn(ChapterPageView, ChapterPageView) -> bool {
    |a: ChapterPageView, b: ChapterPageView| a.page_no < b.page_no
}

/// The pages by number; pages of the same number keep their order.
pub open spec fn sorted_pages(v: Seq<ChapterPageView>) -> Seq<ChapterPageView> {
    sort_ordered(v, page_before())
}

/// The pages of a manifest by number, where all of them can be used.
pub open spec fn chapter_pages(manifest: JsonView) -> Option<Seq<ChapterPageView>> {
    match items_at(manifest, "pages"@) {
        None => None,
        Some(pages) => if forall|i: int|
            0 <= i < pages.len() ==> chapter_page(#[trigger] pages[i]) is Some {
            Some(sorted_pages(Seq::new(pages.len(), |i: int| chapter_page(pages[i])->0)))
        } else {
            None
        },
    }
}

/// The pages of a chapter are put in ascending order of their numbers, and none is lost or
/// added.
pub proof fn sorted_pages_ascend(v: Seq<ChapterPageView>)
    ensures
        forall|i: int, j: int|
            0 <= i < j < sorted_pages(v).len() ==> (#[trigger] sorted_pages(v)[i]).page_no <= (
            #[trigger] sorted_pages(v)[j]).page_no,
        sorted_pages(v).to_multiset() == v.to_multiset(),
        sorted_pages(v).len() == v.len(),
{
    sorting_orders(v, page_before());
    let s = sorted_pages(v);
    assert forall|i: int, j: int| 0 <= i < j < s.len() implies (#[trigger] s[i]).page_no <= (
    #[trigger] s[j]).page_no by {
        assert(!page_before()(s[j], s[i]));
    }
}

fn enter_page(list: &mut Vec<ChapterPage>, page: ChapterPage)
    ensures
        pages_view(final(list)@) == insert_ordered(
            pages_view(old(list)@),
            page@,
            page_before(),
        ),
{
    let ghost before = pages_view(list@);
    let mut k: usize = list.len();
    while k > 0 && list[k - 1].page_no > page.page_no
        invariant
            k <= list.len(),
            before == pages_view(list@),
            forall|i: int|
                k <= i < list.len() ==> page_before()(page@, #[trigger] before[i]),
        decreases k,
    {
        k -= 1;
    }
    proof {
        lemma_insert_ordered(before, page@, page_before(), k as int);
    }
    list.insert(k, page);
    assert(pages_view(list@) =~= before.insert(k as int, page@));
}

fn read_page(page: &Json) -> (r: Option<ChapterPage>)
    ensures
        opt_view(r) == chapter_page(page@),
{
    let id = match page.text_at("productionPageId") {
        Some(id) => id,
        None => return None,
    };
    let no: Option<i64> = page.int_at("pageNo");
    let key = match page.text_at("stableKey") {
        Some(key) => key,
        None => return None,
    };
    match no {
        Some(no) => {
            if id.is_empty() || no <= 0 || key.is_empty() {
                return None;
            }
            Some(ChapterPage { page_id: owned(id), page_no: no, stable_key: owned(key) })
        },
        None => None,
    }
}

/// Reads the pages of a manifest by number.
pub fn read_chapter_pages(manifest: &Json) -> (r: Option<Vec<ChapterPage>>)
    ensures
        (match r {
            Some(v) => Some(pages_view(v@)),
            None => None,
        }) == chapter_pages(manifest@),
{
    let pages = match manifest.items_at("pages") {
        Some(pages) => pages,
        None => return None,
    };
    let ghost views = items_view(pages@);
    let ghost mut read: Seq<ChapterPageView> = Seq::empty();
    let mut out: Vec<ChapterPage> = Vec::new();
    assert(pages_view(out@) =~= sorted_pages(read));
    let mut i: usize = 0;
    while i < pages.len()
        invariant
            i <= pages.len(),
            views == items_view(pages@),
            items_at(manifest@, "pages"@) == Some(views),
            read.len() == i,
            forall|j: int| 0 <= j < i ==> chapter_page(#[trigger] views[j]) == Some(read[j]),
            pages_view(out@) == sorted_pages(read),
        decreases pages.len() - i,
    {
        assert(views[i as int] == pages@[i as int]@);
        match read_page(&pages[i]) {
            Some(page) => {
                proof {
                    let before = read;
                    read = read.push(page@);
                    assert(read.drop_last() =~= before);
                }
                enter_page(&mut out, page);
            },
            None => {
                assert(chapter_page(views[i as int]) is None);
                return None;
            },
        }
        i += 1;
    }
    assert(read =~= Seq::new(views.len(), |i: int| chapter_page(views[i])->0));
    Some(out)
}

// ---------------------------------------------------------------------------
// Members
// ---------------------------------------------------------------------------

/// A member about to be stored; `previous` is the index of the page before it in its chapter.
#[derive(Debug)]
pub struct PendingMember {
    pub manifest_id: String,
    pub chapter_id: String,
    pub page_id: String,
    pub page_no: i64,
    pub stable_key: String,
    pub previous: Option<usize>,
}

/// What a pending member says.
pub struct PendingView {
    pub manifest_id: Seq<char>,
    pub chapter_id: Seq<char>,
    pub page_id: Seq<char>,
    pub page_no: int,
    pub stable_key: Seq<char>,
    pub previous: Option<usize>,
}

impl View for PendingMember {
    type V = PendingView;

    open spec fn view(&self) -> PendingView {
        PendingView {
            manifest_id: self.manifest_id@,
            chapter_id: self.chapter_id@,
            page_id: self.page_id@,
            page_no: self.page_no as int,
            stable_key: self.stable_key@,
            previous: self.previous,
        }
    }
}

/// The views of a list of pending members.
pub open spec fn pending_view(v: Seq<PendingMember>) -> Seq<PendingView> {
    v.map_values(|p: PendingMember| p@)
}

/// A page of a chapter as a pending member: behind `before` others, of which those from
/// `start` on belong to its chapter.
pub open spec fn pending_page(
    p: ChapterPageView,
    manifest: Seq<char>,
    chapter: Seq<char>,
    start: int,
    before: int,
) -> PendingView {
    PendingView {
        manifest_id: manifest,
        chapter_id: chapter,
        page_id: p.page_id,
        page_no: p.page_no,
        stable_key: p.stable_key,
        previous: if before > start {
            Some((before - 1) as usize)
        } else {
            None
        },
    }
}

/// The pending members with the pages of one more chapter.
pub open spec fn with_chapter(
    pending: Seq<PendingView>,
    manifest: Seq<char>,
    chapter: Seq<char>,
    pages: Seq<ChapterPageView>,
) -> Seq<PendingView> {
    pending + Seq::new(
        pages.len(),
        |i: int|
            pending_page(pages[i], manifest, chapter, pending.len() as int, pending.len() + i),
    )
}

/// Adds the pages of a chapter to the pending members. A manifest that is not current blocks
/// the batch, which is told by `false`; one that cannot be used is an error.
pub fn add_chapter(
    batch: &mut BatchState,
    pending: &mut Vec<PendingMember>,
    chapter_id: &str,
    manifest: &ComicVisualManifest,
    now: i64,
) -> (r: Result<bool, String>)
    ensures
        if manifest.freshness@ != "ready"@ {
            r == Ok::<bool, String>(false) && final(pending)@ == old(pending)@ && final(batch)@
                == blocked_stale(
                old(batch)@,
                "VISUAL_BATCH_MANIFEST_STALE"@,
                "漫画生产结构已变更，已暂停生成。"@,
                now,
            )
        } else {
            final(batch)@ == old(batch)@ && match chapter_pages(manifest.manifest@) {
                None => r matches Err(e) && e@ == "VISUAL_BATCH_MANIFEST_INVALID"@
                    && final(pending)@ == old(pending)@,
                Some(pages) => r == Ok::<bool, String>(true) && pending_view(final(pending)@)
                    == with_chapter(
                    pending_view(old(pending)@),
                    manifest.id@,
                    chapter_id@,
                    pages,
                ),
            }
        },
{
    if !same(manifest.freshness.as_str(), "ready") {
        set_batch_status(
            batch,
            "blocked_stale",
            Some(("VISUAL_BATCH_MANIFEST_STALE", "漫画生产结构已变更，已暂停生成。")),
            now,
        );
        return Ok(false);
    }
    let pages = match read_chapter_pages(&manifest.manifest) {
        Some(pages) => pages,
        None => return Err(owned("VISUAL_BATCH_MANIFEST_INVALID")),
    };
    let ghost views = pages_view(pages@);
    let ghost before = pending_view(pending@);
    let start: usize = pending.len();
    let mut i: usize = 0;
    while i < pages.len()
        invariant
            i <= pages.len(),
            views == pages_view(pages@),
            start == before.len(),
            pending.len() == start + i,
            pending_view(pending@) =~= with_chapter(
                before,
                manifest.id@,
                chapter_id@,
                views.take(i as int),
            ),
        decreases pages.len() - i,
    {
        let count: usize = pending.len();
        let previous: Option<usize> = if i > 0 {
            Some(count - 1)
        } else {
            None
        };
        let ghost so_far = pending_view(pending@);
        let entry = PendingMember {
            manifest_id: manifest.id.clone(),
            chapter_id: owned(chapter_id),
            page_id: pages[i].page_id.clone(),
            page_no: pages[i].page_no,
            stable_key: pages[i].stable_key.clone(),
            previous,
        };
        pending.push(entry);
        proof {
            assert(views.take(i + 1)[i as int] == pages@[i as int]@);
            assert(pending_view(pending@) =~= so_far.push(entry@));
            assert(entry@ == pending_page(
                views[i as int],
                manifest.id@,
                chapter_id@,
                start as int,
                start + i,
            ));
            assert forall|j: int| 0 <= j < i implies views.take(i + 1)[j] == views.take(
                i as int,
            )[j] by {}
        }
        i += 1;
    }
    assert(views.take(i as int) =~= views);
    Ok(true)
}

/// The key under which a page of a batch is dispatched.
pub open spec fn dispatch_key(batch: Seq<char>, manifest: Seq<char>, page: Seq<char>) -> Seq<char> {
    batch + ":"@ + manifest + ":"@ + page
}

/// A pending member as a member of a batch.
pub open spec fn new_member(
    batch: Seq<char>,
    p: PendingView,
    ids: Seq<Seq<char>>,
    i: int,
) -> MemberView {
    MemberView {
        id: ids[i],
        ordinal: i + 1,
        manifest_id: p.manifest_id,
        production_chapter_id: p.chapter_id,
        production_page_id: p.page_id,
        page_no: p.page_no,
        page_stable_key: p.stable_key,
        predecessor_member_id: match p.previous {
            Some(k) => if k < ids.len() {
                Some(ids[k as int])
            } else {
                None
            },
            None => None,
        },
        page_run_id: None,
        dispatch_key: dispatch_key(batch, p.manifest_id, p.page_id),
        status: "pending"@,
        finished_at: None,
    }
}

/// A batch with its members stored and its first page current; a batch without pages is
/// blocked, and members that are there already are kept.
pub open spec fn members_installed(
    b: BatchView,
    pending: Seq<PendingView>,
    ids: Seq<Seq<char>>,
    now: i64,
) -> BatchView {
    if pending.len() == 0 {
        blocked_stale(b, "VISUAL_BATCH_EMPTY"@, "漫画生产回执没有可生成的页面。"@, now)
    } else if b.members.len() > 0 {
        b
    } else {
        BatchView {
            status: "running"@,
            total_members: pending.len() as int,
            completed_members: 0,
            current_member_ordinal: Some(1),
            safe_error_code: None,
            safe_user_message: None,
            members: Seq::new(pending.len(), |i: int| new_member(b.id, pending[i], ids, i)),
            ..b
        }
    }
}

/// Stores the pending members in a batch, under new identifiers.
pub fn install_members(
    batch: &mut BatchState,
    pending: &Vec<PendingMember>,
    ids: &Vec<String>,
    now: i64,
)
    requires
        ids.len() == pending.len(),
        pending.len() < i64::MAX,
    ensures
        final(batch)@ == members_installed(
            old(batch)@,
            pending_view(pending@),
            texts_view(ids@),
            now,
        ),
        members_in_order(old(batch)@) ==> members_in_order(final(batch)@),
{
    if pending.len() == 0 {
        set_batch_status(
            batch,
            "blocked_stale",
            Some(("VISUAL_BATCH_EMPTY", "漫画生产回执没有可生成的页面。")),
            now,
        );
        return ;
    }
    if batch.members.len() > 0 {
        return ;
    }
    let ghost names = texts_view(ids@);
    let ghost list = pending_view(pending@);
    let mut members: Vec<MemberState> = Vec::new();
    let mut i: usize = 0;
    while i < pending.len()
        invariant
            i <= pending.len(),
            pending.len() < i64::MAX,
            ids.len() == pending.len(),
            names == texts_view(ids@),
            list == pending_view(pending@),
            members.len() == i,
            forall|j: int|
                0 <= j < i ==> (#[trigger] members@[j])@ == new_member(batch@.id, list[j], names, j),
        decreases pending.len() - i,
    {
        let p = &pending[i];
        let predecessor = match p.previous {
            Some(k) => if k < ids.len() {
                Some(ids[k].clone())
            } else {
                None
            },
            None => None,
        };
        let mut key = batch.id.clone();
        key.append(":");
        key.append(p.manifest_id.as_str());
        key.append(":");
        key.append(p.page_id.as_str());
        let m = MemberState {
            id: ids[i].clone(),
            ordinal: (i + 1) as i64,
            manifest_id: p.manifest_id.clone(),
            production_chapter_id: p.chapter_id.clone(),
            production_page_id: p.page_id.clone(),
            page_no: p.page_no,
            page_stable_key: p.stable_key.clone(),
            predecessor_member_id: predecessor,
            page_run_id: None,
            dispatch_key: key,
            status: owned("pending"),
            finished_at: None,
        };
        assert(m@ == new_member(batch@.id, list[i as int], names, i as int));
        members.push(m);
        i += 1;
    }
    proof {
        assert(members_of(members@) =~= Seq::new(
            list.len(),
            |i: int| new_member(batch@.id, list[i], names, i),
        ));
    }
    batch.members = members;
    batch.status = owned("running");
    batch.total_members = pending.len() as i64;
    batch.completed_members = 0;
    batch.current_member_ordinal = Some(1);
    batch.safe_error_code = None;
    batch.safe_user_message = None;
}

/// A chapter whose manifest was prepared.
pub struct PreparedChapter {
    pub chapter_id: Seq<char>,
    pub manifest_id: Seq<char>,
    pub manifest: JsonView,
}

/// The pages of a prepared chapter by number.
pub open spec fn pages_of(c: PreparedChapter) -> Seq<ChapterPageView> {
    chapter_pages(c.manifest)->0
}

/// The pages that the manifest of a prepared chapter lists.
pub open spec fn listed_pages(c: PreparedChapter) -> Seq<ChapterPageView> {
    let pages = items_at(c.manifest, "pages"@)->0;
    Seq::new(pages.len(), |i: int| chapter_page(pages[i])->0)
}

/// The pending members after all chapters were added, one after the other.
pub open spec fn gathered(chapters: Seq<PreparedChapter>) -> Seq<PendingView>
    decreases chapters.len(),
{
    if chapters.len() == 0 {
        Seq::empty()
    } else {
        let c = chapters.last();
        with_chapter(gathered(chapters.drop_last()), c.manifest_id, c.chapter_id, pages_of(c))
    }
}

/// How many pages come before those of a chapter.
pub open spec fn pages_before(chapters: Seq<PreparedChapter>, c: int) -> int {
    gathered(chapters.take(c)).len() as int
}

proof fn lemma_gathered(chapters: Seq<PreparedChapter>, c: int, p: int)
    requires
        0 <= c < chapters.len(),
        0 <= p < pages_of(chapters[c]).len(),
    ensures
        pages_before(chapters, c) + p < gathered(chapters).len(),
        gathered(chapters)[pages_before(chapters, c) + p] == pending_page(
            pages_of(chapters[c])[p],
            chapters[c].manifest_id,
            chapters[c].chapter_id,
            pages_before(chapters, c),
            pages_before(chapters, c) + p,
        ),
    decreases chapters.len(),
{
    let rest = chapters.drop_last();
    if c == chapters.len() - 1 {
        assert(chapters.take(c) =~= rest);
    } else {
        lemma_gathered(rest, c, p);
        assert(rest.take(c) =~= chapters.take(c));
        assert(rest[c] == chapters[c]);
    }
}

proof fn lemma_pages_before(chapters: Seq<PreparedChapter>)
    ensures
        pages_before(chapters, 0) == 0,
        pages_before(chapters, chapters.len() as int) == gathered(chapters).len(),
        forall|c: int|
            0 <= c < chapters.len() ==> #[trigger] pages_before(chapters, c + 1) == pages_before(
                chapters,
                c,
            ) + pages_of(chapters[c]).len(),
{
    assert(chapters.take(0) =~= Seq::empty());
    assert(chapters.take(chapters.len() as int) =~= chapters);
    assert forall|c: int| 0 <= c < chapters.len() implies #[trigger] pages_before(chapters, c + 1)
        == pages_before(chapters, c) + pages_of(chapters[c]).len() by {
        assert(chapters.take(c + 1).drop_last() =~= chapters.take(c));
        assert(chapters.take(c + 1).last() == chapters[c]);
    }
}

/// The preparation of the members of a batch, chapter by chapter.
pub struct Preparation {
    pub adaptation: String,
    pub operation: String,
    pub chapters: Vec<(String, String)>,
    pub pending: Vec<PendingMember>,
    pub done: usize,
    pub prepared: Ghost<Seq<PreparedChapter>>,
}

/// What a preparation has to do and what it has done.
pub struct PreparationView {
    pub adaptation: Seq<char>,
    pub operation: Seq<char>,
    pub chapters: Seq<(Seq<char>, Seq<char>)>,
    pub prepared: Seq<PreparedChapter>,
}

impl View for Preparation {
    type V = PreparationView;

    open spec fn view(&self) -> PreparationView {
        PreparationView {
            adaptation: self.adaptation@,
            operation: self.operation@,
            chapters: pairs_view(self.chapters@),
            prepared: self.prepared@,
        }
    }
}

/// Whether the first chapters of a plan were prepared, in order, with manifests that can be
/// used.
pub open spec fn prepares(p: PreparationView) -> bool {
    &&& p.prepared.len() <= p.chapters.len()
    &&& forall|i: int|
        0 <= i < p.prepared.len() ==> (#[trigger] p.prepared[i]).chapter_id == (p.chapters[i]).0
            && chapter_pages(p.prepared[i].manifest) is Some
}

/// The preparation of the next chapter: its manifest is prepared under a key of its own.
pub open spec fn is_chapter_request(
    input: ComicVisualManifestPrepareInput,
    p: PreparationView,
    b: BatchView,
) -> bool {
    let chapter = (p.chapters[p.prepared.len() as int]).0;
    &&& input.project_id@ == b.project_id
    &&& input.novel_work_id@ == b.novel_work_id
    &&& input.comic_adaptation_id@ == p.adaptation
    &&& input.apply_operation_id@ == p.operation
    &&& input.production_chapter_id@ == chapter
    &&& input.idempotency_key@ == b.id + ":manifest:"@ + chapter
}

impl Preparation {
    /// Whether the pending members are those of the chapters that were prepared.
    pub open spec fn wf(&self) -> bool {
        &&& prepares(self@)
        &&& self.done == self.prepared@.len()
        &&& pending_view(self.pending@) == gathered(self.prepared@)
    }

    /// Whether all chapters were prepared.
    pub open spec fn is_complete(&self) -> bool {
        self.prepared@.len() == self.chapters.len()
    }

    /// Begins the preparation of a batch from the chapters that its apply operation maps.
    pub fn begin(rows: &Vec<ChapterMapRow>, adaptation: &str, operation: &str) -> (r: Result<
        Preparation,
        String,
    >)
        ensures
            match ordered_chapters(rows@) {
                Err(e) => r matches Err(f) && f@ == e,
                Ok(chapters) => r matches Ok(p) && p.wf() && p@ == (PreparationView {
                    adaptation: adaptation@,
                    operation: operation@,
                    chapters,
                    prepared: Seq::empty(),
                }),
            },
    {
        match ordered_chapters_from_receipt(rows) {
            Ok(chapters) => {
                let pending: Vec<PendingMember> = Vec::new();
                assert(pending_view(pending@) =~= gathered(Seq::empty()));
                Ok(
                    Preparation {
                        adaptation: owned(adaptation),
                        operation: owned(operation),
                        chapters,
                        pending,
                        done: 0,
                        prepared: Ghost(Seq::empty()),
                    },
                )
            },
            Err(e) => Err(e),
        }
    }

    /// What to prepare the manifest of the next chapter from; nothing where all are prepared.
    pub fn next_chapter(&self, batch: &BatchState) -> (r: Option<ComicVisualManifestPrepareInput>)
        requires
            self.wf(),
        ensures
            if self.is_complete() {
                r is None
            } else {
                r matches Some(input) && is_chapter_request(input, self@, batch@)
            },
    {
        if self.done >= self.chapters.len() {
            return None;
        }
        let chapter = self.chapters[self.done].0.as_str();
        Some(
            ComicVisualManifestPrepareInput {
                project_id: batch.project_id.clone(),
                novel_work_id: batch.novel_work_id.clone(),
                comic_adaptation_id: self.adaptation.clone(),
                apply_operation_id: self.operation.clone(),
                production_chapter_id: owned(chapter),
                idempotency_key: concat3(batch.id.as_str(), ":manifest:", chapter),
            },
        )
    }

    /// Takes the prepared manifest of the next chapter. A manifest that is not current blocks
    /// the batch, which is told by `false`; one that cannot be used is an error.
    pub fn take_manifest(
        &mut self,
        batch: &mut BatchState,
        manifest: &ComicVisualManifest,
        now: i64,
    ) -> (r: Result<bool, String>)
        requires
            old(self).wf(),
            !old(self).is_complete(),
        ensures
            final(self).wf(),
            if manifest.freshness@ != "ready"@ {
                r == Ok::<bool, String>(false) && final(self)@ == old(self)@ && final(batch)@
                    == blocked_stale(
                    old(batch)@,
                    "VISUAL_BATCH_MANIFEST_STALE"@,
                    "漫画生产结构已变更，已暂停生成。"@,
                    now,
                )
            } else if chapter_pages(manifest.manifest@) is None {
                r matches Err(e) && e@ == "VISUAL_BATCH_MANIFEST_INVALID"@ && final(self)@ == old(
                    self,
                )@ && final(batch)@ == old(batch)@
            } else {
                r == Ok::<bool, String>(true) && final(batch)@ == old(batch)@ && final(self)@ == (
                PreparationView {
                    prepared: old(self)@.prepared.push(
                        PreparedChapter {
                            chapter_id: (old(self)@.chapters[old(self)@.prepared.len() as int]).0,
                            manifest_id: manifest.id@,
                            manifest: manifest.manifest@,
                        },
                    ),
                    ..old(self)@
                })
            },
    {
        let ghost before = self.prepared@;
        let ghost chapter = PreparedChapter {
            chapter_id: self.chapters@[self.done as int].0@,
            manifest_id: manifest.id@,
            manifest: manifest.manifest@,
        };
        let chapter_id = self.chapters[self.done].0.clone();
        match add_chapter(batch, &mut self.pending, chapter_id.as_str(), manifest, now) {
            Ok(true) => {
                proof {
                    assert(before.push(chapter).drop_last() =~= before);
                    assert(pairs_view(self.chapters@)[self.done as int].0 == chapter.chapter_id);
                }
                self.prepared = Ghost(before.push(chapter));
                self.done = self.done + 1;
                Ok(true)
            },
            Ok(false) => Ok(false),
            Err(e) => Err(e),
        }
    }

    /// Stores the members of all chapters in a batch, under new identifiers.
    pub fn install(&self, batch: &mut BatchState, ids: &Vec<String>, now: i64)
        requires
            self.wf(),
            self.is_complete(),
            ids.len() == self.pending.len(),
            ids.len() < i64::MAX,
        ensures
            final(batch)@ == members_installed(
                old(batch)@,
                gathered(self@.prepared),
                texts_view(ids@),
                now,
            ),
    {
        install_members(batch, &self.pending, ids, now);
    }
}

/// Whether a member stands for a page of a chapter and has not been started.
pub open spec fn stands_for(m: MemberView, c: PreparedChapter, p: ChapterPageView) -> bool {
    &&& m.production_chapter_id == c.chapter_id
    &&& m.manifest_id == c.manifest_id
    &&& m.production_page_id == p.page_id
    &&& m.page_no == p.page_no
    &&& m.page_stable_key == p.stable_key
    &&& m.page_run_id is None
    &&& m.status == "pending"@
}

/// Whether a page of a chapter has its member in its place, which depends on the page before it
/// in the chapter.
pub open spec fn page_is_placed(
    b: BatchView,
    chapters: Seq<PreparedChapter>,
    ids: Seq<Seq<char>>,
    c: int,
    p: int,
) -> bool {
    let at = pages_before(chapters, c) + p;
    &&& 0 <= at < b.members.len()
    &&& stands_for(b.members[at], chapters[c], pages_of(chapters[c])[p])
    &&& b.members[at].predecessor_member_id == if p > 0 {
        Some(ids[at - 1])
    } else {
        None
    }
}

/// Whether the pages of a chapter are those that its manifest lists, by ascending number.
pub open spec fn pages_are_sorted(c: PreparedChapter) -> bool {
    &&& pages_of(c).to_multiset() == listed_pages(c).to_multiset()
    &&& forall|p: int, q: int|
        0 <= p < q < pages_of(c).len() ==> (#[trigger] pages_of(c)[p]).page_no <= (
        #[trigger] pages_of(c)[q]).page_no
}

/// Preparing a batch makes its members of all pages of all chapters. The members are numbered
/// from one without a gap; they come chapter by chapter, in the order of the plan, and within a
/// chapter by page number; every page that a manifest lists is there once, pending and without
/// a run, and depends on the page before it in its chapter. The batch runs, with its first page
/// current. `p` is a finished preparation from the chapters that `rows` map.
pub proof fn every_page_becomes_a_member(
    b: BatchView,
    rows: Seq<ChapterMapRow>,
    p: PreparationView,
    ids: Seq<Seq<char>>,
    now: i64,
)
    requires
        b.members.len() == 0,
        ordered_chapters(rows) == Ok::<_, Seq<char>>(p.chapters),
        prepares(p),
        p.prepared.len() == p.chapters.len(),
        gathered(p.prepared).len() > 0,
        ids.len() == gathered(p.prepared).len(),
        ids.len() <= usize::MAX,
    ensures
        ({
            let chapters = p.prepared;
            let after = members_installed(b, gathered(chapters), ids, now);
            &&& chapters.len() == p.chapters.len()
            &&& forall|c: int|
                0 <= c < chapters.len() ==> (#[trigger] chapters[c]).chapter_id == (p.chapters[c]).0
            &&& after.status == "running"@
            &&& after.total_members == after.members.len()
            &&& after.completed_members == 0
            &&& after.current_member_ordinal == Some(1i64)
            &&& pages_before(chapters, 0) == 0
            &&& pages_before(chapters, chapters.len() as int) == after.members.len()
            &&& forall|c: int|
                0 <= c < chapters.len() ==> #[trigger] pages_before(chapters, c + 1)
                    == pages_before(chapters, c) + pages_of(chapters[c]).len()
            &&& forall|i: int|
                0 <= i < after.members.len() ==> (#[trigger] after.members[i]).ordinal == i + 1
                    && after.members[i].id == ids[i]
            &&& forall|c: int, p: int|
                0 <= c < chapters.len() && 0 <= p < pages_of(chapters[c]).len()
                    ==> #[trigger] page_is_placed(after, chapters, ids, c, p)
            &&& forall|c: int| 0 <= c < chapters.len() ==> pages_are_sorted(#[trigger] chapters[c])
        }),
{
    let chapters = p.prepared;
    let after = members_installed(b, gathered(chapters), ids, now);
    lemma_pages_before(chapters);
    assert forall|c: int, p: int|
        0 <= c < chapters.len() && 0 <= p < pages_of(chapters[c]).len() implies #[trigger]
    page_is_placed(after, chapters, ids, c, p) by {
        lemma_gathered(chapters, c, p);
        let at = pages_before(chapters, c) + p;
        assert(after.members[at] == new_member(b.id, gathered(chapters)[at], ids, at));
    }
    assert forall|c: int| 0 <= c < chapters.len() implies pages_are_sorted(
        #[trigger] chapters[c],
    ) by {
        sorted_pages_ascend(listed_pages(chapters[c]));
        assert(pages_of(chapters[c]) == sorted_pages(listed_pages(chapters[c])));
    }
}

/// A batch that has members is not prepared again: looking at its job makes none, and members
/// that were gathered meanwhile leave those that are there.
pub proof fn prepared_members_stay(
    b: BatchView,
    job: ProductionJob,
    pending: Seq<PendingView>,
    ids: Seq<Seq<char>>,
    now: i64,
)
    requires
        b.members.len() > 0,
    ensures
        scope_step(b, job, now).1 is None,
        scope_step(b, job, now).0.members == b.members,
        members_installed(b, pending, ids, now).members == b.members,
        pending.len() > 0 ==> members_installed(b, pending, ids, now) == b,
{
}

// ---------------------------------------------------------------------------
// The next page
// ---------------------------------------------------------------------------

/// The statuses in which a batch can start a page.
pub open spec fn can_start(status: Seq<char>) -> bool {
    ||| status == "running"@
    ||| status == "authorized"@
    ||| status == "preparing"@
    ||| status == "blocked_config"@
}

/// Whether a member already has a run or is under way.
pub open spec fn is_under_way(m: MemberView) -> bool {
    ||| m.page_run_id is Some && m.page_run_id->0.len() > 0
    ||| m.status == "queued"@
    ||| m.status == "running"@
}

/// What becomes of a batch that has taken over all outcomes when its next page is looked for,
/// and the page to be started, where there is one: the first open member, unless it is under
/// way, and only under the frozen model and provider.
pub open spec fn next_step(b: BatchView, image_ready: bool, provider: Seq<char>, now: i64) -> (
    BatchView,
    Option<MemberView>,
) {
    if !can_start(b.status) {
        (b, None)
    } else if batch_model(b) is None {
        (
            with_status(
                b,
                "blocked_config"@,
                Some(("VISUAL_BATCH_MODEL_REQUIRED"@, "需要补齐图像模型后继续生成。"@)),
                now,
            ),
            None,
        )
    } else if !image_ready || b.authorization.provider_id != provider {
        (
            with_status(
                b,
                "blocked_config"@,
                Some(
                    (
                        "VISUAL_BATCH_CONFIG_REQUIRED"@,
                        "需要补齐已授权图像服务配置后继续生成。"@,
                    ),
                ),
                now,
            ),
            None,
        )
    } else {
        match first_open(b.members) {
            None => (with_status(b, "candidate_ready"@, None, now), None),
            Some(m) => (
                b,
                if is_under_way(m) {
                    None
                } else {
                    Some(m)
                },
            ),
        }
    }
}

/// Looks for the page to be started next. The result is the index of its member.
pub fn next_page_member(
    batch: &mut BatchState,
    runs: &Vec<ScopedRun>,
    image_ready: bool,
    active_provider: &str,
    now: i64,
) -> (r: Result<Option<usize>, String>)
    requires
        old(batch).members.len() <= i64::MAX,
    ensures
        !outcomes_known(relinked(old(batch)@, runs@), runs@) ==> (r matches Err(e) && e@
            == "VISUAL_BATCH_RUN_STATUS_INVALID"@) && exists|k: int| #[trigger]
            first_unknown(relinked(old(batch)@, runs@), runs@, k) && final(batch)@ == synced_upto(
                relinked(old(batch)@, runs@),
                runs@,
                k,
                now,
            ),
        outcomes_known(relinked(old(batch)@, runs@), runs@) ==> r is Ok && ({
            let step = next_step(
                synced(relinked(old(batch)@, runs@), runs@, now),
                image_ready,
                active_provider@,
                now,
            );
            &&& final(batch)@ == step.0
            &&& match r->Ok_0 {
                Some(i) => i < final(batch)@.members.len() && step.1 == Some(
                    final(batch)@.members[i as int],
                ) && is_next_index(final(batch)@.members, i as int),
                None => step.1 is None,
            }
        }),
        members_in_order(old(batch)@) ==> members_in_order(final(batch)@),
{
    reconcile_unlinked_members(batch, runs);
    assert(batch@.members.len() == old(batch)@.members.len());
    assert(batch.members.len() == batch@.members.len());
    match sync_member_outcomes(batch, runs, now) {
        Ok(_) => {},
        Err(e) => return Err(e),
    }
    let status = batch.status.as_str();
    if !(same(status, "running") || same(status, "authorized") || same(status, "preparing") || same(
        status,
        "blocked_config",
    )) {
        return Ok(None);
    }
    if batch.authorization.model.is_none() && batch.resolved_model.is_none() {
        set_batch_status(
            batch,
            "blocked_config",
            Some(("VISUAL_BATCH_MODEL_REQUIRED", "需要补齐图像模型后继续生成。")),
            now,
        );
        return Ok(None);
    }
    if !image_ready || !same(batch.authorization.provider_id.as_str(), active_provider) {
        set_batch_status(
            batch,
            "blocked_config",
            Some(("VISUAL_BATCH_CONFIG_REQUIRED", "需要补齐已授权图像服务配置后继续生成。")),
            now,
        );
        return Ok(None);
    }
    let open: Option<usize> = first_open_index(&batch.members);
    match open {
        None => {
            set_batch_status(batch, "candidate_ready", None, now);
            Ok(None)
        },
        Some(i) => {
            let m = &batch.members[i];
            let linked = match &m.page_run_id {
                Some(id) => !id.as_str().is_empty(),
                None => false,
            };
            if linked || same(m.status.as_str(), "queued") || same(m.status.as_str(), "running") {
                Ok(None)
            } else {
                Ok(Some(i))
            }
        },
    }
}

/// Whether all members before an index are ready and the one at it is not.
pub open spec fn is_next_index(members: Seq<MemberView>, i: int) -> bool {
    &&& 0 <= i < members.len()
    &&& members[i].status != "candidate_ready"@
    &&& forall|j: int| 0 <= j < i ==> (#[trigger] members[j]).status == "candidate_ready"@
}

/// The start of a page on behalf of a batch.
#[derive(Debug)]
pub struct StartAction {
    pub member_id: String,
    pub dispatch_key: String,
    pub provider_id: String,
    pub model: String,
    pub input: ComicVisualPageRunStartInput,
}

/// The request with which a batch starts a page.
pub open spec fn page_request(fingerprint: Seq<char>, page: Seq<char>) -> JsonView {
    JsonView::Obj(
        no_members()
            .push(("schemaVersion"@, JsonView::Str(COMPILER_CONTRACT@)))
            .push(("manifestFingerprint"@, JsonView::Str(fingerprint)))
            .push(("productionPageId"@, JsonView::Str(page))),
    )
}

/// Whether an action starts the page of a member under the frozen options of its batch.
pub open spec fn starts_member(
    a: StartAction,
    b: BatchView,
    m: MemberView,
    manifest: ComicVisualManifest,
) -> bool {
    &&& a.member_id@ == m.id
    &&& a.dispatch_key@ == m.dispatch_key
    &&& a.provider_id@ == b.authorization.provider_id
    &&& Some(a.model@) == batch_model(b)
    &&& a.input.project_id@ == b.project_id
    &&& a.input.novel_work_id@ == b.novel_work_id
    &&& a.input.manifest_id@ == manifest.id@
    &&& a.input.production_page_id@ == m.production_page_id
    &&& a.input.manifest_fingerprint@ == manifest.manifest_fingerprint@
    &&& a.input.compiler_contract_version@ == COMPILER_CONTRACT@
    &&& a.input.request_json@ == page_request(manifest.manifest_fingerprint@, m.production_page_id)
    &&& a.input.reference_snapshot_json@ == JsonView::Obj(no_members())
    &&& a.input.idempotency_key@ == m.dispatch_key
}

/// Makes the start of the page of a member, or blocks the batch where its manifest is not
/// current any more.
pub fn start_action(
    batch: &mut BatchState,
    member_index: usize,
    manifest: &ComicVisualManifest,
    now: i64,
) -> (r: Option<StartAction>)
    requires
        member_index < old(batch).members.len(),
        batch_model(old(batch)@) is Some,
    ensures
        if manifest.freshness@ != "ready"@ {
            r is None && final(batch)@ == blocked_stale(
                old(batch)@,
                "VISUAL_BATCH_MANIFEST_STALE"@,
                "漫画生产结构已变化，已暂停生成。"@,
                now,
            )
        } else {
            r matches Some(a) && final(batch)@ == old(batch)@ && starts_member(
                a,
                old(batch)@,
                old(batch)@.members[member_index as int],
                *manifest,
            )
        },
{
    if !same(manifest.freshness.as_str(), "ready") {
        set_batch_status(
            batch,
            "blocked_stale",
            Some(("VISUAL_BATCH_MANIFEST_STALE", "漫画生产结构已变化，已暂停生成。")),
            now,
        );
        return None;
    }
    let model = match &batch.authorization.model {
        Some(model) => model.clone(),
        None => match &batch.resolved_model {
            Some(model) => model.clone(),
            None => return None,
        },
    };
    let m = &batch.members[member_index];
    let request_json = fields().text("schemaVersion", COMPILER_CONTRACT).text(
        "manifestFingerprint",
        manifest.manifest_fingerprint.as_str(),
    ).text("productionPageId", m.production_page_id.as_str()).object();
    Some(
        StartAction {
            member_id: m.id.clone(),
            dispatch_key: m.dispatch_key.clone(),
            provider_id: batch.authorization.provider_id.clone(),
            model,
            input: ComicVisualPageRunStartInput {
                project_id: batch.project_id.clone(),
                novel_work_id: batch.novel_work_id.clone(),
                manifest_id: manifest.id.clone(),
                production_page_id: m.production_page_id.clone(),
                manifest_fingerprint: manifest.manifest_fingerprint.clone(),
                compiler_contract_version: owned(COMPILER_CONTRACT),
                request_json,
                reference_snapshot_json: fields().object(),
                idempotency_key: m.dispatch_key.clone(),
            },
        },
    )
}

/// Links a started run to its member. `run_found` tells whether the run with the identifier
/// carries the dispatch key. Only the driver that holds the batch can link, and only a member
/// that has no other run.
pub fn link_member_run(
    batch: &mut BatchState,
    token: &str,
    member_index: usize,
    run_id: &str,
    run_found: bool,
    now: i64,
) -> (r: Result<(), String>)
    requires
        member_index < old(batch).members.len(),
    ensures
        ({
            let m = old(batch)@.members[member_index as int];
            if !run_found {
                r matches Err(e) && e@ == "VISUAL_BATCH_RUN_LINK_MISMATCH"@ && final(batch)@ == old(
                    batch,
                )@
            } else if !holds(old(batch)@, token@, now) || (m.page_run_id is Some && m.page_run_id
                != Some(run_id@)) {
                r matches Err(e) && e@ == "VISUAL_BATCH_LEASE_LOST"@ && final(batch)@ == old(batch)@
            } else {
                r is Ok && final(batch)@ == (BatchView {
                    members: old(batch)@.members.update(
                        member_index as int,
                        MemberView { page_run_id: Some(run_id@), status: "queued"@, ..m },
                    ),
                    ..old(batch)@
                })
            }
        }),
{
    if !run_found {
        return Err(owned("VISUAL_BATCH_RUN_LINK_MISMATCH"));
    }
    let mine = match &batch.lease_owner {
        Some(owner) => same(owner.as_str(), token),
        None => false,
    };
    let alive = match batch.lease_expires_at {
        Some(expires) => expires >= now,
        None => false,
    };
    let mut m = batch.members[member_index].copy();
    let free = match &m.page_run_id {
        Some(id) => same(id.as_str(), run_id),
        None => true,
    };
    if !mine || !alive || !free {
        return Err(owned("VISUAL_BATCH_LEASE_LOST"));
    }
    m.page_run_id = Some(owned(run_id));
    m.status = owned("queued");
    let ghost before = batch@.members;
    batch.members.set(member_index, m);
    assert(batch@.members =~= before.update(member_index as int, m@));
    Ok(())
}

// ---------------------------------------------------------------------------
// The driver
// ---------------------------------------------------------------------------

/// What a driver has just observed.
#[derive(Debug)]
pub enum DriveEvent {
    /// The attempt to take the batch: whether it was taken, and when the present lease ends.
    Claimed { taken: Result<bool, String>, lease_expires_at: Option<i64>, now: i64 },
    /// The preparation of the members.
    Prepared(Result<(), String>),
    /// The reading of the configuration.
    ConfigRead(bool),
    /// The search for the next page: whether there is one to start.
    Searched(Result<bool, String>),
    /// The start of the page: the status of its run.
    Started(Result<String, String>),
    /// The linking of the run, with the status that it was started with.
    Linked(Result<(), String>, String),
}

/// What a driver does next.
#[derive(Debug)]
pub enum DriveAction {
    /// Leave the batch to others.
    Stop,
    /// Leave the batch to others and look again when their lease has ended.
    WakeAt(i64),
    /// Prepare the members.
    Prepare,
    /// Read the configuration.
    ReadConfig,
    /// Look for the next page.
    Search,
    /// Start the page.
    Start,
    /// Link the run.
    Link,
    /// Record the error and give the batch back.
    FailAndRelease(String),
    /// Pause for a configuration that cannot be read and give the batch back.
    PauseAndRelease,
    /// Watch the lease of the running page and give the batch back.
    WatchAndRelease,
    /// Give the batch back, then dispatch the run where it is queued.
    Release { dispatch: bool },
}

/// What a driver does next, in characters.
pub enum DriveView {
    Stop,
    WakeAt(i64),
    Prepare,
    ReadConfig,
    Search,
    Start,
    Link,
    FailAndRelease(Seq<char>),
    PauseAndRelease,
    WatchAndRelease,
    Release { dispatch: bool },
}

impl View for DriveAction {
    type V = DriveView;

    open spec fn view(&self) -> DriveView {
        match self {
            DriveAction::Stop => DriveView::Stop,
            DriveAction::WakeAt(t) => DriveView::WakeAt(*t),
            DriveAction::Prepare => DriveView::Prepare,
            DriveAction::ReadConfig => DriveView::ReadConfig,
            DriveAction::Search => DriveView::Search,
            DriveAction::Start => DriveView::Start,
            DriveAction::Link => DriveView::Link,
            DriveAction::FailAndRelease(code) => DriveView::FailAndRelease(code@),
            DriveAction::PauseAndRelease => DriveView::PauseAndRelease,
            DriveAction::WatchAndRelease => DriveView::WatchAndRelease,
            DriveAction::Release { dispatch } => DriveView::Release { dispatch: *dispatch },
        }
    }
}

/// What a driver does next: one step after the other while all goes well, and back to the
/// store with the error otherwise.
pub open spec fn drive_spec(event: DriveEvent) -> DriveView {
    match event {
        DriveEvent::Claimed { taken, lease_expires_at, now } => match taken {
            Ok(true) => DriveView::Prepare,
            Ok(false) => if lease_expires_at is Some && lease_expires_at->0 > now {
                DriveView::WakeAt(lease_expires_at->0)
            } else {
                DriveView::Stop
            },
            Err(_) => DriveView::Stop,
        },
        DriveEvent::Prepared(r) => match r {
            Ok(_) => DriveView::ReadConfig,
            Err(code) => DriveView::FailAndRelease(code@),
        },
        DriveEvent::ConfigRead(readable) => if readable {
            DriveView::Search
        } else {
            DriveView::PauseAndRelease
        },
        DriveEvent::Searched(r) => match r {
            Ok(true) => DriveView::Start,
            Ok(false) => DriveView::WatchAndRelease,
            Err(code) => DriveView::FailAndRelease(code@),
        },
        DriveEvent::Started(r) => match r {
            Ok(_) => DriveView::Link,
            Err(code) => DriveView::FailAndRelease(code@),
        },
        DriveEvent::Linked(r, status) => match r {
            Ok(_) => DriveView::Release { dispatch: status@ == "queued"@ },
            Err(code) => DriveView::FailAndRelease(code@),
        },
    }
}

/// Decides what a driver does next.
pub fn drive_batch(event: DriveEvent) -> (r: DriveAction)
    ensures
        r@ == drive_spec(event),
{
    match event {
        DriveEvent::Claimed { taken, lease_expires_at, now } => match taken {
            Ok(true) => DriveAction::Prepare,
            Ok(false) => match lease_expires_at {
                Some(expires) => if expires > now {
                    DriveAction::WakeAt(expires)
                } else {
                    DriveAction::Stop
                },
                None => DriveAction::Stop,
            },
            Err(_) => DriveAction::Stop,
        },
        DriveEvent::Prepared(r) => match r {
            Ok(_) => DriveAction::ReadConfig,
            Err(code) => DriveAction::FailAndRelease(code),
        },
        DriveEvent::ConfigRead(readable) => if readable {
            DriveAction::Search
        } else {
            DriveAction::PauseAndRelease
        },
        DriveEvent::Searched(r) => match r {
            Ok(true) => DriveAction::Start,
            Ok(false) => DriveAction::WatchAndRelease,
            Err(code) => DriveAction::FailAndRelease(code),
        },
        DriveEvent::Started(r) => match r {
            Ok(_) => DriveAction::Link,
            Err(code) => DriveAction::FailAndRelease(code),
        },
        DriveEvent::Linked(r, status) => match r {
            Ok(_) => DriveAction::Release { dispatch: same(status.as_str(), "queued") },
            Err(code) => DriveAction::FailAndRelease(code),
        },
    }
}

/// Pauses a batch because the configuration cannot be read.
pub fn pause_for_config(batch: &mut BatchState, now: i64)
    ensures
        final(batch)@ == with_status(
            old(batch)@,
            "blocked_config"@,
            Some(("CONFIG_UNAVAILABLE"@, "图像配置暂时不可读取，已暂停生成。"@)),
            now,
        ),
{
    set_batch_status(
        batch,
        "blocked_config",
        Some(("CONFIG_UNAVAILABLE", "图像配置暂时不可读取，已暂停生成。")),
        now,
    );
}

/// Whether an action ends with the batch given back.
pub open spec fn releases(a: DriveView) -> bool {
    a is FailAndRelease || a is PauseAndRelease || a is WatchAndRelease || a is Release
}

/// A driver that has taken a batch either goes on or gives it back: no error and no pause
/// leaves the batch held.
pub proof fn driver_always_gives_back(event: DriveEvent)
    requires
        !(event is Claimed),
    ensures
        releases(drive_spec(event)) || drive_spec(event) is ReadConfig || drive_spec(
            event,
        ) is Search || drive_spec(event) is Start || drive_spec(event) is Link,
{
}

/// A page is started only when all pages before it are ready, and never while a page is under
/// way.
pub proof fn pages_are_started_one_at_a_time(
    b: BatchView,
    image_ready: bool,
    provider: Seq<char>,
    now: i64,
)
    requires
        next_step(b, image_ready, provider, now).1 is Some,
    ensures
        first_open(b.members) == next_step(b, image_ready, provider, now).1,
        !is_under_way(next_step(b, image_ready, provider, now).1->0),
        image_ready,
        b.authorization.provider_id == provider,
        next_step(b, image_ready, provider, now).0 == b,
{
}

} // verus!
