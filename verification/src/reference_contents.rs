//! What reference images are accepted as and where they lie on their board.
use crate::gateway::{
    accepted, accepted_references, canonical_is, first_reference_error, ordered_references,
    reference_before, reference_error, references_come_out_in_order, total_bytes, ReferenceFacts,
    ReferenceInput, ReferenceLimits, ReferenceView,
};
use crate::json::number_bits;
use crate::reference_board::{
    blank_board, board_columns, board_edge, board_rows, board_with, overlaid, placed_at,
    thumbnail_of,
};
use crate::text::{precedes, trimmed};
use crate::unit::in_unit;
use vstd::prelude::*;

verus! {

// ---------------------------------------------------------------------------
// Accepting
// ---------------------------------------------------------------------------

/// Whether a role is one that a reference image can have.
pub open spec fn is_known_role(role: Seq<char>) -> bool {
    role == "character_identity"@ || role == "outfit"@ || role == "style"@ || role == "pose"@ || role
        == "scene"@ || role == "prop"@ || role == "previous_panel"@ || role == "base_image"@ || role
        == "mask"@
}

/// Whether a reference image can be used: it has a known role, a weight above zero and at most
/// one where it has any, a place that is not negative, and a readable file of a known format
/// that is not too large.
pub open spec fn is_usable(input: ReferenceInput, f: ReferenceFacts, limits: ReferenceLimits) -> bool {
    &&& is_known_role(trimmed(input.role@))
    &&& input.weight matches Some(w) ==> number_bits(w@) is Some && in_unit(
        number_bits(w@)->0,
        false,
    )
    &&& input.sort_order is Some ==> input.sort_order->0 >= 0
    &&& f.canonical is Ok
    &&& f.metadata is Some && (f.metadata->0).0 && (f.metadata->0).1 <= limits.max_each_bytes
    &&& f.content is Some && (f.content->0).0 <= limits.max_each_bytes && (f.content->0).1 is Some
}

proof fn lemma_no_error(
    inputs: Seq<ReferenceInput>,
    facts: Seq<ReferenceFacts>,
    limits: ReferenceLimits,
    k: int,
    i: int,
)
    requires
        0 <= i < k,
        first_reference_error(inputs, facts, limits, k) is None,
    ensures
        reference_error(inputs, facts, limits, i) is None,
    decreases k,
{
    if i < k - 1 {
        lemma_no_error(inputs, facts, limits, k - 1, i);
    }
}

/// Reference images are accepted only where each of them can be used, no file comes twice, and
/// all of them together are not too large.
pub proof fn accepted_references_can_be_used(
    inputs: Seq<ReferenceInput>,
    facts: Seq<ReferenceFacts>,
    limits: ReferenceLimits,
)
    requires
        inputs.len() == facts.len(),
        first_reference_error(inputs, facts, limits, inputs.len() as int) is None,
    ensures
        forall|k: int| 0 <= k < inputs.len() ==> is_usable(#[trigger] inputs[k], facts[k], limits),
        forall|j: int, k: int|
            0 <= j < k < facts.len() ==> (#[trigger] facts[j]).canonical->Ok_0@ != (
            #[trigger] facts[k]).canonical->Ok_0@,
        total_bytes(facts, facts.len() as int) <= limits.max_total_bytes || inputs.len() == 0,
{
    let n = inputs.len() as int;
    assert forall|k: int| 0 <= k < n implies is_usable(#[trigger] inputs[k], facts[k], limits) by {
        lemma_no_error(inputs, facts, limits, n, k);
    }
    assert forall|j: int, k: int| 0 <= j < k < facts.len() implies (
    #[trigger] facts[j]).canonical->Ok_0@ != (#[trigger] facts[k]).canonical->Ok_0@ by {
        lemma_no_error(inputs, facts, limits, n, j);
        lemma_no_error(inputs, facts, limits, n, k);
        assert(!canonical_is(facts[j], facts[k].canonical->Ok_0@));
    }
    if n > 0 {
        lemma_no_error(inputs, facts, limits, n, n - 1);
    }
}

/// Whether an accepted reference is that of an input: with its role without the white space
/// around it, its weight or else one, its place or else that in the list, and the format of its
/// file.
pub open spec fn is_reference_of(
    r: ReferenceView,
    input: ReferenceInput,
    f: ReferenceFacts,
    k: int,
) -> bool {
    &&& r.role == trimmed(input.role@)
    &&& r.weight == match input.weight {
        Some(w) => w@,
        None => "1"@,
    }
    &&& r.sort_order == match input.sort_order {
        Some(s) => s as int,
        None => k,
    }
    &&& r.input_order == k
    &&& f.content is Some && (f.content->0).1 is Some ==> r.kind == (f.content->0).1->0@
}

/// Accepted references are the images that were given, each as it was given, by place and then
/// by role and then as they were listed.
pub proof fn accepted_references_are_those_given(
    inputs: Seq<ReferenceInput>,
    facts: Seq<ReferenceFacts>,
)
    requires
        inputs.len() == facts.len(),
    ensures
        ({
            let out = ordered_references(inputs, facts, inputs.len() as int);
            &&& out.len() == inputs.len()
            &&& forall|i: int|
                0 <= i < out.len() ==> 0 <= (#[trigger] out[i]).input_order < inputs.len()
                    && is_reference_of(
                    out[i],
                    inputs[out[i].input_order],
                    facts[out[i].input_order],
                    out[i].input_order,
                )
            &&& forall|i: int, j: int|
                0 <= i < j < out.len() ==> (#[trigger] out[i]).sort_order <= (
                #[trigger] out[j]).sort_order
            &&& forall|i: int, j: int|
                0 <= i < j < out.len() && (#[trigger] out[i]).sort_order == (
                #[trigger] out[j]).sort_order ==> !precedes(out[j].role, out[i].role)
        }),
{
    broadcast use vstd::seq_lib::group_to_multiset_ensures;

    let n = inputs.len() as int;
    references_come_out_in_order(inputs, facts, n);
    let given = accepted_references(inputs, facts, n);
    let out = ordered_references(inputs, facts, n);
    assert forall|i: int| 0 <= i < out.len() implies 0 <= (#[trigger] out[i]).input_order
        < inputs.len() && is_reference_of(
        out[i],
        inputs[out[i].input_order],
        facts[out[i].input_order],
        out[i].input_order,
    ) by {
        assert(out.to_multiset().contains(out[i]));
        assert(given.to_multiset().contains(out[i]));
        assert(given.contains(out[i]));
        let k = choose|k: int| 0 <= k < given.len() && given[k] == out[i];
        assert(given[k] == accepted(inputs[k], facts[k], k));
    }
    assert forall|i: int, j: int| 0 <= i < j < out.len() implies (#[trigger] out[i]).sort_order <= (
    #[trigger] out[j]).sort_order by {
        assert(!reference_before()(out[j], out[i]));
    }
    assert forall|i: int, j: int|
        0 <= i < j < out.len() && (#[trigger] out[i]).sort_order == (
        #[trigger] out[j]).sort_order implies !precedes(out[j].role, out[i].role) by {
        assert(!reference_before()(out[j], out[i]));
    }
}

// ---------------------------------------------------------------------------
// The board
// ---------------------------------------------------------------------------

/// A board has as many rows as its tiles need, two tiles in a row for up to four of them and
/// three for more; it begins as an even light grey without any opening.
pub proof fn board_has_room_for_its_tiles(count: int)
    requires
        2 <= count <= 8,
    ensures
        ({
            let columns = board_columns(count);
            let rows = board_rows(count);
            let b = blank_board(count);
            &&& count <= 4 ==> columns == 2
            &&& count > 4 ==> columns == 3
            &&& (rows - 1) * columns < count <= rows * columns
            &&& b.width == columns * 512 + (columns + 1) * 8
            &&& b.height == rows * 512 + (rows + 1) * 8
            &&& b.rgba.len() == b.width * b.height * 4
            &&& forall|p: int|
                0 <= p < b.width * b.height ==> is_light_grey(b.rgba, #[trigger] (p * 4))
        }),
{
    let b = blank_board(count);
    assert(0 <= b.width * b.height) by (nonlinear_arith)
        requires
            b.width >= 0,
            b.height >= 0,
    ;
    assert forall|p: int| 0 <= p < b.width * b.height implies is_light_grey(
        b.rgba,
        #[trigger] (p * 4),
    ) by {}
}

/// Whether the four bytes from a place on are an opaque light grey.
pub open spec fn is_light_grey(rgba: Seq<u8>, at: int) -> bool {
    rgba[at] == 242 && rgba[at + 1] == 242 && rgba[at + 2] == 242 && rgba[at + 3] == 255
}

/// Where a picture lies in one direction is inside its own tile, in the middle of it.
pub open spec fn lies_in_tile(from: int, size: int, at: int) -> bool {
    let start = 8 + at * (512 + 8);
    &&& start <= from
    &&& from + size <= start + 512
    &&& (from - start) - (start + 512 - (from + size)) == 0 || (from - start) - (start + 512 - (from
        + size)) == -1
}

/// Every picture lies in the middle of its own tile, row by row, and no two pictures touch.
pub proof fn pictures_do_not_touch(
    count: int,
    i: int,
    j: int,
    width_i: int,
    height_i: int,
    width_j: int,
    height_j: int,
)
    requires
        2 <= count <= 8,
        0 <= i < j < count,
        0 <= width_i <= 512 && 0 <= height_i <= 512,
        0 <= width_j <= 512 && 0 <= height_j <= 512,
    ensures
        ({
            let columns = board_columns(count);
            let x_i = placed_at(i, columns, width_i, true);
            let y_i = placed_at(i, columns, height_i, false);
            let x_j = placed_at(j, columns, width_j, true);
            let y_j = placed_at(j, columns, height_j, false);
            &&& lies_in_tile(x_i, width_i, i % columns)
            &&& lies_in_tile(y_i, height_i, i / columns)
            &&& y_i + height_i < y_j || (i / columns == j / columns && x_i + width_i < x_j)
            &&& x_j + width_j < board_edge(columns)
            &&& y_j + height_j < board_edge(board_rows(count))
        }),
{
    let columns = board_columns(count);
    if count <= 4 {
        assert(columns == 2);
        assert(i % columns == i % 2 && i / columns == i / 2);
        assert(j % columns == j % 2 && j / columns == j / 2);
        assert(board_rows(count) == (count + 1) / 2);
        assert(j / 2 < (count + 1) / 2);
    } else {
        assert(columns == 3);
        assert(i % columns == i % 3 && i / columns == i / 3);
        assert(j % columns == j % 3 && j / columns == j / 3);
        assert(board_rows(count) == (count + 2) / 3);
        assert(j / 3 < (count + 2) / 3);
    }
    let (row_i, row_j) = (i / columns, j / columns);
    assert(row_i <= row_j);
    assert(row_i == row_j ==> i % columns < j % columns);
    assert(lies_in_tile(placed_at(i, columns, width_i, true), width_i, i % columns));
    assert(lies_in_tile(placed_at(i, columns, height_i, false), height_i, row_i));
    assert(lies_in_tile(placed_at(j, columns, width_j, true), width_j, j % columns));
    assert(lies_in_tile(placed_at(j, columns, height_j, false), height_j, row_j));
}

/// The board is made of all pictures: it is empty at first, and each picture in turn is laid on
/// what is there, reduced to the size of a tile; one that is no picture spoils the board.
pub proof fn every_picture_is_laid_on_the_board(sources: Seq<Vec<u8>>, k: int)
    requires
        0 <= k < sources.len(),
    ensures
        board_with(sources, 0) == Some(blank_board(sources.len() as int)),
        board_with(sources, k + 1) is Some <==> board_with(sources, k) is Some && thumbnail_of(
            sources[k]@,
            512,
        ) is Some,
        board_with(sources, k + 1) is Some ==> ({
            let tile = thumbnail_of(sources[k]@, 512)->0;
            let columns = board_columns(sources.len() as int);
            board_with(sources, k + 1)->0 == overlaid(
                board_with(sources, k)->0,
                tile,
                placed_at(k, columns, tile.width, true) as u32,
                placed_at(k, columns, tile.height, false) as u32,
            )
        }),
{
}

} // verus!
