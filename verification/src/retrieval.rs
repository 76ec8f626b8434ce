//! Formatting of retrieval results: the hits the index returns are resolved
//! against the corpus, filtered by the detected kind, truncated to the
//! requested count, and rendered line by line in rank order.

use vstd::prelude::*;
use vstd::string::*;
use crate::text::{spec_decimal, usize_to_decimal};
use crate::types::{spec_display, Item, ItemModel, ItemType};

verus! {

/// Whether a kind passes the filter: any kind when no filter is active.
pub open spec fn kind_ok(filter: Option<ItemType>, kind: ItemType) -> bool {
    match filter {
        Some(f) => kind == f,
        None => true,
    }
}

/// The hits kept for display, in hit order: those whose id resolves in the
/// corpus and whose kind passes the filter, cut off after `k` results.  Each
/// kept hit carries its item and its rendered similarity.
pub open spec fn spec_selected(
    items: Seq<ItemModel>,
    filter: Option<ItemType>,
    hits: Seq<(usize, Seq<char>)>,
    k: int,
) -> Seq<(ItemModel, Seq<char>)>
    decreases hits.len(),
{
    if k <= 0 || hits.len() == 0 {
        Seq::empty()
    } else {
        let id = hits[0].0;
        if id < items.len() && kind_ok(filter, items[id as int].kind) {
            seq![(items[id as int], hits[0].1)] + spec_selected(
                items,
                filter,
                hits.drop_first(),
                k - 1,
            )
        } else {
            spec_selected(items, filter, hits.drop_first(), k)
        }
    }
}

/// No more results are kept than hits exist or than were asked for: asking
/// for more results than the corpus holds returns what there is, without
/// error.
pub proof fn lemma_selected_bounded(
    items: Seq<ItemModel>,
    filter: Option<ItemType>,
    hits: Seq<(usize, Seq<char>)>,
    k: int,
)
    ensures
        spec_selected(items, filter, hits, k).len() <= hits.len(),
        k >= 0 ==> spec_selected(items, filter, hits, k).len() <= k,
    decreases hits.len(),
{
    if k <= 0 || hits.len() == 0 {
    } else {
        lemma_selected_bounded(items, filter, hits.drop_first(), k - 1);
        lemma_selected_bounded(items, filter, hits.drop_first(), k);
    }
}

/// One rendered result line: rank, item display, similarity.
pub open spec fn spec_hit_line(rank: nat, m: ItemModel, sim: Seq<char>) -> Seq<char> {
    spec_decimal(rank) + ". "@ + spec_display(m) + " (similarity: "@ + sim + ")\n"@
}

/// The rendered lines of the selected results, ranked from `rank` on.
pub open spec fn spec_lines(sel: Seq<(ItemModel, Seq<char>)>, rank: nat) -> Seq<char>
    decreases sel.len(),
{
    if sel.len() == 0 {
        Seq::empty()
    } else {
        spec_hit_line(rank, sel[0].0, sel[0].1) + spec_lines(sel.drop_first(), rank + 1)
    }
}

/// The filter header: one line naming the kind when a filter is active,
/// nothing otherwise.
pub open spec fn spec_header(filter: Option<ItemType>) -> Seq<char> {
    match filter {
        Some(f) => "Filter: "@ + f.spec_as_str() + " only\n\n"@,
        None => Seq::empty(),
    }
}

/// The full rendered answer: the filter header, then either the notice that
/// the index returned nothing, the notice that the filter kept nothing, or
/// the kept results in rank order.
pub open spec fn spec_render(
    items: Seq<ItemModel>,
    filter: Option<ItemType>,
    hits: Seq<(usize, Seq<char>)>,
    top_k: int,
) -> Seq<char> {
    spec_header(filter) + if hits.len() == 0 {
        "No relevant items found.\n"@
    } else {
        let sel = spec_selected(items, filter, hits, top_k);
        if sel.len() == 0 {
            "No items of the requested type found.\n"@
        } else {
            spec_lines(sel, 1)
        }
    }
}

/// The number of candidates fetched from the index before filtering: three
/// times the requested count when a kind filter will be applied, so that
/// filtering still leaves enough results in the common case.
pub fn search_breadth(filter: &Option<ItemType>, top_k: usize) -> (k: usize)
    requires
        top_k * 3 <= usize::MAX,
    ensures
        filter is Some ==> k == 3 * top_k,
        filter is None ==> k == top_k,
{
    if filter.is_some() {
        top_k * 3
    } else {
        top_k
    }
}

/// Renders the answer to a query from the raw index hits.
///
/// Each hit is an item id with the similarity of that item to the query,
/// already rendered to text; hits come in ascending order of distance.  Hits
/// whose id does not resolve in the corpus are dropped, a detected kind
/// filters the rest, at most `top_k` survive, and the survivors are rendered
/// in rank order behind the filter header.
pub fn render_results(
    items: &Vec<Item>,
    filter: &Option<ItemType>,
    hits: &Vec<(usize, String)>,
    top_k: usize,
) -> (r: String)
    ensures
        r@ == spec_render(items.deep_view(), *filter, hits.deep_view(), top_k as int),
{
    let ghost gitems = items.deep_view();
    let ghost ghits = hits.deep_view();
    let mut selected: Vec<(usize, String)> = Vec::new();
    let ghost mut gsel: Seq<(ItemModel, Seq<char>)> = Seq::empty();
    let mut i: usize = 0;
    proof {
        assert(ghits.skip(0) =~= ghits);
    }
    while i < hits.len() && selected.len() < top_k
        invariant
            gitems == items.deep_view(),
            ghits == hits.deep_view(),
            ghits.len() == hits@.len(),
            i <= hits@.len(),
            gsel.len() == selected@.len(),
            selected@.len() <= top_k,
            forall|j: int|
                0 <= j < selected@.len() ==> {
                    &&& #[trigger] selected@[j].0 < items@.len()
                    &&& gsel[j].0 == gitems[selected@[j].0 as int]
                    &&& gsel[j].1 == selected@[j].1@
                },
            spec_selected(gitems, *filter, ghits, top_k as int) == gsel + spec_selected(
                gitems,
                *filter,
                ghits.skip(i as int),
                top_k - selected@.len(),
            ),
        decreases hits@.len() - i,
    {
        proof {
            assert(ghits.skip(i as int)[0] == ghits[i as int]);
            assert(ghits.skip(i as int).drop_first() =~= ghits.skip(i + 1));
            assert(ghits[i as int] == (hits@[i as int].0, hits@[i as int].1@));
        }
        let (id, sim) = (hits[i].0, &hits[i].1);
        let keep: bool = if id < items.len() {
            match filter {
                Some(f) => items[id].item_type == *f,
                None => true,
            }
        } else {
            false
        };
        proof {
            assert(gitems.len() == items@.len());
            if id < items@.len() {
                assert(gitems[id as int] == items@[id as int]@);
            }
            assert(keep == (id < gitems.len() && kind_ok(*filter, gitems[id as int].kind)));
        }
        if keep {
            selected.push((id, sim.clone()));
            proof {
                gsel = gsel.push((gitems[id as int], sim@));
                assert((gsel.drop_last() + seq![(gitems[id as int], sim@)]) =~= gsel);
                assert((gsel.drop_last() + (seq![(gitems[id as int], sim@)] + spec_selected(
                    gitems,
                    *filter,
                    ghits.skip(i + 1),
                    top_k - selected@.len(),
                ))) =~= (gsel + spec_selected(
                    gitems,
                    *filter,
                    ghits.skip(i + 1),
                    top_k - selected@.len(),
                )));
            }
        }
        i += 1;
    }
    proof {
        if i >= hits@.len() {
            assert(ghits.skip(i as int) =~= Seq::<(usize, Seq<char>)>::empty());
        }
        assert(spec_selected(gitems, *filter, ghits.skip(i as int), top_k - selected@.len())
            =~= Seq::<(ItemModel, Seq<char>)>::empty());
        assert(gsel + Seq::<(ItemModel, Seq<char>)>::empty() =~= gsel);
        assert(spec_selected(gitems, *filter, ghits, top_k as int) == gsel);
    }
    let mut r = String::new();
    match filter {
        Some(f) => {
            r.append("Filter: ");
            r.append(f.as_str());
            r.append(" only\n\n");
        },
        None => {},
    }
    proof {
        assert(r@ == spec_header(*filter));
    }
    if hits.len() == 0 {
        r.append("No relevant items found.\n");
        return r;
    }
    if selected.len() == 0 {
        r.append("No items of the requested type found.\n");
        return r;
    }
    let mut j: usize = 0;
    proof {
        assert(gsel.skip(0) =~= gsel);
    }
    while j < selected.len()
        invariant
            gitems == items.deep_view(),
            gsel.len() == selected@.len(),
            j <= selected@.len(),
            selected@.len() >= 1,
            forall|t: int|
                0 <= t < selected@.len() ==> {
                    &&& #[trigger] selected@[t].0 < items@.len()
                    &&& gsel[t].0 == gitems[selected@[t].0 as int]
                    &&& gsel[t].1 == selected@[t].1@
                },
            r@ + spec_lines(gsel.skip(j as int), (j + 1) as nat) == spec_header(*filter)
                + spec_lines(gsel, 1),
        decreases selected@.len() - j,
    {
        proof {
            assert(gsel.skip(j as int)[0] == gsel[j as int]);
            assert(gsel.skip(j as int).drop_first() =~= gsel.skip(j + 1));
        }
        let rank = usize_to_decimal(j + 1);
        r.append(rank.as_str());
        r.append(". ");
        let line = items[selected[j].0].display();
        r.append(line.as_str());
        r.append(" (similarity: ");
        r.append(selected[j].1.as_str());
        r.append(")\n");
        proof {
            assert(gitems[selected@[j as int].0 as int] == items@[selected@[j as int].0 as int]@);
            assert(spec_lines(gsel.skip(j as int), (j + 1) as nat) == spec_hit_line(
                (j + 1) as nat,
                gsel[j as int].0,
                gsel[j as int].1,
            ) + spec_lines(gsel.skip(j + 1), (j + 2) as nat));
        }
        j += 1;
    }
    proof {
        assert(gsel.skip(selected@.len() as int) =~= Seq::<(ItemModel, Seq<char>)>::empty());
        assert(r@ + Seq::<char>::empty() =~= r@);
        assert(r@ =~= spec_render(gitems, *filter, ghits, top_k as int));
    }
    r
}

} // verus!
