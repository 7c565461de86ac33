//! Where opened items are scrolled to.
use vstd::prelude::*;

verus! {

/// A position in a file as a user gives it: rows and columns count from one.
#[derive(Clone, Copy, Debug, PartialEq, Eq, Structural)]
pub struct FilePosition {
    pub row: Option<u32>,
    pub column: Option<u32>,
}

/// An item that was opened.
#[derive(Clone, Copy, Debug, PartialEq, Eq, Structural)]
pub enum OpenedItem {
    Missing,
    Editor,
    Other,
}

/// An editor to move, by its place among the items, and the point to move to. Rows and
/// columns count from zero.
#[derive(Clone, Copy, Debug, PartialEq, Eq, Structural)]
pub struct Navigation {
    pub item: usize,
    pub row: u32,
    pub column: u32,
}

/// One less, but not below zero.
pub open spec fn one_less(n: u32) -> u32 {
    if n == 0 {
        0
    } else {
        (n - 1) as u32
    }
}

/// Where the item at `i` is moved to, if it is moved.
pub open spec fn navigation_at(item: OpenedItem, position: FilePosition, i: int) -> Option<
    Navigation,
> {
    match (item, position.row) {
        (OpenedItem::Editor, Some(row)) => Some(
            Navigation {
                item: i as usize,
                row: one_less(row),
                column: match position.column {
                    Some(column) => one_less(column),
                    None => 0,
                },
            },
        ),
        _ => None,
    }
}

/// The moves of the items that have a position.
pub open spec fn navigations(items: Seq<OpenedItem>, positions: Seq<FilePosition>) -> Seq<
    Navigation,
>
    decreases items.len(),
{
    if items.len() == 0 {
        Seq::empty()
    } else {
        let i = items.len() - 1;
        let earlier = navigations(items.drop_last(), positions);
        if i < positions.len() {
            match navigation_at(items[i], positions[i], i) {
                Some(navigation) => earlier.push(navigation),
                None => earlier,
            }
        } else {
            earlier
        }
    }
}

/// Items without a position are not moved.
proof fn lemma_navigations_end(items: Seq<OpenedItem>, positions: Seq<FilePosition>, n: int)
    requires
        positions.len() <= n <= items.len(),
    ensures
        navigations(items.take(n), positions) == navigations(
            items.take(positions.len() as int),
            positions,
        ),
    decreases n,
{
    if n > positions.len() {
        assert(items.take(n).drop_last() =~= items.take(n - 1));
        lemma_navigations_end(items, positions, n - 1);
    }
}

/// Says which of the opened items are moved, and where: each editor whose position has a row.
/// A position without a column is the start of its row.
pub fn navigate_to_positions(items: &Vec<OpenedItem>, positions: &Vec<FilePosition>) -> (moves: Vec<
    Navigation,
>)
    ensures
        moves@ == navigations(items@, positions@),
{
    let mut moves: Vec<Navigation> = Vec::new();
    let mut i: usize = 0;
    while i < items.len() && i < positions.len()
        invariant
            i <= items@.len(),
            i <= positions@.len(),
            moves@ == navigations(items@.take(i as int), positions@),
        decreases items@.len() - i,
    {
        assert(items@.take(i + 1).drop_last() =~= items@.take(i as int));
        assert(items@.take(i + 1)[i as int] == items@[i as int]);
        if let (OpenedItem::Editor, Some(row)) = (items[i], positions[i].row) {
            let column: u32 = match positions[i].column {
                Some(column) => column.saturating_sub(1),
                None => 0,
            };
            moves.push(Navigation { item: i, row: row.saturating_sub(1), column });
        }
        i += 1;
    }
    proof {
        if i == positions@.len() {
            lemma_navigations_end(items@, positions@, items@.len() as int);
        }
        assert(items@.take(items@.len() as int) =~= items@);
    }
    moves
}

proof fn lemma_navigations_hold(items: Seq<OpenedItem>, positions: Seq<FilePosition>, k: int, i: int)
    ensures
        0 <= k < navigations(items, positions).len() ==> navigations(items, positions)[k].item
            < items.len() || items.len() > usize::MAX,
        0 <= i < items.len() && i < positions.len() && items[i] is Editor && positions[i].row is Some
            ==> navigations(items, positions).contains(
            navigation_at(items[i], positions[i], i)->0,
        ),
    decreases items.len(),
{
    if items.len() > 0 {
        let last = items.len() - 1;
        let earlier = navigations(items.drop_last(), positions);
        let all = navigations(items, positions);
        lemma_navigations_hold(items.drop_last(), positions, k, i);
        if 0 <= i < last && i < positions.len() && items[i] is Editor && positions[i].row is Some {
            assert(items.drop_last()[i] == items[i]);
            let there = navigation_at(items[i], positions[i], i)->0;
            let at = choose|at: int| 0 <= at < earlier.len() && earlier[at] == there;
            assert(all[at] == there);
        } else if i == last && i < positions.len() && items[i] is Editor && positions[i].row
            is Some {
            assert(all.last() == navigation_at(items[i], positions[i], i)->0);
            assert(all[all.len() - 1] == all.last());
        }
    }
}

proof fn lemma_navigations_come_from(items: Seq<OpenedItem>, positions: Seq<FilePosition>, k: int)
    requires
        items.len() <= usize::MAX,
        0 <= k < navigations(items, positions).len(),
    ensures
        ({
            let i = navigations(items, positions)[k].item as int;
            i < items.len() && i < positions.len() && navigation_at(items[i], positions[i], i)
                == Some(navigations(items, positions)[k])
        }),
    decreases items.len(),
{
    let earlier = navigations(items.drop_last(), positions);
    if k < earlier.len() {
        lemma_navigations_come_from(items.drop_last(), positions, k);
        let i = earlier[k].item as int;
        assert(items.drop_last()[i] == items[i]);
    }
}

proof fn lemma_navigations_ascend(
    items: Seq<OpenedItem>,
    positions: Seq<FilePosition>,
    a: int,
    b: int,
)
    requires
        items.len() <= usize::MAX,
        0 <= a < b < navigations(items, positions).len(),
    ensures
        navigations(items, positions)[a].item < navigations(items, positions)[b].item,
    decreases items.len(),
{
    let earlier = navigations(items.drop_last(), positions);
    if b < earlier.len() {
        lemma_navigations_ascend(items.drop_last(), positions, a, b);
    } else {
        lemma_navigations_come_from(items.drop_last(), positions, a);
    }
}

/// Every editor that was given a row is moved there, and nothing else is moved. Rows and columns
/// that count from one become such that count from zero, and what is not given is the first.
pub proof fn editors_move_where_they_were_sent(
    items: Vec<OpenedItem>,
    positions: Vec<FilePosition>,
    moves: Vec<Navigation>,
    i: int,
    k: int,
)
    requires
        call_ensures(navigate_to_positions, (&items, &positions), moves),
        items@.len() <= usize::MAX,
    ensures
        0 <= i < items@.len() && i < positions@.len() && items@[i] is Editor ==> (positions@[i].row
            matches Some(row) ==> exists|at: int|
            0 <= at < moves@.len() && (#[trigger] moves@[at]).item == i && moves@[at].row == (if row
                > 0 {
                row - 1
            } else {
                0
            }) && moves@[at].column == (match positions@[i].column {
                Some(column) if column > 0 => column - 1,
                _ => 0,
            })),
        0 <= k < moves@.len() ==> ({
            let item = moves@[k].item as int;
            item < items@.len() && item < positions@.len() && items@[item] is Editor
                && positions@[item].row is Some
        }),
{
    lemma_navigations_hold(items@, positions@, k, i);
    if 0 <= i < items@.len() && i < positions@.len() && items@[i] is Editor && positions@[i].row
        is Some {
        let there = navigation_at(items@[i], positions@[i], i)->0;
        let at = choose|at: int| 0 <= at < moves@.len() && moves@[at] == there;
        assert(moves@[at].item == i);
    }
    if 0 <= k < moves@.len() {
        lemma_navigations_come_from(items@, positions@, k);
    }
}

/// Items are moved in their order, each once.
pub proof fn editors_move_in_order(
    items: Vec<OpenedItem>,
    positions: Vec<FilePosition>,
    moves: Vec<Navigation>,
    a: int,
    b: int,
)
    requires
        call_ensures(navigate_to_positions, (&items, &positions), moves),
        items@.len() <= usize::MAX,
        0 <= a < b < moves@.len(),
    ensures
        moves@[a].item < moves@[b].item,
{
    lemma_navigations_ascend(items@, positions@, a, b);
}

} // verus!
