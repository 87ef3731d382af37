use vstd::prelude::*;
use crate::procedural::grid::Domains;

verus! {

/// How many candidates the cells of one row hold between them.
pub open spec fn row_candidates<T>(row: Seq<Seq<T>>) -> nat
    decreases row.len(),
{
    if row.len() == 0 {
        0
    } else {
        row_candidates(row.drop_last()) + row.last().len()
    }
}

/// How many candidates the cells of the grid hold between them. Solving
/// only ever lowers this number, which is why it ends.
pub open spec fn candidates<T>(gv: Domains<T>) -> nat
    decreases gv.len(),
{
    if gv.len() == 0 {
        0
    } else {
        candidates(gv.drop_last()) + row_candidates(gv.last())
    }
}

/// `after` has the shape of `before`, and each of its cells either is as it
/// was or has fewer candidates.
pub open spec fn narrows<T>(before: Domains<T>, after: Domains<T>) -> bool {
    &&& after.len() == before.len()
    &&& forall|y: int| 0 <= y < before.len() ==> (#[trigger] after[y]).len() == before[y].len()
    &&& forall|y: int, x: int|
        0 <= y < before.len() && 0 <= x < before[y].len() ==> (#[trigger] after[y][x])
            == before[y][x] || after[y][x].len() < before[y][x].len()
}

/// The same, for one row.
pub open spec fn row_narrows<T>(before: Seq<Seq<T>>, after: Seq<Seq<T>>) -> bool {
    &&& after.len() == before.len()
    &&& forall|x: int|
        0 <= x < before.len() ==> (#[trigger] after[x]) == before[x] || after[x].len()
            < before[x].len()
}

/// A row that was narrowed holds no more candidates than before, and as
/// many only where nothing changed.
pub proof fn lemma_row_narrows<T>(before: Seq<Seq<T>>, after: Seq<Seq<T>>)
    requires
        row_narrows(before, after),
    ensures
        row_candidates(after) <= row_candidates(before),
        row_candidates(after) == row_candidates(before) ==> after == before,
    decreases before.len(),
{
    if before.len() > 0 {
        lemma_row_narrows(before.drop_last(), after.drop_last());
        if row_candidates(after) == row_candidates(before) {
            assert(after.last() == before.last());
            assert(after =~= after.drop_last().push(after.last()));
            assert(before =~= before.drop_last().push(before.last()));
        }
    } else {
        assert(after =~= before);
    }
}

/// A grid that was narrowed holds no more candidates than before, and as
/// many only where nothing changed.
pub proof fn lemma_narrows<T>(before: Domains<T>, after: Domains<T>)
    requires
        narrows(before, after),
    ensures
        candidates(after) <= candidates(before),
        candidates(after) == candidates(before) ==> after == before,
    decreases before.len(),
{
    if before.len() > 0 {
        lemma_narrows(before.drop_last(), after.drop_last());
        assert(row_narrows(before.last(), after.last())) by {
            assert forall|x: int| 0 <= x < before.last().len() implies (#[trigger] after.last()[x])
                == before.last()[x] || after.last()[x].len() < before.last()[x].len() by {
                let y = before.len() - 1;
                assert(after[y][x] == before[y][x] || after[y][x].len() < before[y][x].len());
            }
        }
        lemma_row_narrows(before.last(), after.last());
        if candidates(after) == candidates(before) {
            assert(after =~= after.drop_last().push(after.last()));
            assert(before =~= before.drop_last().push(before.last()));
        }
    } else {
        assert(after =~= before);
    }
}

/// Narrowing can be done in steps.
pub proof fn lemma_narrows_transitive<T>(a: Domains<T>, b: Domains<T>, c: Domains<T>)
    requires
        narrows(a, b),
        narrows(b, c),
    ensures
        narrows(a, c),
{
    assert forall|y: int, x: int| 0 <= y < a.len() && 0 <= x < a[y].len() implies (
    #[trigger] c[y][x]) == a[y][x] || c[y][x].len() < a[y][x].len() by {
        assert(b[y].len() == a[y].len());
        assert(b[y][x] == a[y][x] || b[y][x].len() < a[y][x].len());
        assert(c[y][x] == b[y][x] || c[y][x].len() < b[y][x].len());
    }
    assert forall|y: int| 0 <= y < a.len() implies (#[trigger] c[y]).len() == a[y].len() by {
        assert(b[y].len() == a[y].len());
    }
}

} // verus!
