//! How a batch is laid out for a backend that takes all coordinates of all
//! embeddings in one run and answers with all labels in one run.

use vstd::prelude::*;

verus! {

/// The coordinates of all embeddings of a batch, one embedding after the
/// other.
pub open spec fn flat<T, const N: usize>(query: Seq<[T; N]>) -> Seq<T> {
    query.map_values(|embedding: [T; N]| embedding@).flatten()
}

/// The lists that a run of labels holds for `rows` queries that each asked
/// for `neighbors` results: list `i` is the `i`-th stretch of `neighbors`
/// labels, and labels behind the last full stretch belong to no list.  With
/// `neighbors` at zero every query has its list, an empty one.
pub open spec fn chunks(labels: Seq<i64>, rows: nat, neighbors: nat) -> Seq<Seq<i64>> {
    if neighbors == 0 {
        Seq::new(rows, |i: int| Seq::<i64>::empty())
    } else {
        Seq::new(
            labels.len() / neighbors,
            |i: int| labels.subrange(i * neighbors, i * neighbors + neighbors),
        )
    }
}

/// Lays the embeddings of a batch out as one run of coordinates.
pub fn flatten<T: Copy, const N: usize>(query: &[[T; N]]) -> (input: Vec<T>)
    ensures
        input@ == flat(query@),
{
    let mut input: Vec<T> = Vec::new();
    let mut i: usize = 0;
    while i < query.len()
        invariant
            i <= query@.len(),
            input@ == flat(query@.take(i as int)),
        decreases query@.len() - i,
    {
        let ghost before = input@;
        let ghost row = query@[i as int];
        let mut j: usize = 0;
        while j < N
            invariant
                i < query@.len(),
                row == query@[i as int],
                j <= N,
                input@ == before + row@.take(j as int),
            decreases N - j,
        {
            input.push(query[i][j]);
            j = j + 1;
        }
        proof {
            let rows = query@.take(i as int).map_values(|embedding: [T; N]| embedding@);
            rows.lemma_flatten_push(row@);
            assert(query@.take(i + 1).map_values(|embedding: [T; N]| embedding@) =~= rows.push(
                row@,
            ));
        }
        i = i + 1;
    }
    assert(query@.take(i as int) =~= query@);
    input
}

/// Splits the run of labels that a batched search over `rows` queries
/// returned into one list per query.
pub fn split_labels(labels: &Vec<i64>, rows: usize, neighbors: usize) -> (lists: Vec<Vec<i64>>)
    ensures
        lists.deep_view() == chunks(labels@, rows as nat, neighbors as nat),
{
    let mut lists: Vec<Vec<i64>> = Vec::new();
    if neighbors == 0 {
        let mut i: usize = 0;
        while i < rows
            invariant
                i <= rows,
                lists@.len() == i,
                forall|r: int| 0 <= r < i ==> (#[trigger] lists@[r])@ == Seq::<i64>::empty(),
            decreases rows - i,
        {
            lists.push(Vec::new());
            i = i + 1;
        }
        assert(lists.deep_view() =~~= chunks(labels@, rows as nat, neighbors as nat));
        return lists;
    }
    let total = labels.len() / neighbors;
    let mut i: usize = 0;
    while i < total
        invariant
            neighbors > 0,
            labels@.len() <= usize::MAX,
            total == labels@.len() / (neighbors as nat),
            i <= total,
            lists@.len() == i,
            forall|r: int|
                0 <= r < i ==> (#[trigger] lists@[r])@ == labels@.subrange(
                    r * neighbors,
                    r * neighbors + neighbors,
                ),
        decreases total - i,
    {
        assert(i * neighbors + neighbors <= labels@.len()) by (nonlinear_arith)
            requires
                i < total,
                neighbors > 0,
                total == labels@.len() / (neighbors as nat),
        ;
        let start = i * neighbors;
        let mut list: Vec<i64> = Vec::new();
        let mut j: usize = 0;
        while j < neighbors
            invariant
                start + neighbors <= labels@.len() <= usize::MAX,
                j <= neighbors,
                list@ == labels@.subrange(start as int, start + j),
            decreases neighbors - j,
        {
            list.push(labels[start + j]);
            j = j + 1;
        }
        lists.push(list);
        i = i + 1;
    }
    assert(lists.deep_view() =~~= chunks(labels@, rows as nat, neighbors as nat));
    lists
}

/// Every list holds exactly `neighbors` labels, never more; and a run of
/// `rows` times `neighbors` labels holds exactly `rows` lists.
pub proof fn lemma_chunks_exact(labels: Seq<i64>, rows: nat, neighbors: nat)
    ensures
        forall|i: int|
            0 <= i < chunks(labels, rows, neighbors).len() ==> (#[trigger] chunks(
                labels,
                rows,
                neighbors,
            )[i]).len() == neighbors,
        labels.len() == rows * neighbors ==> chunks(labels, rows, neighbors).len() == rows,
{
    if neighbors > 0 {
        let total = labels.len() / neighbors;
        assert forall|i: int| 0 <= i < chunks(labels, rows, neighbors).len() implies (
        #[trigger] chunks(labels, rows, neighbors)[i]).len() == neighbors by {
            assert(0 <= i * neighbors && i * neighbors + neighbors <= labels.len())
                by (nonlinear_arith)
                requires
                    0 <= i < total,
                    neighbors > 0,
                    total == labels.len() / neighbors,
            ;
        }
        if labels.len() == rows * neighbors {
            assert(labels.len() / neighbors == rows) by (nonlinear_arith)
                requires
                    labels.len() == rows * neighbors,
                    neighbors > 0,
            ;
        }
    }
}

/// The coordinates of embedding `i` stand at the places from `i * N` on.
pub proof fn lemma_flat_layout<T, const N: usize>(query: Seq<[T; N]>, i: int, j: int)
    requires
        0 <= i < query.len(),
        0 <= j < N,
    ensures
        flat(query).len() == query.len() * N,
        0 <= i * N + j < flat(query).len(),
        flat(query)[i * N + j] == query[i]@[j],
    decreases query.len(),
{
    let rows = query.map_values(|embedding: [T; N]| embedding@);
    let front = query.drop_last();
    let front_rows = front.map_values(|embedding: [T; N]| embedding@);
    assert(rows =~= front_rows.push(query.last()@));
    front_rows.lemma_flatten_push(query.last()@);
    lemma_flat_len(front);
    assert(query.len() * N == front.len() * N + N) by (nonlinear_arith)
        requires
            query.len() == front.len() + 1,
    ;
    if i < front.len() {
        lemma_flat_layout(front, i, j);
    } else {
        assert(i * N == front.len() * N);
    }
}

/// A batch of embeddings of `N` coordinates each has `N` coordinates per
/// embedding.
pub proof fn lemma_flat_len<T, const N: usize>(query: Seq<[T; N]>)
    ensures
        flat(query).len() == query.len() * N,
    decreases query.len(),
{
    if query.len() == 0 {
        assert(query.len() * N == 0);
    } else {
        let rows = query.map_values(|embedding: [T; N]| embedding@);
        let front = query.drop_last();
        let front_rows = front.map_values(|embedding: [T; N]| embedding@);
        assert(rows =~= front_rows.push(query.last()@));
        front_rows.lemma_flatten_push(query.last()@);
        lemma_flat_len(front);
        assert(query.len() * N == front.len() * N + N) by (nonlinear_arith)
            requires
                query.len() == front.len() + 1,
        ;
    }
}

} // verus!
