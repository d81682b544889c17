use crate::error::EngineError;
use crate::recurrence::{lemma_term_word_step, term_word, word_range};
use vstd::arithmetic::div_mod::lemma_small_mod;
use vstd::prelude::*;

verus! {

/// How many cells of a table image hold a value.
pub open spec fn filled(cells: Seq<Option<usize>>) -> nat
    decreases cells.len(),
{
    if cells.len() == 0 {
        0
    } else {
        filled(cells.drop_last()) + if cells.last() is Some {
            1nat
        } else {
            0nat
        }
    }
}

/// A table image holds no more values than it has cells.
pub proof fn lemma_filled_bound(cells: Seq<Option<usize>>)
    ensures
        filled(cells) <= cells.len(),
    decreases cells.len(),
{
    if cells.len() > 0 {
        lemma_filled_bound(cells.drop_last());
    }
}

/// Filling one empty cell raises the count of held values by exactly one.
pub proof fn lemma_filled_store(cells: Seq<Option<usize>>, k: int, value: usize)
    requires
        0 <= k < cells.len(),
        cells[k] is None,
    ensures
        filled(cells.update(k, Some(value))) == filled(cells) + 1,
    decreases cells.len(),
{
    let after = cells.update(k, Some(value));
    if k == cells.len() - 1 {
        assert(after.drop_last() =~= cells.drop_last());
    } else {
        assert(after.drop_last() =~= cells.drop_last().update(k, Some(value)));
        lemma_filled_store(cells.drop_last(), k, value);
    }
}

/// A table image of empty cells only holds no value.
pub proof fn lemma_filled_none(cells: Seq<Option<usize>>)
    requires
        forall|i: int| 0 <= i < cells.len() ==> cells[i] is None,
    ensures
        filled(cells) == 0,
    decreases cells.len(),
{
    if cells.len() > 0 {
        lemma_filled_none(cells.drop_last());
    }
}

/// A table image in which every cell holds a value holds as many values as
/// it has cells.
pub proof fn lemma_filled_all(cells: Seq<Option<usize>>)
    requires
        forall|i: int| 0 <= i < cells.len() ==> cells[i] is Some,
    ensures
        filled(cells) == cells.len(),
    decreases cells.len(),
{
    if cells.len() > 0 {
        lemma_filled_all(cells.drop_last());
    }
}

/// Whether every cell that holds a value holds the term of its index.
pub open spec fn holds_terms(cells: Seq<Option<usize>>) -> bool {
    forall|i: int|
        0 <= i < cells.len() ==> (#[trigger] cells[i] matches Some(v) ==> v == term_word(i as nat))
}

/// Whether every cell from index two on that holds a value has both cells
/// before it filled too: a term is stored only after the two terms it is
/// the sum of.
pub open spec fn grounded(cells: Seq<Option<usize>>) -> bool {
    forall|i: int|
        2 <= i < cells.len() && (#[trigger] cells[i]) is Some ==> cells[i - 1] is Some && cells[i
            - 2] is Some
}

/// In a grounded table image, below a filled cell of index two or more
/// there is no empty cell.
pub proof fn lemma_filled_below(cells: Seq<Option<usize>>, k: int)
    requires
        grounded(cells),
        2 <= k < cells.len(),
        cells[k] is Some,
    ensures
        forall|i: int| 0 <= i <= k ==> cells[i] is Some,
    decreases k,
{
    if k > 2 {
        lemma_filled_below(cells, k - 1);
    }
}

/// The table image that resolving the index `k` leaves, where `k` has a
/// cell. A filled cell is read and nothing changes. An empty cell of index
/// zero or one is filled and nothing else changes. Any other empty cell is
/// filled together with every cell below it.
pub open spec fn resolved(cells: Seq<Option<usize>>, k: int) -> Seq<Option<usize>> {
    if cells[k] is Some {
        cells
    } else if k < 2 {
        cells.update(k, Some(term_word(k as nat)))
    } else {
        Seq::new(
            cells.len(),
            |i: int|
                if i <= k {
                    Some(term_word(i as nat))
                } else {
                    cells[i]
                },
        )
    }
}

/// Resolving an index keeps a table image sound: the cells that hold a
/// value hold the right one, and none holds a term without the two below
/// it.
pub proof fn lemma_resolved_sound(cells: Seq<Option<usize>>, k: int)
    requires
        holds_terms(cells),
        grounded(cells),
        0 <= k < cells.len(),
    ensures
        holds_terms(resolved(cells, k)),
        grounded(resolved(cells, k)),
        resolved(cells, k).len() == cells.len(),
        resolved(cells, k)[k] == Some(term_word(k as nat)),
{
    let after = resolved(cells, k);
    assert forall|i: int| 2 <= i < after.len() && (#[trigger] after[i]) is Some implies after[i
        - 1] is Some && after[i - 2] is Some by {
        if cells[k] is None && k >= 2 && i > k {
            assert(cells[i] is Some);
        } else if cells[k] is None && k < 2 {
            assert(cells[i] is Some);
        }
    }
}

/// Resolving an empty cell of index two or more comes to this: resolve
/// the index below it, then the one below that, then store the term in the
/// cell, which the two steps before have left empty.
pub proof fn lemma_resolved_unfold(cells: Seq<Option<usize>>, k: int)
    requires
        holds_terms(cells),
        grounded(cells),
        2 <= k < cells.len(),
        cells[k] is None,
    ensures
        ({
            let below = resolved(resolved(cells, k - 1), k - 2);
            &&& below[k] is None
            &&& below.len() == cells.len()
            &&& below.update(k, Some(term_word(k as nat))) == resolved(cells, k)
        }),
{
    let first = resolved(cells, k - 1);
    let below = resolved(first, k - 2);
    if k >= 3 && cells[k - 1] is Some {
        lemma_filled_below(cells, k - 1);
    }
    assert(first[k - 2] is Some || k == 2);
    assert forall|i: int| 0 <= i < k implies below[i] == Some(term_word(i as nat)) by {
        if cells[i] is Some {
            assert(cells[i] matches Some(v) ==> v == term_word(i as nat));
        }
    }
    assert(below.update(k, Some(term_word(k as nat))) =~= resolved(cells, k));
}

/// Resolving an index a second time changes nothing: whoever asks for an
/// index after it was resolved finds the cell filled and reads it. However
/// many requests for one index are served one after the other, the first
/// computes and the others read.
pub proof fn lemma_resolved_again(cells: Seq<Option<usize>>, k: int)
    requires
        holds_terms(cells),
        0 <= k < cells.len(),
    ensures
        resolved(cells, k)[k] == Some(term_word(k as nat)),
        resolved(resolved(cells, k), k) == resolved(cells, k),
{
}

/// Two indices can be resolved in either order: the table that is left is
/// the same.
pub proof fn lemma_resolved_commutes(cells: Seq<Option<usize>>, j: int, k: int)
    requires
        holds_terms(cells),
        grounded(cells),
        0 <= j < cells.len(),
        0 <= k < cells.len(),
    ensures
        resolved(resolved(cells, j), k) == resolved(resolved(cells, k), j),
{
    if j >= 2 && cells[j] is Some {
        lemma_filled_below(cells, j);
    }
    if k >= 2 && cells[k] is Some {
        lemma_filled_below(cells, k);
    }
    assert forall|i: int| 0 <= i < cells.len() && cells[i] is Some implies cells[i] == Some(
        term_word(i as nat),
    ) by {
        assert(cells[i] matches Some(v) ==> v == term_word(i as nat));
    }
    assert(resolved(resolved(cells, j), k) =~= resolved(resolved(cells, k), j));
}

/// The memo table of one top-level computation: one cell for each index
/// from zero to the requested one. A cell is empty or holds the term of its
/// index, and once it holds a value it keeps it.
///
/// Exclusive access (`&mut`) stands for holding a cell's lock: whoever
/// resolves an index is the only one who can read or fill any cell until
/// the call returns.
pub struct MemoTable {
    cells: Vec<Option<usize>>,
    computed: usize,
}

impl View for MemoTable {
    type V = Seq<Option<usize>>;

    closed spec fn view(&self) -> Seq<Option<usize>> {
        self.cells@
    }
}

impl MemoTable {
    /// How many times a cell of this table was computed rather than read.
    pub closed spec fn spec_computations(&self) -> usize {
        self.computed
    }

    /// What holds of every table: it has a cell for index zero at least, a
    /// cell that holds a value holds the term of its index, no term was
    /// stored before the two it is the sum of, and each held value was
    /// computed exactly once.
    pub open spec fn wf(&self) -> bool {
        &&& self@.len() >= 1
        &&& holds_terms(self@)
        &&& grounded(self@)
        &&& self.spec_computations() == filled(self@)
    }

    /// A table for the indices `0..=n`, every cell empty.
    ///
    /// An index for which `n + 1` cells cannot be counted in a machine word
    /// is refused.
    pub fn new(n: usize) -> (made: Result<MemoTable, EngineError>)
        ensures
            n == usize::MAX ==> made == Err::<MemoTable, EngineError>(
                EngineError::InvalidConfiguration,
            ),
            n < usize::MAX ==> (made matches Ok(table) && table.wf() && table@.len() == n + 1
                && table.spec_computations() == 0 && forall|i: int|
                0 <= i <= n ==> table@[i] is None),
    {
        if n == usize::MAX {
            return Err(EngineError::InvalidConfiguration);
        }
        let mut cells: Vec<Option<usize>> = Vec::new();
        let mut i: usize = 0;
        while i <= n
            invariant
                n < usize::MAX,
                i <= n + 1,
                cells@.len() == i,
                forall|j: int| 0 <= j < i ==> cells@[j] is None,
            decreases n + 1 - i,
        {
            cells.push(None);
            i = i + 1;
        }
        proof {
            lemma_filled_none(cells@);
        }
        Ok(MemoTable { cells, computed: 0 })
    }

    /// The number of cells.
    pub fn len(&self) -> (n: usize)
        ensures
            n == self@.len(),
    {
        self.cells.len()
    }

    /// What the cell of index `k` holds now, without resolving anything.
    pub fn peek(&self, k: usize) -> (slot: Result<Option<usize>, EngineError>)
        ensures
            k >= self@.len() ==> slot == Err::<Option<usize>, EngineError>(
                EngineError::IndexOutOfRange,
            ),
            k < self@.len() ==> slot == Ok::<Option<usize>, EngineError>(self@[k as int]),
    {
        if k >= self.cells.len() {
            Err(EngineError::IndexOutOfRange)
        } else {
            Ok(self.cells[k])
        }
    }

    /// How many times a cell of this table was computed rather than read.
    #[verifier::when_used_as_spec(spec_computations)]
    pub fn computations(&self) -> (n: usize)
        ensures
            n == self.spec_computations(),
    {
        self.computed
    }

    /// A table that was resolved at its highest index, two or more, has
    /// computed every index, each of them once.
    pub proof fn lemma_resolved_top_computes_all(self)
        requires
            self.wf(),
            self@.len() >= 3,
            self@[self@.len() - 1] is Some,
        ensures
            self.spec_computations() == self@.len(),
            forall|i: int| 0 <= i < self@.len() ==> self@[i] == Some(term_word(i as nat)),
    {
        lemma_filled_below(self@, self@.len() - 1);
        lemma_filled_all(self@);
    }

    /// No index is computed twice: over the whole life of a table, the
    /// number of computations is the number of cells that hold a value,
    /// which is at most the number of cells. Since a cell that holds a
    /// value is never written again, each computation belongs to a cell of
    /// its own.
    pub proof fn lemma_computed_at_most_once(self)
        requires
            self.wf(),
        ensures
            self.spec_computations() == filled(self@),
            self.spec_computations() <= self@.len(),
    {
        lemma_filled_bound(self@);
    }

    /// The term of index `k`, read from its cell if the cell holds it,
    /// computed and stored otherwise.
    ///
    /// An empty cell of index zero or one is filled with the index itself.
    /// Any other empty cell is filled with the sum of the two terms before
    /// it, each resolved through this same table first; the sum wraps where
    /// it exceeds a machine word. A cell that holds a value is never
    /// written, and no cell above `k` is touched.
    ///
    /// An index beyond the table is refused and the table left as it was.
    pub fn resolve(&mut self, k: usize) -> (found: Result<usize, EngineError>)
        requires
            old(self).wf(),
        ensures
            final(self).wf(),
            final(self)@.len() == old(self)@.len(),
            k >= old(self)@.len() ==> found == Err::<usize, EngineError>(
                EngineError::IndexOutOfRange,
            ) && final(self)@ == old(self)@ && final(self).spec_computations() == old(
                self,
            ).spec_computations(),
            k < old(self)@.len() ==> found == Ok::<usize, EngineError>(term_word(k as nat))
                && final(self)@ == resolved(old(self)@, k as int),
            forall|i: int|
                0 <= i < old(self)@.len() && old(self)@[i] is Some ==> final(self)@[i] == old(
                    self,
                )@[i],
            forall|i: int| k < i < old(self)@.len() ==> final(self)@[i] == old(self)@[i],
        decreases k,
    {
        if k >= self.cells.len() {
            return Err(EngineError::IndexOutOfRange);
        }
        match self.cells[k] {
            Some(value) => Ok(value),
            None => {
                let value: usize = if k < 2 {
                    proof {
                        lemma_small_mod(k as nat, word_range() as nat);
                    }
                    k
                } else {
                    let left: usize = match self.resolve(k - 1) {
                        Ok(v) => v,
                        Err(e) => {
                            return Err(e);
                        },
                    };
                    let right: usize = match self.resolve(k - 2) {
                        Ok(v) => v,
                        Err(e) => {
                            return Err(e);
                        },
                    };
                    proof {
                        lemma_term_word_step(k as nat);
                        lemma_resolved_unfold(old(self)@, k as int);
                    }
                    left.wrapping_add(right)
                };
                proof {
                    lemma_filled_store(self.cells@, k as int, value);
                    lemma_filled_bound(self.cells@.update(k as int, Some(value)));
                    lemma_resolved_sound(old(self)@, k as int);
                }
                self.cells.set(k, Some(value));
                self.computed = self.computed + 1;
                Ok(value)
            },
        }
    }
}

} // verus!
