//! Preparing a linear system for simple (Gauss-Seidel) iteration: the
//! diagonal-dominance check that runs row by row while rows are rearranged.
//!
//! For row `i` the caller finds the column of the entry with the largest
//! magnitude (see `crate::ranking::first_max_index` on ordering keys of the
//! magnitudes) and compares that magnitude with the sum of the magnitudes
//! of the other entries of the row. The check decides, from that
//! comparison, whether the system is refused, and which two rows (and free
//! coefficients) are to be exchanged.
use vstd::prelude::*;

verus! {

/// How the largest magnitude of a row compares with the sum of the other
/// magnitudes of the row.
#[derive(Clone, Copy, Debug, PartialEq, Eq, Structural)]
pub enum RowBalance {
    /// The largest magnitude is below the sum of the others.
    Deficient,
    /// Neither below nor above (equal, or not comparable).
    Balanced,
    /// The largest magnitude exceeds the sum of the others.
    Dominant,
}

/// Why the system is refused: the iteration would not converge.
#[derive(Clone, Copy, Debug, PartialEq, Eq, Structural)]
pub enum DominanceError {
    /// This row's largest magnitude is below the sum of the others.
    RowNotDominant { row: usize },
    /// Every row was only balanced: no row dominates strictly.
    NoStrictRow,
}

/// One row examined in a check at row `row` that has (or has not) `seen`
/// a strictly dominant row: an error, or the next row and whether a strict
/// row has now been seen.
pub open spec fn spec_check_row(row: nat, seen: bool, balance: RowBalance) -> Result<(nat, bool), DominanceError> {
    if balance == RowBalance::Deficient {
        Err(DominanceError::RowNotDominant { row: row as usize })
    } else {
        Ok((row + 1, seen || balance == RowBalance::Dominant))
    }
}

/// The conclusion of a check that has (or has not) `seen` a strictly
/// dominant row.
pub open spec fn spec_finish(seen: bool) -> Result<(), DominanceError> {
    if seen {
        Ok(())
    } else {
        Err(DominanceError::NoStrictRow)
    }
}

/// The state of the row-by-row check: the next row to examine and whether
/// a strictly dominant row has been seen.
pub struct DominanceCheck {
    row: usize,
    strict_seen: bool,
}

impl DominanceCheck {
    /// The next row to examine.
    pub closed spec fn next_row(&self) -> nat {
        self.row as nat
    }

    /// Whether a strictly dominant row has been examined.
    pub closed spec fn has_strict_row(&self) -> bool {
        self.strict_seen
    }

    /// A check that has examined no row.
    pub fn new() -> (c: Self)
        ensures
            c.next_row() == 0,
            !c.has_strict_row(),
    {
        DominanceCheck { row: 0, strict_seen: false }
    }

    /// Examines the next row. A deficient row refuses the system and leaves
    /// the check as it was. Otherwise the row is passed: the result names
    /// the two rows to exchange (this row and the column of its largest
    /// entry), and the check moves to the following row.
    pub fn check_row(&mut self, balance: RowBalance, max_col: usize) -> (r: Result<(usize, usize), DominanceError>)
        requires
            old(self).next_row() < usize::MAX,
        ensures
            match spec_check_row(old(self).next_row(), old(self).has_strict_row(), balance) {
                Err(e) => {
                    &&& r == Err::<(usize, usize), DominanceError>(e)
                    &&& final(self).next_row() == old(self).next_row()
                    &&& final(self).has_strict_row() == old(self).has_strict_row()
                },
                Ok((row, seen)) => {
                    &&& r == Ok::<(usize, usize), DominanceError>((old(self).next_row() as usize, max_col))
                    &&& final(self).next_row() == row
                    &&& final(self).has_strict_row() == seen
                },
            },
    {
        match balance {
            RowBalance::Deficient => Err(DominanceError::RowNotDominant { row: self.row }),
            RowBalance::Balanced => {
                let row = self.row;
                self.row = row + 1;
                Ok((row, max_col))
            },
            RowBalance::Dominant => {
                let row = self.row;
                self.row = row + 1;
                self.strict_seen = true;
                Ok((row, max_col))
            },
        }
    }

    /// Concludes the check once every row has passed: the system is
    /// accepted when some row dominated strictly.
    pub fn finish(&self) -> (r: Result<(), DominanceError>)
        ensures
            r == spec_finish(self.has_strict_row()),
    {
        if self.strict_seen {
            Ok(())
        } else {
            Err(DominanceError::NoStrictRow)
        }
    }
}

/// The verdict of the whole check on the balances of the rows, in the
/// order in which they are examined: the first deficient row refuses the
/// system; with none, the system is accepted when some row is dominant.
pub open spec fn dominance_verdict(balances: Seq<RowBalance>) -> Result<(), DominanceError> {
    if exists|i: int| 0 <= i < balances.len() && balances[i] == RowBalance::Deficient {
        let i = choose|i: int|
            0 <= i < balances.len() && balances[i] == RowBalance::Deficient && forall|j: int|
                0 <= j < i ==> balances[j] != RowBalance::Deficient;
        Err(DominanceError::RowNotDominant { row: i as usize })
    } else if exists|i: int| 0 <= i < balances.len() && balances[i] == RowBalance::Dominant {
        Ok(())
    } else {
        Err(DominanceError::NoStrictRow)
    }
}

/// What `check_row` calls on `balances`, starting from a check at row
/// `row` with `seen` strict rows, followed by `finish`, answer: the first
/// error, or the verdict of `finish`.
pub open spec fn run_check(row: nat, seen: bool, balances: Seq<RowBalance>) -> Result<(), DominanceError>
    decreases balances.len(),
{
    if balances.len() == 0 {
        spec_finish(seen)
    } else {
        match spec_check_row(row, seen, balances[0]) {
            Err(e) => Err(e),
            Ok((next, seen_next)) => run_check(next, seen_next, balances.drop_first()),
        }
    }
}

/// Examining the rows one by one and then concluding gives the verdict on
/// all rows: the system is refused at its first deficient row, and is
/// otherwise accepted exactly when some row dominates strictly.
pub proof fn lemma_row_by_row_check_gives_verdict(balances: Seq<RowBalance>)
    requires
        balances.len() < usize::MAX,
    ensures
        run_check(0, false, balances) == dominance_verdict(balances),
{
    lemma_run_check_suffix(balances, 0);
    assert(balances.skip(0) =~= balances);
    assert(!(exists|j: int| 0 <= j < 0 && balances[j] == RowBalance::Dominant));
}

proof fn lemma_run_check_suffix(balances: Seq<RowBalance>, k: int)
    requires
        0 <= k <= balances.len(),
        balances.len() < usize::MAX,
        forall|j: int| 0 <= j < k ==> balances[j] != RowBalance::Deficient,
    ensures
        run_check(
            k as nat,
            exists|j: int| 0 <= j < k && balances[j] == RowBalance::Dominant,
            balances.skip(k),
        ) == dominance_verdict(balances),
    decreases balances.len() - k,
{
    let seen = exists|j: int| 0 <= j < k && balances[j] == RowBalance::Dominant;
    let rest = balances.skip(k);
    if k == balances.len() {
        assert(rest.len() == 0);
        if seen {
            let j = choose|j: int| 0 <= j < k && balances[j] == RowBalance::Dominant;
            assert(exists|i: int| 0 <= i < balances.len() && balances[i] == RowBalance::Dominant);
        }
    } else if balances[k] == RowBalance::Deficient {
        assert(rest[0] == balances[k]);
        assert(exists|i: int| 0 <= i < balances.len() && balances[i] == RowBalance::Deficient);
        let i = choose|i: int|
            0 <= i < balances.len() && balances[i] == RowBalance::Deficient && forall|j: int|
                0 <= j < i ==> balances[j] != RowBalance::Deficient;
        assert(balances[k] == RowBalance::Deficient && forall|j: int|
            0 <= j < k ==> balances[j] != RowBalance::Deficient);
        if i < k {
        } else if i > k {
            assert(balances[k] != RowBalance::Deficient);
        }
        assert(i == k);
    } else {
        assert(rest[0] == balances[k]);
        assert(rest.drop_first() =~= balances.skip(k + 1));
        lemma_run_check_suffix(balances, k + 1);
        let seen_next = exists|j: int| 0 <= j < k + 1 && balances[j] == RowBalance::Dominant;
        assert(seen_next == (seen || balances[k] == RowBalance::Dominant)) by {
            if seen_next {
                let j = choose|j: int| 0 <= j < k + 1 && balances[j] == RowBalance::Dominant;
                if j < k {
                    assert(seen);
                }
            }
        }
    }
}

} // verus!
