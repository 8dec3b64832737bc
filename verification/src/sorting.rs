use vstd::prelude::*;
use crate::domain::account::Account;
use crate::domain::budget::Budget;
use crate::domain::transaction::Transaction;
use crate::domain::transfer::Transfer;

verus! {

/// Values that carry a numeric identifier.
pub trait IdKeyed: Sized {
    spec fn key(value: Self) -> u64;

    fn key_value(&self) -> (r: u64)
        ensures
            r == Self::key(*self),
    ;
}

/// Whether some value of a list has the identifier.
pub open spec fn holds_key<T: IdKeyed>(items: Seq<T>, key: u64) -> bool {
    exists|i: int| 0 <= i < items.len() && T::key(#[trigger] items[i]) == key
}

/// Whether the identifiers of a list strictly increase.
pub open spec fn strictly_increasing<T: IdKeyed>(items: Seq<T>) -> bool {
    forall|i: int, j: int| 0 <= i < j < items.len() ==> T::key(#[trigger] items[i]) < T::key(#[trigger] items[j])
}

/// The given values ordered by identifier, keeping one value of each identifier.
pub fn sorted_unique_by_id<T: IdKeyed>(items: Vec<T>) -> (r: Vec<T>)
    ensures
        strictly_increasing(r@),
        forall|x: T| #[trigger] r@.contains(x) ==> items@.contains(x),
        forall|k: int| 0 <= k < items@.len() ==> holds_key(r@, T::key(#[trigger] items@[k])),
{
    let ghost original = items@;
    let mut remaining = items;
    let mut sorted: Vec<T> = Vec::new();
    while remaining.len() > 0
        invariant
            remaining@ == original.subrange(0, remaining@.len() as int),
            remaining@.len() <= original.len(),
            strictly_increasing(sorted@),
            forall|x: T| #[trigger] sorted@.contains(x) ==> original.contains(x),
            forall|k: int|
                remaining@.len() <= k < original.len() ==> holds_key(sorted@, T::key(#[trigger] original[k])),
        decreases remaining@.len(),
    {
        let ghost before_pop = remaining@;
        let value = remaining.pop().unwrap();
        let ghost n = remaining@.len() as int;
        proof {
            assert(remaining@ =~= original.subrange(0, n));
            assert(value == original[n]);
        }
        let key = value.key_value();
        let mut position: usize = 0;
        while position < sorted.len() && sorted[position].key_value() < key
            invariant
                position <= sorted@.len(),
                forall|t: int| 0 <= t < position ==> T::key(#[trigger] sorted@[t]) < key,
            decreases sorted@.len() - position,
        {
            position = position + 1;
        }
        let ghost old_sorted = sorted@;
        if position < sorted.len() && sorted[position].key_value() == key {
            proof {
                assert(T::key(sorted@[position as int]) == T::key(original[n]));
                assert(holds_key(sorted@, T::key(original[n])));
            }
        } else {
            sorted.insert(position, value);
            proof {
                assert forall|i: int, j: int| 0 <= i < j < sorted@.len() implies T::key(
                    #[trigger] sorted@[i],
                ) < T::key(#[trigger] sorted@[j]) by {
                    if j < position {
                        assert(sorted@[i] == old_sorted[i]);
                        assert(sorted@[j] == old_sorted[j]);
                    } else if j == position {
                        assert(sorted@[i] == old_sorted[i]);
                    } else if i == position {
                        assert(sorted@[j] == old_sorted[j - 1]);
                        if j - 1 > position {
                            assert(T::key(old_sorted[position as int]) < T::key(old_sorted[j - 1]));
                        }
                    } else if i < position {
                        assert(sorted@[i] == old_sorted[i]);
                        assert(sorted@[j] == old_sorted[j - 1]);
                    } else {
                        assert(sorted@[i] == old_sorted[i - 1]);
                        assert(sorted@[j] == old_sorted[j - 1]);
                    }
                }
                assert forall|x: T| #[trigger] sorted@.contains(x) implies original.contains(x) by {
                    let i = choose|i: int| 0 <= i < sorted@.len() && sorted@[i] == x;
                    if i < position {
                        assert(sorted@[i] == old_sorted[i]);
                        assert(old_sorted.contains(x));
                    } else if i == position {
                        assert(original[n] == x);
                    } else {
                        assert(sorted@[i] == old_sorted[i - 1]);
                        assert(old_sorted.contains(x));
                    }
                }
                assert forall|k: int| n <= k < original.len() implies holds_key(
                    sorted@,
                    T::key(#[trigger] original[k]),
                ) by {
                    if k == n {
                        assert(sorted@[position as int] == value);
                        assert(T::key(sorted@[position as int]) == T::key(original[k]));
                    } else {
                        let i = choose|i: int|
                            0 <= i < old_sorted.len() && T::key(#[trigger] old_sorted[i]) == T::key(
                                original[k],
                            );
                        if i < position {
                            assert(sorted@[i] == old_sorted[i]);
                            assert(T::key(sorted@[i]) == T::key(original[k]));
                        } else {
                            assert(sorted@[i + 1] == old_sorted[i]);
                            assert(T::key(sorted@[i + 1]) == T::key(original[k]));
                        }
                    }
                }
            }
        }
    }
    proof {
        assert(remaining@.len() == 0);
        assert forall|k: int| 0 <= k < items@.len() implies holds_key(
            sorted@,
            T::key(#[trigger] items@[k]),
        ) by {
            assert(original[k] == items@[k]);
        }
    }
    sorted
}


/// Values listed latest first: by a time, then by a tie-breaking number, both descending.
pub trait LatestFirst: Sized {
    spec fn rank(value: Self) -> (int, int);

    fn rank_value(&self) -> (r: (i128, i128))
        ensures
            r.0 as int == Self::rank(*self).0,
            r.1 as int == Self::rank(*self).1,
    ;
}

/// Whether rank `a` comes strictly before rank `b` when listing latest first.
pub open spec fn ranks_before(a: (int, int), b: (int, int)) -> bool {
    a.0 > b.0 || (a.0 == b.0 && a.1 > b.1)
}

/// Whether some value of a list has the rank.
pub open spec fn holds_rank<T: LatestFirst>(items: Seq<T>, rank: (int, int)) -> bool {
    exists|i: int| 0 <= i < items.len() && T::rank(#[trigger] items[i]) == rank
}

/// Whether the ranks of a list strictly decrease.
pub open spec fn latest_first<T: LatestFirst>(items: Seq<T>) -> bool {
    forall|i: int, j: int| 0 <= i < j < items.len() ==> ranks_before(T::rank(#[trigger] items[i]), T::rank(#[trigger] items[j]))
}

fn rank_is_before<T: LatestFirst>(a: &T, b: &T) -> (r: bool)
    ensures
        r == ranks_before(T::rank(*a), T::rank(*b)),
{
    let x = a.rank_value();
    let y = b.rank_value();
    x.0 > y.0 || (x.0 == y.0 && x.1 > y.1)
}

/// The given values latest first, keeping one value of each rank.
pub fn sorted_latest_first<T: LatestFirst>(items: Vec<T>) -> (r: Vec<T>)
    ensures
        latest_first(r@),
        forall|x: T| #[trigger] r@.contains(x) ==> items@.contains(x),
        forall|k: int| 0 <= k < items@.len() ==> holds_rank(r@, T::rank(#[trigger] items@[k])),
{
    let ghost original = items@;
    let mut remaining = items;
    let mut sorted: Vec<T> = Vec::new();
    while remaining.len() > 0
        invariant
            remaining@ == original.subrange(0, remaining@.len() as int),
            remaining@.len() <= original.len(),
            latest_first(sorted@),
            forall|x: T| #[trigger] sorted@.contains(x) ==> original.contains(x),
            forall|k: int|
                remaining@.len() <= k < original.len() ==> holds_rank(sorted@, T::rank(#[trigger] original[k])),
        decreases remaining@.len(),
    {
        let ghost before_pop = remaining@;
        let value = remaining.pop().unwrap();
        let ghost n = remaining@.len() as int;
        proof {
            assert(remaining@ =~= original.subrange(0, n));
            assert(value == original[n]);
        }
        let ghost rank = T::rank(value);
        let mut position: usize = 0;
        while position < sorted.len() && rank_is_before(&sorted[position], &value)
            invariant
                position <= sorted@.len(),
                rank == T::rank(value),
                forall|t: int| 0 <= t < position ==> ranks_before(T::rank(#[trigger] sorted@[t]), rank),
            decreases sorted@.len() - position,
        {
            position = position + 1;
        }
        let ghost old_sorted = sorted@;
        if position < sorted.len() && !rank_is_before(&value, &sorted[position]) {
            proof {
                assert(T::rank(sorted@[position as int]) == T::rank(original[n]));
                assert(holds_rank(sorted@, T::rank(original[n])));
            }
        } else {
            sorted.insert(position, value);
            proof {
                assert forall|i: int, j: int| 0 <= i < j < sorted@.len() implies ranks_before(
                    T::rank(#[trigger] sorted@[i]),
                    T::rank(#[trigger] sorted@[j]),
                ) by {
                    if j < position {
                        assert(sorted@[i] == old_sorted[i]);
                        assert(sorted@[j] == old_sorted[j]);
                    } else if j == position {
                        assert(sorted@[i] == old_sorted[i]);
                    } else if i == position {
                        assert(sorted@[j] == old_sorted[j - 1]);
                        if j - 1 > position {
                            assert(ranks_before(T::rank(old_sorted[position as int]), T::rank(old_sorted[j - 1])));
                        }
                    } else if i < position {
                        assert(sorted@[i] == old_sorted[i]);
                        assert(sorted@[j] == old_sorted[j - 1]);
                    } else {
                        assert(sorted@[i] == old_sorted[i - 1]);
                        assert(sorted@[j] == old_sorted[j - 1]);
                    }
                }
                assert forall|x: T| #[trigger] sorted@.contains(x) implies original.contains(x) by {
                    let i = choose|i: int| 0 <= i < sorted@.len() && sorted@[i] == x;
                    if i < position {
                        assert(sorted@[i] == old_sorted[i]);
                        assert(old_sorted.contains(x));
                    } else if i == position {
                        assert(original[n] == x);
                    } else {
                        assert(sorted@[i] == old_sorted[i - 1]);
                        assert(old_sorted.contains(x));
                    }
                }
                assert forall|k: int| n <= k < original.len() implies holds_rank(
                    sorted@,
                    T::rank(#[trigger] original[k]),
                ) by {
                    if k == n {
                        assert(sorted@[position as int] == value);
                        assert(T::rank(sorted@[position as int]) == T::rank(original[k]));
                    } else {
                        let i = choose|i: int|
                            0 <= i < old_sorted.len() && T::rank(#[trigger] old_sorted[i]) == T::rank(
                                original[k],
                            );
                        if i < position {
                            assert(sorted@[i] == old_sorted[i]);
                            assert(T::rank(sorted@[i]) == T::rank(original[k]));
                        } else {
                            assert(sorted@[i + 1] == old_sorted[i]);
                            assert(T::rank(sorted@[i + 1]) == T::rank(original[k]));
                        }
                    }
                }
            }
        }
    }
    proof {
        assert(remaining@.len() == 0);
        assert forall|k: int| 0 <= k < items@.len() implies holds_rank(
            sorted@,
            T::rank(#[trigger] items@[k]),
        ) by {
            assert(original[k] == items@[k]);
        }
    }
    sorted
}


impl IdKeyed for Account {
    open spec fn key(value: Account) -> u64 {
        value@.id@
    }

    fn key_value(&self) -> (r: u64) {
        self.id().value()
    }
}

impl IdKeyed for Transaction {
    open spec fn key(value: Transaction) -> u64 {
        value@.id@
    }

    fn key_value(&self) -> (r: u64) {
        self.id().value()
    }
}

impl IdKeyed for Transfer {
    open spec fn key(value: Transfer) -> u64 {
        value@.id@
    }

    fn key_value(&self) -> (r: u64) {
        self.id().value()
    }
}

impl IdKeyed for Budget {
    open spec fn key(value: Budget) -> u64 {
        value@.id@
    }

    fn key_value(&self) -> (r: u64) {
        self.id().value()
    }
}

impl LatestFirst for Transfer {
    open spec fn rank(value: Transfer) -> (int, int) {
        (value@.occurred_at.instant, value@.id@ as int)
    }

    fn rank_value(&self) -> (r: (i128, i128)) {
        (self.occurred_at().timestamp_nanos(), self.id().value() as i128)
    }
}

/// Budgets are listed by month, then by the name of their category, then by identifier,
/// all ascending: their rank is the negated order.
impl LatestFirst for Budget {
    open spec fn rank(value: Budget) -> (int, int) {
        (
            -(crate::domain::budget::month_index(value@.month@) * 16
                + crate::domain::transaction::category_name_rank(value@.category)),
            -(value@.id@ as int),
        )
    }

    fn rank_value(&self) -> (r: (i128, i128)) {
        let month = self.month();
        let year = month.year() as i128;
        let number = month.month() as i128;
        let name = self.category().name_rank() as i128;
        (-((year * 12 + number - 1) * 16 + name), -(self.id().value() as i128))
    }
}

} // verus!
