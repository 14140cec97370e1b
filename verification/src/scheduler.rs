//! The scheduler: walks the corpus as a queue, in insertion order, and wraps
//! to the start after the last entry.

use vstd::arithmetic::div_mod::{
    lemma_add_mod_noop, lemma_mod_bound, lemma_mod_equivalence, lemma_small_mod,
};
use vstd::prelude::*;

verus! {

/// The entry that follows `cursor` in a corpus of `count` entries: the first
/// entry where nothing was handed out yet or the last one was reached, the
/// next one otherwise.
pub open spec fn next_index(cursor: Option<nat>, count: nat) -> nat {
    match cursor {
        Some(last) => if last + 1 < count {
            last + 1
        } else {
            0
        },
        None => 0,
    }
}

/// The entry handed out by the call that follows `k` earlier calls, all on a
/// corpus of `count` entries, starting from `cursor`.
pub open spec fn pick(cursor: Option<nat>, count: nat, k: nat) -> nat
    decreases k,
{
    if k == 0 {
        next_index(cursor, count)
    } else {
        next_index(Some(pick(cursor, count, (k - 1) as nat)), count)
    }
}

/// Whether `entry` is handed out by one of the `count` calls from `start` on.
pub open spec fn visited_in_round(cursor: Option<nat>, count: nat, start: nat, entry: nat) -> bool {
    exists|a: nat| start <= a < start + count && #[trigger] pick(cursor, count, a) == entry
}

/// After one call has handed out `pick(cursor, count, 0)`, the calls that
/// follow hand out what `pick` says of the cursor they began with, one step on.
pub proof fn lemma_pick_shift(cursor: Option<nat>, count: nat, k: nat)
    ensures
        pick(Some(pick(cursor, count, 0)), count, k) == pick(cursor, count, k + 1),
    decreases k,
{
    if k > 0 {
        lemma_pick_shift(cursor, count, (k - 1) as nat);
    }
}

/// Every pick names an entry of the corpus, and the picks advance by one
/// modulo the size of the corpus.
pub proof fn lemma_pick_closed_form(cursor: Option<nat>, count: nat, k: nat)
    requires
        count > 0,
    ensures
        pick(cursor, count, k) < count,
        pick(cursor, count, k) == (pick(cursor, count, 0) + k) % count,
    decreases k,
{
    let n = count as int;
    let first = pick(cursor, count, 0) as int;
    if k == 0 {
        lemma_small_mod(first as nat, count);
    } else {
        lemma_pick_closed_form(cursor, count, (k - 1) as nat);
        let before = pick(cursor, count, (k - 1) as nat) as int;
        lemma_add_mod_noop(first + k - 1, 1, n);
        if before + 1 < count {
            lemma_small_mod(1, count);
            lemma_small_mod((before + 1) as nat, count);
        } else if count == 1 {
            lemma_mod_bound(first + k, n);
        } else {
            lemma_small_mod(1, count);
            lemma_wraps_to_zero(n);
        }
    }
}

/// A number is a multiple of itself.
proof fn lemma_wraps_to_zero(n: int)
    requires
        n > 0,
    ensures
        n % n == 0,
{
    lemma_mod_equivalence(n, 0, n);
    lemma_small_mod(0, n as nat);
    assert((n - 0) % n == 0) by (nonlinear_arith)
        requires
            n > 0,
    ;
}

/// Round-robin fairness. On a corpus of fixed size `count`, from any cursor
/// and at any point `start` of the run: every call hands out an entry of the
/// corpus; the `count` calls from `start` on hand out no entry twice; they
/// hand out every entry; and the call after them begins the same round again.
pub proof fn lemma_round_robin(cursor: Option<nat>, count: nat, start: nat)
    requires
        count > 0,
    ensures
        forall|k: nat| #[trigger] pick(cursor, count, k) < count,
        forall|a: nat, b: nat|
            start <= a < b < start + count ==> #[trigger] pick(cursor, count, a) != #[trigger] pick(
                cursor,
                count,
                b,
            ),
        forall|entry: nat|
            entry < count ==> #[trigger] visited_in_round(cursor, count, start, entry),
        pick(cursor, count, start + count) == pick(cursor, count, start),
{
    let n = count as int;
    let first = pick(cursor, count, 0) as int;
    assert forall|k: nat| #[trigger] pick(cursor, count, k) < count by {
        lemma_pick_closed_form(cursor, count, k);
    }
    assert forall|a: nat, b: nat| start <= a < b < start + count implies #[trigger] pick(
        cursor,
        count,
        a,
    ) != #[trigger] pick(cursor, count, b) by {
        lemma_pick_closed_form(cursor, count, a);
        lemma_pick_closed_form(cursor, count, b);
        lemma_mod_equivalence(first + b, first + a, n);
        lemma_small_mod((b - a) as nat, count);
    }
    assert forall|entry: nat| entry < count implies #[trigger] visited_in_round(
        cursor,
        count,
        start,
        entry,
    ) by {
        let base = first + start;
        let offset = (entry - base) % n;
        lemma_mod_bound(entry - base, n);
        let a = (start + offset) as nat;
        lemma_pick_closed_form(cursor, count, a);
        lemma_add_mod_noop(base, entry - base, n);
        lemma_add_mod_noop(base, offset, n);
        lemma_small_mod(offset as nat, count);
        lemma_small_mod(entry, count);
        assert(pick(cursor, count, a) == entry);
    }
    lemma_pick_closed_form(cursor, count, start + count);
    lemma_pick_closed_form(cursor, count, start);
    lemma_mod_equivalence(first + start + count, first + start, n);
    lemma_wraps_to_zero(n);
}

/// The queue scheduler. It remembers the entry it handed out last.
#[derive(Clone, Copy, Debug)]
pub struct QueueScheduler {
    cursor: Option<usize>,
}

impl View for QueueScheduler {
    type V = Option<nat>;

    closed spec fn view(&self) -> Option<nat> {
        match self.cursor {
            Some(last) => Some(last as nat),
            None => None,
        }
    }
}

impl QueueScheduler {
    /// A scheduler that has handed out nothing yet.
    pub fn new() -> (scheduler: QueueScheduler)
        ensures
            scheduler@ == None::<nat>,
    {
        QueueScheduler { cursor: None }
    }

    /// The entry handed out last, if any.
    pub fn last(&self) -> (cursor: Option<usize>)
        ensures
            match cursor {
                Some(last) => self@ == Some(last as nat),
                None => self@ == None::<nat>,
            },
    {
        self.cursor
    }

    /// Hands out the next entry of a corpus of `count` entries and remembers
    /// it. The corpus must not be empty. The calls that follow go on where
    /// this one left off.
    pub fn next(&mut self, count: usize) -> (index: usize)
        requires
            count > 0,
        ensures
            index < count,
            index == next_index(old(self)@, count as nat),
            index == pick(old(self)@, count as nat, 0),
            final(self)@ == Some(index as nat),
            forall|k: nat|
                #[trigger] pick(final(self)@, count as nat, k) == pick(
                    old(self)@,
                    count as nat,
                    k + 1,
                ),
    {
        let index = match self.cursor {
            Some(last) => if last < count - 1 {
                last + 1
            } else {
                0
            },
            None => 0,
        };
        self.cursor = Some(index);
        proof {
            assert(self@ == Some(pick(old(self)@, count as nat, 0)));
            assert forall|k: nat|
                #[trigger] pick(self@, count as nat, k) == pick(old(self)@, count as nat, k + 1) by {
                lemma_pick_shift(old(self)@, count as nat, k);
            }
        }
        index
    }
}

} // verus!
