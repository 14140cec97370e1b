//! The corpus: the inputs kept so far, each with the number of times it was
//! chosen as a seed. The testcases live in LibAFL's in-memory corpus, inside
//! a LibAFL state that also holds the pseudo-random generator, because the
//! mutation operators draw from both. Everything this module states about
//! LibAFL is believed, not proved; each such item says so.

use libafl::corpus::InMemoryCorpus;
use libafl::inputs::BytesInput;
use libafl::state::StdState;
use libafl_bolts::rands::RomuDuoJrRand;
use vstd::prelude::*;

verus! {

/// A LibAFL `StdState` over byte inputs: an `InMemoryCorpus` of testcases,
/// a second, unused one for solutions, and a `RomuDuoJrRand` generator.
/// Opaque to the verifier, because the corpus type is bounded by a LibAFL
/// trait and cannot be declared; only the functions below touch it.
#[verifier::external_body]
pub struct Store {
    inner: StdState<BytesInput, InMemoryCorpus<BytesInput>, RomuDuoJrRand, InMemoryCorpus<BytesInput>>,
}

/// What the corpus of a store holds: for each testcase, in the order of
/// `Corpus::nth`, its input bytes and its scheduled count.
pub uninterp spec fn stored_entries(store: Store) -> Seq<(Seq<u8>, nat)>;

/// Calls `StdState::new` with `RomuDuoJrRand::with_seed(seed)`, two
/// `InMemoryCorpus::new()` and the unit feedback. Believed: the corpus of
/// the new state is empty. (`StdState::new` fails only if a feedback's
/// `init_state` does, and the unit feedback's does not.)
#[verifier::external_body]
pub(crate) fn store_new(seed: u64) -> (store: Store)
    ensures
        stored_entries(store) == Seq::<(Seq<u8>, nat)>::empty(),
{
    let rand = RomuDuoJrRand::with_seed(seed);
    let made = StdState::new(rand, InMemoryCorpus::new(), InMemoryCorpus::new(), &mut (), &mut ());
    Store { inner: made.unwrap() }
}

/// Calls `Corpus::count` on the state's corpus. Believed: it is the number
/// of testcases held.
#[verifier::external_body]
pub(crate) fn store_count(store: &Store) -> (count: usize)
    ensures
        count == stored_entries(*store).len(),
{
    libafl::corpus::Corpus::count(libafl::state::HasCorpus::corpus(&store.inner))
}

/// Calls `Corpus::add` with `Testcase::new` of the bytes. Believed: the
/// testcase is appended behind all others, with a scheduled count of zero,
/// and the others stay. (`InMemoryCorpus::add` always succeeds and gives the
/// new testcase the largest id so far.)
#[verifier::external_body]
pub(crate) fn store_add(store: &mut Store, input: &Vec<u8>)
    ensures
        stored_entries(*final(store)) == stored_entries(*old(store)).push((input@, 0nat)),
{
    let testcase = libafl::corpus::Testcase::new(BytesInput::new(input.clone()));
    let corpus = libafl::state::HasCorpus::corpus_mut(&mut store.inner);
    let _ = libafl::corpus::Corpus::add(corpus, testcase);
}

/// Calls `Corpus::cloned_input_for_id` on the id that `Corpus::nth` gives.
/// Believed: the result is the input of the testcase at `index`. (Every
/// testcase that `store_add` made carries its input, so the load succeeds.)
#[verifier::external_body]
pub(crate) fn store_input(store: &Store, index: usize) -> (bytes: Vec<u8>)
    requires
        index < stored_entries(*store).len(),
    ensures
        bytes@ == stored_entries(*store)[index as int].0,
{
    let corpus = libafl::state::HasCorpus::corpus(&store.inner);
    let id = libafl::corpus::Corpus::nth(corpus, index);
    libafl::corpus::Corpus::cloned_input_for_id(corpus, id).unwrap().into()
}

/// Calls `Testcase::scheduled_count` on the testcase at `index`. Believed:
/// the result is that testcase's scheduled count.
#[verifier::external_body]
pub(crate) fn store_scheduled(store: &Store, index: usize) -> (count: usize)
    requires
        index < stored_entries(*store).len(),
    ensures
        count == stored_entries(*store)[index as int].1,
{
    let corpus = libafl::state::HasCorpus::corpus(&store.inner);
    let id = libafl::corpus::Corpus::nth(corpus, index);
    libafl::corpus::Corpus::get(corpus, id).unwrap().borrow().scheduled_count()
}

/// Calls `Testcase::set_scheduled_count` on the testcase at `index`.
/// Believed: that count becomes `count`, and nothing else changes.
#[verifier::external_body]
pub(crate) fn store_set_scheduled(store: &mut Store, index: usize, count: usize)
    requires
        index < stored_entries(*old(store)).len(),
    ensures
        stored_entries(*final(store)) == stored_entries(*old(store)).update(
            index as int,
            (stored_entries(*old(store))[index as int].0, count as nat),
        ),
{
    let corpus = libafl::state::HasCorpus::corpus(&store.inner);
    let id = libafl::corpus::Corpus::nth(corpus, index);
    libafl::corpus::Corpus::get(corpus, id).unwrap().borrow_mut().set_scheduled_count(count);
}

/// Stores the id of the testcase at `index` through `Corpus::current_mut`,
/// where the splicing operators look up which testcase not to splice with.
/// Believed: the testcases stay as they are.
#[verifier::external_body]
pub(crate) fn store_set_current(store: &mut Store, index: usize)
    requires
        index < stored_entries(*old(store)).len(),
    ensures
        stored_entries(*final(store)) == stored_entries(*old(store)),
{
    let corpus = libafl::state::HasCorpus::corpus_mut(&mut store.inner);
    let id = libafl::corpus::Corpus::nth(corpus, index);
    *libafl::corpus::Corpus::current_mut(corpus) = Some(id);
}

/// Calls `Mutator::mutate` of `StdScheduledMutator::new(havoc_mutations())`
/// on a copy of `seed`. Which operators run, and where, is drawn from the
/// state's generator, so nothing is said of the result. Believed: the
/// operators only read the corpus (the two splicing operators borrow one
/// testcase and copy bytes out of it), so the testcases stay. The splicing
/// operators pick a testcase by position, so the corpus must not be empty.
#[verifier::external_body]
pub(crate) fn store_havoc(store: &mut Store, seed: &Vec<u8>) -> (mutated: Vec<u8>)
    requires
        stored_entries(*old(store)).len() > 0,
    ensures
        stored_entries(*final(store)) == stored_entries(*old(store)),
{
    let mut input = BytesInput::new(seed.clone());
    let mut mutator = libafl::mutators::StdScheduledMutator::new(libafl::mutators::havoc_mutations());
    let _ = libafl::mutators::Mutator::mutate(&mut mutator, &mut store.inner, &mut input, 0);
    input.into()
}

/// Calls `Generator::generate` of `RandBytesGenerator::new(max_len)`. The
/// bytes are drawn from the state's generator. Believed: the length is drawn
/// below `max_len` and raised to one if it came out zero, and the testcases
/// stay.
#[verifier::external_body]
pub(crate) fn store_random_bytes(store: &mut Store, max_len: usize) -> (bytes: Vec<u8>)
    ensures
        stored_entries(*final(store)) == stored_entries(*old(store)),
        bytes@.len() >= 1,
        bytes@.len() < max_len || bytes@.len() == 1,
{
    let mut generator = libafl::generators::RandBytesGenerator::new(max_len);
    libafl::generators::Generator::generate(&mut generator, &mut store.inner).unwrap().into()
}

/// One entry of the corpus as plain values.
#[derive(Debug)]
pub struct CorpusEntry {
    /// The input bytes, as they were when the entry was added.
    pub input: Vec<u8>,
    /// How many times the scheduler has chosen this entry as a seed.
    pub scheduled: usize,
}

/// The input bytes of each entry.
pub open spec fn inputs_of(entries: Seq<(Seq<u8>, nat)>) -> Seq<Seq<u8>> {
    entries.map_values(|entry: (Seq<u8>, nat)| entry.0)
}

/// The views of a list of byte vectors.
pub open spec fn views_of(list: Seq<Vec<u8>>) -> Seq<Seq<u8>> {
    list.map_values(|bytes: Vec<u8>| bytes@)
}

/// The scheduled count one step on; it stops at the largest machine number.
pub open spec fn one_more(count: nat) -> nat {
    if count < usize::MAX {
        count + 1
    } else {
        count
    }
}

/// The corpus. Entries are ordered by insertion and are never changed or
/// removed; only their scheduled count moves.
pub struct Corpus {
    store: Store,
}

impl View for Corpus {
    type V = Seq<(Seq<u8>, nat)>;

    closed spec fn view(&self) -> Seq<(Seq<u8>, nat)> {
        stored_entries(self.store)
    }
}

impl Corpus {
    /// The input bytes of each entry, in insertion order.
    pub open spec fn inputs(&self) -> Seq<Seq<u8>> {
        inputs_of(self@)
    }

    /// An empty corpus whose generator is seeded with `rng_seed`.
    pub fn new(rng_seed: u64) -> (corpus: Corpus)
        ensures
            corpus@ == Seq::<(Seq<u8>, nat)>::empty(),
    {
        Corpus { store: store_new(rng_seed) }
    }

    /// The number of entries.
    pub fn len(&self) -> (count: usize)
        ensures
            count == self@.len(),
    {
        store_count(&self.store)
    }

    /// Whether the corpus holds no entry.
    pub fn is_empty(&self) -> (empty: bool)
        ensures
            empty == (self@.len() == 0),
    {
        store_count(&self.store) == 0
    }

    /// Appends `input` as a new entry that was never scheduled, and returns
    /// its index. The entries before it stay.
    pub fn add(&mut self, input: &Vec<u8>) -> (index: usize)
        ensures
            index == old(self)@.len(),
            final(self)@ == old(self)@.push((input@, 0nat)),
    {
        let index = store_count(&self.store);
        store_add(&mut self.store, input);
        index
    }

    /// The input bytes of the entry at `index`, or `None` past the end.
    pub fn input(&self, index: usize) -> (bytes: Option<Vec<u8>>)
        ensures
            index < self@.len() ==> bytes is Some && bytes->Some_0@ == self@[index as int].0,
            index >= self@.len() ==> bytes is None,
    {
        if index < store_count(&self.store) {
            Some(store_input(&self.store, index))
        } else {
            None
        }
    }

    /// The entry at `index` as plain values, or `None` past the end.
    pub fn entry(&self, index: usize) -> (entry: Option<CorpusEntry>)
        ensures
            index < self@.len() ==> entry is Some && entry->Some_0.input@ == self@[index as int].0
                && entry->Some_0.scheduled == self@[index as int].1,
            index >= self@.len() ==> entry is None,
    {
        if index < store_count(&self.store) {
            let input = store_input(&self.store, index);
            let scheduled = store_scheduled(&self.store, index);
            Some(CorpusEntry { input, scheduled })
        } else {
            None
        }
    }

    /// Notes that the entry at `index` was chosen as a seed: its scheduled
    /// count goes up by one, and the corpus remembers it as the entry in
    /// use. Inputs do not change.
    pub fn mark_scheduled(&mut self, index: usize)
        requires
            index < old(self)@.len(),
        ensures
            final(self)@ == old(self)@.update(
                index as int,
                (old(self)@[index as int].0, one_more(old(self)@[index as int].1)),
            ),
            final(self).inputs() == old(self).inputs(),
    {
        let count = store_scheduled(&self.store, index);
        store_set_current(&mut self.store, index);
        store_set_scheduled(&mut self.store, index, count.saturating_add(1));
        assert(self.inputs() =~= old(self).inputs());
    }

    /// A copy of every input, in insertion order.
    pub fn export(&self) -> (list: Vec<Vec<u8>>)
        ensures
            views_of(list@) == self.inputs(),
    {
        let count = store_count(&self.store);
        let mut list: Vec<Vec<u8>> = Vec::new();
        let mut i: usize = 0;
        while i < count
            invariant
                i <= count,
                count == self@.len(),
                list@.len() == i,
                forall|k: int| 0 <= k < i ==> (#[trigger] list@[k])@ == self@[k].0,
            decreases count - i,
        {
            list.push(store_input(&self.store, i));
            i += 1;
        }
        assert(views_of(list@) =~= self.inputs());
        list
    }

    /// The mutation stage: draws a candidate from `seed` by a short random
    /// sequence of havoc operators (bit and byte flips, arithmetic, insertion,
    /// deletion, copying, splicing with another entry), all chosen by the
    /// corpus's generator. The candidate may equal the seed. The corpus must
    /// not be empty, since splicing picks an entry; it is left as it was.
    pub fn mutate(&mut self, seed: &Vec<u8>) -> (mutated: Vec<u8>)
        requires
            old(self)@.len() > 0,
        ensures
            final(self)@ == old(self)@,
    {
        store_havoc(&mut self.store, seed)
    }

    /// Draws a random input from the corpus's generator: at least one byte
    /// and fewer than `max_len` (one byte where `max_len` leaves no room for
    /// that). The corpus is left as it was.
    pub fn random_input(&mut self, max_len: usize) -> (bytes: Vec<u8>)
        ensures
            final(self)@ == old(self)@,
            bytes@.len() >= 1,
            bytes@.len() < max_len || bytes@.len() == 1,
    {
        store_random_bytes(&mut self.store, max_len)
    }
}

} // verus!
