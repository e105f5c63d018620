use rand::prelude::ThreadRng;
use rand::RngCore;
use std::collections::HashSet;
use vstd::prelude::*;
use vstd::std_specs::hash::*;

verus! {

/// The random number generator of the thread, of the crate `rand`.
#[verifier::external_type_specification]
#[verifier::external_body]
pub struct ExThreadRng(ThreadRng);

/// Calls `rand::thread_rng`, which hands out the generator of the calling
/// thread. Nothing is claimed of the generator.
#[verifier::external_body]
fn thread_generator() -> ThreadRng {
    rand::thread_rng()
}

/// Calls `RngCore::next_u64` on the generator of the thread. The number
/// depends on chance, so nothing is claimed of it.
#[verifier::external_body]
fn next_random(rng: &mut ThreadRng) -> u64 {
    rng.next_u64()
}

/// Convenience struct for generating unique u64s
pub struct UIDGenerator {
    uid_set: HashSet<u64>,
    rng: ThreadRng,
}

/// The number that is `steps` behind `start` when the numbers are counted
/// round: behind the largest comes 0.
pub open spec fn stepped(start: u64, steps: int) -> u64 {
    ((start + steps) % 0x1_0000_0000_0000_0000) as u64
}

/// The first number from `candidate` on, counted round, that is not in
/// `used`, within `limit` steps.
pub open spec fn first_free(used: Set<u64>, candidate: u64, limit: nat) -> u64
    decreases limit,
{
    if limit == 0 || !used.contains(candidate) {
        candidate
    } else {
        first_free(used, stepped(candidate, 1), (limit - 1) as nat)
    }
}

impl Default for UIDGenerator {
    /// A generator that has handed out nothing.
    fn default() -> (generator: UIDGenerator)
        ensures
            generator.wf(),
            generator.used() == Set::<u64>::empty(),
    {
        UIDGenerator::new()
    }
}

impl UIDGenerator {
    /// Only finitely many numbers were handed out.
    pub closed spec fn wf(&self) -> bool {
        self.uid_set@.finite()
    }

    /// The numbers that were handed out.
    pub closed spec fn used(&self) -> Set<u64> {
        self.uid_set@
    }

    /// A generator that has handed out nothing.
    pub fn new() -> (generator: UIDGenerator)
        ensures
            generator.wf(),
            generator.used() == Set::<u64>::empty(),
    {
        UIDGenerator { uid_set: HashSet::new(), rng: thread_generator() }
    }

    /// Hands out the first number from `candidate` on, counted round, that
    /// was not handed out before.
    pub fn claim(&mut self, candidate: u64) -> (uid: u64)
        requires
            old(self).wf(),
        ensures
            final(self).wf(),
            !old(self).used().contains(uid),
            final(self).used() == old(self).used().insert(uid),
            uid == first_free(old(self).used(), candidate, old(self).used().len()),
    {
        broadcast use group_hash_axioms;

        let ghost used = self.used();
        let count = self.uid_set.len();
        let mut uid = candidate;
        let mut steps: usize = 0;
        let ghost mut tried: Seq<u64> = Seq::empty();
        while self.uid_set.contains(&uid)
            invariant
                self.used() == used,
                used.finite(),
                used.len() <= usize::MAX,
                steps <= used.len(),
                tried.len() == steps,
                uid == stepped(candidate, steps as int),
                forall|i: int| 0 <= i < steps ==> tried[i] == stepped(candidate, i) && used.contains(
                    #[trigger] tried[i],
                ),
                first_free(used, uid, (used.len() - steps) as nat) == first_free(
                    used,
                    candidate,
                    used.len(),
                ),
            decreases used.len() - steps,
        {
            proof {
                tried = tried.push(uid);
                assert forall|i: int, j: int| 0 <= i < j < tried.len() implies tried[i]
                    != tried[j] by {
                    assert(tried[i] == stepped(candidate, i));
                    assert(tried[j] == stepped(candidate, j));
                }
                assert(tried.no_duplicates());
                tried.unique_seq_to_set();
                assert(tried.to_set().subset_of(used)) by {
                    assert forall|value: u64| tried.to_set().contains(value) implies used.contains(
                        value,
                    ) by {
                        let i = choose|i: int| 0 <= i < tried.len() && tried[i] == value;
                        assert(used.contains(tried[i]));
                    }
                }
                vstd::set_lib::lemma_len_subset(tried.to_set(), used);
            }
            steps += 1;
            uid = if uid == u64::MAX {
                0
            } else {
                uid + 1
            };
        }
        self.uid_set.insert(uid);
        uid
    }

    /// Hands out a random number that was not handed out before.
    pub fn generate(&mut self) -> (uid: u64)
        requires
            old(self).wf(),
        ensures
            final(self).wf(),
            !old(self).used().contains(uid),
            final(self).used() == old(self).used().insert(uid),
    {
        let candidate = next_random(&mut self.rng);
        self.claim(candidate)
    }
}

} // verus!
