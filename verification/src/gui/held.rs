//! The set of keys that are held down.
use crate::event::Key;
use rustc_hash::FxHashSet;
use vstd::prelude::*;

verus! {

/// The hasher factory of `rustc_hash`. Nothing is known of it but that
/// it exists.
#[verifier::external_type_specification]
#[verifier::external_body]
pub struct ExFxBuildHasher(rustc_hash::FxBuildHasher);

/// `HashSet::insert` on a set of numbers hashed with the Fx hasher: the
/// number is in the set afterwards, and everything that was.
#[verifier::external_body]
fn insert_code(codes: &mut FxHashSet<u32>, code: u32)
    ensures
        final(codes)@ == old(codes)@.insert(code),
{
    codes.insert(code);
}

/// `HashSet::remove` on a set of numbers hashed with the Fx hasher: the
/// number is not in the set afterwards, everything else stays.
#[verifier::external_body]
fn remove_code(codes: &mut FxHashSet<u32>, code: u32)
    ensures
        final(codes)@ == old(codes)@.remove(code),
{
    codes.remove(&code);
}

/// `HashSet::contains` on a set of numbers hashed with the Fx hasher:
/// whether the number is in the set.
#[verifier::external_body]
fn contains_code(codes: &FxHashSet<u32>, code: u32) -> (found: bool)
    ensures
        found == codes@.contains(code),
{
    codes.contains(&code)
}

/// The keys that are held down. Each key is kept by its number.
pub struct HeldKeys {
    codes: FxHashSet<u32>,
}

impl View for HeldKeys {
    type V = Set<Key>;

    closed spec fn view(&self) -> Set<Key> {
        Set::new(|key: Key| self.codes@.contains(key.code()))
    }
}

impl HeldKeys {
    /// No key held.
    pub fn new() -> (held: Self)
        ensures
            held@ == Set::<Key>::empty(),
    {
        let held = HeldKeys { codes: FxHashSet::default() };
        assert(held@ =~= Set::<Key>::empty());
        held
    }

    /// The key went down.
    pub fn insert(&mut self, key: Key)
        ensures
            final(self)@ == old(self)@.insert(key),
    {
        insert_code(&mut self.codes, key.to_code());
        proof {
            assert forall|other: Key| #[trigger]
                final(self)@.contains(other) == old(self)@.insert(key).contains(other) by {
                key.lemma_code_tells_apart(other);
            }
            assert(final(self)@ =~= old(self)@.insert(key));
        }
    }

    /// The key went up.
    pub fn remove(&mut self, key: Key)
        ensures
            final(self)@ == old(self)@.remove(key),
    {
        remove_code(&mut self.codes, key.to_code());
        proof {
            assert forall|other: Key| #[trigger]
                final(self)@.contains(other) == old(self)@.remove(key).contains(other) by {
                key.lemma_code_tells_apart(other);
            }
            assert(final(self)@ =~= old(self)@.remove(key));
        }
    }

    /// Whether the key is down.
    pub fn contains(&self, key: Key) -> (down: bool)
        ensures
            down == self@.contains(key),
    {
        contains_code(&self.codes, key.to_code())
    }
}

} // verus!
