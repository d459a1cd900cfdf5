//! The generation strategy: how many random bytes to draw, and drawing them
//! until they decode.
use vstd::prelude::*;

use core::marker::PhantomData;
use proptest::test_runner::TestRunner;

use crate::decode::{ArbInterop, DecodeError};
use crate::tree::ArbValueTree;

verus! {

#[verifier::external_type_specification]
#[verifier::external_body]
pub struct ExTestRunner(TestRunner);

/// Why no value tree could be generated.
#[derive(Clone, Debug)]
pub enum NewTreeError {
    /// Decoding the drawn bytes failed in a way that fresh bytes do not mend.
    Decode(DecodeError),
    /// The runner allows no more rejected draws, for the reason given.
    Rejected(String),
}

/// The buffer size chosen from a size hint: its upper bound where there is
/// one, else twice its lower bound (saturating), but at least 256.
pub open spec fn hinted_size(low: usize, high: Option<usize>) -> int {
    match high {
        Some(h) => h as int,
        None => {
            let twice = if 2 * low > usize::MAX {
                usize::MAX as int
            } else {
                2 * low
            };
            if twice > 256 {
                twice
            } else {
                256
            }
        },
    }
}

/// Whether decoding succeeds on every buffer.
pub open spec fn decodes_always<A: ArbInterop>() -> bool {
    forall|b: Seq<u8>| #[trigger] A::decoded(b) is Ok
}

/// Whether `r` is what one generation gives after consuming the buffers
/// `draws`, oldest first: each of `size` bytes, each but the last rejected as
/// `IncorrectFormat`, and the outcome settled by the last: a fresh tree over it
/// where it decodes, its error where that is not `IncorrectFormat`, and where
/// it is, the runner's refusal of one more rejection.
pub open spec fn generated<A: ArbInterop>(
    draws: Seq<Seq<u8>>,
    size: usize,
    r: Result<ArbValueTree<A>, NewTreeError>,
) -> bool {
    &&& draws.len() > 0
    &&& forall|i: int| 0 <= i < draws.len() ==> (#[trigger] draws[i]).len() == size
    &&& forall|i: int|
        0 <= i < draws.len() - 1 ==> A::decoded(#[trigger] draws[i]) == Err::<A, DecodeError>(
            DecodeError::IncorrectFormat,
        )
    &&& match r {
        Ok(t) => t@.bytes == draws.last() && ArbValueTree::<A>::built(draws.last(), Ok(t)),
        Err(NewTreeError::Decode(e)) => e != DecodeError::IncorrectFormat && A::decoded(
            draws.last(),
        ) == Err::<A, DecodeError>(e),
        Err(NewTreeError::Rejected(_)) => A::decoded(draws.last()) == Err::<A, DecodeError>(
            DecodeError::IncorrectFormat,
        ),
    }
}

/// Where the first two draws are rejected as `IncorrectFormat`, the third
/// decodes and the runner accepts the rejections, generation succeeds after
/// exactly three draws, with the tree over the third.
pub proof fn lemma_rejection_retry<A: ArbInterop>(
    draws: Seq<Seq<u8>>,
    size: usize,
    r: Result<ArbValueTree<A>, NewTreeError>,
)
    requires
        generated::<A>(draws, size, r),
        !(r matches Err(NewTreeError::Rejected(_))),
        forall|i: int|
            0 <= i < draws.len() && i < 2 ==> A::decoded(#[trigger] draws[i]) == Err::<
                A,
                DecodeError,
            >(DecodeError::IncorrectFormat),
        draws.len() > 2 ==> A::decoded(draws[2]) is Ok,
    ensures
        draws.len() == 3,
        r matches Ok(t) && t@.bytes == draws[2],
{
    if draws.len() <= 2 {
        assert(A::decoded(draws[draws.len() - 1]) == Err::<A, DecodeError>(
            DecodeError::IncorrectFormat,
        ));
    } else if draws.len() > 3 {
        assert(A::decoded(draws[2]) == Err::<A, DecodeError>(DecodeError::IncorrectFormat));
    }
}

/// Relies on `TestRunner::config`: the number of local rejections the runner
/// allows.
#[verifier::external_body]
fn max_local_rejects(run: &TestRunner) -> u32 {
    run.config().max_local_rejects
}

/// Relies on `Rng::fill_bytes` of the runner's `TestRng`: it overwrites the
/// bytes of `buf` and keeps its length. Each draw is handed a fresh buffer of
/// zeros.
#[verifier::external_body]
fn fill_random(run: &mut TestRunner, buf: &mut Vec<u8>)
    requires
        forall|i: int| 0 <= i < old(buf)@.len() ==> old(buf)@[i] == 0,
    ensures
        final(buf)@.len() == old(buf)@.len(),
{
    proptest::prelude::Rng::fill_bytes(run.rng(), buf.as_mut_slice())
}

/// Relies on `TestRunner::reject_local`, given the message of `arbitrary`'s
/// `IncorrectFormat` error: `Ok` while the runner accepts another local
/// rejection, else the runner's reason.
#[verifier::external_body]
fn reject_incorrect_format(run: &mut TestRunner) -> Result<(), String> {
    match run.reject_local(arbitrary::Error::IncorrectFormat.to_string()) {
        Ok(()) => Ok(()),
        Err(reason) => Err(reason.message().to_string()),
    }
}

/// A strategy that draws a fixed number of random bytes and decodes them into
/// a value of `A`.
#[derive(Copy, PartialEq, Eq, PartialOrd, Ord, Hash, Debug)]
pub struct ArbStrategy<A> {
    size: usize,
    _ph: PhantomData<A>,
}

impl<A> Clone for ArbStrategy<A> {
    fn clone(&self) -> (r: Self)
        ensures
            r == *self,
    {
        ArbStrategy { size: self.size, _ph: PhantomData }
    }
}

impl<A: ArbInterop> ArbStrategy<A> {
    /// The number of bytes drawn for each value.
    pub closed spec fn spec_size(&self) -> usize {
        self.size
    }

    /// A strategy drawing `size` bytes for each value.
    pub fn new(size: usize) -> (r: Self)
        ensures
            r.spec_size() == size,
    {
        ArbStrategy { size, _ph: PhantomData }
    }

    /// The number of bytes drawn for each value.
    pub fn size(&self) -> (r: usize)
        ensures
            r == self.spec_size(),
    {
        self.size
    }

    /// Draws buffers of the strategy's size from the runner until one decodes
    /// and builds a tree from it. A draw that fails as `IncorrectFormat` is
    /// reported to the runner as a local rejection and drawn again; any other
    /// failure ends the generation.
    pub fn new_tree(&self, run: &mut TestRunner) -> (r: Result<ArbValueTree<A>, NewTreeError>)
        ensures
            exists|draws: Seq<Seq<u8>>| generated::<A>(draws, self.spec_size(), r),
            decodes_always::<A>() ==> r is Ok,
    {
        let max = max_local_rejects(run);
        let mut attempts: u64 = 0;
        let ghost mut draws: Seq<Seq<u8>> = Seq::empty();
        while attempts <= max as u64
            invariant
                attempts <= max as u64 + 1,
                decodes_always::<A>() ==> attempts == 0,
                draws.len() == attempts,
                forall|i: int| 0 <= i < draws.len() ==> (#[trigger] draws[i]).len() == self.size,
                forall|i: int|
                    0 <= i < draws.len() ==> A::decoded(#[trigger] draws[i]) == Err::<
                        A,
                        DecodeError,
                    >(DecodeError::IncorrectFormat),
            decreases max as u64 + 1 - attempts,
        {
            let mut bytes: Vec<u8> = vec![0u8; self.size];
            fill_random(run, &mut bytes);
            let ghost drawn = bytes@;
            let ghost all = draws.push(drawn);
            assert(all.last() == drawn);
            assert(forall|i: int| 0 <= i < draws.len() ==> all[i] == draws[i]);
            match ArbValueTree::new(bytes) {
                Ok(t) => {
                    assert(generated::<A>(all, self.spec_size(), Ok(t)));
                    return Ok(t);
                },
                Err(DecodeError::IncorrectFormat) => {
                    match reject_incorrect_format(run) {
                        Ok(()) => {},
                        Err(reason) => {
                            assert(generated::<A>(
                                all,
                                self.spec_size(),
                                Err(NewTreeError::Rejected(reason)),
                            ));
                            return Err(NewTreeError::Rejected(reason));
                        },
                    }
                },
                Err(e) => {
                    assert(generated::<A>(all, self.spec_size(), Err(NewTreeError::Decode(e))));
                    return Err(NewTreeError::Decode(e));
                },
            }
            proof {
                draws = all;
            }
            attempts = attempts + 1;
        }
        let reason = "Too many local rejects".to_string();
        assert(generated::<A>(
            draws,
            self.spec_size(),
            Err(NewTreeError::Rejected(reason)),
        ));
        Err(NewTreeError::Rejected(reason))
    }
}

/// A strategy drawing `size` bytes for each value.
pub fn arb_sized<A: ArbInterop>(size: usize) -> (r: ArbStrategy<A>)
    ensures
        r.spec_size() == size,
{
    ArbStrategy::new(size)
}

/// The buffer size for a type whose size hint is `(low, high)`: `high` where
/// the hint has it, else twice `low` (saturating), but at least 256.
pub fn size_for_hint(low: usize, high: Option<usize>) -> (r: usize)
    ensures
        r == hinted_size(low, high),
{
    match high {
        Some(h) => h,
        None => {
            let twice = if low > usize::MAX / 2 {
                usize::MAX
            } else {
                2 * low
            };
            if twice > 256 {
                twice
            } else {
                256
            }
        },
    }
}

/// A strategy for `A` whose buffer size is chosen from `A`'s size hint, as
/// `size_for_hint` does.
pub fn arb<A: ArbInterop>() -> (r: ArbStrategy<A>)
    ensures
        r.spec_size() == hinted_size(A::hint(0).0, A::hint(0).1),
{
    let (low, high) = A::size_hint(0);
    arb_sized(size_for_hint(low, high))
}

/// A strategy is its size and nothing more: two strategies of one size are
/// equal.
pub proof fn lemma_size_determines<A: ArbInterop>(a: ArbStrategy<A>, b: ArbStrategy<A>)
    requires
        a.spec_size() == b.spec_size(),
    ensures
        a == b,
{
}

/// The integer and `bool` decoders never fail, so a strategy for one of these
/// types always generates a tree.
pub proof fn lemma_primitives_decode_always()
    ensures
        decodes_always::<u8>(),
        decodes_always::<u16>(),
        decodes_always::<u32>(),
        decodes_always::<u64>(),
        decodes_always::<bool>(),
{
}

} // verus!
