use vstd::prelude::*;

verus! {

/// One position at which the two byte sequences differ.
#[derive(Clone, Copy, Debug, PartialEq, Eq, Structural)]
pub struct MismatchSample {
    pub offset: usize,
    pub original: u8,
    pub saved: u8,
}

/// The outcome of comparing one original file with its saved counterpart.
#[derive(Debug)]
pub enum ComparisonResult {
    Match,
    SizeMismatch(usize, usize),
    ByteMismatch(usize, Vec<MismatchSample>),
    Missing,
    ReadError(String),
}

/// The mathematical value of a `ComparisonResult`.
pub enum Outcome {
    Match,
    SizeMismatch { original_len: nat, saved_len: nat },
    ByteMismatch { count: nat, samples: Seq<MismatchSample> },
    Missing,
    ReadError { reason: Seq<char> },
}

impl View for ComparisonResult {
    type V = Outcome;

    open spec fn view(&self) -> Outcome {
        match self {
            ComparisonResult::Match => Outcome::Match,
            ComparisonResult::SizeMismatch(a, b) => Outcome::SizeMismatch {
                original_len: *a as nat,
                saved_len: *b as nat,
            },
            ComparisonResult::ByteMismatch(c, s) => Outcome::ByteMismatch {
                count: *c as nat,
                samples: s@,
            },
            ComparisonResult::Missing => Outcome::Missing,
            ComparisonResult::ReadError(r) => Outcome::ReadError { reason: r@ },
        }
    }
}

/// Number of samples kept for a byte mismatch.
pub const SAMPLE_LIMIT: usize = 3;

/// Every differing position among the first `n`, in ascending order.
pub open spec fn mismatches(a: Seq<u8>, b: Seq<u8>, n: nat) -> Seq<MismatchSample>
    decreases n,
{
    if n == 0 {
        Seq::empty()
    } else {
        let prev = mismatches(a, b, (n - 1) as nat);
        let i = n - 1;
        if a[i] != b[i] {
            prev.push(MismatchSample { offset: i as usize, original: a[i], saved: b[i] })
        } else {
            prev
        }
    }
}

/// The leading samples of `m` that a byte mismatch keeps.
pub open spec fn first_samples(m: Seq<MismatchSample>) -> Seq<MismatchSample> {
    if m.len() <= SAMPLE_LIMIT {
        m
    } else {
        m.take(SAMPLE_LIMIT as int)
    }
}

/// The outcome of comparing two byte sequences.
pub open spec fn compare_spec(a: Seq<u8>, b: Seq<u8>) -> Outcome {
    if a.len() != b.len() {
        Outcome::SizeMismatch { original_len: a.len(), saved_len: b.len() }
    } else {
        let m = mismatches(a, b, a.len());
        if m.len() == 0 {
            Outcome::Match
        } else {
            Outcome::ByteMismatch { count: m.len(), samples: first_samples(m) }
        }
    }
}

/// Compares two byte sequences: lengths first, then every aligned position.
pub fn compare_bytes(a: &Vec<u8>, b: &Vec<u8>) -> (r: ComparisonResult)
    ensures
        r@ == compare_spec(a@, b@),
{
    if a.len() != b.len() {
        return ComparisonResult::SizeMismatch(a.len(), b.len());
    }
    let mut count: usize = 0;
    let mut samples: Vec<MismatchSample> = Vec::new();
    let mut i: usize = 0;
    while i < a.len()
        invariant
            a@.len() == b@.len(),
            i <= a@.len(),
            count as nat == mismatches(a@, b@, i as nat).len(),
            samples@ == first_samples(mismatches(a@, b@, i as nat)),
        decreases a@.len() - i,
    {
        proof {
            lemma_mismatches_len_bound(a@, b@, i as nat);
        }
        if a[i] != b[i] {
            if samples.len() < SAMPLE_LIMIT {
                samples.push(MismatchSample { offset: i, original: a[i], saved: b[i] });
            }
            count = count + 1;
        }
        assert(samples@ =~= first_samples(mismatches(a@, b@, (i + 1) as nat)));
        i = i + 1;
    }
    if count == 0 {
        ComparisonResult::Match
    } else {
        ComparisonResult::ByteMismatch(count, samples)
    }
}

/// At most one entry per position.
pub proof fn lemma_mismatches_len_bound(a: Seq<u8>, b: Seq<u8>, n: nat)
    ensures
        mismatches(a, b, n).len() <= n,
    decreases n,
{
    if n > 0 {
        lemma_mismatches_len_bound(a, b, (n - 1) as nat);
    }
}


/// The outcome of `verify`: `saved` is `None` when no counterpart exists,
/// otherwise what reading it gave; `original` is what reading the original
/// gave.
pub open spec fn verify_spec(
    original: Result<Vec<u8>, String>,
    saved: Option<Result<Vec<u8>, String>>,
) -> Outcome {
    match saved {
        None => Outcome::Missing,
        Some(saved) => match original {
            Err(e) => Outcome::ReadError { reason: e@ },
            Ok(a) => match saved {
                Err(e) => Outcome::ReadError { reason: e@ },
                Ok(b) => compare_spec(a@, b@),
            },
        },
    }
}

/// Decides the outcome for one original file from what reading it and its
/// counterpart gave. A missing counterpart wins over any read failure; a
/// failure on the original is reported before one on the counterpart.
pub fn verify(
    original: Result<Vec<u8>, String>,
    saved: Option<Result<Vec<u8>, String>>,
) -> (r: ComparisonResult)
    ensures
        r@ == verify_spec(original, saved),
        saved is None ==> r@ == Outcome::Missing,
{
    match saved {
        None => ComparisonResult::Missing,
        Some(saved) => match original {
            Err(e) => ComparisonResult::ReadError(e),
            Ok(a) => match saved {
                Err(e) => ComparisonResult::ReadError(e),
                Ok(b) => compare_bytes(&a, &b),
            },
        },
    }
}

/// The positions below `n` at which `a` and `b` differ.
pub open spec fn differing_positions(a: Seq<u8>, b: Seq<u8>, n: nat) -> Set<int> {
    Set::new(|i: int| 0 <= i < n && a[i] != b[i])
}

/// `mismatches` lists exactly the differing positions, in ascending order,
/// with the bytes found there.
pub proof fn lemma_mismatches_exact(a: Seq<u8>, b: Seq<u8>, n: nat)
    requires
        n <= a.len(),
        n <= b.len(),
        n <= usize::MAX,
    ensures
        forall|k: int|
            0 <= k < mismatches(a, b, n).len() ==> {
                let s = #[trigger] mismatches(a, b, n)[k];
                &&& (s.offset as int) < n
                &&& a[s.offset as int] != b[s.offset as int]
                &&& s.original == a[s.offset as int]
                &&& s.saved == b[s.offset as int]
            },
        forall|k1: int, k2: int|
            0 <= k1 < k2 < mismatches(a, b, n).len() ==> mismatches(a, b, n)[k1].offset
                < mismatches(a, b, n)[k2].offset,
        forall|i: int|
            0 <= i < n && a[i] != b[i] ==> exists|k: int|
                0 <= k < mismatches(a, b, n).len() && #[trigger] mismatches(a, b, n)[k].offset
                    == i,
        differing_positions(a, b, n).finite(),
        differing_positions(a, b, n).len() == mismatches(a, b, n).len(),
    decreases n,
{
    if n == 0 {
        assert(differing_positions(a, b, n) =~= Set::empty());
    } else {
        let p = (n - 1) as nat;
        lemma_mismatches_exact(a, b, p);
        let prev = mismatches(a, b, p);
        let m = mismatches(a, b, n);
        let i = p as int;
        if a[i] != b[i] {
            assert(differing_positions(a, b, n) =~= differing_positions(a, b, p).insert(i));
            assert(!differing_positions(a, b, p).contains(i));
            assert forall|j: int| 0 <= j < n && a[j] != b[j] implies exists|k: int|
                0 <= k < m.len() && #[trigger] m[k].offset == j by {
                if j == i {
                    assert(m[m.len() - 1].offset == j);
                } else {
                    let k = choose|k: int| 0 <= k < prev.len() && #[trigger] prev[k].offset == j;
                    assert(m[k] == prev[k]);
                }
            }
        } else {
            assert(differing_positions(a, b, n) =~= differing_positions(a, b, p));
            assert forall|j: int| 0 <= j < n && a[j] != b[j] implies exists|k: int|
                0 <= k < m.len() && #[trigger] m[k].offset == j by {
                let k = choose|k: int| 0 <= k < prev.len() && #[trigger] prev[k].offset == j;
                assert(m[k] == prev[k]);
            }
        }
    }
}

/// Equal-length sequences with no differing position compare as a match.
pub proof fn lemma_identical_bytes_match(a: Seq<u8>, b: Seq<u8>)
    requires
        a.len() <= usize::MAX,
        a.len() == b.len(),
        forall|i: int| 0 <= i < a.len() ==> a[i] == b[i],
    ensures
        compare_spec(a, b) == Outcome::Match,
{
    lemma_mismatches_exact(a, b, a.len());
    let m = mismatches(a, b, a.len());
    if m.len() > 0 {
        let s = m[0];
        assert(a[s.offset as int] != b[s.offset as int]);
    }
}

/// Equal-length sequences that differ somewhere give a byte mismatch whose
/// count is the number of differing positions and whose samples are the
/// first differing positions (at most three), in ascending order, with the
/// bytes found there.
pub proof fn lemma_differing_bytes_mismatch(a: Seq<u8>, b: Seq<u8>)
    requires
        a.len() <= usize::MAX,
        a.len() == b.len(),
        exists|i: int| 0 <= i < a.len() && a[i] != b[i],
    ensures
        compare_spec(a, b) matches Outcome::ByteMismatch { count, samples } && {
            &&& count == differing_positions(a, b, a.len()).len()
            &&& samples.len() == if count <= SAMPLE_LIMIT { count } else { SAMPLE_LIMIT as nat }
            &&& forall|k: int|
                0 <= k < samples.len() ==> {
                    let s = #[trigger] samples[k];
                    &&& differing_positions(a, b, a.len()).contains(s.offset as int)
                    &&& s.original == a[s.offset as int]
                    &&& s.saved == b[s.offset as int]
                }
            &&& forall|k1: int, k2: int|
                0 <= k1 < k2 < samples.len() ==> samples[k1].offset < samples[k2].offset
            &&& forall|k: int, i: int|
                0 <= k < samples.len() && differing_positions(a, b, a.len()).contains(i) && i
                    < samples[k].offset ==> exists|j: int|
                    0 <= j < k && #[trigger] samples[j].offset == i
        },
{
    lemma_mismatches_exact(a, b, a.len());
    let m = mismatches(a, b, a.len());
    let i = choose|i: int| 0 <= i < a.len() && a[i] != b[i];
    assert(differing_positions(a, b, a.len()).contains(i));
    let samples = first_samples(m);
    assert forall|k: int|
        0 <= k < samples.len() implies #[trigger] samples[k] == m[k] by {}
    assert forall|k: int, i: int|
        0 <= k < samples.len() && differing_positions(a, b, a.len()).contains(i) && i
            < samples[k].offset implies exists|j: int|
        0 <= j < k && #[trigger] samples[j].offset == i by {
        let j = choose|j: int| 0 <= j < m.len() && #[trigger] m[j].offset == i;
        if j >= k {
            assert(m[k].offset <= m[j].offset);
        }
        assert(samples[j] == m[j]);
    }
}

/// Sequences of different lengths give a size mismatch carrying both
/// lengths, whatever their bytes.
pub proof fn lemma_unequal_lengths_size_mismatch(a: Seq<u8>, b: Seq<u8>)
    requires
        a.len() != b.len(),
    ensures
        compare_spec(a, b) == (Outcome::SizeMismatch { original_len: a.len(), saved_len: b.len() }),
{
}

/// Without a counterpart the outcome is `Missing`, whatever the original
/// holds or whether it could be read.
pub proof fn lemma_absent_counterpart_missing(original: Result<Vec<u8>, String>)
    ensures
        verify_spec(original, None) == Outcome::Missing,
{
}

/// Two runs of `verify` on the same inputs give the same outcome.
pub proof fn lemma_verify_idempotent(
    original: Result<Vec<u8>, String>,
    saved: Option<Result<Vec<u8>, String>>,
    first: ComparisonResult,
    second: ComparisonResult,
)
    requires
        first@ == verify_spec(original, saved),
        second@ == verify_spec(original, saved),
    ensures
        first@ == second@,
{
}

} // verus!
