//! Built-in providers: the always-off provider used when no key is configured,
//! and the deterministic hash embedding used for tests and offline smoke runs.
use vstd::prelude::*;
use crate::ai_types::ProviderCapabilities;
use crate::text::{chars_of, owned};

verus! {

/// Always-off provider used when no key is configured or AI is force-disabled.
#[derive(Debug, Default, Clone, Copy)]
pub struct DisabledProvider;

impl DisabledProvider {
    pub fn name(&self) -> (r: &'static str)
        ensures
            r@ == "disabled"@,
    {
        "disabled"
    }

    /// No structured output, no embeddings, no context.
    pub fn capabilities(&self) -> (r: ProviderCapabilities)
        ensures
            r.name@ == "disabled"@,
            !r.structured_output,
            !r.embeddings,
            r.max_context_tokens == 0,
            r.embedding_dimensions is None,
    {
        ProviderCapabilities {
            name: owned("disabled"),
            structured_output: false,
            embeddings: false,
            max_context_tokens: 0,
            embedding_dimensions: None,
        }
    }

    pub fn is_available(&self) -> (r: bool)
        ensures
            !r,
    {
        false
    }

    /// Embeddings of no dimension.
    pub fn dimensions(&self) -> (r: usize)
        ensures
            r == 0,
    {
        0
    }
}

/// The multiplier of the character hash.
pub const HASH_MULTIPLIER: usize = 2_654_435_761;

/// The bucket of the character `c` at position `i` among `dims` buckets:
/// `(c + i) * 2654435761` in wrapping machine-word arithmetic, modulo `dims`.
pub open spec fn bucket_of(c: char, i: usize, dims: usize) -> int {
    vstd::wrapping::usize_specs::wrapping_mul(
        vstd::wrapping::usize_specs::wrapping_add((c as u32) as usize, i),
        HASH_MULTIPLIER,
    ) as int % dims as int
}

/// How many of the first `n` characters of `text` fall in bucket `b`.
pub open spec fn bucket_count(text: Seq<char>, n: int, b: int, dims: usize) -> nat
    decreases n,
{
    if n <= 0 {
        0
    } else {
        bucket_count(text, n - 1, b, dims) + if bucket_of(text[n - 1], (n - 1) as usize, dims) == b {
            1nat
        } else {
            0nat
        }
    }
}

/// How many of the first `n` characters of `text` fall in buckets `0 .. k`.
pub open spec fn count_below(text: Seq<char>, n: int, k: int, dims: usize) -> nat
    decreases k,
{
    if k <= 0 {
        0
    } else {
        count_below(text, n, k - 1, dims) + bucket_count(text, n, k - 1, dims)
    }
}

proof fn lemma_count_below_step(text: Seq<char>, n: int, k: int, dims: usize)
    requires
        n >= 1,
    ensures
        count_below(text, n, k, dims) == count_below(text, n - 1, k, dims) + if 0 <= bucket_of(
            text[n - 1],
            (n - 1) as usize,
            dims,
        ) < k {
            1nat
        } else {
            0nat
        },
    decreases k,
{
    if k > 0 {
        lemma_count_below_step(text, n, k - 1, dims);
        assert(bucket_count(text, n, k - 1, dims) == bucket_count(text, n - 1, k - 1, dims) + if bucket_of(
            text[n - 1],
            (n - 1) as usize,
            dims,
        ) == k - 1 {
            1nat
        } else {
            0nat
        });
    }
}

proof fn lemma_count_below_none(text: Seq<char>, k: int, dims: usize)
    ensures
        count_below(text, 0, k, dims) == 0,
    decreases k,
{
    if k > 0 {
        lemma_count_below_none(text, k - 1, dims);
    }
}

/// Every character lands in exactly one bucket: over all the buckets, the
/// counts of the first `n` characters add up to `n`.
pub proof fn lemma_buckets_add_up(text: Seq<char>, n: nat, dims: usize)
    requires
        dims >= 1,
    ensures
        count_below(text, n as int, dims as int, dims) == n,
    decreases n,
{
    if n == 0 {
        lemma_count_below_none(text, dims as int, dims);
    } else {
        lemma_buckets_add_up(text, (n - 1) as nat, dims);
        lemma_count_below_step(text, n as int, dims as int, dims);
        let x = vstd::wrapping::usize_specs::wrapping_mul(
            vstd::wrapping::usize_specs::wrapping_add((text[n - 1] as u32) as usize, (n - 1) as usize),
            HASH_MULTIPLIER,
        ) as int;
        assert(0 <= x);
        vstd::arithmetic::div_mod::lemma_mod_bound(x, dims as int);
    }
}

/// Deterministic local embedding (hash bag of characters).
#[derive(Debug, Clone, Copy)]
pub struct HashEmbeddingProvider {
    pub dimensions: usize,
}

impl Default for HashEmbeddingProvider {
    fn default() -> (r: Self)
        ensures
            r.dimensions == 32,
    {
        HashEmbeddingProvider { dimensions: 32 }
    }
}

impl HashEmbeddingProvider {
    pub fn name(&self) -> (r: &'static str)
        ensures
            r@ == "hash-embed"@,
    {
        "hash-embed"
    }

    /// The model name stamped on each embedding.
    pub fn model_name(&self) -> (r: &'static str)
        ensures
            r@ == "hash-embed-v2"@,
    {
        "hash-embed-v2"
    }

    /// The configured dimension count, at least one.
    pub open spec fn effective_dimensions(self) -> usize {
        if self.dimensions < 1 {
            1
        } else {
            self.dimensions
        }
    }

    /// The configured dimension count, at least one.
    pub fn dimensions(&self) -> (r: usize)
        ensures
            r == self.effective_dimensions(),
    {
        if self.dimensions < 1 {
            1
        } else {
            self.dimensions
        }
    }

    pub fn is_available(&self) -> (r: bool)
        ensures
            r,
    {
        true
    }

    /// How many characters of `text` fall in each of the provider's buckets;
    /// the embedding is this vector scaled to unit length.
    pub fn bucket_counts(&self, text: &str) -> (r: Vec<usize>)
        ensures
            r@.len() == self.effective_dimensions(),
            forall|b: int|
                0 <= b < r@.len() ==> #[trigger] r@[b] == bucket_count(
                    text@,
                    text@.len() as int,
                    b,
                    self.effective_dimensions(),
                ),
    {
        let dims = self.dimensions();
        let chars = chars_of(text);
        let mut counts: Vec<usize> = Vec::new();
        let mut b: usize = 0;
        while b < dims
            invariant
                b <= dims,
                counts@.len() == b,
                forall|k: int| 0 <= k < b ==> #[trigger] counts@[k] == 0,
            decreases dims - b,
        {
            counts.push(0);
            b = b + 1;
        }
        let mut i: usize = 0;
        while i < chars.len()
            invariant
                dims >= 1,
                dims == self.effective_dimensions(),
                chars@ == text@,
                i <= chars@.len(),
                counts@.len() == dims,
                forall|k: int| 0 <= k < dims ==> #[trigger] counts@[k] == bucket_count(chars@, i as int, k, dims),
                forall|k: int| 0 <= k < dims ==> #[trigger] counts@[k] <= i,
            decreases chars@.len() - i,
        {
            let c = chars[i];
            let idx = ((c as u32) as usize).wrapping_add(i).wrapping_mul(HASH_MULTIPLIER) % dims;
            assert(idx as int == bucket_of(chars@[i as int], i, dims));
            let old_count = counts[idx];
            counts.set(idx, old_count + 1);
            assert forall|k: int| 0 <= k < dims implies #[trigger] counts@[k] == bucket_count(chars@, i + 1, k, dims) by {
                assert(bucket_count(chars@, i + 1, k, dims) == bucket_count(chars@, i as int, k, dims) + if bucket_of(
                    chars@[i as int],
                    i,
                    dims,
                ) == k {
                    1nat
                } else {
                    0nat
                });
            }
            i = i + 1;
        }
        counts
    }
}

} // verus!
