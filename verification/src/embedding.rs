//! The provider's embedding response, modeled with plain values: each vector
//! component is carried as the bit pattern of an IEEE 754 single-precision
//! number.

use vstd::prelude::*;

verus! {

/// Token accounting reported by the provider for a completed call.
#[derive(Debug, Clone, Copy, PartialEq)]
pub struct Usage {
    pub prompt_tokens: i64,
    pub completion_tokens: Option<i64>,
    pub total_tokens: i64,
}

/// One embedding vector, components as IEEE 754 bit patterns.
#[derive(Debug, Clone, PartialEq)]
pub struct Embedding {
    pub object: String,
    pub index: u32,
    pub embedding: Vec<u32>,
}

/// The provider's embedding response: vectors plus usage.
#[derive(Debug, Clone, PartialEq)]
pub struct EmbeddingData {
    pub object: String,
    pub data: Vec<Embedding>,
    pub model: String,
    pub usage: Usage,
}

/// The vectors of an embedding response, in order.
pub open spec fn spec_embedding_vectors(d: EmbeddingData) -> Seq<Seq<u32>> {
    Seq::new(d.data@.len(), |i: int| d.data@[i].embedding@)
}

impl EmbeddingData {
    /// Extract the vectors, dropping the per-vector metadata.
    pub fn vectors(&self) -> (r: Vec<Vec<u32>>)
        ensures
            r.deep_view() == spec_embedding_vectors(*self),
    {
        let mut out: Vec<Vec<u32>> = Vec::new();
        let mut i: usize = 0;
        while i < self.data.len()
            invariant
                i <= self.data@.len(),
                out.deep_view().len() == i as int,
                forall|j: int|
                    0 <= j < i ==> out.deep_view()[j] == self.data@[j].embedding@,
            decreases self.data@.len() - i,
        {
            let ghost pre = out.deep_view();
            out.push(self.data[i].embedding.clone());
            proof {
                assert(out.deep_view() =~~= pre.push(self.data@[i as int].embedding@));
            }
            i = i + 1;
        }
        proof {
            assert(out.deep_view() =~~= spec_embedding_vectors(*self));
        }
        out
    }
}

} // verus!
