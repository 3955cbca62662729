//! What Java asks of the similarity scoring service.

use vstd::prelude::*;
use vstd::string::*;

verus! {

/// What is done with a request to score many vectors.
#[derive(Debug)]
pub enum BulkRequest {
    /// There is nothing to score: the lowest score is returned.
    Nothing,
    /// There is no query to score against: an exception with this message is thrown.
    NoContext(String),
    /// The vectors are scored.
    Score,
}

/// What is done with a request to score `num_vectors` vectors.
pub fn score_similarity_in_bulk(num_vectors: i32, context_is_null: bool) -> (request: BulkRequest)
    ensures
        match request {
            BulkRequest::Nothing => num_vectors <= 0,
            BulkRequest::NoContext(message) => {
                &&& num_vectors > 0
                &&& context_is_null
                &&& message@
                    == "No search context has been initialized, SimdVectorSearchContext* was empty."@
            },
            BulkRequest::Score => num_vectors > 0 && !context_is_null,
        },
{
    if num_vectors <= 0 {
        BulkRequest::Nothing
    } else if context_is_null {
        BulkRequest::NoContext(
            "No search context has been initialized, SimdVectorSearchContext* was empty.".to_owned(),
        )
    } else {
        BulkRequest::Score
    }
}

/// A vector can be scored: there is a query to score it against.
pub fn score_similarity(context_is_null: bool) -> (r: Result<(), String>)
    ensures
        r is Ok == !context_is_null,
        r matches Err(message) ==> message@ == "No search context has been initialized."@,
{
    if context_is_null {
        Err("No search context has been initialized.".to_owned())
    } else {
        Ok(())
    }
}

/// How many bytes a query of `dimension` floats has, as a 32-bit number.
pub fn query_byte_size(dimension: i32) -> (size: i32)
    requires
        0 <= 4 * dimension <= i32::MAX,
    ensures
        size == 4 * dimension,
{
    4 * dimension
}

/// Vectors are scored where there are some and there is a query for them, and without a query
/// nothing is scored. A query has four bytes for each dimension.
pub proof fn lemma_scored(
    num_vectors: i32,
    context_is_null: bool,
    bulk: BulkRequest,
    one: Result<(), String>,
    dimension: i32,
    size: i32,
)
    requires
        call_ensures(score_similarity_in_bulk, (num_vectors, context_is_null), bulk),
        call_ensures(score_similarity, (context_is_null,), one),
        0 <= dimension <= 0x1fff_ffff,
        call_ensures(query_byte_size, (dimension,), size),
    ensures
        bulk is Score <==> num_vectors >= 1 && !context_is_null,
        bulk is Nothing <==> num_vectors < 1,
        bulk matches BulkRequest::NoContext(message) ==> message@
            == "No search context has been initialized, SimdVectorSearchContext* was empty."@,
        one is Ok <==> !context_is_null,
        one matches Err(message) ==> message@ == "No search context has been initialized."@,
        size == dimension + dimension + dimension + dimension,
{
}

} // verus!
