//! Pages of search results.
use vstd::prelude::*;

verus! {

/// The page of at most `limit` documents that starts at `offset`.
pub open spec fn page_of<A>(docs: Seq<A>, offset: int, limit: int) -> Seq<A> {
    docs.subrange(
        offset,
        if offset + limit < docs.len() {
            offset + limit
        } else {
            docs.len() as int
        },
    )
}

} // verus!
