//! Wire messages of the stratum family and the dialect-independent view of a
//! client request.

pub mod object;
pub mod stratum;
