//! The site's errors.

use vstd::prelude::*;

verus! {

#[verifier::external_type_specification]
#[verifier::external_body]
#[verifier::reject_recursive_types(E)]
pub struct ExManagedPoolError<E>(deadpool::managed::PoolError<E>);

#[verifier::external_type_specification]
#[verifier::external_body]
pub struct ExPostgresError(deadpool_postgres::tokio_postgres::Error);

/// Why a question page cannot be shown.
#[derive(Debug)]
pub enum MyError {
    /// The category and number name no question.
    BadPath,
    /// No database connection could be had from the pool.
    DBPoolError(deadpool_postgres::PoolError),
}

} // verus!
