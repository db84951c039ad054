//! Setting the store up and querying it.

use vstd::prelude::*;
use crate::domain::ServiceResult;
use crate::repository::{QueryResult, Repository};

verus! {

/// The service that answers for the store itself.
pub struct DbService<R: Repository> {
    repository: R,
}

impl<R: Repository> DbService<R> {
    /// The store the service works on.
    pub closed spec fn store(&self) -> R {
        self.repository
    }

    pub fn new(repository: R) -> (r: DbService<R>)
        ensures
            r.store() == repository,
    {
        DbService { repository }
    }

    /// Makes sure the store exists and has its current layout; the layout
    /// is not touched where the store could not be made.
    pub fn initialize_db(&self) -> ServiceResult<()> {
        let made = self.repository.ensure_db_exists();
        if !made.success {
            return made;
        }
        self.repository.ensure_schema_upgraded()
    }

    pub fn execute_query(&self, sql: &str) -> ServiceResult<QueryResult> {
        self.repository.execute_query(sql)
    }
}

} // verus!
