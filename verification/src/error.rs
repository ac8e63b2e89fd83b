//! Errors reported by the storage back ends.
use vstd::prelude::*;

verus! {

/// A failure of one of the storage back ends. Each variant carries the text
/// of the underlying failure.
#[derive(Debug)]
pub enum DatabaseError {
    MongoDBError(String),
    PostgresError(String),
    SurrealDBError(String),
    LevelDBError(String),
    RocksDBError(String),
    UnknownError,
}

impl DatabaseError {
    /// The text shown for this error.
    pub open spec fn spec_message(&self) -> Seq<char> {
        match self {
            DatabaseError::MongoDBError(s) => "MongoDB error: "@ + s@,
            DatabaseError::PostgresError(s) => "PostgreSQL error: "@ + s@,
            DatabaseError::SurrealDBError(s) => "SurrealDB error : "@ + s@,
            DatabaseError::LevelDBError(s) => "LevelDB error : "@ + s@,
            DatabaseError::RocksDBError(s) => "RocksDB error : "@ + s@,
            DatabaseError::UnknownError => "Unknown error"@,
        }
    }

    /// The text shown for this error: the back end's name followed by the
    /// underlying failure.
    pub fn message(&self) -> (m: String)
        ensures
            m@ == self.spec_message(),
    {
        let (prefix, detail): (&str, &str) = match self {
            DatabaseError::MongoDBError(s) => ("MongoDB error: ", s.as_str()),
            DatabaseError::PostgresError(s) => ("PostgreSQL error: ", s.as_str()),
            DatabaseError::SurrealDBError(s) => ("SurrealDB error : ", s.as_str()),
            DatabaseError::LevelDBError(s) => ("LevelDB error : ", s.as_str()),
            DatabaseError::RocksDBError(s) => ("RocksDB error : ", s.as_str()),
            DatabaseError::UnknownError => ("Unknown error", ""),
        };
        let mut m = String::from_str(prefix);
        m.append(detail);
        proof {
            reveal_strlit("");
            assert(m@ =~= self.spec_message());
        }
        m
    }
}

} // verus!
