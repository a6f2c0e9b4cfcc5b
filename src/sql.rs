//! The persisted form of the tracking store: table schemas and the
//! statements that load the tables and write them back.
use vstd::prelude::*;
use vstd::string::*;

verus! {

/// Statements on the primary table (one row per declared entity).
pub struct PrimaryPool {}

/// Statements on the secondary table (one row per path of a mirrored tree).
pub struct SecondaryPool {}

/// Both tables' statements.
pub struct StatementPool {
    pub primary: PrimaryPool,
    pub secondary: SecondaryPool,
}

/// Creates a table if it is missing.
pub trait Create {
    fn create(&self) -> String;
}

/// Inserts one row; every column is a parameter, in schema order.
pub trait Insert {
    fn insert(&self) -> String;
}

/// Reads every row, every column in schema order.
pub trait Select {
    fn select(&self) -> String;
}

/// Empties the table before it is written back.
pub trait Delete {
    fn delete(&self) -> String;
}

impl Create for PrimaryPool {
    fn create(&self) -> String {
        String::from_str(
            "CREATE TABLE IF NOT EXISTS Prime (
                hash INTEGER NOT NULL,
                category TEXT NOT NULL,
                title TEXT NOT NULL,
                setting TEXT NOT NULL,
                source TEXT NOT NULL,
                destination TEXT NOT NULL,
                to_keep BOOL NOT NULL
                );",
        )
    }
}

impl Create for SecondaryPool {
    fn create(&self) -> String {
        String::from_str(
            "CREATE TABLE IF NOT EXISTS Secondary (
                hash INTEGER NOT NULL,
                path TEXT NOT NULL,
                modified INTEGER NOT NULL,
                path_order INTEGER NOT NULL,
                to_keep BOOL NOT NULL
                );",
        )
    }
}

impl Insert for PrimaryPool {
    fn insert(&self) -> String {
        String::from_str(
            "INSERT INTO Prime (hash, category, title, setting, source, destination, to_keep)
                VALUES (?1, ?2, ?3, ?4, ?5, ?6, ?7);",
        )
    }
}

impl Insert for SecondaryPool {
    fn insert(&self) -> String {
        String::from_str(
            "INSERT INTO Secondary (hash, path, modified, path_order, to_keep)
                VALUES (?1, ?2, ?3, ?4, ?5);",
        )
    }
}

impl Select for PrimaryPool {
    fn select(&self) -> String {
        String::from_str("SELECT hash, category, title, setting, source, destination, to_keep FROM Prime;")
    }
}

impl Select for SecondaryPool {
    fn select(&self) -> String {
        String::from_str("SELECT hash, path, modified, path_order, to_keep FROM Secondary ORDER BY path_order;")
    }
}

impl Delete for PrimaryPool {
    fn delete(&self) -> String {
        String::from_str("DELETE FROM Prime;")
    }
}

impl Delete for SecondaryPool {
    fn delete(&self) -> String {
        String::from_str("DELETE FROM Secondary;")
    }
}

impl PrimaryPool {
    /// The stale rows of one group, as the collector reads them.
    pub fn link_select(&self) -> (r: String)
        ensures
            r@ == "SELECT hash, source, destination, category, setting FROM Prime WHERE to_keep = 0 AND title = ?1 AND setting = ?2;"@,
    {
        String::from_str("SELECT hash, source, destination, category, setting FROM Prime WHERE to_keep = 0 AND title = ?1 AND setting = ?2;")
    }
}

impl StatementPool {
    pub fn new() -> (r: StatementPool) {
        StatementPool { primary: PrimaryPool {}, secondary: SecondaryPool {} }
    }

    /// The recorded modification time of one path.
    pub fn select_modified(&self) -> (r: String)
        ensures
            r@ == "SELECT modified FROM Secondary WHERE hash = ?1 AND path = ?2;"@,
    {
        String::from_str("SELECT modified FROM Secondary WHERE hash = ?1 AND path = ?2;")
    }

    /// Replaces the recorded modification time of one path.
    pub fn update_modified(&self) -> (r: String)
        ensures
            r@ == "UPDATE Secondary SET modified = ?1 WHERE hash = ?2 AND path = ?3;"@,
    {
        String::from_str("UPDATE Secondary SET modified = ?1 WHERE hash = ?2 AND path = ?3;")
    }
}

} // verus!
