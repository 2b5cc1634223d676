//! The data that the player database holds.

use vstd::prelude::*;
use vstd::string::*;

verus! {

/// Minecraft player information.
#[derive(Debug, Clone, PartialEq, Eq)]
pub struct MinecraftPlayer {
    pub uuid: String,
    pub username: String,
}

/// Player statistics entry.
#[derive(Debug, Clone, PartialEq, Eq)]
pub struct PlayerStat {
    pub mc_uuid: String,
    pub stat_name: String,
    pub stat_value: i64,
    pub timestamp: i64,
}

/// Repository for player database operations, bound to one database file.
pub struct PlayerRepository {
    db_path: String,
}

impl PlayerRepository {
    /// The path of the database file, as text.
    pub closed spec fn path(&self) -> Seq<char> {
        self.db_path@
    }

    /// Create a new player repository.
    pub fn new(db_path: String) -> (r: Self)
        ensures
            r.path() == db_path@,
    {
        Self { db_path }
    }

    /// The path of the database file.
    pub fn db_path(&self) -> (r: &str)
        ensures
            r@ == self.path(),
    {
        self.db_path.as_str()
    }
}

} // verus!
