use vstd::prelude::*;

verus! {

/// A named schema change.
pub struct Migration<'a> {
    pub name: &'a str,
    pub query: &'a str,
}

/// The name of the migration that creates the users table.
pub const USERS_TABLE_MIGRATION: &'static str = "000-create_users_table";

/// The name of the migration that creates the auths table.
pub const AUTHS_TABLE_MIGRATION: &'static str = "001-create_auths_table";

/// Creates the users table: a generated id, a required name, a unique
/// email, an optional password and the two times.
pub const USERS_TABLE_SQL: &'static str = "CREATE TABLE users(
                    id BIGSERIAL PRIMARY KEY,
                    name VARCHAR(255) NOT NULL,
                    email VARCHAR(255) UNIQUE NULL,
                    password VARCHAR(255) NULL,
                    created_at TIMESTAMPTZ NOT NULL DEFAULT NOW(),
                    updated_at TIMESTAMPTZ NOT NULL DEFAULT NOW()
                );";

/// Creates the auths table: one source per user, one auth per source user.
pub const AUTHS_TABLE_SQL: &'static str = "CREATE TABLE auths(
                    id BIGSERIAL PRIMARY KEY,
                    user_id BIGINT NOT NULL REFERENCES users (id) ON DELETE CASCADE,
                    source VARCHAR(255) NOT NULL,
                    source_id VARCHAR(255) NULL,
                    access_token VARCHAR(255) NULL,
                    refresh_token VARCHAR(255) NULL,
                    expiry TIMESTAMPTZ NULL,
                    created_at TIMESTAMPTZ NOT NULL DEFAULT NOW(),
                    updated_at TIMESTAMPTZ NOT NULL DEFAULT NOW(),
                    UNIQUE(user_id, source),
                    UNIQUE(source, source_id)
                );";

/// Returns every migration, in the order they apply: the users table, then
/// the auths table.
pub fn migrations<'a>() -> (r: Vec<Migration<'a>>)
    ensures
        r@.len() == 2,
        r@[0].name@ == USERS_TABLE_MIGRATION@,
        r@[0].query@ == USERS_TABLE_SQL@,
        r@[1].name@ == AUTHS_TABLE_MIGRATION@,
        r@[1].query@ == AUTHS_TABLE_SQL@,
{
    let mut r: Vec<Migration<'a>> = Vec::new();
    r.push(Migration { name: USERS_TABLE_MIGRATION, query: USERS_TABLE_SQL });
    r.push(Migration { name: AUTHS_TABLE_MIGRATION, query: AUTHS_TABLE_SQL });
    r
}

/// Returns the migrations that the store applies at start: the users table.
pub fn get_migrations_list<'a>() -> (r: Vec<Migration<'a>>)
    ensures
        r@.len() == 1,
        r@[0].name@ == USERS_TABLE_MIGRATION@,
        r@[0].query@ == USERS_TABLE_SQL@,
{
    let mut r: Vec<Migration<'a>> = Vec::new();
    r.push(Migration { name: USERS_TABLE_MIGRATION, query: USERS_TABLE_SQL });
    r
}

} // verus!
