use vstd::prelude::*;

use crate::query::{decimal, decimal_text};

verus! {

/// The deployment environment the application runs in.
#[derive(Clone, Copy, Debug, PartialEq, Eq, Structural)]
pub enum Env {
    Local,
    Development,
    Testing,
    Staging,
    Production,
}

impl Env {
    /// The name of each environment.
    pub open spec fn name(self) -> Seq<char> {
        match self {
            Env::Local => "local"@,
            Env::Development => "development"@,
            Env::Testing => "testing"@,
            Env::Staging => "staging"@,
            Env::Production => "production"@,
        }
    }

    /// Returns the name of the environment.
    pub fn to_string(&self) -> (r: String)
        ensures
            r@ == self.name(),
    {
        match self {
            Env::Local => String::from_str("local"),
            Env::Development => String::from_str("development"),
            Env::Testing => String::from_str("testing"),
            Env::Staging => String::from_str("staging"),
            Env::Production => String::from_str("production"),
        }
    }

    /// Returns the environment with the name `s`; a name that is none of them
    /// gives `Local`.
    pub fn from_name(s: &String) -> (r: Env)
        ensures
            r.name() == s@ || (r == Env::Local && forall|e: Env| #[trigger] e.name() != s@),
    {
        if *s == String::from_str("local") {
            Env::Local
        } else if *s == String::from_str("development") {
            Env::Development
        } else if *s == String::from_str("testing") {
            Env::Testing
        } else if *s == String::from_str("staging") {
            Env::Staging
        } else if *s == String::from_str("production") {
            Env::Production
        } else {
            assert forall|e: Env| #[trigger] e.name() != s@ by {
                match e {
                    Env::Local => {},
                    Env::Development => {},
                    Env::Testing => {},
                    Env::Staging => {},
                    Env::Production => {},
                }
            }
            Env::Local
        }
    }
}

/// Settings of the application itself.
#[derive(Clone, Debug)]
pub struct App {
    pub env: Env,
}

/// Where and as whom to reach the relational store.
#[derive(Clone, Debug)]
pub struct Postgres {
    pub host: String,
    pub port: u16,
    pub username: String,
    pub password: String,
    pub database: String,
}

/// Where and how to reach the cache.
#[derive(Clone, Debug)]
pub struct Redis {
    pub host: String,
    pub port: u16,
    pub password: String,
}

/// The settings of the application.
#[derive(Clone, Debug)]
pub struct AppConfig {
    pub app: App,
    pub postgres: Postgres,
    pub redis: Redis,
}

impl AppConfig {
    /// `postgres://<username>:<password>@<host>:<port>/<database>`.
    pub open spec fn postgres_dsn(&self) -> Seq<char> {
        "postgres://"@ + self.postgres.username@ + ":"@ + self.postgres.password@ + "@"@
            + self.postgres.host@ + ":"@ + decimal_text(self.postgres.port as nat) + "/"@
            + self.postgres.database@
    }

    /// `redis://<password>@<host>:<port>`.
    pub open spec fn redis_dsn(&self) -> Seq<char> {
        "redis://"@ + self.redis.password@ + "@"@ + self.redis.host@ + ":"@ + decimal_text(
            self.redis.port as nat,
        )
    }

    /// Returns the connection string of the relational store.
    pub fn get_postgres_dsn(&self) -> (r: String)
        ensures
            r@ == self.postgres_dsn(),
    {
        let mut s = String::from_str("postgres://");
        s.append(self.postgres.username.as_str());
        s.append(":");
        s.append(self.postgres.password.as_str());
        s.append("@");
        s.append(self.postgres.host.as_str());
        s.append(":");
        s.append(decimal(self.postgres.port as u64).as_str());
        s.append("/");
        s.append(self.postgres.database.as_str());
        s
    }

    /// Returns the connection string of the cache.
    pub fn get_redis_dsn(&self) -> (r: String)
        ensures
            r@ == self.redis_dsn(),
    {
        let mut s = String::from_str("redis://");
        s.append(self.redis.password.as_str());
        s.append("@");
        s.append(self.redis.host.as_str());
        s.append(":");
        s.append(decimal(self.redis.port as u64).as_str());
        s
    }
}

} // verus!
