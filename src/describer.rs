//! Choice of the schema describer for a connection, and detection of the
//! version- and fork-dependent capabilities that it is given.
//!
//! Detection needs queries on the connection, which the caller makes: it
//! reads the server's version string and hands it to [`start_detection`].
//! That either names the describer at once, or asks for the integer server
//! version, read with [`SERVER_VERSION_NUM_QUERY`] and handed to
//! [`finish_detection`].

use vstd::prelude::*;
use crate::text::{contains_str, occurs_in, str_eq};

verus! {

/// Marks a Cockroach-compatible server in its version string.
pub const COCKROACH_MARKER: &'static str = "CockroachDB";

/// The provider name declared for Postgres.
pub const POSTGRES_PROVIDER_NAME: &'static str = "postgresql";

/// Reads the integer server version of a Postgres server, in a column named
/// `version`.
pub const SERVER_VERSION_NUM_QUERY: &'static str =
    "select current_setting('server_version_num')::integer as version;";

/// The least integer server version (major version 10) that can partition
/// tables.
pub const PARTITIONING_MIN_VERSION_NUM: i64 = 100000;

/// The family of a database product.
#[derive(Clone, Copy, Debug, PartialEq, Eq, Structural)]
pub enum SqlFamily {
    Postgres,
    Mysql,
    Sqlite,
    Mssql,
}

/// One capability of a Postgres connection.
#[derive(Clone, Copy, Debug, PartialEq, Eq, Structural)]
pub enum Circumstance {
    /// The server is a Cockroach-compatible fork.
    Cockroach,
    /// A Cockroach-compatible server used with the Postgres provider.
    CockroachWithPostgresNativeTypes,
    /// The server can partition tables.
    CanPartitionTables,
}

impl Circumstance {
    /// The bit that stands for this capability.
    pub open spec fn mask(self) -> u8 {
        match self {
            Circumstance::Cockroach => 1,
            Circumstance::CockroachWithPostgresNativeTypes => 2,
            Circumstance::CanPartitionTables => 4,
        }
    }

    fn bit(&self) -> (r: u8)
        ensures
            r == self.mask(),
    {
        match self {
            Circumstance::Cockroach => 1,
            Circumstance::CockroachWithPostgresNativeTypes => 2,
            Circumstance::CanPartitionTables => 4,
        }
    }
}

/// A set of capabilities, one independent bit each.
#[derive(Clone, Copy, Debug, PartialEq, Eq, Structural)]
pub struct Circumstances {
    bits: u8,
}

impl Circumstances {
    /// Whether `c` is in the set.
    pub closed spec fn has(self, c: Circumstance) -> bool {
        self.bits & c.mask() != 0
    }

    /// No capability is in the set.
    pub open spec fn is_none(self) -> bool {
        forall|c: Circumstance| !#[trigger] self.has(c)
    }

    /// The empty set.
    pub fn empty() -> (r: Circumstances)
        ensures
            r.is_none(),
    {
        let r = Circumstances { bits: 0 };
        assert forall|c: Circumstance| !#[trigger] r.has(c) by {
            let m = c.mask();
            assert(0u8 & m == 0) by (bit_vector);
        }
        r
    }

    /// Whether `c` is in the set.
    pub fn contains(&self, c: Circumstance) -> (r: bool)
        ensures
            r == self.has(c),
    {
        self.bits & c.bit() != 0
    }

    /// Adds `c` to the set and keeps the rest.
    pub fn insert(&mut self, c: Circumstance)
        ensures
            forall|d: Circumstance| #[trigger] final(self).has(d) == (old(self).has(d) || d == c),
    {
        let b = self.bits;
        let m = c.bit();
        self.bits = b | m;
        assert forall|d: Circumstance| #[trigger] self.has(d) == ((b & d.mask() != 0) || d == c) by {
            let n = d.mask();
            assert(m == 1 || m == 2 || m == 4);
            assert(n == 1 || n == 2 || n == 4);
            assert((m == 1 || m == 2 || m == 4) && (n == 1 || n == 2 || n == 4) ==> (((b | m) & n
                != 0) == ((b & n != 0) || m == n))) by (bit_vector);
        }
    }
}

/// The schema describer chosen for a connection.
#[derive(Clone, Copy, Debug, PartialEq, Eq, Structural)]
pub enum Describer {
    /// The Postgres describer, with the capabilities of its server.
    Postgres(Circumstances),
    Mysql,
    Sqlite,
    Mssql,
}

impl Describer {
    /// The capabilities that the describer is given: those of a Postgres
    /// describer, none for another.
    pub fn circumstances(&self) -> (r: Circumstances)
        ensures
            match *self {
                Describer::Postgres(c) => r == c,
                _ => r.is_none(),
            },
    {
        match self {
            Describer::Postgres(c) => *c,
            _ => Circumstances::empty(),
        }
    }
}

/// What detection needs next.
#[derive(Clone, Copy, Debug, PartialEq, Eq, Structural)]
pub enum DetectionStep {
    /// Detection is done: the describer to build.
    Ready(Describer),
    /// The integer server version must be read with
    /// [`SERVER_VERSION_NUM_QUERY`] and handed to [`finish_detection`].
    ProbeVersionNum,
}

/// The server's version string names a Cockroach-compatible fork.
pub open spec fn names_cockroach(version: Option<&str>) -> bool {
    match version {
        Some(v) => occurs_in(COCKROACH_MARKER@, v@),
        None => false,
    }
}

/// The declared provider is the Postgres provider.
pub open spec fn is_postgres_provider(provider: Option<&str>) -> bool {
    match provider {
        Some(p) => p@ == POSTGRES_PROVIDER_NAME@,
        None => false,
    }
}

/// The first step of detection, from the connection's family, its server's
/// version string and the declared provider. Only a Postgres server that is
/// not a Cockroach-compatible fork needs another query.
pub fn start_detection(family: SqlFamily, version: Option<&str>, provider: Option<&str>) -> (r:
    DetectionStep)
    ensures
        match family {
            SqlFamily::Postgres => if names_cockroach(version) {
                r matches DetectionStep::Ready(Describer::Postgres(c)) && {
                    &&& c.has(Circumstance::Cockroach)
                    &&& c.has(Circumstance::CockroachWithPostgresNativeTypes)
                        == is_postgres_provider(provider)
                    &&& !c.has(Circumstance::CanPartitionTables)
                }
            } else {
                r == DetectionStep::ProbeVersionNum
            },
            SqlFamily::Mysql => r == DetectionStep::Ready(Describer::Mysql),
            SqlFamily::Sqlite => r == DetectionStep::Ready(Describer::Sqlite),
            SqlFamily::Mssql => r == DetectionStep::Ready(Describer::Mssql),
        },
{
    match family {
        SqlFamily::Postgres => {
            let cockroach = match version {
                Some(v) => contains_str(v, COCKROACH_MARKER),
                None => false,
            };
            if cockroach {
                let mut c = Circumstances::empty();
                c.insert(Circumstance::Cockroach);
                let native = match provider {
                    Some(p) => str_eq(p, POSTGRES_PROVIDER_NAME),
                    None => false,
                };
                if native {
                    c.insert(Circumstance::CockroachWithPostgresNativeTypes);
                }
                DetectionStep::Ready(Describer::Postgres(c))
            } else {
                DetectionStep::ProbeVersionNum
            }
        },
        SqlFamily::Mysql => DetectionStep::Ready(Describer::Mysql),
        SqlFamily::Sqlite => DetectionStep::Ready(Describer::Sqlite),
        SqlFamily::Mssql => DetectionStep::Ready(Describer::Mssql),
    }
}

/// The last step of detection on a Postgres server that is not a
/// Cockroach-compatible fork, from its integer server version, if the query
/// returned one. Partitioning is available from major version 10 on; an
/// unknown version leaves it out.
pub fn finish_detection(version_num: Option<i64>) -> (r: Describer)
    ensures
        r matches Describer::Postgres(c) && {
            &&& !c.has(Circumstance::Cockroach)
            &&& !c.has(Circumstance::CockroachWithPostgresNativeTypes)
            &&& c.has(Circumstance::CanPartitionTables) == (version_num matches Some(v) && v
                >= PARTITIONING_MIN_VERSION_NUM)
        },
{
    let mut c = Circumstances::empty();
    match version_num {
        Some(v) if v >= PARTITIONING_MIN_VERSION_NUM => c.insert(Circumstance::CanPartitionTables),
        _ => {},
    }
    Describer::Postgres(c)
}

} // verus!
