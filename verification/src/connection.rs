//! Connection settings: the record handed to a session, the driver
//! connection string, validation of user-entered settings, and the errors
//! a session can report.

use vstd::prelude::*;
use vstd::string::*;
use crate::text::{dec_digits, parse_u16, parse_u16_spec, str_eq, u64_to_string};
use crate::value::Backend;

verus! {

/// One saved connection: which backend to reach and how.
#[derive(Clone, Debug)]
pub struct Connection {
    pub name: String,
    pub db_type: String,
    pub host: String,
    pub port: u16,
    pub database: String,
    pub username: String,
    pub password: String,
}

/// Everything a session can fail with: connecting timed out, the backend
/// or network rejected the attempt, the configured backend kind is not
/// supported, a statement failed, or the submitted text was blank.
#[derive(Clone, Debug, PartialEq, Eq)]
pub enum SessionError {
    Timeout,
    ConnectFailure(String),
    UnsupportedBackend,
    QueryError(String),
    EmptyQuery,
}

/// The backend named by a database kind string, if it is supported.
pub open spec fn spec_backend_of(s: Seq<char>) -> Option<Backend> {
    if s == "postgres"@ {
        Some(Backend::Postgres)
    } else if s == "mysql"@ || s == "mariadb"@ {
        Some(Backend::MySql)
    } else if s == "sqlite"@ {
        Some(Backend::Sqlite)
    } else {
        None
    }
}

/// Resolves a database kind string to its backend; an unknown kind is
/// rejected before any connection attempt.
pub fn backend_of(db_type: &str) -> (r: Result<Backend, SessionError>)
    ensures
        r == match spec_backend_of(db_type@) {
            Some(b) => Ok::<Backend, SessionError>(b),
            None => Err::<Backend, SessionError>(SessionError::UnsupportedBackend),
        },
{
    if str_eq(db_type, "postgres") {
        Ok(Backend::Postgres)
    } else if str_eq(db_type, "mysql") || str_eq(db_type, "mariadb") {
        Ok(Backend::MySql)
    } else if str_eq(db_type, "sqlite") {
        Ok(Backend::Sqlite)
    } else {
        Err(SessionError::UnsupportedBackend)
    }
}

/// The driver connection string for a configuration; empty for an
/// unsupported backend kind.
pub open spec fn spec_connection_string(c: Connection) -> Seq<char> {
    if c.db_type@ == "postgres"@ {
        "postgres://"@ + c.username@ + ":"@ + c.password@ + "@"@ + c.host@ + ":"@ + dec_digits(
            c.port as nat,
        ) + "/"@ + c.database@
    } else if c.db_type@ == "mysql"@ || c.db_type@ == "mariadb"@ {
        if c.username@.len() == 0 {
            "mysql://"@ + c.host@ + ":"@ + dec_digits(c.port as nat) + "/"@ + c.database@
        } else if c.password@.len() == 0 {
            "mysql://"@ + c.username@ + "@"@ + c.host@ + ":"@ + dec_digits(c.port as nat) + "/"@
                + c.database@
        } else {
            "mysql://"@ + c.username@ + ":"@ + c.password@ + "@"@ + c.host@ + ":"@ + dec_digits(
                c.port as nat,
            ) + "/"@ + c.database@
        }
    } else if c.db_type@ == "sqlite"@ {
        "sqlite://"@ + c.database@
    } else {
        Seq::empty()
    }
}

impl Connection {
    /// Builds the driver connection string for this configuration.
    pub fn to_connection_string(&self) -> (r: String)
        ensures
            r@ == spec_connection_string(*self),
    {
        let port = u64_to_string(self.port as u64);
        if str_eq(self.db_type.as_str(), "postgres") {
            let mut out = String::new();
            out.append("postgres://");
            out.append(self.username.as_str());
            out.append(":");
            out.append(self.password.as_str());
            out.append("@");
            out.append(self.host.as_str());
            out.append(":");
            out.append(port.as_str());
            out.append("/");
            out.append(self.database.as_str());
            assert(out@ =~= spec_connection_string(*self));
            out
        } else if str_eq(self.db_type.as_str(), "mysql") || str_eq(
            self.db_type.as_str(),
            "mariadb",
        ) {
            let mut out = String::new();
            out.append("mysql://");
            if self.username.as_str().unicode_len() == 0 {
                out.append(self.host.as_str());
                out.append(":");
                out.append(port.as_str());
                out.append("/");
                out.append(self.database.as_str());
            } else if self.password.as_str().unicode_len() == 0 {
                out.append(self.username.as_str());
                out.append("@");
                out.append(self.host.as_str());
                out.append(":");
                out.append(port.as_str());
                out.append("/");
                out.append(self.database.as_str());
            } else {
                out.append(self.username.as_str());
                out.append(":");
                out.append(self.password.as_str());
                out.append("@");
                out.append(self.host.as_str());
                out.append(":");
                out.append(port.as_str());
                out.append("/");
                out.append(self.database.as_str());
            }
            assert(out@ =~= spec_connection_string(*self));
            out
        } else if str_eq(self.db_type.as_str(), "sqlite") {
            let mut out = String::new();
            out.append("sqlite://");
            out.append(self.database.as_str());
            assert(out@ =~= spec_connection_string(*self));
            out
        } else {
            let out = String::new();
            assert(out@ =~= spec_connection_string(*self));
            out
        }
    }
}

/// The port used when the entered port does not parse.
pub open spec fn default_port() -> int {
    5432
}

/// The host actually stored: the loopback address is folded to its name.
pub open spec fn normalized_host(host: Seq<char>) -> Seq<char> {
    if host == "127.0.0.1"@ {
        "localhost"@
    } else {
        host
    }
}

/// Checks user-entered connection settings and builds the record to save.
/// A blank name, an unsupported backend kind, and a blank host are
/// rejected in that order, each with its message; a port that does not
/// parse falls back to the default.
pub fn validate_connection(
    name: &str,
    db_type: &str,
    host: &str,
    port: &str,
    database: &str,
    username: &str,
    password: &str,
) -> (r: Result<Connection, String>)
    ensures
        match r {
            Ok(c) => name@.len() > 0 && (db_type@ == "postgres"@ || db_type@ == "mysql"@
                || db_type@ == "sqlite"@) && host@.len() > 0 && c.name@ == name@ && c.db_type@
                == db_type@ && c.host@ == normalized_host(host@) && c.port as int == (
            match parse_u16_spec(port@) {
                Some(p) => p as int,
                None => default_port(),
            }) && c.database@ == database@ && c.username@ == username@ && c.password@
                == password@,
            Err(m) => if name@.len() == 0 {
                m@ == "Name is required"@
            } else if !(db_type@ == "postgres"@ || db_type@ == "mysql"@ || db_type@ == "sqlite"@) {
                m@ == "Invalid database type"@
            } else {
                host@.len() == 0 && m@ == "Host is required"@
            },
        },
{
    if name.unicode_len() == 0 {
        return Err(String::new().concat("Name is required"));
    }
    if !crate::utils::is_valid_db_type(db_type) {
        return Err(String::new().concat("Invalid database type"));
    }
    if host.unicode_len() == 0 {
        return Err(String::new().concat("Host is required"));
    }
    let stored_host = if str_eq(host, "127.0.0.1") {
        String::new().concat("localhost")
    } else {
        host.to_owned()
    };
    let port_num: u16 = match parse_u16(port) {
        Some(p) => p,
        None => 5432,
    };
    Ok(
        Connection {
            name: name.to_owned(),
            db_type: db_type.to_owned(),
            host: stored_host,
            port: port_num,
            database: database.to_owned(),
            username: username.to_owned(),
            password: password.to_owned(),
        },
    )
}

/// The form fields of the connection editor.
#[derive(Clone, Copy, Debug, PartialEq, Eq, Structural)]
pub enum Field {
    Name,
    DbType,
    Host,
    Port,
    Database,
    Username,
    Password,
}

/// What the connection editor asks its caller to do.
pub enum NewConnectionAction {
    Cancel,
    Save(Connection),
    Update(usize, Connection),
}

/// What the connection list asks its caller to do.
pub enum ConnectionListAction {
    NewConnection,
    SelectConnection(usize),
    DeleteConnection(usize),
    ModifyConnection(usize),
}

} // verus!
