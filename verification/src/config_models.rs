//! The environment-driven service configuration and the database
//! connection string built from it.

use vstd::prelude::*;

use crate::decimal::spec_dec_rep;
use crate::decimal::u16_to_string;

verus! {

/// The service's configuration, as read from the environment by the
/// program around the library.
pub struct LocalConfig {
    pub mysql_username: String,
    pub mysql_password: String,
    pub mysql_database: String,
    pub mysql_url: Option<String>,
    pub mysql_port: Option<u16>,
    pub bind_address: String,
    pub bind_port: u16,
    pub socket_dir: Option<String>,
    pub sql_name: Option<String>,
    pub max_req: u16,
    pub jwt_key: String,
}

#[verifier::ext_equal]
pub struct LocalConfigView {
    pub mysql_username: Seq<char>,
    pub mysql_password: Seq<char>,
    pub mysql_database: Seq<char>,
    pub mysql_url: Option<Seq<char>>,
    pub mysql_port: Option<u16>,
    pub bind_address: Seq<char>,
    pub bind_port: u16,
    pub socket_dir: Option<Seq<char>>,
    pub sql_name: Option<Seq<char>>,
    pub max_req: u16,
    pub jwt_key: Seq<char>,
}

impl View for LocalConfig {
    type V = LocalConfigView;

    open spec fn view(&self) -> LocalConfigView {
        LocalConfigView {
            mysql_username: self.mysql_username@,
            mysql_password: self.mysql_password@,
            mysql_database: self.mysql_database@,
            mysql_url: match self.mysql_url {
                Some(u) => Some(u@),
                None => None,
            },
            mysql_port: self.mysql_port,
            bind_address: self.bind_address@,
            bind_port: self.bind_port,
            socket_dir: match self.socket_dir {
                Some(d) => Some(d@),
                None => None,
            },
            sql_name: match self.sql_name {
                Some(n) => Some(n@),
                None => None,
            },
            max_req: self.max_req,
            jwt_key: self.jwt_key@,
        }
    }
}

/// The connection string that the configuration denotes: host-and-port
/// form when a database URL is configured, socket form otherwise.
pub open spec fn spec_connection_string(c: LocalConfigView) -> Seq<char>
    recommends
        c.mysql_url is Some ==> c.mysql_port is Some,
{
    if c.mysql_url is Some {
        "mysql://"@ + c.mysql_username + ":"@ + c.mysql_password + "@"@ + c.mysql_url.unwrap()
            + ":"@ + spec_dec_rep(c.mysql_port.unwrap() as nat) + "/"@ + c.mysql_database
    } else {
        "mysql://"@ + c.mysql_username + ":"@ + c.mysql_password + "@/"@ + c.mysql_database
    }
}

/// Builds the database connection string. Without a configured URL the
/// socket form is produced, which is only usable when the platform offers
/// a local socket: the caller states that with `unix_socket`, and a
/// configuration with neither is rejected before this point.
pub fn format_connection_string(conf: &LocalConfig, unix_socket: bool) -> (r: String)
    requires
        conf@.mysql_url is Some ==> conf@.mysql_port is Some,
        conf@.mysql_url is None ==> unix_socket,
    ensures
        r@ == spec_connection_string(conf@),
{
    let mut s = String::from_str("mysql://");
    s.append(conf.mysql_username.as_str());
    s.append(":");
    s.append(conf.mysql_password.as_str());
    match &conf.mysql_url {
        Some(url) => {
            let port: u16 = match conf.mysql_port {
                Some(p) => p,
                None => unreached(),
            };
            s.append("@");
            s.append(url.as_str());
            s.append(":");
            let digits = u16_to_string(port);
            s.append(digits.as_str());
            s.append("/");
            s.append(conf.mysql_database.as_str());
            proof {
                assert(s@ =~= spec_connection_string(conf@));
            }
            s
        },
        None => {
            s.append("@/");
            s.append(conf.mysql_database.as_str());
            proof {
                assert(s@ =~= spec_connection_string(conf@));
            }
            s
        },
    }
}

} // verus!
