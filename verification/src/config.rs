//! Reading the session's settings out of the loaded configuration: the
//! connection role, the command-line switch, the intervals with their
//! defaults, the store paths, and the host and port for the chosen role.
//! The configuration arrives as plain section/key/value maps; reading the
//! file itself happens outside the library.
use vstd::prelude::*;

verus! {

use crate::strmap::StrMap;
use crate::strmap::spec_map_get;
use crate::dictionary::FixError;
use crate::message_handling::SessionContext;
use crate::message_handling::SessionView;
use crate::strings::str_eq;
use crate::strings::str_to_chars;
use crate::numbers::spec_parse_u64;
use crate::numbers::parse_u64;

/// The value under `section.key`, when both exist.
pub open spec fn cfg_get(
    cfg: Seq<(Seq<char>, Seq<(Seq<char>, Seq<char>)>)>,
    section: Seq<char>,
    key: Seq<char>,
) -> Option<Seq<char>> {
    match spec_map_get(cfg, section) {
        Some(s) => spec_map_get(s, key),
        None => None,
    }
}

/// The value under `section.key`, cloned.
fn config_value(config_map: &StrMap<StrMap<String>>, section: &str, key: &str) -> (r: Option<
    String,
>)
    ensures
        match r {
            Some(v) => cfg_get(config_map@, section@, key@) == Some(v@),
            None => cfg_get(config_map@, section@, key@) is None,
        },
{
    match config_map.get(section) {
        Some(s) => match s.get(key) {
            Some(v) => Some(v.clone()),
            None => None,
        },
        None => None,
    }
}

/// Whether the configured connection type is `initiator`; anything else,
/// or no setting, is an acceptor.
pub fn is_initiator(config_map: &StrMap<StrMap<String>>) -> (r: bool)
    ensures
        r == (cfg_get(config_map@, "default"@, "connection_type"@) == Some("initiator"@)),
{
    match config_value(config_map, "default", "connection_type") {
        Some(v) => str_eq(v.as_str(), "initiator"),
        None => false,
    }
}

/// Whether the interactive console is switched on.
pub fn enable_cmd_line(config_map: &StrMap<StrMap<String>>) -> (r: bool)
    ensures
        r == (cfg_get(config_map@, "default"@, "enable_cmd_line"@) == Some("true"@)),
{
    match config_value(config_map, "default", "enable_cmd_line") {
        Some(v) => str_eq(v.as_str(), "true"),
        None => false,
    }
}

/// The interval a session key configures: the parsed value when the key is
/// set, the default when it is absent, and an error when it does not parse.
pub open spec fn spec_interval(
    cfg: Seq<(Seq<char>, Seq<(Seq<char>, Seq<char>)>)>,
    key: Seq<char>,
    default_value: u64,
) -> Option<u64> {
    match cfg_get(cfg, "session"@, key) {
        Some(v) => spec_parse_u64(v),
        None => Some(default_value),
    }
}

/// Reads an interval from the `session` section, with its default.
pub fn parse_and_update_interval(
    config_map: &StrMap<StrMap<String>>,
    key: &str,
    default_value: u64,
) -> (r: Result<u64, FixError>)
    ensures
        match spec_interval(config_map@, key@, default_value) {
            Some(v) => r == Ok::<u64, FixError>(v),
            None => r is Err,
        },
{
    match config_value(config_map, "session", key) {
        Some(v) => match parse_u64(&str_to_chars(v.as_str())) {
            Some(n) => Ok(n),
            None => Err(
                FixError::ParseError(String::from_str("Failed to parse ").concat(key)),
            ),
        },
        None => Ok(default_value),
    }
}

/// Installs the configured reconnect interval (default 30) in the session.
pub fn update_reconnect_interval(
    config_map: &StrMap<StrMap<String>>,
    ctx: &mut SessionContext,
) -> (r: Result<(), FixError>)
    ensures
        match spec_interval(config_map@, "reconnect_interval"@, 30) {
            Some(v) => r is Ok && final(ctx)@ == (SessionView {
                reconnect_interval: v,
                ..old(ctx)@
            }),
            None => r is Err && final(ctx)@ == old(ctx)@,
        },
{
    match parse_and_update_interval(config_map, "reconnect_interval", 30) {
        Ok(v) => {
            ctx.reconnect_interval = v;
            proof {
                assert(ctx@ =~= (SessionView { reconnect_interval: v, ..old(ctx)@ }));
            }
            Ok(())
        },
        Err(e) => Err(e),
    }
}

/// Installs the configured heartbeat interval (default 15) in the session.
pub fn update_heart_bt_int(config_map: &StrMap<StrMap<String>>, ctx: &mut SessionContext) -> (r:
    Result<(), FixError>)
    ensures
        match spec_interval(config_map@, "heart_bt_int"@, 15) {
            Some(v) => r is Ok && final(ctx)@ == (SessionView {
                heart_bt_int: v,
                ..old(ctx)@
            }),
            None => r is Err && final(ctx)@ == old(ctx)@,
        },
{
    match parse_and_update_interval(config_map, "heart_bt_int", 15) {
        Ok(v) => {
            ctx.heart_bt_int = v;
            proof {
                assert(ctx@ =~= (SessionView { heart_bt_int: v, ..old(ctx)@ }));
            }
            Ok(())
        },
        Err(e) => Err(e),
    }
}

/// The configured path of the sequence store file.
pub fn get_sequence_store(config_map: &StrMap<StrMap<String>>) -> (r: Result<String, FixError>)
    ensures
        match cfg_get(config_map@, "session"@, "sequence_store"@) {
            Some(v) => r matches Ok(p) && p@ == v,
            None => r is Err,
        },
{
    match config_value(config_map, "session", "sequence_store") {
        Some(v) => Ok(v),
        None => Err(
            FixError::ParseError(String::from_str("sequence_store not found in configuration.")),
        ),
    }
}

/// The configured path of the order store file.
pub fn get_order_store(config_map: &StrMap<StrMap<String>>) -> (r: Result<String, FixError>)
    ensures
        match cfg_get(config_map@, "session"@, "order_store"@) {
            Some(v) => r matches Ok(p) && p@ == v,
            None => r is Err,
        },
{
    match config_value(config_map, "session", "order_store") {
        Some(v) => Ok(v),
        None => Err(
            FixError::ParseError(String::from_str("order_store not found in configuration.")),
        ),
    }
}

/// The host and port the configured role uses: the connect pair for an
/// initiator, the accept pair for an acceptor; the port must be a number
/// below 65536.
pub fn get_connection_details(config_map: &StrMap<StrMap<String>>, initiator: bool) -> (r: Result<
    (String, u16),
    FixError,
>)
    ensures
        ({
            let hk: Seq<char> = if initiator {
                "socket_connect_host"@
            } else {
                "socket_accept_address"@
            };
            let pk: Seq<char> = if initiator {
                "socket_connect_port"@
            } else {
                "socket_accept_port"@
            };
            match (cfg_get(config_map@, "session"@, hk), cfg_get(config_map@, "session"@, pk)) {
                (Some(h), Some(p)) => match spec_parse_u64(p) {
                    Some(n) => if n <= u16::MAX as u64 {
                        r matches Ok(t) && t.0@ == h && t.1 == n
                    } else {
                        r is Err
                    },
                    None => r is Err,
                },
                _ => r is Err,
            }
        }),
{
    let host_key = if initiator {
        "socket_connect_host"
    } else {
        "socket_accept_address"
    };
    let port_key = if initiator {
        "socket_connect_port"
    } else {
        "socket_accept_port"
    };
    let host = match config_value(config_map, "session", host_key) {
        Some(h) => h,
        None => {
            return Err(
                FixError::ParseError(String::from_str("Host not found in configuration.")),
            );
        },
    };
    let port_str = match config_value(config_map, "session", port_key) {
        Some(p) => p,
        None => {
            return Err(
                FixError::ParseError(String::from_str("Port not found in configuration.")),
            );
        },
    };
    match parse_u64(&str_to_chars(port_str.as_str())) {
        Some(n) => if n <= 65535 {
            Ok((host, n as u16))
        } else {
            Err(FixError::ParseError(String::from_str("Port out of range.")))
        },
        None => Err(FixError::ParseError(String::from_str("Port not a number."))),
    }
}

} // verus!
