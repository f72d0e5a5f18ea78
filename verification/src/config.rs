//! Startup configuration: the service port is read from a TOML settings text
//! whose integer field `hyphenate_rpc_port` names the port to bind. Parsing
//! the TOML text is delegated to the `toml` crate; the decision taken on the
//! parsed field is verified. A bad configuration is an error, never a
//! fallback: a misconfigured service must not silently run on a wrong port.

use vstd::prelude::*;

verus! {

/// Why no port could be taken from a settings text.
#[derive(Clone, Copy, Debug, PartialEq, Eq, Structural)]
pub enum ConfigError {
    /// The text is not a TOML table, or holds no integer field
    /// `hyphenate_rpc_port`.
    MissingPort,
    /// The field's value does not fit a port number.
    PortOutOfRange,
}

/// The integer field that the `toml` crate reads under `key` from `text`:
/// `None` when the text is not a TOML table or the field is absent or not an
/// integer. It depends on the text and the key alone.
pub uninterp spec fn toml_int_of(text: Seq<char>, key: Seq<char>) -> Option<i64>;

/// Relies on toml: `str::parse::<toml::Table>` parses the text as a TOML
/// table, `Map::get` looks the key up in it, and `Value::as_integer` gives
/// the value only when it is an integer. The outcome depends on the text and
/// the key alone.
#[verifier::external_body]
fn toml_integer_field(text: &str, key: &str) -> (r: Option<i64>)
    ensures
        r == toml_int_of(text@, key@),
{
    let table: toml::Table = match text.parse() {
        Ok(t) => t,
        Err(_) => return None,
    };
    match table.get(key) {
        Some(value) => value.as_integer(),
        None => None,
    }
}

/// The TOML key under which the settings text names the port.
pub open spec fn port_key() -> Seq<char> {
    "hyphenate_rpc_port"@
}

/// The port decided for a parsed field value: absent fields are rejected, and
/// so are values outside the port range.
pub open spec fn port_of_field(field: Option<i64>) -> Result<u16, ConfigError> {
    match field {
        Option::None => Result::Err(ConfigError::MissingPort),
        Option::Some(v) => if 0 <= v <= 65535 {
            Result::Ok(v as u16)
        } else {
            Result::Err(ConfigError::PortOutOfRange)
        },
    }
}

/// The port decided for a settings text.
pub open spec fn port_choice(text: Seq<char>) -> Result<u16, ConfigError> {
    port_of_field(toml_int_of(text, port_key()))
}

/// Decide the port for a parsed field value: `Ok` exactly on integer values
/// from 0 to 65535, which are returned unchanged; `Err` says what was wrong
/// with every other field.
pub fn port_from_field(field: Option<i64>) -> (r: Result<u16, ConfigError>)
    ensures
        r == port_of_field(field),
{
    match field {
        Option::None => Result::Err(ConfigError::MissingPort),
        Option::Some(v) => if 0 <= v && v <= 65535 {
            Result::Ok(v as u16)
        } else {
            Result::Err(ConfigError::PortOutOfRange)
        },
    }
}

/// Decide the port for a settings text: `Ok` with the field's value exactly
/// when the text is a TOML table whose integer field `hyphenate_rpc_port`
/// lies between 0 and 65535, and the fitting `Err` otherwise.
pub fn port_from_settings(text: &str) -> (r: Result<u16, ConfigError>)
    ensures
        r == port_choice(text@),
{
    let field = toml_integer_field(text, "hyphenate_rpc_port");
    port_from_field(field)
}

/// Deterministic startup: equal settings texts decide equal ports, so
/// re-running the service on the same configuration binds the same port.
pub proof fn lemma_startup_deterministic(t1: Seq<char>, t2: Seq<char>)
    requires
        t1 == t2,
    ensures
        port_choice(t1) == port_choice(t2),
{
}

} // verus!
