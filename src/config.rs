use vstd::prelude::*;
use vstd::string::{StrSliceExecFns, StringExecFns};

verus! {

/// Why the settings cannot be used; each is fatal at startup.
#[derive(Clone, Copy, Debug, PartialEq, Eq, Structural)]
pub enum ConfigError {
    /// The query service port is not a port number.
    InvalidPort,
    /// The broker port is not a port number.
    InvalidMqttPort,
}

/// Settings of the process, read once at startup.
#[derive(Clone, Debug)]
pub struct Config {
    pub database_url: String,
    pub port: u16,
    pub mqtt_host: String,
    pub mqtt_port: u16,
    pub mqtt_client_id: String,
    pub mqtt_topic: String,
}

pub open spec fn is_digit(c: char) -> bool {
    '0' <= c <= '9'
}

/// The number that a string of decimal digits writes.
pub open spec fn digits_value(s: Seq<char>) -> nat
    decreases s.len(),
{
    if s.len() == 0 {
        0
    } else {
        digits_value(s.drop_last()) * 10 + (s.last() as nat - '0' as nat) as nat
    }
}

/// The text after an optional leading `+`.
pub open spec fn unsigned_part(s: Seq<char>) -> Seq<char> {
    if s.len() > 0 && s[0] == '+' {
        s.skip(1)
    } else {
        s
    }
}

pub open spec fn all_digits(d: Seq<char>) -> bool {
    forall|i: int| 0 <= i < d.len() ==> is_digit(#[trigger] d[i])
}

/// A port number written in decimal: an optional `+`, then one or more
/// digits whose value fits in 16 bits.
pub open spec fn decimal_u16(s: Seq<char>) -> Option<u16> {
    let d = unsigned_part(s);
    if d.len() > 0 && all_digits(d) && digits_value(d) <= u16::MAX {
        Some(digits_value(d) as u16)
    } else {
        None
    }
}

/// The connection URL of the database.
pub open spec fn database_url_of(
    user: Seq<char>,
    password: Seq<char>,
    host: Seq<char>,
    port: Seq<char>,
    name: Seq<char>,
) -> Seq<char> {
    "postgres://"@ + user + ":"@ + password + "@"@ + host + ":"@ + port + "/"@ + name
}

proof fn lemma_prefix_value_le(s: Seq<char>, j: int)
    requires
        0 <= j <= s.len(),
        forall|i: int| 0 <= i < s.len() ==> is_digit(#[trigger] s[i]),
    ensures
        digits_value(s.subrange(0, j)) <= digits_value(s),
    decreases s.len() - j,
{
    if j < s.len() {
        lemma_prefix_value_le(s, j + 1);
        assert(s.subrange(0, j + 1).drop_last() =~= s.subrange(0, j));
    } else {
        assert(s.subrange(0, j) =~= s);
    }
}

/// Reads a port number written in decimal.
pub fn parse_u16(s: &str) -> (r: Option<u16>)
    ensures
        r == decimal_u16(s@),
{
    let n = s.unicode_len();
    let start: usize = if n > 0 && s.get_char(0) == '+' {
        1
    } else {
        0
    };
    let ghost d = unsigned_part(s@);
    assert(d =~= s@.subrange(start as int, n as int));
    if start == n {
        return None;
    }
    let mut acc: u32 = 0;
    let mut i: usize = start;
    while i < n
        invariant
            start <= i <= n == s@.len(),
            d =~= s@.subrange(start as int, n as int),
            d == unsigned_part(s@),
            forall|k: int| 0 <= k < i - start ==> is_digit(#[trigger] d[k]),
            acc == digits_value(d.subrange(0, i - start)),
            acc <= u16::MAX,
        decreases n - i,
    {
        let c = s.get_char(i);
        assert(c == d[i - start]);
        if !('0' <= c && c <= '9') {
            assert(!is_digit(d[i - start]));
            assert(!all_digits(d));
            return None;
        }
        let ghost pre = d.subrange(0, i - start);
        let ghost next_pre = d.subrange(0, i + 1 - start);
        assert(next_pre.drop_last() =~= pre);
        assert(next_pre.last() == c);
        assert(digits_value(next_pre) == digits_value(pre) * 10 + (c as nat - '0' as nat));
        acc = acc * 10 + (c as u32 - '0' as u32);
        i += 1;
        if acc > 65535 {
            proof {
                if all_digits(d) {
                    lemma_prefix_value_le(d, i - start);
                    assert(digits_value(d) > u16::MAX);
                }
                assert(decimal_u16(s@) is None);
            }
            return None;
        }
    }
    assert(d.subrange(0, i - start) =~= d);
    Some(acc as u16)
}

impl Config {
    /// Builds the settings from their text values; a port that is not a
    /// valid number is an error.
    pub fn from_values(
        db_user: &str,
        db_password: &str,
        db_host: &str,
        db_port: &str,
        db_name: &str,
        port: &str,
        mqtt_host: &str,
        mqtt_port: &str,
        mqtt_client_id: &str,
        mqtt_topic: &str,
    ) -> (r: Result<Config, ConfigError>)
        ensures
            decimal_u16(port@) is None ==> r == Err::<Config, ConfigError>(ConfigError::InvalidPort),
            decimal_u16(port@) is Some && decimal_u16(mqtt_port@) is None ==> r == Err::<
                Config,
                ConfigError,
            >(ConfigError::InvalidMqttPort),
            decimal_u16(port@) is Some && decimal_u16(mqtt_port@) is Some ==> (r matches Ok(c) && c.database_url@
                == database_url_of(db_user@, db_password@, db_host@, db_port@, db_name@) && Some(c.port)
                == decimal_u16(port@) && c.mqtt_host@ == mqtt_host@ && Some(c.mqtt_port)
                == decimal_u16(mqtt_port@) && c.mqtt_client_id@ == mqtt_client_id@ && c.mqtt_topic@
                == mqtt_topic@),
    {
        let port = match parse_u16(port) {
            Some(p) => p,
            None => return Err(ConfigError::InvalidPort),
        };
        let mqtt_port = match parse_u16(mqtt_port) {
            Some(p) => p,
            None => return Err(ConfigError::InvalidMqttPort),
        };
        let mut url = String::from_str("postgres://");
        url.append(db_user);
        url.append(":");
        url.append(db_password);
        url.append("@");
        url.append(db_host);
        url.append(":");
        url.append(db_port);
        url.append("/");
        url.append(db_name);
        Ok(Config {
            database_url: url,
            port,
            mqtt_host: String::from_str(mqtt_host),
            mqtt_port,
            mqtt_client_id: String::from_str(mqtt_client_id),
            mqtt_topic: String::from_str(mqtt_topic),
        })
    }
}

} // verus!
