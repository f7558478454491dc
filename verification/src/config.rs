//! Connection settings for the HTTP server, ClickHouse and MQTT, their
//! defaults when a setting is absent from the environment, and the MQTT
//! topic names derived from them.
use vstd::prelude::*;
use crate::text::{append_decimal, decimal, digit_char, push_char};

verus! {

/// Where the HTTP server listens.
#[derive(Debug, Clone, PartialEq, Eq)]
pub struct ServerConfig {
    pub host: String,
    pub port: u16,
}

/// How to reach ClickHouse.
#[derive(Debug, Clone, PartialEq, Eq)]
pub struct ClickHouseConfig {
    pub url: String,
    pub user: String,
    pub password: String,
    pub database: String,
}

/// How to reach the MQTT broker and which topics to publish on.
#[derive(Debug, Clone, PartialEq, Eq)]
pub struct MqttConfig {
    pub broker: String,
    pub port: u16,
    pub client_id: String,
    pub username: Option<String>,
    pub password: Option<String>,
    pub alert_topic: String,
    pub sensor_topic: String,
}

/// Whether `c` is an ASCII decimal digit.
pub open spec fn is_digit(c: char) -> bool {
    '0' <= c && c <= '9'
}

/// The value of a string of decimal digits.
pub open spec fn digits_value(s: Seq<char>) -> nat
    decreases s.len(),
{
    if s.len() == 0 {
        0
    } else {
        digits_value(s.drop_last()) * 10 + ((s.last() as nat) - 48) as nat
    }
}

/// The digits of a port text: the text after one leading `+`, if any.
pub open spec fn unsigned_digits(s: Seq<char>) -> Seq<char> {
    if s.len() > 0 && s[0] == '+' {
        s.subrange(1, s.len() as int)
    } else {
        s
    }
}

/// The `u16` a text denotes, as `str::parse::<u16>` reads it: an optional
/// `+`, then one or more decimal digits, with a value of at most 65535.
pub open spec fn parsed_u16(s: Seq<char>) -> Option<u16> {
    let d = unsigned_digits(s);
    if d.len() > 0 && (forall|i: int| 0 <= i < d.len() ==> is_digit(#[trigger] d[i]))
        && digits_value(d) <= 65535 {
        Some(digits_value(d) as u16)
    } else {
        None
    }
}

/// `v` capped at 65536.
pub open spec fn capped(v: nat) -> nat {
    if v > 65536 {
        65536
    } else {
        v
    }
}

proof fn lemma_capped_step(v: nat, d: nat)
    requires
        d < 10,
    ensures
        capped(capped(v) * 10 + d) == capped(v * 10 + d),
{
}

/// Reads a port number as `str::parse::<u16>` does.
pub fn parse_u16(s: &str) -> (r: Option<u16>)
    ensures
        r == parsed_u16(s@),
{
    let n = s.unicode_len();
    let start: usize = if n > 0 && s.get_char(0) == '+' {
        1
    } else {
        0
    };
    let ghost d = unsigned_digits(s@);
    assert(d =~= s@.subrange(start as int, n as int));
    if start >= n {
        return None;
    }
    let mut value: u32 = 0;
    let mut i: usize = start;
    while i < n
        invariant
            n == s@.len(),
            start <= i <= n,
            d == s@.subrange(start as int, n as int),
            d == unsigned_digits(s@),
            forall|j: int| 0 <= j < i - start ==> is_digit(#[trigger] d[j]),
            value == capped(digits_value(d.take(i - start))),
        decreases n - i,
    {
        let c = s.get_char(i);
        assert(d[i - start] == c);
        if c < '0' || c > '9' {
            assert(!is_digit(d[i - start]));
            return None;
        }
        let digit: u32 = (c as u32) - 48;
        proof {
            assert(d.take(i - start + 1).drop_last() =~= d.take(i - start));
            assert(d.take(i - start + 1).last() == c);
            lemma_capped_step(digits_value(d.take(i - start)), digit as nat);
        }
        let next: u32 = value * 10 + digit;
        value = if next > 65536 {
            65536
        } else {
            next
        };
        i = i + 1;
    }
    proof {
        assert(d.take(n - start) =~= d);
    }
    if value > 65535 {
        None
    } else {
        Some(value as u16)
    }
}


/// The digits of a decimal rendering are digits, and read back as the
/// number rendered.
proof fn lemma_decimal_digits(n: nat)
    ensures
        decimal(n).len() > 0,
        forall|i: int| 0 <= i < decimal(n).len() ==> is_digit(#[trigger] decimal(n)[i]),
        digits_value(decimal(n)) == n,
    decreases n,
{
    let d = n % 10;
    assert(digit_char(d) as nat == 48 + d);
    assert(n == (n / 10) * 10 + d);
    let s = decimal(n);
    assert(s.last() == digit_char(d));
    if n < 10 {
        assert(s.drop_last() =~= Seq::<char>::empty());
        assert(digits_value(s.drop_last()) == 0);
    }
    if n >= 10 {
        lemma_decimal_digits(n / 10);
        assert(s.drop_last() =~= decimal(n / 10));
        assert forall|i: int| 0 <= i < s.len() implies is_digit(#[trigger] s[i]) by {
            if i < s.len() - 1 {
                assert(s[i] == decimal(n / 10)[i]);
            }
        }
    }
}

/// A port number written in decimal parses back to itself.
pub proof fn lemma_port_text_round_trip(p: u16)
    ensures
        parsed_u16(decimal(p as nat)) == Some(p),
{
    lemma_decimal_digits(p as nat);
    let s = decimal(p as nat);
    assert(is_digit(s[0]));
    assert(unsigned_digits(s) == s);
}

/// The text of an environment value, or `default` when absent.
pub open spec fn text_or(v: Option<String>, default: Seq<char>) -> Seq<char> {
    match v {
        Some(s) => s@,
        None => default,
    }
}

/// The port an environment value denotes, or `default` when it is absent or
/// does not parse.
pub open spec fn port_or(v: Option<String>, default: u16) -> u16 {
    match v {
        Some(s) => match parsed_u16(s@) {
            Some(p) => p,
            None => default,
        },
        None => default,
    }
}

fn string_or(v: Option<String>, default: &str) -> (r: String)
    ensures
        r@ == text_or(v, default@),
{
    match v {
        Some(s) => s,
        None => String::from_str(default),
    }
}

fn port_value_or(v: Option<String>, default: u16) -> (r: u16)
    ensures
        r == port_or(v, default),
{
    match v {
        Some(s) => match parse_u16(s.as_str()) {
            Some(p) => p,
            None => default,
        },
        None => default,
    }
}

impl ServerConfig {
    /// The server settings from the environment's `SIEGE_SERVER_HOST` and
    /// `SIEGE_SERVER_PORT` values: host `0.0.0.0` and port 8080 by default.
    pub fn from_env_values(host: Option<String>, port: Option<String>) -> (c: ServerConfig)
        ensures
            c.host@ == text_or(host, "0.0.0.0"@),
            c.port == port_or(port, 8080),
    {
        ServerConfig { host: string_or(host, "0.0.0.0"), port: port_value_or(port, 8080) }
    }
}

impl ClickHouseConfig {
    /// The ClickHouse settings from the environment's `SIEGE_CLICKHOUSE_*`
    /// values, each defaulting when absent.
    pub fn from_env_values(
        url: Option<String>,
        user: Option<String>,
        password: Option<String>,
        database: Option<String>,
    ) -> (c: ClickHouseConfig)
        ensures
            c.url@ == text_or(url, "http://localhost:8123"@),
            c.user@ == text_or(user, "default"@),
            c.password@ == text_or(password, ""@),
            c.database@ == text_or(database, "siege_tower"@),
    {
        ClickHouseConfig {
            url: string_or(url, "http://localhost:8123"),
            user: string_or(user, "default"),
            password: string_or(password, ""),
            database: string_or(database, "siege_tower"),
        }
    }
}

impl MqttConfig {
    /// The MQTT settings from the environment's `SIEGE_MQTT_*` values, each
    /// defaulting when absent; user name and password stay absent when
    /// absent.
    pub fn from_env_values(
        broker: Option<String>,
        port: Option<String>,
        client_id: Option<String>,
        username: Option<String>,
        password: Option<String>,
        alert_topic: Option<String>,
        sensor_topic: Option<String>,
    ) -> (c: MqttConfig)
        ensures
            c.broker@ == text_or(broker, "localhost"@),
            c.port == port_or(port, 1883),
            c.client_id@ == text_or(client_id, "siege-tower-server"@),
            c.username == username,
            c.password == password,
            c.alert_topic@ == text_or(alert_topic, "siege_tower/alert"@),
            c.sensor_topic@ == text_or(sensor_topic, "siege_tower/sensor"@),
    {
        MqttConfig {
            broker: string_or(broker, "localhost"),
            port: port_value_or(port, 1883),
            client_id: string_or(client_id, "siege-tower-server"),
            username,
            password,
            alert_topic: string_or(alert_topic, "siege_tower/alert"),
            sensor_topic: string_or(sensor_topic, "siege_tower/sensor"),
        }
    }

    /// The topic for a tower's alerts: the alert topic, `/`, the tower id.
    pub fn alert_topic_for(&self, tower_id: u32) -> (t: String)
        ensures
            t@ == self.alert_topic@ + seq!['/'] + decimal(tower_id as nat),
    {
        let mut t = self.alert_topic.clone();
        push_char(&mut t, '/');
        append_decimal(&mut t, tower_id as u64);
        t
    }

    /// The topic for a tower's sensor data: the sensor topic, `/`, the
    /// tower id.
    pub fn sensor_topic_for(&self, tower_id: u32) -> (t: String)
        ensures
            t@ == self.sensor_topic@ + seq!['/'] + decimal(tower_id as nat),
    {
        let mut t = self.sensor_topic.clone();
        push_char(&mut t, '/');
        append_decimal(&mut t, tower_id as u64);
        t
    }

    /// The credentials to log in with: user name and password when both are
    /// set, none otherwise.
    pub fn credentials(&self) -> (c: Option<(String, String)>)
        ensures
            c matches Some(pair) ==> self.username == Some(pair.0) && self.password == Some(pair.1),
            c is None ==> self.username is None || self.password is None,
    {
        match (&self.username, &self.password) {
            (Some(user), Some(pass)) => Some((user.clone(), pass.clone())),
            _ => None,
        }
    }
}

/// The topic for a tower's analysis results.
pub fn analysis_topic_for(tower_id: u32) -> (t: String)
    ensures
        t@ == "siege_tower/analysis/"@ + decimal(tower_id as nat),
{
    let mut t = String::from_str("siege_tower/analysis/");
    append_decimal(&mut t, tower_id as u64);
    t
}

} // verus!
