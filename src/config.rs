use vstd::prelude::*;
use vstd::string::*;

verus! {

/// Whether every character of `d` is an ASCII decimal digit, and there is one at least.
pub open spec fn all_digits(d: Seq<char>) -> bool {
    d.len() > 0 && forall|i: int| 0 <= i < d.len() ==> '0' <= #[trigger] d[i] && d[i] <= '9'
}

/// The value of a string of decimal digits.
pub open spec fn digits_value(d: Seq<char>) -> int
    decreases d.len(),
{
    if d.len() == 0 {
        0
    } else {
        digits_value(d.drop_last()) * 10 + (d.last() as int - '0' as int)
    }
}

/// The integer that `s` writes in decimal, with an optional sign.
pub open spec fn signed_decimal(s: Seq<char>) -> Option<int> {
    if s.len() > 0 && s[0] == '-' && all_digits(s.drop_first()) {
        Some(-digits_value(s.drop_first()))
    } else if s.len() > 0 && s[0] == '+' && all_digits(s.drop_first()) {
        Some(digits_value(s.drop_first()))
    } else if all_digits(s) {
        Some(digits_value(s))
    } else {
        None
    }
}

/// What parsing `s` as an `i32` gives: its decimal value when it fits.
pub open spec fn parsed_i32(s: Seq<char>) -> Option<i32> {
    match signed_decimal(s) {
        Some(v) => if i32::MIN <= v <= i32::MAX {
            Some(v as i32)
        } else {
            None
        },
        None => None,
    }
}

/// Relies on `<i32 as FromStr>::from_str`: an optional `+` or `-`, then one or
/// more ASCII digits, whose value fits in an `i32`; anything else is an error.
#[verifier::external_body]
fn parse_i32(s: &str) -> (r: Option<i32>)
    ensures
        r == parsed_i32(s@),
{
    s.parse::<i32>().ok()
}

pub const DEFAULT_QOS: i32 = 0;

/// The process parameters of the bridge.
pub struct Config {
    pub mqtt_host: String,
    pub mqtt_topic_prefix: String,
    pub mqtt_qos: i32,
    pub serial_port: String,
}

pub open spec fn default_host() -> Seq<char> {
    "tcp://10.10.10.13:1883"@
}

pub open spec fn default_prefix() -> Seq<char> {
    "dsmr"@
}

pub open spec fn default_port() -> Seq<char> {
    "/dev/ttyUSB1"@
}

/// The value of a setting: the given text when there is one, else the default.
pub open spec fn setting_or(given: Option<String>, default: Seq<char>) -> Seq<char> {
    match given {
        Some(s) => s@,
        None => default,
    }
}

/// The quality level of a setting: its value when it parses as an `i32`, else the default.
pub open spec fn qos_setting(given: Option<String>) -> i32 {
    match given {
        Some(s) => match parsed_i32(s@) {
            Some(q) => q,
            None => DEFAULT_QOS,
        },
        None => DEFAULT_QOS,
    }
}

fn text_or(given: Option<String>, default: &str) -> (r: String)
    ensures
        r@ == setting_or(given, default@),
{
    match given {
        Some(s) => s,
        None => default.to_owned(),
    }
}

impl Default for Config {
    fn default() -> (r: Self)
        ensures
            r.mqtt_host@ == default_host(),
            r.mqtt_topic_prefix@ == default_prefix(),
            r.mqtt_qos == DEFAULT_QOS,
            r.serial_port@ == default_port(),
    {
        Config {
            mqtt_host: "tcp://10.10.10.13:1883".to_owned(),
            mqtt_topic_prefix: "dsmr".to_owned(),
            mqtt_qos: DEFAULT_QOS,
            serial_port: "/dev/ttyUSB1".to_owned(),
        }
    }
}

impl Config {
    /// Resolves the configuration from the settings that were given: each one
    /// that is missing takes its default, and so does a quality level that is
    /// not an integer.
    pub fn resolve(
        host: Option<String>,
        topic_prefix: Option<String>,
        qos: Option<String>,
        serial_port: Option<String>,
    ) -> (r: Config)
        ensures
            r.mqtt_host@ == setting_or(host, default_host()),
            r.mqtt_topic_prefix@ == setting_or(topic_prefix, default_prefix()),
            r.mqtt_qos == qos_setting(qos),
            r.serial_port@ == setting_or(serial_port, default_port()),
    {
        let q = match &qos {
            Some(s) => match parse_i32(s.as_str()) {
                Some(v) => v,
                None => DEFAULT_QOS,
            },
            None => DEFAULT_QOS,
        };
        Config {
            mqtt_host: text_or(host, "tcp://10.10.10.13:1883"),
            mqtt_topic_prefix: text_or(topic_prefix, "dsmr"),
            mqtt_qos: q,
            serial_port: text_or(serial_port, "/dev/ttyUSB1"),
        }
    }
}

} // verus!
