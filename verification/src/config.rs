//! Where the service listens: an address and a port, each taken from a
//! setting of the environment or, where that is unset, from a default.
//!
//! Reading the environment is the caller's business. [`resolve`] takes what
//! was found there and either yields the configuration or names the setting
//! that could not be read; it never falls back to a default for a setting
//! that is present.

use crate::address::{address_of, address_text, lemma_address_round_trip, Ipv4Address};
use crate::text::{
    all_digits, chars_of, decimal_text, decimal_value, is_digit, is_whitespace,
    lemma_decimal_text, lemma_digit_run_end, lemma_trimmed_numeral, lemma_trimmed_padding,
    push_decimal, scan_number, trim, trimmed,
};
use vstd::prelude::*;
use vstd::string::StringExecFns;

verus! {

/// The name of the setting that overrides the address.
pub const HOST_VARIABLE: &'static str = "SCHMFY_HOST";

/// The name of the setting that overrides the port.
pub const PORT_VARIABLE: &'static str = "SCHMFY_PORT";

/// The port to listen on where none is set.
pub const DEFAULT_PORT: u16 = 8000;

/// One of the two settings.
#[derive(Clone, Copy, Debug, PartialEq, Eq, Structural)]
pub enum Variable {
    /// The address to listen on.
    Host,
    /// The port to listen on.
    Port,
}

/// The address and port to listen on.
#[derive(Clone, Copy, Debug, PartialEq, Eq, Structural)]
pub struct Configuration {
    pub address: Ipv4Address,
    pub port: u16,
}

/// A setting that is present and cannot be read.
#[derive(Clone, Debug, PartialEq, Eq)]
pub struct ConfigError {
    /// The setting at fault.
    pub variable: Variable,
    /// What it was set to.
    pub value: String,
}

/// The port that `s` denotes: an optional `+`, then one or more digits whose
/// value is at most 65535. Leading zeros are accepted; anything else in the
/// string, whitespace included, is not.
pub open spec fn port_of(s: Seq<char>) -> Option<u16> {
    let digits = if s.len() > 0 && s[0] == '+' {
        s.drop_first()
    } else {
        s
    };
    if digits.len() > 0 && all_digits(digits) && decimal_value(digits) <= 65535 {
        Some(decimal_value(digits) as u16)
    } else {
        None
    }
}

/// The address to listen on where none is set: every interface.
pub open spec fn default_address() -> Ipv4Address {
    Ipv4Address(0, 0, 0, 0)
}

/// The configuration where nothing is set.
pub open spec fn default_configuration() -> Configuration {
    Configuration { address: default_address(), port: DEFAULT_PORT }
}

/// The address that a setting yields: the default where it is unset, else
/// the address it is the text of.
pub open spec fn address_setting(host: Option<Seq<char>>) -> Option<Ipv4Address> {
    match host {
        None => Some(default_address()),
        Some(text) => address_of(text),
    }
}

/// The port that a setting yields: the default where it is unset, else the
/// port that it denotes once the whitespace around it is removed.
pub open spec fn port_setting(port: Option<Seq<char>>) -> Option<u16> {
    match port {
        None => Some(DEFAULT_PORT),
        Some(text) => port_of(trimmed(text)),
    }
}

/// The configuration that the two settings yield, or the setting at fault.
/// The address is looked at first.
pub open spec fn resolved(host: Option<Seq<char>>, port: Option<Seq<char>>) -> Result<
    Configuration,
    Variable,
> {
    match address_setting(host) {
        None => Err(Variable::Host),
        Some(address) => match port_setting(port) {
            None => Err(Variable::Port),
            Some(number) => Ok(Configuration { address, port: number }),
        },
    }
}

/// The characters of a setting, if it is set.
pub open spec fn setting_text(setting: Option<&str>) -> Option<Seq<char>> {
    match setting {
        None => None,
        Some(text) => Some(text@),
    }
}

/// The text of the address and port together, as `address:port`.
pub open spec fn endpoint_text(configuration: Configuration) -> Seq<char> {
    address_text(configuration.address) + seq![':'] + decimal_text(configuration.port as nat)
}

/// The port that `s` denotes, if it denotes one.
pub fn parse_port(s: &str) -> (r: Option<u16>)
    ensures
        r == port_of(s@),
{
    let chars = chars_of(s);
    let n: usize = chars.len();
    let start: usize = if n > 0 && chars[0] == '+' {
        1
    } else {
        0
    };
    let (end, value) = scan_number(chars.as_slice(), start, 65535);
    proof {
        let digits = chars@.subrange(start as int, n as int);
        assert(digits =~= if start == 1 {
            chars@.drop_first()
        } else {
            chars@
        });
        lemma_digit_run_end(chars@, start as int);
        if end == n {
            assert forall|i: int| 0 <= i < digits.len() implies is_digit(#[trigger] digits[i]) by {
                assert(digits[i] == chars@[start + i]);
            }
        } else {
            assert(digits[end - start] == chars@[end as int]);
        }
    }
    if end == n && end > start {
        match value {
            Some(v) => Some(v as u16),
            None => None,
        }
    } else {
        None
    }
}

/// The configuration that the two settings yield.
///
/// `host` and `port` are what the environment holds under
/// [`HOST_VARIABLE`] and [`PORT_VARIABLE`], `None` for one that is unset. A
/// setting that is present must be readable: the error names the first one
/// that is not, and carries what it was set to.
pub fn resolve(host: Option<&str>, port: Option<&str>) -> (r: Result<Configuration, ConfigError>)
    ensures
        match r {
            Ok(configuration) => resolved(setting_text(host), setting_text(port)) == Ok::<
                Configuration,
                Variable,
            >(configuration),
            Err(error) => {
                &&& resolved(setting_text(host), setting_text(port)) == Err::<
                    Configuration,
                    Variable,
                >(error.variable)
                &&& error.variable == Variable::Host ==> host is Some && error.value@ == host->0@
                &&& error.variable == Variable::Port ==> port is Some && error.value@ == port->0@
            },
        },
{
    let address = match host {
        None => Ipv4Address(0, 0, 0, 0),
        Some(text) => match Ipv4Address::parse(text) {
            Some(address) => address,
            None => {
                return Err(ConfigError { variable: Variable::Host, value: text.to_owned() });
            },
        },
    };
    let number = match port {
        None => DEFAULT_PORT,
        Some(text) => match parse_port(trim(text)) {
            Some(number) => number,
            None => {
                return Err(ConfigError { variable: Variable::Port, value: text.to_owned() });
            },
        },
    };
    Ok(Configuration { address, port: number })
}

impl Variable {
    /// The name under which the environment holds the setting.
    pub fn name(&self) -> (r: &'static str)
        ensures
            r@ == match *self {
                Variable::Host => HOST_VARIABLE@,
                Variable::Port => PORT_VARIABLE@,
            },
    {
        match self {
            Variable::Host => HOST_VARIABLE,
            Variable::Port => PORT_VARIABLE,
        }
    }
}

impl ConfigError {
    /// What went wrong, in a sentence.
    pub fn description(&self) -> (r: &'static str)
        ensures
            r@ == match self.variable {
                Variable::Host => "could not parse HOST_ADDRESS as IPv4 address"@,
                Variable::Port => "could not parse HOST_PORT as port number"@,
            },
    {
        match self.variable {
            Variable::Host => "could not parse HOST_ADDRESS as IPv4 address",
            Variable::Port => "could not parse HOST_PORT as port number",
        }
    }
}

impl Default for Configuration {
    /// Every interface, on the default port.
    fn default() -> (r: Configuration)
        ensures
            r == default_configuration(),
    {
        Configuration { address: Ipv4Address(0, 0, 0, 0), port: DEFAULT_PORT }
    }
}

impl Configuration {
    /// The address and port as `address:port`.
    pub fn endpoint(&self) -> (r: String)
        ensures
            r@ == endpoint_text(*self),
    {
        let mut out = self.address.to_text();
        out.push(':');
        push_decimal(&mut out, self.port);
        proof {
            assert(out@ =~= endpoint_text(*self));
        }
        out
    }

    /// The line to report when the listener cannot be bound.
    pub fn bind_failure(&self) -> (r: String)
        ensures
            r@ == "could not bind to port "@ + endpoint_text(*self),
    {
        let mut out = String::from_str("could not bind to port ");
        let endpoint = self.endpoint();
        out.append(endpoint.as_str());
        out
    }
}

/// Every port is read back from its own numeral.
pub proof fn lemma_port_round_trip(port: u16)
    ensures
        port_of(decimal_text(port as nat)) == Some(port),
{
    let t = decimal_text(port as nat);
    lemma_decimal_text(port as nat);
    assert(is_digit(t[0]));
}

/// Every address and every port, written out, resolve to themselves; so
/// does the port with whitespace around its numeral.
pub proof fn lemma_resolve_round_trip(
    address: Ipv4Address,
    port: u16,
    before: Seq<char>,
    after: Seq<char>,
)
    requires
        forall|i: int| 0 <= i < before.len() ==> is_whitespace(#[trigger] before[i]),
        forall|i: int| 0 <= i < after.len() ==> is_whitespace(#[trigger] after[i]),
    ensures
        resolved(Some(address_text(address)), Some(decimal_text(port as nat))) == Ok::<
            Configuration,
            Variable,
        >(Configuration { address, port }),
        resolved(
            Some(address_text(address)),
            Some(before + decimal_text(port as nat) + after),
        ) == Ok::<Configuration, Variable>(Configuration { address, port }),
{
    let numeral = decimal_text(port as nat);
    lemma_address_round_trip(address, address_text(address));
    lemma_port_round_trip(port);
    lemma_trimmed_numeral(port as nat);
    lemma_decimal_text(port as nat);
    assert(is_digit(numeral.first()));
    assert(is_digit(numeral.last()));
    lemma_trimmed_padding(before, numeral, after);
}

/// What is resolved is what the settings say: a setting that is present is
/// never replaced by a default, and one that cannot be read is an error.
pub proof fn lemma_resolve_faithful(host: Option<Seq<char>>, port: Option<Seq<char>>)
    ensures
        resolved(host, port) matches Ok(configuration) ==> {
            &&& host matches Some(text) ==> text == address_text(configuration.address)
            &&& port matches Some(text) ==> port_of(trimmed(text)) == Some(configuration.port)
            &&& host is None ==> configuration.address == default_address()
            &&& port is None ==> configuration.port == DEFAULT_PORT
        },
        resolved(host, port) is Err <==> {
            ||| host matches Some(text) && address_of(text) is None
            ||| port matches Some(text) && port_of(trimmed(text)) is None
        },
        resolved(host, port) == Err::<Configuration, Variable>(Variable::Host) <==> (host matches Some(
            text,
        ) && address_of(text) is None),
{
    match host {
        Some(text) => match address_of(text) {
            Some(address) => {
                lemma_address_round_trip(address, text);
            },
            None => {},
        },
        None => {},
    }
}

/// Where neither setting is present, the defaults hold.
pub proof fn lemma_resolve_unset()
    ensures
        resolved(None, None) == Ok::<Configuration, Variable>(default_configuration()),
        default_configuration() == (Configuration { address: Ipv4Address(0, 0, 0, 0), port: 8000 }),
{
}

} // verus!
