//! The exchange a run talks to, and the credentials it needs. The network
//! adapters themselves live outside the verified core.

use vstd::prelude::*;

verus! {

#[derive(Clone, Copy, PartialEq, Eq, Structural, Debug)]
pub enum ExchangeName {
    Bybit,
    Bitbank,
    Bitflyer,
}

impl ExchangeName {
    pub fn as_str(&self) -> (r: &'static str)
        ensures
            match self {
                ExchangeName::Bybit => r@ == "bybit"@,
                ExchangeName::Bitbank => r@ == "bitbank"@,
                ExchangeName::Bitflyer => r@ == "bitflyer"@,
            },
    {
        match self {
            ExchangeName::Bybit => "bybit",
            ExchangeName::Bitbank => "bitbank",
            ExchangeName::Bitflyer => "bitflyer",
        }
    }
}

/// Which venue to talk to and with which credentials.
#[derive(Clone, Debug)]
pub struct Config {
    pub name: ExchangeName,
    pub key: String,
    pub secret: String,
    pub passphrase: Option<String>,
    pub category: Option<String>,
}

impl Config {
    pub fn new(name: ExchangeName, key: String, secret: String, passphrase: Option<String>) -> (c:
        Config)
        ensures
            c.name == name,
            c.key == key,
            c.secret == secret,
            c.passphrase == passphrase,
            c.category is None,
    {
        Config { name, key, secret, passphrase, category: None }
    }

    /// Every venue currently demands a key and a secret.
    pub open spec fn spec_is_ok(self) -> bool {
        self.key@.len() > 0 && self.secret@.len() > 0
    }

    pub fn is_ok(&self) -> (r: bool)
        ensures
            r == self.spec_is_ok(),
    {
        if self.key.as_str().is_empty() || self.secret.as_str().is_empty() {
            return false;
        }
        true
    }
}

} // verus!
