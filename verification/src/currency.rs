//! Parsing of currency symbols.
//!
//! A symbol is uppercased with the Unicode rules and matched against
//! the known tokens, so the command line may pass it in either case.

use vstd::prelude::*;
use vstd::string::StringExecFns;

use crate::error::Error;

verus! {

/// A token the chain knows by symbol.
#[derive(Clone, Copy, Debug, PartialEq, Eq, Structural)]
pub enum TokenSymbol {
    /// Polkadot's token.
    DOT,
    /// The wrapped token on the Polkadot network.
    IBTC,
    /// The native token on the Polkadot network.
    INTR,
    /// Kusama's token.
    KSM,
    /// The wrapped token on the Kusama network.
    KBTC,
    /// The native token on the Kusama network.
    KINT,
}

/// A currency: one of the chain's tokens.
#[derive(Clone, Copy, Debug, PartialEq, Eq, Structural)]
pub enum CurrencyId {
    /// A token currency.
    Token(TokenSymbol),
}

/// The Unicode uppercase of a string, as `str::to_uppercase` folds it.
pub uninterp spec fn upper_of(s: Seq<char>) -> Seq<char>;

/// Relies on str::to_uppercase: the Unicode uppercase of the string,
/// locale-independent, a function of its characters alone.
#[verifier::external_body]
fn to_upper(s: &str) -> (r: String)
    ensures
        r@ == upper_of(s@),
{
    s.to_uppercase()
}

/// Whether the uppercased string reads as the given symbol.
fn upper_is(upper: &String, symbol: &str) -> (r: bool)
    ensures
        r == (upper@ == symbol@),
{
    let symbol_owned = String::from_str(symbol);
    *upper == symbol_owned
}

/// What `parse_native_currency` returns for a given input.
pub open spec fn parse_native_spec(s: Seq<char>) -> Result<CurrencyId, Error> {
    if upper_of(s) == "KINT"@ {
        Ok(CurrencyId::Token(TokenSymbol::KINT))
    } else if upper_of(s) == "INTR"@ {
        Ok(CurrencyId::Token(TokenSymbol::INTR))
    } else {
        Err(Error::InvalidCurrency)
    }
}

/// What `parse_collateral_currency` returns for a given input.
pub open spec fn parse_collateral_spec(s: Seq<char>) -> Result<CurrencyId, Error> {
    if upper_of(s) == "KSM"@ {
        Ok(CurrencyId::Token(TokenSymbol::KSM))
    } else if upper_of(s) == "DOT"@ {
        Ok(CurrencyId::Token(TokenSymbol::DOT))
    } else {
        parse_native_spec(s)
    }
}

/// What `parse_wrapped_currency` returns for a given input.
pub open spec fn parse_wrapped_spec(s: Seq<char>) -> Result<CurrencyId, Error> {
    if upper_of(s) == "KBTC"@ {
        Ok(CurrencyId::Token(TokenSymbol::KBTC))
    } else if upper_of(s) == "IBTC"@ {
        Ok(CurrencyId::Token(TokenSymbol::IBTC))
    } else {
        Err(Error::InvalidCurrency)
    }
}

/// Parses a native token symbol, uppercasing the input first.
pub fn parse_native_currency(src: &str) -> (r: Result<CurrencyId, Error>)
    ensures
        r == parse_native_spec(src@),
{
    let upper = to_upper(src);
    if upper_is(&upper, "KINT") {
        Ok(CurrencyId::Token(TokenSymbol::KINT))
    } else if upper_is(&upper, "INTR") {
        Ok(CurrencyId::Token(TokenSymbol::INTR))
    } else {
        Err(Error::InvalidCurrency)
    }
}

/// Parses a collateral token symbol, uppercasing the input first; a
/// symbol that is no collateral token is tried as a native token.
pub fn parse_collateral_currency(src: &str) -> (r: Result<CurrencyId, Error>)
    ensures
        r == parse_collateral_spec(src@),
{
    let upper = to_upper(src);
    if upper_is(&upper, "KSM") {
        Ok(CurrencyId::Token(TokenSymbol::KSM))
    } else if upper_is(&upper, "DOT") {
        Ok(CurrencyId::Token(TokenSymbol::DOT))
    } else {
        parse_native_currency(src)
    }
}

/// Parses a wrapped token symbol, uppercasing the input first.
pub fn parse_wrapped_currency(src: &str) -> (r: Result<CurrencyId, Error>)
    ensures
        r == parse_wrapped_spec(src@),
{
    let upper = to_upper(src);
    if upper_is(&upper, "KBTC") {
        Ok(CurrencyId::Token(TokenSymbol::KBTC))
    } else if upper_is(&upper, "IBTC") {
        Ok(CurrencyId::Token(TokenSymbol::IBTC))
    } else {
        Err(Error::InvalidCurrency)
    }
}

} // verus!
