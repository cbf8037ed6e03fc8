use vaultvisor::currency::{
    parse_collateral_currency, parse_native_currency, parse_wrapped_currency, CurrencyId,
    TokenSymbol,
};
use vaultvisor::error::Error;
use vaultvisor::runtime_types::{InterBtcRuntime, WrapperKeepOpaque};

#[test]
fn collateral_symbols_parse_in_any_case() {
    assert_eq!(
        parse_collateral_currency("KSM"),
        Ok(CurrencyId::Token(TokenSymbol::KSM))
    );
    assert_eq!(
        parse_collateral_currency("ksm"),
        Ok(CurrencyId::Token(TokenSymbol::KSM))
    );
    assert_eq!(
        parse_collateral_currency("dOt"),
        Ok(CurrencyId::Token(TokenSymbol::DOT))
    );
}

#[test]
fn collateral_falls_back_to_native() {
    assert_eq!(
        parse_collateral_currency("kint"),
        Ok(CurrencyId::Token(TokenSymbol::KINT))
    );
    assert_eq!(
        parse_collateral_currency("INTR"),
        Ok(CurrencyId::Token(TokenSymbol::INTR))
    );
}

#[test]
fn native_symbols_parse() {
    assert_eq!(
        parse_native_currency("kInT"),
        Ok(CurrencyId::Token(TokenSymbol::KINT))
    );
    assert_eq!(
        parse_native_currency("intr"),
        Ok(CurrencyId::Token(TokenSymbol::INTR))
    );
}

#[test]
fn wrapped_symbols_parse() {
    assert_eq!(
        parse_wrapped_currency("KBTC"),
        Ok(CurrencyId::Token(TokenSymbol::KBTC))
    );
    assert_eq!(
        parse_wrapped_currency("ibtc"),
        Ok(CurrencyId::Token(TokenSymbol::IBTC))
    );
}

#[test]
fn symbols_fold_by_unicode_uppercase() {
    // The long s and the dotless i uppercase into ASCII letters.
    assert_eq!(
        parse_collateral_currency("k\u{17F}m"),
        Ok(CurrencyId::Token(TokenSymbol::KSM))
    );
    assert_eq!(
        parse_native_currency("k\u{131}nt"),
        Ok(CurrencyId::Token(TokenSymbol::KINT))
    );
    assert_eq!(
        parse_wrapped_currency("\u{131}btc"),
        Ok(CurrencyId::Token(TokenSymbol::IBTC))
    );
}

#[test]
fn unknown_symbols_are_invalid() {
    assert_eq!(parse_collateral_currency("BTC"), Err(Error::InvalidCurrency));
    assert_eq!(parse_native_currency("KSM"), Err(Error::InvalidCurrency));
    assert_eq!(parse_wrapped_currency(""), Err(Error::InvalidCurrency));
    assert_eq!(parse_wrapped_currency("ibtcx"), Err(Error::InvalidCurrency));
}

#[test]
fn opaque_wrapper_keeps_its_bytes() {
    let w: WrapperKeepOpaque<u64> = WrapperKeepOpaque::from_encoded(vec![1, 2, 3]);
    assert_eq!(w.encoded_data(), &vec![1, 2, 3]);
}

#[test]
fn runtime_marker_is_plain() {
    let a = InterBtcRuntime;
    let b = a;
    assert_eq!(a, b);
}
