use exchange_bot::query::parse_exchange_args;

fn stringify(a: &str, b: &str, c: &str) -> (String, String, String) {
    (a.into(), b.into(), c.into())
}

#[test]
fn parse_valid_ex_args_with_equal() {
    assert_eq!(
        parse_exchange_args("USD=TWD").unwrap(),
        stringify("", "USD", "TWD")
    );
    assert_eq!(
        parse_exchange_args("99USD=TWD").unwrap(),
        stringify("99", "USD", "TWD")
    );
    assert_eq!(
        parse_exchange_args("55.66USD=TWD").unwrap(),
        stringify("55.66", "USD", "TWD")
    );
}

#[test]
fn parse_valid_ex_args_with_whitespace() {
    assert_eq!(
        parse_exchange_args("USD TWD").unwrap(),
        stringify("", "USD", "TWD")
    );
    assert_eq!(
        parse_exchange_args("99 USD=TWD").unwrap(),
        stringify("99", "USD", "TWD")
    );
    assert_eq!(
        parse_exchange_args("99 USD TWD").unwrap(),
        stringify("99", "USD", "TWD")
    );
    assert_eq!(
        parse_exchange_args("55.66 USD TWD").unwrap(),
        stringify("55.66", "USD", "TWD")
    );
    assert_eq!(
        parse_exchange_args("  55.66   USD   TWD   ").unwrap(),
        stringify("55.66", "USD", "TWD")
    );
    assert_eq!(
        parse_exchange_args("\n   55.66 \t  USD  \t\n  TWD  \n ").unwrap(),
        stringify("55.66", "USD", "TWD")
    );
}

#[test]
fn parse_invalid_ex_args() {
    assert_eq!(parse_exchange_args("TWD"), None);
    assert_eq!(parse_exchange_args("=TWD"), None);
    assert_eq!(parse_exchange_args("99TWD"), None);
    assert_eq!(parse_exchange_args("99TWD="), None);
    assert_eq!(parse_exchange_args("99FUTAFUTA=TWD"), None);
    assert_eq!(parse_exchange_args("99TWD=FUTAFUTA"), None);
}

#[test]
fn whitespace_and_equal_forms_agree() {
    assert_eq!(parse_exchange_args("99 USD TWD"), parse_exchange_args("99USD=TWD"));
    assert_eq!(
        parse_exchange_args("  55.66   USD   TWD   "),
        parse_exchange_args("55.66USD=TWD")
    );
    assert_eq!(parse_exchange_args("USD = TWD"), Some(stringify("", "USD", "TWD")));
    assert_eq!(parse_exchange_args("USD= TWD"), Some(stringify("", "USD", "TWD")));
}

#[test]
fn codes_keep_their_case() {
    assert_eq!(parse_exchange_args("10usd=Twd"), Some(stringify("10", "usd", "Twd")));
}

#[test]
fn code_length_bounds() {
    assert_eq!(parse_exchange_args("ABCD=TWD"), Some(stringify("", "ABCD", "TWD")));
    assert_eq!(parse_exchange_args("ABCDE=TWD"), None);
    assert_eq!(parse_exchange_args("USD=T"), Some(stringify("", "USD", "T")));
    assert_eq!(parse_exchange_args("USD=T$1.x"), Some(stringify("", "USD", "T$1.x")));
    assert_eq!(parse_exchange_args("USD=ABCDEF"), None);
    assert_eq!(parse_exchange_args("USD=1TWD"), None);
}

#[test]
fn malformed_amounts_and_separators() {
    assert_eq!(parse_exchange_args(""), None);
    assert_eq!(parse_exchange_args("   "), None);
    assert_eq!(parse_exchange_args("99"), None);
    assert_eq!(parse_exchange_args("1=TWD"), None);
    assert_eq!(parse_exchange_args("55.USD=TWD"), None);
    assert_eq!(parse_exchange_args(".5USD=TWD"), None);
    assert_eq!(parse_exchange_args("1.2.3USD=TWD"), None);
    assert_eq!(parse_exchange_args("USD==TWD"), None);
    assert_eq!(parse_exchange_args("USD TWD EUR"), None);
    assert_eq!(parse_exchange_args("0.5 usd\ttwd"), Some(stringify("0.5", "usd", "twd")));
}
