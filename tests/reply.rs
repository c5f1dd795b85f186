use exchange_bot::exchange::Symbols;
use exchange_bot::reply::{
    decide, handle_command, handle_ex_command, rate_message, rate_message_upper, validate, Reply,
    INVALID_FORMAT,
};

fn table(codes: &[&str]) -> Symbols {
    let mut symbols = Symbols::new();
    for code in codes {
        symbols.insert(code.to_string(), format!("{} name", code));
    }
    symbols
}

fn unsupported(code: &str) -> Reply {
    Reply::Unsupported(code.to_string())
}

#[test]
fn unknown_source_is_named_as_written() {
    let support = table(&["TWD"]);
    assert_eq!(handle_ex_command("USD=TWD", &support), unsupported("USD"));
    assert_eq!(handle_ex_command("99USD=TWD", &support), unsupported("USD"));
    assert_eq!(handle_ex_command("99usd=TWD", &support), unsupported("usd"));
    assert_eq!(
        unsupported("usd").message(),
        Some("不支援的幣別 `usd`".to_string())
    );
}

#[test]
fn unknown_target_is_checked_after_source() {
    let support = table(&["TWD"]);
    assert_eq!(handle_ex_command("TWD=USD", &support), unsupported("USD"));
    assert_eq!(handle_ex_command("99TWD=USD", &support), unsupported("USD"));
    assert_eq!(handle_ex_command("55.66TWD=USD", &support), unsupported("USD"));
    assert_eq!(handle_ex_command("twd=usd", &support), unsupported("usd"));
    assert_eq!(handle_ex_command("EUR=USD", &support), unsupported("EUR"));
}

#[test]
fn empty_table_rejects_the_source_first() {
    let support = Symbols::new();
    assert_eq!(handle_ex_command("USD=TWD", &support), unsupported("USD"));
    assert_eq!(handle_ex_command("5 twd usd", &support), unsupported("twd"));
}

#[test]
fn invalid_format_reply() {
    let support = table(&["TWD", "USD"]);
    assert_eq!(handle_ex_command("", &support), Reply::Invalid);
    assert_eq!(handle_ex_command("99", &support), Reply::Invalid);
    assert_eq!(handle_ex_command("1=TWD", &support), Reply::Invalid);
    assert_eq!(Reply::Invalid.message(), Some(INVALID_FORMAT.to_string()));
    assert_eq!(
        Reply::Invalid.message().unwrap(),
        "不合法的格式, 應為 `{Amount?}{From}={Target}` 或 `{Amount?}{From} {Target}`"
    );
}

#[test]
fn supported_codes_lead_to_a_conversion() {
    let support = table(&["TWD", "USD"]);
    let reply = handle_ex_command(" 55.66usd = twd ", &support);
    assert_eq!(
        reply,
        Reply::Convert {
            amount: "55.66".to_string(),
            from: "usd".to_string(),
            to: "twd".to_string()
        }
    );
    assert_eq!(reply.message(), None);
}

#[test]
fn replies_are_repeatable() {
    let support = table(&["TWD"]);
    for args in ["USD=TWD", "TWD=USD", "TWD TWD", "nonsense"] {
        assert_eq!(handle_ex_command(args, &support), handle_ex_command(args, &support));
    }
}

#[test]
fn messages_go_through_the_command() {
    let support = table(&["TWD"]);
    assert_eq!(handle_command("/ec USD=TWD", &support), Some(unsupported("USD")));
    assert_eq!(handle_command("/ec ", &support), Some(Reply::Invalid));
    assert_eq!(handle_command("/ecUSD=TWD", &support), None);
    assert_eq!(handle_command("/start", &support), None);
}

#[test]
fn validation_with_given_upper_case_forms() {
    let support = table(&["TWD", "USD"]);
    let s = |x: &str| x.to_string();
    assert_eq!(
        decide(s("1"), s("usd"), s("twd"), &s("USD"), &s("TWD"), &support),
        Reply::Convert { amount: s("1"), from: s("usd"), to: s("twd") }
    );
    assert_eq!(
        decide(s("1"), s("usd"), s("twd"), &s("usd"), &s("TWD"), &support),
        unsupported("usd")
    );
    assert_eq!(
        decide(s("1"), s("usd"), s("twd"), &s("USD"), &s("twd"), &support),
        unsupported("twd")
    );
    assert_eq!(validate(s(""), s("usd"), s("Twd"), &support), Reply::Convert {
        amount: s(""),
        from: s("usd"),
        to: s("Twd")
    });
}

#[test]
fn rate_text_shows_upper_case_codes() {
    assert_eq!(
        rate_message("55.66", "usd", "twd", "1712.34"),
        "`55.66` `USD` 對 `TWD` 的匯率為 `1712.34` "
    );
    assert_eq!(
        rate_message_upper("", "USD", "TWD", "31.00"),
        "`` `USD` 對 `TWD` 的匯率為 `31.00` "
    );
}
