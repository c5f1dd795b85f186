use exchange_bot::exchange::{ExchangeClient, Symbols};

#[test]
fn client_addresses() {
    let client = ExchangeClient::new("KEY");
    assert_eq!(client.endpoint, "http://api.exchangerate.host/|req|?access_key=KEY");
    assert_eq!(client.list_url(), "http://api.exchangerate.host/list?access_key=KEY");
    assert_eq!(
        client.convert_url("usd", "twd", "5"),
        "http://api.exchangerate.host/convert&from?access_key=KEY&from=usd&to=twd&amount=5"
    );
}

#[test]
fn symbol_table_lookup() {
    let mut symbols = Symbols::new();
    assert!(!symbols.contains_code(&"TWD".to_string()));
    symbols.insert("TWD".to_string(), "New Taiwan Dollar".to_string());
    symbols.insert("USD".to_string(), "US Dollar".to_string());
    symbols.insert("TWD".to_string(), "Taiwan Dollar".to_string());
    assert!(symbols.contains_code(&"TWD".to_string()));
    assert!(symbols.contains_code(&"USD".to_string()));
    assert!(!symbols.contains_code(&"usd".to_string()));
    assert!(!symbols.contains_code(&"EUR".to_string()));
}
