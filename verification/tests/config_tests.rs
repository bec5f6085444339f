use tradecore::config::{
    AlpacaConfig, BacktestConfig, Config, DataProvider, DataSourceKind, IbConfig, ProviderKind,
};

fn config(provider: &str, source: &str) -> Config {
    Config {
        data_provider: DataProvider { use_provider: provider.to_string() },
        backtest: BacktestConfig { data_source: source.to_string() },
        alpaca: AlpacaConfig {
            api_key: "key".to_string(),
            api_secret: "secret".to_string(),
            base_url: "https://api.example.test".to_string(),
            historic_url: "https://data.example.test".to_string(),
            websocket_url: "wss://stream.example.test".to_string(),
        },
        ib: IbConfig { host: "127.0.0.1".to_string(), port: 4002, client_id: 1 },
    }
}

#[test]
fn provider_selection_is_exact() {
    assert_eq!(config("alpaca", "db").data_provider.kind(), Some(ProviderKind::Alpaca));
    assert_eq!(config("ib", "db").data_provider.kind(), Some(ProviderKind::Ib));
    assert_eq!(config("coinbase", "db").data_provider.kind(), None);
    assert_eq!(config("", "db").data_provider.kind(), None);
}

#[test]
fn unknown_data_source_falls_back_to_db() {
    assert_eq!(config("ib", "db").backtest.source_kind(), DataSourceKind::Db);
    assert_eq!(config("ib", "alpaca").backtest.source_kind(), DataSourceKind::Alpaca);
    assert_eq!(config("ib", "tape").backtest.source_kind(), DataSourceKind::Db);
    assert!(config("ib", "db").backtest.source_is_known());
    assert!(config("ib", "alpaca").backtest.source_is_known());
    assert!(!config("ib", "tape").backtest.source_is_known());
}
