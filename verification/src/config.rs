//! Static configuration: which market-data provider feeds the live
//! pipeline, which source a backtest loads its history from, and the
//! collaborator endpoints. Read once at startup by the surrounding
//! program (the file handling lives there); no part of the core reloads
//! configuration mid-run.

use vstd::prelude::*;

verus! {

/// Which market-data provider feeds the live pipeline.
#[derive(Clone, Debug)]
pub struct DataProvider {
    pub use_provider: String,
}

/// Where a backtest loads its historical records from.
#[derive(Clone, Debug)]
pub struct BacktestConfig {
    pub data_source: String,
}

/// Endpoints and credentials of the Alpaca collaborator.
#[derive(Clone, Debug)]
pub struct AlpacaConfig {
    pub api_key: String,
    pub api_secret: String,
    pub base_url: String,
    pub historic_url: String,
    pub websocket_url: String,
}

/// Connection parameters of the Interactive Brokers collaborator.
#[derive(Clone, Debug)]
pub struct IbConfig {
    pub host: String,
    pub port: u16,
    pub client_id: u32,
}

/// The whole startup configuration.
#[derive(Clone, Debug)]
pub struct Config {
    pub data_provider: DataProvider,
    pub backtest: BacktestConfig,
    pub alpaca: AlpacaConfig,
    pub ib: IbConfig,
}

/// The provider a configuration selects.
#[derive(Clone, Copy, Debug, PartialEq, Eq, Structural)]
pub enum ProviderKind {
    Alpaca,
    Ib,
}

/// The historical source a configuration selects.
#[derive(Clone, Copy, Debug, PartialEq, Eq, Structural)]
pub enum DataSourceKind {
    Db,
    Alpaca,
}

impl DataProvider {
    /// Which provider the text names: exactly "alpaca" or "ib", and
    /// `None` for anything else — an invalid configuration the caller
    /// reports.
    pub fn kind(&self) -> (r: Option<ProviderKind>)
        ensures
            r == Some(ProviderKind::Alpaca) <==> self.use_provider@ == "alpaca"@,
            r == Some(ProviderKind::Ib) <==> self.use_provider@ == "ib"@,
            r is None <==> self.use_provider@ != "alpaca"@ && self.use_provider@ != "ib"@,
    {
        proof {
            reveal_strlit("alpaca");
            reveal_strlit("ib");
            assert("alpaca"@.len() == 6 && "ib"@.len() == 2);
        }
        if self.use_provider == "alpaca".to_owned() {
            Some(ProviderKind::Alpaca)
        } else if self.use_provider == "ib".to_owned() {
            Some(ProviderKind::Ib)
        } else {
            None
        }
    }
}

impl BacktestConfig {
    /// Which source the text names. Anything other than "alpaca" falls
    /// back to the database, the default source; the caller may warn
    /// when the text names neither.
    pub fn source_kind(&self) -> (r: DataSourceKind)
        ensures
            r == (if self.data_source@ == "alpaca"@ {
                DataSourceKind::Alpaca
            } else {
                DataSourceKind::Db
            }),
    {
        if self.data_source == "alpaca".to_owned() {
            DataSourceKind::Alpaca
        } else {
            DataSourceKind::Db
        }
    }

    /// Does the text name a known source? `false` asks the caller to
    /// warn before falling back to the database.
    pub fn source_is_known(&self) -> (r: bool)
        ensures
            r == (self.data_source@ == "db"@ || self.data_source@ == "alpaca"@),
    {
        self.data_source == "db".to_owned() || self.data_source == "alpaca".to_owned()
    }
}

} // verus!
