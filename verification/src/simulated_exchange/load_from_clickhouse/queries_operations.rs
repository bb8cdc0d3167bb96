//! The ClickHouse client of the simulated exchange and the statements it
//! sends to read trades back.
use vstd::prelude::*;
use vstd::string::*;
use clickhouse::Client;
use crate::sandbox::queries_operations::{
    database_name, joined_head, local_clickhouse_client, qualified, table_name, trade_table_name,
};
use crate::text::{decimal_text, push_decimal};

verus! {

/// A handle on the ClickHouse server that stores the market data.
pub struct ClickHouseClient {
    pub client: Client,
}

/// `exchange_instrument_channel_union_date`, with the date as given.
pub open spec fn dated_union_table_name(
    exchange: Seq<char>,
    instrument: Seq<char>,
    channel: Seq<char>,
    date: Seq<char>,
) -> Seq<char> {
    exchange + "_"@ + instrument + "_"@ + channel + "_union_"@ + date
}

/// `SELECT symbol, side, price, timestamp FROM path`.
pub open spec fn trade_fields_select(path: Seq<char>) -> Seq<char> {
    "SELECT symbol, side, price, timestamp FROM "@ + path
}

/// The path `database.union_table` of one day's union table.
pub open spec fn dated_union_path(
    exchange: Seq<char>,
    instrument: Seq<char>,
    channel: Seq<char>,
    date: Seq<char>,
) -> Seq<char> {
    qualified(
        database_name(exchange, instrument, channel),
        dated_union_table_name(exchange, instrument, channel, date),
    )
}

/// The path `database.table` of one day of trades of one pair.
pub open spec fn trade_table_path(
    exchange: Seq<char>,
    instrument: Seq<char>,
    date: Seq<char>,
    base: Seq<char>,
    quote: Seq<char>,
) -> Seq<char> {
    qualified(
        database_name(exchange, instrument, "trades"@),
        table_name(exchange, instrument, "trades"@, date, base, quote),
    )
}

fn dated_union_path_text(exchange: &str, instrument: &str, channel: &str, date: &str) -> (r: String)
    ensures
        r@ == dated_union_path(exchange@, instrument@, channel@, date@),
{
    let mut path = joined_head(exchange, instrument, channel);
    path.append(".");
    let table = joined_head(exchange, instrument, channel);
    path.append(table.as_str());
    path.append("_union_");
    path.append(date);
    path
}

impl ClickHouseClient {
    /// A client for the local ClickHouse server.
    pub fn new() -> Self {
        ClickHouseClient { client: local_clickhouse_client() }
    }

    /// The name of the table of one day of trades (see [`table_name`]).
    /// Only `binance` and `okex` tables are named.
    fn construct_table_name(
        &self,
        exchange: &str,
        instrument: &str,
        channel: &str,
        date: &str,
        base: &str,
        quote: &str,
    ) -> (r: String)
        requires
            exchange@ == "binance"@ || exchange@ == "okex"@,
        ensures
            r@ == table_name(exchange@, instrument@, channel@, date@, base@, quote@),
    {
        trade_table_name(exchange, instrument, channel, date, base, quote)
    }

    /// The name of the database of one exchange, instrument and channel (see
    /// [`database_name`]).
    fn construct_database_name(&self, exchange: &str, instrument: &str, channel: &str) -> (r: String)
        ensures
            r@ == database_name(exchange@, instrument@, channel@),
    {
        joined_head(exchange, instrument, channel)
    }

    fn trade_table_path_text(&self, exchange: &str, instrument: &str, date: &str, base: &str, quote: &str) -> (r: String)
        requires
            exchange@ == "binance"@ || exchange@ == "okex"@,
        ensures
            r@ == trade_table_path(exchange@, instrument@, date@, base@, quote@),
    {
        let mut path = self.construct_database_name(exchange, instrument, "trades");
        path.append(".");
        let table = self.construct_table_name(exchange, instrument, "trades", date, base, quote);
        path.append(table.as_str());
        path
    }

    /// `SHOW TABLES FROM database`: the statement that lists the tables of a
    /// database.
    pub fn table_names_query(&self, database: &str) -> (r: String)
        ensures
            r@ == "SHOW TABLES FROM "@ + database@,
    {
        let mut q = String::from_str("SHOW TABLES FROM ");
        q.append(database);
        q
    }

    /// The statement that reads all trades of one day of one pair, oldest
    /// first. Only `binance` and `okex` tables are named.
    pub fn trade_table_query(&self, exchange: &str, instrument: &str, date: &str, base: &str, quote: &str) -> (r: String)
        requires
            exchange@ == "binance"@ || exchange@ == "okex"@,
        ensures
            r@ == trade_fields_select(trade_table_path(exchange@, instrument@, date@, base@, quote@))
                + " ORDER BY timestamp"@,
    {
        let path = self.trade_table_path_text(exchange, instrument, date, base, quote);
        let mut q = String::from_str("SELECT symbol, side, price, timestamp FROM ");
        q.append(path.as_str());
        q.append(" ORDER BY timestamp");
        q
    }

    /// The statement that reads the newest trade of one day of one pair.
    /// Only `binance` and `okex` tables are named.
    pub fn latest_trade_query(&self, exchange: &str, instrument: &str, date: &str, base: &str, quote: &str) -> (r: String)
        requires
            exchange@ == "binance"@ || exchange@ == "okex"@,
        ensures
            r@ == trade_fields_select(trade_table_path(exchange@, instrument@, date@, base@, quote@))
                + " ORDER BY timestamp DESC LIMIT 1"@,
    {
        let path = self.trade_table_path_text(exchange, instrument, date, base, quote);
        let mut q = String::from_str("SELECT symbol, side, price, timestamp FROM ");
        q.append(path.as_str());
        q.append(" ORDER BY timestamp DESC LIMIT 1");
        q
    }

    /// `SELECT * FROM database.union_table`: the statement that reads one
    /// day's union table whole (see [`dated_union_path`]).
    pub fn union_table_query(&self, exchange: &str, instrument: &str, channel: &str, date: &str) -> (r: String)
        ensures
            r@ == "SELECT * FROM "@ + dated_union_path(exchange@, instrument@, channel@, date@),
    {
        let path = dated_union_path_text(exchange, instrument, channel, date);
        let mut q = String::from_str("SELECT * FROM ");
        q.append(path.as_str());
        q
    }

    /// The statement that reads one batch of one day's union table, in the
    /// order the table holds its rows.
    pub fn union_batch_query(
        &self,
        exchange: &str,
        instrument: &str,
        channel: &str,
        date: &str,
        batch_size: usize,
        offset: usize,
    ) -> (r: String)
        ensures
            r@ == trade_fields_select(dated_union_path(exchange@, instrument@, channel@, date@)) + " LIMIT "@
                + decimal_text(batch_size as nat) + " OFFSET "@ + decimal_text(offset as nat),
    {
        let path = dated_union_path_text(exchange, instrument, channel, date);
        let mut q = String::from_str("SELECT symbol, side, price, timestamp FROM ");
        q.append(path.as_str());
        q.append(" LIMIT ");
        push_decimal(&mut q, batch_size as u64);
        q.append(" OFFSET ");
        push_decimal(&mut q, offset as u64);
        q
    }

    /// The statement that reads one batch of one day's union table, oldest
    /// trade first; the text ends with a space.
    pub fn dated_batch_query(
        &self,
        exchange: &str,
        instrument: &str,
        channel: &str,
        date: &str,
        batch_size: usize,
        offset: usize,
    ) -> (r: String)
        ensures
            r@ == trade_fields_select(dated_union_path(exchange@, instrument@, channel@, date@))
                + " ORDER BY timestamp LIMIT "@ + decimal_text(batch_size as nat) + " OFFSET "@ + decimal_text(
                offset as nat,
            ) + " "@,
    {
        let path = dated_union_path_text(exchange, instrument, channel, date);
        let mut q = String::from_str("SELECT symbol, side, price, timestamp FROM ");
        q.append(path.as_str());
        q.append(" ORDER BY timestamp LIMIT ");
        push_decimal(&mut q, batch_size as u64);
        q.append(" OFFSET ");
        push_decimal(&mut q, offset as u64);
        q.append(" ");
        q
    }
}

} // verus!
