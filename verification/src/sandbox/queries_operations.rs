//! Naming of the ClickHouse databases and tables that hold market trades,
//! and the trades read back from them.
use vstd::prelude::*;
use vstd::string::*;
use std::sync::Arc;
use clickhouse::Client;
use tokio::sync::RwLock;
use crate::common::Side;
use crate::simulated_exchange::chrono_operations::{extract_date, table_name_date};
use crate::sandbox::query_builder::ClickHouseQueryBuilder;
use crate::text::{contains_text, decimal_text, has_infix, replace_char, replace_each, text_eq, to_upper, upper_case};

verus! {

#[verifier::external_type_specification]
#[verifier::external_body]
pub struct ExClickHouseClient(Client);

#[verifier::external_type_specification]
#[verifier::external_body]
#[verifier::reject_recursive_types(T)]
pub struct ExTokioRwLock<T: ?Sized>(RwLock<T>);

/// Builds a ClickHouse client for `http://localhost:8123` as user `default`
/// with an empty password (clickhouse's `Client::default`, `with_url`,
/// `with_user`, `with_password`). Nothing is stated of the client: it is
/// handed on as it is.
#[verifier::external_body]
pub(crate) fn local_clickhouse_client() -> Client {
    Client::default().with_url("http://localhost:8123").with_user("default").with_password("")
}

/// Puts the client behind tokio's `RwLock::new`. Nothing is stated of the
/// lock: it is handed on as it is.
#[verifier::external_body]
fn locked_client(client: Client) -> RwLock<Client> {
    RwLock::new(client)
}

/// A handle on the ClickHouse server that stores the market data.
pub struct ClickHouseClient {
    pub client: Arc<RwLock<Client>>,
}

/// A public trade as stored in ClickHouse: the text fields and timestamp
/// that the exchange reads.
pub struct ClickhousePublicTrade {
    pub symbol: String,
    pub side: String,
    pub timestamp: i64,
}

/// The side that a text names: `Buy` or `Sell`, else none.
pub open spec fn side_named(text: Seq<char>) -> Option<Side> {
    if text == "Buy"@ {
        Some(Side::Buy)
    } else if text == "Sell"@ {
        Some(Side::Sell)
    } else {
        None
    }
}

/// Reads a side from its text (see [`side_named`]).
pub fn side_from_text(text: &str) -> (r: Option<Side>)
    ensures
        r == side_named(text@),
{
    if text_eq(text, "Buy") {
        Some(Side::Buy)
    } else if text_eq(text, "Sell") {
        Some(Side::Sell)
    } else {
        None
    }
}

impl ClickhousePublicTrade {
    /// The side that the stored text names: `Buy` or `Sell`.
    pub fn parse_side(&self) -> (r: Side)
        requires
            self.side@ == "Buy"@ || self.side@ == "Sell"@,
        ensures
            r == (if self.side@ == "Buy"@ { Side::Buy } else { Side::Sell }),
    {
        match side_from_text(self.side.as_str()) {
            Some(side) => side,
            None => Side::Sell,
        }
    }
}

/// `date` with its dashes turned into underscores, as table names need.
pub open spec fn table_date(date: Seq<char>) -> Seq<char> {
    replace_char(date, '-', '_')
}

/// The table that holds one day of trades of one pair: for `binance`,
/// `exchange_instrument_channel_date_BASEQUOTE`; for `okex`,
/// `exchange_instrument_channel_date_BASE_QUOTE_INSTRUMENT`, with the date's
/// dashes turned into underscores and the last parts in upper case.
pub open spec fn table_name(
    exchange: Seq<char>,
    instrument: Seq<char>,
    channel: Seq<char>,
    date: Seq<char>,
    base: Seq<char>,
    quote: Seq<char>,
) -> Seq<char> {
    let head = exchange + "_"@ + instrument + "_"@ + channel + "_"@ + table_date(date) + "_"@;
    if exchange == "binance"@ {
        head + upper_case(base) + upper_case(quote)
    } else {
        head + upper_case(base) + "_"@ + upper_case(quote) + "_"@ + upper_case(instrument)
    }
}

/// The table that unites one day of trades: `exchange_instrument_channel_union_date`
/// with the date's dashes turned into underscores.
pub open spec fn union_table_name(
    exchange: Seq<char>,
    instrument: Seq<char>,
    channel: Seq<char>,
    date: Seq<char>,
) -> Seq<char> {
    exchange + "_"@ + instrument + "_"@ + channel + "_union_"@ + table_date(date)
}

/// The database of one exchange, instrument and channel: `exchange_instrument_channel`.
pub open spec fn database_name(exchange: Seq<char>, instrument: Seq<char>, channel: Seq<char>) -> Seq<char> {
    exchange + "_"@ + instrument + "_"@ + channel
}

fn underscore_date(date: &str) -> (r: String)
    ensures
        r@ == table_date(date@),
{
    proof {
        reveal_strlit("_");
        assert("_"@ =~= seq!['_']);
    }
    replace_each(date, '-', '_', "_")
}

pub(crate) fn joined_head(exchange: &str, instrument: &str, channel: &str) -> (r: String)
    ensures
        r@ == database_name(exchange@, instrument@, channel@),
{
    let mut name = String::from_str(exchange);
    name.append("_");
    name.append(instrument);
    name.append("_");
    name.append(channel);
    name
}

/// The name of the table of one day of trades (see [`table_name`]).
pub(crate) fn trade_table_name(
    exchange: &str,
    instrument: &str,
    channel: &str,
    date: &str,
    base: &str,
    quote: &str,
) -> (r: String)
    requires
        exchange@ == "binance"@ || exchange@ == "okex"@,
    ensures
        r@ == table_name(exchange@, instrument@, channel@, date@, base@, quote@),
{
    let mut name = joined_head(exchange, instrument, channel);
    name.append("_");
    let d = underscore_date(date);
    name.append(d.as_str());
    name.append("_");
    let b = to_upper(base);
    let q = to_upper(quote);
    if text_eq(exchange, "binance") {
        name.append(b.as_str());
        name.append(q.as_str());
    } else {
        let i = to_upper(instrument);
        name.append(b.as_str());
        name.append("_");
        name.append(q.as_str());
        name.append("_");
        name.append(i.as_str());
    }
    name
}

/// The texts of a list of strings.
pub open spec fn texts(v: Seq<String>) -> Seq<Seq<char>> {
    v.map_values(|s: String| s@)
}

/// The table names, among `names`, whose date (see [`table_name_date`]) is
/// `date`, in their order.
pub open spec fn tables_on(names: Seq<Seq<char>>, date: Seq<char>) -> Seq<Seq<char>> {
    names.filter(|n: Seq<char>| table_name_date(n) == Some(date))
}

impl ClickHouseClient {
    /// The tables, among `table_names`, that hold data of `date` (see
    /// [`tables_on`]).
    pub fn get_tables_for_date(&self, table_names: &[String], date: &str) -> (r: Vec<String>)
        ensures
            texts(r@) == tables_on(texts(table_names@), date@),
    {
        tables_for_date(table_names, date)
    }
}

/// The tables, among `table_names`, that hold data of `date` (see
/// [`tables_on`]).
pub fn tables_for_date(table_names: &[String], date: &str) -> (r: Vec<String>)
    ensures
        texts(r@) == tables_on(texts(table_names@), date@),
{
    let mut out: Vec<String> = Vec::new();
    let mut i: usize = 0;
    while i < table_names.len()
        invariant
            i <= table_names@.len(),
            texts(out@) == tables_on(texts(table_names@).take(i as int), date@),
        decreases table_names@.len() - i,
    {
        let name = &table_names[i];
        let ghost all = texts(table_names@);
        let ghost before = texts(out@);
        proof {
            assert(all.take(i + 1).drop_last() =~= all.take(i as int));
            assert(all.take(i + 1).last() == name@);
            reveal_with_fuel(Seq::<_>::filter, 1);
        }
        let keep = match extract_date(name.as_str()) {
            Some(d) => text_eq(d.as_str(), date),
            None => false,
        };
        if keep {
            out.push(name.clone());
            assert(texts(out@) =~= before.push(name@));
        } else {
            assert(texts(out@) =~= before);
        }
        i = i + 1;
    }
    assert(texts(table_names@).take(i as int) =~= texts(table_names@));
    out
}

impl ClickHouseClient {
    /// A client for the local ClickHouse server.
    pub fn new() -> Self {
        ClickHouseClient { client: Arc::new(locked_client(local_clickhouse_client())) }
    }

    /// The name of the table of one day of trades (see [`table_name`]).
    /// Only `binance` and `okex` tables are named.
    pub fn construct_table_name(
        &self,
        exchange: &str,
        instrument: &str,
        channel: &str,
        date: &str,
        base: &str,
        quote: &str,
    ) -> (r: String)
        requires
            exchange@ == "binance"@ || exchange@ == "okex"@,
        ensures
            r@ == table_name(exchange@, instrument@, channel@, date@, base@, quote@),
    {
        trade_table_name(exchange, instrument, channel, date, base, quote)
    }

    /// The name of the table that unites one day of trades (see [`union_table_name`]).
    pub fn construct_union_table_name(&self, exchange: &str, instrument: &str, channel: &str, date: &str) -> (r: String)
        ensures
            r@ == union_table_name(exchange@, instrument@, channel@, date@),
    {
        let mut name = joined_head(exchange, instrument, channel);
        name.append("_union_");
        let d = underscore_date(date);
        name.append(d.as_str());
        name
    }

    /// The name of the database of one exchange, instrument and channel
    /// (see [`database_name`]).
    pub fn construct_database_name(&self, exchange: &str, instrument: &str, channel: &str) -> (r: String)
        ensures
            r@ == database_name(exchange@, instrument@, channel@),
    {
        joined_head(exchange, instrument, channel)
    }
}


/// `database.table`.
pub open spec fn qualified(database: Seq<char>, table: Seq<char>) -> Seq<char> {
    database + "."@ + table
}

/// The columns that the trade queries read.
pub open spec fn trade_columns() -> Seq<char> {
    "symbol, side, price, timestamp, amount"@
}

/// `SELECT symbol, side, price, timestamp, amount FROM database.table`.
pub open spec fn trade_select(database: Seq<char>, table: Seq<char>) -> Seq<char> {
    "SELECT "@ + trade_columns() + " "@ + "FROM "@ + qualified(database, table)
}

/// [`trade_select`] ordered by timestamp in `direction`.
pub open spec fn ordered_trade_select(database: Seq<char>, table: Seq<char>, direction: Seq<char>) -> Seq<char> {
    trade_select(database, table) + " "@ + "ORDER BY "@ + "timestamp"@ + " "@ + direction
}

/// The texts in `parts`, with `separator` between each two of them (nothing
/// for no part), as `join` writes them.
pub open spec fn joined(parts: Seq<Seq<char>>, separator: Seq<char>) -> Seq<char>
    decreases parts.len(),
{
    if parts.len() == 0 {
        Seq::empty()
    } else if parts.len() == 1 {
        parts[0]
    } else {
        joined(parts.drop_last(), separator) + separator + parts.last()
    }
}

/// The statement that creates `database.new_table` as a MergeTree table,
/// partitioned by day and ordered by timestamp, from the union of the trades
/// of each of `tables`.
pub open spec fn union_creation_text(database: Seq<char>, new_table: Seq<char>, tables: Seq<Seq<char>>) -> Seq<char> {
    "CREATE TABLE "@ + qualified(database, new_table)
        + " ENGINE = MergeTree() PARTITION BY toYYYYMMDD(toDate(timestamp)) ORDER BY timestamp AS "@
        + joined(tables.map_values(|t: Seq<char>| trade_select(database, t)), " UNION ALL "@)
}

/// `SELECT * FROM database.table ORDER BY timestamp direction LIMIT batch_size`.
pub open spec fn batch_select(database: Seq<char>, table: Seq<char>, direction: Seq<char>, batch_size: nat) -> Seq<char> {
    "SELECT "@ + "*"@ + " "@ + "FROM "@ + qualified(database, table) + " "@ + "ORDER BY "@ + "timestamp"@ + " "@
        + direction + " "@ + "LIMIT "@ + decimal_text(batch_size)
}

/// The paths `database.name` of the tables, among `names`, whose name holds
/// `union`, in their order.
pub open spec fn union_paths(database: Seq<char>, names: Seq<Seq<char>>) -> Seq<Seq<char>> {
    names.filter(|n: Seq<char>| has_infix(n, "union"@)).map_values(|n: Seq<char>| qualified(database, n))
}

fn trade_select_query(database: &str, table: &str) -> (r: String)
    ensures
        r@ == trade_select(database@, table@),
{
    let q = ClickHouseQueryBuilder::new().select("symbol, side, price, timestamp, amount").from(database, table).build();
    assert(q@ =~= trade_select(database@, table@));
    q
}

fn qualified_name(database: &str, table: &str) -> (r: String)
    ensures
        r@ == qualified(database@, table@),
{
    let mut path = String::from_str(database);
    path.append(".");
    path.append(table);
    path
}

impl ClickHouseClient {
    /// `SHOW TABLES FROM database`: the statement that lists the tables of a database.
    pub fn table_names_query(&self, database: &str) -> (r: String)
        ensures
            r@ == "SHOW TABLES FROM "@ + database@,
    {
        let mut q = String::from_str("SHOW TABLES FROM ");
        q.append(database);
        q
    }

    /// `SHOW TABLES FROM database LIKE '%union%'`: the statement that lists the
    /// union tables of a database.
    pub fn union_table_names_query(&self, database: &str) -> (r: String)
        ensures
            r@ == "SHOW TABLES FROM "@ + database@ + " LIKE '%union%'"@,
    {
        let mut q = String::from_str("SHOW TABLES FROM ");
        q.append(database);
        q.append(" LIKE '%union%'");
        q
    }

    /// The statement that creates the union table `database.new_table_name`
    /// from `table_names` (see [`union_creation_text`]).
    pub fn union_creation_query(&self, database: &str, new_table_name: &str, table_names: &[String]) -> (r: String)
        ensures
            r@ == union_creation_text(database@, new_table_name@, texts(table_names@)),
    {
        let ghost selects = texts(table_names@).map_values(|t: Seq<char>| trade_select(database@, t));
        let mut union_all = String::new();
        let mut i: usize = 0;
        while i < table_names.len()
            invariant
                i <= table_names@.len(),
                selects == texts(table_names@).map_values(|t: Seq<char>| trade_select(database@, t)),
                union_all@ == joined(selects.take(i as int), " UNION ALL "@),
            decreases table_names@.len() - i,
        {
            let select = trade_select_query(database, table_names[i].as_str());
            proof {
                assert(selects.take(i + 1).drop_last() =~= selects.take(i as int));
                assert(selects.take(i + 1).last() == select@);
            }
            if i == 0 {
                assert(selects.take(1) =~= seq![select@]);
                union_all = select;
            } else {
                union_all.append(" UNION ALL ");
                union_all.append(select.as_str());
            }
            i = i + 1;
        }
        assert(selects.take(i as int) =~= selects);
        let mut q = String::from_str("CREATE TABLE ");
        q.append(database);
        q.append(".");
        q.append(new_table_name);
        q.append(" ENGINE = MergeTree() PARTITION BY toYYYYMMDD(toDate(timestamp)) ORDER BY timestamp AS ");
        q.append(union_all.as_str());
        q
    }

    /// The statement that reads all trades of one day of one pair, newest
    /// first (see [`ordered_trade_select`]). Only `binance` and `okex`
    /// tables are named.
    pub fn trade_table_query(&self, exchange: &str, instrument: &str, date: &str, base: &str, quote: &str) -> (r: String)
        requires
            exchange@ == "binance"@ || exchange@ == "okex"@,
        ensures
            r@ == ordered_trade_select(
                database_name(exchange@, instrument@, "trades"@),
                table_name(exchange@, instrument@, "trades"@, date@, base@, quote@),
                "DESC"@,
            ),
    {
        let database = self.construct_database_name(exchange, instrument, "trades");
        let table = self.construct_table_name(exchange, instrument, "trades", date, base, quote);
        let q = ClickHouseQueryBuilder::new()
            .select("symbol, side, price, timestamp, amount")
            .from(database.as_str(), table.as_str())
            .order("timestamp", Some("DESC"))
            .build();
        assert(q@ =~= ordered_trade_select(database@, table@, "DESC"@));
        q
    }

    /// The statement that reads all trades of one day's union table, newest
    /// first, in the `trades` database of the exchange and instrument.
    pub fn union_trade_query(&self, exchange: &str, instrument: &str, date: &str) -> (r: String)
        ensures
            r@ == ordered_trade_select(
                database_name(exchange@, instrument@, "trades"@),
                union_table_name(exchange@, instrument@, "trades"@, date@),
                "DESC"@,
            ),
    {
        let database = self.construct_database_name(exchange, instrument, "trades");
        let table = self.construct_union_table_name(exchange, instrument, "trades", date);
        let q = ClickHouseQueryBuilder::new()
            .select("symbol, side, price, timestamp, amount")
            .from(database.as_str(), table.as_str())
            .order("timestamp", Some("DESC"))
            .build();
        assert(q@ =~= ordered_trade_select(database@, table@, "DESC"@));
        q
    }

    /// The statement that reads the newest trade of one day of one pair:
    /// [`ClickHouseClient::trade_table_query`] limited to one row.
    #[verifier::rlimit(40)]
    pub fn latest_trade_query(&self, exchange: &str, instrument: &str, date: &str, base: &str, quote: &str) -> (r: String)
        requires
            exchange@ == "binance"@ || exchange@ == "okex"@,
        ensures
            r@ == ordered_trade_select(
                database_name(exchange@, instrument@, "trades"@),
                table_name(exchange@, instrument@, "trades"@, date@, base@, quote@),
                "DESC"@,
            ) + " "@ + "LIMIT "@ + decimal_text(1),
    {
        let database = self.construct_database_name(exchange, instrument, "trades");
        let table = self.construct_table_name(exchange, instrument, "trades", date, base, quote);
        let q = ClickHouseQueryBuilder::new()
            .select("symbol, side, price, timestamp, amount")
            .from(database.as_str(), table.as_str())
            .order("timestamp", Some("DESC"))
            .limit(1)
            .build();
        assert(q@ =~= ordered_trade_select(database@, table@, "DESC"@) + " "@ + "LIMIT "@ + decimal_text(1));
        q
    }

    /// `SELECT * FROM database.union_table ORDER BY timestamp`: the statement
    /// that reads a whole union table, in the `trades` database of the
    /// exchange and instrument.
    pub fn union_table_query(&self, exchange: &str, instrument: &str, channel: &str, date: &str) -> (r: String)
        ensures
            r@ == "SELECT * FROM "@ + qualified(
                database_name(exchange@, instrument@, "trades"@),
                union_table_name(exchange@, instrument@, channel@, date@),
            ) + " ORDER BY timestamp"@,
    {
        let table = self.construct_union_table_name(exchange, instrument, channel, date);
        let database = self.construct_database_name(exchange, instrument, "trades");
        let mut q = String::from_str("SELECT * FROM ");
        q.append(database.as_str());
        q.append(".");
        q.append(table.as_str());
        q.append(" ORDER BY timestamp");
        q
    }

    /// The statement that reads one batch of a union table (see
    /// [`batch_select`]). The offset is handed to the builder, whose text
    /// leaves the offset clause out, so every batch reads the same rows.
    pub fn union_batch_query(&self, database: &str, table_name: &str, direction: &str, batch_size: usize, offset: usize) -> (r: String)
        ensures
            r@ == batch_select(database@, table_name@, direction@, batch_size as nat),
    {
        let q = ClickHouseQueryBuilder::new()
            .select("*")
            .from(database, table_name)
            .order("timestamp", Some(direction))
            .limit(batch_size)
            .offset(offset)
            .build();
        assert(q@ =~= batch_select(database@, table_name@, direction@, batch_size as nat));
        q
    }

    /// `OPTIMIZE TABLE table_path`.
    pub fn optimize_table_query(&self, table_path: &str) -> (r: String)
        ensures
            r@ == "OPTIMIZE TABLE "@ + table_path@,
    {
        let mut q = String::from_str("OPTIMIZE TABLE ");
        q.append(table_path);
        q
    }

    /// The paths of the union tables among `table_names` (see [`union_paths`]).
    pub fn union_table_paths(&self, database: &str, table_names: &[String]) -> (r: Vec<String>)
        ensures
            texts(r@) == union_paths(database@, texts(table_names@)),
    {
        let mut out: Vec<String> = Vec::new();
        let mut i: usize = 0;
        while i < table_names.len()
            invariant
                i <= table_names@.len(),
                texts(out@) == union_paths(database@, texts(table_names@).take(i as int)),
            decreases table_names@.len() - i,
        {
            let name = &table_names[i];
            let ghost all = texts(table_names@);
            let ghost before = texts(out@);
            proof {
                assert(all.take(i + 1).drop_last() =~= all.take(i as int));
                assert(all.take(i + 1).last() == name@);
                reveal_with_fuel(Seq::<_>::filter, 1);
            }
            if contains_text(name.as_str(), "union") {
                let path = qualified_name(database, name.as_str());
                out.push(path);
                assert(texts(out@) =~= before.push(qualified(database@, name@)));
                assert(all.take(i + 1).filter(|n: Seq<char>| has_infix(n, "union"@)) =~=
                    all.take(i as int).filter(|n: Seq<char>| has_infix(n, "union"@)).push(name@));
            } else {
                assert(texts(out@) =~= before);
            }
            i = i + 1;
        }
        assert(texts(table_names@).take(i as int) =~= texts(table_names@));
        out
    }
}

/// What follows a batch of `fetched` rows read at `offset` with batches of
/// `batch_size`: no further batch when the batch came short, else the next
/// offset.
pub fn next_batch_offset(fetched: usize, batch_size: usize, offset: usize) -> (r: Option<usize>)
    requires
        fetched < batch_size || offset + batch_size <= usize::MAX,
    ensures
        r == (if fetched < batch_size { None } else { Some((offset + batch_size) as usize) }),
{
    if fetched < batch_size {
        None
    } else {
        Some(offset + batch_size)
    }
}

} // verus!

verus! {

/// Every union table that [`ClickHouseClient::construct_union_table_name`]
/// names is one that [`ClickHouseClient::union_table_paths`] picks: its name
/// holds `union`.
pub proof fn lemma_union_tables_are_picked(
    database: Seq<char>,
    exchange: Seq<char>,
    instrument: Seq<char>,
    channel: Seq<char>,
    date: Seq<char>,
)
    ensures
        union_paths(database, seq![union_table_name(exchange, instrument, channel, date)]) == seq![
            qualified(database, union_table_name(exchange, instrument, channel, date)),
        ],
{
    let name = union_table_name(exchange, instrument, channel, date);
    let at: int = (exchange.len() + 1 + instrument.len() + 1 + channel.len() + 1) as int;
    reveal_strlit("_");
    reveal_strlit("_union_");
    reveal_strlit("union");
    assert(name.subrange(at, at + 5) =~= "union"@);
    assert(has_infix(name, "union"@));
    let pick = |n: Seq<char>| has_infix(n, "union"@);
    assert(seq![name].drop_last() =~= Seq::<Seq<char>>::empty());
    reveal_with_fuel(Seq::<_>::filter, 2);
    assert(seq![name].filter(pick) =~= seq![name]);
}

} // verus!
