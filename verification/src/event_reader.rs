//! Recorded pool events: where they are kept, how a record becomes an event, and in
//! which order events are replayed.
use crate::dates::{moment, parse_date_to_ms, time_format};
use crate::enums::EventType;
use crate::order::{before, is_order, order_covers, order_exists, order_of, places_of, stable_order};
use crate::parse::{
    digits_value, parse_i256, parse_u256, precedes, signed_digits_value, text_before,
};
use crate::text::{chars, trim};
use crate::types::{I256, U256};
use vstd::prelude::*;
use vstd::string::*;

verus! {

/// An event of a pool.
#[derive(Debug)]
pub struct PoolEvent {
    pub event_type: EventType,
    pub id: i32,
    pub msg_sender: String,
    pub recipient: String,
    pub amount0: I256,
    pub amount1: I256,
    pub tick_lower: Option<i32>,
    pub tick_upper: Option<i32>,
    pub liquidity: I256,
    pub amount_specified: Option<I256>,
    pub sqrt_price_x96: Option<U256>,
    pub tick: Option<i32>,
    pub block_number: i32,
    pub log_index: i32,
    pub date_str: String,
    pub date_ms: i64,
}

/// An event by its views.
#[verifier::ext_equal]
pub ghost struct EventView {
    pub event_type: EventType,
    pub id: int,
    pub msg_sender: Seq<char>,
    pub recipient: Seq<char>,
    pub amount0: int,
    pub amount1: int,
    pub tick_lower: Option<i32>,
    pub tick_upper: Option<i32>,
    pub liquidity: int,
    pub amount_specified: Option<int>,
    pub sqrt_price_x96: Option<int>,
    pub tick: Option<i32>,
    pub block_number: int,
    pub log_index: int,
    pub date_str: Seq<char>,
    pub date_ms: int,
}

pub open spec fn opt_i256(x: Option<I256>) -> Option<int> {
    match x {
        Some(n) => Some(n@),
        None => None,
    }
}

pub open spec fn opt_u256(x: Option<U256>) -> Option<int> {
    match x {
        Some(n) => Some(n@),
        None => None,
    }
}

impl View for PoolEvent {
    type V = EventView;

    open spec fn view(&self) -> EventView {
        EventView {
            event_type: self.event_type,
            id: self.id as int,
            msg_sender: self.msg_sender@,
            recipient: self.recipient@,
            amount0: self.amount0@,
            amount1: self.amount1@,
            tick_lower: self.tick_lower,
            tick_upper: self.tick_upper,
            liquidity: self.liquidity@,
            amount_specified: opt_i256(self.amount_specified),
            sqrt_price_x96: opt_u256(self.sqrt_price_x96),
            tick: self.tick,
            block_number: self.block_number as int,
            log_index: self.log_index as int,
            date_str: self.date_str@,
            date_ms: self.date_ms as int,
        }
    }
}

/// A record of an event, with its numbers as they are written.
#[derive(Debug)]
pub struct EventRow {
    pub event_type: i32,
    pub id: i32,
    pub msg_sender: String,
    pub recipient: String,
    pub amount0: String,
    pub amount1: String,
    pub tick_lower: Option<i32>,
    pub tick_upper: Option<i32>,
    pub liquidity: String,
    pub amount_specified: Option<String>,
    pub sqrt_price_x96: Option<String>,
    pub tick: Option<i32>,
    pub block_number: i32,
    pub log_index: i32,
    pub date: String,
}

/// The kind of event with a number.
pub open spec fn kind_of(code: int) -> Option<EventType> {
    if code == 1 {
        Some(EventType::Mint)
    } else if code == 2 {
        Some(EventType::Burn)
    } else if code == 3 {
        Some(EventType::Swap)
    } else {
        None
    }
}

/// The event that a record stands for; none where its kind has no meaning.
pub open spec fn event_of(row: EventRow) -> Option<EventView> {
    match kind_of(row.event_type as int) {
        Some(event_type) => Some(
            EventView {
                event_type,
                id: row.id as int,
                msg_sender: row.msg_sender@,
                recipient: row.recipient@,
                amount0: signed_digits_value(row.amount0@),
                amount1: signed_digits_value(row.amount1@),
                tick_lower: row.tick_lower,
                tick_upper: row.tick_upper,
                liquidity: signed_digits_value(row.liquidity@),
                amount_specified: match row.amount_specified {
                    Some(s) => Some(signed_digits_value(s@)),
                    None => None,
                },
                sqrt_price_x96: match row.sqrt_price_x96 {
                    Some(s) => Some(digits_value(trim(s@))),
                    None => None,
                },
                tick: row.tick,
                block_number: row.block_number as int,
                log_index: row.log_index as int,
                date_str: row.date@,
                date_ms: match moment(row.date@, time_format()) {
                    Some(n) => n,
                    None => 0,
                },
            },
        ),
        None => None,
    }
}

/// A date that is not before a first one and before a last one, where they are given.
pub open spec fn in_window(date: Seq<char>, start: Option<Seq<char>>, end: Option<Seq<char>>) -> bool {
    &&& match start {
        Some(s) => !text_before(date, s),
        None => true,
    }
    &&& match end {
        Some(e) => text_before(date, e),
        None => true,
    }
}

/// The place of a record in its chain, as one number: the block, then the place in the
/// block.
pub open spec fn chain_key(row: EventRow) -> i64 {
    (row.block_number * 0x1_0000_0000 + (row.log_index + 0x8000_0000)) as i64
}

/// The numbers of the records whose dates lie in a window.
pub open spec fn kept(rows: Seq<EventRow>, start: Option<Seq<char>>, end: Option<Seq<char>>, n: int) -> Seq<
    int,
>
    decreases n,
{
    if n <= 0 {
        seq![]
    } else if in_window(rows[n - 1].date@, start, end) {
        kept(rows, start, end, n - 1).push(n - 1)
    } else {
        kept(rows, start, end, n - 1)
    }
}

/// The place keys of some records.
pub open spec fn keys_of(rows: Seq<EventRow>, which: Seq<int>) -> Seq<i64> {
    Seq::new(which.len(), |i: int| chain_key(rows[which[i]]))
}

/// The records in a window, in the order of the chain.
pub open spec fn in_chain_order(
    rows: Seq<EventRow>,
    start: Option<Seq<char>>,
    end: Option<Seq<char>>,
) -> Seq<EventRow> {
    let which = kept(rows, start, end, rows.len() as int);
    let order = order_of(keys_of(rows, which));
    Seq::new(order.len(), |i: int| rows[which[order[i]]])
}

/// A record is not after another one in the chain: its block comes first, or it comes
/// first in the same block, or both stand at the same place.
pub open spec fn not_after(a: EventRow, b: EventRow) -> bool {
    a.block_number < b.block_number || (a.block_number == b.block_number && a.log_index
        <= b.log_index)
}

proof fn key_orders(a: EventRow, b: EventRow)
    ensures
        chain_key(a) <= chain_key(b) <==> not_after(a, b),
{
}

proof fn kept_facts(rows: Seq<EventRow>, start: Option<Seq<char>>, end: Option<Seq<char>>, n: int)
    requires
        0 <= n <= rows.len(),
    ensures
        forall|i: int|
            0 <= i < kept(rows, start, end, n).len() ==> 0 <= #[trigger] kept(rows, start, end, n)[i]
                < n && in_window(rows[kept(rows, start, end, n)[i]].date@, start, end),
        forall|k: int|
            0 <= k < n && in_window(rows[k].date@, start, end) ==> #[trigger] kept(
                rows,
                start,
                end,
                n,
            ).contains(k),
    decreases n,
{
    if n > 0 {
        kept_facts(rows, start, end, n - 1);
        let earlier = kept(rows, start, end, n - 1);
        let now = kept(rows, start, end, n);
        assert forall|k: int|
            0 <= k < n && in_window(rows[k].date@, start, end) implies #[trigger] now.contains(k) by {
            if k == n - 1 {
                assert(now[now.len() - 1] == k);
            } else {
                assert(earlier.contains(k));
                let i = earlier.index_of(k);
                assert(now[i] == k);
            }
        }
    }
}

/// Records are told in the order of the chain, whatever the order in which they came
/// and whatever their dates: no record is after one that is told later, none outside
/// the window is told and none inside it is left out.
pub proof fn told_in_chain_order(
    rows: Seq<EventRow>,
    start: Option<Seq<char>>,
    end: Option<Seq<char>>,
)
    ensures
        ({
            let told = in_chain_order(rows, start, end);
            &&& forall|i: int, j: int|
                #![trigger told[i], told[j]]
                0 <= i < j < told.len() ==> not_after(told[i], told[j])
            &&& forall|i: int|
                0 <= i < told.len() ==> in_window((#[trigger] told[i]).date@, start, end)
                    && rows.contains(told[i])
            &&& forall|k: int|
                0 <= k < rows.len() && in_window((#[trigger] rows[k]).date@, start, end)
                    ==> told.contains(rows[k])
        }),
{
    let n = rows.len() as int;
    let which = kept(rows, start, end, n);
    let keys = keys_of(rows, which);
    let order = order_of(keys);
    let told = in_chain_order(rows, start, end);
    kept_facts(rows, start, end, n);
    order_exists(keys);
    assert forall|i: int, j: int|
        #![trigger told[i], told[j]]
        0 <= i < j < told.len() implies not_after(told[i], told[j]) by {
        assert(before(keys, order[i], order[j]));
        key_orders(told[i], told[j]);
    }
    assert forall|i: int| 0 <= i < told.len() implies in_window((#[trigger] told[i]).date@, start, end)
        && rows.contains(told[i]) by {
        assert(0 <= order[i] < keys.len());
        let k = which[order[i]];
        assert(rows[k] == told[i]);
    }
    assert forall|k: int|
        0 <= k < n && in_window(
            (#[trigger] rows[k]).date@,
            start,
            end,
        ) implies told.contains(rows[k]) by {
        assert(which.contains(k));
        let i = which.index_of(k);
        order_covers(keys, order, i);
        let j = order.index_of(i);
        assert(told[j] == rows[k]);
    }
}

/// Events by their views.
pub open spec fn event_views(s: Seq<PoolEvent>) -> Seq<EventView> {
    Seq::new(s.len(), |i: int| s[i]@)
}

/// The events that records stand for; none where one of them has no meaning.
pub open spec fn events_of(rows: Seq<EventRow>) -> Option<Seq<EventView>>
    decreases rows.len(),
{
    if rows.len() == 0 {
        Some(seq![])
    } else {
        match (events_of(rows.drop_last()), event_of(rows.last())) {
            (Some(s), Some(e)) => Some(s.push(e)),
            _ => None,
        }
    }
}

/// An optional text by its characters.
pub open spec fn opt_text(s: Option<&str>) -> Option<Seq<char>> {
    match s {
        Some(x) => Some(x@),
        None => None,
    }
}

fn is_kept(date: &str, start: Option<&str>, end: Option<&str>) -> (r: bool)
    ensures
        r == in_window(date@, opt_text(start), opt_text(end)),
{
    let late: bool = match start {
        Some(s) => !precedes(date, s),
        None => true,
    };
    let early: bool = match end {
        Some(e) => precedes(date, e),
        None => true,
    };
    late && early
}

/// The event that a record stands for.
pub fn event_from_row(row: &EventRow) -> (r: Option<PoolEvent>)
    ensures
        event_of(*row) == (match r {
            Some(e) => Some(e@),
            None => None,
        }),
{
    let event_type: EventType = match EventType::try_from_i32(row.event_type) {
        Some(x) => x,
        None => return None,
    };
    let amount_specified: Option<I256> = match &row.amount_specified {
        Some(s) => Some(parse_i256(s.as_str())),
        None => None,
    };
    let sqrt_price_x96: Option<U256> = match &row.sqrt_price_x96 {
        Some(s) => Some(parse_u256(s.as_str())),
        None => None,
    };
    Some(
        PoolEvent {
            event_type,
            id: row.id,
            msg_sender: row.msg_sender.clone(),
            recipient: row.recipient.clone(),
            amount0: parse_i256(row.amount0.as_str()),
            amount1: parse_i256(row.amount1.as_str()),
            tick_lower: row.tick_lower,
            tick_upper: row.tick_upper,
            liquidity: parse_i256(row.liquidity.as_str()),
            amount_specified,
            sqrt_price_x96,
            tick: row.tick,
            block_number: row.block_number,
            log_index: row.log_index,
            date_str: row.date.clone(),
            date_ms: parse_date_to_ms(row.date.as_str()),
        },
    )
}

/// The events of a window of dates, in the order of their blocks and of their places in
/// them; `None` where the kind of one has no meaning.
pub fn load_all_events(rows: &Vec<EventRow>, start_date: Option<&str>, end_date: Option<&str>) -> (r:
    Option<Vec<PoolEvent>>)
    ensures
        events_of(in_chain_order(rows@, opt_text(start_date), opt_text(end_date))) == (match r {
            Some(v) => Some(event_views(v@)),
            None => None,
        }),
{
    let ghost s = opt_text(start_date);
    let ghost e = opt_text(end_date);
    let mut which: Vec<usize> = Vec::new();
    let mut keys: Vec<i64> = Vec::new();
    let mut i: usize = 0;
    assert(places_of(which@) =~= kept(rows@, s, e, 0));
    while i < rows.len()
        invariant
            i <= rows.len(),
            s == opt_text(start_date),
            e == opt_text(end_date),
            places_of(which@) == kept(rows@, s, e, i as int),
            forall|k: int| 0 <= k < which.len() ==> #[trigger] which[k] < rows.len(),
            keys@ == keys_of(rows@, places_of(which@)),
        decreases rows.len() - i,
    {
        if is_kept(rows[i].date.as_str(), start_date, end_date) {
            let ghost before = which@;
            let block: i64 = rows[i].block_number as i64;
            let key: i64 = block * 0x1_0000_0000 + (rows[i].log_index as i64 + 0x8000_0000);
            which.push(i);
            keys.push(key);
            proof {
                assert(places_of(which@) =~= places_of(before).push(i as int));
                assert(keys@ =~= keys_of(rows@, places_of(which@)));
            }
        }
        i = i + 1;
    }
    let order: Vec<usize> = stable_order(&keys);
    let ghost sorted = in_chain_order(rows@, s, e);
    let ghost places = places_of(which@);
    let mut out: Vec<PoolEvent> = Vec::new();
    let mut j: usize = 0;
    assert(event_views(out@) =~= Seq::<EventView>::empty());
    assert(sorted.take(0) =~= Seq::<EventRow>::empty());
    while j < order.len()
        invariant
            j <= order.len(),
            sorted == in_chain_order(rows@, s, e),
            s == opt_text(start_date),
            e == opt_text(end_date),
            places == places_of(which@),
            places == kept(rows@, s, e, rows.len() as int),
            keys@ == keys_of(rows@, places),
            places_of(order@) == order_of(keys@),
            is_order(keys@, places_of(order@)),
            forall|k: int| 0 <= k < which.len() ==> #[trigger] which[k] < rows.len(),
            events_of(sorted.take(j as int)) == Some(event_views(out@)),
        decreases order.len() - j,
    {
        proof {
            let p = places_of(order@);
            assert(p[j as int] == order[j as int]);
            assert(places[order[j as int] as int] == which[order[j as int] as int]);
            assert(sorted[j as int] == rows[places[p[j as int]]]);
            assert(sorted.take(j + 1).drop_last() =~= sorted.take(j as int));
        }
        let row: &EventRow = &rows[which[order[j]]];
        match event_from_row(row) {
            Some(ev) => {
                proof {
                    assert(event_views(out@.push(ev)) =~= event_views(out@).push(ev@));
                }
                out.push(ev);
            },
            None => {
                proof {
                    no_events(sorted, j + 1);
                }
                return None;
            },
        }
        j = j + 1;
    }
    assert(sorted.take(order.len() as int) =~= sorted);
    Some(out)
}

proof fn no_events(rows: Seq<EventRow>, k: int)
    requires
        0 <= k <= rows.len(),
        events_of(rows.take(k)) is None,
    ensures
        events_of(rows) is None,
    decreases rows.len() - k,
{
    if k < rows.len() {
        assert(rows.take(k + 1).drop_last() =~= rows.take(k));
        no_events(rows, k + 1);
    } else {
        assert(rows.take(k) =~= rows);
    }
}

/// What is recorded of a pool beside its events.
#[derive(Debug)]
pub struct ParquetPoolConfig {
    pub id: String,
    pub token0: String,
    pub token1: String,
    pub fee: u32,
    pub tick_spacing: i32,
    pub initial_sqrt_price_x96: String,
}

/// Where the records of a pool are kept, and what is recorded beside the events once
/// it has been read.
pub struct EventReader {
    pub parquet_path: String,
    pub config_path: String,
    pub pool_config: Option<ParquetPoolConfig>,
}

/// A path without any number of the ending `.db`.
pub open spec fn without_db(s: Seq<char>) -> Seq<char>
    decreases s.len(),
{
    let n = s.len();
    if n >= 3 && s[n - 3] == '.' && s[n - 2] == 'd' && s[n - 1] == 'b' {
        without_db(s.take(n - 3))
    } else {
        s
    }
}

impl EventReader {
    /// The reader of the records beside a database.
    pub fn new(db_path: &str) -> (r: Self)
        ensures
            r.parquet_path@ == without_db(db_path@) + ".parquet"@,
            r.config_path@ == without_db(db_path@) + ".pool-config.json"@,
            r.pool_config is None,
    {
        let v: Vec<char> = chars(db_path);
        let mut n: usize = v.len();
        assert(v@.take(v.len() as int) =~= v@);
        while n >= 3 && v[n - 3] == '.' && v[n - 2] == 'd' && v[n - 1] == 'b'
            invariant
                v@ == db_path@,
                n <= v.len(),
                without_db(v@.take(n as int)) == without_db(v@),
            decreases n,
        {
            assert(v@.take(n as int).take(n - 3) =~= v@.take(n - 3));
            n = n - 3;
        }
        let base: &str = db_path.substring_char(0, n);
        assert(base@ =~= v@.take(n as int));
        let mut parquet_path: String = base.to_owned();
        parquet_path.append(".parquet");
        let mut config_path: String = base.to_owned();
        config_path.append(".pool-config.json");
        EventReader { parquet_path, config_path, pool_config: None }
    }

    /// The name, the fee and the tick spacing of the pool.
    pub fn get_pool_config(&self) -> (r: (String, u32, i32))
        requires
            self.pool_config is Some,
        ensures
            self.pool_config matches Some(c) && r.0@ == c.id@ && r.1 == c.fee && r.2
                == c.tick_spacing,
    {
        match &self.pool_config {
            Some(c) => (c.id.clone(), c.fee, c.tick_spacing),
            None => (String::new(), 0, 0),
        }
    }

    /// The first price of the pool.
    pub fn get_initial_sqrt_price_x96(&self) -> (r: U256)
        requires
            self.pool_config is Some,
        ensures
            self.pool_config matches Some(c) && r@ == digits_value(
                trim(c.initial_sqrt_price_x96@),
            ),
    {
        match &self.pool_config {
            Some(c) => parse_u256(c.initial_sqrt_price_x96.as_str()),
            None => U256::ZERO(),
        }
    }
}

} // verus!
