//! What is read from texts: numbers, lines and fields, dates in a window, recorded events
//! and settings.
use crate::arith::{p255, p256, wrap_signed_facts};
use crate::config::{charm_of, data_path, slow_recenter_of, CharmJson, Config, SlowRecenterJson};
use crate::debt_laws::small;
use crate::enums::EventType;
use crate::event_reader::{event_of, in_window, without_db, EventRow};
use crate::parse::{
    behind, digits_value, field, lines_of, signed_digits_value, spelled, text_before, until,
};
use crate::strategy_model::{end_with_prices, fee_and_spacing, window_of};
use crate::text::{dec, dec_reads_back, dec_signed, digit_value, number, trim, trim_of_solid};
use crate::vault::volatile_price;
use crate::vault_math::one_wad;
use vstd::prelude::*;

verus! {

// ── numbers ──

proof fn digits_spell_number(s: Seq<char>, n: int)
    requires
        number(s, 10) == Some(n),
        n < p256(),
    ensures
        0 <= n,
        digits_value(s) == n,
    decreases s.len(),
{
    if s.len() > 0 {
        let m = number(s.drop_last(), 10)->0;
        let d = digit_value(s.last(), 10)->0;
        if m >= p256() {
            number_is_positive(s.drop_last());
        }
        digits_spell_number(s.drop_last(), m);
        small(m * 10);
        small(n);
    }
}

proof fn number_is_positive(s: Seq<char>)
    ensures
        number(s, 10) matches Some(n) ==> n >= 0,
    decreases s.len(),
{
    if s.len() > 0 {
        number_is_positive(s.drop_last());
    }
}

proof fn sign_is_no_digit(s: Seq<char>)
    requires
        s.len() > 0,
        s[0] == '-',
    ensures
        digits_value(s) == digits_value(s.skip(1)),
    decreases s.len(),
{
    if s.len() == 1 {
        assert(s.drop_last() =~= Seq::<char>::empty());
        assert(s.skip(1) =~= Seq::<char>::empty());
        assert(digits_value(Seq::<char>::empty()) == 0);
    } else {
        sign_is_no_digit(s.drop_last());
        assert(s.drop_last().skip(1) =~= s.skip(1).drop_last());
    }
}

/// A number that was written in decimal reads back as itself, with its sign.
pub proof fn written_number_reads_back(n: int)
    requires
        -p255() <= n < p255(),
    ensures
        signed_digits_value(dec_signed(n)) == n,
        n >= 0 ==> digits_value(trim(dec_signed(n))) == n,
        spelled(dec_signed(n), -p255(), p255()) == Some(n),
{
    let m = if n < 0 {
        -n
    } else {
        n
    };
    dec_reads_back(m);
    digits_spell_number(dec(m), m);
    let s = dec_signed(n);
    trim_of_solid(s);
    wrap_signed_facts(n);
    if n < 0 {
        assert(s.skip(1) =~= dec(m));
        sign_is_no_digit(s);
    }
}

// ── lines and fields ──

proof fn found_behind(a: Seq<char>, c: char, rest: Seq<char>)
    requires
        forall|i: int| 0 <= i < a.len() ==> #[trigger] a[i] != c,
    ensures
        until(a + seq![c] + rest, c) == a,
        behind(a + seq![c] + rest, c) == Some(rest),
    decreases a.len(),
{
    let s = a + seq![c] + rest;
    if a.len() == 0 {
        assert(s.skip(1) =~= rest);
        assert(s[0] == c);
        assert(a =~= Seq::<char>::empty());
    } else {
        assert(s[0] == a[0]);
        assert(s.skip(1) =~= a.skip(1) + seq![c] + rest);
        found_behind(a.skip(1), c, rest);
        assert(seq![a[0]] + a.skip(1) =~= a);
    }
}

proof fn found_nowhere(a: Seq<char>, c: char)
    requires
        forall|i: int| 0 <= i < a.len() ==> #[trigger] a[i] != c,
    ensures
        until(a, c) == a,
        behind(a, c) is None,
    decreases a.len(),
{
    if a.len() > 0 {
        found_nowhere(a.skip(1), c);
        assert(seq![a[0]] + a.skip(1) =~= a);
    } else {
        assert(a =~= Seq::<char>::empty());
    }
}

/// Fields are what stands between commas: the first one up to the first comma, and each
/// further one as the one before it of what follows.
pub proof fn fields_stand_between_commas(a: Seq<char>, rest: Seq<char>, k: nat)
    requires
        forall|i: int| 0 <= i < a.len() ==> #[trigger] a[i] != ',',
    ensures
        field(a, 0) == Some(a),
        field(a, k + 1) is None,
        field(a + seq![','] + rest, 0) == Some(a),
        field(a + seq![','] + rest, k + 1) == field(rest, k),
{
    found_behind(a, ',', rest);
    found_nowhere(a, ',');
}

/// Lines are what stands before line feeds, without a carriage return at their end; what
/// follows the last line feed is a line unless it is empty.
pub proof fn lines_end_with_line_feeds(a: Seq<char>, rest: Seq<char>)
    requires
        forall|i: int| 0 <= i < a.len() ==> #[trigger] a[i] != '\n',
    ensures
        lines_of(a + seq!['\n'] + rest) == seq![
            if a.len() > 0 && a.last() == '\r' {
                a.drop_last()
            } else {
                a
            },
        ] + lines_of(rest),
        a.len() > 0 ==> lines_of(a) == seq![a],
        a.len() == 0 ==> lines_of(a).len() == 0,
{
    found_behind(a, '\n', rest);
    found_nowhere(a, '\n');
}

/// The place of a record is found beside a database: one ending of a database is left out
/// like none, and none is left.
pub proof fn database_ending_is_left_out(s: Seq<char>)
    ensures
        without_db(s + seq!['.', 'd', 'b']) == without_db(s),
        ({
            let r = without_db(s);
            let n = r.len();
            !(n >= 3 && r[n - 3] == '.' && r[n - 2] == 'd' && r[n - 1] == 'b')
        }),
    decreases s.len(),
{
    let t = s + seq!['.', 'd', 'b'];
    assert(t.take(t.len() - 3) =~= s);
    let n = s.len();
    if n >= 3 && s[n - 3] == '.' && s[n - 2] == 'd' && s[n - 1] == 'b' {
        database_ending_is_left_out(s.take(n - 3));
    }
}

// ── dates ──

/// Texts are ordered: none comes before itself, of two different ones one comes first, and
/// what comes before one that comes before a third comes before that.
#[verifier::rlimit(30)]
pub proof fn texts_are_ordered(a: Seq<char>, b: Seq<char>, c: Seq<char>)
    ensures
        !text_before(a, a),
        a != b ==> text_before(a, b) != text_before(b, a),
        text_before(a, b) && text_before(b, c) ==> text_before(a, c),
    decreases a.len() + b.len() + c.len(),
{
    if a.len() > 0 && b.len() > 0 && c.len() > 0 {
        texts_are_ordered(a.skip(1), b.skip(1), c.skip(1));
    } else if a.len() > 0 && b.len() > 0 {
        texts_are_ordered(a.skip(1), b.skip(1), c);
    } else if a.len() > 0 {
        texts_are_ordered(a.skip(1), b, c);
    }
    if a.len() > 0 && b.len() > 0 && a != b && a[0] == b[0] {
        if a.skip(1) == b.skip(1) {
            assert(a =~= seq![a[0]] + a.skip(1));
            assert(b =~= seq![b[0]] + b.skip(1));
        }
    }
    if a.len() == 0 && b.len() == 0 {
        assert(a =~= b);
    }
}

/// A window holds its start and not its end; a date lies in just one of two windows that
/// adjoin, if it lies in both of them taken as one.
#[verifier::rlimit(30)]
pub proof fn windows_adjoin(date: Seq<char>, a: Seq<char>, b: Seq<char>, c: Seq<char>)
    requires
        a == b || text_before(a, b),
        b == c || text_before(b, c),
    ensures
        in_window(date, Some(date), None),
        !in_window(date, None, Some(date)),
        in_window(date, None, None),
        in_window(date, Some(a), Some(c)) == (in_window(date, Some(a), Some(b)) != in_window(
            date,
            Some(b),
            Some(c),
        )),
{
    texts_are_ordered(date, date, date);
    texts_are_ordered(date, a, b);
    texts_are_ordered(date, b, c);
    texts_are_ordered(a, b, date);
}

// ── events ──

/// A record stands for an event of its kind, one for a mint, two for a burn and three for a
/// swap, with its numbers read and all else as it is. No other kind has a meaning.
pub proof fn record_stands_for_its_event(row: EventRow)
    ensures
        event_of(row) is Some == (1 <= row.event_type <= 3),
        event_of(row) matches Some(e) ==> {
            &&& e.event_type == EventType::Mint <==> row.event_type == 1
            &&& e.event_type == EventType::Burn <==> row.event_type == 2
            &&& e.event_type == EventType::Swap <==> row.event_type == 3
            &&& e.msg_sender == row.msg_sender@
            &&& e.recipient == row.recipient@
            &&& e.tick_lower == row.tick_lower
            &&& e.tick_upper == row.tick_upper
            &&& e.tick == row.tick
            &&& e.id == row.id && e.block_number == row.block_number && e.log_index
                == row.log_index
            &&& e.date_str == row.date@
            &&& e.amount_specified is Some == row.amount_specified is Some
            &&& e.sqrt_price_x96 is Some == row.sqrt_price_x96 is Some
        },
{
}

/// The numbers of a record that were written in decimal are those of its event.
pub proof fn recorded_numbers_are_kept(row: EventRow, a0: int, a1: int, l: int, s: int, h: int)
    requires
        1 <= row.event_type <= 3,
        -p255() <= a0 < p255(),
        -p255() <= a1 < p255(),
        -p255() <= l < p255(),
        -p255() <= s < p255(),
        0 <= h < p255(),
        row.amount0@ == dec_signed(a0),
        row.amount1@ == dec_signed(a1),
        row.liquidity@ == dec_signed(l),
        row.amount_specified matches Some(t) ==> t@ == dec_signed(s),
        row.sqrt_price_x96 matches Some(t) ==> t@ == dec_signed(h),
    ensures
        event_of(row) matches Some(e) && {
            &&& e.amount0 == a0
            &&& e.amount1 == a1
            &&& e.liquidity == l
            &&& e.amount_specified matches Some(x) ==> x == s
            &&& e.sqrt_price_x96 matches Some(x) ==> x == h
        },
{
    written_number_reads_back(a0);
    written_number_reads_back(a1);
    written_number_reads_back(l);
    written_number_reads_back(s);
    written_number_reads_back(h);
}

// ── settings ──

/// What is given of the settings of the ranges is taken as it is, and what is not given
/// does not depend on the rest.
pub proof fn given_ranges_are_kept(j: CharmJson, other: CharmJson)
    requires
        j.wide_threshold matches Some(t) ==> i32::MIN <= t <= i32::MAX,
        j.base_threshold matches Some(t) ==> i32::MIN <= t <= i32::MAX,
        j.limit_threshold matches Some(t) ==> i32::MIN <= t <= i32::MAX,
    ensures
        ({
            let r = charm_of(j);
            let o = charm_of(other);
            &&& j.wide_range_weight matches Some(x) ==> r.wide_range_weight == x
            &&& j.wide_threshold matches Some(x) ==> r.wide_threshold == x
            &&& j.base_threshold matches Some(x) ==> r.base_threshold == x
            &&& j.limit_threshold matches Some(x) ==> r.limit_threshold == x
            &&& j.period matches Some(x) ==> r.period == x
            &&& j.wide_range_weight == other.wide_range_weight ==> r.wide_range_weight
                == o.wide_range_weight
            &&& j.wide_threshold == other.wide_threshold ==> r.wide_threshold == o.wide_threshold
            &&& j.base_threshold == other.base_threshold ==> r.base_threshold == o.base_threshold
            &&& j.limit_threshold == other.limit_threshold ==> r.limit_threshold
                == o.limit_threshold
            &&& j.period == other.period ==> r.period == o.period
        }),
{
}

/// What is given of the settings of slow recentering is taken as it is; a switch that is not
/// given is off.
pub proof fn given_recentering_is_kept(j: SlowRecenterJson)
    requires
        j.max_shift_per_step matches Some(t) ==> i32::MIN <= t <= i32::MAX,
    ensures
        ({
            let r = slow_recenter_of(j);
            &&& r.enabled == (j.enabled == Some(true))
            &&& r.only_shift_oor == (j.only_shift_oor == Some(true))
            &&& r.redeploy_limit_at_current_tick == (j.redeploy_limit_at_current_tick == Some(true))
            &&& j.max_shift_per_step matches Some(x) ==> r.max_shift_per_step == x
            &&& j.trigger_interval_seconds matches Some(x) ==> r.trigger_interval_seconds == x
        }),
{
}

/// A path under the directory of the data is taken from where the data are, and then no
/// more; any other path is taken as it is.
pub proof fn data_path_is_resolved_once(s: Seq<char>)
    ensures
        data_path(data_path(s)) == data_path(s),
        s.len() >= 5 && s[0] == 'd' && s[1] == 'a' && s[2] == 't' && s[3] == 'a' && s[4] == '/'
            ==> data_path(s).len() == s.len() + 11 && data_path(s).skip(11) == s,
        !(s.len() >= 5 && s[0] == 'd' && s[1] == 'a' && s[2] == 't' && s[3] == 'a' && s[4] == '/')
            ==> data_path(s) == s,
{
    reveal_strlit("data/");
    reveal_strlit("../dlv-sim/");
    if s.len() >= 5 {
        if s[0] == 'd' && s[1] == 'a' && s[2] == 't' && s[3] == 'a' && s[4] == '/' {
            assert(s.take(5) =~= "data/"@);
            assert(data_path(s).skip(11) =~= s);
            assert(data_path(s)[0] == '.');
            assert(data_path(s).take(5)[0] == '.');
        } else {
            assert(s.take(5)[0] == s[0] && s.take(5)[1] == s[1] && s.take(5)[2] == s[2] && s.take(
                5,
            )[3] == s[3] && s.take(5)[4] == s[4]);
        }
    }
}

/// The ticks of a pool with a fee of its own are a fiftieth of the fee apart, one for the
/// lowest fee, and as far as for the highest where the fee is none of those that there are.
/// Without such a fee both are those recorded.
pub proof fn spacing_follows_fee(o: Option<u32>, fee: int, spacing: int)
    ensures
        o is None ==> fee_and_spacing(o, fee, spacing) == (fee, spacing),
        o matches Some(f) ==> {
            let (a, b) = fee_and_spacing(o, fee, spacing);
            &&& a == f
            &&& f == 500 || f == 3000 || f == 10000 ==> 50 * b == f
            &&& f == 100 ==> b == 1
            &&& f != 100 && f != 500 && f != 3000 ==> b == 200
        },
{
}

/// The window of a simulation is the one for arbitrage or the one for events, and with
/// arbitrage it ends no later than the outside prices do.
pub proof fn window_ends_with_prices(cfg: Config, last: int)
    ensures
        ({
            let (start, end) = window_of(cfg);
            let r = end_with_prices(cfg, end, last);
            &&& cfg.is_arb_strategy ==> start == cfg.arb.start_ms && end == cfg.arb.end_ms && r <= end
                && r <= last && (r == end || r == last)
            &&& !cfg.is_arb_strategy ==> start == cfg.start_ms && end == cfg.end_ms && r == end
        }),
{
}

/// The price of the volatile token is the pool's where that is token 0, and its inverse, in
/// units of 10^18 and rounded down, where it is token 1.
pub proof fn volatile_price_is_price_or_inverse(vol0: bool, price: int)
    requires
        0 <= price < p256(),
    ensures
        ({
            let r = volatile_price(vol0, price);
            &&& vol0 ==> r == price
            &&& !vol0 && price == 0 ==> r == 0
            &&& !vol0 && price > 0 ==> r * price <= 1_000_000_000_000_000_000_000_000_000_000_000_000
                && 1_000_000_000_000_000_000_000_000_000_000_000_000 < (r + 1) * price
        }),
{
    if price > 0 {
        assert(one_wad() * one_wad() < p256() * price) by (nonlinear_arith)
            requires
                price >= 1,
        ;
        crate::debt_laws::floor_facts(one_wad(), one_wad(), price, p256());
    }
}

} // verus!
