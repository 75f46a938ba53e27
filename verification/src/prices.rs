//! Electricity prices: the cache of known prices and the statistics drawn from them.

use std::collections::VecDeque;

use vstd::prelude::*;

use crate::double::{
    ceiling, difference, less, of_int, product, saturated, sum, whole, with_sign, Double,
};
use crate::moment::{is_day, Moment, MAX_SECS, MIN_SECS};
use crate::order::{
    ascending, count_of, in_order, lemma_already_in_order, lemma_count_len, lemma_count_parts,
    lemma_in_order, sort, Keyed,
};

verus! {

/// A price, in euro cents per kWh, and the start of the quarter of an hour that it holds for.
#[derive(Clone, Copy, Debug, PartialEq, Eq, Structural)]
pub struct PriceInfo {
    pub from: Moment,
    pub price: Double,
}

impl Keyed for PriceInfo {
    open spec fn sort_key(self) -> int {
        self.from.secs * 0x1_0000_0000 + self.from.nanos
    }

    fn precedes(self, other: PriceInfo) -> (r: bool) {
        self.from.is_before(other.from)
    }
}

impl Keyed for Double {
    open spec fn sort_key(self) -> int {
        self.key()
    }

    fn precedes(self, other: Double) -> (r: bool) {
        self.key_below(other)
    }
}

/// All prices are for valid times.
pub open spec fn valid_times(prices: Seq<PriceInfo>) -> bool {
    forall|i: int| 0 <= i < prices.len() ==> (#[trigger] prices[i]).from.valid()
}

/// All prices are for times within the calendar.
pub open spec fn in_calendar_times(prices: Seq<PriceInfo>) -> bool {
    forall|i: int|
        0 <= i < prices.len() ==> MIN_SECS <= (#[trigger] prices[i]).from.secs <= MAX_SECS
}

/// No number in the list is NaN.
pub open spec fn all_numbers(data: Seq<Double>) -> bool {
    forall|i: int| 0 <= i < data.len() ==> !(#[trigger] data[i]).is_nan()
}

/// The position in `n` sorted values that the percentile `p` points at.
pub open spec fn rank(n: nat, p: Double) -> Double {
    product(p, of_int(n - 1))
}

/// The index at or below a rank.
pub open spec fn rank_below(r: Double) -> nat {
    saturated(r, whole(r), u64::MAX as nat)
}

/// The index at or above a rank.
pub open spec fn rank_above(r: Double) -> nat {
    saturated(r, ceiling(r), u64::MAX as nat)
}

/// The percentile `p` points at values of a list of `n`.
pub open spec fn is_percentile(n: nat, p: Double) -> bool {
    n == 0 || rank_above(rank(n, p)) < n
}

/// How many values lie above `x`.
pub open spec fn above(data: Seq<Double>, x: Double) -> nat {
    count_of(data, |y: Double| less(x, y))
}

/// How many values lie below `x`.
pub open spec fn below(data: Seq<Double>, x: Double) -> nat {
    count_of(data, |y: Double| less(y, x))
}

/// The value below which the share `p` of `data` lies, linear between neighbours.
pub open spec fn percentile_of(data: Seq<Double>, p: Double) -> Double {
    if data.len() == 0 {
        with_sign(false, 0)
    } else {
        let s = in_order(data);
        let r = rank(data.len(), p);
        let lower = s[rank_below(r) as int];
        let upper = s[rank_above(r) as int];
        if rank_below(r) == rank_above(r) {
            lower
        } else {
            let weight = difference(r, of_int(rank_below(r) as int));
            sum(product(lower, difference(of_int(1), weight)), product(upper, weight))
        }
    }
}

/// Whether the percentile points at values of a list of `n`.
pub fn fits_percentile(n: usize, p: Double) -> (r: bool)
    ensures
        r == is_percentile(n as nat, p),
{
    if n == 0 {
        true
    } else {
        p.times(Double::of_u64((n - 1) as u64)).ceiling_u64() < n as u64
    }
}

/// Calculates a percentile and leaves the list sorted; `p` is a share, such as 0.75 for the 75th
/// percentile.
pub fn percentile(data: &mut Vec<Double>, p: Double) -> (r: Double)
    requires
        old(data)@.len() > 1 ==> all_numbers(old(data)@),
        is_percentile(old(data)@.len(), p),
    ensures
        final(data)@ == in_order(old(data)@),
        ascending(final(data)@),
        final(data)@.to_multiset() == old(data)@.to_multiset(),
        r == percentile_of(old(data)@, p),
{
    let ghost given = data@;
    proof {
        lemma_in_order(given);
    }
    if data.len() == 0 {
        return Double::zero();
    }
    let sorted: Vec<Double> = sort(data);
    *data = sorted;
    let r: Double = p.times(Double::of_u64((data.len() - 1) as u64));
    let lower: u64 = r.floor_u64();
    let upper: u64 = r.ceiling_u64();
    assert(lower <= upper) by {
        reveal(ceiling);
    }
    if lower == upper {
        data[lower as usize]
    } else {
        let weight: Double = r.minus(Double::of_u64(lower));
        data[lower as usize].times(Double::of_u64(1).minus(weight)).plus(
            data[upper as usize].times(weight),
        )
    }
}

/// A list and the same list sorted have the same percentiles, and the same numbers.
pub proof fn lemma_percentile_of_sorted(data: Seq<Double>, p: Double)
    ensures
        in_order(in_order(data)) == in_order(data),
        percentile_of(in_order(data), p) == percentile_of(data, p),
        all_numbers(data) ==> all_numbers(in_order(data)),
{
    lemma_in_order(data);
    lemma_already_in_order(in_order(data));
    if all_numbers(data) {
        lemma_sorted_numbers(data);
    }
}

/// What is counted in a list, where it is nowhere among the values up to position `k` of the sorted
/// list, or everywhere from there on.
pub proof fn lemma_count_high(data: Seq<Double>, k: int, f: spec_fn(Double) -> bool)
    requires
        0 <= k < data.len(),
    ensures
        (forall|i: int| 0 <= i <= k ==> !f(#[trigger] in_order(data)[i])) ==> count_of(data, f)
            <= data.len() - 1 - k,
        (forall|i: int| k <= i < data.len() ==> f(#[trigger] in_order(data)[i])) ==> count_of(
            data,
            f,
        ) >= data.len() - k,
{
    let s = in_order(data);
    lemma_in_order(data);
    if forall|i: int| 0 <= i <= k ==> !f(#[trigger] s[i]) {
        lemma_count_parts(s, k + 1, f);
        lemma_count_len(s.take(k + 1), f);
    }
    if forall|i: int| k <= i < data.len() ==> f(#[trigger] s[i]) {
        lemma_count_parts(s, k, f);
        assert forall|i: int| 0 <= i < s.skip(k).len() implies f(#[trigger] s.skip(k)[i]) by {
            assert(s.skip(k)[i] == s[k + i]);
        }
        lemma_count_len(s.skip(k), f);
    }
}

/// What is counted in a list, where it is nowhere among the values from position `k` of the sorted
/// list on, or everywhere up to there.
pub proof fn lemma_count_low(data: Seq<Double>, k: int, f: spec_fn(Double) -> bool)
    requires
        0 <= k < data.len(),
    ensures
        (forall|i: int| k <= i < data.len() ==> !f(#[trigger] in_order(data)[i])) ==> count_of(
            data,
            f,
        ) <= k,
        (forall|i: int| 0 <= i <= k ==> f(#[trigger] in_order(data)[i])) ==> count_of(data, f)
            >= k + 1,
{
    let s = in_order(data);
    lemma_in_order(data);
    if forall|i: int| k <= i < data.len() ==> !f(#[trigger] s[i]) {
        lemma_count_parts(s, k, f);
        assert forall|i: int| 0 <= i < s.skip(k).len() implies !f(#[trigger] s.skip(k)[i]) by {
            assert(s.skip(k)[i] == s[k + i]);
        }
        lemma_count_len(s.skip(k), f);
    }
    if forall|i: int| 0 <= i <= k ==> f(#[trigger] s[i]) {
        lemma_count_parts(s, k + 1, f);
        lemma_count_len(s.take(k + 1), f);
    }
}

/// Sorting neither loses nor adds numbers.
pub proof fn lemma_sorted_numbers(data: Seq<Double>)
    requires
        all_numbers(data),
    ensures
        all_numbers(in_order(data)),
{
    broadcast use vstd::seq_lib::group_to_multiset_ensures;

    let s = in_order(data);
    lemma_in_order(data);
    assert forall|i: int| 0 <= i < s.len() implies !(#[trigger] s[i]).is_nan() by {
        assert(s.contains(s[i]));
        assert(s.to_multiset().count(s[i]) > 0);
        assert(data.contains(s[i]));
    }
}

/// No more values lie above a percentile than rank higher, unless rounding has put it below the
/// value of its rank.
pub proof fn lemma_above_percentile(data: Seq<Double>, p: Double)
    requires
        data.len() > 0,
        all_numbers(data),
        is_percentile(data.len(), p),
    ensures
        ({
            let x = percentile_of(data, p);
            let k = rank_below(rank(data.len(), p));
            above(data, x) <= data.len() - 1 - k <==> !less(x, in_order(data)[k as int])
        }),
{
    reveal(less);
    reveal(ceiling);
    let s = in_order(data);
    let x = percentile_of(data, p);
    let k = rank_below(rank(data.len(), p)) as int;
    lemma_in_order(data);
    lemma_sorted_numbers(data);
    lemma_count_high(data, k, |y: Double| less(x, y));
    assert forall|i: int| k <= i < data.len() && less(x, s[k]) implies less(
        x,
        #[trigger] s[i],
    ) by {
        assert(s[k].sort_key() <= s[i].sort_key());
    }
    assert forall|i: int| 0 <= i <= k && !less(x, s[k]) implies !less(x, #[trigger] s[i]) by {
        assert(s[i].sort_key() <= s[k].sort_key());
    }
}

/// No more values lie below a percentile than rank lower, unless rounding has put it above the
/// value of its rank.
pub proof fn lemma_below_percentile(data: Seq<Double>, p: Double)
    requires
        data.len() > 0,
        all_numbers(data),
        is_percentile(data.len(), p),
    ensures
        ({
            let x = percentile_of(data, p);
            let k = rank_above(rank(data.len(), p));
            below(data, x) <= k <==> !less(in_order(data)[k as int], x)
        }),
{
    reveal(less);
    let s = in_order(data);
    let x = percentile_of(data, p);
    let k = rank_above(rank(data.len(), p)) as int;
    lemma_in_order(data);
    lemma_sorted_numbers(data);
    lemma_count_low(data, k, |y: Double| less(y, x));
    assert forall|i: int| k <= i < data.len() && !less(s[k], x) implies !less(
        #[trigger] s[i],
        x,
    ) by {
        assert(s[k].sort_key() <= s[i].sort_key());
    }
    assert forall|i: int| 0 <= i <= k && less(s[k], x) implies less(#[trigger] s[i], x) by {
        assert(s[i].sort_key() <= s[k].sort_key());
    }
}

/// The prices left once those at the front that are for earlier local days are gone.
pub open spec fn without_past(prices: Seq<PriceInfo>, today: int) -> Seq<PriceInfo>
    decreases prices.len(),
{
    if prices.len() > 0 && prices[0].from.cet_day() < today {
        without_past(prices.drop_first(), today)
    } else {
        prices
    }
}

/// Some price is for the given UTC day.
pub open spec fn covers(prices: Seq<PriceInfo>, day: int) -> bool {
    exists|i: int| 0 <= i < prices.len() && (#[trigger] prices[i]).from.day() == day
}

/// Removes prices of past days from the front of the cache.
pub fn drop_past_prices(prices: &mut VecDeque<PriceInfo>, now: Moment)
    requires
        now.valid(),
        valid_times(old(prices)@),
    ensures
        final(prices)@ == without_past(old(prices)@, now.cet_day()),
        valid_times(final(prices)@),
{
    let today: i64 = now.local_day();
    while prices.len() > 0
        invariant
            today == now.cet_day(),
            valid_times(prices@),
            without_past(prices@, today as int) == without_past(old(prices)@, today as int),
        ensures
            valid_times(prices@),
            prices@ == without_past(old(prices)@, today as int),
        decreases prices@.len(),
    {
        let front: PriceInfo = prices[0];
        if front.from.local_day() < today {
            let ghost before = prices@;
            let _ = prices.pop_front();
            assert(prices@ == before.drop_first());
        } else {
            break;
        }
    }
}

/// Whether some price is for the given UTC day.
pub fn has_day(prices: &VecDeque<PriceInfo>, day: i32) -> (r: bool)
    requires
        valid_times(prices@),
    ensures
        r == covers(prices@, day as int),
{
    let mut i: usize = 0;
    while i < prices.len()
        invariant
            i <= prices.len(),
            valid_times(prices@),
            forall|j: int| 0 <= j < i ==> (#[trigger] prices@[j]).from.day() != day,
        decreases prices.len() - i,
    {
        let p: PriceInfo = prices[i];
        if p.from.utc_day() == day {
            assert(prices@[i as int].from.day() == day);
            return true;
        }
        i = i + 1;
    }
    false
}

/// A day whose prices are to be fetched.
#[derive(Clone, Copy, Debug, PartialEq, Eq, Structural)]
pub enum PriceRequest {
    Today(i32),
    Tomorrow(i32),
}

/// What to fetch when today's prices have been seen to: tomorrow's, if there are none yet.
pub open spec fn tomorrow_request(prices: Seq<PriceInfo>, now: Moment) -> Option<PriceRequest> {
    if covers(prices, now.day() + 1) {
        None
    } else {
        Some(PriceRequest::Tomorrow((now.day() + 1) as i32))
    }
}

/// What to fetch first: today's prices if there are none, else tomorrow's if there are none.
pub open spec fn first_request(prices: Seq<PriceInfo>, now: Moment) -> Option<PriceRequest> {
    if covers(prices, now.day()) {
        tomorrow_request(prices, now)
    } else {
        Some(PriceRequest::Today(now.day() as i32))
    }
}

/// The cache with new prices at its end.
pub open spec fn after_fetch(
    prices: Seq<PriceInfo>,
    fetched: Seq<PriceInfo>,
) -> Seq<PriceInfo> {
    prices + fetched
}

/// Starts an update of the cache and tells what to fetch, if anything.
pub fn begin_update(prices: &mut VecDeque<PriceInfo>, now: Moment) -> (r: Option<PriceRequest>)
    requires
        now.valid(),
        valid_times(old(prices)@),
    ensures
        final(prices)@ == without_past(old(prices)@, now.cet_day()),
        valid_times(final(prices)@),
        r == first_request(final(prices)@, now),
        r matches Some(PriceRequest::Today(day)) ==> is_day(day as int),
        r matches Some(PriceRequest::Tomorrow(day)) ==> is_day(day as int),
{
    drop_past_prices(prices, now);
    let today: i32 = now.utc_day();
    if !has_day(prices, today) {
        Some(PriceRequest::Today(today))
    } else if !has_day(prices, today + 1) {
        Some(PriceRequest::Tomorrow(today + 1))
    } else {
        None
    }
}

/// Takes the prices that were fetched and tells what to fetch next, if anything.
pub fn continue_update(
    prices: &mut VecDeque<PriceInfo>,
    now: Moment,
    request: PriceRequest,
    fetched: &Vec<PriceInfo>,
) -> (r: Option<PriceRequest>)
    requires
        now.valid(),
        valid_times(old(prices)@),
        valid_times(fetched@),
    ensures
        final(prices)@ == after_fetch(old(prices)@, fetched@),
        valid_times(final(prices)@),
        request is Today ==> r == tomorrow_request(final(prices)@, now),
        request is Tomorrow ==> r is None,
        r matches Some(PriceRequest::Tomorrow(day)) ==> is_day(day as int),
{
    let mut i: usize = 0;
    while i < fetched.len()
        invariant
            i <= fetched.len(),
            valid_times(fetched@),
            valid_times(prices@),
            prices@ == old(prices)@ + fetched@.take(i as int),
        decreases fetched.len() - i,
    {
        prices.push_back(fetched[i]);
        assert(old(prices)@ + fetched@.take(i + 1) == (old(prices)@ + fetched@.take(i as int)).push(
            fetched@[i as int],
        ));
        i = i + 1;
    }
    assert(fetched@.take(i as int) == fetched@);
    match request {
        PriceRequest::Today(_) => {
            let tomorrow: i32 = now.utc_day() + 1;
            if has_day(prices, tomorrow) {
                None
            } else {
                Some(PriceRequest::Tomorrow(tomorrow))
            }
        },
        PriceRequest::Tomorrow(_) => None,
    }
}

/// No price is for an earlier time than one before it.
pub open spec fn chronological(prices: Seq<PriceInfo>) -> bool {
    forall|i: int, j: int|
        0 <= i <= j < prices.len() ==> !(#[trigger] prices[j]).from.before(
            (#[trigger] prices[i]).from,
        )
}

/// Ends an update: puts the cache in chronological order.
pub fn finish_update(prices: &mut VecDeque<PriceInfo>)
    ensures
        final(prices)@ == in_order(old(prices)@),
        chronological(final(prices)@),
        valid_times(old(prices)@) ==> valid_times(final(prices)@),
{
    let mut all: Vec<PriceInfo> = Vec::new();
    let mut i: usize = 0;
    while i < prices.len()
        invariant
            i <= prices.len(),
            all@ == prices@.take(i as int),
        decreases prices.len() - i,
    {
        all.push(prices[i]);
        assert(prices@.take(i + 1) == prices@.take(i as int).push(prices@[i as int]));
        i = i + 1;
    }
    assert(prices@.take(i as int) == prices@);
    let sorted: Vec<PriceInfo> = sort(&all);
    let ghost before = prices@;
    prices.clear();
    let mut j: usize = 0;
    while j < sorted.len()
        invariant
            j <= sorted.len(),
            prices@ == sorted@.take(j as int),
        decreases sorted.len() - j,
    {
        prices.push_back(sorted[j]);
        assert(sorted@.take(j + 1) == sorted@.take(j as int).push(sorted@[j as int]));
        j = j + 1;
    }
    assert(sorted@.take(j as int) == sorted@);
    proof {
        broadcast use vstd::seq_lib::group_to_multiset_ensures;

        lemma_in_order(before);
        assert forall|i: int, k: int| 0 <= i <= k < sorted@.len() implies !(
        #[trigger] sorted@[k]).from.before((#[trigger] sorted@[i]).from) by {
            assert(sorted@[i].sort_key() <= sorted@[k].sort_key());
        }
        if valid_times(before) {
            assert forall|k: int| 0 <= k < sorted@.len() implies (
            #[trigger] sorted@[k]).from.valid() by {
                assert(sorted@.contains(sorted@[k]));
                assert(sorted@.to_multiset().count(sorted@[k]) > 0);
                assert(before.contains(sorted@[k]));
            }
        }
    }
}

/// The prices are for days in ascending order.
pub open spec fn by_day(prices: Seq<PriceInfo>) -> bool {
    forall|i: int, j: int|
        0 <= i <= j < prices.len() ==> (#[trigger] prices[i]).from.cet_day() <= (
        #[trigger] prices[j]).from.cet_day()
}

/// Of prices in the order of days, those of past days and no others are dropped.
pub proof fn lemma_past_is_dropped(prices: Seq<PriceInfo>, today: int)
    requires
        by_day(prices),
    ensures
        forall|i: int|
            0 <= i < without_past(prices, today).len() ==> (#[trigger] without_past(
                prices,
                today,
            )[i]).from.cet_day() >= today,
        forall|p: PriceInfo|
            prices.contains(p) && p.from.cet_day() >= today ==> #[trigger] without_past(
                prices,
                today,
            ).contains(p),
    decreases prices.len(),
{
    if prices.len() > 0 && prices[0].from.cet_day() < today {
        let rest = prices.drop_first();
        assert(by_day(rest)) by {
            assert forall|i: int, j: int| 0 <= i <= j < rest.len() implies (
            #[trigger] rest[i]).from.cet_day() <= (#[trigger] rest[j]).from.cet_day() by {
                assert(prices[i + 1].from.cet_day() <= prices[j + 1].from.cet_day());
            }
        }
        lemma_past_is_dropped(rest, today);
        assert(without_past(prices, today) == without_past(rest, today));
        assert forall|p: PriceInfo|
            prices.contains(p) && p.from.cet_day() >= today implies #[trigger] without_past(
            prices,
            today,
        ).contains(p) by {
            let i = choose|i: int| 0 <= i < prices.len() && prices[i] == p;
            assert(rest[i - 1] == p);
            assert(rest.contains(p));
            assert(without_past(rest, today).contains(p));
        }
    } else {
        assert(without_past(prices, today) == prices);
        assert forall|i: int| 0 <= i < prices.len() implies (
        #[trigger] prices[i]).from.cet_day() >= today by {
            assert(prices[0].from.cet_day() <= prices[i].from.cet_day());
        }
    }
}

/// Today's prices are asked for where none is known, and tomorrow's where today's are known and
/// none of tomorrow's is; days are those of UTC.
pub proof fn lemma_requests(prices: Seq<PriceInfo>, now: Moment)
    requires
        now.valid(),
    ensures
        ({
            let today = now.secs as int / 86_400 + 719_163;
            let known = |day: int|
                exists|i: int|
                    0 <= i < prices.len() && (#[trigger] prices[i]).from.secs as int / 86_400
                        + 719_163 == day;
            match first_request(prices, now) {
                Some(PriceRequest::Today(day)) => day == today && !known(today),
                Some(PriceRequest::Tomorrow(day)) => day == today + 1 && known(today) && !known(
                    today + 1,
                ),
                None => known(today) && known(today + 1),
            }
        }),
        !(first_request(prices, now) matches Some(PriceRequest::Today(_))) ==> first_request(
            prices,
            now,
        ) == tomorrow_request(prices, now),
{
    let today = now.day();
    let known = |day: int|
        exists|i: int|
            0 <= i < prices.len() && (#[trigger] prices[i]).from.secs as int / 86_400 + 719_163
                == day;
    assert(covers(prices, today) == known(today)) by {
        if covers(prices, today) {
            let i = choose|i: int|
                0 <= i < prices.len() && (#[trigger] prices[i]).from.day() == today;
            assert(prices[i].from.secs as int / 86_400 + 719_163 == today);
        }
        if known(today) {
            let i = choose|i: int|
                0 <= i < prices.len() && (#[trigger] prices[i]).from.secs as int / 86_400
                    + 719_163 == today;
            assert(prices[i].from.day() == today);
        }
    }
    assert(covers(prices, today + 1) == known(today + 1)) by {
        if covers(prices, today + 1) {
            let i = choose|i: int|
                0 <= i < prices.len() && (#[trigger] prices[i]).from.day() == today + 1;
            assert(prices[i].from.secs as int / 86_400 + 719_163 == today + 1);
        }
        if known(today + 1) {
            let i = choose|i: int|
                0 <= i < prices.len() && (#[trigger] prices[i]).from.secs as int / 86_400
                    + 719_163 == today + 1;
            assert(prices[i].from.day() == today + 1);
        }
    }
}

} // verus!
