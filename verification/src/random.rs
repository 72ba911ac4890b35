//! The source of randomness of a simulation.

use crate::time::duration::{Duration, NANOS_PER_SEC};
use rand::distributions::{Distribution, Uniform};
use rand::rngs::SmallRng;
use rand::seq::SliceRandom;
use rand::{Rng, SeedableRng};
use vstd::prelude::*;

verus! {

/// The small, fast generator of the `rand` crate.
#[verifier::external_type_specification]
#[verifier::external_body]
pub struct ExSmallRng(rand::rngs::SmallRng);

/// What a run has drawn, draw by draw, by which another run can be compared with it.
#[derive(Debug)]
pub struct Log {
    /// A mark of the generator after each draw, and the time of the draw in nanoseconds.
    pub draws: Vec<(u64, u128)>,
}

/// Another run has drawn something else, or at another time.
#[derive(Debug, Clone, Copy, PartialEq, Eq, Structural)]
pub struct NonDeterminism {
    /// When this was found out.
    pub at: Duration,
}

/// What a run has drawn so far, and what it is compared with.
#[derive(Debug)]
pub struct RandLog {
    /// The draws so far.
    pub seen: Vec<(u64, u128)>,
    /// The draws of an earlier run, if there are any to compare with.
    pub expected: Option<Log>,
}

impl RandLog {
    /// A draw after which the generator shows `mark`, at the time `now`, is not the one that the
    /// earlier run has made at this point: that was another one, or it had come to its end.
    pub open spec fn departs(self, mark: u64, now: Duration) -> bool {
        self.expected matches Some(log) && (self.seen@.len() >= log.draws@.len()
            || log.draws@[self.seen@.len() as int] != (mark, now.nanos))
    }

    /// `after` is the log with one more draw.
    pub open spec fn has_noted(self, mark: u64, now: Duration, after: RandLog) -> bool {
        after.expected == self.expected && after.seen@ == self.seen@.push((mark, now.nanos))
    }

    /// Takes note of a draw, and finds out whether the earlier run has made the same.
    pub fn note(&mut self, mark: u64, now: Duration) -> (r: Result<(), NonDeterminism>)
        ensures
            final(self).expected == old(self).expected,
            final(self).seen@ == old(self).seen@.push((mark, now.nanos)),
            r is Err <==> old(self).departs(mark, now),
            r matches Err(found) ==> found == (NonDeterminism { at: now }),
    {
        let i: usize = self.seen.len();
        let departs: bool = match &self.expected {
            Some(log) => i >= log.draws.len() || log.draws[i].0 != mark || log.draws[i].1
                != now.nanos,
            None => false,
        };
        self.seen.push((mark, now.nanos));
        if departs {
            Err(NonDeterminism { at: now })
        } else {
            Ok(())
        }
    }
}

/// The generator from which every random choice of a simulation is drawn.
pub struct GlobalRng {
    inner: SmallRng,
    seed: u64,
    now: Duration,
    log: Option<RandLog>,
    departure: Option<NonDeterminism>,
}

impl GlobalRng {
    /// The seed from which the generator has started.
    pub closed spec fn seed(self) -> u64 {
        self.seed
    }

    /// The time at which what is drawn next is drawn.
    pub closed spec fn now(self) -> Duration {
        self.now
    }

    /// What was drawn since it was asked for, if it was.
    pub closed spec fn log(self) -> Option<RandLog> {
        self.log
    }

    /// The first draw that an earlier run has not made likewise, if one was found.
    pub closed spec fn departure(self) -> Option<NonDeterminism> {
        self.departure
    }

    /// The generator at the time `now`.
    pub closed spec fn at(self, now: Duration) -> GlobalRng {
        GlobalRng { now, ..self }
    }

    /// The generator shows `mark`: what it would give next as any number at all.
    pub closed spec fn shows(self, mark: u64) -> bool {
        exists|next: SmallRng| #[trigger] any_drawn(self.inner, mark, next)
    }

    /// `after` is the generator once a draw has been taken note of, where that was asked for, and
    /// compared with that of an earlier run, where there was one. The first departure is kept.
    pub open spec fn has_noted(self, after: GlobalRng) -> bool {
        &&& after.seed() == self.seed()
        &&& after.now() == self.now()
        &&& match self.log() {
            None => after.log() is None && after.departure() == self.departure(),
            Some(log) => exists|mark: u64|
                {
                    &&& #[trigger] after.shows(mark)
                    &&& after.log() matches Some(noted) && log.has_noted(mark, self.now(), noted)
                    &&& after.departure() == (if self.departure() is None && log.departs(
                        mark,
                        self.now(),
                    ) {
                        Some(NonDeterminism { at: self.now() })
                    } else {
                        self.departure()
                    })
                },
        }
    }

    /// Nothing has been drawn yet: the generator is as `SmallRng::seed_from_u64` gives it for
    /// `seed`, and nothing is taken note of.
    pub closed spec fn is_seeded_with(self, seed: u64) -> bool {
        self.seed == seed && call_ensures(seeded, (seed,), self.inner) && self.log is None
            && self.departure is None
    }

    /// The generator has given `drawn` as any number at all, and is `after` then.
    pub closed spec fn gave_any(self, drawn: u64, after: GlobalRng) -> bool {
        self.has_noted(after) && any_drawn(self.inner, drawn, after.inner)
    }

    /// The generator has given `drawn` as a number from `low` to below `high`, and is `after`
    /// then.
    pub closed spec fn gave_in_range(
        self,
        low: u64,
        high: u64,
        drawn: u64,
        after: GlobalRng,
    ) -> bool {
        self.has_noted(after) && call_ensures(
            draw_below,
            (&self.inner, low, high),
            (drawn, after.inner),
        )
    }

    /// The generator has given `drawn` at a probability of `numerator` in `denominator`, and is
    /// `after` then.
    pub closed spec fn gave_at_ratio(
        self,
        numerator: u32,
        denominator: u32,
        drawn: bool,
        after: GlobalRng,
    ) -> bool {
        self.has_noted(after) && call_ensures(
            draw_ratio,
            (&self.inner, numerator, denominator),
            (drawn, after.inner),
        )
    }

    /// The generator has given `drawn` as a span from `low` to below `high`, and is `after` then.
    pub closed spec fn gave_span(
        self,
        low: Duration,
        high: Duration,
        drawn: Duration,
        after: GlobalRng,
    ) -> bool {
        self.has_noted(after) && exists|from: (u64, u32), to: (u64, u32), at: (u64, u32)|
            {
                &&& are_parts_of(from, low)
                &&& are_parts_of(to, high)
                &&& are_parts_of(at, drawn)
                &&& #[trigger] span_drawn(self.inner, from, to, at, after.inner)
            }
    }

    /// The generator has given `drawn` as one of `items` by their weights, and is `after` then.
    pub closed spec fn gave_weighted<T>(
        self,
        items: &Vec<(u32, T)>,
        drawn: &(u32, T),
        after: GlobalRng,
    ) -> bool {
        self.has_noted(after) && call_ensures(
            draw_weighted::<T>,
            (&self.inner, items),
            (drawn, after.inner),
        )
    }

    /// The generator has put `before` into the order `items`, and is `after` then.
    pub closed spec fn gave_order(
        self,
        before: Seq<usize>,
        items: Seq<usize>,
        after: GlobalRng,
    ) -> bool {
        self.has_noted(after) && exists|from: Vec<usize>, to: Vec<usize>|
            from@ == before && to@ == items && #[trigger] order_drawn(
                self.inner,
                from,
                to,
                after.inner,
            )
    }

    /// A generator that is seeded with `seed`.
    pub fn new_with_seed(seed: u64) -> (r: GlobalRng)
        ensures
            r.seed() == seed,
            r.is_seeded_with(seed),
            r.now() == (Duration { nanos: 0 }),
            r.log() is None,
            r.departure() is None,
    {
        GlobalRng {
            inner: seeded(seed),
            seed,
            now: Duration::zero(),
            log: None,
            departure: None,
        }
    }

    /// Tells the generator the time.
    pub fn set_now(&mut self, now: Duration)
        ensures
            *final(self) == old(self).at(now),
            final(self).now() == now,
            final(self).seed() == old(self).seed(),
            final(self).log() == old(self).log(),
            final(self).departure() == old(self).departure(),
    {
        self.now = now;
    }

    /// Takes note of what is drawn from now on.
    pub fn enable_log(&mut self)
        ensures
            final(self).log() matches Some(log) && log.seen@ == Seq::<(u64, u128)>::empty()
                && log.expected is None,
            final(self).departure() is None,
            final(self).now() == old(self).now(),
            old(self).has_same_state(*final(self)),
    {
        self.log = Some(RandLog { seen: Vec::new(), expected: None });
        self.departure = None;
    }

    /// Takes note of what is drawn from now on, and compares it with what an earlier run has drawn.
    pub fn enable_check(&mut self, log: Log)
        ensures
            final(self).log() matches Some(own) && own.seen@ == Seq::<(u64, u128)>::empty()
                && own.expected == Some(log),
            final(self).departure() is None,
            final(self).now() == old(self).now(),
            old(self).has_same_state(*final(self)),
    {
        self.log = Some(RandLog { seen: Vec::new(), expected: Some(log) });
        self.departure = None;
    }

    /// Hands out what was drawn since it was asked for, and takes no more notes. There is nothing
    /// to hand out where it was not asked for.
    pub fn take_log(&mut self) -> (r: Option<Log>)
        ensures
            r is Some <==> old(self).log() is Some,
            r matches Some(log) ==> log.draws@ == old(self).log()->0.seen@,
            final(self).log() is None,
            final(self).departure() == old(self).departure(),
            final(self).now() == old(self).now(),
            old(self).has_same_state(*final(self)),
    {
        match self.log.take() {
            Some(log) => Some(Log { draws: log.seen }),
            None => None,
        }
    }

    /// Hands out the first draw that an earlier run has not made likewise, if one was found since
    /// this was asked last.
    pub fn take_departure(&mut self) -> (r: Option<NonDeterminism>)
        ensures
            r == old(self).departure(),
            final(self).departure() is None,
            final(self).log() == old(self).log(),
            final(self).now() == old(self).now(),
            old(self).has_same_state(*final(self)),
    {
        self.departure.take()
    }

    /// What will be drawn is the same, at the same time.
    pub closed spec fn has_same_state(self, other: GlobalRng) -> bool {
        other.inner == self.inner && other.seed == self.seed && other.now == self.now
    }

    /// Goes on with the state `next` that a draw has left, and takes note of the draw.
    fn step(&mut self, next: SmallRng)
        ensures
            final(self).inner == next,
            old(self).has_noted(*final(self)),
    {
        self.inner = next;
        if self.log.is_none() {
            return ;
        }
        let (mark, state) = draw_any(&self.inner);
        proof {
            assert(any_drawn(self.inner, mark, state));
            assert(self.shows(mark));
        }
        let now: Duration = self.now;
        let mut log: RandLog = self.log.take().unwrap();
        let noted: Result<(), NonDeterminism> = log.note(mark, now);
        self.log = Some(log);
        match noted {
            Ok(_) => {},
            Err(found) => {
                if self.departure.is_none() {
                    self.departure = Some(found);
                }
            },
        }
        proof {
            assert(any_drawn(self.inner, mark, state));
            assert(self.shows(mark));
        }
    }

    /// A random number that is at least `low` and below `high`.
    pub fn gen_range(&mut self, low: u64, high: u64) -> (r: u64)
        requires
            low < high,
        ensures
            low <= r < high,
            final(self).seed() == old(self).seed(),
            old(self).has_noted(*final(self)),
            old(self).gave_in_range(low, high, r, *final(self)),
    {
        let (drawn, next) = draw_below(&self.inner, low, high);
        self.step(next);
        drawn
    }

    /// `true` with a probability of `numerator` in `denominator`.
    pub fn gen_ratio(&mut self, numerator: u32, denominator: u32) -> (r: bool)
        requires
            0 < denominator,
            numerator <= denominator,
        ensures
            numerator == 0 ==> !r,
            numerator == denominator ==> r,
            final(self).seed() == old(self).seed(),
            old(self).has_noted(*final(self)),
            old(self).gave_at_ratio(numerator, denominator, r, *final(self)),
    {
        let (drawn, next) = draw_ratio(&self.inner, numerator, denominator);
        self.step(next);
        drawn
    }

    /// Any number at all.
    pub fn gen_u64(&mut self) -> (r: u64)
        ensures
            final(self).seed() == old(self).seed(),
            old(self).has_noted(*final(self)),
            old(self).gave_any(r, *final(self)),
    {
        let (drawn, next) = draw_any(&self.inner);
        self.step(next);
        drawn
    }

    /// A random span that is at least `low` and shorter than `high`.
    pub fn gen_duration(&mut self, low: Duration, high: Duration) -> (r: Duration)
        requires
            low.nanos < high.nanos,
            high.wf(),
        ensures
            low.nanos <= r.nanos < high.nanos,
            final(self).seed() == old(self).seed(),
            old(self).has_noted(*final(self)),
            old(self).gave_span(low, high, r, *final(self)),
    {
        let from: (u64, u32) = (low.as_secs(), low.subsec_nanos());
        let to: (u64, u32) = (high.as_secs(), high.subsec_nanos());
        let (at, next) = draw_duration(&self.inner, from, to);
        let drawn: Duration = Duration::from_parts(at.0, at.1);
        assert(are_parts_of(from, low) && are_parts_of(to, high) && are_parts_of(at, drawn));
        self.step(next);
        assert(span_drawn(old(self).inner, from, to, at, self.inner));
        drawn
    }

    /// One of `items`, drawn with a probability in proportion to its weight.
    pub fn choose_weighted<'a, T>(&mut self, items: &'a Vec<(u32, T)>) -> (r: &'a (u32, T))
        requires
            0 < total_weight(items@) <= u32::MAX,
        ensures
            items@.contains(*r),
            r.0 > 0,
            final(self).seed() == old(self).seed(),
            old(self).has_noted(*final(self)),
            old(self).gave_weighted(items, r, *final(self)),
    {
        let (drawn, next) = draw_weighted(&self.inner, items);
        self.step(next);
        drawn
    }

    /// Puts `items` in a random order.
    pub fn shuffle(&mut self, items: &mut Vec<usize>)
        ensures
            final(items)@.to_multiset() == old(items)@.to_multiset(),
            final(self).seed() == old(self).seed(),
            old(self).has_noted(*final(self)),
            old(self).gave_order(old(items)@, final(items)@, *final(self)),
    {
        let mut given: Vec<usize> = Vec::new();
        std::mem::swap(&mut given, items);
        let (drawn, next) = draw_order(&self.inner, given);
        self.step(next);
        assert(order_drawn(old(self).inner, given, drawn, self.inner));
        *items = drawn;
    }
}

/// `draw_any` has given `drawn`, and left the state `next`.
spec fn any_drawn(state: SmallRng, drawn: u64, next: SmallRng) -> bool {
    call_ensures(draw_any, (&state,), (drawn, next))
}

/// `draw_duration` has given `at` for `from` and `to`, and left the state `next`.
spec fn span_drawn(
    state: SmallRng,
    from: (u64, u32),
    to: (u64, u32),
    at: (u64, u32),
    next: SmallRng,
) -> bool {
    call_ensures(draw_duration, (&state, from, to), (at, next))
}

/// `draw_order` has put `from` into the order `to`, and left the state `next`.
spec fn order_drawn(state: SmallRng, from: Vec<usize>, to: Vec<usize>, next: SmallRng) -> bool {
    call_ensures(draw_order, (&state, from), (to, next))
}

/// A run that is compared with itself is never found to depart: if what was drawn so far are the
/// first draws of the log, the next one of the log is the one that is expected.
pub proof fn law_same_draws_do_not_depart(own: RandLog)
    requires
        own.expected matches Some(log) && own.seen@.len() < log.draws@.len(),
    ensures
        ({
            let (mark, nanos) = own.expected->0.draws@[own.seen@.len() as int];
            !own.departs(mark, Duration { nanos })
        }),
{
}

/// Non-determinism is found at the first draw that differs: where the earlier run has drawn
/// something else, has drawn it at another time, or has drawn nothing more, the draw departs, and a
/// run without departure has drawn the first draws of the log.
pub proof fn law_first_difference_is_found(
    own: RandLog,
    mark: u64,
    now: Duration,
    after: RandLog,
)
    requires
        own.expected matches Some(log) && own.seen@.len() <= log.draws@.len() && own.seen@
            == log.draws@.take(own.seen@.len() as int),
        own.has_noted(mark, now, after),
    ensures
        own.departs(mark, now) <==> !(after.seen@.len() <= own.expected->0.draws@.len()
            && after.seen@ == own.expected->0.draws@.take(after.seen@.len() as int)),
{
    let draws = own.expected->0.draws@;
    let n = own.seen@.len() as int;
    if n < draws.len() {
        assert(draws.take(n + 1) =~= draws.take(n).push(draws[n]));
        if after.seen@ == draws.take(n + 1) {
            assert(after.seen@[n] == draws.take(n + 1)[n]);
        }
    }
}

/// Whatever was drawn lies where it was asked for: a number in its range, a span in its range, an
/// item with some weight, what is sure is so and what is impossible is not, and an order holds what
/// there was.
pub proof fn law_draws_stay_where_they_were_asked_for<T>(
    rng: GlobalRng,
    range: (u64, u64, u64),
    span: (Duration, Duration, Duration),
    ratio: (u32, u32, bool),
    items: &Vec<(u32, T)>,
    item: &(u32, T),
    order: (Seq<usize>, Seq<usize>),
    after: GlobalRng,
)
    ensures
        rng.gave_in_range(range.0, range.1, range.2, after) ==> range.0 <= range.2 < range.1,
        rng.gave_span(span.0, span.1, span.2, after) ==> span.0.nanos <= span.2.nanos
            < span.1.nanos,
        rng.gave_at_ratio(ratio.0, ratio.1, ratio.2, after) ==> (ratio.0 == 0 ==> !ratio.2) && (
        ratio.0 == ratio.1 ==> ratio.2),
        rng.gave_weighted(items, item, after) ==> items@.contains(*item) && item.0 > 0,
        rng.gave_order(order.0, order.1, after) ==> order.1.to_multiset() == order.0.to_multiset(),
{
}

/// The length in nanoseconds of a span of `parts.0` seconds and `parts.1` nanoseconds.
pub open spec fn parts_nanos(parts: (u64, u32)) -> int {
    parts.0 * NANOS_PER_SEC + parts.1
}

/// `parts` are the whole seconds of `span` and the nanoseconds beyond them.
pub open spec fn are_parts_of(parts: (u64, u32), span: Duration) -> bool {
    parts.1 < NANOS_PER_SEC && parts_nanos(parts) == span.nanos
}

/// The sum of the weights of all items.
pub open spec fn total_weight<T>(items: Seq<(u32, T)>) -> nat
    decreases items.len(),
{
    if items.len() == 0 {
        0
    } else {
        total_weight(items.drop_last()) + items.last().0 as nat
    }
}

/// `SmallRng::seed_from_u64`. Which numbers the generator will yield is left unsaid: `rand`
/// gives different ones on different platforms.
#[verifier::external_body]
fn seeded(seed: u64) -> SmallRng {
    SmallRng::seed_from_u64(seed)
}

/// `Rng::gen_range` on the half-open range from `low` to `high`, on a copy of `rng`: the number
/// lies in the range. The copy is returned beside it.
#[verifier::external_body]
fn draw_below(rng: &SmallRng, low: u64, high: u64) -> (r: (u64, SmallRng))
    requires
        low < high,
    ensures
        low <= r.0 < high,
{
    let mut next = rng.clone();
    (next.gen_range(low..high), next)
}

/// `Rng::gen_ratio`, on a copy of `rng`: chance decides, but for a probability of zero or one. The
/// copy is returned beside the decision.
#[verifier::external_body]
fn draw_ratio(rng: &SmallRng, numerator: u32, denominator: u32) -> (r: (bool, SmallRng))
    requires
        0 < denominator,
        numerator <= denominator,
    ensures
        numerator == 0 ==> !r.0,
        numerator == denominator ==> r.0,
{
    let mut next = rng.clone();
    (next.gen_ratio(numerator, denominator), next)
}

/// `Rng::gen` for a `u64`, on a copy of `rng`. Every number can come. The copy is returned beside
/// it.
#[verifier::external_body]
fn draw_any(rng: &SmallRng) -> (u64, SmallRng) {
    let mut next = rng.clone();
    (next.gen(), next)
}

/// `Uniform::from` on a half-open range of spans, and `sample` on it with a copy of `rng`: the span
/// drawn lies in the range. Spans are given and returned as whole seconds and the nanoseconds
/// beyond them, and the copy is returned beside the span.
#[verifier::external_body]
fn draw_duration(rng: &SmallRng, low: (u64, u32), high: (u64, u32)) -> (r: ((u64, u32), SmallRng))
    requires
        low.1 < NANOS_PER_SEC,
        high.1 < NANOS_PER_SEC,
        parts_nanos(low) < parts_nanos(high),
    ensures
        r.0.1 < NANOS_PER_SEC,
        parts_nanos(low) <= parts_nanos(r.0) < parts_nanos(high),
{
    let mut next = rng.clone();
    let low = std::time::Duration::new(low.0, low.1);
    let high = std::time::Duration::new(high.0, high.1);
    let drawn = Uniform::from(low..high).sample(&mut next);
    ((drawn.as_secs(), drawn.subsec_nanos()), next)
}

/// `SliceRandom::choose_weighted` by the first component, on a copy of `rng`: the item returned is
/// one of those that carry weight. The copy is returned beside it.
#[verifier::external_body]
fn draw_weighted<'a, T>(rng: &SmallRng, items: &'a Vec<(u32, T)>) -> (r: (&'a (u32, T), SmallRng))
    requires
        0 < total_weight(items@) <= u32::MAX,
    ensures
        items@.contains(*r.0),
        r.0.0 > 0,
{
    let mut next = rng.clone();
    (items.choose_weighted(&mut next, |item| item.0).unwrap(), next)
}

/// `SliceRandom::shuffle`, on a copy of `rng`: the items stay the same, in an order that chance
/// decides. The copy is returned beside them.
#[verifier::external_body]
fn draw_order(rng: &SmallRng, items: Vec<usize>) -> (r: (Vec<usize>, SmallRng))
    ensures
        r.0@.to_multiset() == items@.to_multiset(),
{
    let (mut items, mut next) = (items, rng.clone());
    items.shuffle(&mut next);
    (items, next)
}

/// Each draw is noted once, behind all others, with the time at which it was made, where notes are
/// taken, and not otherwise. A departure that was found is kept, and the first one is told, with the
/// time at which it was found.
pub proof fn law_each_draw_is_noted_once(rng: GlobalRng, after: GlobalRng)
    requires
        rng.has_noted(after),
    ensures
        after.log() is Some <==> rng.log() is Some,
        after.now() == rng.now(),
        after.seed() == rng.seed(),
        rng.log() matches Some(log) ==> {
            let noted = after.log()->0;
            &&& noted.seen@.len() == log.seen@.len() + 1
            &&& noted.seen@.drop_last() == log.seen@
            &&& noted.seen@.last().1 == rng.now().nanos
            &&& noted.expected == log.expected
            &&& log.expected is None ==> after.departure() == rng.departure()
            &&& rng.departure() is None && log.expected is Some && log.seen@.len()
                < log.expected->0.draws@.len() ==> (after.departure() is None <==> noted.seen@.last()
                == log.expected->0.draws@[log.seen@.len() as int])
        },
        rng.departure() is Some ==> after.departure() == rng.departure(),
        rng.departure() is None && after.departure() is Some ==> after.departure() == Some(
            NonDeterminism { at: rng.now() },
        ),
        rng.log() is None ==> after.departure() == rng.departure(),
{
    if let Some(log) = rng.log() {
        assert(after.log()->0.seen@.drop_last() =~= log.seen@);
    }
}

} // verus!
