//! The position in a played video.

use core::cmp::Ordering;

use vstd::prelude::*;

use crate::double::Double;
use crate::text::push_two_digits;

verus! {

/// The time of a played video, in seconds.
/// It is never NaN and never infinite.
#[derive(Debug, Clone, Copy)]
pub struct Time {
    seconds: Double,
}

/// How a time of so many whole seconds is shown: hours, minutes and seconds, each modulo
/// sixty and with two digits.
pub open spec fn clock_text(total: int) -> Seq<char> {
    crate::text::padded((total / 3600) % 60, 2) + ":"@ + crate::text::padded((total / 60) % 60, 2)
        + ":"@ + crate::text::padded(total % 60, 2)
}

impl Time {
    /// The seconds.
    pub closed spec fn seconds(self) -> Double {
        self.seconds
    }

    /// The time at so many seconds.
    pub closed spec fn at(seconds: Double) -> Time {
        Time { seconds }
    }

    #[verifier::type_invariant]
    spec fn well_formed(self) -> bool {
        self.seconds.finite()
    }

    /// The time at so many seconds, which must be finite.
    pub fn from_seconds(seconds: Double) -> (t: Time)
        requires
            seconds.finite(),
        ensures
            t.seconds() == seconds,
            t == Time::at(seconds),
    {
        Time { seconds }
    }

    /// The start of the video.
    pub fn zero() -> (t: Time)
        ensures
            t.seconds().bits == 0,
            t.seconds().units() == 0,
    {
        Time { seconds: Double::zero() }
    }

    /// The time in seconds; always finite.
    pub fn as_seconds(&self) -> (seconds: Double)
        ensures
            seconds == self.seconds(),
            seconds.finite(),
    {
        proof {
            use_type_invariant(self);
        }
        self.seconds
    }

    /// The order of two times; they can always be compared.
    pub fn cmp(&self, other: &Time) -> (order: Ordering)
        ensures
            order == (if self.seconds().units() < other.seconds().units() {
                Ordering::Less
            } else if self.seconds().units() == other.seconds().units() {
                Ordering::Equal
            } else {
                Ordering::Greater
            }),
    {
        let a = self.as_seconds();
        let b = other.as_seconds();
        if a.lt(b) {
            Ordering::Less
        } else if b.lt(a) {
            Ordering::Greater
        } else {
            Ordering::Equal
        }
    }

    /// The time as hours, minutes and seconds.
    pub fn to_string(&self) -> (text: String)
        ensures
            text@ == clock_text(self.seconds().whole()),
    {
        let total: u32 = self.as_seconds().floor_u32();
        let mut text = String::new();
        push_two_digits(&mut text, (total / 3600) % 60);
        text.append(":");
        push_two_digits(&mut text, (total / 60) % 60);
        text.append(":");
        push_two_digits(&mut text, total % 60);
        assert(text@ =~= clock_text(total as int));
        text
    }
}

impl PartialEq for Time {
    fn eq(&self, other: &Time) -> (r: bool) {
        self.seconds == other.seconds
    }
}

impl vstd::std_specs::cmp::PartialEqSpecImpl for Time {
    open spec fn obeys_eq_spec() -> bool {
        true
    }

    open spec fn eq_spec(&self, other: &Time) -> bool {
        self.seconds().equals(other.seconds())
    }
}

impl Eq for Time {

}

impl PartialOrd for Time {
    fn partial_cmp(&self, other: &Time) -> (r: Option<Ordering>) {
        if self.seconds.lt(other.seconds) {
            Some(Ordering::Less)
        } else if other.seconds.lt(self.seconds) {
            Some(Ordering::Greater)
        } else if self.seconds == other.seconds {
            Some(Ordering::Equal)
        } else {
            None
        }
    }
}

impl vstd::std_specs::cmp::PartialOrdSpecImpl for Time {
    open spec fn obeys_partial_cmp_spec() -> bool {
        true
    }

    open spec fn partial_cmp_spec(&self, other: &Time) -> Option<Ordering> {
        if self.seconds().less(other.seconds()) {
            Some(Ordering::Less)
        } else if other.seconds().less(self.seconds()) {
            Some(Ordering::Greater)
        } else if self.seconds().equals(other.seconds()) {
            Some(Ordering::Equal)
        } else {
            None
        }
    }
}

impl core::ops::Sub for Time {
    type Output = Double;

    /// The seconds from `rhs` to `self`.
    fn sub(self, rhs: Time) -> (d: Double)
        ensures
            Double::difference(self.seconds(), rhs.seconds(), d),
    {
        self.seconds.minus(rhs.seconds)
    }
}

impl vstd::std_specs::ops::SubSpecImpl for Time {
    open spec fn obeys_sub_spec() -> bool {
        false
    }

    open spec fn sub_req(self, rhs: Time) -> bool {
        true
    }

    open spec fn sub_spec(self, rhs: Time) -> Double {
        choose|d: Double| Double::difference(self.seconds(), rhs.seconds(), d)
    }
}

/// Times are totally ordered: of any two the first is less, equal or greater, and the
/// order is transitive.
pub proof fn law_times_totally_ordered(a: Time, b: Time, c: Time)
    requires
        a.seconds().finite(),
        b.seconds().finite(),
        c.seconds().finite(),
    ensures
        a.seconds().less(b.seconds()) || a.seconds().equals(b.seconds()) || b.seconds().less(
            a.seconds(),
        ),
        !(a.seconds().less(b.seconds()) && b.seconds().less(a.seconds())),
        !(a.seconds().less(b.seconds()) && a.seconds().equals(b.seconds())),
        a.seconds().less(b.seconds()) && b.seconds().less(c.seconds()) ==> a.seconds().less(
            c.seconds(),
        ),
        a.seconds().equals(b.seconds()) && b.seconds().equals(c.seconds())
            ==> a.seconds().equals(c.seconds()),
{
}

/// Whole seconds below sixty hours are shown without loss: two such times that are shown
/// alike lie in the same second.
pub proof fn law_clock_text_tells_seconds_apart(m: int, n: int)
    requires
        0 <= m < 60 * 3600,
        0 <= n < 60 * 3600,
        clock_text(m) == clock_text(n),
    ensures
        m == n,
{
    reveal_strlit(":");
    let a = (m / 3600) % 60;
    let b = (m / 60) % 60;
    let c = m % 60;
    let x = (n / 3600) % 60;
    let y = (n / 60) % 60;
    let z = n % 60;
    crate::text::lemma_padded_len(a, 2);
    crate::text::lemma_padded_len(b, 2);
    crate::text::lemma_padded_len(c, 2);
    crate::text::lemma_padded_len(x, 2);
    crate::text::lemma_padded_len(y, 2);
    crate::text::lemma_padded_len(z, 2);
    let s = clock_text(m);
    let t = clock_text(n);
    assert(s.subrange(0, 2) =~= crate::text::padded(a, 2));
    assert(t.subrange(0, 2) =~= crate::text::padded(x, 2));
    assert(s.subrange(3, 5) =~= crate::text::padded(b, 2));
    assert(t.subrange(3, 5) =~= crate::text::padded(y, 2));
    assert(s.subrange(6, 8) =~= crate::text::padded(c, 2));
    assert(t.subrange(6, 8) =~= crate::text::padded(z, 2));
    assert(vstd::arithmetic::power::pow(10, 2) == 100) by {
        reveal_with_fuel(vstd::arithmetic::power::pow, 3);
    }
    crate::text::lemma_padded_distinct(a, x, 2);
    crate::text::lemma_padded_distinct(b, y, 2);
    crate::text::lemma_padded_distinct(c, z, 2);
}

/// A time is what its seconds say, and nothing more.
pub proof fn law_time_is_its_seconds(t: Time, seconds: Double)
    ensures
        Time::at(seconds).seconds() == seconds,
        Time::at(t.seconds()) == t,
{
}

/// A time is shown in eight characters: two digits that read as the whole hours modulo sixty,
/// two for the minutes and two for the seconds, with colons between them.
pub proof fn law_clock_shows_hours_minutes_and_seconds(t: Time, whole: u32, text: String)
    requires
        call_ensures(Double::floor_u32, (t.seconds(),), whole),
        call_ensures(Time::to_string, (&t,), text),
    ensures
        text@.len() == 8,
        text@[2] == ':' && text@[5] == ':',
        crate::text::all_digits(text@.subrange(0, 2)),
        crate::text::all_digits(text@.subrange(3, 5)),
        crate::text::all_digits(text@.subrange(6, 8)),
        ({
            let hours = crate::text::reading(text@.subrange(0, 2));
            let minutes = crate::text::reading(text@.subrange(3, 5));
            let seconds = crate::text::reading(text@.subrange(6, 8));
            &&& 0 <= hours < 60 && 0 <= minutes < 60 && 0 <= seconds < 60
            &&& 3600 * hours + 60 * minutes + seconds == whole % 216000
        }),
{
    let total = whole as int;
    reveal_strlit(":");
    let a = (total / 3600) % 60;
    let b = (total / 60) % 60;
    let c = total % 60;
    assert(vstd::arithmetic::power::pow(10, 2) == 100) by {
        reveal_with_fuel(vstd::arithmetic::power::pow, 3);
    }
    crate::text::law_padded_digits_read_as_the_number(a, 2);
    crate::text::law_padded_digits_read_as_the_number(b, 2);
    crate::text::law_padded_digits_read_as_the_number(c, 2);
    assert(text@.subrange(0, 2) =~= crate::text::padded(a, 2));
    assert(text@.subrange(3, 5) =~= crate::text::padded(b, 2));
    assert(text@.subrange(6, 8) =~= crate::text::padded(c, 2));
    let rest = total % 216000;
    assert(total == 216000 * (total / 216000) + rest);
    assert(total / 60 == 3600 * (total / 216000) + rest / 60);
    assert(total / 3600 == 60 * (total / 216000) + rest / 3600);
    assert(rest == 3600 * (rest / 3600) + 60 * ((rest / 60) % 60) + rest % 60);
}

/// A time holds the seconds that it was made of, and they are finite.
pub proof fn law_time_holds_its_seconds(seconds: Double, t: Time, back: Double, start: Time)
    requires
        call_ensures(Time::from_seconds, (seconds,), t),
        call_ensures(Time::as_seconds, (&t,), back),
        call_ensures(Time::zero, (), start),
    ensures
        back == seconds,
        back.finite(),
        start.seconds() == (Double { bits: 0 }),
{
}

/// Times are equal if their seconds are, and one is before another if it has fewer seconds.
pub proof fn law_times_are_ordered_by_their_seconds(
    a: Time,
    b: Time,
    order: Ordering,
    partial: Option<Ordering>,
    equal: bool,
)
    requires
        a.seconds().finite(),
        b.seconds().finite(),
        call_ensures(Time::cmp, (&a, &b), order),
        call_ensures(Time::partial_cmp, (&a, &b), partial),
        call_ensures(Time::eq, (&a, &b), equal),
    ensures
        equal <==> a.seconds().units() == b.seconds().units(),
        order == Ordering::Less <==> a.seconds().units() < b.seconds().units(),
        order == Ordering::Greater <==> a.seconds().units() > b.seconds().units(),
        partial == Some(order),
{
}

/// What lies between two times is what lies between their seconds.
pub proof fn law_times_differ_by_their_seconds(a: Time, b: Time, d: Double)
    requires
        call_ensures(<Time as core::ops::Sub>::sub, (a, b), d),
    ensures
        Double::difference(a.seconds(), b.seconds(), d),
{
}

} // verus!
