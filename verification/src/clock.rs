//! The simulation tick: reset when a game or a replay starts, advanced once
//! per frame while the physics pipeline runs, and shown as decimal text.

use vstd::prelude::*;

verus! {

/// Number of frames the physics pipeline has run since the game (or the
/// replay) started.
#[derive(Clone, Copy, Debug, PartialEq, Eq, Structural)]
pub struct Tick(pub u64);

/// The character that shows the decimal digit `d` (for `d < 10`).
pub open spec fn digit_char(d: nat) -> char {
    if d == 0 { '0' }
    else if d == 1 { '1' }
    else if d == 2 { '2' }
    else if d == 3 { '3' }
    else if d == 4 { '4' }
    else if d == 5 { '5' }
    else if d == 6 { '6' }
    else if d == 7 { '7' }
    else if d == 8 { '8' }
    else { '9' }
}

/// Decimal notation of `n`, most significant digit first, without leading
/// zeros (zero itself is `"0"`).
pub open spec fn decimal_text(n: nat) -> Seq<char>
    decreases n,
{
    if n < 10 {
        seq![digit_char(n)]
    } else {
        decimal_text(n / 10).push(digit_char(n % 10))
    }
}

/// Whether `c` is one of the characters `'0'` to `'9'`.
pub open spec fn is_digit(c: char) -> bool {
    '0' <= c <= '9'
}

/// Every character of `s` is a decimal digit, and there is at least one.
pub open spec fn all_digits(s: Seq<char>) -> bool {
    s.len() > 0 && forall|i: int| 0 <= i < s.len() ==> is_digit(#[trigger] s[i])
}

/// The number that the decimal numeral `s` reads as: each digit's value
/// (its distance from `'0'`) weighted by a power of ten.
pub open spec fn numeral_value(s: Seq<char>) -> int
    decreases s.len(),
{
    if s.len() == 0 {
        0
    } else {
        numeral_value(s.drop_last()) * 10 + ((s.last() as int) - ('0' as int))
    }
}

/// `digit_char` shows each digit below ten by a digit character of that
/// value.
proof fn lemma_digit_char_value(d: nat)
    requires
        d < 10,
    ensures
        is_digit(digit_char(d)),
        (digit_char(d) as int) - ('0' as int) == d,
{
}

/// The decimal text of `n` is a numeral of digits only that reads back as
/// `n`, with no leading zero (unless `n` is zero), and one digit more for
/// each factor of ten.
pub proof fn lemma_decimal_text_reads_back(n: nat)
    ensures
        all_digits(decimal_text(n)),
        numeral_value(decimal_text(n)) == n,
        decimal_text(n)[0] == '0' ==> n == 0,
        n < 10 ==> decimal_text(n).len() == 1,
        n >= 10 ==> decimal_text(n).len() == decimal_text(n / 10).len() + 1,
    decreases n,
{
    lemma_digit_char_value(n % 10);
    if n < 10 {
        let s = decimal_text(n);
        assert(s.drop_last() =~= Seq::<char>::empty());
        assert(numeral_value(s) == numeral_value(s.drop_last()) * 10 + ((s.last() as int) - ('0' as int)));
    } else {
        lemma_decimal_text_reads_back(n / 10);
        let s = decimal_text(n);
        let p = decimal_text(n / 10);
        assert(s.drop_last() =~= p);
        assert(s.last() == digit_char(n % 10));
        assert(numeral_value(s) == numeral_value(p) * 10 + (n % 10));
        assert(n == (n / 10) * 10 + n % 10);
        assert(s[0] == p[0]);
        assert forall|i: int| 0 <= i < s.len() implies is_digit(#[trigger] s[i]) by {
            if i < p.len() {
                assert(s[i] == p[i]);
            }
        }
    }
}

/// While the physics pipeline is paused the tick never changes; while it
/// runs, each frame adds exactly one.
pub proof fn lemma_tick_counts_running_frames(tick: Tick)
    ensures
        next_tick(tick, false) == tick,
        tick.0 < u64::MAX ==> next_tick(tick, true).0 == tick.0 + 1,
{
}

fn digit_str(d: u64) -> (s: &'static str)
    requires
        d < 10,
    ensures
        s@ == seq![digit_char(d as nat)],
{
    if d == 0 {
        proof { reveal_strlit("0"); }
        "0"
    } else if d == 1 {
        proof { reveal_strlit("1"); }
        "1"
    } else if d == 2 {
        proof { reveal_strlit("2"); }
        "2"
    } else if d == 3 {
        proof { reveal_strlit("3"); }
        "3"
    } else if d == 4 {
        proof { reveal_strlit("4"); }
        "4"
    } else if d == 5 {
        proof { reveal_strlit("5"); }
        "5"
    } else if d == 6 {
        proof { reveal_strlit("6"); }
        "6"
    } else if d == 7 {
        proof { reveal_strlit("7"); }
        "7"
    } else if d == 8 {
        proof { reveal_strlit("8"); }
        "8"
    } else {
        proof { reveal_strlit("9"); }
        "9"
    }
}

fn append_decimal(n: u64, out: &mut String)
    ensures
        final(out)@ == old(out)@ + decimal_text(n as nat),
    decreases n,
{
    if n >= 10 {
        append_decimal(n / 10, out);
    }
    out.append(digit_str(n % 10));
}

/// The text of a tick counter: its number in decimal.
pub fn tick_text(tick: Tick) -> (s: String)
    ensures
        s@ == decimal_text(tick.0 as nat),
        all_digits(s@),
        numeral_value(s@) == tick.0,
{
    let mut s = String::new();
    append_decimal(tick.0, &mut s);
    proof {
        lemma_decimal_text_reads_back(tick.0 as nat);
    }
    s
}

/// Starting a game: the tick counter starts again from zero and the physics
/// pipeline is switched on.
pub fn game_setup(tick: &mut Tick, physics_pipeline_active: &mut bool)
    ensures
        final(tick).0 == 0,
        *final(physics_pipeline_active),
{
    tick.0 = 0;
    *physics_pipeline_active = true;
}

/// The tick after one frame: one more while the physics pipeline runs,
/// unchanged while it is paused.
pub open spec fn next_tick(tick: Tick, physics_pipeline_active: bool) -> Tick {
    if physics_pipeline_active { Tick((tick.0 + 1) as u64) } else { tick }
}

/// End of a frame. While the physics pipeline runs the tick advances by one
/// and the new text of the tick display is returned; while it is paused
/// nothing changes and there is no new text.
pub fn game_increment_tick(physics_pipeline_active: bool, tick: &mut Tick) -> (text: Option<String>)
    requires
        physics_pipeline_active ==> old(tick).0 < u64::MAX,
    ensures
        *final(tick) == next_tick(*old(tick), physics_pipeline_active),
        physics_pipeline_active ==> final(tick).0 == old(tick).0 + 1,
        !physics_pipeline_active ==> *final(tick) == *old(tick),
        physics_pipeline_active <==> text is Some,
        text matches Some(t) ==> t@ == decimal_text(final(tick).0 as nat),
        text matches Some(t) ==> all_digits(t@) && numeral_value(t@) == final(tick).0,
{
    if !physics_pipeline_active {
        return None;
    }
    tick.0 = tick.0 + 1;
    let text = tick_text(*tick);
    Some(text)
}

} // verus!
