//! Timestamp rendering.
//!
//! The default rendering is `HH:MM:SS.uuuuuu`: two-digit hour, minute and
//! second of the local wall-clock time, and the six-digit microsecond part
//! of the time since the Unix epoch.  A timestamp template may instead bind
//! the placeholders `hours`, `minutes`, `seconds` and `micros`, each already
//! zero-padded to its fixed width.

use vstd::prelude::*;

use chrono::Timelike;

use crate::template::{subst_spec, substitute, views_of, LogError};

verus! {

/// The decimal digit character for `d` (clamped into the digit range).
pub open spec fn digit_char(d: int) -> char {
    if d == 0 {
        '0'
    } else if d == 1 {
        '1'
    } else if d == 2 {
        '2'
    } else if d == 3 {
        '3'
    } else if d == 4 {
        '4'
    } else if d == 5 {
        '5'
    } else if d == 6 {
        '6'
    } else if d == 7 {
        '7'
    } else if d == 8 {
        '8'
    } else {
        '9'
    }
}

pub open spec fn is_dec_digit(c: char) -> bool {
    c == '0' || c == '1' || c == '2' || c == '3' || c == '4' || c == '5' || c == '6' || c == '7'
        || c == '8' || c == '9'
}

/// `n` rendered as exactly two decimal digits, zero-padded.
pub open spec fn two_digits(n: int) -> Seq<char> {
    seq![digit_char(n / 10), digit_char(n % 10)]
}

/// `n` rendered as exactly six decimal digits, zero-padded.
pub open spec fn six_digits(n: int) -> Seq<char> {
    seq![
        digit_char(n / 100000 % 10),
        digit_char(n / 10000 % 10),
        digit_char(n / 1000 % 10),
        digit_char(n / 100 % 10),
        digit_char(n / 10 % 10),
        digit_char(n % 10),
    ]
}

/// The ranges the wall clock can report: hour, minute and second of a day,
/// and the microsecond part of a second.
pub open spec fn clock_in_range(h: int, m: int, s: int, u: int) -> bool {
    &&& 0 <= h < 24
    &&& 0 <= m < 60
    &&& 0 <= s < 60
    &&& 0 <= u < 1000000
}

/// The default timestamp rendering, `HH:MM:SS.uuuuuu`.
pub open spec fn default_ts(h: int, m: int, s: int, u: int) -> Seq<char> {
    two_digits(h) + seq![':'] + two_digits(m) + seq![':'] + two_digits(s) + seq!['.'] + six_digits(
        u,
    )
}

/// The fixed bindings a timestamp template may reference.
pub open spec fn ts_vars(h: int, m: int, s: int, u: int) -> Seq<(Seq<char>, Seq<char>)> {
    seq![
        ("hours"@, two_digits(h)),
        ("minutes"@, two_digits(m)),
        ("seconds"@, two_digits(s)),
        ("micros"@, six_digits(u)),
    ]
}

/// What a timestamp rendering yields for clock reading `h:m:s.u`: the
/// default form if no template is set, the substituted template otherwise.
pub open spec fn render_ts(frmt: Option<Seq<char>>, h: int, m: int, s: int, u: int) -> Result<
    Seq<char>,
    LogError,
> {
    match frmt {
        None => Ok(default_ts(h, m, s, u)),
        Some(t) => subst_spec(t, ts_vars(h, m, s, u)),
    }
}

/// The shape `DD:DD:DD.DDDDDD`: fifteen characters, decimal digits
/// everywhere but the two colons and the dot.
pub open spec fn is_default_ts_shape(ts: Seq<char>) -> bool {
    &&& ts.len() == 15
    &&& is_dec_digit(ts[0])
    &&& is_dec_digit(ts[1])
    &&& ts[2] == ':'
    &&& is_dec_digit(ts[3])
    &&& is_dec_digit(ts[4])
    &&& ts[5] == ':'
    &&& is_dec_digit(ts[6])
    &&& is_dec_digit(ts[7])
    &&& ts[8] == '.'
    &&& is_dec_digit(ts[9])
    &&& is_dec_digit(ts[10])
    &&& is_dec_digit(ts[11])
    &&& is_dec_digit(ts[12])
    &&& is_dec_digit(ts[13])
    &&& is_dec_digit(ts[14])
}

proof fn lemma_digit_char_is_digit(d: int)
    ensures
        is_dec_digit(digit_char(d)),
{
}

/// The default timestamp of any in-range clock reading is exactly fifteen
/// characters and matches `DD:DD:DD.DDDDDD`.
pub proof fn lemma_default_ts_shape(h: int, m: int, s: int, u: int)
    requires
        clock_in_range(h, m, s, u),
    ensures
        is_default_ts_shape(default_ts(h, m, s, u)),
{
    let ts = default_ts(h, m, s, u);
    assert(ts =~= seq![
        digit_char(h / 10),
        digit_char(h % 10),
        ':',
        digit_char(m / 10),
        digit_char(m % 10),
        ':',
        digit_char(s / 10),
        digit_char(s % 10),
        '.',
        digit_char(u / 100000 % 10),
        digit_char(u / 10000 % 10),
        digit_char(u / 1000 % 10),
        digit_char(u / 100 % 10),
        digit_char(u / 10 % 10),
        digit_char(u % 10),
    ]);
    lemma_digit_char_is_digit(h / 10);
    lemma_digit_char_is_digit(h % 10);
    lemma_digit_char_is_digit(m / 10);
    lemma_digit_char_is_digit(m % 10);
    lemma_digit_char_is_digit(s / 10);
    lemma_digit_char_is_digit(s % 10);
    lemma_digit_char_is_digit(u / 100000 % 10);
    lemma_digit_char_is_digit(u / 10000 % 10);
    lemma_digit_char_is_digit(u / 1000 % 10);
    lemma_digit_char_is_digit(u / 100 % 10);
    lemma_digit_char_is_digit(u / 10 % 10);
    lemma_digit_char_is_digit(u % 10);
}

/// Relies on chrono's `Local::now` and its `Timelike` accessors: `hour`
/// returns the hour number from 0 to 23, `minute` the minute number from 0
/// to 59, and `second` the second number from 0 to 59.
#[verifier::external_body]
fn local_time_hms() -> (r: (u32, u32, u32))
    ensures
        r.0 < 24,
        r.1 < 60,
        r.2 < 60,
{
    let now = chrono::Local::now();
    (now.hour(), now.minute(), now.second())
}

/// Relies on std's `SystemTime::now` and `duration_since`: the whole
/// microseconds of wall-clock time since the Unix epoch, or the error when
/// the clock reads earlier than the epoch.
#[verifier::external_body]
fn epoch_micros() -> Result<u128, ()> {
    match std::time::SystemTime::now().duration_since(std::time::UNIX_EPOCH) {
        Ok(d) => Ok(d.as_micros()),
        Err(_) => Err(()),
    }
}

/// The microsecond part of the wall-clock time since the Unix epoch; a
/// clock reading earlier than the epoch counts as the epoch itself.
fn micros_now() -> (r: u32)
    ensures
        r < 1000000,
{
    let total: u128 = match epoch_micros() {
        Ok(x) => x,
        Err(()) => 0,
    };
    (total % 1000000) as u32
}

fn digit_str(d: u32) -> (r: &'static str)
    requires
        d < 10,
    ensures
        r@ == seq![digit_char(d as int)],
{
    proof {
        reveal_strlit("0");
        reveal_strlit("1");
        reveal_strlit("2");
        reveal_strlit("3");
        reveal_strlit("4");
        reveal_strlit("5");
        reveal_strlit("6");
        reveal_strlit("7");
        reveal_strlit("8");
        reveal_strlit("9");
    }
    if d == 0 {
        let r = "0";
        proof {
            assert(r@ =~= seq![digit_char(0)]);
        }
        r
    } else if d == 1 {
        let r = "1";
        proof {
            assert(r@ =~= seq![digit_char(1)]);
        }
        r
    } else if d == 2 {
        let r = "2";
        proof {
            assert(r@ =~= seq![digit_char(2)]);
        }
        r
    } else if d == 3 {
        let r = "3";
        proof {
            assert(r@ =~= seq![digit_char(3)]);
        }
        r
    } else if d == 4 {
        let r = "4";
        proof {
            assert(r@ =~= seq![digit_char(4)]);
        }
        r
    } else if d == 5 {
        let r = "5";
        proof {
            assert(r@ =~= seq![digit_char(5)]);
        }
        r
    } else if d == 6 {
        let r = "6";
        proof {
            assert(r@ =~= seq![digit_char(6)]);
        }
        r
    } else if d == 7 {
        let r = "7";
        proof {
            assert(r@ =~= seq![digit_char(7)]);
        }
        r
    } else if d == 8 {
        let r = "8";
        proof {
            assert(r@ =~= seq![digit_char(8)]);
        }
        r
    } else {
        let r = "9";
        proof {
            assert(r@ =~= seq![digit_char(9)]);
        }
        r
    }
}

fn push_two_digits(out: &mut String, n: u32)
    requires
        n < 100,
    ensures
        final(out)@ == old(out)@ + two_digits(n as int),
{
    out.append(digit_str(n / 10));
    out.append(digit_str(n % 10));
    proof {
        assert((old(out)@ + seq![digit_char(n as int / 10)]) + seq![digit_char(n as int % 10)]
            =~= old(out)@ + two_digits(n as int));
    }
}

fn push_six_digits(out: &mut String, n: u32)
    requires
        n < 1000000,
    ensures
        final(out)@ == old(out)@ + six_digits(n as int),
{
    out.append(digit_str(n / 100000 % 10));
    out.append(digit_str(n / 10000 % 10));
    out.append(digit_str(n / 1000 % 10));
    out.append(digit_str(n / 100 % 10));
    out.append(digit_str(n / 10 % 10));
    out.append(digit_str(n % 10));
    proof {
        assert(((((((old(out)@ + seq![digit_char(n as int / 100000 % 10)]) + seq![
            digit_char(n as int / 10000 % 10),
        ]) + seq![digit_char(n as int / 1000 % 10)]) + seq![digit_char(n as int / 100 % 10)])
            + seq![digit_char(n as int / 10 % 10)]) + seq![digit_char(n as int % 10)]) =~= old(
            out,
        )@ + six_digits(n as int));
    }
}

fn two_digit_string(n: u32) -> (r: String)
    requires
        n < 100,
    ensures
        r@ == two_digits(n as int),
{
    let mut out = String::new();
    push_two_digits(&mut out, n);
    proof {
        assert(Seq::<char>::empty() + two_digits(n as int) =~= two_digits(n as int));
    }
    out
}

fn six_digit_string(n: u32) -> (r: String)
    requires
        n < 1000000,
    ensures
        r@ == six_digits(n as int),
{
    let mut out = String::new();
    push_six_digits(&mut out, n);
    proof {
        assert(Seq::<char>::empty() + six_digits(n as int) =~= six_digits(n as int));
    }
    out
}

fn render_default_ts(h: u32, m: u32, s: u32, u: u32) -> (r: String)
    requires
        h < 24,
        m < 60,
        s < 60,
        u < 1000000,
    ensures
        r@ == default_ts(h as int, m as int, s as int, u as int),
{
    let mut out = String::new();
    push_two_digits(&mut out, h);
    out.append(":");
    push_two_digits(&mut out, m);
    out.append(":");
    push_two_digits(&mut out, s);
    out.append(".");
    push_six_digits(&mut out, u);
    proof {
        reveal_strlit(":");
        reveal_strlit(".");
        assert(":"@ =~= seq![':']);
        assert("."@ =~= seq!['.']);
        assert(out@ =~= default_ts(h as int, m as int, s as int, u as int));
    }
    out
}

/// The view of an optional template argument.
pub open spec fn opt_view(frmt: Option<&String>) -> Option<Seq<char>> {
    match frmt {
        None => None,
        Some(s) => Some(s@),
    }
}

/// Holds when `r` is what rendering the timestamp template `frmt` yields
/// for the in-range clock reading `h:m:s.u`.
pub open spec fn ts_rendered(
    frmt: Option<Seq<char>>,
    r: Result<String, LogError>,
    h: int,
    m: int,
    s: int,
    u: int,
) -> bool {
    clock_in_range(h, m, s, u) && (match render_ts(frmt, h, m, s, u) {
        Ok(ts) => r matches Ok(out) && out@ == ts,
        Err(e) => r matches Err(e2) && e2 == e,
    })
}

/// Renders a timestamp for the current wall-clock time: the default
/// `HH:MM:SS.uuuuuu` form when no template is given, otherwise the template
/// with `hours`, `minutes`, `seconds` and `micros` substituted.
pub fn timestamp_fmt(frmt: Option<&String>) -> (r: Result<String, LogError>)
    ensures
        exists|h: int, m: int, s: int, u: int|
            #[trigger] ts_rendered(opt_view(frmt), r, h, m, s, u),
{
    let (h, m, s) = local_time_hms();
    let u: u32 = micros_now();
    match frmt {
        None => {
            let out = render_default_ts(h, m, s, u);
            let res: Result<String, LogError> = Ok(out);
            proof {
                assert(ts_rendered(
                    opt_view(frmt),
                    res,
                    h as int,
                    m as int,
                    s as int,
                    u as int,
                ));
            }
            res
        },
        Some(f) => {
            let mut vars: Vec<(String, String)> = Vec::new();
            vars.push((String::from_str("hours"), two_digit_string(h)));
            vars.push((String::from_str("minutes"), two_digit_string(m)));
            vars.push((String::from_str("seconds"), two_digit_string(s)));
            vars.push((String::from_str("micros"), six_digit_string(u)));
            proof {
                assert(views_of(vars@) =~= ts_vars(h as int, m as int, s as int, u as int));
            }
            let res = substitute(f.as_str(), &vars);
            proof {
                assert(ts_rendered(
                    opt_view(frmt),
                    res,
                    h as int,
                    m as int,
                    s as int,
                    u as int,
                ));
            }
            res
        },
    }
}

/// The default timestamp for the current wall-clock time: always exactly
/// fifteen characters in the shape `DD:DD:DD.DDDDDD`.
pub fn tstamp() -> (r: String)
    ensures
        exists|h: int, m: int, s: int, u: int|
            #![auto]
            clock_in_range(h, m, s, u) && r@ == default_ts(h, m, s, u),
        is_default_ts_shape(r@),
{
    let (h, m, s) = local_time_hms();
    let u: u32 = micros_now();
    let out = render_default_ts(h, m, s, u);
    proof {
        lemma_default_ts_shape(h as int, m as int, s as int, u as int);
    }
    out
}

} // verus!
