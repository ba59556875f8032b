//! Cycle statistics and their telemetry payload.
//!
//! The payload of a heartbeat is the JSON object `{"update_duration":N}`, with
//! the elapsed milliseconds `N` in decimal and no white space.

use vstd::prelude::*;
use vstd::string::is_ascii_spec_bytes;

verus! {

/// How long one pass took, in milliseconds on a monotonic clock.
#[derive(Debug, Clone, Copy, PartialEq, Eq, Structural)]
pub struct Stats {
    pub update_duration: u128,
}

/// The bytes of a text of ASCII characters.
pub open spec fn ascii(text: Seq<char>) -> Seq<u8> {
    Seq::new(text.len(), |i: int| text[i] as u8)
}

/// The decimal digits of a number, most significant first, as ASCII bytes.
pub open spec fn decimal(n: nat) -> Seq<u8>
    decreases n,
{
    if n < 10 {
        seq![(48 + n) as u8]
    } else {
        decimal(n / 10).push((48 + n % 10) as u8)
    }
}

/// The number that a string of decimal digits stands for.
pub open spec fn numeral(digits: Seq<u8>) -> int
    decreases digits.len(),
{
    if digits.len() == 0 {
        0
    } else {
        numeral(digits.drop_last()) * 10 + (digits.last() - 48)
    }
}

/// What precedes the number in a heartbeat payload.
pub open spec fn payload_head() -> Seq<u8> {
    ascii("{\"update_duration\":"@)
}

/// What follows the number in a heartbeat payload.
pub open spec fn payload_tail() -> Seq<u8> {
    ascii("}"@)
}

/// The telemetry payload of a duration.
pub open spec fn stats_payload(duration: nat) -> Seq<u8> {
    payload_head() + decimal(duration) + payload_tail()
}

/// The statistics that a payload stands for: those whose payload it is, if
/// there are any.
pub open spec fn decoded_stats(payload: Seq<u8>) -> Option<Stats> {
    if exists|d: u128| payload == stats_payload(d as nat) {
        Some(Stats { update_duration: choose|d: u128| payload == stats_payload(d as nat) })
    } else {
        None
    }
}

/// The decimal form of a number has at least one digit, holds digits only,
/// and begins with a zero only where the number is zero.
pub proof fn lemma_decimal_digits(n: nat)
    ensures
        decimal(n).len() >= 1,
        forall|i: int| 0 <= i < decimal(n).len() ==> 48 <= #[trigger] decimal(n)[i] <= 57,
        n < 10 ==> decimal(n).len() == 1,
        n >= 10 ==> decimal(n).len() >= 2,
        n >= 1 ==> decimal(n)[0] != 48,
    decreases n,
{
    if n >= 10 {
        lemma_decimal_digits(n / 10);
    }
}

/// The decimal form of a number stands for that number.
pub proof fn lemma_numeral_of_decimal(n: nat)
    ensures
        numeral(decimal(n)) == n,
    decreases n,
{
    if n < 10 {
        let d = decimal(n);
        assert(d.drop_last() =~= Seq::<u8>::empty());
        assert(numeral(d.drop_last()) == 0);
    } else {
        lemma_numeral_of_decimal(n / 10);
        let d = decimal(n);
        assert(d.drop_last() =~= decimal(n / 10));
    }
}

/// The value of a string of digits is at least the value of each prefix.
pub proof fn lemma_numeral_prefix(digits: Seq<u8>, i: int)
    requires
        0 <= i <= digits.len(),
        forall|j: int| 0 <= j < digits.len() ==> 48 <= #[trigger] digits[j],
    ensures
        0 <= numeral(digits.take(i)) <= numeral(digits),
    decreases digits.len(),
{
    if digits.len() == 0 {
        assert(digits.take(i) =~= digits);
    } else if i == digits.len() {
        assert(digits.take(i) =~= digits);
        lemma_numeral_prefix(digits.drop_last(), i - 1);
    } else {
        lemma_numeral_prefix(digits.drop_last(), i);
        assert(digits.drop_last().take(i) =~= digits.take(i));
    }
}

/// The parts of a payload: head, digits, tail.
pub proof fn lemma_payload_shape(d: nat)
    ensures
        payload_head().len() == 19,
        payload_tail() == seq![125u8],
        stats_payload(d).len() == 20 + decimal(d).len(),
        stats_payload(d).subrange(0, 19) == payload_head(),
        stats_payload(d).subrange(19, stats_payload(d).len() - 1) == decimal(d),
        stats_payload(d).last() == 125,
{
    reveal_strlit("{\"update_duration\":");
    reveal_strlit("}");
    let p = stats_payload(d);
    assert(payload_tail() =~= seq![125u8]);
    assert(p.subrange(0, 19) =~= payload_head());
    assert(p.subrange(19, p.len() - 1) =~= decimal(d));
}

/// Two durations with one payload are one duration.
pub proof fn lemma_payload_injective(a: nat, b: nat)
    requires
        stats_payload(a) == stats_payload(b),
    ensures
        a == b,
{
    lemma_payload_shape(a);
    lemma_payload_shape(b);
    lemma_numeral_of_decimal(a);
    lemma_numeral_of_decimal(b);
}

/// Decoding the payload of any statistics gives those statistics back.
pub proof fn lemma_stats_round_trip(stats: Stats)
    ensures
        decoded_stats(stats_payload(stats.update_duration as nat)) == Some(stats),
{
    let payload = stats_payload(stats.update_duration as nat);
    let d = choose|d: u128| payload == stats_payload(d as nat);
    lemma_payload_injective(d as nat, stats.update_duration as nat);
}

/// Appends the bytes of an ASCII text.
fn push_ascii(out: &mut Vec<u8>, text: &str)
    requires
        text.is_ascii(),
    ensures
        final(out)@ == old(out)@ + ascii(text@),
{
    let bytes = text.as_bytes();
    let ghost before = out@;
    proof {
        is_ascii_spec_bytes(text);
        assert(bytes@ =~= ascii(text@));
    }
    let mut i: usize = 0;
    while i < bytes.len()
        invariant
            i <= bytes.len(),
            out@ == before + bytes@.take(i as int),
        decreases bytes.len() - i,
    {
        out.push(bytes[i]);
        i = i + 1;
        assert(out@ =~= before + bytes@.take(i as int));
    }
    assert(bytes@.take(bytes.len() as int) =~= bytes@);
}

/// Appends the decimal digits of a number.
fn push_decimal(out: &mut Vec<u8>, n: u128)
    ensures
        final(out)@ == old(out)@ + decimal(n as nat),
    decreases n,
{
    let ghost before = out@;
    if n >= 10 {
        push_decimal(out, n / 10);
    }
    let digit: u8 = (n % 10) as u8;
    out.push(48 + digit);
    assert(out@ =~= before + decimal(n as nat));
}

impl Stats {
    /// Serializes the statistics into their telemetry payload.
    pub fn to_payload(&self) -> (payload: Vec<u8>)
        ensures
            payload@ == stats_payload(self.update_duration as nat),
    {
        proof {
            reveal_strlit("{\"update_duration\":");
            reveal_strlit("}");
        }
        let mut payload: Vec<u8> = Vec::new();
        push_ascii(&mut payload, "{\"update_duration\":");
        push_decimal(&mut payload, self.update_duration);
        push_ascii(&mut payload, "}");
        assert(payload@ =~= stats_payload(self.update_duration as nat));
        payload
    }

    /// Reads statistics back from a telemetry payload. A payload that no
    /// statistics serialize to is refused.
    pub fn from_payload(payload: &[u8]) -> (stats: Option<Stats>)
        ensures
            stats == decoded_stats(payload@),
    {
        proof {
            reveal_strlit("{\"update_duration\":");
            is_ascii_spec_bytes("{\"update_duration\":");
        }
        let head = "{\"update_duration\":".as_bytes();
        assert(head@ =~= payload_head());
        let n = payload.len();
        if n < 21 {
            proof {
                assert forall|d: u128| payload@ != stats_payload(d as nat) by {
                    lemma_payload_shape(d as nat);
                    lemma_decimal_digits(d as nat);
                }
            }
            return None;
        }
        let mut i: usize = 0;
        while i < 19
            invariant
                i <= 19,
                n == payload@.len(),
                n >= 21,
                head@ == payload_head(),
                head@.len() == 19,
                forall|j: int| 0 <= j < i ==> payload@[j] == head@[j],
            decreases 19 - i,
        {
            if payload[i] != head[i] {
                proof {
                    assert forall|d: u128| payload@ != stats_payload(d as nat) by {
                        lemma_payload_shape(d as nat);
                        if payload@ == stats_payload(d as nat) {
                            assert(stats_payload(d as nat).subrange(0, 19)[i as int]
                                == payload@[i as int]);
                        }
                    }
                }
                return None;
            }
            i = i + 1;
        }
        assert(payload@.subrange(0, 19) =~= payload_head());
        if payload[n - 1] != 125 {
            proof {
                assert forall|d: u128| payload@ != stats_payload(d as nat) by {
                    lemma_payload_shape(d as nat);
                }
            }
            return None;
        }
        if payload[19] == 48 && n > 21 {
            proof {
                assert forall|d: u128| payload@ != stats_payload(d as nat) by {
                    lemma_payload_shape(d as nat);
                    lemma_decimal_digits(d as nat);
                    if payload@ == stats_payload(d as nat) {
                        assert(decimal(d as nat)[0] == payload@[19]);
                    }
                }
            }
            return None;
        }
        let ghost digits = payload@.subrange(19, n - 1);
        let mut value: u128 = 0;
        let mut k: usize = 19;
        while k < n - 1
            invariant
                19 <= k <= n - 1,
                n == payload@.len(),
                n >= 21,
                digits == payload@.subrange(19, n - 1),
                payload@[19] != 48 || n == 21,
                value == numeral(digits.take(k - 19)),
                k > 19 ==> decimal(value as nat) == digits.take(k - 19),
                k > 19 && n > 21 ==> value >= 1,
            decreases n - 1 - k,
        {
            let byte = payload[k];
            if byte < 48 || byte > 57 {
                proof {
                    assert forall|d: u128| payload@ != stats_payload(d as nat) by {
                        lemma_payload_shape(d as nat);
                        lemma_decimal_digits(d as nat);
                        if payload@ == stats_payload(d as nat) {
                            assert(decimal(d as nat)[k - 19] == payload@[k as int]);
                        }
                    }
                }
                return None;
            }
            let digit: u128 = (byte - 48) as u128;
            let ghost next = digits.take(k + 1 - 19);
            proof {
                assert(next.drop_last() =~= digits.take(k - 19));
                assert(next.last() == byte);
                assert(numeral(next) == value * 10 + digit);
            }
            let grown = match value.checked_mul(10) {
                Some(tens) => tens.checked_add(digit),
                None => None,
            };
            match grown {
                Some(sum) => {
                    proof {
                        if k == 19 {
                            assert(decimal(sum as nat) =~= next);
                        } else {
                            assert(decimal(sum as nat) =~= decimal(value as nat).push(byte));
                            assert(decimal(sum as nat) =~= next);
                        }
                    }
                    value = sum;
                },
                None => {
                    proof {
                        assert forall|d: u128| payload@ != stats_payload(d as nat) by {
                            lemma_payload_shape(d as nat);
                            lemma_decimal_digits(d as nat);
                            lemma_numeral_of_decimal(d as nat);
                            if payload@ == stats_payload(d as nat) {
                                assert(decimal(d as nat) == digits);
                                lemma_numeral_prefix(digits, k + 1 - 19);
                            }
                        }
                    }
                    return None;
                },
            }
            k = k + 1;
        }
        proof {
            assert(digits.take(n - 1 - 19) =~= digits);
            lemma_payload_shape(value as nat);
            assert(payload@ =~= stats_payload(value as nat));
            let d = choose|d: u128| payload@ == stats_payload(d as nat);
            lemma_payload_injective(d as nat, value as nat);
        }
        Some(Stats { update_duration: value })
    }
}

} // verus!
