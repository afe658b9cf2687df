//! Rendering numbers and the messages built around them.
//!
//! The sweep jobs and the collector sessions end in little pieces of text:
//! a reminder reply that mentions its owner, a page header over a body of
//! lines. Platform mentions embed a user id in decimal, so decimal
//! rendering is proved here once and the message builders say exactly
//! which characters they produce.

use vstd::prelude::*;

verus! {

/// The digit character for one value below ten.
pub open spec fn digit_char(d: nat) -> char {
    (('0' as u8) + d) as char
}

/// The decimal rendering of a number, most significant digit first; zero
/// renders as one `0`.
pub open spec fn decimal_digits(n: nat) -> Seq<char>
    decreases n,
{
    if n < 10 {
        seq![digit_char(n)]
    } else {
        decimal_digits(n / 10).push(digit_char(n % 10))
    }
}

/// Render a number in decimal.
pub fn u64_to_string(n: u64) -> (r: String)
    ensures
        r@ == decimal_digits(n as nat),
{
    let ghost full = decimal_digits(n as nat);
    if n < 10 {
        let c = (48u8 + (n as u8)) as char;
        let mut out = String::new();
        push_char(&mut out, c);
        proof {
            assert(out@ =~= full);
        }
        return out;
    }
    let mut rev: Vec<char> = Vec::new();
    let ghost mut tail: Seq<char> = Seq::empty();
    let mut m = n;
    while m > 0
        invariant
            n >= 10,
            m > 0 ==> full == decimal_digits(m as nat) + tail,
            m == 0 ==> full == tail,
            rev@.len() == tail.len(),
            forall|j: int| 0 <= j < rev@.len() ==> rev@[j] == tail[tail.len() - 1 - j],
        decreases m,
    {
        let d = (m % 10) as u8;
        let c = (48u8 + d) as char;
        let ghost tail0 = tail;
        rev.push(c);
        proof {
            tail = seq![c] + tail0;
            if m >= 10 {
                assert(decimal_digits(m as nat) == decimal_digits((m as nat) / 10).push(
                    digit_char((m as nat) % 10),
                ));
                assert(digit_char((m as nat) % 10) == c);
                assert(decimal_digits(m as nat) + tail0 =~= decimal_digits((m / 10) as nat)
                    + tail);
            } else {
                assert(decimal_digits(m as nat) =~= seq![c]);
                assert(decimal_digits(m as nat) + tail0 =~= tail);
            }
            assert forall|j: int| 0 <= j < rev@.len() implies rev@[j] == tail[tail.len() - 1
                - j] by {
                if j == rev@.len() - 1 {
                    assert(rev@[j] == c);
                    assert(tail[0] == c);
                } else {
                    assert(rev@[j] == tail0[tail0.len() - 1 - j]);
                    assert(tail[tail.len() - 1 - j] == tail0[tail0.len() - 1 - j]);
                }
            }
        }
        m = m / 10;
    }
    proof {
        assert(full == tail);
    }
    let mut out = String::new();
    let ghost mut rest: Seq<char> = tail;
    loop
        invariant
            out@ + rest == full,
            rev@.len() == rest.len(),
            forall|j: int| 0 <= j < rev@.len() ==> rev@[j] == rest[rest.len() - 1 - j],
        ensures
            out@ == full,
        decreases rev@.len(),
    {
        let ghost rest0 = rest;
        match rev.pop() {
            None => {
                proof {
                    assert(rest0.len() == 0);
                    assert(out@ =~= out@ + rest0);
                }
                break;
            },
            Some(c) => {
                proof {
                    assert(c == rest0[0]);
                }
                push_char(&mut out, c);
                proof {
                    rest = rest0.drop_first();
                    assert(out@ + rest =~= full) by {
                        assert(out@ =~= (full.take(full.len() - rest0.len())).push(rest0[0]));
                        assert(full =~= full.take(full.len() - rest0.len()) + rest0);
                    }
                    assert forall|j: int| 0 <= j < rev@.len() implies rev@[j] == rest[rest.len()
                        - 1 - j] by {
                        assert(rev@[j] == rest0[rest0.len() - 1 - j]);
                        assert(rest[rest.len() - 1 - j] == rest0[rest0.len() - 1 - j]);
                    }
                }
            },
        }
    }
    out
}

/// Relies on String::push: appends exactly the one character.
#[verifier::external_body]
fn push_char(s: &mut String, c: char)
    ensures
        final(s)@ == old(s)@.push(c),
{
    s.push(c)
}

/// The platform mention of a user: `<@` + the id in decimal + `>`.
pub fn user_mention(user_id: u64) -> (r: String)
    ensures
        r@ == "<@"@ + decimal_digits(user_id as nat) + ">"@,
{
    let digits = u64_to_string(user_id);
    String::from_str("<@").concat(digits.as_str()).concat(">")
}

/// The reply a due reminder is delivered as: its content, then a mention
/// of whoever asked for it.
pub fn reminder_message(content: &str, user_id: u64) -> (r: String)
    ensures
        r@ == "Reminder for "@ + content@ + " | "@ + "<@"@ + decimal_digits(user_id as nat)
            + ">"@,
{
    let mention = user_mention(user_id);
    String::from_str("Reminder for ").concat(content).concat(" | ").concat(mention.as_str())
}

/// The header-and-body rendering of one manual page: the one-based page
/// number over the page count, then the body in a code block.
pub fn page_message(index: usize, count: usize, body: &str) -> (r: String)
    requires
        index < count,
    ensures
        r@ == "**Page "@ + decimal_digits((index + 1) as nat) + "/"@ + decimal_digits(
            count as nat,
        ) + "**```"@ + body@ + "```"@,
{
    let shown = u64_to_string((index as u64) + 1);
    let total = u64_to_string(count as u64);
    String::from_str("**Page ").concat(shown.as_str()).concat("/").concat(total.as_str()).concat(
        "**```",
    ).concat(body).concat("```")
}

} // verus!
