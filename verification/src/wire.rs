//! The wire encoding of an event.
//!
//! One event is sent per connection. The payload is a self-describing,
//! length-prefixed text: every number is written in decimal followed by
//! `:`, every string as its character count, `:`, and the characters
//! themselves. Length prefixes make the format lossless for any content,
//! including environment values with embedded `=`, `:` or newlines, and
//! empty strings. The fields follow in a fixed order: process id,
//! executable, argument count and arguments, working directory,
//! environment entry count and the name/value pairs.

use vstd::prelude::*;
use vstd::string::*;
use crate::execution::{Event, EventView, ExecutionView};

verus! {

/// The decimal digit character for `d` (meaningful for 0 through 9).
pub open spec fn dec_digit(d: int) -> char {
    if d == 0 {
        '0'
    } else if d == 1 {
        '1'
    } else if d == 2 {
        '2'
    } else if d == 3 {
        '3'
    } else if d == 4 {
        '4'
    } else if d == 5 {
        '5'
    } else if d == 6 {
        '6'
    } else if d == 7 {
        '7'
    } else if d == 8 {
        '8'
    } else {
        '9'
    }
}

/// The decimal digits of `n`, most significant first.
pub open spec fn dec_of(n: nat) -> Seq<char>
    decreases n,
{
    if n < 10 {
        seq![dec_digit(n as int)]
    } else {
        dec_of(n / 10).push(dec_digit((n % 10) as int))
    }
}

/// A number on the wire: its decimal digits and a `:` terminator.
pub open spec fn enc_number(n: nat) -> Seq<char> {
    dec_of(n) + seq![':']
}

/// A string on the wire: its length, then its characters.
pub open spec fn enc_chunk(s: Seq<char>) -> Seq<char> {
    enc_number(s.len()) + s
}

/// The first `i` items of a string list on the wire, in order.
pub open spec fn enc_list(items: Seq<Seq<char>>, i: int) -> Seq<char>
    decreases i,
{
    if i <= 0 {
        Seq::empty()
    } else {
        enc_list(items, i - 1) + enc_chunk(items[i - 1])
    }
}

/// The first `i` name/value pairs of an environment on the wire.
pub open spec fn enc_pairs(env: Seq<(Seq<char>, Seq<char>)>, i: int) -> Seq<char>
    decreases i,
{
    if i <= 0 {
        Seq::empty()
    } else {
        enc_pairs(env, i - 1) + enc_chunk(env[i - 1].0) + enc_chunk(env[i - 1].1)
    }
}

/// The whole event on the wire.
pub open spec fn encoded_event(ev: EventView) -> Seq<char> {
    enc_number(ev.process_id as nat) + enc_chunk(ev.execution.executable) + enc_number(
        ev.execution.arguments.len(),
    ) + enc_list(ev.execution.arguments, ev.execution.arguments.len() as int) + enc_chunk(
        ev.execution.working_dir,
    ) + enc_number(ev.execution.environment.len()) + enc_pairs(
        ev.execution.environment,
        ev.execution.environment.len() as int,
    )
}

/// The decimal rendering of `n`.
pub fn encode_number(n: u64) -> (r: String)
    ensures
        r@ == dec_of(n as nat),
    decreases n,
{
    let rem = n % 10;
    let digit: &str = if rem == 0 {
        "0"
    } else if rem == 1 {
        "1"
    } else if rem == 2 {
        "2"
    } else if rem == 3 {
        "3"
    } else if rem == 4 {
        "4"
    } else if rem == 5 {
        "5"
    } else if rem == 6 {
        "6"
    } else if rem == 7 {
        "7"
    } else if rem == 8 {
        "8"
    } else {
        "9"
    };
    proof {
        reveal_strlit("0");
        reveal_strlit("1");
        reveal_strlit("2");
        reveal_strlit("3");
        reveal_strlit("4");
        reveal_strlit("5");
        reveal_strlit("6");
        reveal_strlit("7");
        reveal_strlit("8");
        reveal_strlit("9");
        assert(digit@ =~= seq![dec_digit((n % 10) as int)]);
    }
    if n < 10 {
        digit.to_owned()
    } else {
        let mut r = encode_number(n / 10);
        r.append(digit);
        proof {
            assert(r@ =~= dec_of((n / 10) as nat).push(dec_digit((n % 10) as int)));
        }
        r
    }
}

/// Append a number and its `:` terminator to `out`.
fn append_number(out: &mut String, n: usize)
    ensures
        final(out)@ == old(out)@ + enc_number(n as nat),
{
    let num = encode_number(n as u64);
    out.append(num.as_str());
    out.append(":");
    proof {
        reveal_strlit(":");
        assert(out@ =~= old(out)@ + enc_number(n as nat));
    }
}

/// Append a length-prefixed string to `out`.
fn append_chunk(out: &mut String, s: &str)
    ensures
        final(out)@ == old(out)@ + enc_chunk(s@),
{
    let len = s.unicode_len();
    append_number(out, len);
    out.append(s);
    proof {
        assert(out@ =~= old(out)@ + enc_chunk(s@));
    }
}

/// Encode one event for transmission. The encoding keeps all four fields
/// of the execution record losslessly; the collector can reconstruct them
/// from the lengths alone, with no escaping involved.
pub fn encode_event(event: &Event) -> (r: String)
    ensures
        r@ == encoded_event(event@),
{
    let ghost ev = event@;
    let mut out = String::new();
    append_number(&mut out, event.process_id as usize);
    append_chunk(&mut out, event.execution.executable.as_str());
    let ghost part1 = enc_number(ev.process_id as nat) + enc_chunk(ev.execution.executable);
    proof {
        assert(out@ =~= part1);
    }
    let n = event.execution.arguments.len();
    append_number(&mut out, n);
    let ghost part2 = part1 + enc_number(ev.execution.arguments.len());
    proof {
        assert(out@ =~= part2);
    }
    let mut i: usize = 0;
    while i < n
        invariant
            n == event.execution.arguments@.len(),
            i <= n,
            ev == event@,
            part2 == enc_number(ev.process_id as nat) + enc_chunk(ev.execution.executable)
                + enc_number(ev.execution.arguments.len()),
            out@ == part2 + enc_list(ev.execution.arguments, i as int),
        decreases n - i,
    {
        append_chunk(&mut out, event.execution.arguments[i].as_str());
        proof {
            assert(event.execution.arguments@[i as int]@ == ev.execution.arguments[i as int]);
            assert(out@ =~= part2 + enc_list(ev.execution.arguments, i + 1));
        }
        i += 1;
    }
    append_chunk(&mut out, event.execution.working_dir.as_str());
    let ghost part3 = part2 + enc_list(ev.execution.arguments, ev.execution.arguments.len() as int)
        + enc_chunk(ev.execution.working_dir);
    proof {
        assert(out@ =~= part3);
    }
    let m = event.execution.environment.len();
    append_number(&mut out, m);
    let ghost part4 = part3 + enc_number(ev.execution.environment.len());
    proof {
        assert(out@ =~= part4);
    }
    let mut j: usize = 0;
    while j < m
        invariant
            m == event.execution.environment@.len(),
            j <= m,
            ev == event@,
            part4 == enc_number(ev.process_id as nat) + enc_chunk(ev.execution.executable)
                + enc_number(ev.execution.arguments.len()) + enc_list(
                ev.execution.arguments,
                ev.execution.arguments.len() as int,
            ) + enc_chunk(ev.execution.working_dir) + enc_number(ev.execution.environment.len()),
            out@ == part4 + enc_pairs(ev.execution.environment, j as int),
        decreases m - j,
    {
        append_chunk(&mut out, event.execution.environment[j].0.as_str());
        append_chunk(&mut out, event.execution.environment[j].1.as_str());
        proof {
            assert(event.execution.environment@[j as int].0@ == ev.execution.environment[
                j as int
            ].0);
            assert(event.execution.environment@[j as int].1@ == ev.execution.environment[
                j as int
            ].1);
            assert(out@ =~= part4 + enc_pairs(ev.execution.environment, j + 1));
        }
        j += 1;
    }
    proof {
        assert(out@ =~= encoded_event(ev));
    }
    out
}

// ------------------------------------------------------------------
// The decoding side, and losslessness.
//
// The collector that decodes events is a separate process and out of
// scope here; what matters to this crate is that the encoding loses
// nothing. The parsing functions below give the wire format an exact
// reading, and the round-trip lemmas prove that decoding an encoded
// event yields the event back, field for field.
// ------------------------------------------------------------------

/// The value of a decimal digit character, `-1` for any other character.
pub open spec fn digit_val(c: char) -> int {
    if c == '0' {
        0
    } else if c == '1' {
        1
    } else if c == '2' {
        2
    } else if c == '3' {
        3
    } else if c == '4' {
        4
    } else if c == '5' {
        5
    } else if c == '6' {
        6
    } else if c == '7' {
        7
    } else if c == '8' {
        8
    } else if c == '9' {
        9
    } else {
        -1
    }
}

pub open spec fn is_dec_digit(c: char) -> bool {
    0 <= digit_val(c)
}

/// Parse a number at position `i`: digits accumulated onto `acc` up to a
/// `:` terminator. Returns the value and the position after the `:`.
pub open spec fn parse_number_from(s: Seq<char>, i: int, acc: nat) -> Option<(nat, int)>
    decreases s.len() - i,
{
    if i < 0 || i >= s.len() {
        None
    } else if s[i] == ':' {
        Some((acc, i + 1))
    } else if is_dec_digit(s[i]) {
        parse_number_from(s, i + 1, (acc * 10 + digit_val(s[i])) as nat)
    } else {
        None
    }
}

pub open spec fn pow10(k: nat) -> nat
    decreases k,
{
    if k == 0 {
        1
    } else {
        10 * pow10((k - 1) as nat)
    }
}

/// Parsing walks exactly over the digits `dec_of(n)` laid out at `i`,
/// folding them onto the accumulator.
proof fn lemma_parse_digits(s: Seq<char>, i: int, n: nat, acc: nat)
    requires
        0 <= i,
        i + dec_of(n).len() <= s.len(),
        s.subrange(i, i + dec_of(n).len()) == dec_of(n),
    ensures
        parse_number_from(s, i, acc) == parse_number_from(
            s,
            i + dec_of(n).len(),
            acc * pow10(dec_of(n).len()) + n,
        ),
    decreases n,
{
    if n < 10 {
        assert(s[i] == dec_of(n)[0]);
        assert(digit_val(dec_digit(n as int)) == n);
        assert(pow10(0) == 1);
        assert(pow10(1) == 10);
    } else {
        let a = dec_of(n / 10);
        let k = a.len() as int;
        assert(dec_of(n).len() == k + 1);
        assert(s.subrange(i, i + k) =~= a) by {
            assert(forall|j: int|
                0 <= j < k ==> s.subrange(i, i + k + 1)[j] == dec_of(n)[j]);
        }
        lemma_parse_digits(s, i, n / 10, acc);
        assert(s[i + k] == dec_of(n)[k]);
        assert(s[i + k] == dec_digit((n % 10) as int));
        assert(is_dec_digit(s[i + k]));
        let x = acc * pow10(a.len()) + n / 10;
        assert(parse_number_from(s, i + k, x) == parse_number_from(
            s,
            i + k + 1,
            (x * 10 + digit_val(s[i + k])) as nat,
        ));
        assert(x * 10 + n % 10 == acc * pow10((a.len() + 1) as nat) + n) by {
            assert(pow10((a.len() + 1) as nat) == 10 * pow10(a.len()));
            assert((acc * pow10(a.len()) + n / 10) * 10 == acc * (pow10(a.len()) * 10) + (n / 10)
                * 10) by (nonlinear_arith);
            vstd::arithmetic::div_mod::lemma_fundamental_div_mod(n as int, 10);
            assert(acc * (pow10(a.len()) * 10) == acc * (10 * pow10(a.len())))
                by (nonlinear_arith);
        }
    }
}

/// A number laid out at `i` as `enc_number(n)` parses to exactly `n`,
/// leaving the position just after its terminator.
proof fn lemma_parse_number(s: Seq<char>, i: int, n: nat)
    requires
        0 <= i,
        i + enc_number(n).len() <= s.len(),
        s.subrange(i, i + enc_number(n).len()) == enc_number(n),
    ensures
        parse_number_from(s, i, 0) == Some((n, i + enc_number(n).len())),
{
    let k = dec_of(n).len() as int;
    assert(enc_number(n).len() == k + 1);
    assert(s.subrange(i, i + k) =~= dec_of(n)) by {
        assert(forall|j: int|
            0 <= j < k ==> s.subrange(i, i + k + 1)[j] == enc_number(n)[j]);
    }
    lemma_parse_digits(s, i, n, 0);
    assert(s[i + k] == enc_number(n)[k]);
    assert(s[i + k] == ':');
    assert(0 * pow10(dec_of(n).len()) + n == n);
}

/// Parse a length-prefixed string at `i`: its length, then that many
/// characters.
pub open spec fn parse_chunk_from(s: Seq<char>, i: int) -> Option<(Seq<char>, int)> {
    match parse_number_from(s, i, 0) {
        Some(r) => {
            if r.1 + r.0 <= s.len() {
                Some((s.subrange(r.1, r.1 + r.0), r.1 + r.0))
            } else {
                None
            }
        },
        None => None,
    }
}

/// A string laid out at `i` as `enc_chunk(t)` parses back to exactly `t`.
proof fn lemma_parse_chunk(s: Seq<char>, i: int, t: Seq<char>)
    requires
        0 <= i,
        i + enc_chunk(t).len() <= s.len(),
        s.subrange(i, i + enc_chunk(t).len()) == enc_chunk(t),
    ensures
        parse_chunk_from(s, i) == Some((t, i + enc_chunk(t).len())),
{
    let en = enc_number(t.len());
    let k = en.len() as int;
    let total = enc_chunk(t).len() as int;
    assert forall|j: int| 0 <= j < k implies s[i + j] == en[j] by {
        assert(s.subrange(i, i + total)[j] == enc_chunk(t)[j]);
    }
    assert(s.subrange(i, i + k) =~= en);
    lemma_parse_number(s, i, t.len());
    assert forall|j: int| 0 <= j < t.len() implies s[i + k + j] == t[j] by {
        assert(s.subrange(i, i + total)[k + j] == enc_chunk(t)[k + j]);
    }
    assert(s.subrange(i + k, i + k + t.len()) =~= t);
}

/// `enc_list` peeled from the front: the first item's chunk, then the
/// rest.
proof fn lemma_enc_list_front(items: Seq<Seq<char>>, c: int)
    requires
        1 <= c <= items.len(),
    ensures
        enc_list(items, c) == enc_chunk(items[0]) + enc_list(items.skip(1), c - 1),
    decreases c,
{
    if c == 1 {
        assert(enc_list(items, 0) == Seq::<char>::empty());
        assert(enc_list(items.skip(1), 0) == Seq::<char>::empty());
        assert(enc_list(items, 1) =~= enc_chunk(items[0]) + enc_list(items.skip(1), 0));
    } else {
        lemma_enc_list_front(items, c - 1);
        assert(items.skip(1)[c - 2] == items[c - 1]);
        assert(enc_list(items, c) =~= enc_chunk(items[0]) + enc_list(items.skip(1), c - 1));
    }
}

/// Parse `c` length-prefixed strings in a row, collected onto `acc`.
pub open spec fn parse_chunks_from(
    s: Seq<char>,
    i: int,
    c: nat,
    acc: Seq<Seq<char>>,
) -> Option<(Seq<Seq<char>>, int)>
    decreases c,
{
    if c == 0 {
        Some((acc, i))
    } else {
        match parse_chunk_from(s, i) {
            Some(r) => parse_chunks_from(s, r.1, (c - 1) as nat, acc.push(r.0)),
            None => None,
        }
    }
}

/// A list laid out at `i` as `enc_list(items, c)` parses back to exactly
/// its first `c` items, in order.
proof fn lemma_parse_chunks(
    s: Seq<char>,
    i: int,
    items: Seq<Seq<char>>,
    c: int,
    acc: Seq<Seq<char>>,
)
    requires
        0 <= c <= items.len(),
        0 <= i,
        i + enc_list(items, c).len() <= s.len(),
        s.subrange(i, i + enc_list(items, c).len()) == enc_list(items, c),
    ensures
        parse_chunks_from(s, i, c as nat, acc) == Some(
            (acc + items.take(c), i + enc_list(items, c).len()),
        ),
    decreases c,
{
    if c == 0 {
        assert(acc + items.take(0) =~= acc);
    } else {
        lemma_enc_list_front(items, c);
        let ch = enc_chunk(items[0]);
        let rest = enc_list(items.skip(1), c - 1);
        let total = enc_list(items, c).len() as int;
        assert forall|j: int| 0 <= j < ch.len() implies s[i + j] == ch[j] by {
            assert(s.subrange(i, i + total)[j] == enc_list(items, c)[j]);
        }
        assert(s.subrange(i, i + ch.len()) =~= ch);
        lemma_parse_chunk(s, i, items[0]);
        assert forall|j: int| 0 <= j < rest.len() implies s[i + ch.len() + j] == rest[j] by {
            assert(s.subrange(i, i + total)[ch.len() + j] == enc_list(items, c)[ch.len() + j]);
        }
        assert(s.subrange(i + ch.len(), i + ch.len() + rest.len()) =~= rest);
        lemma_parse_chunks(s, i + ch.len() as int, items.skip(1), c - 1, acc.push(items[0]));
        assert(acc.push(items[0]) + items.skip(1).take(c - 1) =~= acc + items.take(c));
    }
}

/// `enc_pairs` peeled from the front: the first pair's two chunks, then
/// the rest.
proof fn lemma_enc_pairs_front(env: Seq<(Seq<char>, Seq<char>)>, c: int)
    requires
        1 <= c <= env.len(),
    ensures
        enc_pairs(env, c) == enc_chunk(env[0].0) + enc_chunk(env[0].1) + enc_pairs(
            env.skip(1),
            c - 1,
        ),
    decreases c,
{
    if c == 1 {
        assert(enc_pairs(env, 0) == Seq::<char>::empty());
        assert(enc_pairs(env.skip(1), 0) == Seq::<char>::empty());
        assert(enc_pairs(env, 1) =~= enc_chunk(env[0].0) + enc_chunk(env[0].1) + enc_pairs(
            env.skip(1),
            0,
        ));
    } else {
        lemma_enc_pairs_front(env, c - 1);
        assert(env.skip(1)[c - 2] == env[c - 1]);
        assert(enc_pairs(env, c) =~= enc_chunk(env[0].0) + enc_chunk(env[0].1) + enc_pairs(
            env.skip(1),
            c - 1,
        ));
    }
}

/// Parse `c` name/value pairs in a row, collected onto `acc`.
pub open spec fn parse_pairs_from(
    s: Seq<char>,
    i: int,
    c: nat,
    acc: Seq<(Seq<char>, Seq<char>)>,
) -> Option<(Seq<(Seq<char>, Seq<char>)>, int)>
    decreases c,
{
    if c == 0 {
        Some((acc, i))
    } else {
        match parse_chunk_from(s, i) {
            Some(rk) => match parse_chunk_from(s, rk.1) {
                Some(rv) => parse_pairs_from(s, rv.1, (c - 1) as nat, acc.push((rk.0, rv.0))),
                None => None,
            },
            None => None,
        }
    }
}

/// An environment laid out at `i` as `enc_pairs(env, c)` parses back to
/// exactly its first `c` pairs, in order.
proof fn lemma_parse_pairs(
    s: Seq<char>,
    i: int,
    env: Seq<(Seq<char>, Seq<char>)>,
    c: int,
    acc: Seq<(Seq<char>, Seq<char>)>,
)
    requires
        0 <= c <= env.len(),
        0 <= i,
        i + enc_pairs(env, c).len() <= s.len(),
        s.subrange(i, i + enc_pairs(env, c).len()) == enc_pairs(env, c),
    ensures
        parse_pairs_from(s, i, c as nat, acc) == Some(
            (acc + env.take(c), i + enc_pairs(env, c).len()),
        ),
    decreases c,
{
    if c == 0 {
        assert(acc + env.take(0) =~= acc);
    } else {
        lemma_enc_pairs_front(env, c);
        let chk = enc_chunk(env[0].0);
        let chv = enc_chunk(env[0].1);
        let rest = enc_pairs(env.skip(1), c - 1);
        let total = enc_pairs(env, c).len() as int;
        assert forall|j: int| 0 <= j < chk.len() implies s[i + j] == chk[j] by {
            assert(s.subrange(i, i + total)[j] == enc_pairs(env, c)[j]);
        }
        assert(s.subrange(i, i + chk.len()) =~= chk);
        lemma_parse_chunk(s, i, env[0].0);
        assert forall|j: int| 0 <= j < chv.len() implies s[i + chk.len() + j] == chv[j] by {
            assert(s.subrange(i, i + total)[chk.len() + j] == enc_pairs(env, c)[chk.len() + j]);
        }
        assert(s.subrange(i + chk.len(), i + chk.len() + chv.len()) =~= chv);
        lemma_parse_chunk(s, i + chk.len() as int, env[0].1);
        let o = i + chk.len() + chv.len();
        assert forall|j: int| 0 <= j < rest.len() implies s[o + j] == rest[j] by {
            assert(s.subrange(i, i + total)[chk.len() + chv.len() + j] == enc_pairs(env, c)[
                chk.len() + chv.len() + j
            ]);
        }
        assert(s.subrange(o, o + rest.len()) =~= rest);
        lemma_parse_pairs(s, o, env.skip(1), c - 1, acc.push(env[0]));
        assert(acc.push(env[0]) + env.skip(1).take(c - 1) =~= acc + env.take(c));
    }
}

/// The exact reading of a whole wire payload: the fields in their fixed
/// order, with nothing left over.
pub open spec fn parse_event(s: Seq<char>) -> Option<EventView> {
    match parse_number_from(s, 0, 0) {
        Some(rp) => if rp.0 <= u32::MAX as nat {
            match parse_chunk_from(s, rp.1) {
                Some(rexe) => match parse_number_from(s, rexe.1, 0) {
                    Some(rac) => match parse_chunks_from(s, rac.1, rac.0, Seq::empty()) {
                        Some(rargs) => match parse_chunk_from(s, rargs.1) {
                            Some(rwd) => match parse_number_from(s, rwd.1, 0) {
                                Some(rec) => match parse_pairs_from(
                                    s,
                                    rec.1,
                                    rec.0,
                                    Seq::empty(),
                                ) {
                                    Some(renv) => if renv.1 == s.len() {
                                        Some(
                                            EventView {
                                                process_id: rp.0 as u32,
                                                execution: ExecutionView {
                                                    executable: rexe.0,
                                                    arguments: rargs.0,
                                                    working_dir: rwd.0,
                                                    environment: renv.0,
                                                },
                                            },
                                        )
                                    } else {
                                        None
                                    },
                                    None => None,
                                },
                                None => None,
                            },
                            None => None,
                        },
                        None => None,
                    },
                    None => None,
                },
                None => None,
            }
        } else {
            None
        },
        None => None,
    }
}

/// The encoding is lossless: reading an encoded event back yields the
/// event, all four execution-record fields included, whatever their
/// content — embedded separators, `=` signs and empty strings included.
pub proof fn lemma_encoding_round_trips(ev: EventView)
    ensures
        parse_event(encoded_event(ev)) == Some(ev),
{
    let s = encoded_event(ev);
    let part1 = enc_number(ev.process_id as nat);
    let part2 = enc_chunk(ev.execution.executable);
    let part3 = enc_number(ev.execution.arguments.len());
    let part4 = enc_list(ev.execution.arguments, ev.execution.arguments.len() as int);
    let part5 = enc_chunk(ev.execution.working_dir);
    let part6 = enc_number(ev.execution.environment.len());
    let part7 = enc_pairs(ev.execution.environment, ev.execution.environment.len() as int);
    let o1 = part1.len() as int;
    let o2 = o1 + part2.len();
    let o3 = o2 + part3.len();
    let o4 = o3 + part4.len();
    let o5 = o4 + part5.len();
    let o6 = o5 + part6.len();
    let o7 = o6 + part7.len();
    assert(s.len() == o7);
    assert forall|j: int| 0 <= j < part1.len() implies s[j] == part1[j] by {}
    assert(s.subrange(0, o1) =~= part1);
    lemma_parse_number(s, 0, ev.process_id as nat);
    assert forall|j: int| 0 <= j < part2.len() implies s[o1 + j] == part2[j] by {}
    assert(s.subrange(o1, o2) =~= part2);
    lemma_parse_chunk(s, o1, ev.execution.executable);
    assert forall|j: int| 0 <= j < part3.len() implies s[o2 + j] == part3[j] by {}
    assert(s.subrange(o2, o3) =~= part3);
    lemma_parse_number(s, o2, ev.execution.arguments.len());
    assert forall|j: int| 0 <= j < part4.len() implies s[o3 + j] == part4[j] by {}
    assert(s.subrange(o3, o4) =~= part4);
    lemma_parse_chunks(
        s,
        o3,
        ev.execution.arguments,
        ev.execution.arguments.len() as int,
        Seq::empty(),
    );
    assert(Seq::empty() + ev.execution.arguments.take(ev.execution.arguments.len() as int)
        =~= ev.execution.arguments);
    assert forall|j: int| 0 <= j < part5.len() implies s[o4 + j] == part5[j] by {}
    assert(s.subrange(o4, o5) =~= part5);
    lemma_parse_chunk(s, o4, ev.execution.working_dir);
    assert forall|j: int| 0 <= j < part6.len() implies s[o5 + j] == part6[j] by {}
    assert(s.subrange(o5, o6) =~= part6);
    lemma_parse_number(s, o5, ev.execution.environment.len());
    assert forall|j: int| 0 <= j < part7.len() implies s[o6 + j] == part7[j] by {}
    assert(s.subrange(o6, o7) =~= part7);
    lemma_parse_pairs(
        s,
        o6,
        ev.execution.environment,
        ev.execution.environment.len() as int,
        Seq::empty(),
    );
    assert(Seq::empty() + ev.execution.environment.take(ev.execution.environment.len() as int)
        =~= ev.execution.environment);
}

} // verus!
