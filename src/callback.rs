use vstd::prelude::*;

use crate::carrier::same_text;
use crate::store::{CompletionAction, CompletionChoice};

verus! {

pub open spec fn digit_char(d: int) -> char {
    if d == 0 {
        '0'
    } else if d == 1 {
        '1'
    } else if d == 2 {
        '2'
    } else if d == 3 {
        '3'
    } else if d == 4 {
        '4'
    } else if d == 5 {
        '5'
    } else if d == 6 {
        '6'
    } else if d == 7 {
        '7'
    } else if d == 8 {
        '8'
    } else {
        '9'
    }
}

pub open spec fn is_digit(c: char) -> bool {
    '0' <= c && c <= '9'
}

pub open spec fn digit_value(c: char) -> int {
    c as int - '0' as int
}

/// The decimal digits of `n`, most significant first, without leading zeros.
pub open spec fn digits_of(n: nat) -> Seq<char>
    decreases n,
{
    if n < 10 {
        seq![digit_char(n as int)]
    } else {
        digits_of(n / 10).push(digit_char((n % 10) as int))
    }
}

/// An integer in decimal, with a leading `-` when negative.
pub open spec fn int_text(i: int) -> Seq<char> {
    if i < 0 {
        seq!['-'] + digits_of((-i) as nat)
    } else {
        digits_of(i as nat)
    }
}

pub open spec fn action_tag(a: CompletionAction) -> Seq<char> {
    match a {
        CompletionAction::Keep => "keep:"@,
        CompletionAction::Delete => "delete:"@,
    }
}

/// How a completion answer travels through the messaging layer: the action's
/// tag followed by the tracker id in decimal.
pub open spec fn choice_text(c: CompletionChoice) -> Seq<char> {
    action_tag(c.action) + int_text(c.tracker_id as int)
}

/// The number a string of decimal digits denotes.
pub open spec fn value_of(ds: Seq<char>) -> int
    decreases ds.len(),
{
    if ds.len() == 0 {
        0
    } else {
        value_of(ds.drop_last()) * 10 + digit_value(ds.last())
    }
}

pub open spec fn pow10(k: nat) -> int
    decreases k,
{
    if k == 0 {
        1
    } else {
        10 * pow10((k - 1) as nat)
    }
}

pub open spec fn all_digits(ds: Seq<char>) -> bool {
    forall|i: int| 0 <= i < ds.len() ==> is_digit(#[trigger] ds[i])
}

/// What the lenient integer reader accepts: an optional `-`, then one to
/// nineteen decimal digits, denoting a value that fits in an `i64`.
pub open spec fn int_value(s: Seq<char>) -> Option<int> {
    let neg = s.len() > 0 && s[0] == '-';
    let ds = if neg {
        s.drop_first()
    } else {
        s
    };
    let v = if neg {
        -value_of(ds)
    } else {
        value_of(ds)
    };
    if ds.len() == 0 || ds.len() > 19 || !all_digits(ds) {
        None
    } else if i64::MIN <= v <= i64::MAX {
        Some(v)
    } else {
        None
    }
}

proof fn lemma_digit_char(d: int)
    requires
        0 <= d < 10,
    ensures
        is_digit(digit_char(d)),
        digit_value(digit_char(d)) == d,
{
    if d == 0 {
    } else if d == 1 {
    } else if d == 2 {
    } else if d == 3 {
    } else if d == 4 {
    } else if d == 5 {
    } else if d == 6 {
    } else if d == 7 {
    } else if d == 8 {
    } else {
    }
}

proof fn lemma_pow10_facts(a: nat, b: nat)
    requires
        a <= b,
    ensures
        1 <= pow10(a) <= pow10(b),
    decreases b,
{
    if a < b {
        lemma_pow10_facts(a, (b - 1) as nat);
    } else if a > 0 {
        lemma_pow10_facts((a - 1) as nat, (a - 1) as nat);
    }
}

proof fn lemma_pow10_19()
    ensures
        pow10(19) == 10_000_000_000_000_000_000,
{
    reveal_with_fuel(pow10, 20);
}

/// `digits_of` yields digits that denote `n`, and no more of them than `n` needs.
proof fn lemma_digits_of(n: nat, k: nat)
    requires
        1 <= k,
        n < pow10(k),
    ensures
        1 <= digits_of(n).len() <= k,
        forall|i: int| 0 <= i < digits_of(n).len() ==> is_digit(#[trigger] digits_of(n)[i]),
        value_of(digits_of(n)) == n,
    decreases n,
{
    if n < 10 {
        lemma_digit_char(n as int);
        assert(seq![digit_char(n as int)].drop_last() =~= Seq::<char>::empty());
        assert(value_of(Seq::<char>::empty()) == 0);
        assert(value_of(digits_of(n)) == value_of(Seq::<char>::empty()) * 10 + digit_value(digit_char(n as int)));
    } else {
        lemma_digit_char((n % 10) as int);
        assert(k > 1) by {
            if k == 1 {
                reveal_with_fuel(pow10, 2);
            }
        }
        assert(n / 10 < pow10((k - 1) as nat)) by {
            assert(pow10(k) == 10 * pow10((k - 1) as nat));
        }
        lemma_digits_of(n / 10, (k - 1) as nat);
        let prev = digits_of(n / 10);
        assert(digits_of(n).drop_last() =~= prev);
        assert(value_of(digits_of(n)) == (n / 10) * 10 + n % 10);
        assert((n / 10) * 10 + n % 10 == n) by (nonlinear_arith);
        assert forall|i: int| 0 <= i < digits_of(n).len() implies is_digit(#[trigger] digits_of(n)[i]) by {
            if i < prev.len() {
                assert(digits_of(n)[i] == prev[i]);
            }
        }
    }
}

/// A digit string of length `k` denotes less than `10^k`.
proof fn lemma_value_bound(ds: Seq<char>)
    requires
        forall|i: int| 0 <= i < ds.len() ==> is_digit(#[trigger] ds[i]),
    ensures
        0 <= value_of(ds) < pow10(ds.len()),
    decreases ds.len(),
{
    if ds.len() > 0 {
        let rest = ds.drop_last();
        assert forall|i: int| 0 <= i < rest.len() implies is_digit(#[trigger] rest[i]) by {
            assert(rest[i] == ds[i]);
        }
        lemma_value_bound(rest);
        let v = value_of(rest);
        let p = pow10(rest.len());
        let d = digit_value(ds.last());
        assert(is_digit(ds[ds.len() - 1]));
        assert(0 <= d <= 9);
        assert(pow10(ds.len()) == 10 * p);
        assert(0 <= v * 10 + d < 10 * p) by (nonlinear_arith)
            requires
                0 <= v < p,
                0 <= d <= 9,
        ;
    }
}

/// The reader gives back every `i64` written by `int_text`.
proof fn lemma_int_text_reads_back(i: i64)
    ensures
        int_value(int_text(i as int)) == Some(i as int),
{
    lemma_pow10_19();
    let m: nat = if i < 0 {
        (-i) as nat
    } else {
        i as nat
    };
    lemma_digits_of(m, 19);
    let s = int_text(i as int);
    if i < 0 {
        assert(s.drop_first() =~= digits_of(m));
    } else {
        assert(is_digit(digits_of(m)[0]));
    }
}

fn digit_text(d: u64) -> (r: &'static str)
    requires
        d < 10,
    ensures
        r@ == seq![digit_char(d as int)],
{
    proof {
        reveal_strlit("0");
        reveal_strlit("1");
        reveal_strlit("2");
        reveal_strlit("3");
        reveal_strlit("4");
        reveal_strlit("5");
        reveal_strlit("6");
        reveal_strlit("7");
        reveal_strlit("8");
        reveal_strlit("9");
    }
    let r = if d == 0 {
        "0"
    } else if d == 1 {
        "1"
    } else if d == 2 {
        "2"
    } else if d == 3 {
        "3"
    } else if d == 4 {
        "4"
    } else if d == 5 {
        "5"
    } else if d == 6 {
        "6"
    } else if d == 7 {
        "7"
    } else if d == 8 {
        "8"
    } else {
        "9"
    };
    assert(r@ =~= seq![digit_char(d as int)]);
    r
}

fn push_digits(text: &mut String, n: u64)
    ensures
        final(text)@ == old(text)@ + digits_of(n as nat),
    decreases n,
{
    if n >= 10 {
        push_digits(text, n / 10);
    }
    text.append(digit_text(n % 10));
    proof {
        if n >= 10 {
            assert(old(text)@ + digits_of((n / 10) as nat) + seq![digit_char((n % 10) as int)]
                =~= old(text)@ + digits_of(n as nat));
        } else {
            assert(old(text)@ + seq![digit_char((n % 10) as int)] =~= old(text)@ + digits_of(n as nat));
        }
    }
}

/// Reads an optional `-` and decimal digits, as `int_value` says.
fn read_int(s: &str) -> (r: Option<i64>)
    ensures
        r matches Some(x) ==> int_value(s@) == Some(x as int),
        r is None ==> int_value(s@) is None,
{
    let n = s.unicode_len();
    let neg = n > 0 && s.get_char(0) == '-';
    let start: usize = if neg {
        1
    } else {
        0
    };
    let ghost ds = if neg {
        s@.drop_first()
    } else {
        s@
    };
    assert(ds =~= s@.subrange(start as int, n as int));
    if n == start || n - start > 19 {
        return None;
    }
    let mut acc: u64 = 0;
    let mut i: usize = start;
    proof {
        lemma_pow10_19();
        assert(s@.subrange(start as int, start as int) =~= Seq::<char>::empty());
    }
    while i < n
        invariant
            n == s@.len(),
            start <= i <= n,
            n - start <= 19,
            ds == s@.subrange(start as int, n as int),
            neg == (s@.len() > 0 && s@[0] == '-'),
            ds == (if neg {
                s@.drop_first()
            } else {
                s@
            }),
            pow10(19) == 10_000_000_000_000_000_000,
            forall|j: int| start <= j < i ==> is_digit(#[trigger] s@[j]),
            acc as int == value_of(s@.subrange(start as int, i as int)),
            acc < pow10((i - start) as nat),
        decreases n - i,
    {
        let c = s.get_char(i);
        if !('0' <= c && c <= '9') {
            assert(ds[i - start] == s@[i as int]);
            assert(!is_digit(ds[i - start]));
            assert(!(forall|k: int| 0 <= k < ds.len() ==> is_digit(#[trigger] ds[k])));
            return None;
        }
        let d = (c as u32 - '0' as u32) as u64;
        proof {
            let k = (i - start) as nat;
            lemma_pow10_facts(k + 1, 19);
            assert(pow10(k + 1) == 10 * pow10(k));
            assert(acc * 10 + d < pow10(k + 1)) by (nonlinear_arith)
                requires
                    acc < pow10(k),
                    d <= 9,
                    pow10(k + 1) == 10 * pow10(k),
            ;
            assert(s@.subrange(start as int, i + 1).drop_last() =~= s@.subrange(start as int, i as int));
        }
        acc = acc * 10 + d;
        i = i + 1;
    }
    proof {
        assert(s@.subrange(start as int, i as int) == ds);
        assert forall|j: int| 0 <= j < ds.len() implies is_digit(#[trigger] ds[j]) by {
            assert(ds[j] == s@[j + start]);
        }
    }
    if neg {
        if acc > 9_223_372_036_854_775_808 {
            None
        } else {
            Some((0 - (acc as i128)) as i64)
        }
    } else {
        if acc > 9_223_372_036_854_775_807 {
            None
        } else {
            Some(acc as i64)
        }
    }
}

/// Where the parts of an encoded choice lie.
proof fn lemma_choice_text_parts(text: Seq<char>, c: CompletionChoice)
    requires
        text == choice_text(c),
    ensures
        c.action == CompletionAction::Keep ==> {
            &&& text.len() >= 5
            &&& text.subrange(0, 5) == "keep:"@
            &&& text.subrange(5, text.len() as int) == int_text(c.tracker_id as int)
        },
        c.action == CompletionAction::Delete ==> {
            &&& text.len() >= 7
            &&& !(text.len() >= 5 && text.subrange(0, 5) == "keep:"@)
            &&& text.subrange(0, 7) == "delete:"@
            &&& text.subrange(7, text.len() as int) == int_text(c.tracker_id as int)
        },
{
    reveal_strlit("keep:");
    reveal_strlit("delete:");
    let tag = action_tag(c.action);
    assert(text.subrange(0, tag.len() as int) =~= tag);
    assert(text.subrange(tag.len() as int, text.len() as int) =~= int_text(c.tracker_id as int));
    if c.action == CompletionAction::Delete {
        assert(text[0] == 'd');
        if text.len() >= 5 && text.subrange(0, 5) == "keep:"@ {
            assert(text.subrange(0, 5)[0] == 'k');
        }
    }
}

impl CompletionChoice {
    /// The text that carries this answer through the messaging layer.
    pub fn encode(&self) -> (r: String)
        ensures
            r@ == choice_text(*self),
    {
        let mut text = match self.action {
            CompletionAction::Keep => String::from_str("keep:"),
            CompletionAction::Delete => String::from_str("delete:"),
        };
        let id = self.tracker_id;
        if id < 0 {
            text.append("-");
            proof {
                reveal_strlit("-");
            }
        }
        let magnitude: u64 = if id < 0 {
            (0 - (id as i128)) as u64
        } else {
            id as u64
        };
        push_digits(&mut text, magnitude);
        assert(text@ =~= choice_text(*self));
        text
    }

    /// The answer a text carries: exactly the texts that `encode` writes are
    /// accepted, each as the answer it was written from.
    pub fn decode(text: &str) -> (r: Option<CompletionChoice>)
        ensures
            r matches Some(c) ==> text@ == choice_text(c),
            forall|c: CompletionChoice| text@ == choice_text(c) ==> r == Some(c),
    {
        let n = text.unicode_len();
        let action;
        let start: usize;
        if n >= 5 && same_text(text.substring_char(0, 5), "keep:") {
            action = CompletionAction::Keep;
            start = 5;
        } else if n >= 7 && same_text(text.substring_char(0, 7), "delete:") {
            action = CompletionAction::Delete;
            start = 7;
        } else {
            proof {
                assert forall|c: CompletionChoice| text@ == choice_text(c) implies false by {
                    lemma_choice_text_parts(text@, c);
                }
            }
            return None;
        }
        let id = match read_int(text.substring_char(start, n)) {
            Some(id) => id,
            None => {
                proof {
                    assert forall|c: CompletionChoice| text@ == choice_text(c) implies false by {
                        lemma_choice_text_parts(text@, c);
                        lemma_int_text_reads_back(c.tracker_id);
                    }
                }
                return None;
            },
        };
        let c = CompletionChoice { tracker_id: id, action };
        let written = c.encode();
        if written == String::from_str(text) {
            proof {
                assert forall|c2: CompletionChoice| text@ == choice_text(c2) implies Some(c) == Some(c2) by {
                    lemma_choice_text_injective(c, c2);
                }
            }
            Some(c)
        } else {
            proof {
                assert forall|c2: CompletionChoice| text@ == choice_text(c2) implies false by {
                    lemma_choice_text_parts(text@, c2);
                    lemma_int_text_reads_back(c2.tracker_id);
                }
            }
            None
        }
    }
}

/// Distinct answers are written as distinct texts, so decoding the text of
/// an answer can only give that answer back.
pub proof fn lemma_choice_text_injective(c1: CompletionChoice, c2: CompletionChoice)
    requires
        choice_text(c1) == choice_text(c2),
    ensures
        c1 == c2,
{
    let text = choice_text(c1);
    lemma_choice_text_parts(text, c1);
    lemma_choice_text_parts(text, c2);
    lemma_int_text_reads_back(c1.tracker_id);
    lemma_int_text_reads_back(c2.tracker_id);
}

} // verus!
