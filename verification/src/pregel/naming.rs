//! The names of checkpoint files: the name of the graph, a hyphen, the
//! superstep count in at least ten decimal digits, and `.ckpt`.

use vstd::prelude::*;

verus! {

/// The character of a decimal digit.
pub open spec fn digit_char(digit: nat) -> char {
    if digit == 0 {
        '0'
    } else if digit == 1 {
        '1'
    } else if digit == 2 {
        '2'
    } else if digit == 3 {
        '3'
    } else if digit == 4 {
        '4'
    } else if digit == 5 {
        '5'
    } else if digit == 6 {
        '6'
    } else if digit == 7 {
        '7'
    } else if digit == 8 {
        '8'
    } else {
        '9'
    }
}

/// The decimal digits of a number, without leading zeros.
pub open spec fn decimal(number: nat) -> Seq<char>
    decreases number,
{
    if number < 10 {
        seq![digit_char(number)]
    } else {
        decimal(number / 10).push(digit_char(number % 10))
    }
}

/// A run of zeros.
pub open spec fn zeros(count: nat) -> Seq<char> {
    Seq::new(count, |i: int| '0')
}

/// The decimal digits of a number, with zeros in front where there are
/// fewer than `width`.
pub open spec fn padded(number: nat, width: nat) -> Seq<char> {
    let digits = decimal(number);
    if digits.len() >= width {
        digits
    } else {
        zeros((width - digits.len()) as nat) + digits
    }
}

/// The name of the file that holds the checkpoint of a graph at a superstep
/// count.
pub open spec fn file_name(graph_id: Seq<char>, superstep: u64) -> Seq<char> {
    graph_id + seq!['-'] + padded(superstep as nat, 10) + seq!['.', 'c', 'k', 'p', 't']
}

/// One decimal digit, as text.
fn digit_str(digit: u8) -> (text: &'static str)
    requires
        digit < 10,
    ensures
        text@ == seq![digit_char(digit as nat)],
{
    proof {
        reveal_strlit("0");
        reveal_strlit("1");
        reveal_strlit("2");
        reveal_strlit("3");
        reveal_strlit("4");
        reveal_strlit("5");
        reveal_strlit("6");
        reveal_strlit("7");
        reveal_strlit("8");
        reveal_strlit("9");
    }
    let text = if digit == 0 {
        "0"
    } else if digit == 1 {
        "1"
    } else if digit == 2 {
        "2"
    } else if digit == 3 {
        "3"
    } else if digit == 4 {
        "4"
    } else if digit == 5 {
        "5"
    } else if digit == 6 {
        "6"
    } else if digit == 7 {
        "7"
    } else if digit == 8 {
        "8"
    } else {
        "9"
    };
    assert(text@ =~= seq![digit_char(digit as nat)]);
    text
}

/// The decimal digits of a number, the last one first.
fn digits_reversed(number: u64) -> (digits: Vec<u8>)
    ensures
        digits@.len() == decimal(number as nat).len(),
        forall|i: int|
            0 <= i < digits@.len() ==> (#[trigger] digits@[i]) < 10 && digit_char(
                digits@[i] as nat,
            ) == decimal(number as nat)[digits@.len() - 1 - i],
{
    let mut digits: Vec<u8> = Vec::new();
    let mut rest = number;
    while rest >= 10
        invariant
            decimal(number as nat).len() == decimal(rest as nat).len() + digits@.len(),
            forall|i: int|
                0 <= i < decimal(rest as nat).len() ==> decimal(number as nat)[i] == decimal(
                    rest as nat,
                )[i],
            forall|i: int|
                0 <= i < digits@.len() ==> (#[trigger] digits@[i]) < 10 && digit_char(
                    digits@[i] as nat,
                ) == decimal(number as nat)[decimal(number as nat).len() - 1 - i],
        decreases rest,
    {
        let ghost whole = decimal(rest as nat);
        let ghost front = decimal((rest / 10) as nat);
        assert(whole == front.push(digit_char((rest % 10) as nat)));
        digits.push((rest % 10) as u8);
        rest = rest / 10;
    }
    digits.push(rest as u8);
    digits
}

/// The name of the file that holds the checkpoint of a graph at a superstep
/// count.
pub fn checkpoint_file_name(graph_id: &str, superstep: u64) -> (name: String)
    ensures
        name@ == file_name(graph_id@, superstep),
{
    let digits = digits_reversed(superstep);
    let ghost shown = decimal(superstep as nat);
    let mut name = graph_id.to_owned();
    proof {
        reveal_strlit("-");
    }
    name.append("-");
    assert(name@ =~= graph_id@ + seq!['-']);
    let mut pad: usize = 0;
    let missing: usize = if digits.len() < 10 {
        10 - digits.len()
    } else {
        0
    };
    while pad < missing
        invariant
            pad <= missing,
            name@ == graph_id@ + seq!['-'] + zeros(pad as nat),
        decreases missing - pad,
    {
        proof {
            reveal_strlit("0");
        }
        name.append("0");
        assert(name@ =~= graph_id@ + seq!['-'] + zeros((pad + 1) as nat));
        pad += 1;
    }
    let ghost head = name@;
    assert(head + shown =~= graph_id@ + seq!['-'] + padded(superstep as nat, 10)) by {
        if shown.len() >= 10 {
            assert(zeros(0) =~= Seq::<char>::empty());
        }
    }
    let mut left: usize = digits.len();
    while left > 0
        invariant
            left <= digits@.len(),
            digits@.len() == shown.len(),
            forall|i: int|
                0 <= i < digits@.len() ==> (#[trigger] digits@[i]) < 10 && digit_char(
                    digits@[i] as nat,
                ) == shown[digits@.len() - 1 - i],
            name@ == head + shown.take(digits@.len() - left),
        decreases left,
    {
        left -= 1;
        let ghost at = digits@.len() - 1 - left;
        name.append(digit_str(digits[left]));
        assert(name@ =~= head + shown.take(at + 1)) by {
            assert(shown.take(at + 1) =~= shown.take(at).push(shown[at]));
        }
    }
    assert(shown.take(shown.len() as int) =~= shown);
    proof {
        reveal_strlit(".ckpt");
    }
    name.append(".ckpt");
    assert(name@ =~= file_name(graph_id@, superstep));
    name
}

/// Whether a character is a decimal digit.
pub open spec fn is_digit(c: char) -> bool {
    '0' <= c <= '9'
}

/// The number that a decimal digit stands for.
pub open spec fn digit_of(c: char) -> nat {
    (c as nat - '0' as nat) as nat
}

/// The number that a run of decimal digits stands for.
pub open spec fn number_of(digits: Seq<char>) -> nat
    decreases digits.len(),
{
    if digits.len() == 0 {
        0
    } else {
        number_of(digits.drop_last()) * 10 + digit_of(digits.last())
    }
}

/// Whether every character is a decimal digit.
pub open spec fn all_digits(text: Seq<char>) -> bool {
    forall|i: int| 0 <= i < text.len() ==> is_digit(#[trigger] text[i])
}

proof fn lemma_decimal(number: nat)
    ensures
        decimal(number).len() >= 1,
        all_digits(decimal(number)),
        number_of(decimal(number)) == number,
    decreases number,
{
    let digits = decimal(number);
    if number < 10 {
        assert(digits.drop_last() =~= Seq::<char>::empty());
        assert(number_of(digits.drop_last()) == 0);
    } else {
        lemma_decimal(number / 10);
        let front = decimal(number / 10);
        assert(digits.drop_last() =~= front);
        assert forall|i: int| 0 <= i < digits.len() implies is_digit(#[trigger] digits[i]) by {
            if i < front.len() {
                assert(digits[i] == front[i]);
            }
        }
    }
}

proof fn lemma_leading_zeros(count: nat, digits: Seq<char>)
    ensures
        number_of(zeros(count) + digits) == number_of(digits),
        all_digits(digits) ==> all_digits(zeros(count) + digits),
    decreases digits.len(),
{
    let whole = zeros(count) + digits;
    if digits.len() == 0 {
        assert(whole =~= zeros(count));
        lemma_zeros(count);
    } else {
        assert(whole.drop_last() =~= zeros(count) + digits.drop_last());
        lemma_leading_zeros(count, digits.drop_last());
    }
    if all_digits(digits) {
        assert forall|i: int| 0 <= i < whole.len() implies is_digit(#[trigger] whole[i]) by {
            if i >= count {
                assert(whole[i] == digits[i - count]);
            }
        }
    }
}

proof fn lemma_zeros(count: nat)
    ensures
        number_of(zeros(count)) == 0,
    decreases count,
{
    if count > 0 {
        assert(zeros(count).drop_last() =~= zeros((count - 1) as nat));
        lemma_zeros((count - 1) as nat);
    }
}

/// What holds of the digits in a file name: there are ten or more, all are
/// digits, and they stand for the superstep count.
pub proof fn lemma_padded(number: nat)
    ensures
        padded(number, 10).len() >= 10,
        all_digits(padded(number, 10)),
        number_of(padded(number, 10)) == number,
{
    lemma_decimal(number);
    let digits = decimal(number);
    if digits.len() < 10 {
        lemma_leading_zeros((10 - digits.len()) as nat, digits);
    }
}

proof fn lemma_number_grows(digits: Seq<char>, upto: int)
    requires
        0 <= upto <= digits.len(),
    ensures
        number_of(digits.take(upto)) <= number_of(digits),
    decreases digits.len() - upto,
{
    if upto < digits.len() {
        lemma_number_grows(digits, upto + 1);
        assert(digits.take(upto + 1).drop_last() =~= digits.take(upto));
    } else {
        assert(digits.take(upto) =~= digits);
    }
}

/// The superstep count in the name of a checkpoint file of a graph, or
/// `None` where the name is not that of a checkpoint file of the graph.
pub fn superstep_of_file_name(name: &str, graph_id: &str) -> (found: Option<u64>)
    ensures
        found matches Some(superstep) ==> name@ == file_name(graph_id@, superstep),
        found is None ==> forall|superstep: u64| name@ != #[trigger] file_name(graph_id@, superstep),
{
    let length = name.unicode_len();
    let lead = graph_id.unicode_len();
    if length < 16 || length - 16 < lead {
        proof {
            assert forall|superstep: u64| name@ != #[trigger] file_name(
                graph_id@,
                superstep,
            ) by {
                lemma_padded(superstep as nat);
            }
        }
        return None;
    }
    let from = lead + 1;
    let to = length - 5;
    let ghost middle = name@.subrange(from as int, to as int);
    proof {
        assert forall|superstep: u64| name@ == #[trigger] file_name(
            graph_id@,
            superstep,
        ) implies middle == padded(superstep as nat, 10) by {
            assert(middle =~= padded(superstep as nat, 10));
        }
    }
    let mut number: u64 = 0;
    let mut at: usize = from;
    assert(middle.take(0) =~= Seq::<char>::empty());
    while at < to
        invariant
            from <= at <= to,
            to <= name@.len(),
            middle == name@.subrange(from as int, to as int),
            forall|superstep: u64|
                name@ == #[trigger] file_name(graph_id@, superstep) ==> middle == padded(
                    superstep as nat,
                    10,
                ),
            number == number_of(middle.take(at - from)),
        decreases to - at,
    {
        let c = name.get_char(at);
        let ghost seen = middle.take(at - from);
        let ghost next = middle.take(at - from + 1);
        assert(next.drop_last() =~= seen);
        assert(next.last() == c);
        if c < '0' || c > '9' {
            proof {
                assert(!is_digit(middle[at - from]));
                assert forall|superstep: u64| name@ != #[trigger] file_name(
                    graph_id@,
                    superstep,
                ) by {
                    lemma_padded(superstep as nat);
                }
            }
            return None;
        }
        let digit = (c as u32 - '0' as u32) as u64;
        assert(digit == digit_of(c));
        if number > (u64::MAX - digit) / 10 {
            proof {
                assert(number_of(next) > u64::MAX);
                lemma_number_grows(middle, at - from + 1);
                assert forall|superstep: u64| name@ != #[trigger] file_name(
                    graph_id@,
                    superstep,
                ) by {
                    lemma_padded(superstep as nat);
                }
            }
            return None;
        }
        number = number * 10 + digit;
        at += 1;
    }
    assert(middle.take(to - from) =~= middle);
    let candidate = checkpoint_file_name(graph_id, number);
    if crate::text::str_eq(candidate.as_str(), name) {
        Some(number)
    } else {
        proof {
            assert forall|superstep: u64| name@ != #[trigger] file_name(
                graph_id@,
                superstep,
            ) by {
                lemma_padded(superstep as nat);
            }
        }
        None
    }
}

} // verus!
