//! Text building: string views, comparisons and decimal numerals.
use vstd::prelude::*;
use vstd::string::StringExecFns;

verus! {

/// The characters of each string of a list.
pub open spec fn views(strings: Seq<String>) -> Seq<Seq<char>> {
    Seq::new(strings.len(), |i: int| strings[i]@)
}

/// The characters of an optional string.
pub open spec fn option_view(text: Option<String>) -> Option<Seq<char>> {
    match text {
        Some(text) => Some(text@),
        None => None,
    }
}

/// The text, unless it is empty.
pub open spec fn nonempty(text: Seq<char>) -> Option<Seq<char>> {
    if text.len() == 0 {
        None
    } else {
        Some(text)
    }
}

/// The text, unless it is empty.
pub fn nonempty_text(text: String) -> (r: Option<String>)
    ensures
        option_view(r) == nonempty(text@),
{
    if text.as_str().is_empty() {
        None
    } else {
        Some(text)
    }
}

/// Whether two texts have the same characters.
pub fn same_text(left: &str, right: &str) -> (r: bool)
    ensures
        r == (left@ == right@),
{
    left.to_owned() == right.to_owned()
}

/// The decimal digit of a number below ten.
pub open spec fn digit(n: nat) -> char {
    if n == 0 {
        '0'
    } else if n == 1 {
        '1'
    } else if n == 2 {
        '2'
    } else if n == 3 {
        '3'
    } else if n == 4 {
        '4'
    } else if n == 5 {
        '5'
    } else if n == 6 {
        '6'
    } else if n == 7 {
        '7'
    } else if n == 8 {
        '8'
    } else {
        '9'
    }
}

/// The decimal numeral of a natural number.
pub open spec fn numeral(n: nat) -> Seq<char>
    decreases n,
{
    if n < 10 {
        seq![digit(n)]
    } else {
        numeral(n / 10).push(digit(n % 10))
    }
}

/// The decimal numeral of an integer, with a minus sign before a negative one.
pub open spec fn decimal(n: int) -> Seq<char> {
    if n < 0 {
        seq!['-'] + numeral((-n) as nat)
    } else {
        numeral(n as nat)
    }
}

fn digit_text(n: u64) -> (r: &'static str)
    requires
        n < 10,
    ensures
        r@ == seq![digit(n as nat)],
{
    proof {
        reveal_strlit("0");
        reveal_strlit("1");
        reveal_strlit("2");
        reveal_strlit("3");
        reveal_strlit("4");
        reveal_strlit("5");
        reveal_strlit("6");
        reveal_strlit("7");
        reveal_strlit("8");
        reveal_strlit("9");
    }
    if n == 0 {
        "0"
    } else if n == 1 {
        "1"
    } else if n == 2 {
        "2"
    } else if n == 3 {
        "3"
    } else if n == 4 {
        "4"
    } else if n == 5 {
        "5"
    } else if n == 6 {
        "6"
    } else if n == 7 {
        "7"
    } else if n == 8 {
        "8"
    } else {
        "9"
    }
}

/// The decimal numeral of a natural number.
pub fn numeral_text(n: u64) -> (r: String)
    ensures
        r@ == numeral(n as nat),
    decreases n,
{
    if n < 10 {
        digit_text(n).to_owned()
    } else {
        let mut text = numeral_text(n / 10);
        text.append(digit_text(n % 10));
        text
    }
}

/// The decimal numeral of a number.
pub fn decimal_text(n: i64) -> (r: String)
    ensures
        r@ == decimal(n as int),
{
    if n < 0 {
        let mut text = "-".to_owned();
        proof {
            reveal_strlit("-");
        }
        let magnitude: u64 = if n == i64::MIN {
            0x8000_0000_0000_0000
        } else {
            (-n) as u64
        };
        text.append(numeral_text(magnitude).as_str());
        text
    } else {
        numeral_text(n as u64)
    }
}

proof fn lemma_digit_injective(a: nat, b: nat)
    requires
        a < 10,
        b < 10,
        digit(a) == digit(b),
    ensures
        a == b,
{
}

proof fn lemma_numeral_len(n: nat)
    ensures
        numeral(n).len() >= 1,
        n >= 10 ==> numeral(n).len() >= 2,
    decreases n,
{
    if n >= 10 {
        lemma_numeral_len(n / 10);
    }
}

/// Different numbers have different numerals.
pub proof fn law_numeral_injective(a: nat, b: nat)
    requires
        numeral(a) == numeral(b),
    ensures
        a == b,
    decreases a,
{
    lemma_numeral_len(a);
    lemma_numeral_len(b);
    if a < 10 {
        assert(numeral(a)[0] == digit(a));
        assert(numeral(b)[0] == digit(b));
        lemma_digit_injective(a, b);
    } else {
        assert(numeral(a).last() == digit(a % 10));
        assert(numeral(b).last() == digit(b % 10));
        lemma_digit_injective(a % 10, b % 10);
        assert(numeral(a).drop_last() =~= numeral(a / 10));
        assert(numeral(b).drop_last() =~= numeral(b / 10));
        law_numeral_injective(a / 10, b / 10);
    }
}

/// The number that a run of decimal digits stands for.
pub open spec fn digits_value(text: Seq<char>) -> int
    decreases text.len(),
{
    if text.len() == 0 {
        0
    } else {
        10 * digits_value(text.drop_last()) + (text.last() as int - '0' as int)
    }
}

proof fn lemma_numeral_reads_back(n: nat)
    ensures
        digits_value(numeral(n)) == n,
        forall|i: int| 0 <= i < numeral(n).len() ==> '0' <= #[trigger] numeral(n)[i] <= '9',
        numeral(n).len() >= 1,
        n > 0 ==> numeral(n)[0] != '0',
    decreases n,
{
    if n < 10 {
        assert(numeral(n).drop_last() =~= Seq::empty());
        assert(digits_value(Seq::<char>::empty()) == 0);
        assert(numeral(n).last() == digit(n));
    } else {
        lemma_numeral_reads_back(n / 10);
        assert(numeral(n).drop_last() =~= numeral(n / 10));
        assert(numeral(n).last() == digit(n % 10));
        assert forall|i: int| 0 <= i < numeral(n).len() implies '0' <= #[trigger] numeral(n)[i]
            <= '9' by {
            if i < numeral(n / 10).len() {
                assert(numeral(n)[i] == numeral(n / 10)[i]);
            }
        }
        assert(numeral(n)[0] == numeral(n / 10)[0]);
    }
}

/// The numeral of a natural number reads back as that number; it is made of digits alone,
/// and only that of zero starts with a zero.
pub proof fn law_numeral_text_reads_back(n: u64, r: String)
    requires
        call_ensures(numeral_text, (n,), r),
    ensures
        digits_value(r@) == n,
        forall|i: int| 0 <= i < r@.len() ==> '0' <= #[trigger] r@[i] <= '9',
        r@.len() >= 1,
        n > 0 ==> r@[0] != '0',
{
    lemma_numeral_reads_back(n as nat);
}

/// The numeral of a number reads back as that number: behind a minus sign where the number
/// is negative, from the first character on where it is not.
pub proof fn law_decimal_text_reads_back(n: i64, r: String)
    requires
        call_ensures(decimal_text, (n,), r),
    ensures
        n >= 0 ==> digits_value(r@) == n && r@.len() >= 1 && (n > 0 ==> r@[0] != '0'),
        n >= 0 ==> forall|i: int| 0 <= i < r@.len() ==> '0' <= #[trigger] r@[i] <= '9',
        n < 0 ==> r@.len() >= 2 && r@[0] == '-' && r@[1] != '0' && digits_value(r@.skip(1)) == -n,
        n < 0 ==> forall|i: int| 1 <= i < r@.len() ==> '0' <= #[trigger] r@[i] <= '9',
{
    if n >= 0 {
        lemma_numeral_reads_back(n as nat);
    } else {
        let magnitude = numeral((-n) as nat);
        lemma_numeral_reads_back((-n) as nat);
        assert(r@.skip(1) =~= magnitude);
        assert forall|i: int| 1 <= i < r@.len() implies '0' <= #[trigger] r@[i] <= '9' by {
            assert(r@[i] == magnitude[i - 1]);
        }
        assert(r@[1] == magnitude[0]);
    }
}

/// An empty text is dropped and any other is kept as it is.
pub proof fn law_only_empty_text_is_dropped(text: String, r: Option<String>)
    requires
        call_ensures(nonempty_text, (text,), r),
    ensures
        text@.len() == 0 <==> r is None,
        r matches Some(kept) ==> kept@ == text@,
{
}

/// Two texts are the same where each has the other's characters, and only there.
pub proof fn law_same_text_compares_characters(left: &str, right: &str, r: bool)
    requires
        call_ensures(same_text, (left, right), r),
    ensures
        r <==> left@.len() == right@.len() && forall|i: int|
            0 <= i < left@.len() ==> #[trigger] left@[i] == right@[i],
{
    if left@.len() == right@.len() && forall|i: int|
        0 <= i < left@.len() ==> #[trigger] left@[i] == right@[i] {
        assert(left@ =~= right@);
    }
}

/// The decimal numeral of an integer reads back as that integer, behind a minus sign where
/// it is negative.
pub proof fn law_decimal_reads_back(n: int)
    ensures
        n >= 0 ==> digits_value(decimal(n)) == n && decimal(n).len() >= 1 && (n > 0 ==> decimal(
            n,
        )[0] != '0') && forall|i: int|
            0 <= i < decimal(n).len() ==> '0' <= #[trigger] decimal(n)[i] <= '9',
        n < 0 ==> decimal(n).len() >= 2 && decimal(n)[0] == '-' && decimal(n)[1] != '0'
            && digits_value(decimal(n).skip(1)) == -n,
{
    if n >= 0 {
        lemma_numeral_reads_back(n as nat);
    } else {
        let magnitude = numeral((-n) as nat);
        lemma_numeral_reads_back((-n) as nat);
        assert(decimal(n).skip(1) =~= magnitude);
        assert(decimal(n)[1] == magnitude[0]);
    }
}

} // verus!
