//! Integers in decimal notation, written and read.
use vstd::prelude::*;
use crate::text::chars_of;

verus! {

broadcast use vstd::string::group_string_axioms;

/// The decimal digit for a value under ten.
pub open spec fn digit(d: nat) -> char {
    ((48 + d) as u8) as char
}

/// The decimal digits of a number, without leading zeros.
pub open spec fn digits(n: nat) -> Seq<char>
    decreases n,
{
    if n < 10 {
        seq![digit(n)]
    } else {
        digits(n / 10).push(digit(n % 10))
    }
}

/// A number with a minus sign where it is negative.
pub open spec fn signed_digits(n: int) -> Seq<char> {
    if n < 0 {
        seq!['-'] + digits((-n) as nat)
    } else {
        digits(n as nat)
    }
}

/// One of the characters `0` to `9`.
pub open spec fn is_digit(c: char) -> bool {
    '0' <= c && c <= '9'
}

/// At least one character, and all of them decimal digits.
pub open spec fn all_digits(s: Seq<char>) -> bool {
    s.len() > 0 && forall|i: int| 0 <= i < s.len() ==> is_digit(#[trigger] s[i])
}

/// The number that a sequence of decimal digits stands for.
pub open spec fn value(s: Seq<char>) -> nat
    decreases s.len(),
{
    if s.len() == 0 {
        0
    } else {
        value(s.drop_last()) * 10 + ((s.last() as u32) - 48) as nat
    }
}

/// The number that a text without a minus sign stands for: decimal digits,
/// with one `+` allowed before them.
pub open spec fn unsigned_value(s: Seq<char>) -> Option<nat> {
    let body = if s.len() > 0 && s[0] == '+' {
        s.drop_first()
    } else {
        s
    };
    if all_digits(body) {
        Some(value(body))
    } else {
        None
    }
}

/// The number that a text with an optional sign stands for.
pub open spec fn signed_value(s: Seq<char>) -> Option<int> {
    if s.len() > 0 && s[0] == '-' {
        if all_digits(s.drop_first()) {
            Some(-(value(s.drop_first()) as int))
        } else {
            None
        }
    } else {
        match unsigned_value(s) {
            Some(n) => Some(n as int),
            None => None,
        }
    }
}

/// Reading the digits of a number gives the number back.
pub proof fn reading_gives_back_digits(n: nat)
    ensures
        all_digits(digits(n)),
        value(digits(n)) == n,
        unsigned_value(digits(n)) == Some(n),
    decreases n,
{
    let s = digits(n);
    if n < 10 {
        assert(s.drop_last() =~= Seq::<char>::empty());
        assert(s.last() as u32 == 48 + n);
        assert(value(s.drop_last()) == 0);
    } else {
        reading_gives_back_digits(n / 10);
        assert(s.drop_last() =~= digits(n / 10));
        assert(s.last() as u32 == 48 + n % 10);
        assert forall|i: int| 0 <= i < s.len() implies is_digit(#[trigger] s[i]) by {
            if i < s.len() - 1 {
                assert(s[i] == digits(n / 10)[i]);
            }
        }
    }
    assert(is_digit(s[0]));
}

/// Reading the notation of any integer gives the integer back.
pub proof fn reading_gives_back_signed_digits(n: int)
    ensures
        signed_value(signed_digits(n)) == Some(n),
{
    if n < 0 {
        reading_gives_back_digits((-n) as nat);
        assert(signed_digits(n).drop_first() =~= digits((-n) as nat));
    } else {
        reading_gives_back_digits(n as nat);
        assert(is_digit(digits(n as nat)[0]));
    }
}

/// Two numbers with the same digits are the same number.
pub proof fn digits_tell_numbers_apart(a: nat, b: nat)
    ensures
        digits(a) == digits(b) <==> a == b,
{
    reading_gives_back_digits(a);
    reading_gives_back_digits(b);
}

/// The decimal notation of a number.
pub fn decimal(n: u64) -> (r: String)
    ensures
        r@ == digits(n as nat),
    decreases n,
{
    let last = ((48 + n % 10) as u8) as char;
    if n < 10 {
        let mut s = String::new();
        s.push(last);
        assert(s@ =~= seq![digit(n as nat)]);
        s
    } else {
        let mut s = decimal(n / 10);
        s.push(last);
        s
    }
}

/// The decimal notation of a signed number.
pub fn signed_decimal(n: i64) -> (r: String)
    ensures
        r@ == signed_digits(n as int),
{
    if n < 0 {
        let mut s = String::new();
        s.push('-');
        let below: u64 = (-(n + 1)) as u64;
        let rest = decimal(below + 1);
        s.append(rest.as_str());
        assert(s@ =~= seq!['-'] + digits((-n) as nat));
        s
    } else {
        decimal(n as u64)
    }
}

proof fn value_of_prefix(s: Seq<char>, k: int)
    requires
        all_digits(s),
        0 <= k <= s.len(),
    ensures
        value(s.take(k)) <= value(s),
    decreases s.len() - k,
{
    if k < s.len() {
        value_of_prefix(s, k + 1);
        assert(s.take(k + 1).drop_last() =~= s.take(k));
        assert(is_digit(s[k]));
    } else {
        assert(s.take(k) =~= s);
    }
}

/// Digits from position `from` on, as a number of at most `most`.
fn digits_value(chars: &Vec<char>, from: usize, most: u64) -> (r: Option<u64>)
    requires
        from <= chars@.len(),
        most <= 0xffff_ffff_ffff,
    ensures
        ({
            let body = chars@.skip(from as int);
            r == if all_digits(body) && value(body) <= most {
                Some(value(body) as u64)
            } else {
                None::<u64>
            }
        }),
{
    let ghost body = chars@.skip(from as int);
    if from == chars.len() {
        return None;
    }
    let mut total: u64 = 0;
    let mut i: usize = from;
    assert(body.take(0) =~= Seq::<char>::empty());
    while i < chars.len()
        invariant
            from <= i <= chars@.len(),
            from < chars@.len(),
            body == chars@.skip(from as int),
            most <= 0xffff_ffff_ffff,
            total <= most,
            total == value(body.take(i - from)),
            forall|k: int| 0 <= k < i - from ==> is_digit(#[trigger] body[k]),
        decreases chars@.len() - i,
    {
        let c = chars[i];
        assert(c == body[i - from]);
        if !('0' <= c && c <= '9') {
            return None;
        }
        total = total * 10 + ((c as u32) - 48) as u64;
        assert(body.take(i - from + 1).drop_last() =~= body.take(i - from));
        if total > most {
            proof {
                if all_digits(body) {
                    value_of_prefix(body, i - from + 1);
                }
            }
            return None;
        }
        i += 1;
    }
    assert(body.take(body.len() as int) =~= body);
    Some(total)
}

/// Reads a number of at most `most`: decimal digits with an optional `+`.
pub fn read_unsigned(s: &str, most: u32) -> (r: Option<u32>)
    ensures
        r == match unsigned_value(s@) {
            Some(n) => if n <= most {
                Some(n as u32)
            } else {
                None::<u32>
            },
            None => None::<u32>,
        },
{
    let chars = chars_of(s);
    let from: usize = if chars.len() > 0 && chars[0] == '+' {
        1
    } else {
        0
    };
    assert(chars@.skip(0) =~= chars@);
    assert(chars@.len() > 0 ==> chars@.skip(1) =~= chars@.drop_first());
    match digits_value(&chars, from, most as u64) {
        Some(n) => Some(n as u32),
        None => None,
    }
}

/// Reads an `i32`: decimal digits with an optional sign.
pub fn read_i32(s: &str) -> (r: Option<i32>)
    ensures
        r == match signed_value(s@) {
            Some(n) => if i32::MIN <= n <= i32::MAX {
                Some(n as i32)
            } else {
                None::<i32>
            },
            None => None::<i32>,
        },
{
    let chars = chars_of(s);
    assert(chars@.skip(0) =~= chars@);
    assert(chars@.len() > 0 ==> chars@.skip(1) =~= chars@.drop_first());
    if chars.len() > 0 && chars[0] == '-' {
        match digits_value(&chars, 1, 0x8000_0000) {
            Some(n) => Some((-(n as i64)) as i32),
            None => None,
        }
    } else {
        let from: usize = if chars.len() > 0 && chars[0] == '+' {
            1
        } else {
            0
        };
        match digits_value(&chars, from, 0x7fff_ffff) {
            Some(n) => Some(n as i32),
            None => None,
        }
    }
}

/// What is wrong with the characters from position `k` on of a number of at
/// most `most`, seen from the left: the first that is no digit, or the first
/// that makes the number too large.
pub open spec fn scan_fault(body: Seq<char>, most: nat, k: nat) -> Option<Seq<char>>
    decreases body.len() - k,
{
    if k >= body.len() {
        None
    } else if !is_digit(body[k as int]) {
        Some("invalid digit found in string"@)
    } else if value(body.take(k as int + 1)) > most {
        Some("number too large to fit in target type"@)
    } else {
        scan_fault(body, most, k + 1)
    }
}

/// Why a text is not a number of at most `most`, if it is not.
pub open spec fn unsigned_fault(s: Seq<char>, most: nat) -> Option<Seq<char>> {
    if s.len() == 0 {
        Some("cannot parse integer from empty string"@)
    } else {
        let body = if s[0] == '+' {
            s.drop_first()
        } else {
            s
        };
        if body.len() == 0 {
            Some("invalid digit found in string"@)
        } else {
            scan_fault(body, most, 0)
        }
    }
}

/// A text is a number of at most `most` exactly when nothing is wrong with it.
pub proof fn numbers_have_no_fault(s: Seq<char>, most: nat)
    ensures
        unsigned_fault(s, most) is None <==> unsigned_value(s) is Some && unsigned_value(s)->0
            <= most,
{
    let body = if s.len() > 0 && s[0] == '+' {
        s.drop_first()
    } else {
        s
    };
    if body.len() > 0 {
        assert(body.take(0) =~= Seq::<char>::empty());
        lemma_scan(body, most, 0);
    }
}

proof fn lemma_scan(body: Seq<char>, most: nat, k: nat)
    requires
        k <= body.len(),
        body.len() > 0,
        forall|i: int| 0 <= i < k ==> is_digit(#[trigger] body[i]),
        value(body.take(k as int)) <= most,
    ensures
        scan_fault(body, most, k) is None <==> all_digits(body) && value(body) <= most,
    decreases body.len() - k,
{
    if k == body.len() {
        assert(body.take(k as int) =~= body);
    } else if is_digit(body[k as int]) {
        if value(body.take(k as int + 1)) > most {
            if all_digits(body) {
                value_of_prefix(body, k as int + 1);
            }
        } else {
            lemma_scan(body, most, k + 1);
        }
    }
}

/// Reads a `u32`: decimal digits with an optional `+`, or what is wrong with
/// the text.
pub fn read_u32(s: &str) -> (r: Result<u32, String>)
    ensures
        match unsigned_fault(s@, u32::MAX as nat) {
            None => r is Ok && Some(r->Ok_0 as nat) == unsigned_value(s@),
            Some(message) => r is Err && r->Err_0@ == message,
        },
{
    proof {
        numbers_have_no_fault(s@, u32::MAX as nat);
    }
    let chars = chars_of(s);
    if chars.len() == 0 {
        return Err("cannot parse integer from empty string".to_string());
    }
    let from: usize = if chars[0] == '+' {
        1
    } else {
        0
    };
    let ghost body = if s@[0] == '+' {
        s@.drop_first()
    } else {
        s@
    };
    assert(body =~= chars@.skip(from as int));
    if from == chars.len() {
        return Err("invalid digit found in string".to_string());
    }
    let mut total: u64 = 0;
    let mut i: usize = from;
    assert(body.take(0) =~= Seq::<char>::empty());
    while i < chars.len()
        invariant
            from <= i <= chars@.len(),
            from < chars@.len(),
            chars@ == s@,
            body == chars@.skip(from as int),
            unsigned_fault(s@, u32::MAX as nat) == scan_fault(
                body,
                u32::MAX as nat,
                (i - from) as nat,
            ),
            total <= u32::MAX,
            total == value(body.take(i - from)),
            forall|k: int| 0 <= k < i - from ==> is_digit(#[trigger] body[k]),
        decreases chars@.len() - i,
    {
        let c = chars[i];
        assert(c == body[i - from]);
        if !('0' <= c && c <= '9') {
            return Err("invalid digit found in string".to_string());
        }
        assert(body.take(i - from + 1).drop_last() =~= body.take(i - from));
        total = total * 10 + ((c as u32) - 48) as u64;
        if total > u32::MAX as u64 {
            return Err("number too large to fit in target type".to_string());
        }
        i += 1;
    }
    assert(body.take(body.len() as int) =~= body);
    Ok(total as u32)
}

/// Each further digit makes the number ten times as large and adds its own worth;
/// one `+` before the digits changes nothing.
pub proof fn every_digit_counts(s: Seq<char>, c: char)
    requires
        all_digits(s),
    ensures
        is_digit(c) ==> unsigned_value(s.push(c)) == Some(
            (unsigned_value(s)->0 * 10 + (c as u32 - '0' as u32)) as nat,
        ),
        !is_digit(c) ==> unsigned_value(s.push(c)) is None,
        unsigned_value(seq!['+'] + s) == unsigned_value(s),
        signed_value(seq!['+'] + s) == Some(unsigned_value(s)->0 as int),
        signed_value(seq!['-'] + s) == Some(-(unsigned_value(s)->0 as int)),
        unsigned_value(seq!['-'] + s) is None,
{
    let more = s.push(c);
    assert(is_digit(s[0]));
    assert(more[0] == s[0]);
    assert(more.drop_last() =~= s);
    if is_digit(c) {
        assert forall|i: int| 0 <= i < more.len() implies is_digit(#[trigger] more[i]) by {
            if i < s.len() {
                assert(more[i] == s[i]);
            }
        }
    } else {
        assert(!is_digit(more[s.len() as int]));
    }
    assert((seq!['+'] + s).drop_first() =~= s);
    assert((seq!['-'] + s).drop_first() =~= s);
    assert(!is_digit((seq!['-'] + s)[0]));
}

proof fn lemma_prefix_is_smaller(s: Seq<char>, i: int, j: int)
    requires
        0 <= i <= j <= s.len(),
    ensures
        value(s.take(i)) <= value(s.take(j)),
    decreases j - i,
{
    if i < j {
        assert(s.take(j).drop_last() =~= s.take(j - 1));
        lemma_prefix_is_smaller(s, i, j - 1);
    }
}

proof fn lemma_scan_stops(body: Seq<char>, most: nat, k: nat, at: nat)
    requires
        k <= at <= body.len(),
        forall|i: int| 0 <= i < at ==> is_digit(#[trigger] body[i]),
    ensures
        at < body.len() && !is_digit(body[at as int]) && value(body.take(at as int)) <= most
            ==> scan_fault(body, most, k) == Some("invalid digit found in string"@),
        at == body.len() && value(body.take(k as int)) <= most < value(body) ==> scan_fault(
            body,
            most,
            k,
        ) == Some("number too large to fit in target type"@),
    decreases at - k,
{
    if k < at {
        lemma_prefix_is_smaller(body, k as int + 1, at as int);
        lemma_scan_stops(body, most, k + 1, at);
    } else {
        assert(body.take(body.len() as int) =~= body);
    }
}

/// What is wrong with a number is said of it: that nothing was typed, that a
/// character is no digit, or that the number is too large.
pub proof fn faults_name_what_is_wrong(s: Seq<char>, c: char, rest: Seq<char>, most: nat)
    requires
        all_digits(s),
        !is_digit(c),
    ensures
        unsigned_fault(Seq::empty(), most) == Some("cannot parse integer from empty string"@),
        unsigned_fault(seq!['+'], most) == Some("invalid digit found in string"@),
        value(s) > most ==> unsigned_fault(s, most) == Some(
            "number too large to fit in target type"@,
        ),
        value(s) <= most ==> unsigned_fault(s, most) is None && unsigned_fault(
            s.push(c) + rest,
            most,
        ) == Some("invalid digit found in string"@),
{
    let body = s.push(c) + rest;
    assert(is_digit(s[0]));
    assert(body[0] == s[0]);
    assert(s.take(0) =~= Seq::<char>::empty());
    lemma_scan_stops(s, most, 0, s.len());
    numbers_have_no_fault(s, most);
    assert forall|i: int| 0 <= i < s.len() implies is_digit(#[trigger] body[i]) by {
        assert(body[i] == s[i]);
    }
    assert(body.take(s.len() as int) =~= s);
    lemma_scan_stops(body, most, 0, s.len());
    assert(seq!['+'].drop_first().len() == 0);
}

} // verus!
