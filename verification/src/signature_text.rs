//! The textual form of a signature, `first:second:block`, read back into its
//! three fields.

use vstd::prelude::*;
use vstd::string::*;
use crate::chars::chars_of;

verus! {

/// The position of the first `:` of `s` at or after `from`, or the length of
/// `s` if there is none.
pub open spec fn find_colon(s: Seq<char>, from: int) -> int
    decreases s.len() - from,
{
    if from < 0 || from >= s.len() {
        s.len() as int
    } else if s[from] == ':' {
        from
    } else {
        find_colon(s, from + 1)
    }
}

/// `c` is one of `0` to `9`.
pub open spec fn is_digit(c: char) -> bool {
    48 <= c as u32 <= 57
}

/// Every character of `s` is a decimal digit.
pub open spec fn all_digits(s: Seq<char>) -> bool {
    forall|i: int| 0 <= i < s.len() ==> is_digit(#[trigger] s[i])
}

/// The number that the decimal digits of `s` write.
pub open spec fn digits_value(s: Seq<char>) -> nat
    decreases s.len(),
{
    if s.len() == 0 {
        0
    } else {
        digits_value(s.drop_last()) * 10 + (s.last() as u32 - 48) as nat
    }
}

/// The block size that `s` writes: an optional `+`, then at least one decimal
/// digit and nothing else, with a value that fits in 64 bits.
pub open spec fn number_of(s: Seq<char>) -> Option<u64> {
    let body = if s.len() > 0 && s[0] == '+' {
        s.subrange(1, s.len() as int)
    } else {
        s
    };
    if body.len() > 0 && all_digits(body) && digits_value(body) <= u64::MAX {
        Some(digits_value(body) as u64)
    } else {
        None
    }
}

/// The three fields of the signature text `s`. There are fields only if `s`
/// holds exactly two `:` and what follows the second is a block size.
pub open spec fn parse_spec(s: Seq<char>) -> Option<(Seq<char>, Seq<char>, u64)> {
    let i = find_colon(s, 0);
    let j = find_colon(s, i + 1);
    let k = find_colon(s, j + 1);
    if i < s.len() && j < s.len() && k >= s.len() {
        match number_of(s.subrange(j + 1, s.len() as int)) {
            Some(block) => Some((s.subrange(0, i), s.subrange(i + 1, j), block)),
            None => None,
        }
    } else {
        None
    }
}

/// The character that writes the digit `d`.
pub open spec fn digit_char(d: nat) -> char {
    (48 + d) as u8 as char
}

/// The decimal digits of `n`, without leading zeros.
pub open spec fn decimal(n: nat) -> Seq<char>
    decreases n,
{
    if n < 10 {
        seq![digit_char(n)]
    } else {
        decimal(n / 10).push(digit_char(n % 10))
    }
}

/// The text of a signature: the two symbol sequences and the block size in
/// decimal, with a `:` between them.
pub open spec fn text_of(first: Seq<char>, second: Seq<char>, block: nat) -> Seq<char> {
    first + seq![':'] + second + seq![':'] + decimal(block)
}

/// No character of `s` is a `:`.
pub open spec fn no_colon(s: Seq<char>) -> bool {
    forall|i: int| 0 <= i < s.len() ==> #[trigger] s[i] != ':'
}

/// The search for a `:` passes over a stretch that holds none.
pub proof fn lemma_find_colon_skips(s: Seq<char>, from: int, to: int)
    requires
        0 <= from <= to <= s.len(),
        forall|k: int| from <= k < to ==> #[trigger] s[k] != ':',
    ensures
        find_colon(s, from) == find_colon(s, to),
    decreases to - from,
{
    if from < to {
        lemma_find_colon_skips(s, from + 1, to);
    }
}

/// The decimal form of a number is one or more digits that write that number.
pub proof fn lemma_decimal_reads_back(n: nat)
    ensures
        decimal(n).len() >= 1,
        all_digits(decimal(n)),
        digits_value(decimal(n)) == n,
    decreases n,
{
    if n < 10 {
        let d = decimal(n);
        assert(d.drop_last() =~= Seq::<char>::empty());
        assert(digits_value(d.drop_last()) == 0);
    } else {
        lemma_decimal_reads_back(n / 10);
        let d = decimal(n);
        assert(d.drop_last() =~= decimal(n / 10));
        assert forall|i: int| 0 <= i < d.len() implies is_digit(#[trigger] d[i]) by {
            if i < d.len() - 1 {
                assert(d[i] == decimal(n / 10)[i]);
            }
        }
    }
}

/// A block size in decimal is read back as that block size.
pub proof fn lemma_number_of_decimal(n: u64)
    ensures
        number_of(decimal(n as nat)) == Some(n),
{
    lemma_decimal_reads_back(n as nat);
    assert(is_digit(decimal(n as nat)[0]));
}

/// The text of a signature parses back into the fields it was written from,
/// provided that no symbol is a `:`.
pub proof fn lemma_parse_text_of(first: Seq<char>, second: Seq<char>, block: u64)
    requires
        no_colon(first),
        no_colon(second),
    ensures
        parse_spec(text_of(first, second, block as nat)) == Some((first, second, block)),
{
    let s = text_of(first, second, block as nat);
    let digits = decimal(block as nat);
    let i = first.len() as int;
    let j = i + 1 + second.len();
    lemma_decimal_reads_back(block as nat);
    lemma_number_of_decimal(block);
    assert(s.len() == j + 1 + digits.len());
    assert forall|k: int| 0 <= k < i implies #[trigger] s[k] != ':' by {
        assert(s[k] == first[k]);
    }
    assert(s[i] == ':');
    assert forall|k: int| i + 1 <= k < j implies #[trigger] s[k] != ':' by {
        assert(s[k] == second[k - i - 1]);
    }
    assert(s[j] == ':');
    assert forall|k: int| j + 1 <= k < s.len() implies #[trigger] s[k] != ':' by {
        assert(s[k] == digits[k - j - 1]);
        assert(is_digit(digits[k - j - 1]));
    }
    lemma_find_colon_skips(s, 0, i);
    lemma_find_colon_skips(s, i + 1, j);
    lemma_find_colon_skips(s, j + 1, s.len() as int);
    assert(find_colon(s, 0) == i);
    assert(find_colon(s, i + 1) == j);
    assert(find_colon(s, j + 1) == s.len());
    assert(s.subrange(0, i) =~= first);
    assert(s.subrange(i + 1, j) =~= second);
    assert(s.subrange(j + 1, s.len() as int) =~= digits);
}

/// Appends `c` to `text`. This is `String::push` of std; that the string
/// then holds its former characters followed by `c` is taken from its
/// documentation, not proved.
#[verifier::external_body]
fn push_char(text: &mut String, c: char)
    ensures
        final(text)@ == old(text)@.push(c),
{
    text.push(c)
}

/// Writes `n` in decimal at the end of `text`.
fn push_decimal(text: &mut String, n: u64)
    ensures
        final(text)@ == old(text)@ + decimal(n as nat),
{
    let mut digits: Vec<char> = Vec::new();
    let mut rest: u64 = n;
    while rest >= 10
        invariant
            decimal(n as nat) == decimal(rest as nat) + digits@,
        decreases rest,
    {
        let d: u8 = (rest % 10) as u8;
        let ghost tail = digits@;
        digits.insert(0, (48 + d) as char);
        assert(decimal(rest as nat) + tail =~= decimal((rest / 10) as nat) + digits@);
        rest = rest / 10;
    }
    let d: u8 = rest as u8;
    digits.insert(0, (48 + d) as char);
    assert(decimal(n as nat) =~= digits@);
    push_all(text, &digits);
}

/// Copies the characters of `from` to the end of `text`.
fn push_all(text: &mut String, from: &Vec<char>)
    ensures
        final(text)@ == old(text)@ + from@,
{
    let ghost before = text@;
    let mut k: usize = 0;
    assert(before + from@.take(0) =~= before);
    while k < from.len()
        invariant
            k <= from@.len(),
            text@ == before + from@.take(k as int),
        decreases from@.len() - k,
    {
        push_char(text, from[k]);
        assert(before + from@.take(k + 1) =~= (before + from@.take(k as int)).push(
            from@[k as int],
        ));
        k += 1;
    }
    assert(from@.take(from@.len() as int) =~= from@);
}

/// The text of the signature with symbol sequences `first` and `second` and
/// block size `block`.
pub fn format_signature(first: &Vec<char>, second: &Vec<char>, block: u64) -> (s: String)
    ensures
        s@ == text_of(first@, second@, block as nat),
{
    let mut text: String = String::new();
    push_all(&mut text, first);
    push_char(&mut text, ':');
    push_all(&mut text, second);
    push_char(&mut text, ':');
    push_decimal(&mut text, block);
    assert(text@ =~= text_of(first@, second@, block as nat));
    text
}

/// The position of the first `:` at or after `from`, or the length of
/// `chars` if there is none.
fn colon_from(chars: &Vec<char>, from: usize) -> (k: usize)
    requires
        from <= chars@.len(),
    ensures
        k == find_colon(chars@, from as int),
        from <= k <= chars@.len(),
{
    let len: usize = chars.len();
    let mut k: usize = from;
    while k < len && chars[k] != ':'
        invariant
            from <= k <= len,
            len == chars@.len(),
            find_colon(chars@, from as int) == find_colon(chars@, k as int),
        decreases len - k,
    {
        k += 1;
    }
    k
}

/// Reads the block size that `chars` holds from position `from` to its end.
fn number_in(chars: &Vec<char>, from: usize) -> (r: Option<u64>)
    requires
        from <= chars@.len(),
    ensures
        r == number_of(chars@.subrange(from as int, chars@.len() as int)),
{
    let len: usize = chars.len();
    let start: usize = if from < len && chars[from] == '+' {
        from + 1
    } else {
        from
    };
    let ghost text = chars@.subrange(from as int, len as int);
    let ghost body = chars@.subrange(start as int, len as int);
    assert(start == from + 1 ==> text.subrange(1, text.len() as int) =~= body);
    assert(number_of(text) == if body.len() > 0 && all_digits(body) && digits_value(body)
        <= u64::MAX {
        Some(digits_value(body) as u64)
    } else {
        None
    });
    if start >= len {
        return None;
    }
    let mut acc: u64 = 0;
    let mut over: bool = false;
    let mut k: usize = start;
    assert(body.take(0) =~= Seq::<char>::empty());
    while k < len
        invariant
            from <= start <= k <= len,
            len == chars@.len(),
            text == chars@.subrange(from as int, len as int),
            body == chars@.subrange(start as int, len as int),
            number_of(text) == if body.len() > 0 && all_digits(body) && digits_value(body)
                <= u64::MAX {
                Some(digits_value(body) as u64)
            } else {
                None
            },
            all_digits(body.take(k - start)),
            over <==> digits_value(body.take(k - start)) > u64::MAX,
            !over ==> acc == digits_value(body.take(k - start)),
        decreases len - k,
    {
        let c: char = chars[k];
        let v: u32 = c as u32;
        assert(body[k - start] == c);
        if v < 48 || v > 57 {
            assert(!is_digit(body[k - start]));
            return None;
        }
        let d: u64 = (v - 48) as u64;
        proof {
            let shorter = body.take(k - start);
            let longer = body.take(k + 1 - start);
            assert(longer.drop_last() =~= shorter);
            assert(longer.last() == c);
            assert forall|i: int| 0 <= i < longer.len() implies is_digit(#[trigger] longer[i]) by {
                if i < shorter.len() {
                    assert(longer[i] == shorter[i]);
                }
            }
        }
        if !over {
            if acc > (u64::MAX - d) / 10 {
                over = true;
            } else {
                acc = acc * 10 + d;
            }
        }
        k += 1;
    }
    assert(body.take(len - start) =~= body);
    if over {
        None
    } else {
        Some(acc)
    }
}

/// Reads a block size: an optional `+` and decimal digits. `None` where the
/// text is empty, holds anything else, or writes a number above `u64::MAX`.
pub fn parse_number(s: &str) -> (r: Option<u64>)
    ensures
        r == number_of(s@),
{
    let chars: Vec<char> = chars_of(s);
    assert(chars@.subrange(0, chars@.len() as int) =~= s@);
    number_in(&chars, 0)
}

/// Splits a signature text at its two `:` and reads the block size. `None`
/// where there are not exactly three fields or the third is no block size.
pub fn parse(s: &str) -> (r: Option<(String, String, u64)>)
    ensures
        match parse_spec(s@) {
            Some(fields) => r matches Some(got) && got.0@ == fields.0 && got.1@ == fields.1
                && got.2 == fields.2,
            None => r is None,
        },
{
    let chars: Vec<char> = chars_of(s);
    let len: usize = chars.len();
    let i: usize = colon_from(&chars, 0);
    if i >= len {
        return None;
    }
    let j: usize = colon_from(&chars, i + 1);
    if j >= len {
        return None;
    }
    let k: usize = colon_from(&chars, j + 1);
    if k < len {
        return None;
    }
    match number_in(&chars, j + 1) {
        Some(block) => {
            let first: String = s.substring_char(0, i).to_owned();
            let second: String = s.substring_char(i + 1, j).to_owned();
            Some((first, second, block))
        },
        None => None,
    }
}

} // verus!
