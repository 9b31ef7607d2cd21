//! Escapes in string literals: writing a text as a literal that spells
//! every character out, and reading what the body of a literal stands for.

use vstd::prelude::*;

verus! {

/// The character of a hexadecimal digit, in lower case.
pub open spec fn hex_digit(d: nat) -> char
    recommends
        d < 16,
{
    if d < 10 {
        (0x30 + d) as char
    } else {
        (0x57 + d) as char
    }
}

/// A number in hexadecimal, without leading zeros.
pub open spec fn hex(n: nat) -> Seq<char>
    decreases n,
{
    if n < 16 {
        seq![hex_digit(n)]
    } else {
        hex(n / 16).push(hex_digit(n % 16))
    }
}

/// The escape `\u{..}` of a character.
pub open spec fn escape_of(c: char) -> Seq<char> {
    "\\u{"@ + hex(c as u32 as nat) + "}"@
}

/// The escapes of the characters of a text, one after the other.
pub open spec fn escapes_of(text: Seq<char>) -> Seq<char>
    decreases text.len(),
{
    if text.len() == 0 {
        Seq::empty()
    } else {
        escapes_of(text.drop_last()) + escape_of(text.last())
    }
}

/// A string literal that spells each character out as an escape.
pub open spec fn spelled_out(text: Seq<char>) -> Seq<char> {
    "\""@ + escapes_of(text) + "\""@
}

/// The code points of a text, in its order.
pub open spec fn code_points(text: Seq<char>) -> Seq<u32> {
    text.map_values(|c: char| c as u32)
}

/// The value of a hexadecimal digit, in either case; `None` for any other
/// character.
pub open spec fn hex_value_of(c: char) -> Option<nat> {
    let code = c as u32;
    if 0x30 <= code <= 0x39 {
        Some((code - 0x30) as nat)
    } else if 0x61 <= code <= 0x66 {
        Some((code - 0x57) as nat)
    } else if 0x41 <= code <= 0x46 {
        Some((code - 0x37) as nat)
    } else {
        None
    }
}

/// How many hexadecimal digits the text begins with.
pub open spec fn hex_digits(s: Seq<char>) -> nat
    decreases s.len(),
{
    if s.len() > 0 && hex_value_of(s[0]) is Some {
        1 + hex_digits(s.drop_first())
    } else {
        0
    }
}

/// The number that a string of hexadecimal digits stands for.
pub open spec fn hex_number(s: Seq<char>) -> nat
    decreases s.len(),
{
    if s.len() == 0 {
        0
    } else {
        hex_number(s.drop_last()) * 16 + hex_value_of(s.last())->0
    }
}

/// The code point that a backslash and this one character stand for;
/// `None` where the two are no escape of their own.
pub open spec fn short_escape(letter: char) -> Option<u32> {
    if letter == 'n' {
        Some(0x0au32)
    } else if letter == 'r' {
        Some(0x0du32)
    } else if letter == 't' {
        Some(0x09u32)
    } else if letter == '\\' {
        Some(0x5cu32)
    } else if letter == '0' {
        Some(0x00u32)
    } else if letter == '"' {
        Some(0x22u32)
    } else if letter == '\'' {
        Some(0x27u32)
    } else {
        None
    }
}

/// A code point that a `char` can hold.
pub open spec fn is_scalar_value(value: nat) -> bool {
    value <= 0x10ffff && !(0xd800 <= value <= 0xdfff)
}

/// The code point in front of what follows it, where that could be read.
pub open spec fn with_first(code: u32, rest: Option<Seq<u32>>) -> Option<Seq<u32>> {
    match rest {
        Some(codes) => Some(seq![code] + codes),
        None => None,
    }
}

/// What has been read in front of what is still to be read, where that can
/// be read.
pub open spec fn joined(front: Seq<u32>, rest: Option<Seq<u32>>) -> Option<Seq<u32>> {
    match rest {
        Some(codes) => Some(front + codes),
        None => None,
    }
}

/// The code points that the body of a string literal stands for. A
/// character other than a backslash stands for itself; a backslash begins
/// one of the escapes `\n`, `\r`, `\t`, `\\`, `\0`, `\"`, `\'`, or
/// `\u{..}` with one to six hexadecimal digits that give a code point.
/// `None` where a backslash begins anything else.
pub open spec fn read(s: Seq<char>) -> Option<Seq<u32>>
    decreases s.len(),
{
    if s.len() == 0 {
        Some(Seq::empty())
    } else if s[0] != '\\' {
        with_first(s[0] as u32, read(s.drop_first()))
    } else if s.len() < 2 {
        None
    } else if short_escape(s[1]) is Some {
        with_first(short_escape(s[1])->0, read(s.skip(2)))
    } else if s[1] == 'u' && s.len() >= 3 && s[2] == '{' {
        let n = hex_digits(s.skip(3)) as int;
        let value = hex_number(s.subrange(3, 3 + n));
        if 1 <= n <= 6 && s.len() > 3 + n && s[3 + n] == '}' && is_scalar_value(value) {
            with_first(value as u32, read(s.skip(4 + n)))
        } else {
            None
        }
    } else {
        None
    }
}

/// The literal stands for the text: between its quotes it reads as the
/// code points of the text.
pub open spec fn stands_for(literal: Seq<char>, text: Seq<char>) -> bool {
    &&& literal.len() >= 2
    &&& literal[0] == '"'
    &&& literal.last() == '"'
    &&& read(literal.subrange(1, literal.len() - 1)) == Some(code_points(text))
}

/// Sixteen to the power of `k`.
pub open spec fn pow16(k: nat) -> nat
    decreases k,
{
    if k == 0 {
        1
    } else {
        16 * pow16((k - 1) as nat)
    }
}

proof fn lemma_hex_length(n: nat, k: nat)
    requires
        k >= 1,
        n < pow16(k),
    ensures
        1 <= hex(n).len() <= k,
    decreases k,
{
    if n >= 16 {
        assert(k >= 2) by {
            reveal_with_fuel(pow16, 2);
        }
        lemma_hex_length(n / 16, (k - 1) as nat);
    }
}

proof fn lemma_hex_digit_value(d: nat)
    requires
        d < 16,
    ensures
        hex_value_of(hex_digit(d)) == Some(d),
{
}

proof fn lemma_hex_reads_back(n: nat)
    ensures
        hex_number(hex(n)) == n,
        forall|i: int| 0 <= i < hex(n).len() ==> hex_value_of(#[trigger] hex(n)[i]) is Some,
    decreases n,
{
    if n < 16 {
        lemma_hex_digit_value(n);
        assert(hex_number(hex(n).drop_last()) == 0);
    } else {
        lemma_hex_reads_back(n / 16);
        lemma_hex_digit_value(n % 16);
        assert(hex(n).drop_last() =~= hex(n / 16));
        assert forall|i: int| 0 <= i < hex(n).len() implies hex_value_of(
            #[trigger] hex(n)[i],
        ) is Some by {
            if i < hex(n / 16).len() {
                assert(hex(n)[i] == hex(n / 16)[i]);
            }
        }
    }
}

proof fn lemma_hex_digits_of_run(run: Seq<char>, rest: Seq<char>)
    requires
        forall|i: int| 0 <= i < run.len() ==> hex_value_of(#[trigger] run[i]) is Some,
        rest.len() == 0 || hex_value_of(rest[0]) is None,
    ensures
        hex_digits(run + rest) == run.len(),
    decreases run.len(),
{
    if run.len() == 0 {
    } else {
        assert((run + rest).drop_first() =~= run.drop_first() + rest);
        assert forall|i: int| 0 <= i < run.drop_first().len() implies hex_value_of(
            #[trigger] run.drop_first()[i],
        ) is Some by {
            assert(run.drop_first()[i] == run[i + 1]);
        }
        lemma_hex_digits_of_run(run.drop_first(), rest);
    }
}

proof fn lemma_read_escape(c: char, rest: Seq<char>)
    ensures
        read(escape_of(c) + rest) == with_first(c as u32, read(rest)),
{
    reveal_strlit("\\u{");
    reveal_strlit("}");
    let value = c as u32 as nat;
    let s = escape_of(c) + rest;
    let n = hex(value).len() as int;
    lemma_hex_reads_back(value);
    assert(value < pow16(6)) by {
        reveal_with_fuel(pow16, 7);
    }
    lemma_hex_length(value, 6);
    assert(s.skip(3) =~= hex(value) + (seq!['}'] + rest));
    lemma_hex_digits_of_run(hex(value), seq!['}'] + rest);
    assert(s.subrange(3, 3 + n) =~= hex(value));
    assert(s.skip(4 + n) =~= rest);
}

proof fn lemma_read_escapes(text: Seq<char>, rest: Seq<char>)
    ensures
        read(escapes_of(text) + rest) == joined(code_points(text), read(rest)),
    decreases text.len(),
{
    if text.len() == 0 {
        assert(escapes_of(text) + rest =~= rest);
        if read(rest) is Some {
            assert(code_points(text) + read(rest)->0 =~= read(rest)->0);
        }
    } else {
        let front = text.drop_last();
        let after = escape_of(text.last()) + rest;
        assert(escapes_of(text) + rest =~= escapes_of(front) + after);
        lemma_read_escapes(front, after);
        lemma_read_escape(text.last(), rest);
        if read(rest) is Some {
            assert(code_points(front) + (seq![text.last() as u32] + read(rest)->0)
                =~= code_points(text) + read(rest)->0);
        }
    }
}

/// The spelled-out literal of a text stands for that text.
pub proof fn lemma_spelled_out_stands_for(text: Seq<char>)
    ensures
        stands_for(spelled_out(text), text),
{
    reveal_strlit("\"");
    let literal = spelled_out(text);
    assert(literal.subrange(1, literal.len() - 1) =~= escapes_of(text));
    lemma_read_escapes(text, Seq::empty());
}

/// A literal stands for one text only.
pub proof fn lemma_stands_for_one_text(literal: Seq<char>, a: Seq<char>, b: Seq<char>)
    requires
        stands_for(literal, a),
        stands_for(literal, b),
    ensures
        a == b,
{
    lemma_code_points_decide(a, b);
}

proof fn lemma_code_points_decide(a: Seq<char>, b: Seq<char>)
    requires
        code_points(a) == code_points(b),
    ensures
        a == b,
{
    assert(a.len() == code_points(a).len() && b.len() == code_points(b).len());
    assert forall|i: int| 0 <= i < a.len() implies a[i] == b[i] by {
        assert(code_points(a)[i] == a[i] as u32);
        vstd::utf8::char_u32_cast(a[i], a[i] as u32);
        vstd::utf8::char_u32_cast(b[i], b[i] as u32);
    }
}

fn hex_digit_text(d: u32) -> (text: &'static str)
    requires
        d < 16,
    ensures
        text@ == seq![hex_digit(d as nat)],
{
    proof {
        reveal_strlit("0");
        reveal_strlit("1");
        reveal_strlit("2");
        reveal_strlit("3");
        reveal_strlit("4");
        reveal_strlit("5");
        reveal_strlit("6");
        reveal_strlit("7");
        reveal_strlit("8");
        reveal_strlit("9");
        reveal_strlit("a");
        reveal_strlit("b");
        reveal_strlit("c");
        reveal_strlit("d");
        reveal_strlit("e");
        reveal_strlit("f");
    }
    if d == 0 {
        "0"
    } else if d == 1 {
        "1"
    } else if d == 2 {
        "2"
    } else if d == 3 {
        "3"
    } else if d == 4 {
        "4"
    } else if d == 5 {
        "5"
    } else if d == 6 {
        "6"
    } else if d == 7 {
        "7"
    } else if d == 8 {
        "8"
    } else if d == 9 {
        "9"
    } else if d == 10 {
        "a"
    } else if d == 11 {
        "b"
    } else if d == 12 {
        "c"
    } else if d == 13 {
        "d"
    } else if d == 14 {
        "e"
    } else {
        "f"
    }
}

fn hex_text(n: u32) -> (text: String)
    ensures
        text@ == hex(n as nat),
    decreases n,
{
    if n < 16 {
        String::from_str(hex_digit_text(n))
    } else {
        hex_text(n / 16).concat(hex_digit_text(n % 16))
    }
}

/// Writes the literal that spells each character of the text out.
pub fn spell_out(text: &str) -> (literal: String)
    ensures
        literal@ == spelled_out(text@),
{
    let mut literal = String::from_str("\"");
    for c in it: text.chars()
        invariant
            it.seq() == text@,
            literal@ == "\""@ + escapes_of(text@.take(it.index() as int)),
    {
        literal.append("\\u{");
        literal.append(hex_text(c as u32).as_str());
        literal.append("}");
        proof {
            let next = text@.take(it.index() as int + 1);
            assert(next.drop_last() =~= text@.take(it.index() as int));
        }
    }
    assert(text@.take(text@.len() as int) =~= text@);
    literal.append("\"");
    literal
}

/// The characters of a text.
pub fn chars_of(text: &str) -> (chars: Vec<char>)
    ensures
        chars@ == text@,
{
    let mut chars: Vec<char> = Vec::new();
    for c in it: text.chars()
        invariant
            it.seq() == text@,
            chars@ == text@.take(it.index() as int),
    {
        chars.push(c);
    }
    chars
}

fn hex_value(c: char) -> (value: Option<u32>)
    ensures
        match value {
            Some(d) => hex_value_of(c) == Some(d as nat) && d < 16,
            None => hex_value_of(c) is None,
        },
{
    let code = c as u32;
    if 0x30 <= code && code <= 0x39 {
        Some(code - 0x30)
    } else if 0x61 <= code && code <= 0x66 {
        Some(code - 0x57)
    } else if 0x41 <= code && code <= 0x46 {
        Some(code - 0x37)
    } else {
        None
    }
}

fn short_escape_code(letter: char) -> (code: Option<u32>)
    ensures
        code == short_escape(letter),
{
    if letter == 'n' {
        Some(0x0a)
    } else if letter == 'r' {
        Some(0x0d)
    } else if letter == 't' {
        Some(0x09)
    } else if letter == '\\' {
        Some(0x5c)
    } else if letter == '0' {
        Some(0x00)
    } else if letter == '"' {
        Some(0x22)
    } else if letter == '\'' {
        Some(0x27)
    } else {
        None
    }
}

/// The view of code points that may be missing.
pub open spec fn codes_view(codes: Option<Vec<u32>>) -> Option<Seq<u32>> {
    match codes {
        Some(list) => Some(list@),
        None => None,
    }
}

/// The digits of a code point escape are well formed from position `start`
/// of the body on: one to six hexadecimal digits, then a closing brace,
/// and the digits give a code point.
pub open spec fn closes_at(body: Seq<char>, start: int, close: int) -> bool {
    &&& 0 <= start < close < body.len()
    &&& close - start == hex_digits(body.skip(start))
    &&& close - start <= 6
    &&& body[close] == '}'
    &&& is_scalar_value(hex_number(body.subrange(start, close)))
}

/// Reads the digits of a code point escape from position `start` of the
/// body on: the code point and the position of the closing brace, or
/// `None` where the digits are not well formed.
fn read_code_point(body: &Vec<char>, start: usize) -> (found: Option<(u32, usize)>)
    requires
        start <= body@.len(),
    ensures
        match found {
            Some((value, close)) => closes_at(body@, start as int, close as int) && value
                == hex_number(body@.subrange(start as int, close as int)),
            None => !closes_at(
                body@,
                start as int,
                start + hex_digits(body@.skip(start as int)),
            ),
        },
{
    let n = body.len();
    let mut j: usize = start;
    let mut value: u32 = 0;
    assert(body@.subrange(start as int, j as int) =~= Seq::<char>::empty());
    while j < n && j - start < 6 && hex_value(body[j]).is_some()
        invariant
            start <= j <= n,
            j - start <= 6,
            n == body@.len(),
            hex_digits(body@.skip(start as int)) == (j - start) + hex_digits(body@.skip(j as int)),
            value == hex_number(body@.subrange(start as int, j as int)),
            value < pow16((j - start) as nat),
        decreases n - j,
    {
        let d = hex_value(body[j]).unwrap();
        proof {
            let run = body@.subrange(start as int, j as int + 1);
            assert(run.drop_last() =~= body@.subrange(start as int, j as int));
            assert(body@.skip(j as int).drop_first() =~= body@.skip(j as int + 1));
            lemma_pow16_bound((j - start) as nat);
        }
        value = value * 16 + d;
        j += 1;
    }
    if j >= n || hex_value(body[j]).is_some() {
        return None;
    }
    if j == start || body[j] != '}' || value > 0x10ffff || (0xd800 <= value && value <= 0xdfff) {
        return None;
    }
    Some((value, j))
}

/// Reads what the body of a string literal stands for.
pub fn read_body(body: &Vec<char>) -> (codes: Option<Vec<u32>>)
    ensures
        codes_view(codes) == read(body@),
{
    let n = body.len();
    let mut out: Vec<u32> = Vec::new();
    let mut i: usize = 0;
    proof {
        assert(body@.skip(0) =~= body@);
        lemma_joined_nothing(read(body@));
    }
    while i < n
        invariant
            i <= n,
            n == body@.len(),
            read(body@) == joined(out@, read(body@.skip(i as int))),
        decreases n - i,
    {
        let ghost here = body@.skip(i as int);
        let ghost before = out@;
        let c = body[i];
        if c != '\\' {
            out.push(c as u32);
            proof {
                assert(here.drop_first() =~= body@.skip(i as int + 1));
                lemma_joined_push(before, c as u32, read(here.drop_first()));
            }
            i += 1;
        } else if i + 1 >= n {
            return None;
        } else if let Some(code) = short_escape_code(body[i + 1]) {
            out.push(code);
            proof {
                assert(here.skip(2) =~= body@.skip(i as int + 2));
                lemma_joined_push(before, code, read(here.skip(2)));
            }
            i += 2;
        } else if body[i + 1] != 'u' || i + 2 >= n || body[i + 2] != '{' {
            return None;
        } else {
            proof {
                assert(here.skip(3) =~= body@.skip(i as int + 3));
                lemma_hex_digits_bound(here.skip(3));
                let digits = hex_digits(here.skip(3)) as int;
                assert(here.subrange(3, 3 + digits) =~= body@.subrange(
                    i as int + 3,
                    i as int + 3 + digits,
                ));
            }
            match read_code_point(body, i + 3) {
                None => {
                    return None;
                },
                Some((value, close)) => {
                    out.push(value);
                    proof {
                        assert(here.skip(close - i + 1) =~= body@.skip(close as int + 1));
                        lemma_joined_push(before, value, read(here.skip(close - i + 1)));
                    }
                    i = close + 1;
                },
            }
        }
    }
    proof {
        assert(body@.skip(n as int) =~= Seq::<char>::empty());
        assert(out@ + Seq::<u32>::empty() =~= out@);
    }
    Some(out)
}

/// Decides [`stands_for`].
pub fn literal_stands_for(literal: &str, text: &str) -> (stands: bool)
    ensures
        stands == stands_for(literal@, text@),
{
    let chars = chars_of(literal);
    let n = chars.len();
    if n < 2 || chars[0] != '"' || chars[n - 1] != '"' {
        return false;
    }
    let mut body: Vec<char> = Vec::new();
    let mut i: usize = 1;
    while i < n - 1
        invariant
            1 <= i <= n - 1,
            n == chars@.len(),
            body@ == chars@.subrange(1, i as int),
        decreases n - i,
    {
        body.push(chars[i]);
        i += 1;
    }
    let expected = chars_of(text);
    match read_body(&body) {
        None => false,
        Some(codes) => {
            if codes.len() != expected.len() {
                return false;
            }
            let mut k: usize = 0;
            while k < codes.len()
                invariant
                    k <= codes@.len(),
                    codes@.len() == expected@.len(),
                    expected@ == text@,
                    stands_for(literal@, text@) <==> codes@ == code_points(text@),
                    codes@.take(k as int) == code_points(text@).take(k as int),
                decreases codes@.len() - k,
            {
                if codes[k] != expected[k] as u32 {
                    return false;
                }
                k += 1;
            }
            assert(codes@.take(k as int) =~= codes@);
            assert(code_points(text@).take(k as int) =~= code_points(text@));
            true
        },
    }
}

proof fn lemma_hex_digits_bound(s: Seq<char>)
    ensures
        hex_digits(s) <= s.len(),
    decreases s.len(),
{
    if s.len() > 0 && hex_value_of(s[0]) is Some {
        lemma_hex_digits_bound(s.drop_first());
    }
}

proof fn lemma_joined_push(front: Seq<u32>, code: u32, rest: Option<Seq<u32>>)
    ensures
        joined(front, with_first(code, rest)) == joined(front.push(code), rest),
{
    if rest is Some {
        assert(front + (seq![code] + rest->0) =~= front.push(code) + rest->0);
    }
}

proof fn lemma_joined_nothing(rest: Option<Seq<u32>>)
    ensures
        joined(Seq::empty(), rest) == rest,
{
    if rest is Some {
        assert(Seq::<u32>::empty() + rest->0 =~= rest->0);
    }
}

proof fn lemma_pow16_bound(k: nat)
    requires
        k <= 6,
    ensures
        pow16(k) <= 0x1000000,
        pow16(k + 1) == 16 * pow16(k),
{
    reveal_with_fuel(pow16, 8);
}

} // verus!
