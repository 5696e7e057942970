//! Text building blocks for the control channel and the local store file:
//! decimal rendering of integers, JSON string quoting with escapes, and a
//! parser for the quoted-string form that the writers here emit.

use vstd::prelude::*;

verus! {

// ---------------------------------------------------------------------------
// Digits
// ---------------------------------------------------------------------------

/// The character for one digit value below sixteen (lower-case hex).
pub open spec fn digit_char(d: nat) -> char {
    if d == 0 { '0' } else if d == 1 { '1' } else if d == 2 { '2' } else if d == 3 { '3' }
    else if d == 4 { '4' } else if d == 5 { '5' } else if d == 6 { '6' } else if d == 7 { '7' }
    else if d == 8 { '8' } else if d == 9 { '9' } else if d == 10 { 'a' } else if d == 11 { 'b' }
    else if d == 12 { 'c' } else if d == 13 { 'd' } else if d == 14 { 'e' } else { 'f' }
}

/// The value of one hex digit character, if it is one.
pub open spec fn digit_val(c: char) -> Option<nat> {
    if c == '0' { Some(0 as nat) } else if c == '1' { Some(1 as nat) }
    else if c == '2' { Some(2 as nat) } else if c == '3' { Some(3 as nat) }
    else if c == '4' { Some(4 as nat) } else if c == '5' { Some(5 as nat) }
    else if c == '6' { Some(6 as nat) } else if c == '7' { Some(7 as nat) }
    else if c == '8' { Some(8 as nat) } else if c == '9' { Some(9 as nat) }
    else if c == 'a' || c == 'A' { Some(10 as nat) } else if c == 'b' || c == 'B' { Some(11 as nat) }
    else if c == 'c' || c == 'C' { Some(12 as nat) } else if c == 'd' || c == 'D' { Some(13 as nat) }
    else if c == 'e' || c == 'E' { Some(14 as nat) } else if c == 'f' || c == 'F' { Some(15 as nat) }
    else { None }
}

/// Reading back an emitted digit gives the digit's value.
pub proof fn lemma_digit_round_trip(d: nat)
    requires
        d < 16,
    ensures
        digit_val(digit_char(d)) == Some(d),
{
}

pub fn digit_to_char(d: u32) -> (c: char)
    requires
        d < 16,
    ensures
        c == digit_char(d as nat),
{
    match d {
        0 => '0', 1 => '1', 2 => '2', 3 => '3', 4 => '4',
        5 => '5', 6 => '6', 7 => '7', 8 => '8', 9 => '9',
        10 => 'a', 11 => 'b', 12 => 'c', 13 => 'd', 14 => 'e', _ => 'f',
    }
}

pub fn char_to_digit(c: char) -> (r: Option<u32>)
    ensures
        (match r {
            Some(v) => digit_val(c) == Some(v as nat) && v < 16,
            None => digit_val(c) is None,
        }),
{
    match c {
        '0' => Some(0), '1' => Some(1), '2' => Some(2), '3' => Some(3), '4' => Some(4),
        '5' => Some(5), '6' => Some(6), '7' => Some(7), '8' => Some(8), '9' => Some(9),
        'a' | 'A' => Some(10), 'b' | 'B' => Some(11), 'c' | 'C' => Some(12),
        'd' | 'D' => Some(13), 'e' | 'E' => Some(14), 'f' | 'F' => Some(15),
        _ => None,
    }
}

/// Decimal digits of a number, most significant first.
pub open spec fn dec_digits(n: nat) -> Seq<char>
    decreases n,
{
    if n < 10 { seq![digit_char(n)] } else { dec_digits(n / 10).push(digit_char(n % 10)) }
}

/// Renders a number in decimal.
pub fn u32_dec_chars(n: u32) -> (r: Vec<char>)
    ensures
        r@ == dec_digits(n as nat),
    decreases n,
{
    if n < 10 {
        let mut v: Vec<char> = Vec::new();
        v.push(digit_to_char(n));
        proof { assert(v@ =~= dec_digits(n as nat)); }
        v
    } else {
        let mut v = u32_dec_chars(n / 10);
        v.push(digit_to_char(n % 10));
        v
    }
}

// ---------------------------------------------------------------------------
// JSON string escaping (writer)
// ---------------------------------------------------------------------------

/// How one character appears inside a JSON string literal.
pub open spec fn esc_char(c: char) -> Seq<char> {
    if c == '"' { seq!['\\', '"'] }
    else if c == '\\' { seq!['\\', '\\'] }
    else if c == '\n' { seq!['\\', 'n'] }
    else if c == '\r' { seq!['\\', 'r'] }
    else if c == '\t' { seq!['\\', 't'] }
    else if (c as u32) < 0x20 {
        seq!['\\', 'u', '0', '0', digit_char((c as u32 / 16) as nat), digit_char((c as u32 % 16) as nat)]
    } else { seq![c] }
}

/// The body of a JSON string literal holding the given text.
pub open spec fn escape(s: Seq<char>) -> Seq<char>
    decreases s.len(),
{
    if s.len() == 0 { Seq::empty() } else { esc_char(s[0]) + escape(s.drop_first()) }
}

/// A complete JSON string literal: quotes around the escaped body.
pub open spec fn quoted(s: Seq<char>) -> Seq<char> {
    seq!['"'] + escape(s) + seq!['"']
}

pub proof fn lemma_escape_push(s: Seq<char>, c: char)
    ensures
        escape(s.push(c)) == escape(s) + esc_char(c),
    decreases s.len(),
{
    let spc = s.push(c);
    if s.len() == 0 {
        assert(spc.len() == 1);
        assert(spc[0] == c);
        assert(spc.drop_first() =~= Seq::<char>::empty());
        assert(escape(spc) == esc_char(spc[0]) + escape(spc.drop_first()));
        assert(escape(spc.drop_first()) == Seq::<char>::empty());
        assert(escape(s) == Seq::<char>::empty());
        assert(escape(spc) =~= escape(s) + esc_char(c));
    } else {
        assert(spc[0] == s[0]);
        assert(spc.drop_first() =~= s.drop_first().push(c));
        lemma_escape_push(s.drop_first(), c);
        assert(escape(spc) == esc_char(spc[0]) + escape(spc.drop_first()));
        assert(escape(spc) =~= escape(s) + esc_char(c));
    }
}

/// Appends the escaped form of one character.
fn push_escaped(out: &mut Vec<char>, c: char)
    ensures
        final(out)@ == old(out)@ + esc_char(c),
{
    if c == '"' {
        out.push('\\'); out.push('"');
    } else if c == '\\' {
        out.push('\\'); out.push('\\');
    } else if c == '\n' {
        out.push('\\'); out.push('n');
    } else if c == '\r' {
        out.push('\\'); out.push('r');
    } else if c == '\t' {
        out.push('\\'); out.push('t');
    } else {
        let code = c as u32;
        if code < 0x20 {
            out.push('\\'); out.push('u'); out.push('0'); out.push('0');
            out.push(digit_to_char(code / 16));
            out.push(digit_to_char(code % 16));
        } else {
            out.push(c);
        }
    }
    proof { assert(out@ =~= old(out)@ + esc_char(c)); }
}

/// Appends the escaped body of a string.
pub fn escape_into(s: &str, out: &mut Vec<char>)
    ensures
        final(out)@ == old(out)@ + escape(s@),
{
    let n = s.unicode_len();
    let mut i: usize = 0;
    while i < n
        invariant
            i <= n,
            n == s@.len(),
            out@ == old(out)@ + escape(s@.subrange(0, i as int)),
        decreases n - i,
    {
        let c = s.get_char(i);
        push_escaped(out, c);
        proof {
            lemma_escape_push(s@.subrange(0, i as int), c);
            assert(s@.subrange(0, i as int).push(c) =~= s@.subrange(0, i as int + 1));
        }
        i = i + 1;
    }
    proof { assert(s@.subrange(0, n as int) =~= s@); }
}

/// Collects characters into a `String`.
///
/// Relies on `core::iter::Iterator::collect` through `String`'s
/// `FromIterator`: the resulting string holds exactly the characters of the
/// iterator, in order.
#[verifier::external_body]
pub fn chars_to_string(v: &Vec<char>) -> (s: String)
    ensures
        s@ == v@,
{
    v.iter().collect()
}

/// The characters of a string, as a vector.
pub fn str_to_chars(s: &str) -> (v: Vec<char>)
    ensures
        v@ == s@,
{
    let n = s.unicode_len();
    let mut v: Vec<char> = Vec::new();
    let mut i: usize = 0;
    while i < n
        invariant
            i <= n,
            n == s@.len(),
            v@ == s@.subrange(0, i as int),
        decreases n - i,
    {
        v.push(s.get_char(i));
        proof { assert(s@.subrange(0, i as int).push(s@[i as int]) =~= s@.subrange(0, i as int + 1)); }
        i = i + 1;
    }
    proof { assert(s@.subrange(0, n as int) =~= s@); }
    v
}

/// Renders a string as a JSON string literal.
pub fn quote_string(s: &str) -> (r: String)
    ensures
        r@ == quoted(s@),
{
    let mut v: Vec<char> = Vec::new();
    v.push('"');
    escape_into(s, &mut v);
    v.push('"');
    proof { assert(v@ =~= quoted(s@)); }
    chars_to_string(&v)
}

// ---------------------------------------------------------------------------
// JSON string parsing (reader)
// ---------------------------------------------------------------------------

/// A Unicode scalar value: in range and not a surrogate.
pub open spec fn scalar_value(u: int) -> bool {
    0 <= u <= 0x10FFFF && !(0xD800 <= u < 0xE000)
}

/// Relies on `char::from_u32`: some character exactly when the value is a
/// Unicode scalar value, and then the character with exactly that code.
#[verifier::external_body]
fn char_from_u32(u: u32) -> (r: Option<char>)
    ensures
        (match r {
            Some(c) => scalar_value(u as int) && c as u32 == u,
            None => !scalar_value(u as int),
        }),
{
    char::from_u32(u)
}

/// The value of the four hex digits at `i`, if they are there.
pub open spec fn hex4(s: Seq<char>, i: int) -> Option<nat> {
    if 0 <= i && i + 4 <= s.len() && digit_val(s[i]) is Some && digit_val(s[i + 1]) is Some
        && digit_val(s[i + 2]) is Some && digit_val(s[i + 3]) is Some {
        Some(
            digit_val(s[i]).unwrap() * 0x1000 + digit_val(s[i + 1]).unwrap() * 0x100 + digit_val(
                s[i + 2],
            ).unwrap() * 16 + digit_val(s[i + 3]).unwrap(),
        )
    } else {
        None
    }
}

/// Parses the `\uXXXX` form starting at the backslash at `i`, a high
/// surrogate paired with the low surrogate that must follow it.
pub open spec fn parse_unicode_escape(s: Seq<char>, i: int) -> Option<(char, int)> {
    match hex4(s, i + 2) {
        None => None,
        Some(hi) => if 0xD800 <= hi < 0xDC00 {
            if i + 8 <= s.len() && s[i + 6] == '\\' && s[i + 7] == 'u' {
                match hex4(s, i + 8) {
                    None => None,
                    Some(lo) => if 0xDC00 <= lo < 0xE000 {
                        Some(
                            (((0x10000 + (hi - 0xD800) * 0x400 + (lo - 0xDC00)) as u32) as char,
                            i + 12),
                        )
                    } else {
                        None
                    },
                }
            } else {
                None
            }
        } else if 0xDC00 <= hi < 0xE000 {
            None
        } else {
            Some(((hi as u32) as char, i + 6))
        },
    }
}

/// Parses one escape sequence starting at the backslash at `i`.
/// Returns the character it stands for and the position after it.
pub open spec fn parse_escape(s: Seq<char>, i: int) -> Option<(char, int)> {
    if !(0 <= i && i + 1 < s.len()) {
        None
    } else {
        let c = s[i + 1];
        if c == '"' { Some(('"', i + 2)) }
        else if c == '\\' { Some(('\\', i + 2)) }
        else if c == '/' { Some(('/', i + 2)) }
        else if c == 'n' { Some(('\n', i + 2)) }
        else if c == 'r' { Some(('\r', i + 2)) }
        else if c == 't' { Some(('\t', i + 2)) }
        else if c == 'b' { Some(('\u{8}', i + 2)) }
        else if c == 'f' { Some(('\u{c}', i + 2)) }
        else if c == 'u' {
            parse_unicode_escape(s, i)
        } else { None }
    }
}

/// Parses the body of a JSON string literal from `i` up to its closing
/// quote. Returns the text and the position after the closing quote.
pub open spec fn parse_string_body(s: Seq<char>, i: int) -> Option<(Seq<char>, int)>
    decreases s.len() - i,
{
    if i < 0 || i >= s.len() {
        None
    } else if s[i] == '"' {
        Some((Seq::empty(), i + 1))
    } else if s[i] == '\\' {
        match parse_escape(s, i) {
            None => None,
            Some((c, j)) => match parse_string_body(s, j) {
                None => None,
                Some((t, k)) => Some((seq![c] + t, k)),
            },
        }
    } else if (s[i] as u32) < 0x20 {
        None
    } else {
        match parse_string_body(s, i + 1) {
            None => None,
            Some((t, k)) => Some((seq![s[i]] + t, k)),
        }
    }
}

/// Parses a complete JSON string literal starting at `i`.
pub open spec fn parse_quoted(s: Seq<char>, i: int) -> Option<(Seq<char>, int)> {
    if 0 <= i && i < s.len() && s[i] == '"' {
        parse_string_body(s, i + 1)
    } else {
        None
    }
}

/// A successful body parse always advances past `i`, and never past the end.
pub proof fn lemma_parse_body_advances(s: Seq<char>, i: int)
    ensures
        (match parse_string_body(s, i) {
            Some((t, k)) => i < k && k <= s.len(),
            None => true,
        }),
    decreases s.len() - i,
{
    if 0 <= i && i < s.len() {
        if s[i] == '\\' {
            match parse_escape(s, i) {
                None => {},
                Some((c, j)) => { lemma_parse_body_advances(s, j); },
            }
        } else if s[i] != '"' && (s[i] as u32) >= 0x20 {
            lemma_parse_body_advances(s, i + 1);
        }
    }
}

/// The value of the four hex digits at `i`, matching `hex4`.
fn hex4_at(s: &Vec<char>, i: usize) -> (r: Option<u32>)
    ensures
        (match r {
            Some(v) => hex4(s@, i as int) == Some(v as nat) && v <= 0xFFFF,
            None => hex4(s@, i as int) is None,
        }),
{
    let n = s.len();
    if n < 4 || i > n - 4 {
        return None;
    }
    let d3 = char_to_digit(s[i]);
    let d2 = char_to_digit(s[i + 1]);
    let d1 = char_to_digit(s[i + 2]);
    let d0 = char_to_digit(s[i + 3]);
    match (d3, d2, d1, d0) {
        (Some(a), Some(b), Some(c), Some(d)) => Some(a * 0x1000 + b * 0x100 + c * 16 + d),
        _ => None,
    }
}

fn parse_escape_at(s: &Vec<char>, i: usize) -> (r: Option<(char, usize)>)
    requires
        i < s@.len(),
    ensures
        (match r {
            Some((c, j)) => parse_escape(s@, i as int) == Some((c, j as int)) && i < j && j <= s@.len(),
            None => parse_escape(s@, i as int) is None,
        }),
{
    let n = s.len();
    if i + 1 >= n {
        return None;
    }
    let c = s[i + 1];
    if c == '"' { Some(('"', i + 2)) }
    else if c == '\\' { Some(('\\', i + 2)) }
    else if c == '/' { Some(('/', i + 2)) }
    else if c == 'n' { Some(('\n', i + 2)) }
    else if c == 'r' { Some(('\r', i + 2)) }
    else if c == 't' { Some(('\t', i + 2)) }
    else if c == 'b' { Some(('\u{8}', i + 2)) }
    else if c == 'f' { Some(('\u{c}', i + 2)) }
    else if c == 'u' {
        match hex4_at(s, i + 2) {
            None => None,
            Some(hi) => {
                if 0xD800 <= hi && hi < 0xDC00 {
                    if n - i >= 8 && s[i + 6] == '\\' && s[i + 7] == 'u' {
                        match hex4_at(s, i + 8) {
                            None => None,
                            Some(lo) => {
                                if 0xDC00 <= lo && lo < 0xE000 {
                                    let code = 0x10000 + (hi - 0xD800) * 0x400 + (lo - 0xDC00);
                                    match char_from_u32(code) {
                                        Some(ch) => {
                                            proof {
                                                vstd::utf8::char_u32_cast(ch, code);
                                            }
                                            Some((ch, i + 12))
                                        },
                                        None => {
                                            proof { assert(false); }
                                            None
                                        },
                                    }
                                } else {
                                    None
                                }
                            },
                        }
                    } else {
                        None
                    }
                } else if 0xDC00 <= hi && hi < 0xE000 {
                    None
                } else {
                    match char_from_u32(hi) {
                        Some(ch) => {
                            proof {
                                vstd::utf8::char_u32_cast(ch, hi);
                            }
                            Some((ch, i + 6))
                        },
                        None => {
                            proof { assert(false); }
                            None
                        },
                    }
                }
            },
        }
    } else { None }
}

/// Parses the body of a JSON string literal, matching `parse_string_body`.
fn parse_body_at(s: &Vec<char>, start: usize) -> (r: Option<(Vec<char>, usize)>)
    ensures
        (match r {
            Some((v, j)) => parse_string_body(s@, start as int) == Some((v@, j as int)) && j <= s@.len(),
            None => parse_string_body(s@, start as int) is None,
        }),
{
    let mut acc: Vec<char> = Vec::new();
    let mut i: usize = start;
    loop
        invariant
            start <= i,
            (parse_string_body(s@, start as int) == (match parse_string_body(s@, i as int) {
                Some((t, k)) => Some((acc@ + t, k)),
                None => None::<(Seq<char>, int)>,
            })),
        decreases s@.len() - i,
    {
        if i >= s.len() {
            return None;
        }
        let c = s[i];
        if c == '"' {
            proof {
                lemma_parse_body_advances(s@, start as int);
                assert(acc@ + Seq::<char>::empty() =~= acc@);
            }
            return Some((acc, i + 1));
        }
        if c == '\\' {
            match parse_escape_at(s, i) {
                None => { return None; },
                Some((ec, j)) => {
                    let ghost acc_old = acc@;
                    acc.push(ec);
                    proof {
                        let tk = parse_string_body(s@, j as int);
                        if tk is Some {
                            let t = tk.unwrap().0;
                            assert(acc_old + (seq![ec] + t) =~= acc@ + t);
                        }
                    }
                    i = j;
                },
            }
        } else {
            let code = c as u32;
            if code < 0x20 {
                return None;
            }
            let ghost acc_old = acc@;
            acc.push(c);
            proof {
                let tk = parse_string_body(s@, i as int + 1);
                if tk is Some {
                    let t = tk.unwrap().0;
                    assert(acc_old + (seq![c] + t) =~= acc@ + t);
                }
            }
            i = i + 1;
        }
    }
}

/// Parses a complete JSON string literal, matching `parse_quoted`.
pub fn parse_quoted_at(s: &Vec<char>, i: usize) -> (r: Option<(Vec<char>, usize)>)
    ensures
        (match r {
            Some((v, j)) => parse_quoted(s@, i as int) == Some((v@, j as int)) && i < j && j <= s@.len(),
            None => parse_quoted(s@, i as int) is None,
        }),
{
    if i < s.len() && s[i] == '"' {
        proof { lemma_parse_body_advances(s@, i as int + 1); }
        parse_body_at(s, i + 1)
    } else {
        None
    }
}

// ---------------------------------------------------------------------------
// Round trip: what the writer emits, the parser reads back
// ---------------------------------------------------------------------------

pub proof fn lemma_parse_body_of_escape(v: Seq<char>, pre: Seq<char>, suf: Seq<char>)
    ensures
        parse_string_body(pre + escape(v) + seq!['"'] + suf, pre.len() as int)
            == Some((v, (pre.len() + escape(v).len() + 1) as int)),
    decreases v.len(),
{
    let s = pre + escape(v) + seq!['"'] + suf;
    let i = pre.len() as int;
    if v.len() == 0 {
        assert(escape(v) =~= Seq::<char>::empty());
        assert(s[i] == '"');
        assert(parse_string_body(s, i) == Some((Seq::<char>::empty(), i + 1)));
        assert(Seq::<char>::empty() =~= v);
    } else {
        let c = v[0];
        let v1 = v.drop_first();
        assert(escape(v) == esc_char(c) + escape(v1));
        let pre2 = pre + esc_char(c);
        assert(s =~= pre2 + escape(v1) + seq!['"'] + suf);
        lemma_parse_body_of_escape(v1, pre2, suf);
        let inner = parse_string_body(s, pre2.len() as int);
        assert(inner == Some((v1, (pre2.len() + escape(v1).len() + 1) as int)));
        assert(seq![c] + v1 =~= v);
        if c == '"' {
            assert(s[i] == '\\' && s[i + 1] == '"');
            assert(parse_escape(s, i) == Some(('"', i + 2)));
            assert(pre2.len() == i + 2);
        } else if c == '\\' {
            assert(s[i] == '\\' && s[i + 1] == '\\');
            assert(parse_escape(s, i) == Some(('\\', i + 2)));
            assert(pre2.len() == i + 2);
        } else if c == '\n' {
            assert(s[i] == '\\' && s[i + 1] == 'n');
            assert(parse_escape(s, i) == Some(('\n', i + 2)));
            assert(pre2.len() == i + 2);
        } else if c == '\r' {
            assert(s[i] == '\\' && s[i + 1] == 'r');
            assert(parse_escape(s, i) == Some(('\r', i + 2)));
            assert(pre2.len() == i + 2);
        } else if c == '\t' {
            assert(s[i] == '\\' && s[i + 1] == 't');
            assert(parse_escape(s, i) == Some(('\t', i + 2)));
            assert(pre2.len() == i + 2);
        } else if (c as u32) < 0x20 {
            let code = c as u32;
            assert(s[i] == '\\' && s[i + 1] == 'u' && s[i + 2] == '0' && s[i + 3] == '0');
            assert(s[i + 4] == digit_char((code / 16) as nat));
            assert(s[i + 5] == digit_char((code % 16) as nat));
            lemma_digit_round_trip(0);
            lemma_digit_round_trip((code / 16) as nat);
            lemma_digit_round_trip((code % 16) as nat);
            assert(i + 6 <= s.len());
            assert(hex4(s, i + 2) == Some(code as nat));
            assert(!(0xD800 <= code < 0xDC00) && !(0xDC00 <= code < 0xE000));
            vstd::utf8::char_u32_cast(c, code);
            assert((((code as nat) as u32) as char) == c);
            assert(parse_unicode_escape(s, i) == Some((c, i + 6)));
            assert(parse_escape(s, i) == Some((c, i + 6)));
            assert(pre2.len() == i + 6);
        } else {
            assert(s[i] == c);
            assert(s[i] != '"' && s[i] != '\\' && (s[i] as u32) >= 0x20);
            assert(pre2.len() == i + 1);
        }
    }
}

/// Round trip: a JSON string literal written by `quoted` parses back to
/// exactly the original text, whatever follows it.
pub proof fn lemma_parse_quoted_round_trip(v: Seq<char>, pre: Seq<char>, suf: Seq<char>)
    ensures
        parse_quoted(pre + quoted(v) + suf, pre.len() as int)
            == Some((v, (pre.len() + quoted(v).len()) as int)),
{
    let s = pre + quoted(v) + suf;
    let i = pre.len() as int;
    assert(s[i] == '"');
    let pre2 = pre + seq!['"'];
    assert(s =~= pre2 + escape(v) + seq!['"'] + suf);
    lemma_parse_body_of_escape(v, pre2, suf);
}

// ---------------------------------------------------------------------------
// Framing: quoting never emits a raw newline
// ---------------------------------------------------------------------------

pub proof fn lemma_escape_no_newline(s: Seq<char>)
    ensures
        forall|i: int| 0 <= i < escape(s).len() ==> escape(s)[i] != '\n',
    decreases s.len(),
{
    if s.len() > 0 {
        lemma_escape_no_newline(s.drop_first());
        let e0 = esc_char(s[0]);
        assert forall|i: int| 0 <= i < escape(s).len() implies escape(s)[i] != '\n' by {
            if i < e0.len() {
                assert(escape(s)[i] == e0[i]);
                assert(e0[i] != '\n');
            } else {
                assert(escape(s)[i] == escape(s.drop_first())[i - e0.len()]);
            }
        }
    }
}

/// A JSON string literal written here never holds a raw newline, whatever
/// the text: framing the channel by lines survives any payload.
pub proof fn lemma_quoted_no_newline(s: Seq<char>)
    ensures
        forall|i: int| 0 <= i < quoted(s).len() ==> quoted(s)[i] != '\n',
{
    lemma_escape_no_newline(s);
    assert forall|i: int| 0 <= i < quoted(s).len() implies quoted(s)[i] != '\n' by {
        if 0 < i && i < 1 + escape(s).len() {
            assert(quoted(s)[i] == escape(s)[i - 1]);
        }
    }
}


} // verus!
