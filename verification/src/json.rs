//! The wire encoding: JSON text for records, collections and error bodies,
//! with the field names of the record shapes used verbatim.
//!
//! The encoding is specified character by character (`json_of_rustacean`,
//! `json_of_crate`, the array and string forms), and every executable
//! encoder is proved to produce exactly that text. Strings are escaped as
//! JSON asks: quote, backslash, and the control characters, the common ones
//! by their short forms and the rest as `\u00` plus two hex digits.

use vstd::prelude::*;

use crate::models::Crate;
use crate::models::Rustacean;
use crate::routes::ResponseBody;

verus! {

/// The character for one decimal digit.
pub open spec fn dec_digit_char(d: nat) -> char {
    if d == 0 {
        '0'
    } else if d == 1 {
        '1'
    } else if d == 2 {
        '2'
    } else if d == 3 {
        '3'
    } else if d == 4 {
        '4'
    } else if d == 5 {
        '5'
    } else if d == 6 {
        '6'
    } else if d == 7 {
        '7'
    } else if d == 8 {
        '8'
    } else {
        '9'
    }
}

/// The character for one hexadecimal digit (lower case).
pub open spec fn hex_digit_char(d: nat) -> char {
    if d < 10 {
        dec_digit_char(d)
    } else if d == 10 {
        'a'
    } else if d == 11 {
        'b'
    } else if d == 12 {
        'c'
    } else if d == 13 {
        'd'
    } else if d == 14 {
        'e'
    } else {
        'f'
    }
}

/// The decimal digits of a non-negative number, most significant first.
pub open spec fn dec_digits(n: nat) -> Seq<char>
    decreases n,
{
    if n < 10 {
        seq![dec_digit_char(n)]
    } else {
        dec_digits(n / 10) + seq![dec_digit_char(n % 10)]
    }
}

/// The decimal text of an integer: a minus sign for negative values, then
/// the digits.
pub open spec fn int_to_dec(n: int) -> Seq<char> {
    if n < 0 {
        seq!['-'] + dec_digits((-n) as nat)
    } else {
        dec_digits(n as nat)
    }
}

/// What one character contributes to a JSON string body.
pub open spec fn escaped_char(c: char) -> Seq<char> {
    if c == '"' {
        seq!['\\', '"']
    } else if c == '\\' {
        seq!['\\', '\\']
    } else if c == '\n' {
        seq!['\\', 'n']
    } else if c == '\r' {
        seq!['\\', 'r']
    } else if c == '\t' {
        seq!['\\', 't']
    } else if (c as nat) < 32 {
        seq!['\\', 'u', '0', '0', hex_digit_char((c as nat) / 16), hex_digit_char((c as nat) % 16)]
    } else {
        seq![c]
    }
}

/// The body of a JSON string: every character escaped, in order.
pub open spec fn escaped(s: Seq<char>) -> Seq<char>
    decreases s.len(),
{
    if s.len() == 0 {
        Seq::empty()
    } else {
        escaped_char(s[0]) + escaped(s.drop_first())
    }
}

/// A JSON string: the escaped body between quotes.
pub open spec fn json_str(s: Seq<char>) -> Seq<char> {
    seq!['"'] + escaped(s) + seq!['"']
}

/// The JSON object for a rustacean record, fields in declaration order.
pub open spec fn json_of_rustacean(r: Rustacean) -> Seq<char> {
    "{\"id\":"@ + int_to_dec(r.id as int) + ",\"name\":"@ + json_str(r.name@) + ",\"email\":"@
        + json_str(r.email@) + ",\"created_at\":"@ + int_to_dec(r.created_at as int) + "}"@
}

/// The JSON object for a crate record, fields in declaration order.
pub open spec fn json_of_crate(c: Crate) -> Seq<char> {
    "{\"id\":"@ + int_to_dec(c.id as int) + ",\"rustacean_id\":"@ + int_to_dec(c.rustacean_id as int)
        + ",\"code\":"@ + json_str(c.code@) + ",\"name\":"@ + json_str(c.name@) + ",\"version\":"@
        + json_str(c.version@) + ",\"description\":"@ + json_str(c.description@)
        + ",\"created_at\":"@ + int_to_dec(c.created_at as int) + "}"@
}

/// The comma-separated objects inside a rustacean array.
pub open spec fn json_rustaceans_inner(rows: Seq<Rustacean>) -> Seq<char>
    decreases rows.len(),
{
    if rows.len() == 0 {
        Seq::empty()
    } else if rows.len() == 1 {
        json_of_rustacean(rows[0])
    } else {
        json_of_rustacean(rows[0]) + seq![','] + json_rustaceans_inner(rows.drop_first())
    }
}

/// The JSON array for a rustacean collection.
pub open spec fn json_of_rustacean_array(rows: Seq<Rustacean>) -> Seq<char> {
    seq!['['] + json_rustaceans_inner(rows) + seq![']']
}

/// The comma-separated objects inside a crate array.
pub open spec fn json_crates_inner(rows: Seq<Crate>) -> Seq<char>
    decreases rows.len(),
{
    if rows.len() == 0 {
        Seq::empty()
    } else if rows.len() == 1 {
        json_of_crate(rows[0])
    } else {
        json_of_crate(rows[0]) + seq![','] + json_crates_inner(rows.drop_first())
    }
}

/// The JSON array for a crate collection.
pub open spec fn json_of_crate_array(rows: Seq<Crate>) -> Seq<char> {
    seq!['['] + json_crates_inner(rows) + seq![']']
}

/// The JSON text of a response body.
pub open spec fn spec_render_body(b: ResponseBody) -> Seq<char> {
    match b {
        ResponseBody::RustaceanRecord(r) => json_of_rustacean(r),
        ResponseBody::RustaceanCollection(v) => json_of_rustacean_array(v@),
        ResponseBody::CrateRecord(c) => json_of_crate(c),
        ResponseBody::CrateCollection(v) => json_of_crate_array(v@),
        ResponseBody::ErrorMessage(m) => json_str(m@),
        ResponseBody::Empty => Seq::empty(),
    }
}

/// Relies on `str::chars`: the characters of the string, in order.
#[verifier::external_body]
fn chars_of(s: &str) -> (v: Vec<char>)
    ensures
        v@ == s@,
{
    s.chars().collect()
}

/// Relies on `String`'s `FromIterator<char>`: the string holding exactly
/// the given characters, in order.
#[verifier::external_body]
fn string_from_chars(v: Vec<char>) -> (s: String)
    ensures
        s@ == v@,
{
    v.into_iter().collect()
}

/// One decimal digit as a character.
fn dec_digit(d: u64) -> (c: char)
    requires
        d < 10,
    ensures
        c == dec_digit_char(d as nat),
{
    match d {
        0 => '0',
        1 => '1',
        2 => '2',
        3 => '3',
        4 => '4',
        5 => '5',
        6 => '6',
        7 => '7',
        8 => '8',
        _ => '9',
    }
}

/// One hexadecimal digit as a character (lower case).
fn hex_digit(d: u32) -> (c: char)
    requires
        d < 16,
    ensures
        c == hex_digit_char(d as nat),
{
    match d {
        0 => '0',
        1 => '1',
        2 => '2',
        3 => '3',
        4 => '4',
        5 => '5',
        6 => '6',
        7 => '7',
        8 => '8',
        9 => '9',
        10 => 'a',
        11 => 'b',
        12 => 'c',
        13 => 'd',
        14 => 'e',
        _ => 'f',
    }
}

/// Appends the decimal digits of `m`.
fn push_dec(out: &mut Vec<char>, m: u64)
    ensures
        final(out)@ == old(out)@ + dec_digits(m as nat),
    decreases m,
{
    if m >= 10 {
        proof {
            assert(m / 10 < m) by (nonlinear_arith)
                requires
                    m >= 10,
            ;
        }
        push_dec(out, m / 10);
        let d = dec_digit(m % 10);
        out.push(d);
        proof {
            assert(final(out)@ =~= old(out)@ + dec_digits(m as nat));
        }
    } else {
        let d = dec_digit(m);
        out.push(d);
        proof {
            assert(final(out)@ =~= old(out)@ + dec_digits(m as nat));
        }
    }
}

/// Appends the decimal text of `n`, minus sign included.
fn push_int(out: &mut Vec<char>, n: i64)
    ensures
        final(out)@ == old(out)@ + int_to_dec(n as int),
{
    if n < 0 {
        out.push('-');
        let m: u64 = (-(n as i128)) as u64;
        proof {
            assert(m as nat == (-(n as int)) as nat);
        }
        push_dec(out, m);
        proof {
            assert(final(out)@ =~= old(out)@ + int_to_dec(n as int));
        }
    } else {
        push_dec(out, n as u64);
    }
}

/// Appends the characters of a (literal or computed) string, unescaped.
fn push_chars(out: &mut Vec<char>, s: &str)
    ensures
        final(out)@ == old(out)@ + s@,
{
    let cs = chars_of(s);
    let n = cs.len();
    let mut i: usize = 0;
    while i < n
        invariant
            n == cs@.len(),
            cs@ == s@,
            i <= n,
            out@ == old(out)@ + cs@.subrange(0, i as int),
        decreases n - i,
    {
        out.push(cs[i]);
        proof {
            assert(out@ =~= old(out)@ + cs@.subrange(0, (i + 1) as int));
        }
        i = i + 1;
    }
    proof {
        assert(cs@.subrange(0, n as int) =~= s@);
    }
}

/// Appends the escape of one character.
fn push_escaped_char(out: &mut Vec<char>, c: char)
    ensures
        final(out)@ == old(out)@ + escaped_char(c),
{
    if c == '"' {
        out.push('\\');
        out.push('"');
    } else if c == '\\' {
        out.push('\\');
        out.push('\\');
    } else if c == '\n' {
        out.push('\\');
        out.push('n');
    } else if c == '\r' {
        out.push('\\');
        out.push('r');
    } else if c == '\t' {
        out.push('\\');
        out.push('t');
    } else if (c as u32) < 32 {
        out.push('\\');
        out.push('u');
        out.push('0');
        out.push('0');
        let h = hex_digit((c as u32) / 16);
        out.push(h);
        let l = hex_digit((c as u32) % 16);
        out.push(l);
    } else {
        out.push(c);
    }
    proof {
        assert(final(out)@ =~= old(out)@ + escaped_char(c));
    }
}

/// Appends the escapes of the characters of `cs` from index `i` on.
fn push_escaped_from(out: &mut Vec<char>, cs: &Vec<char>, i: usize)
    requires
        i <= cs@.len(),
    ensures
        final(out)@ == old(out)@ + escaped(cs@.subrange(i as int, cs@.len() as int)),
    decreases cs@.len() - i,
{
    if i < cs.len() {
        push_escaped_char(out, cs[i]);
        push_escaped_from(out, cs, i + 1);
        proof {
            let tail = cs@.subrange(i as int, cs@.len() as int);
            assert(tail[0] == cs@[i as int]);
            assert(tail.drop_first() =~= cs@.subrange((i + 1) as int, cs@.len() as int));
            assert(final(out)@ =~= old(out)@ + escaped(tail));
        }
    } else {
        proof {
            assert(cs@.subrange(i as int, cs@.len() as int) =~= Seq::<char>::empty());
        }
    }
}

/// Appends a JSON string: quote, escaped characters, quote.
fn push_json_str(out: &mut Vec<char>, s: &str)
    ensures
        final(out)@ == old(out)@ + json_str(s@),
{
    out.push('"');
    let cs = chars_of(s);
    push_escaped_from(out, &cs, 0);
    proof {
        assert(cs@.subrange(0, cs@.len() as int) =~= s@);
    }
    out.push('"');
    proof {
        assert(final(out)@ =~= old(out)@ + json_str(s@));
    }
}

/// Appends the JSON object of a rustacean record.
fn push_rustacean(out: &mut Vec<char>, r: &Rustacean)
    ensures
        final(out)@ == old(out)@ + json_of_rustacean(*r),
{
    push_chars(out, "{\"id\":");
    push_int(out, r.id as i64);
    push_chars(out, ",\"name\":");
    push_json_str(out, r.name.as_str());
    push_chars(out, ",\"email\":");
    push_json_str(out, r.email.as_str());
    push_chars(out, ",\"created_at\":");
    push_int(out, r.created_at);
    push_chars(out, "}");
    proof {
        assert(final(out)@ =~= old(out)@ + json_of_rustacean(*r));
    }
}

/// Appends the JSON object of a crate record.
fn push_crate(out: &mut Vec<char>, c: &Crate)
    ensures
        final(out)@ == old(out)@ + json_of_crate(*c),
{
    push_chars(out, "{\"id\":");
    push_int(out, c.id as i64);
    push_chars(out, ",\"rustacean_id\":");
    push_int(out, c.rustacean_id as i64);
    push_chars(out, ",\"code\":");
    push_json_str(out, c.code.as_str());
    push_chars(out, ",\"name\":");
    push_json_str(out, c.name.as_str());
    push_chars(out, ",\"version\":");
    push_json_str(out, c.version.as_str());
    push_chars(out, ",\"description\":");
    push_json_str(out, c.description.as_str());
    push_chars(out, ",\"created_at\":");
    push_int(out, c.created_at);
    push_chars(out, "}");
    proof {
        assert(final(out)@ =~= old(out)@ + json_of_crate(*c));
    }
}

/// Appends the comma-separated objects of the rows from index `i` on.
fn push_rustaceans_from(out: &mut Vec<char>, rows: &Vec<Rustacean>, i: usize)
    requires
        i <= rows@.len(),
    ensures
        final(out)@ == old(out)@ + json_rustaceans_inner(rows@.subrange(i as int, rows@.len() as int)),
    decreases rows@.len() - i,
{
    if i < rows.len() {
        push_rustacean(out, &rows[i]);
        if i + 1 < rows.len() {
            out.push(',');
        }
        push_rustaceans_from(out, rows, i + 1);
        proof {
            let tail = rows@.subrange(i as int, rows@.len() as int);
            assert(tail[0] == rows@[i as int]);
            assert(tail.drop_first() =~= rows@.subrange((i + 1) as int, rows@.len() as int));
            assert(final(out)@ =~= old(out)@ + json_rustaceans_inner(tail));
        }
    } else {
        proof {
            assert(rows@.subrange(i as int, rows@.len() as int) =~= Seq::<Rustacean>::empty());
        }
    }
}

/// Appends the comma-separated objects of the rows from index `i` on.
fn push_crates_from(out: &mut Vec<char>, rows: &Vec<Crate>, i: usize)
    requires
        i <= rows@.len(),
    ensures
        final(out)@ == old(out)@ + json_crates_inner(rows@.subrange(i as int, rows@.len() as int)),
    decreases rows@.len() - i,
{
    if i < rows.len() {
        push_crate(out, &rows[i]);
        if i + 1 < rows.len() {
            out.push(',');
        }
        push_crates_from(out, rows, i + 1);
        proof {
            let tail = rows@.subrange(i as int, rows@.len() as int);
            assert(tail[0] == rows@[i as int]);
            assert(tail.drop_first() =~= rows@.subrange((i + 1) as int, rows@.len() as int));
            assert(final(out)@ =~= old(out)@ + json_crates_inner(tail));
        }
    } else {
        proof {
            assert(rows@.subrange(i as int, rows@.len() as int) =~= Seq::<Crate>::empty());
        }
    }
}

/// The JSON text of one rustacean record.
pub fn encode_rustacean(r: &Rustacean) -> (s: String)
    ensures
        s@ == json_of_rustacean(*r),
{
    let mut out: Vec<char> = Vec::new();
    push_rustacean(&mut out, r);
    string_from_chars(out)
}

/// The JSON text of a rustacean collection.
pub fn encode_rustacean_array(rows: &Vec<Rustacean>) -> (s: String)
    ensures
        s@ == json_of_rustacean_array(rows@),
{
    let mut out: Vec<char> = Vec::new();
    out.push('[');
    push_rustaceans_from(&mut out, rows, 0);
    out.push(']');
    proof {
        assert(rows@.subrange(0, rows@.len() as int) =~= rows@);
        assert(out@ =~= json_of_rustacean_array(rows@));
    }
    string_from_chars(out)
}

/// The JSON text of one crate record.
pub fn encode_crate(c: &Crate) -> (s: String)
    ensures
        s@ == json_of_crate(*c),
{
    let mut out: Vec<char> = Vec::new();
    push_crate(&mut out, c);
    string_from_chars(out)
}

/// The JSON text of a crate collection.
pub fn encode_crate_array(rows: &Vec<Crate>) -> (s: String)
    ensures
        s@ == json_of_crate_array(rows@),
{
    let mut out: Vec<char> = Vec::new();
    out.push('[');
    push_crates_from(&mut out, rows, 0);
    out.push(']');
    proof {
        assert(rows@.subrange(0, rows@.len() as int) =~= rows@);
        assert(out@ =~= json_of_crate_array(rows@));
    }
    string_from_chars(out)
}

/// The JSON text of a response body (empty for bodiless responses).
pub fn render_body(b: &ResponseBody) -> (s: String)
    ensures
        s@ == spec_render_body(*b),
{
    match b {
        ResponseBody::RustaceanRecord(r) => encode_rustacean(r),
        ResponseBody::RustaceanCollection(v) => encode_rustacean_array(v),
        ResponseBody::CrateRecord(c) => encode_crate(c),
        ResponseBody::CrateCollection(v) => encode_crate_array(v),
        ResponseBody::ErrorMessage(m) => {
            let mut out: Vec<char> = Vec::new();
            push_json_str(&mut out, m.as_str());
            string_from_chars(out)
        },
        ResponseBody::Empty => String::new(),
    }
}

} // verus!
