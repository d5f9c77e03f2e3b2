//! The text of a query string: fields written as `key=value`, joined by `&`, in the
//! `application/x-www-form-urlencoded` syntax.
//!
//! A key or value is written byte by byte from its UTF-8 encoding: ASCII letters, digits and
//! `*`, `-`, `.`, `_` stand for themselves, a space becomes `+`, and every other byte becomes
//! `%` followed by its two upper-case hexadecimal digits.
//!
//! The module says how a query string is written ([`query_text`]) and how it is read
//! ([`read_query`]), proves that reading gives back what was written
//! ([`lemma_query_text_reads_back`]), and measures a query string without writing it
//! ([`query_len_within`]).

use vstd::prelude::*;
use vstd::utf8::{decode_utf8, encode_utf8, encode_utf8_decode_utf8};

verus! {

/// A field of the query string, as (key, value).
pub type Param = (Seq<char>, Seq<char>);

/// The mathematical value of a list of fields.
pub open spec fn params_view(params: Seq<(&str, &str)>) -> Seq<Param> {
    Seq::new(params.len(), |i: int| (params[i].0@, params[i].1@))
}

/// Whether a byte is written to a query string as it is.
pub open spec fn is_unreserved(byte: u8) -> bool {
    let mark = byte as char;
    ||| mark == '*'
    ||| mark == '-'
    ||| mark == '.'
    ||| mark == '_'
    ||| '0' <= mark <= '9'
    ||| 'A' <= mark <= 'Z'
    ||| 'a' <= mark <= 'z'
}

/// The upper-case hexadecimal digit for a value below sixteen.
pub open spec fn hex_digit(value: int) -> char {
    if value < 10 {
        ('0' as int + value) as char
    } else {
        ('A' as int + value - 10) as char
    }
}

/// How one byte is written to a query string.
pub open spec fn escape_byte(byte: u8) -> Seq<char> {
    if is_unreserved(byte) {
        seq![byte as char]
    } else if byte as char == ' ' {
        seq!['+']
    } else {
        seq!['%', hex_digit(byte as int / 16), hex_digit(byte as int % 16)]
    }
}

/// How a run of bytes is written to a query string: byte by byte, in order.
pub open spec fn escape_bytes(bytes: Seq<u8>) -> Seq<char>
    decreases bytes.len(),
{
    if bytes.len() == 0 {
        Seq::empty()
    } else {
        escape_byte(bytes.first()) + escape_bytes(bytes.drop_first())
    }
}

/// How a key or a value is written to a query string: the bytes of its UTF-8 encoding,
/// escaped.
pub open spec fn escape_text(text: Seq<char>) -> Seq<char> {
    escape_bytes(encode_utf8(text))
}

/// How one field is written to a query string: `key=value`, both escaped.
pub open spec fn param_text(param: Param) -> Seq<char> {
    escape_text(param.0) + seq!['='] + escape_text(param.1)
}

/// The query string that holds the given fields: each as `key=value`, in order, with `&`
/// between one field and the next.
pub open spec fn query_text(params: Seq<Param>) -> Seq<char>
    decreases params.len(),
{
    if params.len() == 0 {
        Seq::empty()
    } else if params.len() == 1 {
        param_text(params.first())
    } else {
        param_text(params.first()) + seq!['&'] + query_text(params.drop_first())
    }
}

/// Whether a character is a hexadecimal digit, in either case.
pub open spec fn is_hex_digit(digit: char) -> bool {
    ||| '0' <= digit <= '9'
    ||| 'A' <= digit <= 'F'
    ||| 'a' <= digit <= 'f'
}

/// The value of a hexadecimal digit.
pub open spec fn hex_value(digit: char) -> int {
    if '0' <= digit <= '9' {
        digit as int - '0' as int
    } else if 'A' <= digit <= 'F' {
        digit as int - 'A' as int + 10
    } else {
        digit as int - 'a' as int + 10
    }
}

/// The bytes that an escaped text stands for: `%` with two hexadecimal digits is the byte of
/// that value, `+` is a space, and any other ASCII character is its own byte.
///
/// A query string holds ASCII alone; of other characters this says nothing of use.
pub open spec fn unescape(text: Seq<char>) -> Seq<u8>
    decreases text.len(),
{
    if text.len() == 0 {
        Seq::empty()
    } else if text[0] == '%' && text.len() >= 3 && is_hex_digit(text[1]) && is_hex_digit(text[2]) {
        seq![(hex_value(text[1]) * 16 + hex_value(text[2])) as u8] + unescape(text.skip(3))
    } else if text[0] == '+' {
        seq![' ' as u8] + unescape(text.drop_first())
    } else {
        seq![text[0] as u8] + unescape(text.drop_first())
    }
}

/// The key or value that an escaped text stands for, where its bytes are UTF-8.
pub open spec fn read_text(text: Seq<char>) -> Seq<char> {
    decode_utf8(unescape(text))
}

/// Where a character first stands in a text; the length of the text where it does not occur.
pub open spec fn find(text: Seq<char>, mark: char) -> nat
    decreases text.len(),
{
    if text.len() == 0 || text[0] == mark {
        0
    } else {
        1 + find(text.drop_first(), mark)
    }
}

/// What follows the first occurrence of a character in a text; nothing where it does not
/// occur.
pub open spec fn after(text: Seq<char>, mark: char) -> Seq<char> {
    if find(text, mark) < text.len() {
        text.skip(find(text, mark) as int + 1)
    } else {
        Seq::empty()
    }
}

/// The field that `key=value` stands for: the text is split at its first `=`, and both
/// sides are read back.
pub open spec fn read_param(text: Seq<char>) -> Param {
    (read_text(text.take(find(text, '=') as int)), read_text(after(text, '=')))
}

/// The fields that a query string stands for: the text is split at each `&`, and every
/// piece but the empty ones is read as a field.
pub open spec fn read_query(text: Seq<char>) -> Seq<Param>
    decreases text.len(),
{
    if text.len() == 0 {
        Seq::empty()
    } else if find(text, '&') == 0 {
        read_query(after(text, '&'))
    } else {
        seq![read_param(text.take(find(text, '&') as int))] + read_query(after(text, '&'))
    }
}

/// The query string of a URL's text: what stands between its first `?` and the `#` that
/// follows, if any.
pub open spec fn query_of(url: Seq<char>) -> Seq<char> {
    after(url, '?').take(find(after(url, '?'), '#') as int)
}

/// Whether a character has a meaning of its own in a URL's query: `&` and `=` part the
/// fields, `?` and `#` bound the query.
pub open spec fn is_delimiter(mark: char) -> bool {
    mark == '&' || mark == '=' || mark == '?' || mark == '#'
}

/// Whether no character of a text is a delimiter.
pub open spec fn is_plain(text: Seq<char>) -> bool {
    forall|i: int| 0 <= i < text.len() ==> !is_delimiter(#[trigger] text[i])
}

/// A single byte is escaped as [`escape_byte`] says.
pub proof fn lemma_escape_bytes_one(byte: u8)
    ensures
        escape_bytes(seq![byte]) == escape_byte(byte),
{
    let one = seq![byte];
    assert(one.first() == byte);
    assert(one.drop_first() =~= Seq::<u8>::empty());
    assert(escape_bytes(one.drop_first()) =~= Seq::<char>::empty());
    assert(escape_bytes(one) =~= escape_byte(byte));
}

/// Escaping goes through a run of bytes from left to right: the text for two runs, one after
/// the other, is the text for the first followed by the text for the second.
pub proof fn lemma_escape_bytes_concat(left: Seq<u8>, right: Seq<u8>)
    ensures
        escape_bytes(left + right) == escape_bytes(left) + escape_bytes(right),
    decreases left.len(),
{
    if left.len() == 0 {
        assert(left + right =~= right);
    } else {
        assert((left + right).drop_first() =~= left.drop_first() + right);
        lemma_escape_bytes_concat(left.drop_first(), right);
    }
    assert(escape_bytes(left + right) =~= escape_bytes(left) + escape_bytes(right));
}

/// The fields of a query string keep their order, and none is merged with another: the
/// query string for two lists of fields, one after the other, is the query string of the
/// first, then `&`, then that of the second.
pub proof fn lemma_query_text_concat(left: Seq<Param>, right: Seq<Param>)
    requires
        left.len() > 0,
        right.len() > 0,
    ensures
        query_text(left + right) == query_text(left) + seq!['&'] + query_text(right),
    decreases left.len(),
{
    let whole = left + right;
    assert(whole.first() == left.first());
    if left.len() == 1 {
        assert(whole.drop_first() =~= right);
    } else {
        assert(whole.drop_first() =~= left.drop_first() + right);
        lemma_query_text_concat(left.drop_first(), right);
    }
    assert(query_text(whole) =~= query_text(left) + seq!['&'] + query_text(right));
}

/// One more field is written at the end of the query string, after `&` where there is a
/// field before it.
pub proof fn lemma_query_text_push(params: Seq<Param>, param: Param)
    ensures
        query_text(params.push(param)) == if params.len() == 0 {
            param_text(param)
        } else {
            query_text(params) + seq!['&'] + param_text(param)
        },
{
    assert(params.push(param) =~= params + seq![param]);
    if params.len() > 0 {
        lemma_query_text_concat(params, seq![param]);
    }
}

/// [`find`] gives the first place where the character stands.
pub proof fn lemma_find_first(text: Seq<char>, mark: char, at: int)
    requires
        0 <= at <= text.len(),
        forall|i: int| 0 <= i < at ==> text[i] != mark,
        at < text.len() ==> text[at] == mark,
    ensures
        find(text, mark) == at,
    decreases at,
{
    if at > 0 {
        let rest = text.drop_first();
        assert forall|i: int| 0 <= i < at - 1 implies rest[i] != mark by {
            assert(rest[i] == text[i + 1]);
        }
        lemma_find_first(rest, mark, at - 1);
    }
}

/// An escaped byte holds no delimiter, and reads back as the byte, whatever follows it.
pub proof fn lemma_escape_byte_reads_back(byte: u8, rest: Seq<char>)
    ensures
        is_plain(escape_byte(byte)),
        unescape(escape_byte(byte) + rest) == seq![byte] + unescape(rest),
{
    let text = escape_byte(byte) + rest;
    if is_unreserved(byte) || byte as char == ' ' {
        assert(text.drop_first() =~= rest);
    } else {
        let high = byte as int / 16;
        let low = byte as int % 16;
        assert(is_hex_digit(hex_digit(high)) && hex_value(hex_digit(high)) == high);
        assert(is_hex_digit(hex_digit(low)) && hex_value(hex_digit(low)) == low);
        assert(text[0] == '%' && text[1] == hex_digit(high) && text[2] == hex_digit(low));
        assert(text.skip(3) =~= rest);
    }
}

/// Escaped bytes hold no delimiter, and read back as the bytes that were escaped.
pub proof fn lemma_escape_bytes_read_back(bytes: Seq<u8>)
    ensures
        is_plain(escape_bytes(bytes)),
        unescape(escape_bytes(bytes)) == bytes,
    decreases bytes.len(),
{
    if bytes.len() > 0 {
        lemma_escape_bytes_read_back(bytes.drop_first());
        lemma_escape_byte_reads_back(bytes.first(), escape_bytes(bytes.drop_first()));
        assert(seq![bytes.first()] + bytes.drop_first() =~= bytes);
    }
}

/// An escaped key or value holds no delimiter, and reads back as the text that was escaped.
pub proof fn lemma_escape_text_reads_back(text: Seq<char>)
    ensures
        is_plain(escape_text(text)),
        read_text(escape_text(text)) == text,
{
    lemma_escape_bytes_read_back(encode_utf8(text));
    encode_utf8_decode_utf8(text);
}

/// A field written as `key=value` reads back as the field. Its text is not empty, and holds
/// no `&`, `?` or `#`.
pub proof fn lemma_param_text_reads_back(param: Param)
    ensures
        read_param(param_text(param)) == param,
        param_text(param).len() > 0,
        forall|i: int|
            0 <= i < param_text(param).len() ==> {
                let mark = #[trigger] param_text(param)[i];
                mark != '&' && mark != '?' && mark != '#'
            },
{
    let key = escape_text(param.0);
    let text = param_text(param);
    lemma_escape_text_reads_back(param.0);
    lemma_escape_text_reads_back(param.1);
    lemma_find_first(text, '=', key.len() as int);
    assert(text.take(key.len() as int) =~= key);
    assert(after(text, '=') =~= escape_text(param.1));
}

/// A query string reads back as the fields that it was written from: the same keys and
/// values, in the same order, a field that was set twice standing twice. It holds no `?`
/// and no `#`.
pub proof fn lemma_query_text_reads_back(params: Seq<Param>)
    ensures
        read_query(query_text(params)) == params,
        forall|i: int|
            0 <= i < query_text(params).len() ==> {
                let mark = #[trigger] query_text(params)[i];
                mark != '?' && mark != '#'
            },
    decreases params.len(),
{
    if params.len() > 0 {
        let first = param_text(params.first());
        let rest = params.drop_first();
        let text = query_text(params);
        lemma_param_text_reads_back(params.first());
        lemma_query_text_reads_back(rest);
        lemma_find_first(text, '&', first.len() as int);
        assert(text.take(first.len() as int) =~= first);
        assert(after(text, '&') =~= query_text(rest));
        assert(read_query(text) == seq![params.first()] + rest);
        assert(params =~= seq![params.first()] + rest);
    }
}

/// The query of a URL that was made by adding `?` and a query string to a text without `?`
/// is that query string.
pub proof fn lemma_query_of_appended(url: Seq<char>, params: Seq<Param>)
    requires
        !url.contains('?'),
    ensures
        query_of(url + seq!['?'] + query_text(params)) == query_text(params),
{
    let query = query_text(params);
    let whole = url + seq!['?'] + query;
    lemma_query_text_reads_back(params);
    assert forall|i: int| 0 <= i < url.len() implies whole[i] != '?' by {
        assert(url.contains(url[i]));
    }
    lemma_find_first(whole, '?', url.len() as int);
    assert(after(whole, '?') =~= query);
    lemma_find_first(query, '#', query.len() as int);
    assert(query.take(query.len() as int) =~= query);
}

/// Whether a byte is written to a query string as it is.
pub fn is_unreserved_byte(byte: u8) -> (unreserved: bool)
    ensures
        unreserved == is_unreserved(byte),
{
    let mark = byte as char;
    mark == '*' || mark == '-' || mark == '.' || mark == '_' || ('0' <= mark && mark <= '9')
        || ('A' <= mark && mark <= 'Z') || ('a' <= mark && mark <= 'z')
}

/// Adds to `start` the number of characters that `bytes` take in a query string, where the
/// sum is at most `limit`.
pub fn add_escaped_len(start: u64, bytes: &[u8], limit: u64) -> (sum: Option<u64>)
    ensures
        match sum {
            Some(total) => total == start + escape_bytes(bytes@).len() && total <= limit,
            None => start + escape_bytes(bytes@).len() > limit,
        },
{
    if start > limit {
        return None;
    }
    let mut total: u64 = start;
    let mut done: usize = 0;
    while done < bytes.len()
        invariant
            done <= bytes.len(),
            total == start + escape_bytes(bytes@.take(done as int)).len(),
            total <= limit,
        decreases bytes.len() - done,
    {
        let byte = bytes[done];
        proof {
            let before = bytes@.take(done as int);
            let after = bytes@.skip(done as int + 1);
            assert(bytes@.take(done as int + 1) =~= before + seq![byte]);
            assert(bytes@ =~= bytes@.take(done as int + 1) + after);
            lemma_escape_bytes_concat(before, seq![byte]);
            lemma_escape_bytes_concat(bytes@.take(done as int + 1), after);
            lemma_escape_bytes_one(byte);
        }
        let width: u64 = if is_unreserved_byte(byte) || byte as char == ' ' {
            1
        } else {
            3
        };
        if width > limit - total {
            return None;
        }
        total = total + width;
        done = done + 1;
    }
    assert(bytes@.take(done as int) =~= bytes@);
    Some(total)
}

/// The length of the query string that holds the given fields, where it is at most `limit`.
pub fn query_len_within(params: &Vec<(&str, &str)>, limit: u64) -> (len: Option<u64>)
    ensures
        match len {
            Some(total) => total == query_text(params_view(params@)).len() && total <= limit,
            None => query_text(params_view(params@)).len() > limit,
        },
{
    let ghost fields = params_view(params@);
    let mut total: u64 = 0;
    let mut done: usize = 0;
    while done < params.len()
        invariant
            done <= params.len(),
            fields == params_view(params@),
            total == query_text(fields.take(done as int)).len(),
            total <= limit,
        decreases params.len() - done,
    {
        let (key, value) = params[done];
        proof {
            let field = fields[done as int];
            let before = fields.take(done as int);
            let after = fields.skip(done as int + 1);
            assert(field == (key@, value@));
            assert(fields.take(done as int + 1) =~= before.push(field));
            assert(fields =~= fields.take(done as int + 1) + after);
            lemma_query_text_push(before, field);
            if after.len() > 0 {
                lemma_query_text_concat(fields.take(done as int + 1), after);
            }
        }
        if done > 0 {
            if total >= limit {
                return None;
            }
            total = total + 1;
        }
        match add_escaped_len(total, key.as_bytes(), limit) {
            Some(sum) if sum < limit => {
                total = sum + 1;
            },
            _ => {
                return None;
            },
        }
        match add_escaped_len(total, value.as_bytes(), limit) {
            Some(sum) => {
                total = sum;
            },
            None => {
                return None;
            },
        }
        done = done + 1;
    }
    assert(fields.take(done as int) =~= fields);
    Some(total)
}

} // verus!
