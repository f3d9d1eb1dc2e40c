//! Reading one cookie out of a `Cookie` header and writing a `Set-Cookie` value.

use vstd::prelude::*;
use crate::text::{find_char, first_pos, lemma_first_pos_bounds, int_text, lemma_first_pos, push_int, push_str, range_equals, string_of, string_of_range, trim, trim_bounds, chars_of, is_ws, trim_start, trim_end};

verus! {

/// Seconds in `days` days, saturated to the range of `i32`.
pub open spec fn max_age_seconds(days: i32) -> int {
    let s = days * 86400;
    if s > i32::MAX { i32::MAX as int } else if s < i32::MIN { i32::MIN as int } else { s }
}

/// `name=value; path=/; max-age=<seconds>` with the age of `days` days.
pub open spec fn cookie_header(name: Seq<char>, value: Seq<char>, days: i32) -> Seq<char> {
    name + seq!['='] + value + "; path=/; max-age="@ + int_text(max_age_seconds(days))
}

pub fn build_cookie_header(name: &str, value: &str, days: i32) -> (header: String)
    ensures
        header@ == cookie_header(name@, value@, days),
{
    let s: i64 = days as i64 * 86400;
    let max_age: i64 = if s > i32::MAX as i64 { i32::MAX as i64 } else if s < i32::MIN as i64 { i32::MIN as i64 } else { s };
    let mut out: Vec<char> = Vec::new();
    push_str(&mut out, name);
    out.push('=');
    push_str(&mut out, value);
    push_str(&mut out, "; path=/; max-age=");
    push_int(&mut out, max_age);
    let ghost tail = "; path=/; max-age="@;
    assert(out@ == name@ + seq!['='] + value@ + tail + int_text(max_age as int));
    string_of(&out)
}

/// The name of a `name=value` pair: what stands before the first '=' (all of it
/// when there is none).
pub open spec fn pair_key(part: Seq<char>) -> Seq<char> {
    part.take(first_pos(part, '='))
}

/// The value of a `name=value` pair: what follows the first '=' (empty when
/// there is none).
pub open spec fn pair_value(part: Seq<char>) -> Seq<char> {
    let e = first_pos(part, '=');
    if e < part.len() { part.skip(e + 1) } else { Seq::empty() }
}

/// The value of the first cookie called `name` in `header`: the header is cut at
/// each ';', each piece is trimmed, empty pieces are passed over, and a piece
/// matches when its name (see `pair_key`) equals `name`.
pub open spec fn cookie_value(header: Seq<char>, name: Seq<char>) -> Option<Seq<char>>
    decreases header.len(),
{
    let end = first_pos(header, ';');
    let part = trim(header.take(end));
    if part.len() > 0 && pair_key(part) == name {
        Some(pair_value(part))
    } else if end < header.len() {
        proof {
            lemma_first_pos_bounds(header, ';');
        }
        cookie_value(header.skip(end + 1), name)
    } else {
        None
    }
}

pub fn parse_cookie_value(cookie_header: &str, name: &str) -> (r: Option<String>)
    ensures
        match r {
            Some(v) => cookie_value(cookie_header@, name@) == Some(v@),
            None => cookie_value(cookie_header@, name@) is None,
        },
{
    let h = chars_of(cookie_header);
    let n = chars_of(name);
    let len = h.len();
    let mut start: usize = 0;
    assert(h@.skip(0) == h@);
    loop
        invariant
            start <= len == h@.len(),
            h@ == cookie_header@,
            n@ == name@,
            cookie_value(h@, n@) == cookie_value(h@.skip(start as int), n@),
        decreases len - start,
    {
        let ghost rest = h@.skip(start as int);
        let end = find_char(&h, ';', start, len);
        proof {
            assert(h@.subrange(start as int, len as int) == rest);
            lemma_first_pos(rest, ';', end - start);
            assert(rest.take(end - start) == h@.subrange(start as int, end as int));
        }
        let (a, b) = trim_bounds(&h, start, end);
        let ghost part = h@.subrange(a as int, b as int);
        if a < b {
            let e = find_char(&h, '=', a, b);
            proof {
                lemma_first_pos(part, '=', e - a);
                assert(part.take(e - a) == h@.subrange(a as int, e as int));
            }
            if range_equals(&h, a, e, &n) {
                let v = if e < b { string_of_range(&h, e + 1, b) } else { string_of_range(&h, b, b) };
                proof {
                    if e < b {
                        assert(part.skip(e - a + 1) == h@.subrange(e + 1, b as int));
                    } else {
                        assert(h@.subrange(b as int, b as int) == Seq::<char>::empty());
                    }
                }
                return Some(v);
            }
        }
        if end == len {
            return None;
        }
        proof {
            assert(rest.skip(end - start + 1) == h@.skip(end + 1));
        }
        start = end + 1;
    }
}

/// Reading back a written cookie: the header that `build_cookie_header` makes
/// for `name` and `value` yields `value` again when `parse_cookie_value` looks
/// for `name`, provided that neither holds a ';', the name holds no '=', the
/// name does not start with white space and the value does not end with it.
pub proof fn law_cookie_roundtrip(name: Seq<char>, value: Seq<char>, days: i32)
    requires
        !name.contains(';'),
        !name.contains('='),
        !value.contains(';'),
        name.len() > 0 ==> !is_ws(name[0]),
        value.len() > 0 ==> !is_ws(value.last()),
    ensures
        cookie_value(cookie_header(name, value, days), name) == Some(value),
{
    reveal_strlit("; path=/; max-age=");
    let h = cookie_header(name, value, days);
    let p = name + seq!['='] + value;
    let k = p.len() as int;
    assert(h[k] == ';');
    assert forall|j: int| 0 <= j < k implies h[j] != ';' by {
        assert(h[j] == p[j]);
        if j < name.len() {
            assert(name.contains(name[j]));
        } else if j > name.len() {
            assert(p[j] == value[j - name.len() - 1]);
            assert(value.contains(value[j - name.len() - 1]));
        }
    }
    lemma_first_pos(h, ';', k);
    assert(h.take(k) == p);
    assert(trim_start(p) == p);
    assert(trim_end(p) == p);
    assert forall|j: int| 0 <= j < name.len() implies p[j] != '=' by {
        assert(name.contains(name[j]));
    }
    lemma_first_pos(p, '=', name.len() as int);
    assert(p.take(name.len() as int) == name);
    assert(p.skip(name.len() as int + 1) == value);
}

} // verus!
