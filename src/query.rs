//! Query strings: percent-encoding of parameters, their joining, and the
//! decoding under which a composed query gives back its parameters.
use vstd::prelude::*;
use vstd::utf8::*;
use crate::key_value_editor::{KeyValueEntry, non_empty_pairs};
use crate::text::{append_chars, chars_of, first_index_of, string_of};

verus! {

broadcast use encode_utf8_decode_utf8;

/// A byte that percent-encoding keeps: ASCII letters and digits, `-`, `.`, `_`, `~`.
pub open spec fn is_unreserved(b: u8) -> bool {
    (48 <= b <= 57) || (65 <= b <= 90) || (97 <= b <= 122) || b == 45 || b == 46 || b == 95
        || b == 126
}

/// The upper-case hexadecimal digit for `d`, which is below 16.
pub open spec fn hex_digit(d: u8) -> char {
    if d < 10 {
        ((d + 48) as u8) as char
    } else {
        ((d + 55) as u8) as char
    }
}

/// One byte, percent-encoded.
pub open spec fn encode_byte(b: u8) -> Seq<char> {
    if is_unreserved(b) {
        seq![b as char]
    } else {
        seq!['%', hex_digit(b / 16), hex_digit(b % 16)]
    }
}

/// Bytes, percent-encoded one after the other.
pub open spec fn percent_encode(bytes: Seq<u8>) -> Seq<char>
    decreases bytes.len(),
{
    if bytes.len() == 0 {
        seq![]
    } else {
        encode_byte(bytes[0]) + percent_encode(bytes.drop_first())
    }
}

/// The percent-encoding of the UTF-8 form of `s`.
pub open spec fn url_encode(s: Seq<char>) -> Seq<char> {
    percent_encode(encode_utf8(s))
}

/// `c` is a hexadecimal digit of either case.
pub open spec fn is_hex(c: char) -> bool {
    let u = c as u32;
    (48 <= u <= 57) || (65 <= u <= 70) || (97 <= u <= 102)
}

/// The value of the hexadecimal digit `c`.
pub open spec fn hex_value(c: char) -> int {
    let u = c as u32;
    if 48 <= u <= 57 {
        u - 48
    } else if 65 <= u <= 70 {
        u - 55
    } else {
        u - 87
    }
}

/// The UTF-8 bytes of one character.
pub open spec fn char_bytes(c: char) -> Seq<u8> {
    if (c as u32) < 128 {
        seq![(c as u32) as u8]
    } else {
        encode_utf8(seq![c])
    }
}

/// The bytes that `s` stands for: each `%` with two hexadecimal digits is one
/// byte, any other character its own UTF-8 bytes.
pub open spec fn percent_decode(s: Seq<char>) -> Seq<u8>
    decreases s.len(),
{
    if s.len() == 0 {
        seq![]
    } else if s.len() >= 3 && s[0] == '%' && is_hex(s[1]) && is_hex(s[2]) {
        seq![(hex_value(s[1]) * 16 + hex_value(s[2])) as u8] + percent_decode(s.skip(3))
    } else {
        char_bytes(s[0]) + percent_decode(s.skip(1))
    }
}

/// The text that the percent-encoded `s` stands for.
pub open spec fn url_decode(s: Seq<char>) -> Seq<char> {
    decode_utf8(percent_decode(s))
}

/// One parameter as it stands in a query: `key=value`, both encoded.
pub open spec fn pair_text(p: (Seq<char>, Seq<char>)) -> Seq<char> {
    url_encode(p.0) + seq!['='] + url_encode(p.1)
}

/// The parameters joined by `&`, in order.
pub open spec fn query_string(pairs: Seq<(Seq<char>, Seq<char>)>) -> Seq<char>
    decreases pairs.len(),
{
    if pairs.len() == 0 {
        seq![]
    } else if pairs.len() == 1 {
        pair_text(pairs[0])
    } else {
        query_string(pairs.drop_last()) + seq!['&'] + pair_text(pairs.last())
    }
}

/// The position of the last `c` in `s`, or -1 if there is none.
pub open spec fn last_index_of(s: Seq<char>, c: char) -> int
    decreases s.len(),
{
    if s.len() == 0 {
        -1
    } else if s.last() == c {
        s.len() - 1
    } else {
        last_index_of(s.drop_last(), c)
    }
}

/// One `key=value` piece of a query, decoded.
pub open spec fn parse_pair(t: Seq<char>) -> (Seq<char>, Seq<char>) {
    let k = first_index_of(t, '=');
    if k < t.len() {
        (url_decode(t.take(k)), url_decode(t.skip(k + 1)))
    } else {
        (url_decode(t), seq![])
    }
}

/// A query string split at each `&` and each piece decoded.
pub open spec fn parse_query(s: Seq<char>) -> Seq<(Seq<char>, Seq<char>)>
    decreases s.len(),
{
    if s.len() == 0 {
        seq![]
    } else {
        let j = last_index_of(s, '&');
        if j < 0 || j >= s.len() {
            seq![parse_pair(s)]
        } else {
            parse_query(s.take(j)).push(parse_pair(s.skip(j + 1)))
        }
    }
}

/// `s` holds neither `&` nor `=`.
pub open spec fn free_of_separators(s: Seq<char>) -> bool {
    forall|i: int| 0 <= i < s.len() ==> s[i] != '&' && s[i] != '='
}

proof fn lemma_encode_free_of_separators(b: Seq<u8>)
    ensures
        free_of_separators(percent_encode(b)),
    decreases b.len(),
{
    if b.len() > 0 {
        lemma_encode_free_of_separators(b.drop_first());
        let e = encode_byte(b[0]);
        let r = percent_encode(b.drop_first());
        assert forall|i: int| 0 <= i < e.len() implies e[i] != '&' && e[i] != '=' by {
            if !is_unreserved(b[0]) {
                assert(b[0] / 16 < 16 && b[0] % 16 < 16);
            }
        }
        assert forall|i: int| 0 <= i < (e + r).len() implies (e + r)[i] != '&' && (e + r)[i]
            != '=' by {
            if i >= e.len() {
                assert((e + r)[i] == r[i - e.len()]);
            }
        }
    }
}

proof fn lemma_decode_encode(b: Seq<u8>)
    ensures
        percent_decode(percent_encode(b)) == b,
    decreases b.len(),
{
    if b.len() > 0 {
        let b0 = b[0];
        let e = encode_byte(b0);
        let r = percent_encode(b.drop_first());
        let s = e + r;
        lemma_decode_encode(b.drop_first());
        if is_unreserved(b0) {
            assert(s[0] == b0 as char);
            assert(s.skip(1) =~= r);
            assert(char_bytes(b0 as char) =~= seq![b0]);
        } else {
            assert(s.skip(3) =~= r);
            assert(s[0] == '%' && s[1] == hex_digit(b0 / 16) && s[2] == hex_digit(b0 % 16));
            assert(hex_value(hex_digit(b0 / 16)) == b0 / 16);
            assert(hex_value(hex_digit(b0 % 16)) == b0 % 16);
        }
        assert(seq![b0] + b.drop_first() =~= b);
    }
}

proof fn lemma_url_round_trip(s: Seq<char>)
    ensures
        url_decode(url_encode(s)) == s,
        free_of_separators(url_encode(s)),
{
    lemma_decode_encode(encode_utf8(s));
    lemma_encode_free_of_separators(encode_utf8(s));
}

proof fn lemma_first_index(a: Seq<char>, x: Seq<char>, c: char)
    requires
        forall|i: int| 0 <= i < a.len() ==> a[i] != c,
    ensures
        first_index_of(a + seq![c] + x, c) == a.len(),
    decreases a.len(),
{
    if a.len() > 0 {
        lemma_first_index(a.drop_first(), x, c);
        assert((a + seq![c] + x).drop_first() =~= a.drop_first() + seq![c] + x);
    }
}

proof fn lemma_last_index(a: Seq<char>, t: Seq<char>, c: char)
    requires
        forall|i: int| 0 <= i < t.len() ==> t[i] != c,
    ensures
        last_index_of(a + seq![c] + t, c) == a.len(),
    decreases t.len(),
{
    if t.len() > 0 {
        lemma_last_index(a, t.drop_last(), c);
        assert((a + seq![c] + t).drop_last() =~= a + seq![c] + t.drop_last());
    } else {
        assert(a + seq![c] + t =~= a.push(c));
    }
}

proof fn lemma_last_index_absent(t: Seq<char>, c: char)
    requires
        forall|i: int| 0 <= i < t.len() ==> t[i] != c,
    ensures
        last_index_of(t, c) == -1,
    decreases t.len(),
{
    if t.len() > 0 {
        lemma_last_index_absent(t.drop_last(), c);
    }
}

proof fn lemma_pair_round_trip(p: (Seq<char>, Seq<char>))
    ensures
        parse_pair(pair_text(p)) == p,
        forall|i: int| 0 <= i < pair_text(p).len() ==> pair_text(p)[i] != '&',
        pair_text(p).len() > 0,
{
    lemma_url_round_trip(p.0);
    lemma_url_round_trip(p.1);
    let a = url_encode(p.0);
    let x = url_encode(p.1);
    let t = pair_text(p);
    lemma_first_index(a, x, '=');
    assert(t.take(a.len() as int) =~= a);
    assert(t.skip(a.len() as int + 1) =~= x);
    assert forall|i: int| 0 <= i < t.len() implies t[i] != '&' by {
        if i < a.len() {
            assert(t[i] == a[i]);
        } else if i > a.len() {
            assert(t[i] == x[i - a.len() - 1]);
        }
    }
}

/// The query of at least one parameter is not empty.
pub(crate) proof fn lemma_query_not_empty(pairs: Seq<(Seq<char>, Seq<char>)>)
    requires
        pairs.len() > 0,
    ensures
        query_string(pairs).len() > 0,
{
    if pairs.len() == 1 {
        lemma_pair_round_trip(pairs[0]);
    } else {
        lemma_pair_round_trip(pairs.last());
    }
}

/// Decoding a composed query gives back exactly the parameters it was
/// composed from, in their order.
pub proof fn lemma_query_round_trip(pairs: Seq<(Seq<char>, Seq<char>)>)
    ensures
        parse_query(query_string(pairs)) == pairs,
    decreases pairs.len(),
{
    if pairs.len() == 1 {
        let t = pair_text(pairs[0]);
        lemma_pair_round_trip(pairs[0]);
        lemma_last_index_absent(t, '&');
        assert(seq![parse_pair(t)] =~= pairs);
    } else if pairs.len() > 1 {
        let q = query_string(pairs.drop_last());
        let t = pair_text(pairs.last());
        let s = q + seq!['&'] + t;
        lemma_pair_round_trip(pairs.last());
        lemma_last_index(q, t, '&');
        lemma_query_round_trip(pairs.drop_last());
        assert(s.take(q.len() as int) =~= q);
        assert(s.skip(q.len() as int + 1) =~= t);
        assert(pairs.drop_last().push(pairs.last()) =~= pairs);
    }
}

/// Relies on `urlencoding::encode`: every byte of the UTF-8 form of `s` but
/// ASCII letters, digits and `-`, `.`, `_`, `~` becomes `%` and two
/// upper-case hexadecimal digits.
#[verifier::external_body]
fn encode_component(s: &str) -> (r: String)
    ensures
        r@ == url_encode(s@),
{
    urlencoding::encode(s).into_owned()
}

/// The query string of the entries whose key is not empty: each key and value
/// percent-encoded (a space becomes `%20`), joined as `key=value`, the pairs
/// joined by `&`.
pub fn query_string_of(entries: &Vec<KeyValueEntry>) -> (r: String)
    ensures
        r@ == query_string(non_empty_pairs(entries@)),
{
    let mut out: Vec<char> = Vec::new();
    let mut any: bool = false;
    let mut i: usize = 0;
    while i < entries.len()
        invariant
            i <= entries@.len(),
            out@ == query_string(non_empty_pairs(entries@.take(i as int))),
            any == (non_empty_pairs(entries@.take(i as int)).len() > 0),
        decreases entries@.len() - i,
    {
        let ghost before = non_empty_pairs(entries@.take(i as int));
        assert(entries@.take(i + 1).drop_last() =~= entries@.take(i as int));
        let e = &entries[i];
        if !e.key.as_str().is_empty() {
            if any {
                out.push('&');
            }
            any = true;
            let k = chars_of(encode_component(e.key.as_str()).as_str());
            let v = chars_of(encode_component(e.value.as_str()).as_str());
            append_chars(&mut out, &k);
            out.push('=');
            append_chars(&mut out, &v);
            proof {
                let after = before.push((e.key@, e.value@));
                assert(after.drop_last() =~= before);
                if before.len() == 0 {
                    assert(out@ =~= pair_text(after[0]));
                } else {
                    assert(out@ =~= query_string(before) + seq!['&'] + pair_text(after.last()));
                }
            }
        }
        i = i + 1;
    }
    assert(entries@.take(i as int) =~= entries@);
    string_of(&out)
}

} // verus!
