//! Header fields and cookies.
use vstd::prelude::*;
use vstd::utf8::{encode_scalar, encode_utf8, leading_byte_width_1};
use axum::http::header::{InvalidHeaderValue, ToStrError};
use axum::http::{HeaderMap, HeaderValue};
use crate::error::{AppError, Failure};
use crate::request::text_view;
use crate::text::{
    blank, decimal, decimal_text, find_char, integer_of, law_decimal_is_digits,
    law_decimal_reads_back, law_padding_is_trimmed, law_pieces_of_joined, law_tight_is_trimmed,
    law_unseparated_is_one_piece, lemma_decimal_is_printable, lemma_first_index, parse_integer, pieces, prefix, same_text, suffix, tight, trim, trimmed, white_space,
};

verus! {

broadcast use vstd::string::group_string_axioms;

// ---- what is trusted of the http crate ----

#[verifier::external_type_specification]
#[verifier::external_body]
#[verifier::reject_recursive_types(T)]
pub struct ExHeaderMap<T>(axum::http::HeaderMap<T>);

#[verifier::external_type_specification]
#[verifier::external_body]
pub struct ExHeaderValue(axum::http::HeaderValue);

#[verifier::external_type_specification]
#[verifier::external_body]
pub struct ExToStrError(axum::http::header::ToStrError);

#[verifier::external_type_specification]
#[verifier::external_body]
pub struct ExInvalidHeaderValue(axum::http::header::InvalidHeaderValue);

/// What a header map holds: under each name, as the map files it, its values in the order in which
/// they came. Names are in lower case. One may hold a double quote, where it was made by
/// `HeaderName::from_static`; and one of more than 64 bytes may hold NUL, where a text that is no
/// name was filed as one.
pub uninterp spec fn header_values(headers: HeaderMap) -> Map<Seq<char>, Seq<Seq<u8>>>;

/// The bytes that a header value holds.
pub uninterp spec fn header_bytes(value: HeaderValue) -> Seq<u8>;

/// A letter in lower case; anything else as it is.
pub open spec fn ascii_lower(c: char) -> char {
    if 'A' <= c <= 'Z' {
        (c as int + 32) as char
    } else {
        c
    }
}

/// A byte that a field's name is written with, capital letters aside.
pub open spec fn name_byte(b: u8) -> bool {
    ||| b == '!' as u8
    ||| '#' as u8 <= b <= '\'' as u8
    ||| b == '*' as u8
    ||| b == '+' as u8
    ||| b == '-' as u8
    ||| b == '.' as u8
    ||| '0' as u8 <= b <= '9' as u8
    ||| '^' as u8 <= b <= 'z' as u8
    ||| b == '|' as u8
    ||| b == '~' as u8
}

/// What a byte of a name counts as when a field is looked for: a letter as it is in lower case, any
/// other byte of names as itself, and a byte that no name is written with as NUL.
pub open spec fn name_char(b: u8) -> char {
    if 'A' as u8 <= b <= 'Z' as u8 {
        (b + 32) as char
    } else if name_byte(b) {
        b as char
    } else {
        '\0'
    }
}

/// The name under which a field is looked for. NUL stands in it for what no name is written with;
/// so a name with a double quote, a blank or a letter that is not ASCII is not found under itself.
pub open spec fn header_key(name: Seq<char>) -> Seq<char> {
    encode_utf8(name).map_values(|b: u8| name_char(b))
}

/// A byte that a header value may show as text: printable ASCII or a tab.
pub open spec fn visible_byte(b: u8) -> bool {
    32 <= b < 127 || b == 9
}

/// A byte that a header value may hold: anything but control characters, tab aside.
pub open spec fn header_byte(b: u8) -> bool {
    (32 <= b && b != 127) || b == 9
}

/// ASCII bytes as text.
pub open spec fn ascii_text(bytes: Seq<u8>) -> Seq<char> {
    bytes.map_values(|b: u8| b as char)
}

/// How many names a header map takes in for certain: up to here its table never has to outgrow
/// the largest size it can have.
pub open spec fn header_room() -> nat {
    6553
}

/// `HeaderMap::new`: a map that holds nothing.
#[verifier::external_body]
fn new_header_map() -> (headers: HeaderMap)
    ensures
        (header_values(headers) == Map::<Seq<char>, Seq<Seq<u8>>>::empty()),
{
    HeaderMap::new()
}

/// `HeaderMap::get` with a name as text: the first value under the name that is looked for, whatever
/// the case of its letters, and nothing exactly where the map holds nothing under that. Of bytes
/// that no name is written with it takes all as one: it finds nothing by a short text with such a
/// byte, since no short name holds NUL, and by a longer one what was filed by such a text.
#[verifier::external_body]
fn first_value<'a>(headers: &'a HeaderMap, name: &str) -> (value: Option<&'a HeaderValue>)
    ensures
        match value {
            Some(v) => header_values(*headers).dom().contains(header_key(name@)) && header_values(
                *headers,
            )[header_key(name@)].len() > 0 && header_bytes(*v) == header_values(*headers)[header_key(
                name@,
            )][0],
            None => !header_values(*headers).dom().contains(header_key(name@)),
        },
{
    headers.get(name)
}

/// The values filed under a name, none where there are none.
pub open spec fn values_under(
    headers: Map<Seq<char>, Seq<Seq<u8>>>,
    name: Seq<char>,
) -> Seq<Seq<u8>> {
    if headers.dom().contains(name) {
        headers[name]
    } else {
        Seq::empty()
    }
}

/// A map with one more `Set-Cookie` value, after those that it has.
pub open spec fn with_set_cookie(
    headers: Map<Seq<char>, Seq<Seq<u8>>>,
    bytes: Seq<u8>,
) -> Map<Seq<char>, Seq<Seq<u8>>> {
    headers.insert("set-cookie"@, values_under(headers, "set-cookie"@).push(bytes))
}

/// `HeaderMap::append` under the name `set-cookie`: the value comes after those already there,
/// and nothing else changes. It panics where the map's table would outgrow its largest size,
/// which the precondition leaves out.
#[verifier::external_body]
fn append_set_cookie(headers: &mut HeaderMap, value: HeaderValue)
    requires
        header_values(*old(headers)).dom().finite(),
        header_values(*old(headers)).dom().len() <= header_room(),
    ensures
        header_values(*final(headers)) == with_set_cookie(
            header_values(*old(headers)),
            header_bytes(value),
        ),
{
    headers.append(axum::http::header::SET_COOKIE, value);
}

/// `HeaderValue::to_str`: the value as text, where all its bytes are visible.
pub assume_specification[ HeaderValue::to_str ](value: &HeaderValue) -> (text: Result<
    &str,
    ToStrError,
>)
    ensures
        match text {
            Ok(s) => s@ == ascii_text(header_bytes(*value)) && (forall|i: int|
                0 <= i < header_bytes(*value).len() ==> visible_byte(
                    #[trigger] header_bytes(*value)[i],
                )),
            Err(_) => exists|i: int|
                0 <= i < header_bytes(*value).len() && !visible_byte(
                    #[trigger] header_bytes(*value)[i],
                ),
        },
;

/// `HeaderValue::from_str`: the value that holds the text's bytes, where a header value may hold
/// each of them.
pub assume_specification[ HeaderValue::from_str ](src: &str) -> (value: Result<
    HeaderValue,
    InvalidHeaderValue,
>)
    ensures
        match value {
            Ok(v) => header_bytes(v) == encode_utf8(src@) && (forall|i: int|
                0 <= i < encode_utf8(src@).len() ==> header_byte(#[trigger] encode_utf8(src@)[i])),
            Err(_) => exists|i: int|
                0 <= i < encode_utf8(src@).len() && !header_byte(#[trigger] encode_utf8(src@)[i]),
        },
;

// ---- reading ----

/// Whether all of `bytes` are visible.
pub open spec fn visible(bytes: Seq<u8>) -> bool {
    forall|i: int| 0 <= i < bytes.len() ==> visible_byte(#[trigger] bytes[i])
}

/// The first value under `name` as text; nothing where there is none or it is not visible.
pub open spec fn header_text(
    headers: Map<Seq<char>, Seq<Seq<u8>>>,
    name: Seq<char>,
) -> Option<Seq<char>> {
    let key = header_key(name);
    if headers.dom().contains(key) && visible(headers[key][0]) {
        Some(ascii_text(headers[key][0]))
    } else {
        None
    }
}

/// The first value under `name` as text.
pub fn header_str(headers: &HeaderMap, name: &str) -> (text: Option<String>)
    ensures
        text_view(text) == header_text(header_values(*headers), name@),
{
    match first_value(headers, name) {
        Some(value) => match value.to_str() {
            Ok(s) => Some(s.to_owned()),
            Err(_) => None,
        },
        None => None,
    }
}

/// The first value under `name` as an integer, white space around it aside.
pub open spec fn header_integer(
    headers: Map<Seq<char>, Seq<Seq<u8>>>,
    name: Seq<char>,
) -> Option<int> {
    match header_text(headers, name) {
        Some(s) => match integer_of(trimmed(s), i64::MIN as int, i64::MAX as int) {
            Ok(n) => Some(n),
            Err(_) => None,
        },
        None => None,
    }
}

/// The first value under `name` as an integer.
pub fn header_i64(headers: &HeaderMap, name: &str) -> (n: Option<i64>)
    ensures
        match n {
            Some(n) => header_integer(header_values(*headers), name@) == Some(n as int),
            None => header_integer(header_values(*headers), name@) is None,
        },
{
    match header_str(headers, name) {
        Some(s) => match parse_integer(trim(s.as_str()), i64::MIN, i64::MAX) {
            Ok(n) => Some(n),
            Err(_) => None,
        },
        None => None,
    }
}

// ---- cookies ----

/// The value that one piece of a cookie header gives to `name`: what stands behind its first
/// equals sign, where what stands before it is `name`, white space around each aside.
pub open spec fn cookie_in(piece: Seq<char>, name: Seq<char>) -> Option<Seq<char>> {
    let piece = trimmed(piece);
    match piece.index_of_first('=') {
        Some(i) => if trimmed(piece.take(i)) == name {
            Some(trimmed(piece.skip(i + 1)))
        } else {
            None
        },
        None => None,
    }
}

/// The value that the first of `pieces` to name it gives to `name`.
pub open spec fn cookie_among(pieces: Seq<Seq<char>>, name: Seq<char>) -> Option<Seq<char>>
    decreases pieces.len(),
{
    if pieces.len() == 0 {
        None
    } else {
        match cookie_in(pieces[0], name) {
            Some(v) => Some(v),
            None => cookie_among(pieces.skip(1), name),
        }
    }
}

/// The value that a cookie header gives to `name`.
pub open spec fn cookie_value(raw: Seq<char>, name: Seq<char>) -> Option<Seq<char>> {
    cookie_among(pieces(raw, ';'), name)
}

fn cookie_in_piece(piece: &str, name: &str) -> (value: Option<String>)
    ensures
        text_view(value) == cookie_in(piece@, name@),
{
    let piece = trim(piece);
    match find_char(piece, '=') {
        Some(i) => {
            if same_text(trim(prefix(piece, i)), name) {
                Some(trim(suffix(piece, i + 1)).to_owned())
            } else {
                None
            }
        },
        None => None,
    }
}

/// The value that the cookie header `raw` gives to `name`.
pub fn find_cookie(raw: &str, name: &str) -> (value: Option<String>)
    ensures
        text_view(value) == cookie_value(raw@, name@),
{
    let mut rest: &str = raw;
    loop
        invariant
            cookie_value(rest@, name@) == cookie_value(raw@, name@),
        decreases rest@.len(),
    {
        match find_char(rest, ';') {
            Some(i) => {
                let ghost tail = rest@.skip(i + 1);
                proof {
                    assert((seq![rest@.take(i as int)] + pieces(tail, ';'))[0] == rest@.take(
                        i as int,
                    ));
                    assert((seq![rest@.take(i as int)] + pieces(tail, ';')).skip(1) =~= pieces(
                        tail,
                        ';',
                    ));
                }
                match cookie_in_piece(prefix(rest, i), name) {
                    Some(v) => {
                        return Some(v);
                    },
                    None => {},
                }
                rest = suffix(rest, i + 1);
            },
            None => {
                proof {
                    reveal_with_fuel(cookie_among, 2);
                    assert(pieces(rest@, ';') =~= seq![rest@]);
                }
                return cookie_in_piece(rest, name);
            },
        }
    }
}

/// The cookie of a request.
pub open spec fn request_cookie(
    headers: Map<Seq<char>, Seq<Seq<u8>>>,
    name: Seq<char>,
) -> Option<Seq<char>> {
    match header_text(headers, "cookie"@) {
        Some(raw) => cookie_value(raw, name),
        None => None,
    }
}

/// The cookie `name` of a request.
pub fn get_cookie(headers: &HeaderMap, name: &str) -> (value: Option<String>)
    ensures
        text_view(value) == request_cookie(header_values(*headers), name@),
{
    match header_str(headers, "cookie") {
        Some(raw) => find_cookie(raw.as_str(), name),
        None => None,
    }
}

/// The cookie that is sent: its value, how long it lives, and that it goes back to this site
/// alone, over a secure connection, out of reach of scripts.
pub open spec fn cookie_line(name: Seq<char>, value: Seq<char>, max_age_seconds: int) -> Seq<char> {
    name + "="@ + value + "; Max-Age="@ + decimal(max_age_seconds)
        + "; Path=/; HttpOnly; Secure; SameSite=Lax"@
}

/// Whether a header value may hold `text`.
pub open spec fn sendable(text: Seq<char>) -> bool {
    forall|i: int| 0 <= i < encode_utf8(text).len() ==> header_byte(#[trigger] encode_utf8(text)[i])
}

/// Whether there is room for one more name in a header map.
pub open spec fn has_room(headers: Map<Seq<char>, Seq<Seq<u8>>>) -> bool {
    headers.dom().finite() && headers.dom().len() <= header_room()
}

/// Header fields that hold nothing.
pub fn no_headers() -> (headers: HeaderMap)
    ensures
        (header_values(headers) == Map::<Seq<char>, Seq<Seq<u8>>>::empty()),
        has_room(header_values(headers)),
{
    new_header_map()
}

/// Adds a cookie to what is sent; fails, with nothing added, where a header value cannot hold it.
pub fn set_cookie(
    headers: &mut HeaderMap,
    name: &str,
    value: &str,
    max_age_seconds: i64,
) -> (r: Result<(), AppError>)
    requires
        has_room(header_values(*old(headers))),
    ensures
        sendable(cookie_line(name@, value@, max_age_seconds as int)) ==> r is Ok && header_values(
            *final(headers),
        ) == with_set_cookie(
            header_values(*old(headers)),
            encode_utf8(cookie_line(name@, value@, max_age_seconds as int)),
        ),
        !sendable(cookie_line(name@, value@, max_age_seconds as int)) ==> (r matches Err(e) && e@
            == Failure::Internal) && *final(headers) == *old(headers),
{
    let mut cookie = name.to_owned();
    cookie.append("=");
    cookie.append(value);
    cookie.append("; Max-Age=");
    cookie.append(decimal_text(max_age_seconds).as_str());
    cookie.append("; Path=/; HttpOnly; Secure; SameSite=Lax");
    match HeaderValue::from_str(cookie.as_str()) {
        Ok(value) => {
            append_set_cookie(headers, value);
            Ok(())
        },
        Err(_) => Err(AppError::Internal),
    }
}

// ---- laws ----

proof fn lemma_key_ignores_case(name: Seq<char>)
    ensures
        header_key(name.map_values(|c: char| ascii_lower(c))) == header_key(name),
    decreases name.len(),
{
    let lower = name.map_values(|c: char| ascii_lower(c));
    if name.len() > 0 {
        let rest = name.drop_first();
        lemma_key_ignores_case(rest);
        assert(lower.drop_first() =~= rest.map_values(|c: char| ascii_lower(c)));
        let first = encode_scalar(name[0] as u32);
        let lower_first = encode_scalar(lower[0] as u32);
        assert(first.map_values(|b: u8| name_char(b)) =~= lower_first.map_values(
            |b: u8| name_char(b),
        )) by {
            if 'A' <= name[0] <= 'Z' {
                let (c, d) = (name[0] as u32, lower[0] as u32);
                assert(leading_byte_width_1(c) == c as u8 && leading_byte_width_1(d) == d as u8)
                    by (bit_vector)
                    requires
                        c < 128,
                        d < 128,
                ;
            }
        }
        assert(header_key(name) =~= first.map_values(|b: u8| name_char(b)) + header_key(rest));
        assert(header_key(lower) =~= lower_first.map_values(|b: u8| name_char(b)) + header_key(
            lower.drop_first(),
        ));
    } else {
        assert(lower =~= name);
    }
}

/// A field is found whatever the case in which its name is asked for.
pub proof fn law_lookup_ignores_case(
    headers: Map<Seq<char>, Seq<Seq<u8>>>,
    name: Seq<char>,
    other: Seq<char>,
)
    requires
        name.map_values(|c: char| ascii_lower(c)) == other.map_values(|c: char| ascii_lower(c)),
    ensures
        header_text(headers, name) == header_text(headers, other),
        header_integer(headers, name) == header_integer(headers, other),
{
    lemma_key_ignores_case(name);
    lemma_key_ignores_case(other);
}

/// No field is found by a name with a double quote, not even one that is filed under it; unless a
/// name with NUL is in the map.
pub proof fn law_quoted_name_is_not_found(headers: Map<Seq<char>, Seq<Seq<u8>>>, name: Seq<char>)
    requires
        encode_utf8(name).contains('"' as u8),
        forall|key: Seq<char>| #[trigger] headers.dom().contains(key) ==> !key.contains('\0'),
    ensures
        header_text(headers, name) is None,
        header_integer(headers, name) is None,
{
    let i = choose|i: int| 0 <= i < encode_utf8(name).len() && encode_utf8(name)[i] == '"' as u8;
    assert(header_key(name)[i] == '\0');
}

proof fn lemma_cookie_among_joined(a: Seq<Seq<char>>, b: Seq<Seq<char>>, name: Seq<char>)
    ensures
        cookie_among(a + b, name) == (match cookie_among(a, name) {
            Some(v) => Some(v),
            None => cookie_among(b, name),
        }),
    decreases a.len(),
{
    if a.len() > 0 {
        assert((a + b)[0] == a[0]);
        assert((a + b).skip(1) =~= a.skip(1) + b);
        lemma_cookie_among_joined(a.skip(1), b, name);
    } else {
        assert(a + b =~= b);
    }
}

/// Of several cookies of one name the first is read.
pub proof fn law_first_cookie_is_read(before: Seq<char>, after: Seq<char>, name: Seq<char>)
    ensures
        cookie_value(before.push(';') + after, name) == (match cookie_value(before, name) {
            Some(v) => Some(v),
            None => cookie_value(after, name),
        }),
{
    law_pieces_of_joined(before, ';', after);
    lemma_cookie_among_joined(pieces(before, ';'), pieces(after, ';'), name);
}

/// A text that can be a cookie's name: no white space at its ends, no semicolon, no equals sign.
pub open spec fn cookie_name(name: Seq<char>) -> bool {
    tight(name) && !name.contains(';') && !name.contains('=')
}

/// A text that can be a cookie's value: no white space at its ends, no semicolon.
pub open spec fn cookie_text(value: Seq<char>) -> bool {
    tight(value) && !value.contains(';')
}

/// What a client sends back of a cookie.
pub open spec fn cookie_pair(name: Seq<char>, value: Seq<char>) -> Seq<char> {
    name.push('=') + value
}

proof fn lemma_pair_splits(name: Seq<char>, value: Seq<char>)
    requires
        cookie_name(name),
        cookie_text(value),
    ensures
        trimmed(cookie_pair(name, value)) == cookie_pair(name, value),
        cookie_pair(name, value).index_of_first('=') == Some(name.len() as int),
        trimmed(cookie_pair(name, value).take(name.len() as int)) == name,
        trimmed(cookie_pair(name, value).skip(name.len() as int + 1)) == value,
{
    let pair = cookie_pair(name, value);
    assert(pair[0] == (if name.len() > 0 { name[0] } else { '=' }));
    assert(pair.last() == (if value.len() > 0 { value.last() } else { '=' }));
    law_tight_is_trimmed(pair);
    assert forall|j: int| 0 <= j < name.len() implies #[trigger] pair[j] != '=' by {
        assert(pair[j] == name[j]);
        assert(name.contains(name[j]));
    }
    lemma_first_index(pair, '=', name.len() as int);
    assert(pair.take(name.len() as int) =~= name);
    assert(pair.skip(name.len() as int + 1) =~= value);
    law_tight_is_trimmed(name);
    law_tight_is_trimmed(value);
}

proof fn lemma_pair_is_one_piece(pad: Seq<char>, name: Seq<char>, value: Seq<char>)
    requires
        blank(pad),
        cookie_name(name),
        cookie_text(value),
    ensures
        pieces(pad + cookie_pair(name, value), ';') == seq![pad + cookie_pair(name, value)],
{
    let pair = cookie_pair(name, value);
    let piece = pad + pair;
    piece.index_of_first_ensures(';');
    if piece.contains(';') {
        let k = choose|k: int| 0 <= k < piece.len() && piece[k] == ';';
        if k < pad.len() {
            assert(white_space(pad[k]));
        } else {
            let m = k - pad.len();
            assert(piece[k] == pair[m]);
            if m < name.len() {
                assert(name[m] == ';');
            } else if m > name.len() {
                assert(value[m - name.len() - 1] == ';');
            }
        }
    }
}

/// What was sent as a cookie is read back from the pair that the client sends, whatever white
/// space is before it, and a pair says nothing of other names.
pub proof fn law_cookie_reads_back(
    pad: Seq<char>,
    name: Seq<char>,
    value: Seq<char>,
    other: Seq<char>,
)
    requires
        blank(pad),
        cookie_name(name),
        cookie_text(value),
    ensures
        cookie_value(pad + cookie_pair(name, value), name) == Some(value),
        other != name ==> cookie_value(pad + cookie_pair(name, value), other) is None,
{
    let pair = cookie_pair(name, value);
    let piece = pad + pair;
    lemma_pair_is_one_piece(pad, name, value);
    reveal_with_fuel(cookie_among, 2);
    law_padding_is_trimmed(pad, pair, Seq::empty());
    assert(pad + pair + Seq::<char>::empty() =~= piece);
    lemma_pair_splits(name, value);
    if other != name {
        assert(seq![piece].skip(1) =~= Seq::<Seq<char>>::empty());
    }
}

proof fn lemma_first_piece_is_read(pieces: Seq<Seq<char>>, k: int, name: Seq<char>)
    requires
        0 <= k < pieces.len(),
        forall|j: int| 0 <= j < k ==> cookie_in(#[trigger] pieces[j], name) is None,
        cookie_in(pieces[k], name) is Some,
    ensures
        cookie_among(pieces, name) == cookie_in(pieces[k], name),
    decreases k,
{
    if k > 0 {
        assert(cookie_in(pieces[0], name) is None);
        assert forall|j: int| 0 <= j < k - 1 implies cookie_in(
            #[trigger] pieces.skip(1)[j],
            name,
        ) is None by {
            assert(pieces.skip(1)[j] == pieces[j + 1]);
        }
        assert(pieces.skip(1)[k - 1] == pieces[k]);
        lemma_first_piece_is_read(pieces.skip(1), k - 1, name);
    }
}

/// Whether a cookie header carries the cookie: one of its pieces is the pair, with white space
/// before it, and none before that one has its name.
pub open spec fn carries_cookie(raw: Seq<char>, name: Seq<char>, value: Seq<char>) -> bool {
    exists|k: int, pad: Seq<char>|
        0 <= k < pieces(raw, ';').len() && blank(pad) && #[trigger] pieces(raw, ';')[k]
            == #[trigger] (pad + cookie_pair(name, value)) && forall|j: int|
            0 <= j < k ==> cookie_in(#[trigger] pieces(raw, ';')[j], name) is None
}

/// A cookie is read back from among others.
pub proof fn law_cookie_reads_back_among_others(
    raw: Seq<char>,
    name: Seq<char>,
    value: Seq<char>,
)
    requires
        cookie_name(name),
        cookie_text(value),
        carries_cookie(raw, name, value),
    ensures
        cookie_value(raw, name) == Some(value),
{
    let all = pieces(raw, ';');
    let (k, pad) = choose|k: int, pad: Seq<char>|
        0 <= k < all.len() && blank(pad) && #[trigger] all[k] == #[trigger] (pad + cookie_pair(
            name,
            value,
        )) && forall|j: int| 0 <= j < k ==> cookie_in(#[trigger] all[j], name) is None;
    let pair = cookie_pair(name, value);
    law_padding_is_trimmed(pad, pair, Seq::empty());
    assert(pad + pair + Seq::<char>::empty() =~= pad + pair);
    lemma_pair_splits(name, value);
    law_tight_is_trimmed(pair);
    lemma_first_piece_is_read(all, k, name);
}

/// Of a cookie that is sent, what stands before the first semicolon is the pair that a client sends
/// back; so what is read is what was sent.
pub proof fn law_sent_cookie_reads_back(name: Seq<char>, value: Seq<char>, max_age_seconds: int)
    requires
        cookie_name(name),
        cookie_text(value),
    ensures
        pieces(cookie_line(name, value, max_age_seconds), ';')[0] == cookie_pair(name, value),
        cookie_value(pieces(cookie_line(name, value, max_age_seconds), ';')[0], name) == Some(value),
{
    reveal_strlit("=");
    reveal_strlit("; Max-Age=");
    let pair = cookie_pair(name, value);
    let line = cookie_line(name, value, max_age_seconds);
    lemma_pair_is_one_piece(Seq::empty(), name, value);
    assert(Seq::<char>::empty() + pair =~= pair);
    let rest = line.skip(pair.len() as int + 1);
    assert(line =~= pair.push(';') + rest) by {
        assert(name + "="@ + value =~= pair);
        assert(line[pair.len() as int] == ';');
    }
    law_pieces_of_joined(pair, ';', rest);
    law_cookie_reads_back(Seq::empty(), name, value, name);
}

/// A text of characters that can be seen, and blanks.
pub open spec fn printable(text: Seq<char>) -> bool {
    forall|i: int| 0 <= i < text.len() ==> ' ' <= #[trigger] text[i] <= '~'
}

proof fn lemma_printable_is_sendable(text: Seq<char>)
    requires
        printable(text),
    ensures
        sendable(text),
{
    vstd::utf8::is_ascii_chars_encode_utf8(text);
}

/// A cookie whose name and value can be seen can be sent.
pub proof fn law_printable_cookie_is_sendable(name: Seq<char>, value: Seq<char>, max_age: int)
    requires
        printable(name),
        printable(value),
    ensures
        sendable(cookie_line(name, value, max_age)),
{
    reveal_strlit("=");
    reveal_strlit("; Max-Age=");
    reveal_strlit("; Path=/; HttpOnly; Secure; SameSite=Lax");
    lemma_decimal_is_printable(max_age);
    let line = cookie_line(name, value, max_age);
    assert(printable("="@));
    assert(printable("; Max-Age="@));
    assert(printable("; Path=/; HttpOnly; Secure; SameSite=Lax"@));
    lemma_printable_joined(name, "="@);
    lemma_printable_joined(name + "="@, value);
    lemma_printable_joined(name + "="@ + value, "; Max-Age="@);
    lemma_printable_joined(name + "="@ + value + "; Max-Age="@, decimal(max_age));
    lemma_printable_joined(
        name + "="@ + value + "; Max-Age="@ + decimal(max_age),
        "; Path=/; HttpOnly; Secure; SameSite=Lax"@,
    );
    lemma_printable_is_sendable(line);
}

proof fn lemma_printable_joined(a: Seq<char>, b: Seq<char>)
    requires
        printable(a),
        printable(b),
    ensures
        printable(a + b),
{
    assert forall|i: int| 0 <= i < (a + b).len() implies ' ' <= #[trigger] (a + b)[i] <= '~' by {
        if i < a.len() {
            assert((a + b)[i] == a[i]);
        } else {
            assert((a + b)[i] == b[i - a.len()]);
        }
    }
}

/// A field whose first value is a text that can be seen is read as that text; one that is not there,
/// or whose first value cannot be seen, is not read, whatever other values it has.
pub proof fn law_field_reads_back(
    headers: Map<Seq<char>, Seq<Seq<u8>>>,
    name: Seq<char>,
    text: Seq<char>,
    i: int,
)
    ensures
        headers.dom().contains(header_key(name)) && headers[header_key(name)].len() > 0
            && headers[header_key(name)][0] == encode_utf8(text) && (forall|j: int|
            0 <= j < text.len() ==> ' ' <= #[trigger] text[j] <= '~' || text[j] == '\t')
            ==> header_text(headers, name) == Some(text),
        !headers.dom().contains(header_key(name)) ==> header_text(headers, name) is None,
        headers.dom().contains(header_key(name)) && 0 <= i < headers[header_key(name)][0].len()
            && !visible_byte(headers[header_key(name)][0][i]) ==> header_text(headers, name) is None,
{
    if forall|j: int|
        0 <= j < text.len() ==> ' ' <= #[trigger] text[j] <= '~' || text[j] == '\t' {
        assert(vstd::utf8::is_ascii_chars(text)) by {
            assert forall|j: int| 0 <= j < text.len() implies (#[trigger] text[j] as nat)
                < 128 by {
                assert(' ' <= text[j] <= '~' || text[j] == '\t');
            }
        }
        vstd::utf8::is_ascii_chars_encode_utf8(text);
        assert(ascii_text(encode_utf8(text)) =~= text);
        assert forall|j: int| 0 <= j < encode_utf8(text).len() implies visible_byte(
            #[trigger] encode_utf8(text)[j],
        ) by {
            assert(' ' <= text[j] <= '~' || text[j] == '\t');
        }
    }
}

/// An integer is read from a field as it was written there, with white space around it, and in any
/// other way in which it can be written; and none where the field is not there or its text is no
/// integer.
pub proof fn law_integer_reads_back(
    headers: Map<Seq<char>, Seq<Seq<u8>>>,
    name: Seq<char>,
    a: Seq<char>,
    n: i64,
    b: Seq<char>,
)
    requires
        blank(a),
        blank(b),
    ensures
        header_text(headers, name) == Some(a + decimal(n as int) + b) ==> header_integer(
            headers,
            name,
        ) == Some(n as int),
        header_text(headers, name) is None ==> header_integer(headers, name) is None,
        header_text(headers, name) matches Some(s) ==> match integer_of(
            trimmed(s),
            -0x8000000000000000,
            0x7fffffffffffffff,
        ) {
            Ok(m) => header_integer(headers, name) == Some(m),
            Err(_) => header_integer(headers, name) is None,
        },
{
    law_decimal_reads_back(n as int, i64::MIN as int, i64::MAX as int);
    law_padding_is_trimmed(a, decimal(n as int), b);
    law_tight_is_trimmed(decimal(n as int));
}

/// Whether a piece of a cookie header, white space around it aside, has its first equals sign at `i`
/// and before that, white space aside again, this name.
pub open spec fn names(piece: Seq<char>, i: int, name: Seq<char>) -> bool {
    trimmed(piece).index_of_first('=') == Some(i) && trimmed(trimmed(piece).take(i)) == name
}

/// A cookie's value is all that stands behind the first equals sign, white space around it aside, of
/// the first piece that names it; and there is none where no piece names it.
pub proof fn law_cookie_is_the_first_of_its_name(
    raw: Seq<char>,
    name: Seq<char>,
    k: int,
    i: int,
)
    ensures
        0 <= k < pieces(raw, ';').len() && names(pieces(raw, ';')[k], i, name) && (forall|
            j: int,
            l: int,
        |
            0 <= j < k ==> !(#[trigger] names(pieces(raw, ';')[j], l, name))) ==> cookie_value(
            raw,
            name,
        ) == Some(trimmed(trimmed(pieces(raw, ';')[k]).skip(i + 1))),
        (forall|j: int, l: int|
            0 <= j < pieces(raw, ';').len() ==> !(#[trigger] names(pieces(raw, ';')[j], l, name)))
            ==> cookie_value(raw, name) is None,
{
    let all = pieces(raw, ';');
    if 0 <= k < all.len() && names(all[k], i, name) && (forall|j: int, l: int|
        0 <= j < k ==> !(#[trigger] names(all[j], l, name))) {
        assert forall|j: int| 0 <= j < k implies cookie_in(#[trigger] all[j], name) is None by {
            if let Some(l) = trimmed(all[j]).index_of_first('=') {
                assert(!names(all[j], l, name));
            }
        }
        lemma_first_piece_is_read(all, k, name);
    }
    if forall|j: int, l: int|
        0 <= j < all.len() ==> !(#[trigger] names(all[j], l, name)) {
        assert forall|j: int| 0 <= j < all.len() implies cookie_in(#[trigger] all[j], name)
            is None by {
            if let Some(l) = trimmed(all[j]).index_of_first('=') {
                assert(!names(all[j], l, name));
            }
        }
        lemma_no_piece_is_read(all, name);
    }
}

proof fn lemma_no_piece_is_read(pieces: Seq<Seq<char>>, name: Seq<char>)
    requires
        forall|j: int| 0 <= j < pieces.len() ==> cookie_in(#[trigger] pieces[j], name) is None,
    ensures
        cookie_among(pieces, name) is None,
    decreases pieces.len(),
{
    if pieces.len() > 0 {
        assert(cookie_in(pieces[0], name) is None);
        assert forall|j: int| 0 <= j < pieces.len() - 1 implies cookie_in(
            #[trigger] pieces.skip(1)[j],
            name,
        ) is None by {
            assert(pieces.skip(1)[j] == pieces[j + 1]);
        }
        lemma_no_piece_is_read(pieces.skip(1), name);
    }
}

/// A request's cookie is the one in its first cookie field; there is none where that is not there.
pub proof fn law_request_cookie_is_in_its_field(
    headers: Map<Seq<char>, Seq<Seq<u8>>>,
    raw: Seq<char>,
    name: Seq<char>,
)
    ensures
        header_text(headers, "cookie"@) == Some(raw) ==> request_cookie(headers, name)
            == cookie_value(raw, name),
        header_text(headers, "cookie"@) is None ==> request_cookie(headers, name) is None,
{
}

/// A cookie is sent with the name, the value and the age that it is given, whatever they are.
pub proof fn law_cookie_is_sent_as_given(name: Seq<char>, value: Seq<char>, max_age_seconds: int)
    ensures
        cookie_line(name, value, max_age_seconds) == name + "="@ + value + ("; Max-Age="@ + decimal(
            max_age_seconds,
        ) + "; Path=/; HttpOnly; Secure; SameSite=Lax"@),
{
    assert(cookie_line(name, value, max_age_seconds) =~= name + "="@ + value + ("; Max-Age="@
        + decimal(max_age_seconds) + "; Path=/; HttpOnly; Secure; SameSite=Lax"@));
}

/// A cookie that is sent has six parts: the pair, how long it lives, and that it is for the whole
/// site, for this server alone, for secure connections alone, and not for requests from elsewhere.
pub proof fn law_sent_cookie_has_its_parts(name: Seq<char>, value: Seq<char>, max_age_seconds: int)
    requires
        !name.contains(';'),
        !value.contains(';'),
    ensures
        pieces(cookie_line(name, value, max_age_seconds), ';') == seq![
            name.push('=') + value,
            " Max-Age="@ + decimal(max_age_seconds),
            " Path=/"@,
            " HttpOnly"@,
            " Secure"@,
            " SameSite=Lax"@,
        ],
{
    reveal_strlit("=");
    reveal_strlit("; Max-Age=");
    reveal_strlit("; Path=/; HttpOnly; Secure; SameSite=Lax");
    reveal_strlit(" Max-Age=");
    reveal_strlit(" Path=/");
    reveal_strlit(" HttpOnly");
    reveal_strlit(" Secure");
    reveal_strlit(" SameSite=Lax");
    let pair = name.push('=') + value;
    let age = " Max-Age="@ + decimal(max_age_seconds);
    let e = " SameSite=Lax"@;
    let d = " Secure"@.push(';') + e;
    let c = " HttpOnly"@.push(';') + d;
    let b = " Path=/"@.push(';') + c;
    let a = age.push(';') + b;
    assert("; Path=/; HttpOnly; Secure; SameSite=Lax"@ =~= seq![';'] + b);
    assert("; Max-Age="@ =~= seq![';'] + " Max-Age="@);
    assert(cookie_line(name, value, max_age_seconds) =~= pair.push(';') + a);
    if pair.contains(';') {
        let k = choose|k: int| 0 <= k < pair.len() && pair[k] == ';';
        if k < name.len() {
            assert(name[k] == ';');
        } else if k > name.len() {
            assert(value[k - name.len() - 1] == ';');
        }
    }
    if age.contains(';') {
        let k = choose|k: int| 0 <= k < age.len() && age[k] == ';';
        if k >= " Max-Age="@.len() {
            law_decimal_is_digits(max_age_seconds);
            assert(decimal(max_age_seconds)[k - " Max-Age="@.len()] == ';');
        }
    }
    law_unseparated_is_one_piece(pair, ';');
    law_unseparated_is_one_piece(age, ';');
    law_unseparated_is_one_piece(" Path=/"@, ';');
    law_unseparated_is_one_piece(" HttpOnly"@, ';');
    law_unseparated_is_one_piece(" Secure"@, ';');
    law_unseparated_is_one_piece(e, ';');
    law_pieces_of_joined(" Secure"@, ';', e);
    law_pieces_of_joined(" HttpOnly"@, ';', d);
    law_pieces_of_joined(" Path=/"@, ';', c);
    law_pieces_of_joined(age, ';', b);
    law_pieces_of_joined(pair, ';', a);
    assert(pieces(cookie_line(name, value, max_age_seconds), ';') =~= seq![
        pair,
        age,
        " Path=/"@,
        " HttpOnly"@,
        " Secure"@,
        e,
    ]);
}

} // verus!
