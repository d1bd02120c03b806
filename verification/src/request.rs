//! What clients send: the token form and the push-token body.
use vstd::prelude::*;
use crate::text::{
    blank, decimal, integer_of, law_blank_is_trimmed_away, law_decimal_reads_back,
    law_no_number_is_not_read, law_padding_is_trimmed, law_tight_is_trimmed, parse_integer, same_text, trim, trimmed,
    IntParseError,
};

verus! {

/// The form that a client posts to be given tokens.
#[derive(Debug)]
pub struct TokenRequest {
    pub grant_type: String,
    pub username: Option<String>,
    /// The hash of the master password.
    pub password: Option<String>,
    pub refresh_token: Option<String>,
    pub scope: Option<String>,
    pub client_id: Option<String>,
    pub device_identifier: Option<String>,
    pub device_name: Option<String>,
    pub device_type: Option<i32>,
    pub two_factor_token: Option<String>,
    pub two_factor_provider: Option<i32>,
    pub two_factor_remember: Option<i32>,
}

/// A token form as a value.
#[verifier::ext_equal]
pub struct TokenForm {
    pub grant_type: Seq<char>,
    pub username: Option<Seq<char>>,
    pub password: Option<Seq<char>>,
    pub refresh_token: Option<Seq<char>>,
    pub scope: Option<Seq<char>>,
    pub client_id: Option<Seq<char>>,
    pub device_identifier: Option<Seq<char>>,
    pub device_name: Option<Seq<char>>,
    pub device_type: Option<i32>,
    pub two_factor_token: Option<Seq<char>>,
    pub two_factor_provider: Option<i32>,
    pub two_factor_remember: Option<i32>,
}

/// The text that may be there, as a value.
pub open spec fn text_view(t: Option<String>) -> Option<Seq<char>> {
    match t {
        Some(s) => Some(s@),
        None => None,
    }
}

impl View for TokenRequest {
    type V = TokenForm;

    open spec fn view(&self) -> TokenForm {
        TokenForm {
            grant_type: self.grant_type@,
            username: text_view(self.username),
            password: text_view(self.password),
            refresh_token: text_view(self.refresh_token),
            scope: text_view(self.scope),
            client_id: text_view(self.client_id),
            device_identifier: text_view(self.device_identifier),
            device_name: text_view(self.device_name),
            device_type: self.device_type,
            two_factor_token: text_view(self.two_factor_token),
            two_factor_provider: self.two_factor_provider,
            two_factor_remember: self.two_factor_remember,
        }
    }
}

/// The body with which a client registers its push token.
#[derive(Debug)]
pub struct PushTokenRequest {
    pub push_token: String,
}

/// What an optional integer field of the form says: nothing where it is missing or blank, else
/// the integer that stands in it, white space around it aside.
pub open spec fn trimmed_field(field: Option<Seq<char>>) -> Result<Option<int>, IntParseError> {
    match field {
        None => Ok(None),
        Some(s) => if trimmed(s).len() == 0 {
            Ok(None)
        } else {
            match integer_of(trimmed(s), i32::MIN as int, i32::MAX as int) {
                Ok(n) => Ok(Some(n)),
                Err(e) => Err(e),
            }
        },
    }
}

/// A word for yes.
pub open spec fn truthy(s: Seq<char>) -> bool {
    s == "1"@ || s == "true"@ || s == "True"@ || s == "TRUE"@
}

/// A word for no.
pub open spec fn falsy(s: Seq<char>) -> bool {
    s == "0"@ || s == "false"@ || s == "False"@ || s == "FALSE"@
}

/// What an optional yes-or-no field of the form says: as an integer field, and the words for yes
/// and no stand for one and zero.
pub open spec fn truthy_field(field: Option<Seq<char>>) -> Result<Option<int>, IntParseError> {
    match field {
        None => Ok(None),
        Some(s) => if truthy(trimmed(s)) {
            Ok(Some(1))
        } else if falsy(trimmed(s)) {
            Ok(Some(0))
        } else {
            trimmed_field(field)
        },
    }
}

/// An executable reading of a field against the one that is meant.
pub open spec fn reads_as(
    read: Result<Option<i32>, IntParseError>,
    meant: Result<Option<int>, IntParseError>,
) -> bool {
    match (read, meant) {
        (Ok(Some(n)), Ok(Some(m))) => n == m,
        (Ok(None), Ok(None)) => true,
        (Err(e), Err(f)) => e == f,
        _ => false,
    }
}

/// Reads an optional integer field of the form.
pub fn deserialize_trimmed_i32_opt(field: Option<String>) -> (r: Result<Option<i32>, IntParseError>)
    ensures
        reads_as(r, trimmed_field(text_view(field))),
{
    match field {
        None => Ok(None),
        Some(s) => {
            let s = trim(s.as_str());
            if s.is_empty() {
                return Ok(None);
            }
            match parse_integer(s, i32::MIN as i64, i32::MAX as i64) {
                Ok(n) => Ok(Some(n as i32)),
                Err(e) => Err(e),
            }
        },
    }
}

/// Reads an optional yes-or-no field of the form.
pub fn deserialize_truthy_i32_opt(field: Option<String>) -> (r: Result<Option<i32>, IntParseError>)
    ensures
        reads_as(r, truthy_field(text_view(field))),
{
    match field {
        None => Ok(None),
        Some(text) => {
            let s = trim(text.as_str());
            if s.is_empty() {
                proof {
                    reveal_words();
                }
                return Ok(None);
            }
            if same_text(s, "1") || same_text(s, "true") || same_text(s, "True") || same_text(
                s,
                "TRUE",
            ) {
                return Ok(Some(1));
            }
            if same_text(s, "0") || same_text(s, "false") || same_text(s, "False") || same_text(
                s,
                "FALSE",
            ) {
                return Ok(Some(0));
            }
            match parse_integer(s, i32::MIN as i64, i32::MAX as i64) {
                Ok(n) => Ok(Some(n as i32)),
                Err(e) => Err(e),
            }
        },
    }
}

// ---- laws ----

/// A field of white space alone says as little as one that is missing.
pub proof fn law_blank_field_is_missing(s: Seq<char>)
    requires
        blank(s),
    ensures
        trimmed_field(Some(s)) == trimmed_field(None),
        truthy_field(Some(s)) == truthy_field(None),
        trimmed_field(None) == Ok::<Option<int>, IntParseError>(None),
        truthy_field(None) == Ok::<Option<int>, IntParseError>(None),
{
    law_blank_is_trimmed_away(s);
    reveal_words();
}

proof fn reveal_words()
    ensures
        "1"@ =~= seq!['1'],
        "0"@ =~= seq!['0'],
        "true"@.len() == 4 && "true"@[0] == 't',
        "True"@.len() == 4 && "True"@[0] == 'T',
        "TRUE"@.len() == 4 && "TRUE"@[0] == 'T',
        "false"@.len() == 5 && "false"@[0] == 'f',
        "False"@.len() == 5 && "False"@[0] == 'F',
        "FALSE"@.len() == 5 && "FALSE"@[0] == 'F',
{
    reveal_strlit("1");
    reveal_strlit("0");
    reveal_strlit("true");
    reveal_strlit("True");
    reveal_strlit("TRUE");
    reveal_strlit("false");
    reveal_strlit("False");
    reveal_strlit("FALSE");
}

/// An integer is read back from a field that it was written to, whatever white space is around
/// it.
pub proof fn law_integer_field_reads_back(a: Seq<char>, n: i32, b: Seq<char>)
    requires
        blank(a),
        blank(b),
    ensures
        trimmed_field(Some(a + decimal(n as int) + b)) == Ok::<Option<int>, IntParseError>(
            Some(n as int),
        ),
{
    law_decimal_reads_back(n as int, i32::MIN as int, i32::MAX as int);
    law_tight_is_trimmed(decimal(n as int));
    law_padding_is_trimmed(a, decimal(n as int), b);
    if decimal(n as int).len() == 0 {
        assert(integer_of(decimal(n as int), i32::MIN as int, i32::MAX as int) is Err);
    }
}

/// Where a yes-or-no field can be read as an integer field, both readings agree.
pub proof fn law_words_only_add(field: Option<Seq<char>>)
    requires
        trimmed_field(field) is Ok,
    ensures
        truthy_field(field) == trimmed_field(field),
{
    reveal_words();
    if let Some(s) = field {
        let t = trimmed(s);
        reveal_with_fuel(crate::text::digits_value, 2);
        reveal_with_fuel(crate::text::leading_digits, 2);
        if t == "1"@ || t == "0"@ {
            assert(t.take(1) =~= t);
            assert(t.drop_last() =~= Seq::<char>::empty());
        }
    }
}

/// A field that is not blank is the integer that it writes, white space around it aside, in the range
/// of its type, or is refused for the reason that it is none; a yes-or-no field likewise, unless it
/// is a word for yes or no.
pub proof fn law_field_is_its_integer(s: Seq<char>)
    requires
        !blank(s),
    ensures
        match integer_of(trimmed(s), -2147483648, 2147483647) {
            Ok(n) => trimmed_field(Some(s)) == Ok::<Option<int>, IntParseError>(Some(n)),
            Err(e) => trimmed_field(Some(s)) == Err::<Option<int>, IntParseError>(e),
        },
        trimmed(s) != "true"@ && trimmed(s) != "True"@ && trimmed(s) != "TRUE"@ && trimmed(s)
            != "false"@ && trimmed(s) != "False"@ && trimmed(s) != "FALSE"@ ==> truthy_field(Some(s))
            == trimmed_field(Some(s)),
{
    law_blank_is_trimmed_away(s);
    reveal_words();
    let t = trimmed(s);
    reveal_with_fuel(crate::text::digits_value, 2);
    reveal_with_fuel(crate::text::leading_digits, 2);
    if t == "1"@ || t == "0"@ {
        assert(t.take(1) =~= t);
        assert(t.drop_last() =~= Seq::<char>::empty());
    }
}

/// The words for yes and no, in any of three spellings and with white space around them, stand for
/// one and zero in a yes-or-no field; an integer field refuses them.
pub proof fn law_words_are_one_and_zero(a: Seq<char>, word: Seq<char>, b: Seq<char>)
    requires
        blank(a),
        blank(b),
        word == "true"@ || word == "True"@ || word == "TRUE"@ || word == "false"@ || word
            == "False"@ || word == "FALSE"@,
    ensures
        truthy_field(Some(a + word + b)) == Ok::<Option<int>, IntParseError>(
            Some(
                if word.len() == 4 {
                    1int
                } else {
                    0int
                },
            ),
        ),
        trimmed_field(Some(a + word + b)) == Err::<Option<int>, IntParseError>(
            IntParseError::InvalidDigit,
        ),
{
    reveal_words();
    reveal_strlit("true");
    reveal_strlit("True");
    reveal_strlit("TRUE");
    reveal_strlit("false");
    reveal_strlit("False");
    reveal_strlit("FALSE");
    assert("true"@.last() == 'e' && "True"@.last() == 'e' && "TRUE"@.last() == 'E' && "false"@.last()
        == 'e' && "False"@.last() == 'e' && "FALSE"@.last() == 'E');
    law_padding_is_trimmed(a, word, b);
    law_tight_is_trimmed(word);
    assert(word =~= Seq::<char>::empty().push(word[0]) + word.skip(1));
    assert(crate::text::digits_value(Seq::empty()) == 0);
    law_no_number_is_not_read(
        Seq::empty(),
        word[0],
        word.skip(1),
        i32::MIN as int,
        i32::MAX as int,
    );
}

/// A text that is there is itself, empty or not; and one that is not there is none.
pub proof fn law_text_is_taken_whole(s: String)
    ensures
        text_view(Some(s)) == Some(s@),
        text_view(None) is None,
{
}

/// A form is taken field by field, as it came.
pub proof fn law_form_is_taken_whole(request: TokenRequest)
    ensures
        request@.grant_type == request.grant_type@,
        request@.username == text_view(request.username),
        request@.password == text_view(request.password),
        request@.refresh_token == text_view(request.refresh_token),
        request@.scope == text_view(request.scope),
        request@.client_id == text_view(request.client_id),
        request@.device_identifier == text_view(request.device_identifier),
        request@.device_name == text_view(request.device_name),
        request@.device_type == request.device_type,
        request@.two_factor_token == text_view(request.two_factor_token),
        request@.two_factor_provider == request.two_factor_provider,
        request@.two_factor_remember == request.two_factor_remember,
{
}

/// A field that was read has the value that is meant, and a refusal the reason that is meant.
pub proof fn law_reading_is_exact(
    read: Result<Option<i32>, IntParseError>,
    meant: Result<Option<int>, IntParseError>,
)
    requires
        reads_as(read, meant),
    ensures
        match read {
            Ok(Some(n)) => meant == Ok::<Option<int>, IntParseError>(Some(n as int)),
            Ok(None) => meant == Ok::<Option<int>, IntParseError>(None),
            Err(e) => meant == Err::<Option<int>, IntParseError>(e),
        },
{
}

} // verus!
