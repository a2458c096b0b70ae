//! The programming interface: tokens, request identities, and errors.
use crate::json::Json;
use crate::text::{characters, decimal_text, same_text, signed_decimal_text, starts_with};
use vstd::prelude::*;
use vstd::string::*;

verus! {

/// The most bytes of a request.
pub const MAX_BODY_BYTES: usize = 1_024;

/// The most devices of an inventory.
pub const MAX_DEVICES: usize = 256;

/// The most groups of an inventory.
pub const MAX_INVENTORY_GROUPS: usize = 50;

/// The most members of a group.
pub const MAX_GROUP_MEMBERS: usize = 256;

/// The most bytes of an inventory.
pub const MAX_INVENTORY_BYTES: usize = 1_048_576;

/// Who may use the interface: nobody, or whoever has a token.
#[derive(Debug, Clone, Copy, PartialEq)]
pub enum Auth {
    Disabled,
    Enabled([u8; 32]),
}

/// The value of a lowercase hexadecimal digit.
pub open spec fn hex_value(character: char) -> Option<int> {
    if '0' <= character <= '9' {
        Some(character as int - '0' as int)
    } else if 'a' <= character <= 'f' {
        Some(character as int - 'a' as int + 10)
    } else {
        None
    }
}

fn hex(character: char) -> (value: Option<u8>)
    ensures
        match value {
            Some(value) => hex_value(character) == Some(value as int) && value < 16,
            None => hex_value(character) is None,
        },
{
    if character >= '0' && character <= '9' {
        Some((character as u32 - 48) as u8)
    } else if character >= 'a' && character <= 'f' {
        Some((character as u32 - 97 + 10) as u8)
    } else {
        None
    }
}

/// Whether a text spells a token: sixty-four lowercase hexadecimal digits.
pub open spec fn is_token(text: Seq<char>) -> bool {
    text.len() == 64 && forall|i: int| 0 <= i < 64 ==> hex_value(#[trigger] text[i]) is Some
}

/// A byte of the token that a text spells: two digits, the higher first.
pub open spec fn token_byte(text: Seq<char>, index: int) -> int {
    hex_value(text[2 * index])->0 * 16 + hex_value(text[2 * index + 1])->0
}

/// The token that a text spells.
pub fn decode_token(value: &str) -> (token: Option<[u8; 32]>)
    ensures
        match token {
            Some(token) => is_token(value@) && forall|i: int|
                0 <= i < 32 ==> #[trigger] token[i] == token_byte(value@, i),
            None => !is_token(value@),
        },
{
    let text = characters(value);
    if text.len() != 64 {
        return None;
    }
    let mut token: [u8; 32] = [0u8; 32];
    let mut index: usize = 0;
    while index < 32
        invariant
            index <= 32,
            text@ == value@,
            text@.len() == 64,
            forall|i: int| 0 <= i < 2 * index ==> hex_value(#[trigger] text@[i]) is Some,
            forall|i: int| 0 <= i < index ==> #[trigger] token[i] == token_byte(value@, i),
        decreases 32 - index,
    {
        match (hex(text[2 * index]), hex(text[2 * index + 1])) {
            (Some(high), Some(low)) => {
                token[index] = high * 16 + low;
            },
            _ => {
                proof {
                    assert(hex_value(text@[2 * index]) is None || hex_value(text@[2 * index + 1])
                        is None);
                }
                return None;
            },
        }
        index = index + 1;
    }
    Some(token)
}

/// A text that spells a token spells that token only, and another text another.
pub proof fn law_tokens_are_spelled_once(left: Seq<char>, right: Seq<char>)
    requires
        is_token(left),
        is_token(right),
        forall|i: int| 0 <= i < 32 ==> #[trigger] token_byte(left, i) == token_byte(right, i),
    ensures
        left == right,
{
    assert forall|i: int| 0 <= i < 64 implies left[i] == right[i] by {
        let index = i / 2;
        assert(token_byte(left, index) == token_byte(right, index));
        assert(hex_value(left[2 * index]) is Some && hex_value(left[2 * index + 1]) is Some);
        assert(hex_value(right[2 * index]) is Some && hex_value(right[2 * index + 1]) is Some);
        assert(i == 2 * index || i == 2 * index + 1);
    }
    assert(left =~= right);
}

/// A text without the line end that it ends with, if there is one: a line feed, with a carriage
/// return before it or without.
pub open spec fn without_line_end(text: Seq<char>) -> Seq<char> {
    let count = text.len() as int;
    if count >= 2 && text[count - 2] == '\r' && text[count - 1] == '\n' {
        text.take(count - 2)
    } else if count >= 1 && text[count - 1] == '\n' {
        text.take(count - 1)
    } else {
        text
    }
}

fn strip_line_end(text: &str) -> (result: &str)
    ensures
        result@ == without_line_end(text@),
{
    let count: usize = text.unicode_len();
    if count >= 2 && text.get_char(count - 2) == '\r' && text.get_char(count - 1) == '\n' {
        let line = text.substring_char(0, count - 2);
        assert(line@ =~= text@.take(count - 2));
        line
    } else if count >= 1 && text.get_char(count - 1) == '\n' {
        let line = text.substring_char(0, count - 1);
        assert(line@ =~= text@.take(count - 1));
        line
    } else {
        text
    }
}

impl Auth {
    /// Who may use the interface by what a file holds: a token, with at most one line end
    /// behind it.
    pub fn from_file(contents: &str) -> (auth: Result<Auth, String>)
        ensures
            ({
                let text = without_line_end(contents@);
                if is_token(text) {
                    auth matches Ok(Auth::Enabled(token)) && forall|i: int|
                        0 <= i < 32 ==> #[trigger] token[i] == token_byte(text, i)
                } else {
                    auth is Err && auth->Err_0@
                        == "PEBBLE_API_TOKEN_FILE must contain exactly 64 lowercase hex characters"@
                }
            }),
    {
        match decode_token(strip_line_end(contents)) {
            Some(token) => Ok(Auth::Enabled(token)),
            None => Err(
                "PEBBLE_API_TOKEN_FILE must contain exactly 64 lowercase hex characters".to_owned(),
            ),
        }
    }
}

proof fn lemma_difference(difference: u8, left: u8, right: u8)
    ensures
        (difference | (left ^ right) == 0) <==> (difference == 0 && left == right),
{
    assert((difference | (left ^ right) == 0) <==> (difference == 0 && left == right))
        by (bit_vector);
}

/// Whether two tokens are equal. Every byte is looked at, whatever the bytes before it.
pub fn constant_time_eq(left: &[u8; 32], right: &[u8; 32]) -> (result: bool)
    ensures
        result == (left@ == right@),
{
    let mut difference: u8 = 0;
    let mut index: usize = 0;
    while index < 32
        invariant
            index <= 32,
            (difference == 0) <==> (forall|i: int|
                0 <= i < index ==> #[trigger] left@[i] == right@[i]),
        decreases 32 - index,
    {
        proof {
            lemma_difference(difference, left@[index as int], right@[index as int]);
        }
        difference = difference | (left[index] ^ right[index]);
        index = index + 1;
    }
    proof {
        if difference == 0 {
            assert(left@ =~= right@);
        }
    }
    difference == 0
}

/// An error of the interface.
#[derive(Debug)]
pub struct ApiError {
    pub request_id: String,
    pub status: u16,
    pub code: &'static str,
    pub message: &'static str,
    pub retryable: bool,
    pub execution: &'static str,
    pub details: Option<Json>,
    pub retry_after: bool,
}

/// Whether an error came before anything was done.
pub open spec fn not_started(
    error: ApiError,
    request_id: Seq<char>,
    status: int,
    code: Seq<char>,
    message: Seq<char>,
) -> bool {
    &&& error.request_id@ == request_id
    &&& error.status == status
    &&& error.code@ == code
    &&& error.message@ == message
    &&& error.execution@ == "not_started"@
}

/// Whether an error has neither details nor a time after which to try again.
pub open spec fn bare(error: ApiError) -> bool {
    !error.retryable && error.details is None && !error.retry_after
}

/// Whether an error says that the server failed.
pub open spec fn internal_error(error: ApiError, request_id: Seq<char>) -> bool {
    bare(error) && not_started(
        error,
        request_id,
        500,
        "internal_error"@,
        "The server could not complete the request."@,
    )
}

impl ApiError {
    /// An error that came before anything was done.
    pub fn new(
        request_id: &str,
        status: u16,
        code: &'static str,
        message: &'static str,
        retryable: bool,
    ) -> (error: ApiError)
        ensures
            not_started(error, request_id@, status as int, code@, message@),
            error.retryable == retryable,
            error.details is None,
            !error.retry_after,
    {
        ApiError {
            request_id: request_id.to_owned(),
            status,
            code,
            message,
            retryable,
            execution: "not_started",
            details: None,
            retry_after: false,
        }
    }

    /// The server failed before anything was done.
    pub fn internal(request_id: &str) -> (error: ApiError)
        ensures
            internal_error(error, request_id@),
    {
        ApiError::new(
            request_id,
            500,
            "internal_error",
            "The server could not complete the request.",
            false,
        )
    }

    /// The server failed when something may have been done.
    pub fn internal_may_have_run(request_id: &str) -> (error: ApiError)
        ensures
            bare(error),
            error.request_id@ == request_id@,
            error.status == 500,
            error.code@ == "internal_error"@,
            error.message@ == "The server could not complete the request."@,
            error.execution@ == "may_have_run"@,
    {
        let mut error = ApiError::internal(request_id);
        error.execution = "may_have_run";
        error
    }

    /// There is no such device.
    pub fn device_not_found(request_id: &str) -> (error: ApiError)
        ensures
            bare(error),
            not_started(
                error,
                request_id@,
                404,
                "device_not_found"@,
                "The requested device was not found."@,
            ),
    {
        ApiError::new(
            request_id,
            404,
            "device_not_found",
            "The requested device was not found.",
            false,
        )
    }

    /// There is no such group.
    pub fn group_not_found(request_id: &str) -> (error: ApiError)
        ensures
            bare(error),
            not_started(
                error,
                request_id@,
                404,
                "group_not_found"@,
                "The requested group was not found."@,
            ),
    {
        ApiError::new(
            request_id,
            404,
            "group_not_found",
            "The requested group was not found.",
            false,
        )
    }

    /// There is nothing at this path.
    pub fn route_not_found(request_id: &str) -> (error: ApiError)
        ensures
            bare(error),
            not_started(
                error,
                request_id@,
                404,
                "invalid_request"@,
                "The requested API route was not found."@,
            ),
    {
        ApiError::new(
            request_id,
            404,
            "invalid_request",
            "The requested API route was not found.",
            false,
        )
    }

    /// The request is longer than it may be.
    pub fn body_too_large(request_id: &str) -> (error: ApiError)
        ensures
            bare(error),
            not_started(
                error,
                request_id@,
                400,
                "invalid_request"@,
                "The request body exceeds 1024 bytes."@,
            ),
    {
        ApiError::new(
            request_id,
            400,
            "invalid_request",
            "The request body exceeds 1024 bytes.",
            false,
        )
    }

    /// The request does not say what it should.
    pub fn invalid_json(request_id: &str) -> (error: ApiError)
        ensures
            bare(error),
            not_started(
                error,
                request_id@,
                400,
                "invalid_json"@,
                "The request body is not valid for this operation."@,
            ),
    {
        ApiError::new(
            request_id,
            400,
            "invalid_json",
            "The request body is not valid for this operation.",
            false,
        )
    }

    /// Another operation is in progress; it pays to try again.
    pub fn busy(request_id: &str) -> (error: ApiError)
        ensures
            not_started(
                error,
                request_id@,
                429,
                "busy"@,
                "Another Pebble API operation is in progress."@,
            ),
            error.retryable,
            error.retry_after,
            error.details is None,
    {
        let mut error = ApiError::new(
            request_id,
            429,
            "busy",
            "Another Pebble API operation is in progress.",
            true,
        );
        error.retry_after = true;
        error
    }

    /// The document that an error is answered with.
    pub fn body(self) -> (document: Json)
        ensures
            document.tree() == error_tree(self),
    {
        let ghost shown = self.details;
        let details = match self.details {
            Some(details) => details,
            None => Json::Null,
        };
        let error = Json::empty().with("code", Json::text(self.code)).with("details", details).with(
            "execution",
            Json::text(self.execution),
        ).with("message", Json::text(self.message)).with("retryable", Json::Bool(self.retryable));
        let document = Json::empty().with("error", error).with(
            "request_id",
            Json::text(self.request_id.as_str()),
        );
        proof {
            assert(error.tree()->Object_0 =~= seq![
                ("code"@, crate::json::Tree::Text(self.code@)),
                ("details"@, optional_tree(shown)),
                ("execution"@, crate::json::Tree::Text(self.execution@)),
                ("message"@, crate::json::Tree::Text(self.message@)),
                ("retryable"@, crate::json::Tree::Bool(self.retryable)),
            ]);
            assert(document.tree()->Object_0 =~= seq![
                ("error"@, error.tree()),
                ("request_id"@, crate::json::Tree::Text(self.request_id@)),
            ]);
        }
        document
    }
}

/// A document that may be missing.
pub open spec fn optional_tree(document: Option<Json>) -> crate::json::Tree {
    match document {
        Some(document) => document.tree(),
        None => crate::json::Tree::Null,
    }
}

/// The document that an error is answered with.
pub open spec fn error_tree(error: ApiError) -> crate::json::Tree {
    crate::json::Tree::Object(
        seq![
            (
                "error"@,
                crate::json::Tree::Object(
                    seq![
                        ("code"@, crate::json::Tree::Text(error.code@)),
                        ("details"@, optional_tree(error.details)),
                        ("execution"@, crate::json::Tree::Text(error.execution@)),
                        ("message"@, crate::json::Tree::Text(error.message@)),
                        ("retryable"@, crate::json::Tree::Bool(error.retryable)),
                    ],
                ),
            ),
            ("request_id"@, crate::json::Tree::Text(error.request_id@)),
        ],
    )
}

/// The token that a header brings, if it brings one.
pub open spec fn supplied_token(header: Option<Seq<char>>) -> Option<Seq<char>> {
    match header {
        Some(value) => if crate::text::begins(value, "Bearer "@) && is_token(
            value.skip("Bearer "@.len() as int),
        ) {
            Some(value.skip("Bearer "@.len() as int))
        } else {
            None
        },
        None => None,
    }
}

/// Whether a header brings a token.
pub open spec fn brings(header: Option<Seq<char>>, token: [u8; 32]) -> bool {
    match supplied_token(header) {
        Some(text) => forall|i: int| 0 <= i < 32 ==> #[trigger] token[i] == token_byte(text, i),
        None => false,
    }
}

/// The characters of a text that may be missing.
pub open spec fn optional_text(text: Option<&str>) -> Option<Seq<char>> {
    match text {
        Some(text) => Some(text@),
        None => None,
    }
}

/// Lets a request pass that brings the token.
pub fn authorize(auth: &Auth, header: Option<&str>, request_id: &str) -> (result: Result<
    (),
    ApiError,
>)
    ensures
        match *auth {
            Auth::Disabled => result is Err && bare(result->Err_0) && not_started(
                result->Err_0,
                request_id@,
                503,
                "api_disabled"@,
                "The Pebble API is not configured."@,
            ),
            Auth::Enabled(expected) => if brings(optional_text(header), expected) {
                result is Ok
            } else {
                result is Err && bare(result->Err_0) && not_started(
                    result->Err_0,
                    request_id@,
                    401,
                    "unauthorized"@,
                    "A valid Bearer token is required."@,
                )
            },
        },
{
    let expected = match auth {
        Auth::Disabled => return Err(
            ApiError::new(
                request_id,
                503,
                "api_disabled",
                "The Pebble API is not configured.",
                false,
            ),
        ),
        Auth::Enabled(expected) => expected,
    };
    let mut valid = false;
    if let Some(value) = header {
        let prefix = "Bearer ";
        if starts_with(value, prefix) {
            let rest = value.substring_char(prefix.unicode_len(), value.unicode_len());
            proof {
                assert(rest@ =~= value@.skip("Bearer "@.len() as int));
            }
            if let Some(supplied) = decode_token(rest) {
                valid = constant_time_eq(expected, &supplied);
                proof {
                    if !valid && brings(optional_text(header), *expected) {
                        assert(expected@ =~= supplied@);
                    }
                }
            }
        }
    }
    if valid {
        Ok(())
    } else {
        Err(
            ApiError::new(
                request_id,
                401,
                "unauthorized",
                "A valid Bearer token is required.",
                false,
            ),
        )
    }
}

/// Whether a character may stand in the identity of a request.
pub open spec fn id_character(character: char) -> bool {
    ||| 'a' <= character <= 'z'
    ||| 'A' <= character <= 'Z'
    ||| '0' <= character <= '9'
    ||| character == '-'
    ||| character == '_'
}

/// Whether a caller may choose this identity for a request.
pub open spec fn valid_id(text: Seq<char>) -> bool {
    0 < text.len() <= 64 && forall|i: int| 0 <= i < text.len() ==> id_character(#[trigger] text[i])
}

/// Whether a caller may choose this identity for a request.
pub fn is_request_id(value: &str) -> (result: bool)
    ensures
        result == valid_id(value@),
{
    let text = characters(value);
    if text.len() == 0 || text.len() > 64 {
        return false;
    }
    let mut index: usize = 0;
    while index < text.len()
        invariant
            index <= text@.len(),
            text@ == value@,
            forall|i: int| 0 <= i < index ==> id_character(#[trigger] text@[i]),
        decreases text@.len() - index,
    {
        let character = text[index];
        let letter = (character >= 'a' && character <= 'z') || (character >= 'A' && character
            <= 'Z');
        let digit = character >= '0' && character <= '9';
        if !(letter || digit || character == '-' || character == '_') {
            return false;
        }
        index = index + 1;
    }
    true
}

/// The identity that the server gives to a request: the time, and a number that it counts.
pub open spec fn made_id(timestamp: i64, number: u64) -> Seq<char> {
    "srv-"@ + crate::text::signed_decimal(timestamp as int) + "-"@ + crate::text::decimal(
        number as nat,
    )
}

/// The identity that the server gives to a request: the time, and a number that it counts.
pub fn generated_request_id(timestamp: i64, number: u64) -> (id: String)
    ensures
        id@ == made_id(timestamp, number),
{
    let mut id = "srv-".to_owned();
    id.append(signed_decimal_text(timestamp).as_str());
    id.append("-");
    id.append(decimal_text(number).as_str());
    id
}

/// The identity of a request: the caller's, where it is one that a caller may choose, and else
/// one that the server makes.
pub fn request_id(supplied: Option<&str>, now: i64, number: u64) -> (id: String)
    ensures
        id@ == match supplied {
            Some(text) if valid_id(text@) => text@,
            _ => made_id(now, number),
        },
        valid_id(id@),
{
    proof {
        law_generated_identities_are_valid(now, number);
    }
    match supplied {
        Some(text) => {
            if is_request_id(text) {
                return text.to_owned();
            }
        },
        None => {},
    }
    generated_request_id(now, number)
}

/// Identities that the server makes with different numbers differ, whatever the time.
pub proof fn law_generated_identities_differ(
    timestamp: i64,
    number: u64,
    other_timestamp: i64,
    other_number: u64,
)
    requires
        number != other_number,
    ensures
        made_id(timestamp, number) != made_id(other_timestamp, other_number),
{
    crate::text::law_numeral_spells_number(number as nat);
    crate::text::law_numeral_spells_number(other_number as nat);
    lemma_made_id_end(timestamp, number);
    lemma_made_id_end(other_timestamp, other_number);
    if made_id(timestamp, number) == made_id(other_timestamp, other_number) {
        let left = crate::text::decimal(number as nat);
        let right = crate::text::decimal(other_number as nat);
        if left.len() <= right.len() {
            lemma_numbers_behind_dashes(made_id(timestamp, number), left, right);
        } else {
            lemma_numbers_behind_dashes(made_id(timestamp, number), right, left);
        }
    }
}

proof fn lemma_made_id_end(timestamp: i64, number: u64)
    ensures
        ({
            let text = made_id(timestamp, number);
            let digits = crate::text::decimal(number as nat);
            &&& digits.len() < text.len()
            &&& text.skip(text.len() - digits.len()) == digits
            &&& text[text.len() - digits.len() - 1] == '-'
        }),
{
    reveal_strlit("-");
    let text = made_id(timestamp, number);
    let digits = crate::text::decimal(number as nat);
    assert(text.skip(text.len() - digits.len()) =~= digits);
}

proof fn lemma_numbers_behind_dashes(text: Seq<char>, left: Seq<char>, right: Seq<char>)
    requires
        crate::text::all_digits(left),
        crate::text::all_digits(right),
        left.len() <= right.len() < text.len(),
        text.skip(text.len() - left.len()) == left,
        text.skip(text.len() - right.len()) == right,
        text[text.len() - left.len() - 1] == '-',
    ensures
        left == right,
{
    if left.len() < right.len() {
        let place = right.len() - left.len() - 1;
        assert(right[place] == text.skip(text.len() - right.len())[place]);
        assert(crate::text::is_digit(right[place]));
    }
}

/// What the server calls a request is an identity that a caller may choose too.
pub proof fn law_generated_identities_are_valid(timestamp: i64, number: u64)
    ensures
        valid_id(made_id(timestamp, number)),
{
    reveal_strlit("srv-");
    reveal_strlit("-");
    let time = crate::text::signed_decimal(timestamp as int);
    let count = crate::text::decimal(number as nat);
    let magnitude = if timestamp < 0 {
        (-timestamp) as nat
    } else {
        timestamp as nat
    };
    assert(crate::text::power_of_ten(20) == 100_000_000_000_000_000_000) by {
        reveal_with_fuel(crate::text::power_of_ten, 21);
    }
    crate::text::lemma_numeral_length(magnitude, 20);
    crate::text::lemma_numeral_length(number as nat, 20);
    crate::text::law_numeral_spells_number(magnitude);
    crate::text::law_numeral_spells_number(number as nat);
    assert forall|i: int| 0 <= i < time.len() implies id_character(#[trigger] time[i]) by {
        let digits = crate::text::decimal(magnitude);
        if timestamp < 0 {
            if i > 0 {
                assert(time[i] == digits[i - 1]);
                assert(crate::text::is_digit(digits[i - 1]));
            }
        } else {
            assert(crate::text::is_digit(digits[i]));
        }
    }
    assert forall|i: int| 0 <= i < count.len() implies id_character(#[trigger] count[i]) by {
        assert(crate::text::is_digit(count[i]));
    }
}

/// The text before the first semicolon.
pub open spec fn before_semicolon(text: Seq<char>) -> Seq<char>
    decreases text.len(),
{
    if text.len() == 0 || text[0] == ';' {
        seq![]
    } else {
        seq![text[0]] + before_semicolon(text.drop_first())
    }
}

/// Refuses a request that is not said to be a JSON document.
pub fn require_json(content_type: Option<&str>, request_id: &str) -> (result: Result<(), ApiError>)
    ensures
        if content_type is Some && before_semicolon(content_type->0@) == "application/json"@ {
            result is Ok
        } else {
            result is Err && bare(result->Err_0) && not_started(
                result->Err_0,
                request_id@,
                400,
                "invalid_request"@,
                "Content-Type must be application/json."@,
            )
        },
{
    if let Some(value) = content_type {
        let text = characters(value);
        let mut index: usize = 0;
        proof {
            assert(value@.skip(0) =~= value@);
            assert(value@.take(0) + before_semicolon(value@.skip(0)) =~= before_semicolon(value@));
        }
        while index < text.len() && text[index] != ';'
            invariant
                index <= text@.len(),
                text@ == value@,
                before_semicolon(value@) == value@.take(index as int) + before_semicolon(
                    value@.skip(index as int),
                ),
            decreases text@.len() - index,
        {
            proof {
                assert(value@.skip(index as int).drop_first() =~= value@.skip(index + 1));
                assert(value@.take(index + 1) + before_semicolon(value@.skip(index + 1))
                    =~= value@.take(index as int) + before_semicolon(value@.skip(index as int)));
            }
            index = index + 1;
        }
        let kind = value.substring_char(0, index);
        proof {
            assert(kind@ =~= value@.take(index as int));
            assert(kind@ + seq![] =~= kind@);
            assert(before_semicolon(value@.skip(index as int)) =~= seq![]);
        }
        if same_text(kind, "application/json") {
            return Ok(());
        }
    }
    Err(
        ApiError::new(
            request_id,
            400,
            "invalid_request",
            "Content-Type must be application/json.",
            false,
        ),
    )
}

/// What the interface says of itself.
pub open spec fn info_tree() -> crate::json::Tree {
    crate::json::Tree::Object(
        seq![
            ("api_version"@, crate::json::natural(1)),
            (
                "features"@,
                crate::json::Tree::Object(
                    seq![
                        ("device_brightness"@, crate::json::Tree::Bool(true)),
                        ("device_relay"@, crate::json::Tree::Bool(true)),
                        ("group_brightness"@, crate::json::Tree::Bool(false)),
                        ("group_relay"@, crate::json::Tree::Bool(true)),
                    ],
                ),
            ),
            (
                "limits"@,
                crate::json::Tree::Object(
                    seq![
                        ("brightness_max"@, crate::json::natural(100)),
                        ("brightness_min"@, crate::json::natural(1)),
                        ("devices"@, crate::json::natural(MAX_DEVICES as int)),
                        ("group_members"@, crate::json::natural(MAX_GROUP_MEMBERS as int)),
                        ("groups"@, crate::json::natural(MAX_INVENTORY_GROUPS as int)),
                        ("inventory_bytes"@, crate::json::natural(MAX_INVENTORY_BYTES as int)),
                    ],
                ),
            ),
            ("name"@, crate::json::Tree::Text("Smart Home"@)),
        ],
    )
}

/// What the interface says of itself: its version, what it can do, and its limits.
pub fn info() -> (document: Json)
    ensures
        document.tree() == info_tree(),
{
    let features = Json::empty().with("device_brightness", Json::Bool(true)).with(
        "device_relay",
        Json::Bool(true),
    ).with("group_brightness", Json::Bool(false)).with("group_relay", Json::Bool(true));
    let limits = Json::empty().with("brightness_max", Json::unsigned(100)).with(
        "brightness_min",
        Json::unsigned(1),
    ).with("devices", Json::unsigned(MAX_DEVICES as u64)).with(
        "group_members",
        Json::unsigned(MAX_GROUP_MEMBERS as u64),
    ).with("groups", Json::unsigned(MAX_INVENTORY_GROUPS as u64)).with(
        "inventory_bytes",
        Json::unsigned(MAX_INVENTORY_BYTES as u64),
    );
    let document = Json::empty().with("api_version", Json::unsigned(1)).with(
        "features",
        features,
    ).with("limits", limits).with("name", Json::text("Smart Home"));
    proof {
        assert(features.tree()->Object_0 =~= info_tree()->Object_0[1].1->Object_0);
        assert(limits.tree()->Object_0 =~= info_tree()->Object_0[2].1->Object_0);
        assert(document.tree()->Object_0 =~= info_tree()->Object_0);
    }
    document
}

/// The brightness that was asked for, from one to a hundred.
pub fn requested_brightness(value: i64, request_id: &str) -> (result: Result<u8, ApiError>)
    ensures
        if 1 <= value <= 100 {
            result is Ok && result->Ok_0 == value
        } else {
            result is Err && not_started(
                result->Err_0,
                request_id@,
                422,
                "invalid_brightness"@,
                "Brightness must be an integer from 1 through 100."@,
            ) && !result->Err_0.retryable && !result->Err_0.retry_after && names_field(
                result->Err_0,
            )
        },
{
    if value < 1 || value > 100 {
        let mut error = ApiError::new(
            request_id,
            422,
            "invalid_brightness",
            "Brightness must be an integer from 1 through 100.",
            false,
        );
        error.details = Some(brightness_field());
        return Err(error);
    }
    Ok(value as u8)
}

/// Whether an error names the field of the brightness.
pub open spec fn names_field(error: ApiError) -> bool {
    error.details is Some && error.details->0.tree() == crate::json::Tree::Object(
        seq![("field"@, crate::json::Tree::Text("brightness"@))],
    )
}

/// The field of the brightness, as the details of an error.
pub fn brightness_field() -> (details: Json)
    ensures
        details.tree() == crate::json::Tree::Object(
            seq![("field"@, crate::json::Tree::Text("brightness"@))],
        ),
{
    Json::empty().with("field", Json::text("brightness"))
}

/// Whether a character is the lowercase hexadecimal digit of a value below sixteen.
pub open spec fn spells_digit(character: char, value: int) -> bool {
    ||| 0 <= value < 10 && character as int == 48 + value
    ||| 10 <= value < 16 && character as int == 87 + value
}

/// Whether characters spell a token in hexadecimal digits, the higher digit of each byte first.
pub open spec fn spells_token(text: Seq<char>, token: [u8; 32]) -> bool {
    &&& text.len() == 64
    &&& forall|i: int|
        0 <= i < 32 ==> spells_digit(text[2 * i], (#[trigger] token[i]) as int / 16)
            && spells_digit(text[2 * i + 1], token[i] as int % 16)
}

proof fn lemma_spells_token(text: Seq<char>, token: [u8; 32])
    ensures
        is_token(text) && (forall|i: int| 0 <= i < 32 ==> #[trigger] token[i] == token_byte(text, i))
            <==> spells_token(text, token),
{
    if is_token(text) && (forall|i: int|
        0 <= i < 32 ==> #[trigger] token[i] == token_byte(text, i)) {
        assert forall|i: int| 0 <= i < 32 implies spells_digit(
            text[2 * i],
            (#[trigger] token[i]) as int / 16,
        ) && spells_digit(text[2 * i + 1], token[i] as int % 16) by {
            assert(hex_value(text[2 * i]) is Some);
            assert(hex_value(text[2 * i + 1]) is Some);
            assert(token[i] == token_byte(text, i));
        }
    }
    if spells_token(text, token) {
        assert forall|j: int| 0 <= j < 64 implies hex_value(#[trigger] text[j]) is Some by {
            let i = j / 2;
            let byte = token[i];
            assert(spells_digit(text[2 * i], token[i] as int / 16));
            assert(j == 2 * i || j == 2 * i + 1);
        }
        assert forall|i: int| 0 <= i < 32 implies #[trigger] token[i] == token_byte(text, i) by {
            let byte = token[i];
        }
    }
}

/// A request passes exactly where its header is the word for a bearer, a space, and the token in
/// lowercase hexadecimal digits.
pub proof fn law_only_the_token_passes(
    header: Option<Seq<char>>,
    token: [u8; 32],
    digits: Seq<char>,
)
    ensures
        brings(header, token) ==> header is Some && header->0 == "Bearer "@ + header->0.skip(7)
            && spells_token(header->0.skip(7), token),
        spells_token(digits, token) ==> brings(Some("Bearer "@ + digits), token),
{
    reveal_strlit("Bearer ");
    assert("Bearer "@.len() == 7);
    if brings(header, token) {
        let value = header->0;
        lemma_spells_token(value.skip(7), token);
        assert(value =~= "Bearer "@ + value.skip(7));
    }
    if spells_token(digits, token) {
        let value = "Bearer "@ + digits;
        lemma_spells_token(digits, token);
        assert(value.skip(7) =~= digits);
        assert(value.take(7) =~= "Bearer "@);
    }
}

/// A line is read without its end, whichever end it has, and nothing else is taken from it.
pub proof fn law_one_line_end_is_taken(text: Seq<char>)
    requires
        text.len() > 0 ==> text.last() != '\n' && text.last() != '\r',
    ensures
        without_line_end(text) == text,
        without_line_end(text.push('\n')) == text,
        without_line_end(text.push('\r').push('\n')) == text,
        without_line_end(text.push('\n').push('\n')) == text.push('\n'),
{
    assert(text.push('\n').take(text.len() as int) =~= text);
    assert(text.push('\r').push('\n').take(text.len() as int) =~= text);
    assert(text.push('\n').push('\n').take(text.len() as int + 1) =~= text.push('\n'));
}

/// The kind of a document is what stands before the first semicolon.
pub proof fn law_kinds_end_at_the_semicolon(kind: Seq<char>, rest: Seq<char>)
    requires
        forall|i: int| 0 <= i < kind.len() ==> #[trigger] kind[i] != ';',
    ensures
        before_semicolon(kind) == kind,
        before_semicolon(kind + seq![';'] + rest) == kind,
    decreases kind.len(),
{
    let whole = kind + seq![';'] + rest;
    if kind.len() > 0 {
        assert(kind[0] != ';');
        let tail = kind.drop_first();
        assert forall|i: int| 0 <= i < tail.len() implies #[trigger] tail[i] != ';' by {
            assert(tail[i] == kind[i + 1]);
        }
        law_kinds_end_at_the_semicolon(tail, rest);
        assert(whole.drop_first() =~= tail + seq![';'] + rest);
        assert(seq![kind[0]] + tail =~= kind);
    } else {
        assert(whole[0] == ';');
        assert(kind =~= seq![]);
    }
}

proof fn lemma_error_words()
    ensures
        "code"@ != "details"@,
        "code"@ != "execution"@,
        "code"@ != "message"@,
        "code"@ != "retryable"@,
        "details"@ != "execution"@,
        "details"@ != "message"@,
        "details"@ != "retryable"@,
        "execution"@ != "message"@,
        "execution"@ != "retryable"@,
        "message"@ != "retryable"@,
{
    reveal_strlit("code");
    reveal_strlit("details");
    reveal_strlit("execution");
    reveal_strlit("message");
    reveal_strlit("retryable");
    assert("code"@.len() == 4 && "code"@[0] == 'c' && "code"@[1] == 'o' && "code"@[2] == 'd');
    assert("details"@.len() == 7 && "details"@[0] == 'd' && "details"@[1] == 'e' && "details"@[2] == 't');
    assert("execution"@.len() == 9 && "execution"@[0] == 'e' && "execution"@[1] == 'x' && "execution"@[2] == 'e');
    assert("message"@.len() == 7 && "message"@[0] == 'm' && "message"@[1] == 'e' && "message"@[2] == 's');
    assert("retryable"@.len() == 9 && "retryable"@[0] == 'r' && "retryable"@[1] == 'e' && "retryable"@[2] == 't');
}

/// An error is answered with its code, its message, whether to try again, and whether anything was
/// done, under their names, and with the identity of its request.
pub proof fn law_errors_are_answered(error: ApiError)
    ensures
        ({
            let document = error_tree(error);
            let part = crate::json::tree_member(document, "error"@);
            &&& crate::json::tree_member(document, "request_id"@) == Some(
                crate::json::Tree::Text(error.request_id@),
            )
            &&& part is Some
            &&& crate::json::tree_member(part->0, "code"@) == Some(
                crate::json::Tree::Text(error.code@),
            )
            &&& crate::json::tree_member(part->0, "message"@) == Some(
                crate::json::Tree::Text(error.message@),
            )
            &&& crate::json::tree_member(part->0, "execution"@) == Some(
                crate::json::Tree::Text(error.execution@),
            )
            &&& crate::json::tree_member(part->0, "retryable"@) == Some(
                crate::json::Tree::Bool(error.retryable),
            )
            &&& error.details is None ==> crate::json::tree_member(part->0, "details"@) == Some(
                crate::json::Tree::Null,
            )
        }),
{
    reveal_strlit("error");
    reveal_strlit("request_id");
    assert("error"@.len() != "request_id"@.len());
    let members = error_tree(error)->Object_0;
    crate::json::law_members_are_found(members, "error"@, 0);
    crate::json::law_members_are_found(members, "request_id"@, 1);
    lemma_error_words();
    let parts = members[0].1->Object_0;
    crate::json::law_members_are_found(parts, "code"@, 0);
    crate::json::law_members_are_found(parts, "details"@, 1);
    crate::json::law_members_are_found(parts, "execution"@, 2);
    crate::json::law_members_are_found(parts, "message"@, 3);
    crate::json::law_members_are_found(parts, "retryable"@, 4);
}

/// A caller may choose an identity of one to sixty-four letters, digits, hyphens and underscores of
/// the basic alphabet.
pub proof fn law_identities_are_plain(text: Seq<char>)
    ensures
        valid_id(text) <==> 1 <= text.len() <= 64 && forall|i: int|
            0 <= i < text.len() ==> {
                let code = (#[trigger] text[i]) as int;
                48 <= code <= 57 || 65 <= code <= 90 || 97 <= code <= 122 || code == 45 || code
                    == 95
            },
{
    if valid_id(text) {
        assert forall|i: int| 0 <= i < text.len() implies {
            let code = (#[trigger] text[i]) as int;
            48 <= code <= 57 || 65 <= code <= 90 || 97 <= code <= 122 || code == 45 || code == 95
        } by {
            assert(id_character(text[i]));
        }
    }
}

proof fn lemma_info_words()
    ensures
        "api_version"@ != "features"@,
        "api_version"@ != "limits"@,
        "api_version"@ != "name"@,
        "features"@ != "limits"@,
        "features"@ != "name"@,
        "limits"@ != "name"@,
{
    reveal_strlit("api_version");
    reveal_strlit("features");
    reveal_strlit("limits");
    reveal_strlit("name");
    assert("api_version"@.len() == 11 && "api_version"@[0] == 'a' && "api_version"@[7] == 's' && "api_version"@[10] == 'n');
    assert("features"@.len() == 8 && "features"@[0] == 'f' && "features"@[7] == 's');
    assert("limits"@.len() == 6 && "limits"@[0] == 'l' && "limits"@[5] == 's');
    assert("name"@.len() == 4 && "name"@[0] == 'n' && "name"@[3] == 'e');
}

proof fn lemma_feature_words()
    ensures
        "device_brightness"@ != "device_relay"@,
        "device_brightness"@ != "group_brightness"@,
        "device_brightness"@ != "group_relay"@,
        "device_relay"@ != "group_brightness"@,
        "device_relay"@ != "group_relay"@,
        "group_brightness"@ != "group_relay"@,
{
    reveal_strlit("device_brightness");
    reveal_strlit("device_relay");
    reveal_strlit("group_brightness");
    reveal_strlit("group_relay");
    assert("device_brightness"@.len() == 17 && "device_brightness"@[0] == 'd' && "device_brightness"@[7] == 'b' && "device_brightness"@[11] == 'h' && "device_brightness"@[16] == 's');
    assert("device_relay"@.len() == 12 && "device_relay"@[0] == 'd' && "device_relay"@[7] == 'r' && "device_relay"@[11] == 'y');
    assert("group_brightness"@.len() == 16 && "group_brightness"@[0] == 'g' && "group_brightness"@[7] == 'r' && "group_brightness"@[11] == 't' && "group_brightness"@[15] == 's');
    assert("group_relay"@.len() == 11 && "group_relay"@[0] == 'g' && "group_relay"@[7] == 'e' && "group_relay"@[10] == 'y');
}

proof fn lemma_limit_words()
    ensures
        "brightness_max"@ != "brightness_min"@,
        "brightness_max"@ != "devices"@,
        "brightness_max"@ != "group_members"@,
        "brightness_max"@ != "groups"@,
        "brightness_max"@ != "inventory_bytes"@,
        "brightness_min"@ != "devices"@,
        "brightness_min"@ != "group_members"@,
        "brightness_min"@ != "groups"@,
        "brightness_min"@ != "inventory_bytes"@,
        "devices"@ != "group_members"@,
        "devices"@ != "groups"@,
        "devices"@ != "inventory_bytes"@,
        "group_members"@ != "groups"@,
        "group_members"@ != "inventory_bytes"@,
        "groups"@ != "inventory_bytes"@,
{
    reveal_strlit("brightness_max");
    reveal_strlit("brightness_min");
    reveal_strlit("devices");
    reveal_strlit("group_members");
    reveal_strlit("groups");
    reveal_strlit("inventory_bytes");
    assert("brightness_max"@.len() == 14 && "brightness_max"@[0] == 'b' && "brightness_max"@[7] == 'e' && "brightness_max"@[11] == 'm' && "brightness_max"@[13] == 'x');
    assert("brightness_min"@.len() == 14 && "brightness_min"@[0] == 'b' && "brightness_min"@[7] == 'e' && "brightness_min"@[11] == 'm' && "brightness_min"@[13] == 'n');
    assert("devices"@.len() == 7 && "devices"@[0] == 'd' && "devices"@[6] == 's');
    assert("group_members"@.len() == 13 && "group_members"@[0] == 'g' && "group_members"@[7] == 'e' && "group_members"@[11] == 'r' && "group_members"@[12] == 's');
    assert("groups"@.len() == 6 && "groups"@[0] == 'g' && "groups"@[5] == 's');
    assert("inventory_bytes"@.len() == 15 && "inventory_bytes"@[0] == 'i' && "inventory_bytes"@[7] == 'r' && "inventory_bytes"@[11] == 'y' && "inventory_bytes"@[14] == 's');
}

/// The interface says that devices have relays and brightness, and groups relays alone, and tells
/// the limits that it holds to.
pub proof fn law_limits_are_told()
    ensures
        ({
            let features = crate::json::tree_member(info_tree(), "features"@);
            let limits = crate::json::tree_member(info_tree(), "limits"@);
            &&& features is Some && limits is Some
            &&& crate::json::tree_member(features->0, "device_relay"@) == Some(
                crate::json::Tree::Bool(true),
            )
            &&& crate::json::tree_member(features->0, "device_brightness"@) == Some(
                crate::json::Tree::Bool(true),
            )
            &&& crate::json::tree_member(features->0, "group_relay"@) == Some(
                crate::json::Tree::Bool(true),
            )
            &&& crate::json::tree_member(features->0, "group_brightness"@) == Some(
                crate::json::Tree::Bool(false),
            )
            &&& crate::json::tree_member(limits->0, "brightness_min"@) == Some(
                crate::json::natural(1),
            )
            &&& crate::json::tree_member(limits->0, "brightness_max"@) == Some(
                crate::json::natural(100),
            )
            &&& crate::json::tree_member(limits->0, "devices"@) == Some(crate::json::natural(256))
            &&& crate::json::tree_member(limits->0, "groups"@) == Some(crate::json::natural(50))
            &&& crate::json::tree_member(limits->0, "group_members"@) == Some(
                crate::json::natural(256),
            )
            &&& crate::json::tree_member(limits->0, "inventory_bytes"@) == Some(
                crate::json::natural(1_048_576),
            )
        }),
        MAX_BODY_BYTES == 1_024,
{
    lemma_info_words();
    lemma_feature_words();
    lemma_limit_words();
    let members = info_tree()->Object_0;
    crate::json::law_members_are_found(members, "api_version"@, 0);
    crate::json::law_members_are_found(members, "features"@, 1);
    crate::json::law_members_are_found(members, "limits"@, 2);
    crate::json::law_members_are_found(members, "name"@, 3);
    let features = members[1].1->Object_0;
    crate::json::law_members_are_found(features, "device_brightness"@, 0);
    crate::json::law_members_are_found(features, "device_relay"@, 1);
    crate::json::law_members_are_found(features, "group_brightness"@, 2);
    crate::json::law_members_are_found(features, "group_relay"@, 3);
    let limits = members[2].1->Object_0;
    crate::json::law_members_are_found(limits, "brightness_max"@, 0);
    crate::json::law_members_are_found(limits, "brightness_min"@, 1);
    crate::json::law_members_are_found(limits, "devices"@, 2);
    crate::json::law_members_are_found(limits, "group_members"@, 3);
    crate::json::law_members_are_found(limits, "groups"@, 4);
    crate::json::law_members_are_found(limits, "inventory_bytes"@, 5);
}

} // verus!
