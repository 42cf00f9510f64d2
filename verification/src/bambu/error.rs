//! How Bambu Cloud says that a request failed.
use crate::text;
use vstd::prelude::*;

verus! {

/// One field of the status that an answer carries.
#[derive(Debug, PartialEq, Eq)]
pub enum ApiField {
    /// There is nothing in it.
    Empty,
    /// It holds a text or a number.
    Text(String),
    /// It holds something else.
    Other,
}

/// The status that an answer carries.
#[derive(Debug, PartialEq, Eq)]
pub struct ApiStatus {
    pub code: ApiField,
    pub error: ApiField,
    pub message: ApiField,
}

impl Default for ApiField {
    fn default() -> (r: Self)
        ensures
            r == ApiField::Empty,
    {
        ApiField::Empty
    }
}

impl Default for ApiStatus {
    fn default() -> (r: Self)
        ensures
            r == (ApiStatus {
                code: ApiField::Empty,
                error: ApiField::Empty,
                message: ApiField::Empty,
            }),
    {
        ApiStatus { code: ApiField::Empty, error: ApiField::Empty, message: ApiField::Empty }
    }
}

/// What stands in a field of an answer.
#[derive(Debug)]
pub enum Reported<'a> {
    Null,
    Flag,
    Signed(i64),
    Unsigned(u64),
    /// A number with a fraction, as it is written in decimal.
    Fraction(String),
    Text(&'a str),
    List,
    Object,
}

/// What a field holds, by its characters where it holds a text or a number.
pub enum FieldView {
    Empty,
    Text(Seq<char>),
    Other,
}

impl View for ApiField {
    type V = FieldView;

    open spec fn view(&self) -> FieldView {
        match *self {
            ApiField::Empty => FieldView::Empty,
            ApiField::Text(text) => FieldView::Text(text@),
            ApiField::Other => FieldView::Other,
        }
    }
}

/// What is made of what stands in a field: numbers are taken as they are written in decimal, texts
/// without white space around them, and a text with nothing else as nothing.
pub open spec fn field_of(reported: Reported) -> FieldView {
    match reported {
        Reported::Null => FieldView::Empty,
        Reported::Flag => FieldView::Other,
        Reported::Signed(value) => FieldView::Text(text::signed_decimal(value as int)),
        Reported::Unsigned(value) => FieldView::Text(text::decimal(value as nat)),
        Reported::Fraction(written) => FieldView::Text(written@),
        Reported::Text(value) => if text::has_text(value@) {
            FieldView::Text(text::trimmed(value@))
        } else {
            FieldView::Empty
        },
        Reported::List => FieldView::Other,
        Reported::Object => FieldView::Other,
    }
}

/// Whether `value` says that all went well.
pub open spec fn success(value: Seq<char>) -> bool {
    text::lowered(text::trimmed(value)) == text::lowered("success"@)
}

/// Whether `value` says that all went well.
pub fn is_success_text(value: &str) -> (r: bool)
    ensures
        r == success(value@),
{
    text::same_ignoring_case(text::trim(value), "success")
}

impl ApiField {
    /// What is made of what stands in a field.
    pub fn from_reported(reported: Reported) -> (r: Self)
        ensures
            r@ == field_of(reported),
    {
        match reported {
            Reported::Null => ApiField::Empty,
            Reported::Flag => ApiField::Other,
            Reported::Signed(value) => ApiField::Text(text::signed_text(value as i128)),
            Reported::Unsigned(value) => ApiField::Text(text::decimal_text(value as u128)),
            Reported::Fraction(written) => ApiField::Text(written),
            Reported::Text(value) => {
                let value = text::trim(value);
                if value.is_empty() {
                    ApiField::Empty
                } else {
                    ApiField::Text(value.to_owned())
                }
            },
            Reported::List => ApiField::Other,
            Reported::Object => ApiField::Other,
        }
    }

    /// The text of the field, where it has one that is not blank.
    pub fn text(&self) -> (r: Option<&str>)
        ensures
            match r {
                Some(text) => self@ == FieldView::Text(text@) && text::has_text(text@),
                None => !(self@ matches FieldView::Text(text) && text::has_text(text)),
            },
    {
        match self {
            ApiField::Text(value) => {
                if text::trim(value.as_str()).is_empty() {
                    None
                } else {
                    Some(value.as_str())
                }
            },
            _ => None,
        }
    }
}

/// Whether the field `error` tells of an error.
pub open spec fn error_field(field: FieldView) -> bool {
    match field {
        FieldView::Empty => false,
        FieldView::Text(value) => text::has_text(value) && !success(value),
        FieldView::Other => true,
    }
}

/// Whether the field `code` tells of an error.
pub open spec fn error_code(field: FieldView) -> bool {
    match field {
        FieldView::Empty => false,
        FieldView::Text(value) => text::has_text(value) && text::trimmed(value) != "0"@
            && !success(value),
        FieldView::Other => true,
    }
}

/// Whether the field `error` tells of an error.
pub fn is_error_field(value: &ApiField) -> (r: bool)
    ensures
        r == error_field(value@),
{
    match value {
        ApiField::Empty => false,
        ApiField::Text(value) => !text::trim(value.as_str()).is_empty() && !is_success_text(
            value.as_str(),
        ),
        ApiField::Other => true,
    }
}

/// Whether the field `code` tells of an error.
pub fn is_error_code(value: &ApiField) -> (r: bool)
    ensures
        r == error_code(value@),
{
    match value {
        ApiField::Empty => false,
        ApiField::Text(value) => {
            let trimmed = text::trim(value.as_str());
            proof {
                text::lemma_trim_is_trimmed(value@);
            }
            !trimmed.is_empty() && !text::same(trimmed, "0") && !is_success_text(trimmed)
        },
        ApiField::Other => true,
    }
}

/// Whether an answer tells of an error.
pub open spec fn tells_of_error(status: ApiStatus) -> bool {
    error_field(status.error@) || error_code(status.code@)
}

/// Whether an answer tells of an error.
pub fn response_body_is_error(body: &ApiStatus) -> (r: bool)
    ensures
        r == tells_of_error(*body),
{
    is_error_field(&body.error) || is_error_code(&body.code)
}

/// The text of a field, where it tells more than that all went well.
pub open spec fn telling(field: FieldView) -> Option<Seq<char>> {
    match field {
        FieldView::Text(value) => if text::has_text(value) && !success(value) {
            Some(value)
        } else {
            None
        },
        _ => None,
    }
}

/// What an answer tells of an error: what stands under `error`, else under `message`, else under
/// `code`.
pub open spec fn detail_of(status: ApiStatus) -> Option<Seq<char>> {
    if telling(status.error@) is Some {
        telling(status.error@)
    } else if telling(status.message@) is Some {
        telling(status.message@)
    } else {
        telling(status.code@)
    }
}

/// What is said of an answer that tells of an error, or whose HTTP status does.
pub open spec fn error_message(status: Option<u16>, body: ApiStatus) -> Seq<char> {
    let prefix = match status {
        Some(status) => "HTTP "@ + text::decimal(status as nat),
        None => "Bambu API error"@,
    };
    match detail_of(body) {
        Some(detail) => prefix + ": "@ + detail,
        None => prefix,
    }
}

/// The text of a field, where it tells more than that all went well.
fn telling_text(field: &ApiField) -> (r: Option<&str>)
    ensures
        match r {
            Some(text) => telling(field@) == Some(text@),
            None => telling(field@) is None,
        },
{
    match field.text() {
        Some(text) => if is_success_text(text) {
            None
        } else {
            Some(text)
        },
        None => None,
    }
}

/// What is said of an answer that tells of an error, or whose HTTP status does.
pub fn api_error_message(status: Option<u16>, body: &ApiStatus) -> (r: String)
    ensures
        r@ == error_message(status, *body),
{
    let prefix = match status {
        Some(status) => "HTTP ".to_owned().concat(text::decimal_text(status as u128).as_str()),
        None => "Bambu API error".to_owned(),
    };
    let detail = match telling_text(&body.error) {
        Some(detail) => Some(detail),
        None => match telling_text(&body.message) {
            Some(detail) => Some(detail),
            None => telling_text(&body.code),
        },
    };
    match detail {
        Some(detail) => prefix.concat(": ").concat(detail),
        None => prefix,
    }
}

/// That all went well is never given as the detail of an error.
pub proof fn law_success_is_no_detail(body: ApiStatus)
    ensures
        detail_of(body) matches Some(detail) ==> !success(detail) && text::has_text(detail),
{
}

/// An answer whose fields are all empty, or say that all went well, tells of no error; and an error
/// that is told in words is told on.
pub proof fn law_errors_are_told(body: ApiStatus)
    ensures
        body.error@ is Empty && body.code@ is Empty ==> !tells_of_error(body),
        tells_of_error(body) && !(body.error@ is Other) && !(body.code@ is Other) ==> detail_of(
            body,
        ) is Some,
{
}

/// A text says that all went well where it is the word `success`, in whatever case and with white
/// space around it or not.
pub proof fn law_success_is_one_word(
    before: Seq<char>,
    word: Seq<char>,
    after: Seq<char>,
    value: &str,
    r: bool,
)
    requires
        forall|i: int| 0 <= i < before.len() ==> text::white_space(#[trigger] before[i]),
        forall|i: int| 0 <= i < after.len() ==> text::white_space(#[trigger] after[i]),
        word.len() > 0 ==> !text::white_space(word[0]) && !text::white_space(word.last()),
        value@ == before + word + after,
        call_ensures(is_success_text, (value,), r),
    ensures
        r <==> text::lowered(word) == seq!['s', 'u', 'c', 'c', 'e', 's', 's'],
{
    reveal_strlit("success");
    text::law_trim_takes_white_space_around(before, word, after);
    assert(text::lowered("success"@) =~= seq!['s', 'u', 'c', 'c', 'e', 's', 's']);
}

/// An answer tells of an error where something stands under `error` or under `code` that is neither
/// blank nor says that all went well; under `code`, zero says so too. What stands under `message`
/// does not count.
pub proof fn law_errors_stand_under_error_or_code(body: &ApiStatus, r: bool)
    requires
        call_ensures(response_body_is_error, (body,), r),
    ensures
        body.error is Other || body.code is Other ==> r,
        body.error matches ApiField::Text(error) ==> (text::has_text(error@) && !success(error@)
            ==> r),
        body.code matches ApiField::Text(code) ==> (text::has_text(code@) && !success(code@)
            && text::trimmed(code@) != seq!['0'] ==> r),
        (body.error is Empty || (body.error matches ApiField::Text(error) && (!text::has_text(
            error@,
        ) || success(error@)))) && (body.code is Empty || (body.code matches ApiField::Text(code)
            && (!text::has_text(code@) || success(code@) || text::trimmed(code@) == seq!['0'])))
            ==> !r,
{
    reveal_strlit("0");
    assert("0"@ =~= seq!['0']);
}

/// What is said of an error is its HTTP status, or that it is one of the service, and then what
/// stands under `error`, else under `message`, else under `code`, as far as that is a text that is
/// neither blank nor says that all went well.
pub proof fn law_error_is_told_first_by_error(status: u16, body: &ApiStatus, r: String, own: String)
    requires
        call_ensures(api_error_message, (Some(status), body), r),
        call_ensures(api_error_message, (None, body), own),
    ensures
        ({
            let tells = |field: ApiField|
                field matches ApiField::Text(words) && text::has_text(words@) && !success(words@);
            let http = "HTTP "@ + text::decimal(status as nat);
            let service = "Bambu API error"@;
            &&& tells(body.error) ==> r@ == http + ": "@ + body.error->Text_0@ && own@ == service
                + ": "@ + body.error->Text_0@
            &&& !tells(body.error) && tells(body.message) ==> r@ == http + ": "@
                + body.message->Text_0@ && own@ == service + ": "@ + body.message->Text_0@
            &&& !tells(body.error) && !tells(body.message) && tells(body.code) ==> r@ == http
                + ": "@ + body.code->Text_0@ && own@ == service + ": "@ + body.code->Text_0@
            &&& !tells(body.error) && !tells(body.message) && !tells(body.code) ==> r@ == http
                && own@ == service
        }),
{
}

/// A field holds the text that stands in it without white space around it, or the number in decimal;
/// a blank text and nothing are nothing, and whatever else there is, is told apart from both.
pub proof fn law_fields_hold_texts_and_numbers(
    before: Seq<char>,
    inner: Seq<char>,
    after: Seq<char>,
    value: &str,
    signed: i64,
    unsigned: u64,
    text: ApiField,
    negative: ApiField,
    number: ApiField,
    null: ApiField,
    flag: ApiField,
    list: ApiField,
    object: ApiField,
)
    requires
        forall|i: int| 0 <= i < before.len() ==> text::white_space(#[trigger] before[i]),
        forall|i: int| 0 <= i < after.len() ==> text::white_space(#[trigger] after[i]),
        inner.len() > 0 ==> !text::white_space(inner[0]) && !text::white_space(inner.last()),
        value@ == before + inner + after,
        call_ensures(ApiField::from_reported, (Reported::Text(value),), text),
        call_ensures(ApiField::from_reported, (Reported::Signed(signed),), negative),
        call_ensures(ApiField::from_reported, (Reported::Unsigned(unsigned),), number),
        call_ensures(ApiField::from_reported, (Reported::Null,), null),
        call_ensures(ApiField::from_reported, (Reported::Flag,), flag),
        call_ensures(ApiField::from_reported, (Reported::List,), list),
        call_ensures(ApiField::from_reported, (Reported::Object,), object),
    ensures
        inner.len() == 0 ==> text is Empty,
        inner.len() > 0 ==> text is Text && text->Text_0@ == inner,
        negative is Text && negative->Text_0@ == text::signed_decimal(signed as int),
        number is Text && number->Text_0@ == text::decimal(unsigned as nat),
        null is Empty,
        flag is Other,
        list is Other,
        object is Other,
{
    text::law_trim_takes_white_space_around(before, inner, after);
}

} // verus!
