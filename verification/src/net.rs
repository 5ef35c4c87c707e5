//! What the release server answers.
use crate::text::{begins_with, decimal_text, join};
use vstd::prelude::*;

verus! {

/// The address of the launcher's latest release.
pub fn latest_release_url() -> (r: &'static str)
    ensures
        r@ == "https://api.github.com/repos/FlatronTech/Vault64/releases/latest"@,
{
    "https://api.github.com/repos/FlatronTech/Vault64/releases/latest"
}

/// The address of the list of games.
pub fn games_url() -> (r: &'static str)
    ensures
        r@ == "https://api.github.com/repos/FlatronTech/Vault64-games/releases"@,
{
    "https://api.github.com/repos/FlatronTech/Vault64-games/releases"
}

/// The name by which the launcher introduces itself to the server.
pub fn user_agent() -> (r: &'static str)
    ensures
        r@ == "Vault64-Launcher"@,
{
    "Vault64-Launcher"
}

/// A status code with its phrase, such as `404 Not Found`, as `reqwest` shows it.
pub uninterp spec fn status_text(code: u16) -> Seq<char>;

/// Calls `reqwest::StatusCode::from_u16` and `is_success`: the codes from 200
/// to 299 are successes. No other number is one, whether it is a status code or not.
#[verifier::external_body]
fn code_is_success(code: u16) -> (r: bool)
    ensures
        r == (200 <= code <= 299),
{
    match reqwest::StatusCode::from_u16(code) {
        Ok(status) => status.is_success(),
        Err(_) => false,
    }
}

/// Shows a `reqwest::StatusCode`: the code in decimal notation, a space and the
/// code's phrase. The text is a function of the code alone, named `status_text`;
/// which phrase belongs to a code is left unsaid. Not every number is a code.
#[verifier::external_body]
fn show_code(code: u16) -> (r: String)
    requires
        100 <= code <= 999,
    ensures
        r@ == status_text(code),
        begins_with(r@, decimal_text(code as nat).push(' ')),
{
    reqwest::StatusCode::from_u16(code).unwrap().to_string()
}

/// The numbers that are status codes.
pub open spec fn status_code(code: u16) -> bool {
    100 <= code <= 999
}

/// The status code of an answer.
#[derive(Debug)]
pub struct HttpStatus {
    code: u16,
}

impl View for HttpStatus {
    type V = u16;

    closed spec fn view(&self) -> u16 {
        self.code
    }
}

impl HttpStatus {
    /// A status code has three digits.
    #[verifier::type_invariant]
    spec fn three_digits(self) -> bool {
        100 <= self.code <= 999
    }

    /// The status with the given code, if there is one.
    pub fn new(code: u16) -> (r: Option<HttpStatus>)
        ensures
            r is Some <==> 100 <= code <= 999,
            r is Some <==> status_code(code),
            r matches Some(s) ==> s@ == code,
    {
        if 100 <= code && code <= 999 {
            Some(HttpStatus { code })
        } else {
            None
        }
    }

    /// Whether the request succeeded.
    pub fn is_success(&self) -> (r: bool)
        ensures
            r == success(self@),
    {
        code_is_success(self.code)
    }

    /// The code and its phrase.
    pub fn text(&self) -> (r: String)
        ensures
            r@ == status_text(self@),
            begins_with(r@, decimal_text(self@ as nat).push(' ')),
            100 <= self@ <= 999,
    {
        proof {
            use_type_invariant(self);
        }
        show_code(self.code)
    }
}

/// The codes of success.
pub open spec fn success(code: u16) -> bool {
    200 <= code <= 299
}

/// What came of a request for release data.
#[derive(Debug)]
pub enum Reply<T> {
    /// The request could not be sent, or no answer came: the reason.
    NotSent(String),
    /// The server answered with this status, and the content was not read.
    Refused(HttpStatus),
    /// The content was not what it should be: the reason.
    Unreadable(String),
    /// The content.
    Content(T),
}

/// Whether `r` is what a reply amounts to: its content, or what is shown
/// instead, which for a refusal is `prefix` and the status.
pub open spec fn amounts_to<T>(reply: Reply<T>, prefix: Seq<char>, r: Result<T, String>) -> bool {
    match reply {
        Reply::NotSent(e) => r == Err::<T, String>(e),
        Reply::Refused(status) => r matches Err(shown) && shown@ == prefix + status_text(status@)
            && begins_with(shown@, prefix + decimal_text(status@ as nat).push(' ')),
        Reply::Unreadable(e) => r == Err::<T, String>(e),
        Reply::Content(c) => r == Ok::<T, String>(c),
    }
}

/// What a reply amounts to: its content, or what is shown instead.
pub fn outcome<T>(reply: Reply<T>, prefix: &str) -> (r: Result<T, String>)
    ensures
        amounts_to(reply, prefix@, r),
{
    match reply {
        Reply::NotSent(e) => Err(e),
        Reply::Refused(status) => {
            let text: String = status.text();
            let shown: String = join(prefix, text.as_str());
            let ghost code = decimal_text(status@ as nat).push(' ');
            assert(shown@.subrange(0, (prefix@ + code).len() as int) == prefix@ + text@.subrange(
                0,
                code.len() as int,
            ));
            Err(shown)
        },
        Reply::Unreadable(e) => Err(e),
        Reply::Content(c) => Ok(c),
    }
}

/// The codes of success are the hundred that begin with a 2.
pub proof fn law_success_begins_with_two(code: u16)
    ensures
        success(code) <==> code / 100 == 2,
{
}

/// What a reply amounts to: the content as it came, the reason as it was told,
/// or for a refusal the prefix and the status; and never anything else.
pub proof fn law_replies_amount_to_one_result<T>(
    reply: Reply<T>,
    prefix: Seq<char>,
    r: Result<T, String>,
)
    requires
        amounts_to(reply, prefix, r),
    ensures
        reply matches Reply::Content(c) ==> r == Ok::<T, String>(c),
        reply matches Reply::NotSent(e) ==> r == Err::<T, String>(e),
        reply matches Reply::Unreadable(e) ==> r == Err::<T, String>(e),
        reply matches Reply::Refused(status) ==> (r matches Err(shown) && shown@ == prefix
            + status_text(status@)),
        r is Ok <==> reply is Content,
{
}

/// A number is a status code if and only if it is written with three digits.
pub proof fn law_codes_have_three_digits(code: u16)
    ensures
        status_code(code) <==> decimal_text(code as nat).len() == 3,
{
    lemma_digit_count(code as nat);
}

/// How many digits a number below 100,000 has.
proof fn lemma_digit_count(n: nat)
    requires
        n < 100_000,
    ensures
        decimal_text(n).len() == (if n < 10 {
            1int
        } else if n < 100 {
            2
        } else if n < 1000 {
            3
        } else if n < 10_000 {
            4
        } else {
            5
        }),
    decreases n,
{
    if n >= 10 {
        lemma_digit_count(n / 10);
    }
}

} // verus!
