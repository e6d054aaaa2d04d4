//! The login: the addresses that it goes through, its steps, and what the user
//! is told of it.

use crate::callback::{callback_code, error_text, wait_for_callback, CallbackError};
use crate::exit::Failure;
use crate::numerals::{
    decimal, decimal_chars, hex_byte, hex_digit, hex_digit_char, lemma_decimal, signed_chars,
    signed_decimal,
};
use crate::run::DEFAULT_API_URL;
use crate::text::{chars_of, string_of, utf8_lossy};
use crate::token::{expiry_of, expiry_text, token_notice};
use vstd::prelude::*;
use vstd::string::StringExecFns;

verus! {

/// The characters that stand for themselves in a URL.
pub open spec fn is_unreserved(c: char) -> bool {
    ||| 'A' <= c <= 'Z'
    ||| 'a' <= c <= 'z'
    ||| '0' <= c <= '9'
    ||| c == '-'
    ||| c == '_'
    ||| c == '.'
    ||| c == '~'
}

/// A character as it stands in a URL: itself, or a percent sign and the low
/// byte of its code point.
pub open spec fn percent_char(c: char) -> Seq<char> {
    if is_unreserved(c) { seq![c] } else { seq!['%'] + hex_byte(c as int % 256) }
}

/// A text as it stands in a URL.
pub open spec fn percent_encoded(s: Seq<char>) -> Seq<char>
    decreases s.len(),
{
    if s.len() == 0 {
        Seq::empty()
    } else {
        percent_char(s.first()) + percent_encoded(s.drop_first())
    }
}

/// The low byte of a character's code point.
fn low_byte(c: char) -> (b: u8)
    ensures
        b == c as int % 256,
{
    (c as u32 % 256) as u8
}

/// Percent-encodes a text for use in a URL query.
pub fn urlencoding(s: &str) -> (r: String)
    ensures
        r@ == percent_encoded(s@),
{
    let chars = chars_of(s);
    let mut r = String::new();
    let mut i: usize = 0;
    assert(s@.skip(0) =~= s@);
    assert(r@ + percent_encoded(s@) =~= percent_encoded(s@));
    while i < chars.len()
        invariant
            i <= chars@.len(),
            chars@ == s@,
            r@ + percent_encoded(s@.skip(i as int)) == percent_encoded(s@),
        decreases chars@.len() - i,
    {
        let c = chars[i];
        let ghost before = r@;
        if ('A' <= c && c <= 'Z') || ('a' <= c && c <= 'z') || ('0' <= c && c <= '9') || c == '-'
            || c == '_' || c == '.' || c == '~' {
            r.push(c);
        } else {
            let byte = low_byte(c);
            r.push('%');
            r.push(hex_digit_char(byte / 16));
            r.push(hex_digit_char(byte % 16));
        }
        assert(r@ =~= before + percent_char(c));
        assert(s@.skip(i as int).first() == c);
        assert(s@.skip(i as int).drop_first() =~= s@.skip(i + 1));
        assert(r@ + percent_encoded(s@.skip(i + 1)) =~= before + percent_encoded(s@.skip(i as int)));
        i += 1;
    }
    assert(r@ + percent_encoded(s@.skip(i as int)) =~= r@);
    r
}

/// The value of a hexadecimal digit in upper case.
pub open spec fn hex_value(c: char) -> int {
    if c <= '9' { c as u32 - 48 } else { c as u32 - 55 }
}

/// A text read out of a URL: each percent sign and the two digits behind it
/// stand for the character with that code.
pub open spec fn percent_decoded(s: Seq<char>) -> Seq<char>
    decreases s.len(),
{
    if s.len() == 0 {
        Seq::empty()
    } else if s.first() == '%' && s.len() >= 3 {
        seq![(hex_value(s[1]) * 16 + hex_value(s[2])) as char] + percent_decoded(s.skip(3))
    } else {
        seq![s.first()] + percent_decoded(s.drop_first())
    }
}

/// What is percent-encoded is one value of a URL query: it holds only
/// characters that stand for themselves and percent signs, so nothing that
/// ends the value.
pub proof fn law_encoded_text_is_one_query_value(s: Seq<char>)
    ensures
        forall|i: int|
            0 <= i < percent_encoded(s).len() ==> is_unreserved(#[trigger] percent_encoded(s)[i])
                || percent_encoded(s)[i] == '%',
    decreases s.len(),
{
    if s.len() > 0 {
        law_encoded_text_is_one_query_value(s.drop_first());
        let head = percent_char(s.first());
        let tail = percent_encoded(s.drop_first());
        assert forall|i: int| 0 <= i < percent_encoded(s).len() implies is_unreserved(
            #[trigger] percent_encoded(s)[i],
        ) || percent_encoded(s)[i] == '%' by {
            if i < head.len() {
                assert(percent_encoded(s)[i] == head[i]);
            } else {
                assert(percent_encoded(s)[i] == tail[i - head.len()]);
            }
        }
    }
}

proof fn lemma_percent_char_reads_back(c: char, tail: Seq<char>)
    requires
        c as int <= 255,
    ensures
        percent_decoded(percent_char(c) + tail) == seq![c] + percent_decoded(tail),
{
    let all = percent_char(c) + tail;
    if is_unreserved(c) {
        assert(all.drop_first() =~= tail);
    } else {
        let high = c as int / 16;
        let low = c as int % 16;
        assert(all[1] == hex_digit(high));
        assert(all[2] == hex_digit(low));
        assert(hex_value(hex_digit(high)) == high);
        assert(hex_value(hex_digit(low)) == low);
        assert(all.skip(3) =~= tail);
    }
}

/// A percent-encoded text reads back as it was, where every code point of it
/// fits in a byte.
pub proof fn law_encoded_text_reads_back(s: Seq<char>)
    requires
        forall|i: int| 0 <= i < s.len() ==> (#[trigger] s[i]) as int <= 255,
    ensures
        percent_decoded(percent_encoded(s)) == s,
    decreases s.len(),
{
    if s.len() > 0 {
        law_encoded_text_reads_back(s.drop_first());
        assert(s[0] as int <= 255);
        lemma_percent_char_reads_back(s.first(), percent_encoded(s.drop_first()));
        assert(seq![s.first()] + s.drop_first() =~= s);
    } else {
        assert(percent_decoded(percent_encoded(s)) =~= s);
    }
}

/// `s` without the slashes at its end.
pub open spec fn without_end_slashes(s: Seq<char>) -> Seq<char>
    decreases s.len(),
{
    if s.len() > 0 && s.last() == '/' { without_end_slashes(s.drop_last()) } else { s }
}

/// Takes the slashes off the end of `s`.
fn trim_end_slashes(s: &[char]) -> (r: &[char])
    ensures
        r@ == without_end_slashes(s@),
{
    let mut end: usize = s.len();
    assert(s@.take(end as int) =~= s@);
    while end > 0 && s[end - 1] == '/'
        invariant
            end <= s@.len(),
            without_end_slashes(s@.take(end as int)) == without_end_slashes(s@),
        decreases end,
    {
        assert(s@.take(end as int).drop_last() =~= s@.take(end - 1));
        end -= 1;
    }
    assert(s@.subrange(0, end as int) =~= s@.take(end as int));
    &s[0..end]
}

/// Where the browser is sent back to after a login.
pub open spec fn redirect_text(port: u16) -> Seq<char> {
    "http://127.0.0.1:"@ + decimal(port as nat) + "/callback"@
}

/// The address under which this process waits for the browser.
pub fn redirect_uri(port: u16) -> (r: String)
    ensures
        r@ == redirect_text(port),
{
    let mut r = String::new();
    r.append("http://127.0.0.1:");
    assert(r@ =~= "http://127.0.0.1:"@);
    r.append(string_of(decimal_chars(port as u64).as_slice()).as_str());
    r.append("/callback");
    r
}

/// The address at which a login begins.
pub open spec fn auth_text(api_url: Seq<char>, port: u16) -> Seq<char> {
    without_end_slashes(api_url) + "/auth/telegram/start?redirect_uri="@ + percent_encoded(
        redirect_text(port),
    )
}

/// The address that the browser is opened at, for a server and the local port
/// that waits for the browser.
pub fn auth_url(api_url: &str, port: u16) -> (r: String)
    ensures
        r@ == auth_text(api_url@, port),
{
    let chars = chars_of(api_url);
    let mut r = string_of(trim_end_slashes(chars.as_slice()));
    r.append("/auth/telegram/start?redirect_uri=");
    r.append(urlencoding(redirect_uri(port).as_str()).as_str());
    r
}

/// What the user is told where the browser did not open.
pub const BROWSER_FAILED: &'static str = "Failed to open browser automatically.";

/// The name that a user goes by: the user name, or else the first name, or
/// else `user`.
pub open spec fn display_name_of(
    username: Option<Seq<char>>,
    first_name: Option<Seq<char>>,
) -> Seq<char> {
    match username {
        Some(name) => name,
        None => match first_name {
            Some(name) => name,
            None => "user"@,
        },
    }
}

/// The text in a string, where there is one.
pub open spec fn text_in(s: Option<String>) -> Option<Seq<char>> {
    match s {
        Some(text) => Some(text@),
        None => None,
    }
}

/// Who logged in.
#[derive(Debug)]
pub struct User {
    pub id: i64,
    pub username: Option<String>,
    pub first_name: Option<String>,
}

impl User {
    /// The name that the user goes by.
    pub fn display_name(&self) -> (name: &str)
        ensures
            name@ == display_name_of(text_in(self.username), text_in(self.first_name)),
    {
        match &self.username {
            Some(name) => name.as_str(),
            None => match &self.first_name {
                Some(name) => name.as_str(),
                None => "user",
            },
        }
    }

    /// What the user is told after a login.
    pub fn greeting(&self) -> (line: String)
        ensures
            line@ == greeting_text(*self),
    {
        let mut line = String::new();
        line.append("Logged in as ");
        assert(line@ =~= "Logged in as "@);
        line.append(self.display_name());
        line.append(" (id: ");
        line.append(string_of(signed_chars(self.id).as_slice()).as_str());
        line.append(")");
        line
    }
}

/// What the user is told after a login.
pub open spec fn greeting_text(user: User) -> Seq<char> {
    "Logged in as "@ + display_name_of(text_in(user.username), text_in(user.first_name))
        + " (id: "@ + signed_decimal(user.id as int) + ")"@
}

/// What the server gives for a login code.
#[derive(Debug)]
pub struct AuthReply {
    pub token: String,
    pub user: User,
}

/// What a login waits for.
#[derive(Debug)]
pub enum LoginStage {
    /// For a port to wait on.
    Begin,
    /// For the browser to open.
    Browser,
    /// For the browser's request.
    Callback,
    /// For the browser to be answered, which brought this code.
    Answer { code: String },
    /// For the server's reply.
    Exchange,
    /// For the token to be saved.
    Save { token: String, user: User },
    /// For nothing any more.
    Over,
}

/// What a login is told.
#[derive(Debug)]
pub enum LoginEvent {
    /// This port waits for the browser.
    Bound(u16),
    /// The browser was opened, successfully or not.
    Opened(bool),
    /// The browser sent this request.
    Request(Vec<u8>),
    /// The browser was answered.
    Answered,
    /// The server took the code.
    Exchanged(AuthReply),
    /// The token was saved.
    Saved,
    /// What the login waits for failed.
    Failed(Failure),
}

/// What a login does next.
#[derive(Debug)]
pub enum LoginAction {
    /// Open this address in the browser.
    Open { url: String },
    /// Wait for the browser's request.
    Await,
    /// Send the browser the page that tells of the login.
    Respond,
    /// Hand this code to the server.
    Exchange { code: String },
    /// Save this token.
    Save { token: String },
    /// End well.
    Finish,
    /// End with an error.
    Fail(CallbackError),
    /// End with the failure of what the login waited for.
    Abort(Failure),
}

impl LoginAction {
    /// Whether the action is to end.
    pub open spec fn is_end(self) -> bool {
        self is Finish || self is Fail || self is Abort
    }

    /// The failure that a login ends with, where its action is to end with one.
    pub fn failure(self) -> (r: Option<Failure>)
        ensures
            match self {
                LoginAction::Fail(error) => r matches Some(Failure::Other(cause)) && cause@
                    == error_text(error),
                LoginAction::Abort(failure) => r == Some(failure),
                _ => r is None,
            },
    {
        match self {
            LoginAction::Fail(error) => Some(Failure::Other(error.message().to_owned())),
            LoginAction::Abort(failure) => Some(failure),
            _ => None,
        }
    }
}

/// What a login does after an event.
#[derive(Debug)]
pub struct LoginStep {
    /// What the user is told first, line by line.
    pub notes: Vec<String>,
    /// What the login waits for from then on.
    pub stage: LoginStage,
    /// What is to be done.
    pub action: LoginAction,
}

/// Whether the event is what the stage waits for: that it came about, or that
/// it failed. A browser that does not open is no failure.
pub open spec fn login_answers(stage: LoginStage, event: LoginEvent) -> bool {
    match stage {
        LoginStage::Begin => event is Bound || event is Failed,
        LoginStage::Browser => event is Opened,
        LoginStage::Callback => event is Request || event is Failed,
        LoginStage::Answer { .. } => event is Answered || event is Failed,
        LoginStage::Exchange => event is Exchanged || event is Failed,
        LoginStage::Save { .. } => event is Saved || event is Failed,
        LoginStage::Over => false,
    }
}

/// What the user is told after an event of a login.
pub open spec fn login_notes(api_url: Seq<char>, stage: LoginStage, event: LoginEvent) -> Seq<
    Seq<char>,
> {
    match (stage, event) {
        (LoginStage::Begin, LoginEvent::Bound(port)) => seq![
            "Opening browser for Telegram login..."@,
            "If it doesn't open, visit: "@ + auth_text(api_url, port),
        ],
        (LoginStage::Browser, LoginEvent::Opened(false)) => seq![BROWSER_FAILED@],
        (LoginStage::Save { token, user }, LoginEvent::Saved) => seq![
            greeting_text(user),
            expiry_text(expiry_of(token@)),
        ],
        _ => Seq::empty(),
    }
}

/// Whether a login goes on after an event as it should.
pub open spec fn login_goes_on(
    api_url: Seq<char>,
    stage: LoginStage,
    event: LoginEvent,
    later: LoginStage,
    action: LoginAction,
) -> bool {
    match (stage, event) {
        (_, LoginEvent::Failed(failure)) => later is Over && action == LoginAction::Abort(failure),
        (LoginStage::Begin, LoginEvent::Bound(port)) => {
            &&& later is Browser
            &&& action matches LoginAction::Open { url }
            &&& url@ == auth_text(api_url, port)
        },
        (LoginStage::Browser, _) => later is Callback && action is Await,
        (LoginStage::Callback, LoginEvent::Request(request)) => match callback_code(
            utf8_lossy(request@),
        ) {
            Some(code) => {
                &&& later matches LoginStage::Answer { code: named }
                &&& named@ == code
                &&& action is Respond
            },
            None => later is Over && action == LoginAction::Fail(CallbackError::NoCode),
        },
        (LoginStage::Answer { code }, _) => later is Exchange && action == (
        LoginAction::Exchange { code }),
        (LoginStage::Exchange, LoginEvent::Exchanged(reply)) => {
            &&& later == (LoginStage::Save { token: reply.token, user: reply.user })
            &&& action == (LoginAction::Save { token: reply.token })
        },
        (LoginStage::Save { .. }, _) => later is Over && action is Finish,
        _ => false,
    }
}

/// The lines in strings.
pub open spec fn lines(notes: Seq<String>) -> Seq<Seq<char>> {
    notes.map_values(|note: String| note@)
}

/// No lines.
fn no_notes() -> (notes: Vec<String>)
    ensures
        lines(notes@) == Seq::<Seq<char>>::empty(),
{
    let notes: Vec<String> = Vec::new();
    assert(lines(notes@) =~= Seq::<Seq<char>>::empty());
    notes
}

/// Two lines.
fn two_notes(first: String, second: String) -> (notes: Vec<String>)
    ensures
        lines(notes@) == seq![first@, second@],
{
    let mut notes: Vec<String> = Vec::new();
    notes.push(first);
    notes.push(second);
    assert(lines(notes@) =~= seq![first@, second@]);
    notes
}

/// Takes a login one step further: tells what the user is told, what is to be
/// done and what the login waits for after an event.
pub fn login(api_url: &str, stage: LoginStage, event: LoginEvent) -> (step: LoginStep)
    requires
        login_answers(stage, event),
    ensures
        login_goes_on(api_url@, stage, event, step.stage, step.action),
        lines(step.notes@) == login_notes(api_url@, stage, event),
{
    match (stage, event) {
        (_, LoginEvent::Failed(failure)) => LoginStep {
            notes: no_notes(),
            stage: LoginStage::Over,
            action: LoginAction::Abort(failure),
        },
        (LoginStage::Begin, LoginEvent::Bound(port)) => {
            let url = auth_url(api_url, port);
            let mut visit = "If it doesn't open, visit: ".to_owned();
            visit.append(url.as_str());
            LoginStep {
                notes: two_notes("Opening browser for Telegram login...".to_owned(), visit),
                stage: LoginStage::Browser,
                action: LoginAction::Open { url },
            }
        },
        (LoginStage::Browser, LoginEvent::Opened(opened)) => {
            let mut notes = no_notes();
            if !opened {
                notes.push(BROWSER_FAILED.to_owned());
                assert(lines(notes@) =~= seq![BROWSER_FAILED@]);
            }
            LoginStep { notes, stage: LoginStage::Callback, action: LoginAction::Await }
        },
        (LoginStage::Callback, LoginEvent::Request(request)) => match wait_for_callback(
            request.as_slice(),
        ) {
            Ok(code) => LoginStep {
                notes: no_notes(),
                stage: LoginStage::Answer { code },
                action: LoginAction::Respond,
            },
            Err(error) => LoginStep {
                notes: no_notes(),
                stage: LoginStage::Over,
                action: LoginAction::Fail(error),
            },
        },
        (LoginStage::Answer { code }, _) => LoginStep {
            notes: no_notes(),
            stage: LoginStage::Exchange,
            action: LoginAction::Exchange { code },
        },
        (LoginStage::Exchange, LoginEvent::Exchanged(reply)) => {
            let token = reply.token.clone();
            LoginStep {
                notes: no_notes(),
                stage: LoginStage::Save { token: reply.token, user: reply.user },
                action: LoginAction::Save { token },
            }
        },
        (LoginStage::Save { token, user }, _) => LoginStep {
            notes: two_notes(user.greeting(), token_notice(token.as_str())),
            stage: LoginStage::Over,
            action: LoginAction::Finish,
        },
        (_, _) => LoginStep {
            notes: no_notes(),
            stage: LoginStage::Over,
            action: LoginAction::Finish,
        },
    }
}

/// The server is given the code that the browser brought, and no other.
pub proof fn law_code_of_the_browser_is_exchanged(
    api_url: Seq<char>,
    request: Vec<u8>,
    answered: LoginStage,
    asked: LoginStage,
    respond: LoginAction,
    exchange: LoginAction,
)
    requires
        login_goes_on(
            api_url,
            LoginStage::Callback,
            LoginEvent::Request(request),
            answered,
            respond,
        ),
        answered is Answer,
        login_goes_on(api_url, answered, LoginEvent::Answered, asked, exchange),
    ensures
        exchange matches LoginAction::Exchange { code } && callback_code(utf8_lossy(request@))
            == Some(code@),
{
}

/// A token is saved just when the server has given it for a code, and the token
/// that is saved is the one that was given.
pub proof fn law_given_token_is_saved(
    api_url: Seq<char>,
    stage: LoginStage,
    event: LoginEvent,
    later: LoginStage,
    action: LoginAction,
)
    requires
        login_answers(stage, event),
        login_goes_on(api_url, stage, event, later, action),
    ensures
        action is Save <==> event is Exchanged,
        action matches LoginAction::Save { token } ==> (event matches LoginEvent::Exchanged(reply)
            && reply.token == token),
{
}

/// A request without a code ends the login: the browser is not answered, the
/// server is not asked, and nothing is saved.
pub proof fn law_no_code_no_login(
    api_url: Seq<char>,
    request: Vec<u8>,
    later: LoginStage,
    action: LoginAction,
)
    requires
        login_goes_on(
            api_url,
            LoginStage::Callback,
            LoginEvent::Request(request),
            later,
            action,
        ),
    ensures
        callback_code(utf8_lossy(request@)) is None <==> later is Over,
        later is Over <==> action == LoginAction::Fail(CallbackError::NoCode),
{
}

/// How many more events a login that waits for the given thing can take.
pub open spec fn login_events_left(stage: LoginStage) -> int {
    match stage {
        LoginStage::Begin => 6,
        LoginStage::Browser => 5,
        LoginStage::Callback => 4,
        LoginStage::Answer { .. } => 3,
        LoginStage::Exchange => 2,
        LoginStage::Save { .. } => 1,
        LoginStage::Over => 0,
    }
}

/// A login always comes to its end: every event brings it closer, and it is
/// over just when its action is to end.
pub proof fn law_login_comes_to_its_end(
    api_url: Seq<char>,
    stage: LoginStage,
    event: LoginEvent,
    later: LoginStage,
    action: LoginAction,
)
    requires
        login_answers(stage, event),
        login_goes_on(api_url, stage, event, later, action),
    ensures
        0 <= login_events_left(later) < login_events_left(stage),
        later is Over <==> action.is_end(),
{
}

/// What fails ends the login, at whatever stage, with that very failure: the
/// user is told nothing more, no code is exchanged, no token is saved, and no
/// event follows.
pub proof fn law_failure_ends_the_login(
    api_url: Seq<char>,
    stage: LoginStage,
    failure: Failure,
    later: LoginStage,
    action: LoginAction,
)
    requires
        login_answers(stage, LoginEvent::Failed(failure)),
        login_goes_on(api_url, stage, LoginEvent::Failed(failure), later, action),
    ensures
        action == LoginAction::Abort(failure),
        !(action is Exchange || action is Save || action is Respond),
        login_notes(api_url, stage, LoginEvent::Failed(failure)) == Seq::<Seq<char>>::empty(),
        forall|event: LoginEvent| !#[trigger] login_answers(later, event),
{
}

/// A login can be told of a failure of whatever it waits for but the browser's
/// opening, which is only tried.
pub proof fn law_only_opening_the_browser_cannot_fail(
    api_url: Seq<char>,
    stage: LoginStage,
    event: LoginEvent,
    later: LoginStage,
    action: LoginAction,
    failure: Failure,
)
    requires
        login_answers(stage, event),
        login_goes_on(api_url, stage, event, later, action),
    ensures
        login_answers(later, LoginEvent::Failed(failure)) <==> !(action is Open || action.is_end()),
{
}

/// It does not matter whether the server's address ends in slashes.
pub proof fn law_auth_url_ignores_end_slashes(api_url: Seq<char>, port: u16)
    ensures
        auth_text(api_url.push('/'), port) == auth_text(api_url, port),
{
    assert(api_url.push('/').drop_last() =~= api_url);
}

proof fn lemma_decimal_is_ascii(n: nat)
    ensures
        forall|i: int| 0 <= i < decimal(n).len() ==> (#[trigger] decimal(n)[i]) as int <= 127,
{
    lemma_decimal(n);
}

/// The address at which a login begins hands over, in its query, the very
/// address that the browser is to be sent back to.
pub proof fn law_auth_url_carries_the_redirect(api_url: Seq<char>, port: u16)
    ensures
        ({
            let head = without_end_slashes(api_url) + "/auth/telegram/start?redirect_uri="@;
            &&& head.is_prefix_of(auth_text(api_url, port))
            &&& percent_decoded(auth_text(api_url, port).skip(head.len() as int)) == redirect_text(
                port,
            )
        }),
{
    let head = without_end_slashes(api_url) + "/auth/telegram/start?redirect_uri="@;
    let redirect = redirect_text(port);
    reveal_strlit("http://127.0.0.1:");
    reveal_strlit("/callback");
    lemma_decimal_is_ascii(port as nat);
    assert forall|i: int| 0 <= i < redirect.len() implies (#[trigger] redirect[i]) as int <= 255 by {
        let n = decimal(port as nat).len();
        if 17 <= i < 17 + n {
            assert(redirect[i] == decimal(port as nat)[i - 17]);
        }
    }
    law_encoded_text_reads_back(redirect);
    assert(auth_text(api_url, port).skip(head.len() as int) =~= percent_encoded(redirect));
}

/// The sixteen hexadecimal digits in upper case, in order.
pub open spec fn sixteen_digits() -> Seq<char> {
    seq!['0', '1', '2', '3', '4', '5', '6', '7', '8', '9', 'A', 'B', 'C', 'D', 'E', 'F']
}

/// Letters, digits and four signs of ASCII stand for themselves in a URL.
/// Every other character is a percent sign and two hexadecimal digits, which
/// are its code point's low byte.
pub proof fn law_one_character_is_encoded(c: char)
    ensures
        ({
            let plain = ('A' <= c && c <= 'Z') || ('a' <= c && c <= 'z') || ('0' <= c && c <= '9')
                || c == '-' || c == '_' || c == '.' || c == '~';
            let byte = c as int % 256;
            &&& plain ==> percent_encoded(seq![c]) == seq![c]
            &&& !plain ==> percent_encoded(seq![c]) == seq![
                '%',
                sixteen_digits()[byte / 16],
                sixteen_digits()[byte % 16],
            ]
        }),
{
    assert(seq![c].drop_first() =~= Seq::<char>::empty());
    assert(percent_encoded(Seq::<char>::empty()) =~= Seq::<char>::empty());
    let byte = c as int % 256;
    assert(sixteen_digits()[byte / 16] == hex_digit(byte / 16));
    assert(sixteen_digits()[byte % 16] == hex_digit(byte % 16));
    if is_unreserved(c) {
        assert(percent_encoded(seq![c]) =~= seq![c]);
    } else {
        assert(percent_encoded(seq![c]) =~= seq!['%', hex_digit(byte / 16), hex_digit(byte % 16)]);
    }
}

/// A text is encoded character by character: what stands before or after a
/// character has no bearing on it.
pub proof fn law_text_is_encoded_piece_by_piece(a: Seq<char>, b: Seq<char>)
    ensures
        percent_encoded(a + b) == percent_encoded(a) + percent_encoded(b),
    decreases a.len(),
{
    if a.len() == 0 {
        assert(a + b =~= b);
        assert(percent_encoded(a) + percent_encoded(b) =~= percent_encoded(b));
    } else {
        law_text_is_encoded_piece_by_piece(a.drop_first(), b);
        assert((a + b).drop_first() =~= a.drop_first() + b);
        assert((a + b).first() == a.first());
        assert(percent_encoded(a + b) =~= percent_encoded(a) + percent_encoded(b));
    }
}

/// Just the slashes at the end of a server's address are left out, and all of
/// them.
pub proof fn law_only_end_slashes_go(address: Seq<char>, slashes: Seq<char>)
    requires
        address.len() > 0 ==> address.last() != '/',
        forall|i: int| 0 <= i < slashes.len() ==> slashes[i] == '/',
    ensures
        without_end_slashes(address + slashes) == address,
    decreases slashes.len(),
{
    if slashes.len() == 0 {
        assert(address + slashes =~= address);
    } else {
        assert((address + slashes).drop_last() =~= address + slashes.drop_last());
        assert((address + slashes).last() == slashes[slashes.len() - 1]);
        law_only_end_slashes_go(address, slashes.drop_last());
    }
}

/// A login begins at the server's own address for it, and the browser is sent
/// back to this machine, at the very port that waits for it.
pub proof fn law_login_begins_at_the_server(
    address: Seq<char>,
    slashes: Seq<char>,
    port: u16,
)
    requires
        address.len() > 0 ==> address.last() != '/',
        forall|i: int| 0 <= i < slashes.len() ==> slashes[i] == '/',
    ensures
        auth_text(address + slashes, port) == address + "/auth/telegram/start?redirect_uri="@
            + percent_encoded("http://127.0.0.1:"@ + decimal(port as nat) + "/callback"@),
        redirect_text(port) == "http://127.0.0.1:"@ + decimal(port as nat) + "/callback"@,
{
    law_only_end_slashes_go(address, slashes);
}

/// A user goes by the user name where there is one, by the first name where
/// there is only that, and else by `user`; the greeting says so, and the id.
pub proof fn law_user_is_greeted_by_name(user: User)
    ensures
        ({
            let name = match (user.username, user.first_name) {
                (Some(username), _) => username@,
                (None, Some(first_name)) => first_name@,
                (None, None) => "user"@,
            };
            &&& display_name_of(text_in(user.username), text_in(user.first_name)) == name
            &&& greeting_text(user) == "Logged in as "@ + name + " (id: "@ + signed_decimal(
                user.id as int,
            ) + ")"@
        }),
{
}

/// A login goes through its steps in order. The browser is opened at the
/// address for the port, whether or not that works the browser is waited for,
/// and where it brings a code it is answered, the server is given that code,
/// and the token that the server gives for it is saved.
pub proof fn law_login_goes_through_its_steps(
    api_url: Seq<char>,
    port: u16,
    opened: bool,
    request: Vec<u8>,
    reply: AuthReply,
    stages: Seq<LoginStage>,
    actions: Seq<LoginAction>,
)
    requires
        stages.len() == 7,
        actions.len() == 6,
        stages[0] is Begin,
        login_goes_on(api_url, stages[0], LoginEvent::Bound(port), stages[1], actions[0]),
        login_goes_on(api_url, stages[1], LoginEvent::Opened(opened), stages[2], actions[1]),
        login_goes_on(api_url, stages[2], LoginEvent::Request(request), stages[3], actions[2]),
        callback_code(utf8_lossy(request@)) is Some,
        login_goes_on(api_url, stages[3], LoginEvent::Answered, stages[4], actions[3]),
        login_goes_on(api_url, stages[4], LoginEvent::Exchanged(reply), stages[5], actions[4]),
        login_goes_on(api_url, stages[5], LoginEvent::Saved, stages[6], actions[5]),
    ensures
        actions[0] matches LoginAction::Open { url } && url@ == auth_text(api_url, port),
        actions[1] is Await,
        actions[2] is Respond,
        actions[3] matches LoginAction::Exchange { code } && callback_code(utf8_lossy(request@))
            == Some(code@),
        actions[4] == (LoginAction::Save { token: reply.token }),
        actions[5] is Finish,
        stages[6] is Over,
        login_notes(api_url, stages[5], LoginEvent::Saved) == seq![
            greeting_text(reply.user),
            expiry_text(expiry_of(reply.token@)),
        ],
{
}

/// The user is told where to go before the browser opens, that it did not open
/// just where it did not, who logged in and for how long once the token is
/// saved, and nothing at any other step.
pub proof fn law_user_is_told_of_the_login(api_url: Seq<char>, stage: LoginStage, event: LoginEvent)
    requires
        login_answers(stage, event),
    ensures
        event matches LoginEvent::Bound(port) ==> login_notes(api_url, stage, event) == seq![
            "Opening browser for Telegram login..."@,
            "If it doesn't open, visit: "@ + auth_text(api_url, port),
        ],
        event == LoginEvent::Opened(false) ==> login_notes(api_url, stage, event) == seq![
            "Failed to open browser automatically."@,
        ],
        event is Saved ==> (stage matches LoginStage::Save { token, user } && login_notes(
            api_url,
            stage,
            event,
        ) == seq![greeting_text(user), expiry_text(expiry_of(token@))]),
        !(event is Bound || event is Saved || event == LoginEvent::Opened(false)) ==> login_notes(
            api_url,
            stage,
            event,
        ).len() == 0,
{
}

/// The lines that are told are the notes, one by one.
pub proof fn law_notes_are_told_one_by_one(notes: Seq<String>, i: int)
    ensures
        lines(notes).len() == notes.len(),
        0 <= i < notes.len() ==> lines(notes)[i] == notes[i]@,
{
}

/// Unless another server is named, a login begins at the usual one, whatever the
/// port.
pub proof fn law_login_at_the_usual_server(port: u16)
    ensures
        auth_text(DEFAULT_API_URL@, port)
            == "https://floppa.okhsunrog.dev/api/auth/telegram/start?redirect_uri="@
            + percent_encoded(redirect_text(port)),
{
    reveal_strlit("https://floppa.okhsunrog.dev/api");
    reveal_strlit("/auth/telegram/start?redirect_uri=");
    reveal_strlit("https://floppa.okhsunrog.dev/api/auth/telegram/start?redirect_uri=");
    assert(DEFAULT_API_URL@ + "/auth/telegram/start?redirect_uri="@
        =~= "https://floppa.okhsunrog.dev/api/auth/telegram/start?redirect_uri="@);
}

}
