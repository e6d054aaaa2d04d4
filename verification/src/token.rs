//! The login token: where it is kept, how it is read and written, and what it
//! tells of its own expiry.

use crate::numerals::{decimal, decimal_chars};
use crate::text::{
    all_white, chars_of, is_white, law_separators_end_parts,
    law_trimming_takes_the_white_space_around, lemma_position_is, lemma_trimmed_front_length, parts,
    same_text, split, string_of, trim, trimmed, trimmed_back, trimmed_front,
};
use crate::time::{format_time, utc_text, Span, UnixTime, NANOS_PER_SEC};
use base64::Engine;
use vstd::prelude::*;
use vstd::string::StringExecFns;

verus! {

/// The directory, below the user's configuration directory, that holds what
/// this program keeps.
pub const APP_DIR: &'static str = "floppa-cli";

/// The file in that directory that holds the token.
pub const TOKEN_FILE: &'static str = "token";

/// The permissions of the token file: its owner reads and writes it, and nobody
/// else does either.
pub const TOKEN_MODE: u32 = 0o600;

/// Where the token is kept.
#[derive(Debug)]
pub enum TokenPath {
    /// At the path that the user gave.
    Given(String),
    /// In a file of a directory below the user's configuration directory.
    InConfigDir { dir: String, file: String },
}

/// What stands in the way of finding the token.
#[derive(Clone, Copy, Debug, PartialEq, Eq, Structural)]
pub enum TokenError {
    /// The user has no configuration directory.
    NoConfigDir,
}

impl TokenError {
    /// What the user is told.
    pub fn message(&self) -> (text: &'static str)
        ensures
            text@ == "Cannot determine config directory"@,
    {
        "Cannot determine config directory"
    }
}

/// Tells where the token is kept. A path that the user gives wins, whether or
/// not there is a configuration directory.
pub fn token_path(override_path: Option<&str>, has_config_dir: bool) -> (r: Result<
    TokenPath,
    TokenError,
>)
    ensures
        match override_path {
            Some(given) => r matches Ok(TokenPath::Given(path)) && path@ == given@,
            None => if has_config_dir {
                r matches Ok(TokenPath::InConfigDir { dir, file }) && dir@ == APP_DIR@ && file@
                    == TOKEN_FILE@
            } else {
                r == Err::<TokenPath, TokenError>(TokenError::NoConfigDir)
            },
        },
{
    match override_path {
        Some(given) => Ok(TokenPath::Given(given.to_owned())),
        None => if has_config_dir {
            Ok(TokenPath::InConfigDir { dir: APP_DIR.to_owned(), file: TOKEN_FILE.to_owned() })
        } else {
            Err(TokenError::NoConfigDir)
        },
    }
}

/// The text in a borrowed string, where there is one.
pub open spec fn text_of(s: Option<&str>) -> Option<Seq<char>> {
    match s {
        Some(text) => Some(text@),
        None => None,
    }
}

/// The token in a file that holds `contents`, or in no file at all: what the
/// file holds without the white space around it, unless that is nothing.
pub open spec fn loaded_token(contents: Option<Seq<char>>) -> Option<Seq<char>> {
    match contents {
        Some(text) if trimmed(text).len() > 0 => Some(trimmed(text)),
        _ => None,
    }
}

/// Reads the token out of what its file holds; there is no file where there
/// are no contents.
pub fn load_token(contents: Option<&str>) -> (r: Option<String>)
    ensures
        match r {
            Some(token) => loaded_token(text_of(contents)) == Some(token@),
            None => loaded_token(text_of(contents)) is None,
        },
{
    match contents {
        Some(text) => {
            let chars = chars_of(text);
            let token = trim(chars.as_slice());
            if token.len() == 0 {
                None
            } else {
                Some(string_of(token))
            }
        },
        None => None,
    }
}

/// The token file as it is to be written.
#[derive(Debug)]
pub struct TokenFile {
    pub contents: String,
    pub mode: u32,
}

/// Tells what the token file is to hold and who may read it, wherever it is
/// kept.
pub fn save_token(token: &str) -> (file: TokenFile)
    ensures
        file.contents@ == token@,
        file.mode == TOKEN_MODE,
{
    TokenFile { contents: token.to_owned(), mode: TOKEN_MODE }
}

/// What is to be done with the token file.
#[derive(Clone, Copy, Debug, PartialEq, Eq, Structural)]
pub enum FileStep {
    Remove,
    Leave,
}

impl FileStep {
    /// What the file holds afterwards, where it held `contents` before.
    pub open spec fn applied(self, contents: Option<Seq<char>>) -> Option<Seq<char>> {
        match self {
            FileStep::Remove => None,
            FileStep::Leave => contents,
        }
    }
}

/// What a logout does with the token file.
pub open spec fn logout_step(present: bool) -> FileStep {
    if present { FileStep::Remove } else { FileStep::Leave }
}

/// Tells what a logout does with the token file, which may not be there.
pub fn logout(present: bool) -> (step: FileStep)
    ensures
        step == logout_step(present),
{
    if present {
        FileStep::Remove
    } else {
        FileStep::Leave
    }
}

/// What is told after a logout.
pub const LOGGED_OUT: &'static str = "Logged out.";

/// A JSON document, as far as it matters here: the members of an object, each
/// with its name and, where it is an unsigned integer of 64 bits, its value; or
/// a document that is no object.
#[derive(Debug)]
pub enum Json {
    Object(Vec<(String, Option<u64>)>),
    Other,
}

impl View for Json {
    type V = Option<Seq<(Seq<char>, Option<u64>)>>;

    open spec fn view(&self) -> Option<Seq<(Seq<char>, Option<u64>)>> {
        match self {
            Json::Object(members) => Some(
                members@.map_values(|member: (String, Option<u64>)| (member.0@, member.1)),
            ),
            Json::Other => None,
        }
    }
}

/// The bytes that `base64` decodes a text to with its engine `URL_SAFE_NO_PAD`,
/// where it decodes it.
pub uninterp spec fn base64url_decoded(text: Seq<char>) -> Option<Seq<u8>>;

/// The bytes, where there are some.
pub open spec fn bytes_in(bytes: Option<Vec<u8>>) -> Option<Seq<u8>> {
    match bytes {
        Some(bytes) => Some(bytes@),
        None => None,
    }
}

/// `Engine::decode` of the engine `base64::engine::general_purpose::URL_SAFE_NO_PAD`
/// decodes text in the URL-safe alphabet without padding. Whether it does, and
/// to which bytes, depends on the text alone; which bytes these are is left to
/// that name.
#[verifier::external_body]
fn decode_base64url(text: &str) -> (bytes: Option<Vec<u8>>)
    ensures
        bytes_in(bytes) == base64url_decoded(text@),
{
    base64::engine::general_purpose::URL_SAFE_NO_PAD.decode(text).ok()
}

/// The document that `serde_json` reads from bytes, where they are JSON: `None`
/// inside where it is no object, and else the names of its members, each once,
/// with the values of those that are unsigned integers of 64 bits.
pub uninterp spec fn json_document(bytes: Seq<u8>) -> Option<Option<Seq<(Seq<char>, Option<u64>)>>>;

/// The document, where there is one.
pub open spec fn document_in(
    document: Option<Json>,
) -> Option<Option<Seq<(Seq<char>, Option<u64>)>>> {
    match document {
        Some(json) => Some(json@),
        None => None,
    }
}

/// `serde_json::from_slice` reads bytes as a JSON value. Whether they are one,
/// and which, depends on the bytes alone; which value that is is left to the
/// name. An object is taken over member by member, each value as
/// `serde_json::Value::as_u64` gives it.
#[verifier::external_body]
fn parse_json(bytes: &[u8]) -> (document: Option<Json>)
    ensures
        document_in(document) == json_document(bytes@),
{
    match serde_json::from_slice::<serde_json::Value>(bytes).ok()? {
        serde_json::Value::Object(members) => Some(
            Json::Object(members.into_iter().map(|(name, value)| (name, value.as_u64())).collect()),
        ),
        serde_json::Value::Array(_) => Some(Json::Other),
        serde_json::Value::String(_) => Some(Json::Other),
        serde_json::Value::Number(_) => Some(Json::Other),
        serde_json::Value::Bool(_) => Some(Json::Other),
        serde_json::Value::Null => Some(Json::Other),
    }
}

/// The value of the first member with the given name.
pub open spec fn member_value(
    members: Seq<(Seq<char>, Option<u64>)>,
    name: Seq<char>,
) -> Option<u64>
    decreases members.len(),
{
    if members.len() == 0 {
        None
    } else if members.first().0 == name {
        members.first().1
    } else {
        member_value(members.drop_first(), name)
    }
}

/// The point in time that lies `exp` seconds after the epoch, unless it is out
/// of range.
pub open spec fn time_of_exp(exp: Option<u64>) -> Option<UnixTime> {
    match exp {
        Some(secs) if secs <= i64::MAX => Some(UnixTime { secs: secs as i64, nanos: 0 }),
        _ => None,
    }
}

/// When a token with the given claims expires: the claim `exp`, in seconds
/// after the epoch, where the claims are an object with such a member that is
/// an unsigned integer within the range of time.
pub open spec fn expiry_in(claims: Option<Seq<(Seq<char>, Option<u64>)>>) -> Option<UnixTime> {
    match claims {
        Some(members) => time_of_exp(member_value(members, "exp"@)),
        None => None,
    }
}

/// The part of a token that holds its claims, in base64: what stands between
/// its first dot and the next.
pub open spec fn payload_of(token: Seq<char>) -> Option<Seq<char>> {
    let pieces = parts(token, '.');
    if pieces.len() > 1 { Some(pieces[1]) } else { None }
}

/// When a token says that it expires, where it says so.
pub open spec fn expiry_of(token: Seq<char>) -> Option<UnixTime> {
    match payload_of(token) {
        Some(payload) => match base64url_decoded(payload) {
            Some(bytes) => match json_document(bytes) {
                Some(claims) => expiry_in(claims),
                None => None,
            },
            None => None,
        },
        None => None,
    }
}

/// Reads the expiry out of a token's claims.
pub fn claims_expiry(claims: &Json) -> (r: Option<UnixTime>)
    ensures
        r == expiry_in(claims@),
{
    let members = match claims {
        Json::Object(members) => members,
        Json::Other => {
            return None;
        },
    };
    let ghost all = members@.map_values(|member: (String, Option<u64>)| (member.0@, member.1));
    assert(all.skip(0) =~= all);
    let mut i: usize = 0;
    while i < members.len()
        invariant
            i <= members@.len(),
            all == members@.map_values(|member: (String, Option<u64>)| (member.0@, member.1)),
            claims@ == Some(all),
            member_value(all.skip(i as int), "exp"@) == member_value(all, "exp"@),
        decreases members@.len() - i,
    {
        assert(all.skip(i as int).first() == (members@[i as int].0@, members@[i as int].1));
        assert(all.skip(i as int).drop_first() =~= all.skip(i + 1));
        if same_text(members[i].0.as_str(), "exp") {
            return match members[i].1 {
                Some(secs) => UnixTime::after_epoch(&Span { secs, nanos: 0 }),
                None => None,
            };
        }
        i += 1;
    }
    assert(all.skip(i as int).len() == 0);
    None
}

/// Finds the part of a token that holds its claims.
fn token_payload(token: &str) -> (r: Option<String>)
    ensures
        match r {
            Some(payload) => payload_of(token@) == Some(payload@),
            None => payload_of(token@) is None,
        },
{
    let chars = chars_of(token);
    let pieces = split(chars.as_slice(), '.');
    if pieces.len() > 1 {
        Some(string_of(pieces[1]))
    } else {
        None
    }
}

/// Reads the claim `exp` of a token without verifying its signature. This is
/// advisory: it serves to warn before the token expires, never to reject it.
/// `None` stands for whatever is not a readable token with such a claim; it
/// means that the expiry is unknown, not that the token has expired.
pub fn token_expiry(token: &str) -> (r: Option<UnixTime>)
    ensures
        r == expiry_of(token@),
        r matches Some(t) ==> t.secs >= 0 && t.nanos == 0,
{
    let payload = match token_payload(token) {
        Some(payload) => payload,
        None => {
            return None;
        },
    };
    let bytes = match decode_base64url(payload.as_str()) {
        Some(bytes) => bytes,
        None => {
            return None;
        },
    };
    match parse_json(bytes.as_slice()) {
        Some(claims) => claims_expiry(&claims),
        None => None,
    }
}

/// What is told of an expiry after a login.
pub open spec fn expiry_text(expiry: Option<UnixTime>) -> Seq<char> {
    match expiry {
        Some(t) => "Token valid until "@ + utc_text(t.whole_secs()),
        None => "Could not determine token expiry (unexpected token format)."@,
    }
}

/// Renders what is told of an expiry after a login.
pub fn expiry_notice(expiry: Option<UnixTime>) -> (line: String)
    requires
        expiry matches Some(t) ==> t.wf() && t.total() > i64::MIN * NANOS_PER_SEC,
    ensures
        line@ == expiry_text(expiry),
{
    match expiry {
        Some(t) => {
            let mut line = String::new();
            line.append("Token valid until ");
            assert(line@ =~= "Token valid until "@);
            line.append(format_time(&t).as_str());
            line
        },
        None => "Could not determine token expiry (unexpected token format).".to_owned(),
    }
}

/// Renders what is told of a new token after a login.
pub fn token_notice(token: &str) -> (line: String)
    ensures
        line@ == expiry_text(expiry_of(token@)),
{
    expiry_notice(token_expiry(token))
}

/// How long before its expiry a token is warned of, in seconds.
pub const WARNING_SECS: u64 = 86_400;

/// What is warned of a token that expires at `expiry`, at the time `now`: that
/// it has expired, or in how many whole hours it will where that is a day or
/// less. An unknown expiry is no reason to warn.
pub open spec fn expiry_warning(expiry: Option<UnixTime>, now: UnixTime) -> Option<Seq<char>> {
    match expiry {
        Some(t) => if t.total() < now.total() {
            Some("Warning: token appears expired — re-login if this fails."@)
        } else if t.total() - now.total() <= WARNING_SECS * NANOS_PER_SEC {
            Some(
                "Warning: token expires in "@ + decimal(
                    ((t.total() - now.total()) / (NANOS_PER_SEC as int) / 3600) as nat,
                ) + "h"@,
            )
        } else {
            None
        },
        None => None,
    }
}

/// Renders the warning that is due for a token that expires at `expiry`, if one
/// is.
pub fn warning_for(expiry: Option<UnixTime>, now: &UnixTime) -> (r: Option<String>)
    requires
        now.wf(),
        expiry matches Some(t) ==> t.wf(),
    ensures
        match r {
            Some(line) => expiry_warning(expiry, *now) == Some(line@),
            None => expiry_warning(expiry, *now) is None,
        },
{
    let t = match expiry {
        Some(t) => t,
        None => {
            return None;
        },
    };
    match t.duration_since(now) {
        None => Some("Warning: token appears expired — re-login if this fails.".to_owned()),
        Some(remaining) => if remaining.at_most(&Span { secs: WARNING_SECS, nanos: 0 }) {
            let hours: u64 = remaining.secs / 3600;
            assert(remaining.total() / (NANOS_PER_SEC as int) == remaining.secs);
            let mut line = String::new();
            line.append("Warning: token expires in ");
            assert(line@ =~= "Warning: token expires in "@);
            line.append(string_of(decimal_chars(hours).as_slice()).as_str());
            line.append("h");
            Some(line)
        } else {
            None
        },
    }
}

/// Renders the warning that is due for a token at the time `now`, if one is.
/// Nothing is rejected: whether the token is still good is for the server to
/// say.
pub fn warn_if_expiring(token: &str, now: &UnixTime) -> (r: Option<String>)
    requires
        now.wf(),
    ensures
        match r {
            Some(line) => expiry_warning(expiry_of(token@), *now) == Some(line@),
            None => expiry_warning(expiry_of(token@), *now) is None,
        },
{
    warning_for(token_expiry(token), now)
}

/// A token that is saved loads back as it was, where it is not empty and has no
/// white space around it.
pub proof fn law_saved_token_loads_back(token: Seq<char>)
    requires
        token.len() > 0,
        !is_white(token.first()),
        !is_white(token.last()),
    ensures
        loaded_token(Some(token)) == Some(token),
{
}

proof fn lemma_trimmed_back(s: Seq<char>)
    ensures
        trimmed_back(s).is_prefix_of(s),
        trimmed_back(s).len() > 0 ==> !is_white(trimmed_back(s).last()),
    decreases s.len(),
{
    if s.len() > 0 && is_white(s.last()) {
        lemma_trimmed_back(s.drop_last());
    }
}

/// A token that was loaded and is saved again loads as the same token.
pub proof fn law_loaded_token_stays(contents: Option<Seq<char>>)
    ensures
        loaded_token(contents) matches Some(token) ==> loaded_token(Some(token)) == Some(token),
{
    if let Some(token) = loaded_token(contents) {
        let text = contents.unwrap();
        let front = trimmed_front(text);
        lemma_trimmed_front_length(text);
        lemma_trimmed_back(front);
        assert(token.first() == front.first());
        law_saved_token_loads_back(token);
    }
}

/// After a logout there is no token to load.
pub proof fn law_no_token_after_logout(contents: Option<Seq<char>>)
    ensures
        loaded_token(logout_step(contents is Some).applied(contents)) is None,
{
}

/// A token without a dot says nothing of its expiry, so nothing is ever warned
/// of it.
pub proof fn law_opaque_token_is_not_warned_of(token: Seq<char>, now: UnixTime)
    requires
        !token.contains('.'),
    ensures
        expiry_of(token) is None,
        expiry_warning(expiry_of(token), now) is None,
{
    assert forall|i: int| 0 <= i < token.len() implies token[i] != '.' by {
        assert(token.contains(token[i]));
    }
    lemma_position_is(token, '.', token.len() as int);
}

/// A warning does not go away as time goes on.
pub proof fn law_warning_stays_due(expiry: Option<UnixTime>, earlier: UnixTime, later: UnixTime)
    requires
        earlier.total() <= later.total(),
        expiry_warning(expiry, earlier) is Some,
    ensures
        expiry_warning(expiry, later) is Some,
{
}

/// Whatever a claim `exp` holds, reading it does not fail: past the range of
/// time it counts as unknown.
pub proof fn law_huge_exp_is_unknown(members: Seq<(Seq<char>, Option<u64>)>, exp: u64)
    requires
        member_value(members, "exp"@) == Some(exp),
    ensures
        expiry_in(Some(members)) is Some <==> exp <= i64::MAX,
        expiry_in(Some(members)) matches Some(t) ==> t.total() == exp * NANOS_PER_SEC,
{
}

/// A token is read from its file without the white space around it, and in no
/// other way: its own characters all stay. Where the file holds nothing else,
/// or is not there, there is no token.
pub proof fn law_token_is_read_from_its_file(lead: Seq<char>, token: Seq<char>, trail: Seq<char>)
    requires
        all_white(lead),
        all_white(trail),
        token.len() > 0 ==> !is_white(token.first()) && !is_white(token.last()),
    ensures
        token.len() > 0 ==> loaded_token(Some(lead + token + trail)) == Some(token),
        token.len() == 0 ==> loaded_token(Some(lead + token + trail)) is None,
        loaded_token(None) is None,
{
    law_trimming_takes_the_white_space_around(lead, token, trail);
}

/// A logout removes the token file just where it is there.
pub proof fn law_logout_removes_what_is_there(present: bool)
    ensures
        logout_step(present) is Remove <==> present,
{
}

/// The claims of a token stand between its first dot and its next, or its end.
/// Its expiry is what the claims say, once they are decoded and are an object;
/// where either fails it is unknown.
pub proof fn law_claims_stand_behind_the_first_dot(
    head: Seq<char>,
    payload: Seq<char>,
    rest: Seq<char>,
)
    requires
        !head.contains('.'),
        !payload.contains('.'),
        rest.len() > 0 ==> rest.first() == '.',
    ensures
        ({
            let token = head + seq!['.'] + payload + rest;
            &&& payload_of(token) == Some(payload)
            &&& base64url_decoded(payload) is None ==> expiry_of(token) is None
            &&& base64url_decoded(payload) matches Some(bytes) ==> {
                &&& json_document(bytes) is None ==> expiry_of(token) is None
                &&& json_document(bytes) == Some(None::<Seq<(Seq<char>, Option<u64>)>>)
                    ==> expiry_of(token) is None
                &&& json_document(bytes) matches Some(Some(members)) ==> expiry_of(token)
                    == expiry_in(Some(members))
            }
        }),
{
    let token = head + seq!['.'] + payload + rest;
    assert(token =~= head + seq!['.'] + (payload + rest));
    law_separators_end_parts(head, payload + rest, '.');
    if rest.len() > 0 {
        assert(payload + rest =~= payload + seq!['.'] + rest.drop_first());
        law_separators_end_parts(payload, rest.drop_first(), '.');
    } else {
        assert(payload + rest =~= payload);
        law_separators_end_parts(payload, rest, '.');
    }
}

/// The expiry is the claim `exp`, wherever it stands among the others, as so
/// many seconds after the epoch. It is known just where there is such a claim,
/// it is an unsigned integer, and it does not exceed the range of time.
pub proof fn law_expiry_is_the_claim_exp(members: Seq<(Seq<char>, Option<u64>)>, i: int)
    ensures
        expiry_in(None) is None,
        (forall|j: int| 0 <= j < members.len() ==> (#[trigger] members[j]).0 != "exp"@)
            ==> expiry_in(Some(members)) is None,
        0 <= i < members.len() && members[i].0 == "exp"@ && (forall|j: int|
            0 <= j < i ==> (#[trigger] members[j]).0 != "exp"@) ==> match members[i].1 {
            Some(secs) if secs <= 0x7fff_ffff_ffff_ffff => expiry_in(Some(members)) == Some(
                UnixTime { secs: secs as i64, nanos: 0 },
            ),
            _ => expiry_in(Some(members)) is None,
        },
    decreases members.len(),
{
    if members.len() > 0 && members[0].0 != "exp"@ {
        let rest = members.drop_first();
        assert forall|j: int| 0 <= j < rest.len() implies #[trigger] rest[j] == members[j + 1] by {
        }
        law_expiry_is_the_claim_exp(rest, i - 1);
    }
}

/// The claims of a document are its members, one by one.
pub proof fn law_document_is_its_members(members: Vec<(String, Option<u64>)>, i: int)
    ensures
        Json::Other@ is None,
        Json::Object(members)@ matches Some(claims) && claims.len() == members@.len() && (0 <= i
            < members@.len() ==> claims[i] == (members@[i].0@, members@[i].1)),
{
}

/// After a login a known expiry is told as a point in time, and an unknown one
/// as unknown.
pub proof fn law_expiry_is_told(t: UnixTime)
    ensures
        expiry_text(Some(t)) == "Token valid until "@ + utc_text(t.whole_secs()),
        expiry_text(None) == "Could not determine token expiry (unexpected token format)."@,
{
}

/// A warning is due just where the expiry is known and no more than a day
/// ahead. It says that the token appears expired just where the expiry lies
/// behind, and else in how many hours it comes: as many whole hours as are
/// left.
pub proof fn law_warning_counts_the_hours_left(t: UnixTime, now: UnixTime, hours: int)
    ensures
        ({
            let left = (t.secs * 1_000_000_000 + t.nanos) - (now.secs * 1_000_000_000 + now.nanos);
            let warning = expiry_warning(Some(t), now);
            &&& warning is Some <==> left <= 24 * 3600 * 1_000_000_000
            &&& left < 0 ==> warning == Some(
                "Warning: token appears expired — re-login if this fails."@,
            )
            &&& 0 <= left <= 24 * 3600 * 1_000_000_000 && hours * 3600 * 1_000_000_000 <= left
                < (hours + 1) * 3600 * 1_000_000_000 ==> warning == Some(
                "Warning: token expires in "@ + decimal(hours as nat) + "h"@,
            )
            &&& expiry_warning(None, now) is None
        }),
{
    let left = t.total() - now.total();
    if 0 <= left && hours * 3600 * 1_000_000_000 <= left < (hours + 1) * 3600 * 1_000_000_000 {
        assert(left / 1_000_000_000 / 3600 == hours);
    }
}

/// A borrowed text is taken as it is, an empty one too.
pub proof fn law_text_is_taken_as_it_is(s: &str)
    ensures
        text_of(Some(s)) == Some(s@),
        text_of(None) is None,
{
}

}
