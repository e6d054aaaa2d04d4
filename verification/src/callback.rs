//! The browser's request that ends a login, and the page that answers it.

use crate::numerals::{decimal, decimal_chars};
use crate::text::{
    all_white, chars_of, first_line, from_utf8_lossy, halves, is_white, joined,
    law_joined_parts_come_apart, law_line_ends_at_the_line_feed, law_separators_end_parts,
    law_white_space_ends_words, lemma_position, lemma_position_is, lemma_word_length_is, parts,
    same_chars, split, split_once, split_whitespace, string_of, take_line, trimmed_front,
    utf8_lossy, words,
};
use vstd::prelude::*;
use vstd::string::StringExecFns;
use vstd::utf8::{
    decode_utf8, encode_utf8, encode_utf8_decode_utf8, encode_utf8_valid_utf8, valid_utf8,
};

verus! {

/// How many bytes of the browser's request are read.
pub const REQUEST_LIMIT: usize = 4096;

/// What stands in the way of a login.
#[derive(Clone, Copy, Debug, PartialEq, Eq, Structural)]
pub enum CallbackError {
    /// The browser's request names no login code.
    NoCode,
}

/// What the user is told of an error.
pub open spec fn error_text(error: CallbackError) -> Seq<char> {
    match error {
        CallbackError::NoCode => "No 'code' parameter in callback"@,
    }
}

impl CallbackError {
    /// What the user is told.
    pub fn message(&self) -> (text: &'static str)
        ensures
            text@ == error_text(*self),
    {
        "No 'code' parameter in callback"
    }
}

/// The value of the first query parameter with the name `code`.
pub open spec fn code_of(params: Seq<Seq<char>>) -> Option<Seq<char>>
    decreases params.len(),
{
    if params.len() == 0 {
        None
    } else {
        match halves(params.first(), '=') {
            Some((name, value)) if name == seq!['c', 'o', 'd', 'e'] => Some(value),
            _ => code_of(params.drop_first()),
        }
    }
}

/// The query of a request target: what stands between its first question mark
/// and the next.
pub open spec fn query_of(target: Seq<char>) -> Option<Seq<char>> {
    let pieces = parts(target, '?');
    if pieces.len() > 1 { Some(pieces[1]) } else { None }
}

/// The login code that an HTTP request names: in its first line the second
/// word is the target, and the code is a parameter of the target's query.
pub open spec fn callback_code(request: Seq<char>) -> Option<Seq<char>> {
    match first_line(request) {
        Some(line) => if words(line).len() > 1 {
            match query_of(words(line)[1]) {
                Some(query) => code_of(parts(query, '&')),
                None => None,
            }
        } else {
            None
        },
        None => None,
    }
}

/// Finds the first query parameter with the name `code`.
fn find_code(params: &Vec<&[char]>) -> (r: Option<String>)
    ensures
        match r {
            Some(code) => code_of(params@.map_values(|p: &[char]| p@)) == Some(code@),
            None => code_of(params@.map_values(|p: &[char]| p@)) is None,
        },
{
    let name: [char; 4] = ['c', 'o', 'd', 'e'];
    let ghost all = params@.map_values(|p: &[char]| p@);
    assert(all.skip(0) =~= all);
    let mut i: usize = 0;
    while i < params.len()
        invariant
            i <= params@.len(),
            all == params@.map_values(|p: &[char]| p@),
            code_of(all.skip(i as int)) == code_of(all),
            name@ == seq!['c', 'o', 'd', 'e'],
        decreases params@.len() - i,
    {
        assert(all.skip(i as int).first() == params@[i as int]@);
        assert(all.skip(i as int).drop_first() =~= all.skip(i + 1));
        if let Some((key, value)) = split_once(params[i], '=') {
            if same_chars(key, name.as_slice()) {
                return Some(string_of(value));
            }
        }
        i += 1;
    }
    assert(all.skip(i as int).len() == 0);
    None
}

/// Reads the login code out of the text of an HTTP request.
pub fn parse_callback(request: &str) -> (r: Option<String>)
    ensures
        match r {
            Some(code) => callback_code(request@) == Some(code@),
            None => callback_code(request@) is None,
        },
{
    let chars = chars_of(request);
    let line = match take_line(chars.as_slice()) {
        Some(line) => line,
        None => {
            return None;
        },
    };
    let line_words = split_whitespace(line);
    if line_words.len() < 2 {
        return None;
    }
    let pieces = split(line_words[1], '?');
    if pieces.len() < 2 {
        return None;
    }
    let params = split(pieces[1], '&');
    assert(params@.map_values(|p: &[char]| p@) =~= parts(pieces@[1]@, '&'));
    find_code(&params)
}

/// Reads the login code out of the bytes of an HTTP request.
pub fn wait_for_callback(request: &[u8]) -> (r: Result<String, CallbackError>)
    ensures
        match r {
            Ok(code) => callback_code(utf8_lossy(request@)) == Some(code@),
            Err(error) => callback_code(utf8_lossy(request@)) is None && error
                == CallbackError::NoCode,
        },
        valid_utf8(request@) ==> match r {
            Ok(code) => callback_code(decode_utf8(request@)) == Some(code@),
            Err(_) => callback_code(decode_utf8(request@)) is None,
        },
{
    let text = from_utf8_lossy(request);
    match parse_callback(text.as_str()) {
        Some(code) => Ok(code),
        None => Err(CallbackError::NoCode),
    }
}

/// Whether none of the characters of `s` is white space.
pub open spec fn no_white(s: Seq<char>) -> bool {
    forall|i: int| 0 <= i < s.len() ==> !is_white(#[trigger] s[i])
}

/// A request that a browser sends for the query `query` of `path`, followed by
/// whatever headers.
pub open spec fn browser_request(path: Seq<char>, query: Seq<char>, rest: Seq<char>) -> Seq<char> {
    seq!['G', 'E', 'T', ' '] + (path + seq!['?'] + query) + seq![
        ' ',
        'H',
        'T',
        'T',
        'P',
        '/',
        '1',
        '.',
        '1',
        '\r',
        '\n',
    ] + rest
}

/// The request line that a browser sends is split into its target.
proof fn lemma_target_of_request(target: Seq<char>, request: Seq<char>, rest: Seq<char>)
    requires
        target.len() > 0,
        no_white(target),
        request == seq!['G', 'E', 'T', ' '] + target + seq![
            ' ',
            'H',
            'T',
            'T',
            'P',
            '/',
            '1',
            '.',
            '1',
            '\r',
            '\n',
        ] + rest,
    ensures
        first_line(request) is Some,
        words(first_line(request).unwrap()).len() > 1,
        words(first_line(request).unwrap())[1] == target,
{
    let end: int = target.len() as int + 14;
    assert forall|i: int| 0 <= i < end implies request[i] != '\n' by {
        if 4 <= i < 4 + target.len() {
            assert(request[i] == target[i - 4]);
        }
    }
    lemma_position_is(request, '\n', end);
    let line = request.take(end - 1);
    assert(first_line(request) == Some(line));
    lemma_word_length_is(line, 3);
    assert(trimmed_front(line) == line);
    let more = line.skip(3);
    assert(words(line) == seq![line.take(3)] + words(more));
    let tail = more.drop_first();
    assert(is_white(more.first()));
    assert(tail[0] == target[0]);
    assert(trimmed_front(tail) == tail);
    assert(trimmed_front(more) == tail);
    assert forall|i: int| 0 <= i < target.len() implies !is_white(tail[i]) by {
        assert(tail[i] == target[i]);
    }
    lemma_word_length_is(tail, target.len() as int);
    assert(tail.take(target.len() as int) =~= target);
    assert(words(more) == seq![target] + words(tail.skip(target.len() as int)));
    assert(words(line)[1] == words(more)[0]);
}

/// A browser's request is read as its query: the login code is looked up among
/// the parameters that the query holds, whatever the path before it and the
/// headers after it.
pub proof fn law_callback_reads_the_query(path: Seq<char>, query: Seq<char>, rest: Seq<char>)
    requires
        no_white(path),
        no_white(query),
        !path.contains('?'),
        !query.contains('?'),
    ensures
        callback_code(browser_request(path, query, rest)) == code_of(parts(query, '&')),
{
    let target = path + seq!['?'] + query;
    let request = browser_request(path, query, rest);
    assert forall|i: int| 0 <= i < target.len() implies !is_white(#[trigger] target[i]) by {
        if i < path.len() {
            assert(target[i] == path[i]);
        } else if i > path.len() {
            assert(target[i] == query[i - path.len() - 1]);
        }
    }
    lemma_target_of_request(target, request, rest);
    assert forall|i: int| 0 <= i < path.len() implies target[i] != '?' by {
        assert(target[i] == path[i]);
        assert(path.contains(path[i]));
    }
    lemma_position_is(target, '?', path.len() as int);
    assert(target.skip(path.len() as int + 1) =~= query);
    assert forall|i: int| 0 <= i < query.len() implies query[i] != '?' by {
        assert(query.contains(query[i]));
    }
    lemma_position_is(query, '?', query.len() as int);
    assert(parts(target, '?')[1] == parts(query, '?')[0]);
}

/// The code that a browser is sent back with is the code that the login gets:
/// any code without white space, `?` and `&` comes through unchanged.
pub proof fn law_callback_gives_back_the_code(code: Seq<char>, rest: Seq<char>)
    requires
        no_white(code),
        !code.contains('?'),
        !code.contains('&'),
    ensures
        callback_code(
            browser_request(
                seq!['/', 'c', 'a', 'l', 'l', 'b', 'a', 'c', 'k'],
                seq!['c', 'o', 'd', 'e', '='] + code,
                rest,
            ),
        ) == Some(code),
{
    let path = seq!['/', 'c', 'a', 'l', 'l', 'b', 'a', 'c', 'k'];
    let query = seq!['c', 'o', 'd', 'e', '='] + code;
    assert forall|i: int| 0 <= i < query.len() implies !is_white(#[trigger] query[i]) && query[i]
        != '?' && query[i] != '&' by {
        if i >= 5 {
            assert(query[i] == code[i - 5]);
            assert(code.contains(code[i - 5]));
        }
    }
    law_callback_reads_the_query(path, query, rest);
    lemma_position_is(query, '&', query.len() as int);
    assert(parts(query, '&') == seq![query]);
    lemma_position_is(query, '=', 4);
    assert(query.take(4) =~= seq!['c', 'o', 'd', 'e']);
    assert(query.skip(5) =~= code);
    assert(seq![query].first() == query);
}

/// The code also comes through as bytes: what the browser sends is valid UTF-8
/// and is read as the request that it encodes.
pub proof fn law_code_comes_through_as_bytes(code: Seq<char>, rest: Seq<char>)
    requires
        no_white(code),
        !code.contains('?'),
        !code.contains('&'),
    ensures
        ({
            let bytes = encode_utf8(
                browser_request(
                    seq!['/', 'c', 'a', 'l', 'l', 'b', 'a', 'c', 'k'],
                    seq!['c', 'o', 'd', 'e', '='] + code,
                    rest,
                ),
            );
            valid_utf8(bytes) && callback_code(decode_utf8(bytes)) == Some(code)
        }),
{
    let request = browser_request(
        seq!['/', 'c', 'a', 'l', 'l', 'b', 'a', 'c', 'k'],
        seq!['c', 'o', 'd', 'e', '='] + code,
        rest,
    );
    law_callback_gives_back_the_code(code, rest);
    encode_utf8_valid_utf8(request);
    encode_utf8_decode_utf8(request);
}

/// The page that the browser shows after a login.
pub const SUCCESS_PAGE: &'static str = r#"<!DOCTYPE html>
<html><head><title>Floppa VPN</title></head>
<body style="font-family:system-ui;display:flex;justify-content:center;align-items:center;height:100vh;margin:0">
<div style="text-align:center">
<h1>Login successful!</h1>
<p>You can close this tab and return to the terminal.</p>
</div></body></html>"#;

/// An HTTP response that carries an HTML page and announces its length in
/// bytes.
pub open spec fn page_response(page: Seq<char>) -> Seq<char> {
    "HTTP/1.1 200 OK\r\nContent-Type: text/html\r\nContent-Length: "@ + decimal(
        encode_utf8(page).len(),
    ) + "\r\nConnection: close\r\n\r\n"@ + page
}

/// Renders the HTTP response that tells the browser of the login.
pub fn callback_response() -> (text: String)
    ensures
        text@ == page_response(SUCCESS_PAGE@),
{
    let page: &str = SUCCESS_PAGE;
    let length = decimal_chars(page.as_bytes().len() as u64);
    let mut text = String::new();
    text.append("HTTP/1.1 200 OK\r\nContent-Type: text/html\r\nContent-Length: ");
    assert(text@ =~= "HTTP/1.1 200 OK\r\nContent-Type: text/html\r\nContent-Length: "@);
    text.append(string_of(length.as_slice()).as_str());
    text.append("\r\nConnection: close\r\n\r\n");
    text.append(page);
    text
}

/// The name `code` and the sign between a name and its value.
pub open spec fn code_name() -> Seq<char> {
    seq!['c', 'o', 'd', 'e', '=']
}

proof fn lemma_names_code(param: Seq<char>)
    ensures
        code_name().is_prefix_of(param) ==> halves(param, '=') == Some(
            (seq!['c', 'o', 'd', 'e'], param.skip(5)),
        ),
        !code_name().is_prefix_of(param) ==> !(halves(param, '=') matches Some((name, _)) && name
            == seq!['c', 'o', 'd', 'e']),
{
    let name = seq!['c', 'o', 'd', 'e'];
    if code_name().is_prefix_of(param) {
        assert(param.take(5) == code_name());
        assert forall|i: int| 0 <= i < 5 implies param[i] == code_name()[i] by {
            assert(param[i] == param.take(5)[i]);
        }
        assert(param =~= name + seq!['='] + param.skip(5));
        law_separators_end_parts(name, param.skip(5), '=');
    } else if let Some((found, value)) = halves(param, '=') {
        if found == name {
            lemma_position(param, '=');
            assert(param.take(4) =~= name);
            assert(param.take(5) =~= code_name());
        }
    }
}

/// Of the parameters of a query, the first that is named `code` gives the code,
/// wherever it stands among the others, and its whole value is the code. There
/// is no code just where no parameter has that name.
pub proof fn law_first_code_counts(params: Seq<Seq<char>>, i: int)
    ensures
        0 <= i < params.len() && code_name().is_prefix_of(params[i]) && (forall|j: int|
            0 <= j < i ==> !code_name().is_prefix_of(#[trigger] params[j])) ==> code_of(params)
            == Some(params[i].skip(5)),
        code_of(params) is None <==> (forall|j: int|
            0 <= j < params.len() ==> !code_name().is_prefix_of(#[trigger] params[j])),
    decreases params.len(),
{
    if params.len() > 0 {
        let rest = params.drop_first();
        lemma_names_code(params[0]);
        law_first_code_counts(rest, i - 1);
        if code_name().is_prefix_of(params[0]) {
            assert(code_of(params) == Some(params[0].skip(5)));
        } else {
            assert(code_of(params) == code_of(rest));
            assert forall|j: int| 0 <= j < rest.len() implies #[trigger] rest[j] == params[j + 1] by {
            }
            if forall|j: int| 0 <= j < rest.len() ==> !code_name().is_prefix_of(
                #[trigger] rest[j],
            ) {
                assert forall|j: int| 0 <= j < params.len() implies !code_name().is_prefix_of(
                    #[trigger] params[j],
                ) by {
                    if j > 0 {
                        assert(params[j] == rest[j - 1]);
                    }
                }
            }
        }
    }
}

/// The first line of a request is read up to its target, whatever stands around
/// it.
proof fn lemma_second_word(
    lead: Seq<char>,
    method: Seq<char>,
    gap: Seq<char>,
    target: Seq<char>,
    tail: Seq<char>,
    ending: Seq<char>,
)
    requires
        all_white(lead),
        !lead.contains('\n'),
        method.len() > 0,
        no_white(method),
        gap.len() > 0,
        all_white(gap),
        !gap.contains('\n'),
        target.len() > 0,
        no_white(target),
        !tail.contains('\n'),
        tail.len() > 0 ==> is_white(tail.first()),
        ending.len() > 0 ==> ending.first() == '\n',
    ensures
        ({
            let line = first_line(lead + method + gap + target + tail + ending);
            line is Some && words(line.unwrap()).len() > 1 && words(line.unwrap())[1] == target
        }),
{
    if ending.len() > 0 && tail.len() > 0 && tail.last() == '\r' {
        let shorter = tail.drop_last();
        let line = lead + method + gap + target + shorter;
        assert(lead + method + gap + target + tail + ending =~= line + seq!['\r', '\n']
            + ending.drop_first());
        lemma_line_of_words(lead, method, gap, target, shorter);
        law_line_ends_at_the_line_feed(line, ending.drop_first());
    } else {
        let line = lead + method + gap + target + tail;
        lemma_line_of_words(lead, method, gap, target, tail);
        assert(!is_white(target[target.len() - 1]));
        if ending.len() > 0 {
            assert(line + ending =~= line + seq!['\n'] + ending.drop_first());
            assert(line.last() == (if tail.len() > 0 { tail.last() } else { target.last() }));
        } else {
            assert(line + ending =~= line);
        }
        law_line_ends_at_the_line_feed(line, ending.drop_first());
    }
}

/// The second word of a line, whatever white space stands around it.
proof fn lemma_line_of_words(
    lead: Seq<char>,
    method: Seq<char>,
    gap: Seq<char>,
    target: Seq<char>,
    tail: Seq<char>,
)
    requires
        all_white(lead),
        !lead.contains('\n'),
        method.len() > 0,
        no_white(method),
        gap.len() > 0,
        all_white(gap),
        !gap.contains('\n'),
        target.len() > 0,
        no_white(target),
        forall|i: int| 0 <= i < tail.len() ==> tail[i] != '\n',
        tail.len() > 0 ==> is_white(tail.first()),
    ensures
        ({
            let line = lead + method + gap + target + tail;
            &&& !line.contains('\n')
            &&& line.len() > 0
            &&& words(line) == seq![method] + (seq![target] + words(tail))
        }),
{
    let line = lead + method + gap + target + tail;
    assert forall|i: int| 0 <= i < line.len() implies line[i] != '\n' by {
        let a = lead.len() as int;
        let b = a + method.len();
        let c = b + gap.len();
        let d = c + target.len();
        if i < a {
            assert(line[i] == lead[i]);
            assert(lead.contains(lead[i]));
        } else if i < b {
            assert(line[i] == method[i - a]);
        } else if i < c {
            assert(line[i] == gap[i - b]);
            assert(gap.contains(gap[i - b]));
        } else if i < d {
            assert(line[i] == target[i - c]);
        } else {
            assert(line[i] == tail[i - d]);
        }
    }
    let rest = gap + target + tail;
    assert(line =~= lead + method + rest);
    assert(is_white(gap[0]));
    assert(rest.first() == gap[0]);
    law_white_space_ends_words(lead, method, rest);
    law_white_space_ends_words(gap, target, tail);
}

/// The code is looked up in the request's target: in its first line the second
/// word, whatever the method before it, the white space between them and what
/// follows. Of the target it is the query that counts, from the first question
/// mark to the next.
pub proof fn law_code_is_looked_up_in_the_target(
    lead: Seq<char>,
    method: Seq<char>,
    gap: Seq<char>,
    path: Seq<char>,
    query: Seq<char>,
    suffix: Seq<char>,
    tail: Seq<char>,
    ending: Seq<char>,
)
    requires
        all_white(lead),
        !lead.contains('\n'),
        method.len() > 0,
        no_white(method),
        gap.len() > 0,
        all_white(gap),
        !gap.contains('\n'),
        no_white(path),
        !path.contains('?'),
        no_white(query),
        !query.contains('?'),
        no_white(suffix),
        suffix.len() > 0 ==> suffix.first() == '?',
        !tail.contains('\n'),
        tail.len() > 0 ==> is_white(tail.first()),
        ending.len() > 0 ==> ending.first() == '\n',
    ensures
        callback_code(
            lead + method + gap + (path + seq!['?'] + query + suffix) + tail + ending,
        ) == code_of(parts(query, '&')),
{
    let target = path + seq!['?'] + query + suffix;
    assert forall|i: int| 0 <= i < target.len() implies !is_white(#[trigger] target[i]) by {
        let a = path.len() as int;
        let b = a + 1 + query.len();
        if i < a {
            assert(target[i] == path[i]);
        } else if a < i < b {
            assert(target[i] == query[i - a - 1]);
        } else if i >= b {
            assert(target[i] == suffix[i - b]);
        }
    }
    lemma_second_word(lead, method, gap, target, tail, ending);
    assert(target =~= path + seq!['?'] + (query + suffix));
    law_separators_end_parts(path, query + suffix, '?');
    if suffix.len() > 0 {
        assert(query + suffix =~= query + seq!['?'] + suffix.drop_first());
        law_separators_end_parts(query, suffix.drop_first(), '?');
    } else {
        assert(query + suffix =~= query);
        law_separators_end_parts(query, suffix, '?');
    }
}

/// A request names no code where its target has no query, or where its first
/// line has no second word.
pub proof fn law_no_query_no_code(
    lead: Seq<char>,
    method: Seq<char>,
    gap: Seq<char>,
    target: Seq<char>,
    tail: Seq<char>,
    ending: Seq<char>,
)
    requires
        all_white(lead),
        !lead.contains('\n'),
        method.len() > 0,
        no_white(method),
        gap.len() > 0,
        all_white(gap),
        !gap.contains('\n'),
        target.len() > 0,
        no_white(target),
        !target.contains('?'),
        !tail.contains('\n'),
        tail.len() > 0 ==> is_white(tail.first()),
        ending.len() > 0 ==> ending.first() == '\n',
    ensures
        callback_code(lead + method + gap + target + tail + ending) is None,
        callback_code(method) is None,
        callback_code(lead) is None,
{
    lemma_second_word(lead, method, gap, target, tail, ending);
    law_separators_end_parts(target, Seq::empty(), '?');
    assert(!method.contains('\n')) by {
        if method.contains('\n') {
            let i = choose|i: int| 0 <= i < method.len() && method[i] == '\n';
            assert(!is_white(method[i]));
        }
    }
    law_line_ends_at_the_line_feed(method, Seq::empty());
    law_line_ends_at_the_line_feed(lead, Seq::empty());
    assert(Seq::<char>::empty() + method + Seq::<char>::empty() =~= method);
    law_white_space_ends_words(Seq::empty(), method, Seq::empty());
    law_white_space_ends_words(lead, method, Seq::empty());
    assert(words(Seq::<char>::empty()).len() == 0) by {
        law_white_space_ends_words(Seq::empty(), method, Seq::empty());
    }
}

/// A browser that is sent back with several parameters brings the code among
/// them: it is the value of the first that is named `code`, whatever the
/// others are and wherever it stands.
pub proof fn law_code_stands_among_parameters(
    path: Seq<char>,
    params: Seq<Seq<char>>,
    i: int,
    code: Seq<char>,
    rest: Seq<char>,
)
    requires
        no_white(path),
        !path.contains('?'),
        0 <= i < params.len(),
        params[i] == code_name() + code,
        forall|j: int| 0 <= j < params.len() ==> !(#[trigger] params[j]).contains('&'),
        forall|j: int| 0 <= j < i ==> !code_name().is_prefix_of(#[trigger] params[j]),
        no_white(joined(params, '&')),
        !joined(params, '&').contains('?'),
    ensures
        callback_code(browser_request(path, joined(params, '&'), rest)) == Some(code),
{
    law_callback_reads_the_query(path, joined(params, '&'), rest);
    law_joined_parts_come_apart(params, '&');
    assert(params[i].take(5) =~= code_name());
    assert(params[i].skip(5) =~= code);
    law_first_code_counts(params, i);
}

/// The response announces just as many bytes as its page takes, and ends with
/// that page.
pub proof fn law_response_carries_the_page(page: Seq<char>)
    ensures
        exists|head: Seq<char>| #[trigger]
            (head + "\r\nConnection: close\r\n\r\n"@ + page) == page_response(page) && head
                == "HTTP/1.1 200 OK\r\nContent-Type: text/html\r\nContent-Length: "@ + decimal(
                encode_utf8(page).len(),
            ),
{
    let head = "HTTP/1.1 200 OK\r\nContent-Type: text/html\r\nContent-Length: "@ + decimal(
        encode_utf8(page).len(),
    );
    assert((head + "\r\nConnection: close\r\n\r\n"@ + page) == page_response(page));
}

}
