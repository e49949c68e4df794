//! Reading a curl command line into a test configuration.
use vstd::prelude::*;
use crate::config::{distinct_names, header_views, set_header, with_header, TestConfig, TestMode};
use crate::text::{
    chars_of, find_char, first_index_of, has_prefix, lower_of, push_char, same_text, starts_with,
    text_of_range, to_lower, to_upper, trim_of, trim_text, upper_of,
};

verus! {

/// A separator between words outside quotes.
pub open spec fn is_blank(c: char) -> bool {
    c == ' ' || c == '\t' || c == '\n' || c == '\r'
}

/// What the tokenizer knows after a prefix of the command.
pub struct LexState {
    pub tokens: Seq<Seq<char>>,
    pub current: Seq<char>,
    pub in_single: bool,
    pub in_double: bool,
}

/// The words finished so far, with the pending one if it is not empty.
pub open spec fn lex_finish(st: LexState) -> Seq<Seq<char>> {
    if st.current.len() > 0 {
        st.tokens.push(st.current)
    } else {
        st.tokens
    }
}

/// The words of `s` read from position `i` on, in state `st`.
///
/// A single quote toggles literal mode (outside double quotes), a double quote
/// toggles grouping mode (outside single quotes); quote characters are dropped.
/// Outside quotes a backslash is dropped, together with a line break right after
/// it, and blanks end the pending word.
pub open spec fn lex_from(s: Seq<char>, i: int, st: LexState) -> Seq<Seq<char>>
    decreases s.len() - i,
{
    if i < 0 || i >= s.len() {
        lex_finish(st)
    } else {
        let c = s[i];
        if c == '\'' && !st.in_double {
            lex_from(s, i + 1, LexState { in_single: !st.in_single, ..st })
        } else if c == '"' && !st.in_single {
            lex_from(s, i + 1, LexState { in_double: !st.in_double, ..st })
        } else if c == '\\' && !st.in_single && !st.in_double {
            if i + 1 < s.len() && (s[i + 1] == '\n' || s[i + 1] == '\r') {
                lex_from(s, i + 2, st)
            } else {
                lex_from(s, i + 1, st)
            }
        } else if is_blank(c) && !st.in_single && !st.in_double {
            if st.current.len() > 0 {
                lex_from(s, i + 1, LexState { tokens: st.tokens.push(st.current), current: seq![], ..st })
            } else {
                lex_from(s, i + 1, st)
            }
        } else {
            lex_from(s, i + 1, LexState { current: st.current.push(c), ..st })
        }
    }
}

/// The words of a whole command.
pub open spec fn curl_tokens(s: Seq<char>) -> Seq<Seq<char>> {
    lex_from(s, 0, LexState { tokens: seq![], current: seq![], in_single: false, in_double: false })
}

pub open spec fn token_views(v: Seq<String>) -> Seq<Seq<char>> {
    v.map_values(|t: String| t@)
}

/// Splits a command line into words with shell-like quoting.
pub fn tokenize_curl(cmd: &str) -> (r: Vec<String>)
    ensures
        token_views(r@) == curl_tokens(cmd@),
{
    let cs = chars_of(cmd);
    let n = cs.len();
    let mut tokens: Vec<String> = Vec::new();
    let mut current = String::new();
    let mut in_single = false;
    let mut in_double = false;
    let mut i: usize = 0;
    assert(token_views(tokens@) =~= seq![]);
    while i < n
        invariant
            n == cs@.len(),
            cs@ == cmd@,
            i <= n,
            lex_from(cmd@, i as int, LexState {
                tokens: token_views(tokens@),
                current: current@,
                in_single,
                in_double,
            }) == curl_tokens(cmd@),
        decreases n - i,
    {
        let c = cs[i];
        let ghost st = LexState { tokens: token_views(tokens@), current: current@, in_single, in_double };
        if c == '\'' && !in_double {
            in_single = !in_single;
            i = i + 1;
        } else if c == '"' && !in_single {
            in_double = !in_double;
            i = i + 1;
        } else if c == '\\' && !in_single && !in_double {
            if i + 1 < n && (cs[i + 1] == '\n' || cs[i + 1] == '\r') {
                i = i + 2;
            } else {
                i = i + 1;
            }
        } else if (c == ' ' || c == '\t' || c == '\n' || c == '\r') && !in_single && !in_double {
            if !current.as_str().is_empty() {
                let ghost before = tokens@;
                tokens.push(current);
                current = String::new();
                proof {
                    assert(token_views(tokens@) == token_views(before).push(st.current));
                }
            }
            i = i + 1;
        } else {
            push_char(&mut current, c);
            i = i + 1;
        }
    }
    if !current.as_str().is_empty() {
        let ghost before = tokens@;
        let ghost cur = current@;
        tokens.push(current);
        proof {
            assert(token_views(tokens@) == token_views(before).push(cur));
        }
    }
    tokens
}

/// The request fields read from a curl command so far.
pub struct CurlDraft {
    pub url: Seq<char>,
    pub method: Seq<char>,
    pub headers: Seq<(Seq<char>, Seq<char>)>,
    pub body: Option<Seq<char>>,
}

/// A `K: V` header argument applied to `hs`: the name before the first colon,
/// trimmed and lowercased, the value after it, trimmed. Without a colon nothing changes.
pub open spec fn apply_header_arg(hs: Seq<(Seq<char>, Seq<char>)>, h: Seq<char>) -> Seq<(Seq<char>, Seq<char>)> {
    match first_index_of(h, ':') {
        Some(c) => with_header(
            hs,
            lower_of(trim_of(h.subrange(0, c))),
            trim_of(h.subrange(c + 1, h.len() as int)),
        ),
        None => hs,
    }
}

pub open spec fn is_method_flag(p: Seq<char>) -> bool {
    p == "-X"@ || p == "--request"@
}

pub open spec fn is_header_flag(p: Seq<char>) -> bool {
    p == "-H"@ || p == "--header"@
}

pub open spec fn is_data_flag(p: Seq<char>) -> bool {
    p == "-d"@ || p == "--data"@ || p == "--data-raw"@ || p == "--data-binary"@
}

pub open spec fn is_url_word(p: Seq<char>) -> bool {
    starts_with(p, "http://"@) || starts_with(p, "https://"@)
}

/// The draft after reading the words `t[i..]`.
///
/// A flag that takes a value consumes the next word; a flag at the very end is
/// ignored. The first word that looks like an http(s) URL is the URL. Data turns
/// a GET into a POST.
pub open spec fn read_words(t: Seq<Seq<char>>, i: int, d: CurlDraft) -> CurlDraft
    decreases t.len() - i,
{
    if i < 0 || i >= t.len() {
        d
    } else {
        let p = t[i];
        if is_method_flag(p) {
            if i + 1 < t.len() {
                read_words(t, i + 2, CurlDraft { method: upper_of(t[i + 1]), ..d })
            } else {
                d
            }
        } else if is_header_flag(p) {
            if i + 1 < t.len() {
                read_words(t, i + 2, CurlDraft { headers: apply_header_arg(d.headers, t[i + 1]), ..d })
            } else {
                d
            }
        } else if is_data_flag(p) {
            if i + 1 < t.len() {
                read_words(t, i + 2, CurlDraft {
                    body: Some(t[i + 1]),
                    method: if d.method == "GET"@ { "POST"@ } else { d.method },
                    ..d
                })
            } else {
                d
            }
        } else if is_url_word(p) && d.url.len() == 0 {
            read_words(t, i + 1, CurlDraft { url: p, ..d })
        } else {
            read_words(t, i + 1, d)
        }
    }
}

/// What a curl command asks for: its words read from a GET with no URL,
/// no headers and no body.
pub open spec fn curl_draft(cmd: Seq<char>) -> CurlDraft {
    read_words(
        curl_tokens(cmd),
        0,
        CurlDraft { url: seq![], method: "GET"@, headers: seq![], body: None },
    )
}

pub open spec fn body_view(b: Option<String>) -> Option<Seq<char>> {
    match b {
        Some(s) => Some(s@),
        None => None,
    }
}

/// The configuration holds the draft's request and the defaults of a parsed command.
pub open spec fn config_from_draft(c: TestConfig, d: CurlDraft) -> bool {
    &&& c.url@ == d.url
    &&& c.method@ == d.method
    &&& header_views(c.headers@) == d.headers
    &&& body_view(c.body) == d.body
    &&& c.virtual_users == 100
    &&& c.duration_secs is None
    &&& c.iterations == Some(1u32)
    &&& c.mode == TestMode::Burst
    &&& c.timeout_ms == 10_000
    &&& c.think_time_ms == 0
}

/// Applies one `K: V` header argument to `headers`.
fn add_header_arg(headers: &mut Vec<(String, String)>, h: &String)
    ensures
        header_views(final(headers)@) == apply_header_arg(header_views(old(headers)@), h@),
        distinct_names(header_views(old(headers)@)) ==> distinct_names(header_views(final(headers)@)),
{
    let cs = chars_of(h.as_str());
    match find_char(&cs, ':') {
        Some(c) => {
            assert(c < cs.len());
            let raw_key = text_of_range(&cs, 0, c);
            let raw_value = text_of_range(&cs, c + 1, cs.len());
            let key = to_lower(trim_text(raw_key.as_str()));
            let value = trim_text(raw_value.as_str()).to_owned();
            set_header(headers, key, value);
        },
        None => {},
    }
}

/// Reads a curl command into a burst configuration with the parser's defaults.
pub fn parse_curl(curl_command: String) -> (r: Result<TestConfig, String>)
    ensures
        r is Err <==> curl_draft(curl_command@).url.len() == 0,
        r matches Err(e) ==> e@ == "No URL found in curl command"@,
        r matches Ok(c) ==> config_from_draft(c, curl_draft(curl_command@)),
        r matches Ok(c) ==> distinct_names(header_views(c.headers@)),
{
    let tokens = tokenize_curl(curl_command.as_str());
    let ghost t = token_views(tokens@);
    let mut url = String::new();
    let mut method = String::from_str("GET");
    let mut headers: Vec<(String, String)> = Vec::new();
    let mut body: Option<String> = None;
    let n = tokens.len();
    let mut i: usize = 0;
    proof {
        assert(header_views(headers@) =~= seq![]);
    }
    while i < n
        invariant
            n == tokens@.len(),
            t == token_views(tokens@),
            t == curl_tokens(curl_command@),
            i <= n,
            distinct_names(header_views(headers@)),
            read_words(t, i as int, CurlDraft {
                url: url@,
                method: method@,
                headers: header_views(headers@),
                body: body_view(body),
            }) == curl_draft(curl_command@),
        decreases n - i,
    {
        let part = tokens[i].as_str();
        if same_text(part, "-X") || same_text(part, "--request") {
            if i + 1 < n {
                method = to_upper(tokens[i + 1].as_str());
                i = i + 2;
            } else {
                i = n;
            }
        } else if same_text(part, "-H") || same_text(part, "--header") {
            if i + 1 < n {
                add_header_arg(&mut headers, &tokens[i + 1]);
                i = i + 2;
            } else {
                i = n;
            }
        } else if same_text(part, "-d") || same_text(part, "--data") || same_text(part, "--data-raw")
            || same_text(part, "--data-binary") {
            if i + 1 < n {
                body = Some(tokens[i + 1].clone());
                if same_text(method.as_str(), "GET") {
                    method = String::from_str("POST");
                }
                i = i + 2;
            } else {
                i = n;
            }
        } else if (has_prefix(part, "http://") || has_prefix(part, "https://")) && url.as_str().is_empty() {
            url = part.to_owned();
            i = i + 1;
        } else {
            i = i + 1;
        }
    }
    if url.as_str().is_empty() {
        return Err(String::from_str("No URL found in curl command"));
    }
    Ok(TestConfig {
        url,
        method,
        headers,
        body,
        virtual_users: 100,
        duration_secs: None,
        iterations: Some(1),
        mode: TestMode::Burst,
        timeout_ms: 10_000,
        think_time_ms: 0,
    })
}

/// Parsing is a function of the command alone: the same command always gives the
/// same configuration.
pub proof fn lemma_parse_curl_deterministic(cmd: Seq<char>, a: TestConfig, b: TestConfig)
    requires
        config_from_draft(a, curl_draft(cmd)),
        config_from_draft(b, curl_draft(cmd)),
    ensures
        a.url@ == b.url@,
        a.method@ == b.method@,
        header_views(a.headers@) == header_views(b.headers@),
        body_view(a.body) == body_view(b.body),
        a.virtual_users == b.virtual_users,
        a.duration_secs == b.duration_secs,
        a.iterations == b.iterations,
        a.mode == b.mode,
        a.timeout_ms == b.timeout_ms,
        a.think_time_ms == b.think_time_ms,
{
}

} // verus!
