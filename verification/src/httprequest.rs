use crate::headers::{put, HeaderPairs, Headers};
use crate::text::{
    chars_of, contains, find_char, find_from, has_pattern, lemma_find_from, occurs_at,
    pass_space, pass_word, same_text, slice_text, trim, trimmed, word, word_start,
};
use vstd::prelude::*;
use vstd::std_specs::convert::FromSpecImpl;

verus! {

/// The method of a request.
#[derive(Debug, PartialEq, Eq, Structural, Clone, Copy)]
pub enum Method {
    Get,
    Post,
    Uninitialized,
}

/// The method that the token `s` names.
pub open spec fn method_of(s: Seq<char>) -> Method {
    if s == "GET"@ {
        Method::Get
    } else if s == "POST"@ {
        Method::Post
    } else {
        Method::Uninitialized
    }
}

impl From<&str> for Method {
    /// The method that `value` names; see `method_of`.
    fn from(value: &str) -> (r: Method) {
        if same_text(value, "GET") {
            Method::Get
        } else if same_text(value, "POST") {
            Method::Post
        } else {
            Method::Uninitialized
        }
    }
}

impl FromSpecImpl<&str> for Method {
    open spec fn obeys_from_spec() -> bool {
        true
    }

    open spec fn from_spec(value: &str) -> Method {
        method_of(value@)
    }
}

/// The protocol version of a request.
#[derive(Debug, PartialEq, Eq, Structural, Clone, Copy)]
pub enum Version {
    V1_1,
    V2_0,
    Uninitialized,
}

/// The version that the token `s` names.
pub open spec fn version_of(s: Seq<char>) -> Version {
    if s == "HTTP/1.1"@ {
        Version::V1_1
    } else {
        Version::Uninitialized
    }
}

impl From<&str> for Version {
    /// The version that `value` names; see `version_of`.
    fn from(value: &str) -> (r: Version) {
        if same_text(value, "HTTP/1.1") {
            Version::V1_1
        } else {
            Version::Uninitialized
        }
    }
}

impl FromSpecImpl<&str> for Version {
    open spec fn obeys_from_spec() -> bool {
        true
    }

    open spec fn from_spec(value: &str) -> Version {
        version_of(value@)
    }
}

/// A token names a method other than `Uninitialized` only if it is `GET` or `POST`.
pub proof fn lemma_method_total(s: Seq<char>)
    ensures
        method_of(s) == Method::Get <==> s == "GET"@,
        method_of(s) == Method::Post <==> s == "POST"@,
        method_of(s) == Method::Uninitialized <==> (s != "GET"@ && s != "POST"@),
{
    reveal_strlit("GET");
    reveal_strlit("POST");
    assert("GET"@.len() != "POST"@.len());
}

/// A token names version 1.1 if it is `HTTP/1.1`, and no version otherwise.
pub proof fn lemma_version_total(s: Seq<char>)
    ensures
        version_of(s) == Version::V1_1 <==> s == "HTTP/1.1"@,
        version_of(s) == Version::Uninitialized <==> s != "HTTP/1.1"@,
        version_of(s) != Version::V2_0,
{
}

/// What a request asks for.
#[derive(Debug, PartialEq, Eq, Clone)]
pub enum Resource {
    Path(String),
}

impl Resource {
    /// The path as a sequence of characters.
    pub open spec fn path(&self) -> Seq<char> {
        match self {
            Resource::Path(p) => p@,
        }
    }
}

/// A request as contracts see it.
pub ghost struct RequestView {
    pub method: Method,
    pub version: Version,
    pub path: Seq<char>,
    pub headers: HeaderPairs,
    pub body: Seq<char>,
}

/// A parsed request.
#[derive(Debug)]
pub struct HttpRequest {
    pub method: Method,
    pub version: Version,
    pub resource: Resource,
    pub headers: Headers,
    pub message_body: String,
}

impl View for HttpRequest {
    type V = RequestView;

    open spec fn view(&self) -> RequestView {
        RequestView {
            method: self.method,
            version: self.version,
            path: self.resource.path(),
            headers: self.headers@,
            body: self.message_body@,
        }
    }
}

/// The request before any line was read: no method, version 1.1, and the rest empty. The
/// version stays 1.1 for a message without a request line; a request line always sets it.
pub open spec fn blank() -> RequestView {
    RequestView {
        method: Method::Uninitialized,
        version: Version::V1_1,
        path: Seq::empty(),
        headers: Seq::empty(),
        body: Seq::empty(),
    }
}

/// A line that holds `HTTP` anywhere is a request line.
pub open spec fn is_request_line(line: Seq<char>) -> bool {
    contains(line, "HTTP"@)
}

/// A line with a colon that is no request line is a header line.
pub open spec fn is_header_line(line: Seq<char>) -> bool {
    !is_request_line(line) && find_from(line, ':', 0) < line.len()
}

/// Method, path and version of a request line: its first three words, each empty where the
/// line has fewer. A request line without a third word therefore names no version.
pub open spec fn request_line(line: Seq<char>) -> (Method, Seq<char>, Version) {
    (method_of(word(line, 0)), word(line, 1), version_of(word(line, 2)))
}

/// Name and value of a header line: what stands before its first colon and what stands
/// after it, each without the white space at its ends.
pub open spec fn header_line(line: Seq<char>) -> (Seq<char>, Seq<char>) {
    let c = find_from(line, ':', 0);
    (trim(line.subrange(0, c)), trim(after(line, c)))
}

/// What stands in `s` behind position `at`.
pub open spec fn after(s: Seq<char>, at: int) -> Seq<char> {
    if 0 <= at < s.len() {
        s.subrange(at + 1, s.len() as int)
    } else {
        Seq::empty()
    }
}

/// The request `st` after one more line: a request line sets method, path and version, a
/// header line puts one header, any other line that is not empty becomes the body, and an
/// empty line changes nothing.
pub open spec fn take_line(st: RequestView, line: Seq<char>) -> RequestView {
    if is_request_line(line) {
        let (m, p, v) = request_line(line);
        RequestView { method: m, path: p, version: v, ..st }
    } else if is_header_line(line) {
        let (k, v) = header_line(line);
        RequestView { headers: put(st.headers, k, v), ..st }
    } else if line.len() > 0 {
        RequestView { body: line, ..st }
    } else {
        st
    }
}

/// Where the line that begins at `from` ends: before the next line feed, and before the
/// carriage return in front of that line feed if there is one; at the end of `s` where no
/// line feed follows.
pub open spec fn line_end(s: Seq<char>, from: int) -> int {
    let nl = find_from(s, '\n', from);
    if from < nl < s.len() && s[nl - 1] == '\r' {
        nl - 1
    } else {
        nl
    }
}

/// Where the line after the one that begins at `from` begins: behind the next line feed, or
/// at the end of `s` where none follows.
pub open spec fn next_line(s: Seq<char>, from: int) -> int {
    let nl = find_from(s, '\n', from);
    if nl < s.len() {
        nl + 1
    } else {
        s.len() as int
    }
}

/// The request `st` after the lines of `s` from position `from` on were taken, first to
/// last.
pub open spec fn read_lines(s: Seq<char>, from: int, st: RequestView) -> RequestView
    decreases s.len() - from,
    via read_lines_decreases
{
    if 0 <= from < s.len() {
        read_lines(s, next_line(s, from), take_line(st, s.subrange(from, line_end(s, from))))
    } else {
        st
    }
}

#[via_fn]
proof fn read_lines_decreases(s: Seq<char>, from: int, st: RequestView) {
    if 0 <= from < s.len() {
        lemma_find_from(s, '\n', from);
    }
}

/// The request that the text `s` holds.
pub open spec fn parse(s: Seq<char>) -> RequestView {
    read_lines(s, 0, blank())
}

/// A text without characters holds the blank request, and an empty line changes no request.
pub proof fn lemma_nothing_read(st: RequestView)
    ensures
        parse(Seq::empty()) == blank(),
        take_line(st, Seq::empty()) == st,
{
    reveal_strlit("HTTP");
    assert forall|i: int| !occurs_at(Seq::<char>::empty(), "HTTP"@, i) by {}
}

/// Of two body lines the later one is the body, and nothing else changes.
pub proof fn lemma_later_line_wins(st: RequestView, first: Seq<char>, second: Seq<char>)
    requires
        !is_request_line(first) && !is_header_line(first) && first.len() > 0,
        !is_request_line(second) && !is_header_line(second) && second.len() > 0,
    ensures
        take_line(take_line(st, first), second) == (RequestView { body: second, ..st }),
{
}

/// A line that becomes the body: not empty, and neither a request line nor a header line.
pub open spec fn is_body_line(line: Seq<char>) -> bool {
    !is_request_line(line) && !is_header_line(line) && line.len() > 0
}

/// The lines of `s` from position `from` on, without their line ends.
pub open spec fn lines_from(s: Seq<char>, from: int) -> Seq<Seq<char>>
    decreases s.len() - from,
    via lines_from_decreases
{
    if 0 <= from < s.len() {
        seq![s.subrange(from, line_end(s, from))] + lines_from(s, next_line(s, from))
    } else {
        Seq::empty()
    }
}

#[via_fn]
proof fn lines_from_decreases(s: Seq<char>, from: int) {
    if 0 <= from < s.len() {
        lemma_find_from(s, '\n', from);
    }
}

/// The request `st` after the lines `ls` were taken, first to last.
pub open spec fn take_lines(st: RequestView, ls: Seq<Seq<char>>) -> RequestView
    decreases ls.len(),
{
    if ls.len() == 0 {
        st
    } else {
        take_lines(take_line(st, ls[0]), ls.drop_first())
    }
}

/// The last body line among `ls`, or `otherwise` where there is none.
pub open spec fn last_body_line(ls: Seq<Seq<char>>, otherwise: Seq<char>) -> Seq<char>
    decreases ls.len(),
{
    if ls.len() == 0 {
        otherwise
    } else if is_body_line(ls.last()) {
        ls.last()
    } else {
        last_body_line(ls.drop_last(), otherwise)
    }
}

/// Reading a text is taking its lines one after the other.
pub proof fn lemma_read_lines_take_lines(s: Seq<char>, from: int, st: RequestView)
    ensures
        read_lines(s, from, st) == take_lines(st, lines_from(s, from)),
    decreases s.len() - from,
{
    if 0 <= from < s.len() {
        lemma_find_from(s, '\n', from);
        let line = s.subrange(from, line_end(s, from));
        let rest = lines_from(s, next_line(s, from));
        lemma_read_lines_take_lines(s, next_line(s, from), take_line(st, line));
        assert(lines_from(s, from).drop_first() =~= rest);
    }
}

/// The last body line is found from the front as well: the first line counts only where
/// no later line is a body line.
proof fn lemma_last_body_line_front(ls: Seq<Seq<char>>, otherwise: Seq<char>)
    requires
        ls.len() > 0,
    ensures
        last_body_line(ls, otherwise) == last_body_line(
            ls.drop_first(),
            if is_body_line(ls[0]) {
                ls[0]
            } else {
                otherwise
            },
        ),
    decreases ls.len(),
{
    let first = if is_body_line(ls[0]) {
        ls[0]
    } else {
        otherwise
    };
    if ls.len() > 1 {
        assert(ls.drop_first().last() == ls.last());
        if !is_body_line(ls.last()) {
            lemma_last_body_line_front(ls.drop_last(), otherwise);
            assert(ls.drop_last()[0] == ls[0]);
            assert(ls.drop_last().drop_first() =~= ls.drop_first().drop_last());
        }
    } else {
        assert(ls.last() == ls[0]);
        assert(last_body_line(ls.drop_first(), first) == first);
        assert(last_body_line(ls.drop_last(), otherwise) == otherwise);
    }
}

/// After lines were taken, the body is the last body line among them, and the body from
/// before where there was none.
pub proof fn lemma_body_of_lines(st: RequestView, ls: Seq<Seq<char>>)
    ensures
        take_lines(st, ls).body == last_body_line(ls, st.body),
    decreases ls.len(),
{
    if ls.len() > 0 {
        lemma_body_of_lines(take_line(st, ls[0]), ls.drop_first());
        lemma_last_body_line_front(ls, st.body);
    }
}

/// The body of a parsed text is its last line that is not empty and neither a request line
/// nor a header line; it is empty where the text has no such line.
pub proof fn lemma_body_is_last_body_line(s: Seq<char>)
    ensures
        parse(s).body == last_body_line(lines_from(s, 0), Seq::empty()),
{
    lemma_read_lines_take_lines(s, 0, blank());
    lemma_body_of_lines(blank(), lines_from(s, 0));
}

/// Reads method, path and version off a request line.
pub fn process_request_line(line: &str) -> (r: (Method, Resource, Version))
    ensures
        (r.0, r.1.path(), r.2) == request_line(line@),
{
    let cs = chars_of(line);
    let a0 = pass_space(&cs, 0);
    let b0 = pass_word(&cs, a0);
    let a1 = pass_space(&cs, b0);
    let b1 = pass_word(&cs, a1);
    let a2 = pass_space(&cs, b1);
    let b2 = pass_word(&cs, a2);
    proof {
        reveal_with_fuel(word_start, 3);
    }
    let method = Method::from(slice_text(line, a0, b0).as_str());
    let resource = Resource::Path(slice_text(line, a1, b1));
    let version = Version::from(slice_text(line, a2, b2).as_str());
    (method, resource, version)
}

/// Reads name and value off a line that holds a colon.
pub fn process_header_line(line: &str) -> (r: (String, String))
    ensures
        (r.0@, r.1@) == header_line(line@),
{
    let cs = chars_of(line);
    let c = find_char(&cs, ':', 0);
    let key = trimmed(slice_text(line, 0, c).as_str());
    let rest = if c < cs.len() {
        slice_text(line, c + 1, cs.len())
    } else {
        String::new()
    };
    assert(rest@ =~= after(line@, c as int));
    let value = trimmed(rest.as_str());
    (key, value)
}

impl HttpRequest {
    /// Takes one more line of the message into the request.
    pub fn take_line(&mut self, line: String)
        ensures
            final(self)@ == take_line(old(self)@, line@),
    {
        let cs = chars_of(line.as_str());
        let mark = chars_of("HTTP");
        if has_pattern(&cs, &mark) {
            let (method, resource, version) = process_request_line(line.as_str());
            self.method = method;
            self.resource = resource;
            self.version = version;
        } else if find_char(&cs, ':', 0) < cs.len() {
            let (key, value) = process_header_line(line.as_str());
            self.headers.insert(key, value);
        } else if cs.len() > 0 {
            self.message_body = line;
        }
    }
}

impl From<String> for HttpRequest {
    /// Parses the text of a message. Every text holds a request: what cannot be read is left
    /// as it is in the blank request.
    fn from(request: String) -> (r: HttpRequest)
        ensures
            r@ == parse(request@),
    {
        let text = request.as_str();
        let cs = chars_of(text);
        let mut parsed = HttpRequest {
            method: Method::Uninitialized,
            version: Version::V1_1,
            resource: Resource::Path(String::new()),
            headers: Headers::new(),
            message_body: String::new(),
        };
        assert(parsed@ == blank());
        let mut pos: usize = 0;
        while pos < cs.len()
            invariant
                cs@ == text@,
                pos <= cs@.len(),
                read_lines(cs@, pos as int, parsed@) == parse(cs@),
            decreases cs@.len() - pos,
        {
            let nl = find_char(&cs, '\n', pos);
            let end = if pos < nl && nl < cs.len() && cs[nl - 1] == '\r' {
                nl - 1
            } else {
                nl
            };
            parsed.take_line(slice_text(text, pos, end));
            pos = if nl < cs.len() {
                nl + 1
            } else {
                nl
            };
        }
        parsed
    }
}

/// Two requests with one view need not be the same value, so the conversion is described
/// by the `ensures` of `from` and not by a value here.
impl FromSpecImpl<String> for HttpRequest {
    open spec fn obeys_from_spec() -> bool {
        false
    }

    open spec fn from_spec(request: String) -> HttpRequest {
        choose|r: HttpRequest| r@ == parse(request@)
    }
}

} // verus!
