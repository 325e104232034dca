use crate::headers::{HeaderPairs, Headers};
use crate::text::{decimal, decimal_text, same_text};
use vstd::prelude::*;
use vstd::std_specs::convert::FromSpecImpl;
use vstd::string::*;
use vstd::utf8::encode_utf8;

verus! {

/// The reason phrase that goes with a status code.
pub open spec fn status_text_of(code: Seq<char>) -> Seq<char> {
    if code == "200"@ {
        "OK"@
    } else if code == "400"@ {
        "Bad Request"@
    } else if code == "404"@ {
        "Not Found"@
    } else if code == "500"@ {
        "Internal Server Error"@
    } else {
        "Unavaliable Request"@
    }
}

/// The headers of a response that was given none: one content type, HTML.
pub open spec fn default_headers() -> HeaderPairs {
    seq![("Content-Type"@, "text/html"@)]
}

/// The header lines of `es`, one line per entry in the order of the table: name, colon,
/// space, value, line end.
pub open spec fn header_lines(es: HeaderPairs) -> Seq<char>
    decreases es.len(),
{
    if es.len() == 0 {
        Seq::empty()
    } else {
        header_lines(es.drop_last()) + es.last().0 + ": "@ + es.last().1 + "\r\n"@
    }
}

/// A response as contracts see it.
pub ghost struct ResponseView {
    pub version: Seq<char>,
    pub status_code: Seq<char>,
    pub status_text: Seq<char>,
    pub headers: Option<HeaderPairs>,
    pub body: Option<Seq<char>>,
}

impl ResponseView {
    /// The header lines; none where the response has no header table.
    pub open spec fn header_text(self) -> Seq<char> {
        match self.headers {
            Some(es) => header_lines(es),
            None => Seq::empty(),
        }
    }

    /// The body; empty where the response has none.
    pub open spec fn body_text(self) -> Seq<char> {
        match self.body {
            Some(b) => b,
            None => Seq::empty(),
        }
    }

    /// The response as it goes over the wire: status line, header lines, the length of the
    /// body in bytes, an empty line, the body.
    pub open spec fn wire(self) -> Seq<char> {
        self.version + " "@ + self.status_code + " "@ + self.status_text + "\r\n"@
            + self.header_text() + "Content-Length: "@ + decimal(
            encode_utf8(self.body_text()).len(),
        ) + "\r\n\r\n"@ + self.body_text()
    }
}

/// The response that is made from a status code, the headers given, if any, and the body:
/// version 1.1, the reason phrase that goes with the code, and the default headers where none
/// were given.
pub open spec fn response_of(
    code: Seq<char>,
    headers: Option<HeaderPairs>,
    body: Option<Seq<char>>,
) -> ResponseView {
    ResponseView {
        version: "HTTP/1.1"@,
        status_code: code,
        status_text: status_text_of(code),
        headers: Some(
            match headers {
                Some(es) => es,
                None => default_headers(),
            },
        ),
        body: body,
    }
}

/// The view of a text that may be absent.
pub open spec fn text_view(t: Option<String>) -> Option<Seq<char>> {
    match t {
        Some(b) => Some(b@),
        None => None,
    }
}

/// The view of a header table that may be absent.
pub open spec fn table_view(t: Option<Headers>) -> Option<HeaderPairs> {
    match t {
        Some(h) => Some(h@),
        None => None,
    }
}

/// A code other than 200, 400, 404 and 500 has the reason phrase of an unknown request.
pub proof fn lemma_unknown_status(code: Seq<char>)
    requires
        code != "200"@,
        code != "400"@,
        code != "404"@,
        code != "500"@,
    ensures
        status_text_of(code) == "Unavaliable Request"@,
        response_of(code, None, None).status_code == code,
{
}

/// Two responses that hold the same values have the same wire form, character for character
/// and byte for byte.
pub proof fn lemma_wire_repeatable(a: HttpResonse, b: HttpResonse)
    requires
        a@ == b@,
    ensures
        a@.wire() == b@.wire(),
        encode_utf8(a@.wire()) == encode_utf8(b@.wire()),
{
}

/// A response to be sent. The headers are written in the order of their table.
#[derive(Debug, PartialEq)]
pub struct HttpResonse<'a> {
    pub version: &'a str,
    pub status_code: &'a str,
    pub status_text: &'a str,
    pub headers: Option<Headers>,
    pub body: Option<String>,
}

impl<'a> View for HttpResonse<'a> {
    type V = ResponseView;

    open spec fn view(&self) -> ResponseView {
        ResponseView {
            version: self.version@,
            status_code: self.status_code@,
            status_text: self.status_text@,
            headers: table_view(self.headers),
            body: text_view(self.body),
        }
    }
}

impl<'a> Clone for HttpResonse<'a> {
    /// A response that holds the same values.
    fn clone(&self) -> (r: Self)
        ensures
            r@ == self@,
    {
        HttpResonse {
            version: self.version,
            status_code: self.status_code,
            status_text: self.status_text,
            headers: match &self.headers {
                Some(table) => Some(table.clone()),
                None => None,
            },
            body: match &self.body {
                Some(data) => Some(data.clone()),
                None => None,
            },
        }
    }
}

impl<'a> Default for HttpResonse<'a> {
    /// Status 200 of version 1.1, without headers and without a body.
    fn default() -> (r: Self)
        ensures
            r@ == (ResponseView {
                version: "HTTP/1.1"@,
                status_code: "200"@,
                status_text: "OK"@,
                headers: None,
                body: None,
            }),
    {
        HttpResonse {
            version: "HTTP/1.1",
            status_code: "200",
            status_text: "OK",
            headers: None,
            body: None,
        }
    }
}

impl<'a> From<HttpResonse<'a>> for String {
    /// The response in its wire form.
    fn from(response: HttpResonse<'a>) -> (r: String)
        ensures
            r@ == response@.wire(),
    {
        response.to_text()
    }
}

/// The text is fixed by its characters only, so the conversion is described by the
/// `ensures` of `from` and not by a value here.
impl<'a> FromSpecImpl<HttpResonse<'a>> for String {
    open spec fn obeys_from_spec() -> bool {
        false
    }

    open spec fn from_spec(response: HttpResonse<'a>) -> String {
        choose|r: String| r@ == response@.wire()
    }
}

impl<'a> HttpResonse<'a> {
    /// A response with the given status code, headers and body. The reason phrase goes by
    /// the code; where no headers are given, the response gets the default ones.
    pub fn new(status_code: &'a str, headers: Option<Headers>, body: Option<String>) -> (r: Self)
        ensures
            r@ == response_of(status_code@, table_view(headers), text_view(body)),
            headers matches Some(h) ==> r.headers == Some(h),
            r.body == body,
    {
        let mut response = HttpResonse::default();
        if !same_text(status_code, "200") {
            response.status_code = status_code;
        }
        response.headers = match headers {
            Some(h) => Some(h),
            None => {
                let mut table = Headers::new();
                table.insert(String::from_str("Content-Type"), String::from_str("text/html"));
                assert(table@ =~= default_headers());
                Some(table)
            },
        };
        response.status_text = if same_text(response.status_code, "200") {
            "OK"
        } else if same_text(response.status_code, "400") {
            "Bad Request"
        } else if same_text(response.status_code, "404") {
            "Not Found"
        } else if same_text(response.status_code, "500") {
            "Internal Server Error"
        } else {
            "Unavaliable Request"
        };
        response.body = body;
        response
    }

    /// Appends the response in its wire form to `writer`. This never fails.
    pub fn send_response(&self, writer: &mut String) -> (r: Result<(), Self>)
        ensures
            r is Ok,
            final(writer)@ == old(writer)@ + self@.wire(),
    {
        let response = self.to_text();
        writer.append(response.as_str());
        Ok(())
    }

    /// The response in its wire form.
    pub fn to_text(&self) -> (r: String)
        ensures
            r@ == self@.wire(),
    {
        let mut out = String::from_str(self.version());
        out.append(" ");
        out.append(self.status_code());
        out.append(" ");
        out.append(self.status_text());
        out.append("\r\n");
        out.append(self.headers().as_str());
        out.append("Content-Length: ");
        out.append(decimal_text(self.body().as_bytes().len()).as_str());
        out.append("\r\n\r\n");
        out.append(self.body());
        assert(out@ =~= self@.wire());
        out
    }

    /// The protocol version.
    pub fn version(&self) -> (r: &str)
        ensures
            r@ == self@.version,
    {
        self.version
    }

    /// The status code.
    pub fn status_code(&self) -> (r: &str)
        ensures
            r@ == self@.status_code,
    {
        self.status_code
    }

    /// The reason phrase.
    pub fn status_text(&self) -> (r: &str)
        ensures
            r@ == self@.status_text,
    {
        self.status_text
    }

    /// The header lines of the response; none where it has no header table.
    pub fn headers(&self) -> (r: String)
        ensures
            r@ == self@.header_text(),
    {
        let mut result = String::new();
        match &self.headers {
            Some(table) => {
                let mut i: usize = 0;
                while i < table.len()
                    invariant
                        i <= table@.len(),
                        result@ == header_lines(table@.subrange(0, i as int)),
                    decreases table@.len() - i,
                {
                    let (name, value) = table.entry(i);
                    result.append(name);
                    result.append(": ");
                    result.append(value);
                    result.append("\r\n");
                    proof {
                        let next = table@.subrange(0, i + 1);
                        assert(next.drop_last() =~= table@.subrange(0, i as int));
                        assert(result@ =~= header_lines(next));
                    }
                    i += 1;
                }
                assert(table@.subrange(0, i as int) =~= table@);
            },
            None => {},
        }
        result
    }

    /// The body of the response; empty where it has none.
    pub fn body(&self) -> (r: &str)
        ensures
            r@ == self@.body_text(),
    {
        match &self.body {
            Some(data) => data.as_str(),
            None => {
                proof {
                    reveal_strlit("");
                }
                assert(""@ =~= Seq::<char>::empty());
                ""
            },
        }
    }
}

} // verus!
