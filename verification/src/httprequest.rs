//! HTTP requests: the method, version and target of the request line, the
//! header fields, and the body, read from the request text line by line.
use vstd::prelude::*;
use crate::headers::{HeaderEntries, HeaderMap, distinct_keys, insert_entry, law_lookup_after_insert};
use crate::text::{
    contains_chars, contains_text, copy_range, crlf, find_char, is_first_index, lemma_first_index_unique,
    lemma_text_lines_crlf, first_index, from_chars, lines_of,
    split_words, text_lines, to_chars, trim, trim_chars, views, words,
};

verus! {

/// The request method.
#[derive(Debug, PartialEq, Eq, Structural)]
pub enum HttpMethod {
    Get,
    Post,
    Uninitialized,
}

/// The method that the text `s` names: `GET` and `POST` are recognised,
/// anything else is `Uninitialized`.
pub open spec fn method_of(s: Seq<char>) -> HttpMethod {
    if s == "GET"@ {
        HttpMethod::Get
    } else if s == "POST"@ {
        HttpMethod::Post
    } else {
        HttpMethod::Uninitialized
    }
}

impl<'a> From<&'a str> for HttpMethod {
    fn from(s: &'a str) -> (r: HttpMethod)
        ensures
            r == method_of(s@),
    {
        let t = s.to_owned();
        if t == "GET".to_owned() {
            HttpMethod::Get
        } else if t == "POST".to_owned() {
            HttpMethod::Post
        } else {
            HttpMethod::Uninitialized
        }
    }
}

impl<'a> vstd::std_specs::convert::FromSpecImpl<&'a str> for HttpMethod {
    open spec fn obeys_from_spec() -> bool {
        true
    }

    open spec fn from_spec(v: &'a str) -> HttpMethod {
        method_of(v@)
    }
}

/// The protocol version.
#[derive(Debug, PartialEq, Eq, Structural, Clone, Copy)]
pub enum HttpVersion {
    V1_1,
    V2_0,
    Uninitialized,
}

/// The version that the text `s` names: only `HTTP/1.1` is recognised,
/// anything else is `Uninitialized`.
pub open spec fn version_of(s: Seq<char>) -> HttpVersion {
    if s == "HTTP/1.1"@ {
        HttpVersion::V1_1
    } else {
        HttpVersion::Uninitialized
    }
}

impl<'a> From<&'a str> for HttpVersion {
    fn from(s: &'a str) -> (r: HttpVersion)
        ensures
            r == version_of(s@),
    {
        let t = s.to_owned();
        if t == "HTTP/1.1".to_owned() {
            HttpVersion::V1_1
        } else {
            HttpVersion::Uninitialized
        }
    }
}

impl<'a> vstd::std_specs::convert::FromSpecImpl<&'a str> for HttpVersion {
    open spec fn obeys_from_spec() -> bool {
        true
    }

    open spec fn from_spec(v: &'a str) -> HttpVersion {
        version_of(v@)
    }
}

/// The target of a request.
#[derive(Debug, PartialEq)]
pub enum HttpReSource {
    Path(String),
}

/// A parsed request.
#[derive(Debug)]
pub struct HttpRequest {
    pub method: HttpMethod,
    pub version: HttpVersion,
    pub resource: HttpReSource,
    pub head: Option<HeaderMap>,
    pub body: Option<String>,
}

/// What has been read of a request so far.
pub struct ParseState {
    pub method: HttpMethod,
    pub version: HttpVersion,
    pub resource: Seq<char>,
    pub head: HeaderEntries,
    pub body: Seq<char>,
    pub request_line_parsed: bool,
    pub in_body: bool,
}

/// Nothing read yet.
pub open spec fn initial_state() -> ParseState {
    ParseState {
        method: HttpMethod::Uninitialized,
        version: HttpVersion::Uninitialized,
        resource: Seq::<char>::empty(),
        head: Seq::<(Seq<char>, Seq<char>)>::empty(),
        body: Seq::<char>::empty(),
        request_line_parsed: false,
        in_body: false,
    }
}

/// The text that marks the request line.
pub open spec fn http_marker() -> Seq<char> {
    seq!['H', 'T', 'T', 'P']
}

/// Whether `line` is taken as the request line: the first line that
/// contains `HTTP`.
pub open spec fn is_request_line(st: ParseState, line: Seq<char>) -> bool {
    !st.request_line_parsed && contains_text(line, http_marker())
}

/// The name of a header line: the text before its first colon, trimmed.
pub open spec fn header_name(line: Seq<char>) -> Seq<char> {
    trim(line.take(first_index(line, ':')))
}

/// The value of a header line: the text after its first colon, trimmed.
pub open spec fn header_value(line: Seq<char>) -> Seq<char> {
    trim(line.skip(first_index(line, ':') + 1))
}

/// The body after one more body line: lines are joined by a newline.
pub open spec fn extend_body(body: Seq<char>, line: Seq<char>) -> Seq<char> {
    if body.len() == 0 {
        line
    } else {
        body.push('\n') + line
    }
}

/// The state after reading one more line (without trailing carriage
/// returns): the request line sets method, target and version; in the body
/// a line is appended to the body; before it, a line with a colon is a
/// header, an empty line starts the body, and any other line is ignored.
pub open spec fn next_state(st: ParseState, line: Seq<char>) -> ParseState {
    if is_request_line(st, line) {
        let w = words(line);
        ParseState {
            method: method_of(w[0]),
            resource: w[1],
            version: version_of(w[2]),
            request_line_parsed: true,
            ..st
        }
    } else if st.in_body {
        ParseState { body: extend_body(st.body, line), ..st }
    } else if line.contains(':') {
        ParseState { head: insert_entry(st.head, header_name(line), header_value(line)), ..st }
    } else if line.len() == 0 {
        ParseState { in_body: true, ..st }
    } else {
        st
    }
}

/// A line can be read in state `st`: a request line has at least three
/// words.
pub open spec fn line_ok(st: ParseState, line: Seq<char>) -> bool {
    is_request_line(st, line) ==> words(line).len() >= 3
}

/// The state after reading `lines` in order.
pub open spec fn run_lines(lines: Seq<Seq<char>>) -> ParseState
    decreases lines.len(),
{
    if lines.len() == 0 {
        initial_state()
    } else {
        next_state(run_lines(lines.drop_last()), lines.last())
    }
}

/// Every line of `lines` can be read in turn.
pub open spec fn lines_ok(lines: Seq<Seq<char>>) -> bool
    decreases lines.len(),
{
    if lines.len() == 0 {
        true
    } else {
        lines_ok(lines.drop_last()) && line_ok(run_lines(lines.drop_last()), lines.last())
    }
}

/// The request that the text `s` describes.
pub open spec fn parse_request(s: Seq<char>) -> ParseState {
    run_lines(text_lines(s))
}

/// The text `s` can be read as a request: its request line, if any, has a
/// method, a target and a version.
pub open spec fn request_parses(s: Seq<char>) -> bool {
    lines_ok(text_lines(s))
}

impl HttpRequest {
    /// This request holds what `st` has read.
    pub open spec fn holds(&self, st: ParseState) -> bool {
        &&& self.method == st.method
        &&& self.version == st.version
        &&& self.resource matches HttpReSource::Path(p) && p@ == st.resource
        &&& self.head matches Some(h) && h@ == st.head
        &&& self.body matches Some(b) && b@ == st.body
    }
}

/// Reading a prefix of readable lines is possible too.
pub proof fn lemma_lines_ok_prefix(lines: Seq<Seq<char>>, k: int)
    requires
        lines_ok(lines),
        0 <= k <= lines.len(),
    ensures
        lines_ok(lines.take(k)),
    decreases lines.len(),
{
    if k < lines.len() {
        assert(lines.drop_last().take(k) =~= lines.take(k));
        lemma_lines_ok_prefix(lines.drop_last(), k);
    } else {
        assert(lines.take(k) =~= lines);
    }
}

/// Law: a request written with CRLF line endings reads exactly as the same
/// request written with bare newlines, and is readable exactly when that
/// one is.
pub proof fn law_crlf_reads_as_lf(s: Seq<char>)
    ensures
        parse_request(crlf(s)) == parse_request(s),
        request_parses(crlf(s)) == request_parses(s),
{
    lemma_text_lines_crlf(s);
}

/// Law: once the request line has been read, method, target and version
/// stay as read, whatever lines follow (a later line with `HTTP` is not
/// read as a request line).
pub proof fn law_request_line_read_once(lines: Seq<Seq<char>>, k: int)
    requires
        0 <= k <= lines.len(),
        run_lines(lines.take(k)).request_line_parsed,
    ensures
        run_lines(lines).request_line_parsed,
        run_lines(lines).method == run_lines(lines.take(k)).method,
        run_lines(lines).version == run_lines(lines.take(k)).version,
        run_lines(lines).resource == run_lines(lines.take(k)).resource,
    decreases lines.len(),
{
    if k < lines.len() {
        assert(lines.drop_last().take(k) =~= lines.take(k));
        law_request_line_read_once(lines.drop_last(), k);
    } else {
        assert(lines.take(k) =~= lines);
    }
}

/// Law: once the empty line that ends the header fields has been read, the
/// header fields no longer change and every later line belongs to the body
/// or is the request line.
pub proof fn law_headers_end_at_body(lines: Seq<Seq<char>>, k: int)
    requires
        0 <= k <= lines.len(),
        run_lines(lines.take(k)).in_body,
    ensures
        run_lines(lines).in_body,
        run_lines(lines).head == run_lines(lines.take(k)).head,
    decreases lines.len(),
{
    if k < lines.len() {
        assert(lines.drop_last().take(k) =~= lines.take(k));
        law_headers_end_at_body(lines.drop_last(), k);
    } else {
        assert(lines.take(k) =~= lines);
    }
}

/// Law: a header line is split at its first colon only, so a value may
/// itself hold colons; name and value are trimmed.
pub proof fn law_header_split(name: Seq<char>, value: Seq<char>)
    requires
        !name.contains(':'),
    ensures
        header_name(name + seq![':'] + value) == trim(name),
        header_value(name + seq![':'] + value) == trim(value),
{
    let line = name + seq![':'] + value;
    assert forall|j: int| 0 <= j < name.len() implies line[j] != ':' by {
        assert(line[j] == name[j]);
    }
    assert(is_first_index(line, ':', name.len() as int));
    lemma_first_index_unique(line, ':', name.len() as int);
    assert(line.take(name.len() as int) =~= name);
    assert(line.skip(name.len() as int + 1) =~= value);
}

/// Law: the header fields read from any lines have distinct names.
pub proof fn law_head_names_distinct(lines: Seq<Seq<char>>)
    ensures
        distinct_keys(run_lines(lines).head),
    decreases lines.len(),
{
    if lines.len() > 0 {
        law_head_names_distinct(lines.drop_last());
        let st = run_lines(lines.drop_last());
        let line = lines.last();
        law_lookup_after_insert(st.head, header_name(line), header_value(line));
    }
}

/// Law: the request line sets the method from its first word alone (`GET`
/// gives `Get`, `POST` gives `Post`, any other word `Uninitialized`), the
/// target to its second word and the version from its third word alone
/// (`HTTP/1.1` gives `V1_1`, any other word `Uninitialized`); the header
/// fields and body are untouched. In particular the method does not depend
/// on the version word.
pub proof fn law_request_line_fields(st: ParseState, line: Seq<char>)
    requires
        is_request_line(st, line),
        words(line).len() >= 3,
    ensures
        words(line)[0] == "GET"@ ==> next_state(st, line).method == HttpMethod::Get,
        words(line)[0] == "POST"@ ==> next_state(st, line).method == HttpMethod::Post,
        words(line)[0] != "GET"@ && words(line)[0] != "POST"@ ==> next_state(st, line).method
            == HttpMethod::Uninitialized,
        next_state(st, line).resource == words(line)[1],
        words(line)[2] == "HTTP/1.1"@ ==> next_state(st, line).version == HttpVersion::V1_1,
        words(line)[2] != "HTTP/1.1"@ ==> next_state(st, line).version
            == HttpVersion::Uninitialized,
        next_state(st, line).head == st.head,
        next_state(st, line).body == st.body,
        next_state(st, line).in_body == st.in_body,
        next_state(st, line).request_line_parsed,
{
    reveal_strlit("GET");
    reveal_strlit("POST");
    assert("GET"@[0] != "POST"@[0]);
}

/// Law: a line that is not the request line is, in the body, appended to
/// the body after a newline (the first body line, or one after an empty
/// body, without one); before the body, a line with a colon at first
/// position `i` writes the header named by the trimmed text before `i` with
/// the trimmed text after `i` as value; an empty line starts the body; any
/// other line changes nothing.
pub proof fn law_other_lines(st: ParseState, line: Seq<char>, i: int)
    requires
        !is_request_line(st, line),
    ensures
        st.in_body ==> next_state(st, line).body == (if st.body.len() == 0 {
            line
        } else {
            st.body + seq!['\n'] + line
        }) && next_state(st, line).head == st.head && next_state(st, line).in_body,
        !st.in_body && is_first_index(line, ':', i) ==> next_state(st, line).head == insert_entry(
            st.head,
            trim(line.take(i)),
            trim(line.skip(i + 1)),
        ) && next_state(st, line).body == st.body && !next_state(st, line).in_body,
        !st.in_body && !line.contains(':') && line.len() == 0 ==> next_state(st, line).in_body
            && next_state(st, line).head == st.head && next_state(st, line).body == st.body,
        !st.in_body && !line.contains(':') && line.len() > 0 ==> next_state(st, line) == st,
        next_state(st, line).method == st.method,
        next_state(st, line).version == st.version,
        next_state(st, line).resource == st.resource,
{
    if st.in_body {
        assert(st.body.push('\n') + line =~= st.body + seq!['\n'] + line);
    }
    if !st.in_body && is_first_index(line, ':', i) {
        lemma_first_index_unique(line, ':', i);
        assert(line.contains(':'));
    }
}

/// The request reader's state.
struct Reader {
    method: HttpMethod,
    version: HttpVersion,
    resource: Vec<char>,
    head: HeaderMap,
    body: Vec<char>,
    request_line_parsed: bool,
    in_body: bool,
}

impl Reader {
    spec fn state(&self) -> ParseState {
        ParseState {
            method: self.method,
            version: self.version,
            resource: self.resource@,
            head: self.head@,
            body: self.body@,
            request_line_parsed: self.request_line_parsed,
            in_body: self.in_body,
        }
    }

    fn new() -> (r: Reader)
        ensures
            r.state() == initial_state(),
    {
        Reader {
            method: HttpMethod::Uninitialized,
            version: HttpVersion::Uninitialized,
            resource: Vec::new(),
            head: HeaderMap::new(),
            body: Vec::new(),
            request_line_parsed: false,
            in_body: false,
        }
    }

    /// Reads one line; `false` where the line is a request line with fewer
    /// than three words, and then nothing is changed that matters.
    fn feed(&mut self, line: &[char]) -> (r: bool)
        ensures
            r == line_ok(old(self).state(), line@),
            r ==> final(self).state() == next_state(old(self).state(), line@),
    {
        let marker = vec!['H', 'T', 'T', 'P'];
        assert(marker@ =~= http_marker());
        if !self.request_line_parsed && contains_chars(line, marker.as_slice()) {
            let w = split_words(line);
            if w.len() < 3 {
                return false;
            }
            assert(views(w@)[0] == w@[0]@ && views(w@)[1] == w@[1]@ && views(w@)[2] == w@[2]@);
            let m = from_chars(w[0].as_slice());
            let v = from_chars(w[2].as_slice());
            self.method = HttpMethod::from(m.as_str());
            self.resource = copy_range(w[1].as_slice(), 0, w[1].len());
            assert(self.resource@ =~= w@[1]@);
            self.version = HttpVersion::from(v.as_str());
            self.request_line_parsed = true;
            true
        } else if self.in_body {
            if self.body.len() == 0 {
                self.body = copy_range(line, 0, line.len());
                assert(self.body@ =~= line@);
            } else {
                self.body.push('\n');
                let mut rest = copy_range(line, 0, line.len());
                self.body.append(&mut rest);
                assert(self.body@ =~= extend_body(old(self).body@, line@));
            }
            true
        } else {
            match find_char(line, ':') {
                Some(i) => {
                    let n = line.len();
                    assert(i < n);
                    let name = trim_chars(copy_range(line, 0, i).as_slice());
                    let value = trim_chars(copy_range(line, i + 1, line.len()).as_slice());
                    assert(line@.subrange(0, i as int) =~= line@.take(i as int));
                    assert(line@.subrange(i + 1, line@.len() as int) =~= line@.skip(i + 1));
                    let n = from_chars(name.as_slice());
                    let v = from_chars(value.as_slice());
                    self.head.insert(n.as_str(), v.as_str());
                    true
                },
                None => {
                    if line.len() == 0 {
                        self.in_body = true;
                    }
                    true
                },
            }
        }
    }

    fn finish(self) -> (r: HttpRequest)
        ensures
            r.holds(self.state()),
    {
        let path = from_chars(self.resource.as_slice());
        let body = from_chars(self.body.as_slice());
        HttpRequest {
            method: self.method,
            version: self.version,
            resource: HttpReSource::Path(path),
            head: Some(self.head),
            body: Some(body),
        }
    }
}

impl HttpRequest {
    /// Reads the request that `req` describes; `None` exactly where its
    /// request line has fewer than three words.
    pub fn parse(req: &str) -> (r: Option<HttpRequest>)
        ensures
            r is Some <==> request_parses(req@),
            r matches Some(x) ==> x.holds(parse_request(req@)),
    {
        let chars = to_chars(req);
        let lines = lines_of(chars.as_slice());
        let ghost ls = views(lines@);
        let mut reader = Reader::new();
        let mut i: usize = 0;
        assert(ls.take(0) =~= Seq::<Seq<char>>::empty());
        while i < lines.len()
            invariant
                i <= lines@.len(),
                ls == views(lines@),
                ls == text_lines(req@),
                lines_ok(ls.take(i as int)),
                reader.state() == run_lines(ls.take(i as int)),
            decreases lines@.len() - i,
        {
            assert(ls.take(i + 1).drop_last() =~= ls.take(i as int));
            assert(ls[i as int] == lines@[i as int]@);
            if !reader.feed(lines[i].as_slice()) {
                proof {
                    if lines_ok(ls) {
                        lemma_lines_ok_prefix(ls, i + 1);
                    }
                }
                return None;
            }
            i = i + 1;
        }
        assert(ls.take(i as int) =~= ls);
        Some(reader.finish())
    }

    /// Reads the request that `req` describes (see `parse`).
    pub fn from(req: String) -> (r: HttpRequest)
        requires
            request_parses(req@),
        ensures
            r.holds(parse_request(req@)),
    {
        match HttpRequest::parse(req.as_str()) {
            Some(r) => r,
            None => Reader::new().finish(),
        }
    }
}

} // verus!
