//! The header accumulator: what the request tokenizer reports, part by part,
//! becomes the header mapping of the request.

use crate::headers::{append_bytes, copy_bytes, Headers};
use http_muncher::{Parser, ParserHandler};
use vstd::prelude::*;

verus! {

/// One report of the tokenizer. A header name or value may arrive in
/// several parts, each reported on its own, in order.
pub enum Report {
    /// A part of a header name.
    HeaderField(Seq<u8>),
    /// A part of a header value.
    HeaderValue(Seq<u8>),
    /// The header block has ended.
    HeadersComplete,
}

/// What has been collected from the reports so far.
pub struct Progress {
    /// The headers whose value has begun to arrive.
    pub headers: Map<Seq<u8>, Seq<u8>>,
    /// The header name that was reported last, as far as it has arrived.
    pub current_key: Option<Seq<u8>>,
    /// Whether the last report was a part of a value.
    pub in_value: bool,
    /// Whether the end of the header block was reported.
    pub complete: bool,
}

impl Progress {
    /// Nothing reported yet.
    pub open spec fn start() -> Progress {
        Progress { headers: Map::empty(), current_key: None, in_value: false, complete: false }
    }

    /// A part of a name continues the name that is arriving, or begins the
    /// next one once a value has been seen.
    pub open spec fn header_field(self, part: Seq<u8>) -> Progress {
        match self.current_key {
            Some(name) if !self.in_value => Progress { current_key: Some(name + part), ..self },
            _ => Progress { current_key: Some(part), in_value: false, ..self },
        }
    }

    /// A part of a value is stored under the name reported before it; a
    /// further part extends the stored value. Without a name nothing changes.
    pub open spec fn header_value(self, part: Seq<u8>) -> Progress {
        match self.current_key {
            Some(name) => {
                let begun = if self.in_value && self.headers.contains_key(name) {
                    self.headers[name]
                } else {
                    Seq::empty()
                };
                Progress {
                    headers: self.headers.insert(name, begun + part),
                    in_value: true,
                    ..self
                }
            },
            None => self,
        }
    }

    /// The end of the header block.
    pub open spec fn headers_complete(self) -> Progress {
        Progress { complete: true, ..self }
    }

    /// The effect of one report.
    pub open spec fn step(self, report: Report) -> Progress {
        match report {
            Report::HeaderField(part) => self.header_field(part),
            Report::HeaderValue(part) => self.header_value(part),
            Report::HeadersComplete => self.headers_complete(),
        }
    }

    /// The effect of a run of reports, in order.
    pub open spec fn run(self, reports: Seq<Report>) -> Progress
        decreases reports.len(),
    {
        if reports.len() == 0 {
            self
        } else {
            self.run(reports.drop_last()).step(reports.last())
        }
    }
}

/// The handler that the tokenizer reports to.
pub struct HttpParser {
    current_key: Option<Vec<u8>>,
    in_value: bool,
    complete: bool,
    headers: Headers,
}

impl View for HttpParser {
    type V = Progress;

    closed spec fn view(&self) -> Progress {
        Progress {
            headers: self.headers@,
            current_key: match self.current_key {
                Some(name) => Some(name@),
                None => None,
            },
            in_value: self.in_value,
            complete: self.complete,
        }
    }
}

impl HttpParser {
    /// A handler that has been told nothing.
    pub fn new() -> (handler: HttpParser)
        ensures
            handler@ == Progress::start(),
    {
        HttpParser { current_key: None, in_value: false, complete: false, headers: Headers::new() }
    }

    /// The headers collected so far.
    pub fn headers(&self) -> (headers: &Headers)
        ensures
            headers@ == self@.headers,
    {
        &self.headers
    }

    /// Whether the end of the header block was reported.
    pub fn is_complete(&self) -> (complete: bool)
        ensures
            complete == self@.complete,
    {
        self.complete
    }
}

impl ParserHandler for HttpParser {
    /// Takes a part of a header name. The tokenizer goes on.
    fn on_header_field(&mut self, s: &[u8]) -> (go_on: bool)
        ensures
            final(self)@ == old(self)@.header_field(s@),
            go_on,
    {
        let name = match self.current_key.take() {
            Some(mut name) if !self.in_value => {
                append_bytes(&mut name, s);
                name
            },
            _ => copy_bytes(s),
        };
        self.current_key = Some(name);
        self.in_value = false;
        true
    }

    /// Takes a part of a header value. The tokenizer goes on if a name was
    /// reported before the value, and is stopped if none was.
    fn on_header_value(&mut self, s: &[u8]) -> (go_on: bool)
        ensures
            final(self)@ == old(self)@.header_value(s@),
            go_on == (old(self)@.current_key is Some),
    {
        match &self.current_key {
            Some(name) => {
                let mut value: Vec<u8> = Vec::new();
                if self.in_value {
                    match self.headers.get(name.as_slice()) {
                        Some(begun) => {
                            append_bytes(&mut value, begun.as_slice());
                        },
                        None => {},
                    }
                }
                append_bytes(&mut value, s);
                let key = copy_bytes(name.as_slice());
                self.headers.insert(key, value);
                self.in_value = true;
                true
            },
            None => false,
        }
    }

    /// Notes the end of the header block. The answer tells the tokenizer to
    /// expect no body.
    fn on_headers_complete(&mut self) -> (go_on: bool)
        ensures
            final(self)@ == old(self)@.headers_complete(),
            !go_on,
    {
        self.complete = true;
        false
    }
}

/// The request tokenizer of `http_muncher`, which reports to the handler
/// that it holds. Neither its fields nor its state are visible here.
#[verifier::external_type_specification]
#[verifier::external_body]
#[verifier::reject_recursive_types(H)]
pub struct ExParser<H>(Parser<H>);

/// What the handler inside a tokenizer has collected.
pub uninterp spec fn parser_progress(parser: Parser<HttpParser>) -> Progress;

/// Whether the tokenizer found, at the end of the header block, that the
/// request asks for a protocol upgrade.
pub uninterp spec fn parser_upgrade(parser: Parser<HttpParser>) -> bool;

/// Whether the tokenizer has stopped on an error.
pub uninterp spec fn parser_error(parser: Parser<HttpParser>) -> bool;

/// The reports that a tokenizer makes of header names, header values and the
/// end of the header block when it is given `data`, in order.
pub uninterp spec fn parse_reports(parser: Parser<HttpParser>, data: Seq<u8>) -> Seq<Report>;

/// `Parser::request` makes a request tokenizer around the handler. It has
/// neither seen an upgrade nor an error.
#[verifier::external_body]
pub(crate) fn parser_request(handler: HttpParser) -> (parser: Parser<HttpParser>)
    ensures
        parser_progress(parser) == handler@,
        !parser_upgrade(parser),
        !parser_error(parser),
{
    Parser::request(handler)
}

/// `Parser::parse` runs the tokenizer over `data`. The tokenizer touches the
/// handler only by the reports it makes, so what the handler has collected
/// afterwards is what it had, advanced by those reports.
#[verifier::external_body]
pub(crate) fn parser_parse(parser: &mut Parser<HttpParser>, data: &[u8]) -> (consumed: usize)
    ensures
        parser_progress(*final(parser)) == parser_progress(*old(parser)).run(
            parse_reports(*old(parser), data@),
        ),
{
    parser.parse(data)
}

/// `Parser::is_upgrade` reads the upgrade flag that the last `parse` left.
#[verifier::external_body]
pub(crate) fn parser_is_upgrade(parser: &Parser<HttpParser>) -> (upgrade: bool)
    ensures
        upgrade == parser_upgrade(*parser),
{
    parser.is_upgrade()
}

/// `Parser::has_error` reads the error code that the last `parse` left.
#[verifier::external_body]
pub(crate) fn parser_has_error(parser: &Parser<HttpParser>) -> (error: bool)
    ensures
        error == parser_error(*parser),
{
    parser.has_error()
}

/// `Parser::get` lends the handler that the tokenizer holds.
#[verifier::external_body]
pub(crate) fn parser_get(parser: &mut Parser<HttpParser>) -> (handler: &HttpParser)
    ensures
        handler@ == parser_progress(*old(parser)),
        *final(parser) == *old(parser),
{
    parser.get()
}

/// Reports handed over in two runs have the effect of the same reports in
/// one run: where a run is cut does not matter.
pub proof fn lemma_run_concat(progress: Progress, first: Seq<Report>, second: Seq<Report>)
    ensures
        progress.run(first + second) == progress.run(first).run(second),
    decreases second.len(),
{
    if second.len() > 0 {
        lemma_run_concat(progress, first, second.drop_last());
        assert((first + second).drop_last() =~= first + second.drop_last());
    }
}

/// A header name reported in two parts is collected as the same name
/// reported in one.
pub proof fn lemma_field_parts(progress: Progress, head: Seq<u8>, tail: Seq<u8>)
    ensures
        progress.header_field(head).header_field(tail) == progress.header_field(head + tail),
{
    match progress.current_key {
        Some(name) if !progress.in_value => {
            assert((name + head) + tail =~= name + (head + tail));
        },
        _ => {},
    }
}

/// A header value reported in two parts is collected as the same value
/// reported in one.
pub proof fn lemma_value_parts(progress: Progress, head: Seq<u8>, tail: Seq<u8>)
    ensures
        progress.header_value(head).header_value(tail) == progress.header_value(head + tail),
{
    match progress.current_key {
        Some(name) => {
            let begun = if progress.in_value && progress.headers.contains_key(name) {
                progress.headers[name]
            } else {
                Seq::empty()
            };
            assert((begun + head) + tail =~= begun + (head + tail));
            assert(progress.headers.insert(name, begun + head).insert(name, begun + head + tail)
                =~= progress.headers.insert(name, begun + (head + tail)));
        },
        None => {},
    }
}

/// The reports of a request with one report of a name or a value cut in two
/// at `at`: both parts are reported, one after the other, in its place.
pub open spec fn cut_report(reports: Seq<Report>, index: int, at: int) -> Seq<Report> {
    let parts = match reports[index] {
        Report::HeaderField(part) => seq![
            Report::HeaderField(part.take(at)),
            Report::HeaderField(part.skip(at)),
        ],
        Report::HeaderValue(part) => seq![
            Report::HeaderValue(part.take(at)),
            Report::HeaderValue(part.skip(at)),
        ],
        Report::HeadersComplete => seq![Report::HeadersComplete],
    };
    reports.take(index) + parts + reports.skip(index + 1)
}

/// Where the tokenizer cuts a name or a value into parts does not matter:
/// the reports with one of them cut in two collect what the uncut reports
/// collect.
pub proof fn lemma_cut_report(progress: Progress, reports: Seq<Report>, index: int, at: int)
    requires
        0 <= index < reports.len(),
        match reports[index] {
            Report::HeaderField(part) => 0 <= at <= part.len(),
            Report::HeaderValue(part) => 0 <= at <= part.len(),
            Report::HeadersComplete => true,
        },
    ensures
        progress.run(cut_report(reports, index, at)) == progress.run(reports),
{
    let before = reports.take(index);
    let after = reports.skip(index + 1);
    let whole = seq![reports[index]];
    let cut = cut_report(reports, index, at);
    let parts = cut.subrange(index, cut.len() - after.len());
    let reached = progress.run(before);
    assert(cut =~= (before + parts) + after);
    assert(reports =~= (before + whole) + after);
    assert(reached.run(whole) == reached.step(reports[index])) by {
        assert(whole.drop_last() =~= Seq::<Report>::empty());
        assert(reached.run(whole.drop_last()) == reached);
    }
    assert(reached.run(parts) == reached.step(reports[index])) by {
        match reports[index] {
            Report::HeaderField(part) => {
                let one = seq![Report::HeaderField(part.take(at))];
                assert(parts =~= one.push(Report::HeaderField(part.skip(at))));
                assert(parts.drop_last() =~= one);
                assert(one.drop_last() =~= Seq::<Report>::empty());
                assert(reached.run(one.drop_last()) == reached);
                assert(reached.run(one) == reached.header_field(part.take(at)));
                lemma_field_parts(reached, part.take(at), part.skip(at));
                assert(part.take(at) + part.skip(at) =~= part);
            },
            Report::HeaderValue(part) => {
                let one = seq![Report::HeaderValue(part.take(at))];
                assert(parts =~= one.push(Report::HeaderValue(part.skip(at))));
                assert(parts.drop_last() =~= one);
                assert(one.drop_last() =~= Seq::<Report>::empty());
                assert(reached.run(one.drop_last()) == reached);
                assert(reached.run(one) == reached.header_value(part.take(at)));
                lemma_value_parts(reached, part.take(at), part.skip(at));
                assert(part.take(at) + part.skip(at) =~= part);
            },
            Report::HeadersComplete => {
                assert(parts =~= whole);
            },
        }
    }
    lemma_run_concat(progress, before, parts);
    lemma_run_concat(progress, before + parts, after);
    lemma_run_concat(progress, before, whole);
    lemma_run_concat(progress, before + whole, after);
}

/// The reports with every name and every value in one piece: parts of a
/// name that follow one another are joined, and so are parts of a value.
pub open spec fn joined(reports: Seq<Report>) -> Seq<Report>
    decreases reports.len(),
{
    if reports.len() == 0 {
        Seq::empty()
    } else {
        let front = joined(reports.drop_last());
        if front.len() == 0 {
            seq![reports.last()]
        } else {
            match (front.last(), reports.last()) {
                (Report::HeaderField(head), Report::HeaderField(tail)) => front.drop_last().push(
                    Report::HeaderField(head + tail),
                ),
                (Report::HeaderValue(head), Report::HeaderValue(tail)) => front.drop_last().push(
                    Report::HeaderValue(head + tail),
                ),
                _ => front.push(reports.last()),
            }
        }
    }
}

/// Reports collect what the same reports collect with their parts joined.
pub proof fn lemma_run_joined(progress: Progress, reports: Seq<Report>)
    ensures
        progress.run(joined(reports)) == progress.run(reports),
    decreases reports.len(),
{
    if reports.len() > 0 {
        let front = joined(reports.drop_last());
        lemma_run_joined(progress, reports.drop_last());
        if front.len() == 0 {
            let one = seq![reports.last()];
            assert(one.drop_last() =~= Seq::<Report>::empty());
        } else {
            let reached = progress.run(front.drop_last());
            match (front.last(), reports.last()) {
                (Report::HeaderField(head), Report::HeaderField(tail)) => {
                    let merged = front.drop_last().push(Report::HeaderField(head + tail));
                    assert(merged.drop_last() =~= front.drop_last());
                    lemma_field_parts(reached, head, tail);
                },
                (Report::HeaderValue(head), Report::HeaderValue(tail)) => {
                    let merged = front.drop_last().push(Report::HeaderValue(head + tail));
                    assert(merged.drop_last() =~= front.drop_last());
                    lemma_value_parts(reached, head, tail);
                },
                _ => {
                    let longer = front.push(reports.last());
                    assert(longer.drop_last() =~= front);
                },
            }
        }
    }
}

/// Delivery in chunks does not matter to what is collected: if the reports
/// made for a request that came in two chunks are, with their parts joined,
/// the reports made for the request in one chunk, the same headers and the
/// same progress result.
pub proof fn lemma_chunks_agnostic(
    progress: Progress,
    whole: Seq<Report>,
    first: Seq<Report>,
    second: Seq<Report>,
)
    requires
        joined(first + second) == joined(whole),
    ensures
        progress.run(first).run(second) == progress.run(whole),
{
    lemma_run_concat(progress, first, second);
    lemma_run_joined(progress, first + second);
    lemma_run_joined(progress, whole);
}

} // verus!
