//! The document parser: a document is read line by line into an ordered list
//! of entries, one for each heading.

use vstd::prelude::*;
use vstd::string::StringExecFns;
use crate::text::{trim, split_on, join_lines, trim_range, find_char, text_of, to_chars};
use crate::token::{LineKind, token_split, kind_of, token_ranges, classify};
use crate::verdict::{Verdict, verdict_of};

verus! {

/// One reviewed item, as the document describes it.
#[derive(Debug)]
pub struct Entry {
    pub name: String,
    pub subtitle: Option<String>,
    pub tags: Vec<String>,
    pub verdict: Verdict,
    pub description: String,
    pub sources: Vec<String>,
    pub review: Option<String>,
}

/// What an entry holds, as mathematical values.
pub struct EntryModel {
    pub name: Seq<char>,
    pub subtitle: Option<Seq<char>>,
    pub tags: Seq<Seq<char>>,
    pub verdict: Verdict,
    pub description: Seq<char>,
    pub sources: Seq<Seq<char>>,
    pub review: Option<Seq<char>>,
}

impl View for Entry {
    type V = EntryModel;

    open spec fn view(&self) -> EntryModel {
        EntryModel {
            name: self.name@,
            subtitle: self.subtitle.deep_view(),
            tags: self.tags.deep_view(),
            verdict: self.verdict,
            description: self.description@,
            sources: self.sources.deep_view(),
            review: self.review.deep_view(),
        }
    }
}

impl DeepView for Entry {
    type V = EntryModel;

    open spec fn deep_view(&self) -> EntryModel {
        self@
    }
}

/// Why a document is not accepted. The first fault ends the parse.
#[derive(Clone, Copy, Debug, PartialEq, Eq, Structural)]
pub enum ParseError {
    /// A record is closed, or the document ends, and no heading gave a name.
    MissingName,
    /// A record is closed and no verdict line of it named a verdict.
    MissingVerdict,
    /// A second subtitle line in one record.
    DuplicateSubtitle,
    /// A second verdict line in one record.
    DuplicateVerdict,
    /// A second review line in one record.
    DuplicateReview,
}

/// The sentence that reports a fault.
pub open spec fn message_of(e: ParseError) -> Seq<char> {
    match e {
        ParseError::MissingName => "No name given!"@,
        ParseError::MissingVerdict => "No verdict given, or is invalid!"@,
        ParseError::DuplicateSubtitle => "Subtitle already given!"@,
        ParseError::DuplicateVerdict => "Verdict already given!"@,
        ParseError::DuplicateReview => "Review already given!"@,
    }
}

impl ParseError {
    /// The sentence that reports the fault.
    pub fn message(&self) -> (r: String)
        ensures
            r@ == message_of(*self),
    {
        match self {
            ParseError::MissingName => "No name given!".to_owned(),
            ParseError::MissingVerdict => "No verdict given, or is invalid!".to_owned(),
            ParseError::DuplicateSubtitle => "Subtitle already given!".to_owned(),
            ParseError::DuplicateVerdict => "Verdict already given!".to_owned(),
            ParseError::DuplicateReview => "Review already given!".to_owned(),
        }
    }
}

/// The tags of a tag line: the pieces of its remainder between the commas,
/// each trimmed.
pub open spec fn tags_of(rest: Seq<char>) -> Seq<Seq<char>> {
    split_on(rest, ',').map_values(|t: Seq<char>| trim(t))
}

/// The lines of a document: its pieces between the line feeds.
pub open spec fn lines_of(document: Seq<char>) -> Seq<Seq<char>> {
    split_on(document, '\n')
}

/// What has been gathered of the record in progress.
pub struct DraftModel {
    pub name: Option<Seq<char>>,
    pub subtitle: Option<Seq<char>>,
    pub tags: Seq<Seq<char>>,
    /// A verdict line was read, whether or not it named a verdict.
    pub verdict_given: bool,
    pub verdict: Option<Verdict>,
    /// The description, line by line.
    pub description: Seq<Seq<char>>,
    pub sources: Seq<Seq<char>>,
    pub review: Option<Seq<char>>,
}

impl DraftModel {
    /// The draft of which nothing is known yet.
    pub open spec fn empty() -> DraftModel {
        DraftModel {
            name: None,
            subtitle: None,
            tags: Seq::empty(),
            verdict_given: false,
            verdict: None,
            description: Seq::empty(),
            sources: Seq::empty(),
            review: None,
        }
    }

    /// The draft that a heading opens: a name and nothing else.
    pub open spec fn named(name: Seq<char>) -> DraftModel {
        DraftModel { name: Some(name), ..DraftModel::empty() }
    }

    /// The entry that the draft has become, once name and verdict are there.
    pub open spec fn entry(self) -> EntryModel {
        EntryModel {
            name: self.name->0,
            subtitle: self.subtitle,
            tags: self.tags,
            verdict: self.verdict->0,
            description: join_lines(self.description),
            sources: self.sources,
            review: self.review,
        }
    }

    /// Closing the draft: it needs a name, then a verdict.
    pub open spec fn finalize(self) -> Result<EntryModel, ParseError> {
        if self.name is None {
            Err(ParseError::MissingName)
        } else if self.verdict is None {
            Err(ParseError::MissingVerdict)
        } else {
            Ok(self.entry())
        }
    }
}

/// The state of a parse: the record in progress and the entries closed so far.
/// No record is in progress until a heading has given the draft a name.
pub struct ParserModel {
    pub draft: DraftModel,
    pub entries: Seq<EntryModel>,
}

impl ParserModel {
    /// The state before the first line.
    pub open spec fn start() -> ParserModel {
        ParserModel { draft: DraftModel::empty(), entries: Seq::empty() }
    }

    /// The state after one more line, or the fault that the line brings.
    /// A line that is empty once trimmed changes nothing.
    pub open spec fn feed(self, raw: Seq<char>) -> Result<ParserModel, ParseError> {
        let line = trim(raw);
        let (token, rest) = token_split(line);
        let d = self.draft;
        if line.len() == 0 {
            Ok(self)
        } else {
            match kind_of(token) {
                LineKind::Heading => {
                    if d.name is None {
                        Ok(ParserModel { draft: DraftModel::named(rest), ..self })
                    } else {
                        match d.finalize() {
                            Ok(e) => Ok(
                                ParserModel {
                                    draft: DraftModel::named(rest),
                                    entries: self.entries.push(e),
                                },
                            ),
                            Err(fault) => Err(fault),
                        }
                    }
                },
                LineKind::Subtitle => {
                    if d.subtitle is Some {
                        Err(ParseError::DuplicateSubtitle)
                    } else {
                        Ok(ParserModel { draft: DraftModel { subtitle: Some(rest), ..d }, ..self })
                    }
                },
                LineKind::Tags => Ok(
                    ParserModel { draft: DraftModel { tags: tags_of(rest), ..d }, ..self },
                ),
                LineKind::Verdict => {
                    if d.verdict_given {
                        Err(ParseError::DuplicateVerdict)
                    } else {
                        Ok(
                            ParserModel {
                                draft: DraftModel {
                                    verdict_given: true,
                                    verdict: verdict_of(rest),
                                    ..d
                                },
                                ..self
                            },
                        )
                    }
                },
                LineKind::Source => Ok(
                    ParserModel { draft: DraftModel { sources: d.sources.push(rest), ..d }, ..self },
                ),
                LineKind::Review => {
                    if d.review is Some {
                        Err(ParseError::DuplicateReview)
                    } else {
                        Ok(ParserModel { draft: DraftModel { review: Some(rest), ..d }, ..self })
                    }
                },
                LineKind::Text => Ok(
                    ParserModel {
                        draft: DraftModel { description: d.description.push(line), ..d },
                        ..self
                    },
                ),
            }
        }
    }

    /// The state after the given lines, or the first fault among them.
    pub open spec fn feed_all(self, lines: Seq<Seq<char>>) -> Result<ParserModel, ParseError>
        decreases lines.len(),
    {
        if lines.len() == 0 {
            Ok(self)
        } else {
            match self.feed(lines[0]) {
                Ok(next) => next.feed_all(lines.drop_first()),
                Err(fault) => Err(fault),
            }
        }
    }

    /// The end of the document: the record in progress is closed and joins
    /// the others.
    pub open spec fn finish(self) -> Result<Seq<EntryModel>, ParseError> {
        match self.draft.finalize() {
            Ok(e) => Ok(self.entries.push(e)),
            Err(fault) => Err(fault),
        }
    }
}

/// The entries of a document, or the first fault in it.
pub open spec fn parse(document: Seq<char>) -> Result<Seq<EntryModel>, ParseError> {
    match ParserModel::start().feed_all(lines_of(document)) {
        Ok(state) => state.finish(),
        Err(fault) => Err(fault),
    }
}

/// The record in progress.
pub struct Draft {
    name: Option<String>,
    subtitle: Option<String>,
    tags: Vec<String>,
    verdict_given: bool,
    verdict: Option<Verdict>,
    description: Vec<String>,
    sources: Vec<String>,
    review: Option<String>,
}

impl View for Draft {
    type V = DraftModel;

    closed spec fn view(&self) -> DraftModel {
        DraftModel {
            name: self.name.deep_view(),
            subtitle: self.subtitle.deep_view(),
            tags: self.tags.deep_view(),
            verdict_given: self.verdict_given,
            verdict: self.verdict,
            description: self.description.deep_view(),
            sources: self.sources.deep_view(),
            review: self.review.deep_view(),
        }
    }
}

/// The texts of `v[lo..hi]` between the commas, each trimmed.
pub(crate) fn split_tags(v: &[char], lo: usize, hi: usize) -> (tags: Vec<String>)
    requires
        lo <= hi <= v@.len(),
    ensures
        tags.deep_view() == tags_of(v@.subrange(lo as int, hi as int)),
{
    let ghost whole = tags_of(v@.subrange(lo as int, hi as int));
    let mut tags: Vec<String> = Vec::new();
    let mut pos: usize = lo;
    let mut more = true;
    proof {
        assert(tags.deep_view() + whole =~= whole);
    }
    while more
        invariant
            lo <= pos <= hi <= v@.len(),
            whole == tags_of(v@.subrange(lo as int, hi as int)),
            more ==> tags.deep_view() + tags_of(v@.subrange(pos as int, hi as int)) == whole,
            !more ==> tags.deep_view() == whole,
        decreases hi - pos + if more { 1int } else { 0int },
    {
        let ghost before = tags.deep_view();
        let ghost s = v@.subrange(pos as int, hi as int);
        let i = find_char(v, pos, hi, ',');
        let (a, b) = trim_range(v, pos, i);
        tags.push(text_of(v, a, b));
        proof {
            let piece = trim(v@.subrange(pos as int, i as int));
            assert(tags.deep_view() =~= before.push(piece));
            assert(s.take(i - pos) =~= v@.subrange(pos as int, i as int));
            if i < hi {
                assert(s.skip(i - pos + 1) =~= v@.subrange(i + 1, hi as int));
                assert(tags_of(s) =~= seq![piece] + tags_of(v@.subrange(i + 1, hi as int)));
                assert(before.push(piece) + tags_of(v@.subrange(i + 1, hi as int)) =~= before
                    + tags_of(s));
            } else {
                assert(tags_of(s) =~= seq![piece]);
                assert(before.push(piece) =~= before + tags_of(s));
            }
        }
        if i < hi {
            pos = i + 1;
        } else {
            more = false;
        }
    }
    tags
}

/// The given lines as one text, a line feed between each two.
pub fn join(lines: &Vec<String>) -> (r: String)
    ensures
        r@ == join_lines(lines.deep_view()),
{
    let ghost all = lines.deep_view();
    let mut out = String::new();
    let mut i: usize = 0;
    while i < lines.len()
        invariant
            i <= lines@.len(),
            all == lines.deep_view(),
            out@ == join_lines(all.take(i as int)),
        decreases lines@.len() - i,
    {
        if i > 0 {
            out.push('\n');
        }
        out.append(lines[i].as_str());
        proof {
            let now = all.take(i + 1);
            assert(now.drop_last() =~= all.take(i as int));
            assert(now.last() == lines@[i as int]@);
        }
        i += 1;
    }
    proof {
        assert(all.take(i as int) =~= all);
    }
    out
}

impl Draft {
    /// A draft of which nothing is known yet.
    pub fn new() -> (d: Draft)
        ensures
            d@ == DraftModel::empty(),
    {
        let d = Draft {
            name: None,
            subtitle: None,
            tags: Vec::new(),
            verdict_given: false,
            verdict: None,
            description: Vec::new(),
            sources: Vec::new(),
            review: None,
        };
        proof {
            assert(d.tags.deep_view() =~= Seq::empty());
            assert(d.description.deep_view() =~= Seq::empty());
            assert(d.sources.deep_view() =~= Seq::empty());
        }
        d
    }

    /// What the draft lacks to be closed, if it lacks anything: first a name,
    /// then a verdict.
    pub fn lacks(&self) -> (r: Option<ParseError>)
        ensures
            r == match self@.finalize() {
                Ok(_) => None::<ParseError>,
                Err(fault) => Some(fault),
            },
    {
        if self.name.is_none() {
            Some(ParseError::MissingName)
        } else if self.verdict.is_none() {
            Some(ParseError::MissingVerdict)
        } else {
            None
        }
    }

    /// The entry that a draft with name and verdict has become.
    fn into_entry(self) -> (entry: Entry)
        requires
            self@.finalize() is Ok,
        ensures
            entry@ == self@.entry(),
    {
        let description = join(&self.description);
        Entry {
            name: self.name.unwrap(),
            subtitle: self.subtitle,
            tags: self.tags,
            verdict: self.verdict.unwrap(),
            description,
            sources: self.sources,
            review: self.review,
        }
    }

    /// Closes the draft: the entry it has become, or what it lacks.
    pub fn finalize(self) -> (r: Result<Entry, ParseError>)
        ensures
            match self@.finalize() {
                Ok(e) => r is Ok && r->Ok_0@ == e,
                Err(fault) => r == Err::<Entry, ParseError>(fault),
            },
    {
        match self.lacks() {
            Some(fault) => Err(fault),
            None => Ok(self.into_entry()),
        }
    }
}

/// A parse in progress: lines go in one by one, and the entries come out at
/// the end.
pub struct Parser {
    draft: Draft,
    entries: Vec<Entry>,
}

impl View for Parser {
    type V = ParserModel;

    closed spec fn view(&self) -> ParserModel {
        ParserModel { draft: self.draft@, entries: self.entries.deep_view() }
    }
}

impl Parser {
    /// A parse that has read nothing yet.
    pub fn new() -> (p: Parser)
        ensures
            p@ == ParserModel::start(),
    {
        let p = Parser { draft: Draft::new(), entries: Vec::new() };
        proof {
            assert(p.entries.deep_view() =~= Seq::empty());
        }
        p
    }

    /// Reads the line `v[lo..hi]`. A fault leaves the parse as it was.
    pub(crate) fn feed_range(&mut self, v: &[char], lo: usize, hi: usize) -> (r: Result<(), ParseError>)
        requires
            lo <= hi <= v@.len(),
        ensures
            match old(self)@.feed(v@.subrange(lo as int, hi as int)) {
                Ok(next) => r is Ok && final(self)@ == next,
                Err(fault) => r == Err::<(), ParseError>(fault) && final(self)@ == old(self)@,
            },
    {
        let (a, b) = trim_range(v, lo, hi);
        if a == b {
            return Ok(());
        }
        let (token, rest) = token_ranges(v, a, b);
        match classify(v, token.0, token.1) {
            LineKind::Heading => {
                let mut done = Draft::new();
                if self.draft.name.is_some() {
                    match self.draft.lacks() {
                        Some(fault) => {
                            return Err(fault);
                        },
                        None => {},
                    }
                    core::mem::swap(&mut self.draft, &mut done);
                    let ghost before = self.entries.deep_view();
                    let entry = done.into_entry();
                    self.entries.push(entry);
                    proof {
                        assert(self.entries.deep_view() =~= before.push(entry@));
                    }
                } else {
                    self.draft = done;
                }
                self.draft.name = Some(text_of(v, rest.0, rest.1));
            },
            LineKind::Subtitle => {
                if self.draft.subtitle.is_some() {
                    return Err(ParseError::DuplicateSubtitle);
                }
                self.draft.subtitle = Some(text_of(v, rest.0, rest.1));
            },
            LineKind::Tags => {
                self.draft.tags = split_tags(v, rest.0, rest.1);
            },
            LineKind::Verdict => {
                if self.draft.verdict_given {
                    return Err(ParseError::DuplicateVerdict);
                }
                self.draft.verdict_given = true;
                self.draft.verdict = Verdict::from_range(v, rest.0, rest.1);
            },
            LineKind::Source => {
                let ghost before = self.draft.sources.deep_view();
                let source = text_of(v, rest.0, rest.1);
                self.draft.sources.push(source);
                proof {
                    assert(self.draft.sources.deep_view() =~= before.push(source@));
                }
            },
            LineKind::Review => {
                if self.draft.review.is_some() {
                    return Err(ParseError::DuplicateReview);
                }
                self.draft.review = Some(text_of(v, rest.0, rest.1));
            },
            LineKind::Text => {
                let ghost before = self.draft.description.deep_view();
                let line = text_of(v, a, b);
                self.draft.description.push(line);
                proof {
                    assert(self.draft.description.deep_view() =~= before.push(line@));
                }
            },
        }
        Ok(())
    }

    /// Reads one line. A fault leaves the parse as it was.
    pub fn feed(&mut self, line: &str) -> (r: Result<(), ParseError>)
        ensures
            match old(self)@.feed(line@) {
                Ok(next) => r is Ok && final(self)@ == next,
                Err(fault) => r == Err::<(), ParseError>(fault) && final(self)@ == old(self)@,
            },
    {
        let v = to_chars(line);
        proof {
            assert(v@.subrange(0, v@.len() as int) =~= line@);
        }
        self.feed_range(v.as_slice(), 0, v.len())
    }

    /// Ends the parse: the record in progress is closed, and all entries are
    /// handed out in the order of their headings.
    pub fn finish(self) -> (r: Result<Vec<Entry>, ParseError>)
        ensures
            match self@.finish() {
                Ok(entries) => r is Ok && r->Ok_0.deep_view() == entries,
                Err(fault) => r == Err::<Vec<Entry>, ParseError>(fault),
            },
    {
        let mut entries = self.entries;
        let ghost before = entries.deep_view();
        match self.draft.finalize() {
            Ok(entry) => {
                entries.push(entry);
                proof {
                    assert(entries.deep_view() =~= before.push(entry@));
                }
                Ok(entries)
            },
            Err(fault) => Err(fault),
        }
    }
}

/// Parses a document into its entries, in the order of their headings. The
/// first fault ends the parse, and nothing is handed out then.
pub fn get_entries(document: &str) -> (r: Result<Vec<Entry>, ParseError>)
    ensures
        match parse(document@) {
            Ok(entries) => r is Ok && r->Ok_0.deep_view() == entries,
            Err(fault) => r == Err::<Vec<Entry>, ParseError>(fault),
        },
{
    let v = to_chars(document);
    let n = v.len();
    let mut parser = Parser::new();
    let mut pos: usize = 0;
    let mut more = true;
    let ghost goal = ParserModel::start().feed_all(lines_of(document@));
    proof {
        assert(v@.subrange(0, n as int) =~= document@);
    }
    while more
        invariant
            pos <= n == v@.len(),
            goal == ParserModel::start().feed_all(lines_of(document@)),
            more ==> goal == parser@.feed_all(lines_of(v@.subrange(pos as int, n as int))),
            !more ==> goal == Ok::<ParserModel, ParseError>(parser@),
        decreases n - pos + if more { 1int } else { 0int },
    {
        let ghost s = v@.subrange(pos as int, n as int);
        let i = find_char(v.as_slice(), pos, n, '\n');
        proof {
            assert(s.take(i - pos) =~= v@.subrange(pos as int, i as int));
            let lines = lines_of(s);
            assert(lines[0] == s.take(i - pos));
            if i < n {
                assert(s.skip(i - pos + 1) =~= v@.subrange(i + 1, n as int));
                assert(lines.drop_first() =~= lines_of(v@.subrange(i + 1, n as int)));
            } else {
                assert(lines.drop_first() =~= Seq::<Seq<char>>::empty());
            }
        }
        match parser.feed_range(v.as_slice(), pos, i) {
            Ok(()) => {},
            Err(fault) => {
                return Err(fault);
            },
        }
        if i < n {
            pos = i + 1;
        } else {
            more = false;
        }
    }
    parser.finish()
}

} // verus!
