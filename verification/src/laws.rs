//! What holds of every document: how the entries of a parse relate to the
//! headings, and which documents are not accepted.

use vstd::prelude::*;
use crate::text::{trim, split_on, lemma_trim_is_trimmed};
use crate::token::{LineKind, token_split, kind_of, lemma_token_split_shape};
use crate::verdict::verdict_of;
use crate::info::{EntryModel, ParseError, ParserModel, lines_of, parse, tags_of};

verus! {

/// The kind of a line, where it is not empty once trimmed.
pub open spec fn line_kind(raw: Seq<char>) -> Option<LineKind> {
    if trim(raw).len() == 0 {
        None
    } else {
        Some(kind_of(token_split(trim(raw)).0))
    }
}

/// What a line holds after its token.
pub open spec fn line_rest(raw: Seq<char>) -> Seq<char> {
    token_split(trim(raw)).1
}

/// The line is a heading.
pub open spec fn is_heading(raw: Seq<char>) -> bool {
    line_kind(raw) == Some(LineKind::Heading)
}

/// The line is a verdict line, whether or not it names a verdict.
pub open spec fn is_verdict_line(raw: Seq<char>) -> bool {
    line_kind(raw) == Some(LineKind::Verdict)
}

/// The line is a verdict line and names a verdict.
pub open spec fn names_verdict(raw: Seq<char>) -> bool {
    is_verdict_line(raw) && verdict_of(line_rest(raw)) is Some
}

/// The names that the headings among the given lines give, in order.
pub open spec fn headings(lines: Seq<Seq<char>>) -> Seq<Seq<char>>
    decreases lines.len(),
{
    if lines.len() == 0 {
        Seq::empty()
    } else if is_heading(lines[0]) {
        seq![line_rest(lines[0])] + headings(lines.drop_first())
    } else {
        headings(lines.drop_first())
    }
}

/// After the last heading among `lines`, or in all of them where there is
/// no heading, some line names a verdict.
pub open spec fn ends_with_verdict(lines: Seq<Seq<char>>) -> bool
    decreases lines.len(),
{
    if lines.len() == 0 {
        false
    } else if names_verdict(lines.last()) {
        true
    } else if is_heading(lines.last()) {
        false
    } else {
        ends_with_verdict(lines.drop_last())
    }
}

/// The names that a state of the parse holds: those of the closed entries,
/// then that of the record in progress.
pub open spec fn names(p: ParserModel) -> Seq<Seq<char>> {
    p.entries.map_values(|e: EntryModel| e.name) + match p.draft.name {
        Some(name) => seq![name],
        None => Seq::empty(),
    }
}

/// A state without a record in progress has closed none either.
pub open spec fn orderly(p: ParserModel) -> bool {
    p.draft.name is None ==> p.entries.len() == 0
}

/// A record in progress that can no more be closed: its verdict line has
/// been read and named no verdict.
pub open spec fn doomed(p: ParserModel) -> bool {
    p.draft.name is Some && p.draft.verdict_given && p.draft.verdict is None
}

/// Reading lines one after the other is reading a first part of them and
/// then the rest.
pub proof fn lemma_feed_all_split(p: ParserModel, lines: Seq<Seq<char>>, i: int)
    requires
        0 <= i <= lines.len(),
    ensures
        p.feed_all(lines) == match p.feed_all(lines.take(i)) {
            Ok(q) => q.feed_all(lines.skip(i)),
            Err(fault) => Err(fault),
        },
    decreases i,
{
    if i == 0 {
        assert(lines.take(0) =~= Seq::<Seq<char>>::empty());
        assert(lines.skip(0) =~= lines);
    } else {
        assert(lines.take(i)[0] == lines[0]);
        assert(lines.take(i).drop_first() =~= lines.drop_first().take(i - 1));
        assert(lines.skip(i) =~= lines.drop_first().skip(i - 1));
        match p.feed(lines[0]) {
            Ok(next) => {
                lemma_feed_all_split(next, lines.drop_first(), i - 1);
            },
            Err(_) => {},
        }
    }
}

/// Each line that is read adds the name of its heading, if it is one, to the
/// names that the state holds, and nothing else.
pub proof fn lemma_feed_names(p: ParserModel, raw: Seq<char>)
    requires
        orderly(p),
        p.feed(raw) is Ok,
    ensures
        orderly(p.feed(raw)->Ok_0),
        names(p.feed(raw)->Ok_0) == names(p) + headings(seq![raw]),
{
    let q = p.feed(raw)->Ok_0;
    let lines = seq![raw];
    assert(lines.drop_first() =~= Seq::<Seq<char>>::empty());
    assert(headings(lines.drop_first()) =~= Seq::<Seq<char>>::empty());
    if is_heading(raw) {
        let rest = line_rest(raw);
        assert(headings(lines) =~= seq![rest]);
        if p.draft.name is Some {
            let e = p.draft.finalize()->Ok_0;
            assert(q.entries == p.entries.push(e));
            assert(q.entries.map_values(|e: EntryModel| e.name) =~= p.entries.map_values(
                |e: EntryModel| e.name,
            ).push(e.name));
            assert(names(q) =~= names(p) + seq![rest]);
        } else {
            assert(names(q) =~= names(p) + seq![rest]);
        }
    } else {
        assert(headings(lines) =~= Seq::<Seq<char>>::empty());
        assert(q.entries == p.entries);
        assert(q.draft.name == p.draft.name);
        assert(names(q) =~= names(p) + Seq::<Seq<char>>::empty());
    }
}

/// The headings of lines are those of the first line and then those of the
/// others.
pub proof fn lemma_headings_first(lines: Seq<Seq<char>>)
    requires
        lines.len() > 0,
    ensures
        headings(lines) == headings(seq![lines[0]]) + headings(lines.drop_first()),
{
    let one = seq![lines[0]];
    assert(one.drop_first() =~= Seq::<Seq<char>>::empty());
    assert(headings(one.drop_first()) =~= Seq::<Seq<char>>::empty());
    if is_heading(lines[0]) {
        assert(headings(one) =~= seq![line_rest(lines[0])]);
    } else {
        assert(headings(one) =~= Seq::<Seq<char>>::empty());
        assert(headings(lines) =~= headings(one) + headings(lines.drop_first()));
    }
}

/// The lines that are read add the names of their headings, in order, to the
/// names that the state holds.
pub proof fn lemma_feed_all_names(p: ParserModel, lines: Seq<Seq<char>>)
    requires
        orderly(p),
        p.feed_all(lines) is Ok,
    ensures
        orderly(p.feed_all(lines)->Ok_0),
        names(p.feed_all(lines)->Ok_0) == names(p) + headings(lines),
    decreases lines.len(),
{
    if lines.len() == 0 {
        assert(names(p) + headings(lines) =~= names(p));
    } else {
        let next = p.feed(lines[0])->Ok_0;
        lemma_feed_names(p, lines[0]);
        lemma_feed_all_names(next, lines.drop_first());
        lemma_headings_first(lines);
        let q = p.feed_all(lines)->Ok_0;
        assert(names(q) =~= names(p) + headings(lines));
    }
}

/// A document that is accepted gives one entry for each of its headings, in
/// the order of the headings, each under the name that its heading gives.
pub proof fn lemma_one_entry_per_heading(document: Seq<char>)
    requires
        parse(document) is Ok,
    ensures
        parse(document)->Ok_0.len() == headings(lines_of(document)).len(),
        forall|i: int|
            0 <= i < headings(lines_of(document)).len() ==> (#[trigger] parse(
                document,
            )->Ok_0[i]).name == headings(lines_of(document))[i],
{
    let lines = lines_of(document);
    let entries = parse(document)->Ok_0;
    let q = ParserModel::start().feed_all(lines)->Ok_0;
    lemma_feed_all_names(ParserModel::start(), lines);
    assert(names(ParserModel::start()) =~= Seq::<Seq<char>>::empty());
    assert(names(q) =~= headings(lines));
    let last = q.draft.finalize()->Ok_0;
    assert(entries == q.entries.push(last));
    assert(entries.map_values(|e: EntryModel| e.name) =~= names(q));
    assert forall|i: int| 0 <= i < headings(lines).len() implies (#[trigger] entries[i]).name
        == headings(lines)[i] by {
        assert(entries.map_values(|e: EntryModel| e.name)[i] == entries[i].name);
    }
}

/// A document without a heading is not accepted.
pub proof fn lemma_no_heading_fails(document: Seq<char>)
    requires
        headings(lines_of(document)).len() == 0,
    ensures
        parse(document) is Err,
{
    if parse(document) is Ok {
        lemma_one_entry_per_heading(document);
        let q = ParserModel::start().feed_all(lines_of(document))->Ok_0;
        assert(parse(document)->Ok_0.len() == q.entries.len() + 1);
    }
}

/// Reading lines one after the other is reading all but the last and then
/// the last.
pub proof fn lemma_feed_all_last(p: ParserModel, lines: Seq<Seq<char>>)
    requires
        lines.len() > 0,
    ensures
        p.feed_all(lines) == match p.feed_all(lines.drop_last()) {
            Ok(q) => q.feed(lines.last()),
            Err(fault) => Err(fault),
        },
{
    let n = lines.len() as int;
    lemma_feed_all_split(p, lines, n - 1);
    assert(lines.take(n - 1) =~= lines.drop_last());
    let tail = lines.skip(n - 1);
    assert(tail[0] == lines.last());
    assert(tail.drop_first() =~= Seq::<Seq<char>>::empty());
    match p.feed_all(lines.drop_last()) {
        Ok(q) => {
            match q.feed(lines.last()) {
                Ok(z) => {
                    assert(z.feed_all(tail.drop_first()) == Ok::<ParserModel, ParseError>(z));
                },
                Err(_) => {},
            }
        },
        Err(_) => {},
    }
}

/// A record in progress has a verdict only where, since its heading, a line
/// has named one.
pub proof fn lemma_verdict_comes_from_a_line(p: ParserModel, lines: Seq<Seq<char>>)
    requires
        p.draft.verdict is None,
        p.feed_all(lines) is Ok,
        p.feed_all(lines)->Ok_0.draft.verdict is Some,
    ensures
        ends_with_verdict(lines),
    decreases lines.len(),
{
    if lines.len() > 0 {
        lemma_feed_all_last(p, lines);
        let before = p.feed_all(lines.drop_last())->Ok_0;
        if !names_verdict(lines.last()) && !is_heading(lines.last()) {
            assert(before.draft.verdict is Some);
            lemma_verdict_comes_from_a_line(p, lines.drop_last());
        }
    }
}

/// A document whose last record has no line that names a verdict is not
/// accepted.
pub proof fn lemma_last_record_needs_verdict(document: Seq<char>)
    requires
        !ends_with_verdict(lines_of(document)),
    ensures
        parse(document) is Err,
{
    let start = ParserModel::start();
    let lines = lines_of(document);
    if start.feed_all(lines) is Ok {
        if start.feed_all(lines)->Ok_0.draft.verdict is Some {
            lemma_verdict_comes_from_a_line(start, lines);
        }
    }
}

/// A second verdict line in one record is a fault, whether or not either of
/// the two names a verdict.
pub proof fn lemma_second_verdict_line_fails(p: ParserModel, raw: Seq<char>)
    requires
        p.draft.verdict_given,
        is_verdict_line(raw),
    ensures
        p.feed(raw) == Err::<ParserModel, ParseError>(ParseError::DuplicateVerdict),
{
}

/// From a record that can no more be closed no lines lead to an accepted
/// document.
pub proof fn lemma_doomed_fails(p: ParserModel, lines: Seq<Seq<char>>)
    requires
        doomed(p),
    ensures
        match p.feed_all(lines) {
            Ok(q) => q.finish() is Err,
            Err(_) => true,
        },
    decreases lines.len(),
{
    if lines.len() > 0 {
        match p.feed(lines[0]) {
            Ok(next) => {
                assert(doomed(next));
                lemma_doomed_fails(next, lines.drop_first());
            },
            Err(_) => {},
        }
    }
}

/// A verdict line that names no verdict, in a record that a heading has
/// opened, leaves the record without a verdict for good: the document is not
/// accepted.
pub proof fn lemma_unnamed_verdict_fails(document: Seq<char>, i: int)
    requires
        0 <= i < lines_of(document).len(),
        is_verdict_line(lines_of(document)[i]),
        !names_verdict(lines_of(document)[i]),
        headings(lines_of(document).take(i)).len() > 0,
    ensures
        parse(document) is Err,
{
    let start = ParserModel::start();
    let lines = lines_of(document);
    lemma_feed_all_split(start, lines, i);
    match start.feed_all(lines.take(i)) {
        Ok(q) => {
            lemma_feed_all_names(start, lines.take(i));
            assert(names(start) =~= Seq::<Seq<char>>::empty());
            assert(q.draft.name is Some) by {
                if q.draft.name is None {
                    assert(names(q) =~= Seq::<Seq<char>>::empty());
                }
            }
            let tail = lines.skip(i);
            assert(tail[0] == lines[i]);
            match q.feed(lines[i]) {
                Ok(next) => {
                    assert(doomed(next));
                    lemma_doomed_fails(next, tail.drop_first());
                },
                Err(_) => {},
            }
        },
        Err(_) => {},
    }
}

/// A text that trimming leaves as it is.
pub open spec fn is_trimmed(s: Seq<char>) -> bool {
    trim(s) == s
}

/// What holds of every entry that a parse hands out: its name is not empty
/// and is trimmed, and each of its tags is trimmed.
pub open spec fn well_formed(e: EntryModel) -> bool {
    &&& e.name.len() > 0
    &&& is_trimmed(e.name)
    &&& forall|k: int| 0 <= k < e.tags.len() ==> is_trimmed(#[trigger] e.tags[k])
}

/// A state of the parse from which only well-formed entries can come.
pub open spec fn tidy(p: ParserModel) -> bool {
    &&& forall|i: int| 0 <= i < p.entries.len() ==> well_formed(#[trigger] p.entries[i])
    &&& p.draft.name is Some ==> p.draft.name->0.len() > 0 && is_trimmed(p.draft.name->0)
    &&& forall|k: int| 0 <= k < p.draft.tags.len() ==> is_trimmed(#[trigger] p.draft.tags[k])
}

/// The name that a heading gives is not empty and is trimmed.
pub proof fn lemma_heading_has_a_name(raw: Seq<char>)
    requires
        is_heading(raw),
    ensures
        line_rest(raw).len() > 0,
        is_trimmed(line_rest(raw)),
{
    let line = trim(raw);
    lemma_trim_is_trimmed(raw);
    lemma_token_split_shape(line);
    let token = token_split(line).0;
    assert(token == seq!['#']);
    assert(token.len() == 1 && token[0] == '#');
}

/// The tags of a tag line are trimmed.
pub proof fn lemma_tags_are_trimmed(rest: Seq<char>)
    ensures
        forall|k: int| 0 <= k < tags_of(rest).len() ==> is_trimmed(#[trigger] tags_of(rest)[k]),
{
    assert forall|k: int| 0 <= k < tags_of(rest).len() implies is_trimmed(
        #[trigger] tags_of(rest)[k],
    ) by {
        lemma_trim_is_trimmed(split_on(rest, ',')[k]);
    }
}

/// A line that is read leaves a tidy state tidy.
pub proof fn lemma_feed_tidy(p: ParserModel, raw: Seq<char>)
    requires
        tidy(p),
        p.feed(raw) is Ok,
    ensures
        tidy(p.feed(raw)->Ok_0),
{
    let q = p.feed(raw)->Ok_0;
    if is_heading(raw) {
        lemma_heading_has_a_name(raw);
        if p.draft.name is Some {
            let e = p.draft.finalize()->Ok_0;
            assert(well_formed(e));
            assert forall|i: int| 0 <= i < q.entries.len() implies well_formed(
                #[trigger] q.entries[i],
            ) by {
                if i < p.entries.len() {
                    assert(q.entries[i] == p.entries[i]);
                }
            }
        }
    } else if line_kind(raw) == Some(LineKind::Tags) {
        lemma_tags_are_trimmed(line_rest(raw));
    }
}

/// Lines that are read leave a tidy state tidy.
pub proof fn lemma_feed_all_tidy(p: ParserModel, lines: Seq<Seq<char>>)
    requires
        tidy(p),
        p.feed_all(lines) is Ok,
    ensures
        tidy(p.feed_all(lines)->Ok_0),
    decreases lines.len(),
{
    if lines.len() > 0 {
        lemma_feed_tidy(p, lines[0]);
        lemma_feed_all_tidy(p.feed(lines[0])->Ok_0, lines.drop_first());
    }
}

/// Every entry of a document that is accepted is well-formed.
pub proof fn lemma_entries_are_well_formed(document: Seq<char>)
    requires
        parse(document) is Ok,
    ensures
        forall|i: int|
            0 <= i < parse(document)->Ok_0.len() ==> well_formed(#[trigger] parse(document)->Ok_0[i]),
{
    let start = ParserModel::start();
    let lines = lines_of(document);
    lemma_feed_all_tidy(start, lines);
    let q = start.feed_all(lines)->Ok_0;
    let entries = parse(document)->Ok_0;
    assert forall|i: int| 0 <= i < entries.len() implies well_formed(#[trigger] entries[i]) by {
        if i < q.entries.len() {
            assert(entries[i] == q.entries[i]);
        }
    }
}

} // verus!
