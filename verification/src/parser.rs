//! The head of a report, and the name of the function whose costs are
//! sought.

use vstd::prelude::*;
use crate::costs::{Costs, CostsView};
use crate::error::{HeaderFault, HeaderFaultView};
use crate::event_kind::{lemma_name_unique, EventKind};
use crate::text::{chars_of, split_ascii_whitespace, str_eq, texts, tokens, trim, trim_str};

verus! {

/// The function whose costs are sought, by the label that a report gives it.
#[derive(Debug)]
pub struct Sentinel(String);

impl View for Sentinel {
    type V = Seq<char>;

    closed spec fn view(&self) -> Seq<char> {
        self.0@
    }
}

impl Clone for Sentinel {
    /// A sentinel for the same function.
    fn clone(&self) -> (r: Self)
        ensures
            r@ == self@,
    {
        Sentinel(self.0.clone())
    }
}

impl Sentinel {
    /// A sentinel for the function that reports label `value`.
    pub fn new(value: &str) -> (r: Sentinel)
        ensures
            r@ == value@,
    {
        Sentinel(String::from_str(value))
    }

    /// Whether a report's label names the function sought: the two are the
    /// same text.
    pub fn matches(&self, candidate: &str) -> (r: bool)
        ensures
            r == (self@ == candidate@),
    {
        str_eq(self.0.as_str(), candidate)
    }

    /// The label sought.
    pub fn to_string(&self) -> (r: String)
        ensures
            r@ == self@,
    {
        self.0.clone()
    }
}

/// What each string of a list holds.
pub open spec fn line_texts(lines: Seq<String>) -> Seq<Seq<char>> {
    Seq::new(lines.len(), |i: int| lines[i]@)
}

/// What the head of a report declares.
#[derive(Debug)]
pub struct CallgrindProperties {
    /// The names of the position fields that every cost line begins with.
    pub positions_prototype: Vec<String>,
    /// A vector of zeros for the declared kinds.
    pub costs_prototype: Costs,
}

/// What the head of a report declares, and where its body begins.
pub struct HeaderView {
    pub positions: Seq<Seq<char>>,
    pub kinds: Seq<EventKind>,
    pub body: int,
}

/// The index of the first line at or after `i` that is not blank, or the
/// number of lines.
pub open spec fn first_content(lines: Seq<Seq<char>>, i: int) -> int
    decreases lines.len() - i,
{
    if 0 <= i < lines.len() && trim(lines[i]).len() == 0 {
        first_content(lines, i + 1)
    } else {
        i
    }
}

/// The index of the first colon at or after `i`, or the length of `s`.
pub open spec fn first_colon(s: Seq<char>, i: int) -> int
    decreases s.len() - i,
{
    if 0 <= i < s.len() && s[i] != ':' {
        first_colon(s, i + 1)
    } else {
        i
    }
}

/// What a line of the head says.
pub enum HeaderLine {
    /// Nothing that matters here.
    Other,
    /// The version of the format.
    Version(Seq<char>),
    /// The names of the position fields.
    Positions(Seq<char>),
    /// The names of the kinds of event; the last line of the head.
    Events(Seq<char>),
}

/// Reads one line of the head: a key, a colon, a value, with the whitespace
/// around key and value dropped. An empty line, a comment, a line without a
/// colon and a line with another key say nothing.
pub open spec fn classify(line: Seq<char>) -> HeaderLine {
    let colon = first_colon(line, 0);
    if line.len() == 0 || line[0] == '#' || colon >= line.len() {
        HeaderLine::Other
    } else {
        let key = trim(line.take(colon));
        let value = trim(line.skip(colon + 1));
        if key == "version"@ {
            HeaderLine::Version(value)
        } else if key == "positions"@ {
            HeaderLine::Positions(value)
        } else if key == "events"@ {
            HeaderLine::Events(value)
        } else {
            HeaderLine::Other
        }
    }
}

/// The kind that a report declares as `name`, if there is one.
pub open spec fn kind_named(name: Seq<char>) -> Option<EventKind> {
    if exists|kind: EventKind| kind.name() == name {
        Some(choose|kind: EventKind| kind.name() == name)
    } else {
        None
    }
}

/// The kinds that the names from position `i` on declare, after `kinds`.
/// Fails at the first name that is not that of a kind, or that names a kind
/// again.
pub open spec fn declare(names: Seq<Seq<char>>, i: int, kinds: Seq<EventKind>) -> Result<
    Seq<EventKind>,
    HeaderFaultView,
>
    decreases names.len() - i,
{
    if !(0 <= i < names.len()) {
        Ok(kinds)
    } else {
        match kind_named(names[i]) {
            Some(kind) => if kinds.contains(kind) {
                Err(HeaderFaultView::DuplicateEvent { name: names[i] })
            } else {
                declare(names, i + 1, kinds.push(kind))
            },
            None => Err(HeaderFaultView::UnknownEvent { name: names[i] }),
        }
    }
}

/// Reads the head from line `i` on, with the position fields declared so
/// far. The `events` line ends the head; the body begins after it.
pub open spec fn scan_header(lines: Seq<Seq<char>>, i: int, positions: Seq<Seq<char>>) -> Result<
    HeaderView,
    HeaderFaultView,
>
    decreases lines.len() - i,
{
    if !(0 <= i < lines.len()) {
        Err(HeaderFaultView::MissingEvents)
    } else {
        match classify(lines[i]) {
            HeaderLine::Other => scan_header(lines, i + 1, positions),
            HeaderLine::Version(version) => if version == "1"@ {
                scan_header(lines, i + 1, positions)
            } else {
                Err(HeaderFaultView::VersionMismatch { version })
            },
            HeaderLine::Positions(names) => scan_header(lines, i + 1, tokens(names)),
            HeaderLine::Events(names) => match declare(tokens(names), 0, Seq::empty()) {
                Ok(kinds) => Ok(HeaderView { positions, kinds, body: i + 1 }),
                Err(fault) => Err(fault),
            },
        }
    }
}

/// Reads the head of a report. The first line that is not blank names the
/// format and is passed over; the lines after it are read up to the `events`
/// line.
pub open spec fn header(lines: Seq<Seq<char>>) -> Result<HeaderView, HeaderFaultView> {
    let start = first_content(lines, 0);
    if start >= lines.len() {
        Err(HeaderFaultView::Empty)
    } else {
        scan_header(lines, start + 1, Seq::empty())
    }
}

/// A vector of zeros for `kinds`.
pub open spec fn prototype(kinds: Seq<EventKind>) -> CostsView {
    CostsView { kinds, values: Seq::new(kinds.len(), |i: int| 0u64), summary: None }
}

/// The head declares no kind twice, and its body begins within the report
/// or at its end.
pub proof fn lemma_header_wf(lines: Seq<Seq<char>>)
    requires
        header(lines) is Ok,
    ensures
        prototype(header(lines)->Ok_0.kinds).wf(),
        0 < header(lines)->Ok_0.body <= lines.len(),
{
    let start = first_content(lines, 0);
    lemma_first_content(lines, 0);
    lemma_scan_header_wf(lines, start + 1, Seq::empty());
}

proof fn lemma_first_content(lines: Seq<Seq<char>>, i: int)
    requires
        0 <= i <= lines.len(),
    ensures
        i <= first_content(lines, i) <= lines.len(),
    decreases lines.len() - i,
{
    if i < lines.len() && trim(lines[i]).len() == 0 {
        lemma_first_content(lines, i + 1);
    }
}

proof fn lemma_scan_header_wf(lines: Seq<Seq<char>>, i: int, positions: Seq<Seq<char>>)
    requires
        0 <= i,
        scan_header(lines, i, positions) is Ok,
    ensures
        prototype(scan_header(lines, i, positions)->Ok_0.kinds).wf(),
        i < scan_header(lines, i, positions)->Ok_0.body <= lines.len(),
    decreases lines.len() - i,
{
    if i < lines.len() {
        match classify(lines[i]) {
            HeaderLine::Other => lemma_scan_header_wf(lines, i + 1, positions),
            HeaderLine::Version(version) => lemma_scan_header_wf(lines, i + 1, positions),
            HeaderLine::Positions(names) => lemma_scan_header_wf(lines, i + 1, tokens(names)),
            HeaderLine::Events(names) => lemma_declare_wf(tokens(names), 0, Seq::empty()),
        }
    }
}

proof fn lemma_declare_wf(names: Seq<Seq<char>>, i: int, kinds: Seq<EventKind>)
    requires
        0 <= i,
        prototype(kinds).wf(),
        declare(names, i, kinds) is Ok,
    ensures
        prototype(declare(names, i, kinds)->Ok_0).wf(),
    decreases names.len() - i,
{
    if i < names.len() {
        let kind = kind_named(names[i]).unwrap();
        assert(prototype(kinds.push(kind)).wf()) by {
            let next = kinds.push(kind);
            assert forall|a: int, b: int| 0 <= a < b < next.len() implies next[a] != next[b] by {
                if b == kinds.len() {
                    assert(kinds[a] == next[a]);
                    assert(kinds.contains(kinds[a]));
                }
            }
        }
        lemma_declare_wf(names, i + 1, kinds.push(kind));
    }
}

fn find_colon(cs: &Vec<char>) -> (r: usize)
    ensures
        r == first_colon(cs@, 0),
        r <= cs@.len(),
{
    let mut i: usize = 0;
    while i < cs.len() && cs[i] != ':'
        invariant
            i <= cs@.len(),
            first_colon(cs@, 0) == first_colon(cs@, i as int),
        decreases cs@.len() - i,
    {
        i += 1;
    }
    i
}

fn contains_kind(kinds: &Vec<EventKind>, kind: EventKind) -> (r: bool)
    ensures
        r == kinds@.contains(kind),
{
    let mut i: usize = 0;
    while i < kinds.len()
        invariant
            i <= kinds@.len(),
            forall|j: int| 0 <= j < i ==> kinds@[j] != kind,
        decreases kinds@.len() - i,
    {
        if kinds[i] == kind {
            return true;
        }
        i += 1;
    }
    false
}

fn named(name: &str) -> (r: Option<EventKind>)
    ensures
        r == kind_named(name@),
{
    let r = EventKind::from_name(name);
    proof {
        match r {
            Some(kind) => {
                let other = choose|other: EventKind| other.name() == name@;
                lemma_name_unique(kind, other);
            },
            None => {},
        }
    }
    r
}

fn declare_kinds(names: &Vec<&str>) -> (r: Result<Vec<EventKind>, HeaderFault>)
    ensures
        match r {
            Ok(kinds) => declare(texts(names@), 0, Seq::empty()) == Ok::<
                Seq<EventKind>,
                HeaderFaultView,
            >(kinds@),
            Err(fault) => declare(texts(names@), 0, Seq::empty()) == Err::<
                Seq<EventKind>,
                HeaderFaultView,
            >(fault@),
        },
{
    let ghost all = texts(names@);
    let mut kinds: Vec<EventKind> = Vec::new();
    let mut i: usize = 0;
    while i < names.len()
        invariant
            i <= names@.len(),
            all == texts(names@),
            declare(all, 0, Seq::empty()) == declare(all, i as int, kinds@),
        decreases names@.len() - i,
    {
        assert(all[i as int] == names@[i as int]@);
        match named(names[i]) {
            Some(kind) => {
                if contains_kind(&kinds, kind) {
                    return Err(HeaderFault::DuplicateEvent { name: String::from_str(names[i]) });
                }
                kinds.push(kind);
            },
            None => {
                return Err(HeaderFault::UnknownEvent { name: String::from_str(names[i]) });
            },
        }
        i += 1;
    }
    Ok(kinds)
}

fn owned(names: &Vec<&str>) -> (r: Vec<String>)
    ensures
        line_texts(r@) == texts(names@),
{
    let mut out: Vec<String> = Vec::new();
    let mut i: usize = 0;
    while i < names.len()
        invariant
            i <= names@.len(),
            out@.len() == i,
            forall|j: int| 0 <= j < i ==> (#[trigger] out@[j])@ == names@[j]@,
        decreases names@.len() - i,
    {
        out.push(String::from_str(names[i]));
        i += 1;
    }
    assert(line_texts(out@) =~= texts(names@));
    out
}

/// Reads the head of a report from its lines. Gives what the head declares
/// and the index of the first line of the body.
pub fn parse_header(lines: &Vec<String>) -> (r: Result<(CallgrindProperties, usize), HeaderFault>)
    ensures
        match r {
            Ok((properties, body)) => {
                &&& header(line_texts(lines@)) == Ok::<HeaderView, HeaderFaultView>(
                    HeaderView {
                        positions: line_texts(properties.positions_prototype@),
                        kinds: properties.costs_prototype@.kinds,
                        body: body as int,
                    },
                )
                &&& properties.costs_prototype.wf()
                &&& properties.costs_prototype@ == prototype(properties.costs_prototype@.kinds)
                &&& body <= lines@.len()
            },
            Err(fault) => header(line_texts(lines@)) == Err::<HeaderView, HeaderFaultView>(fault@),
        },
{
    let ghost all = line_texts(lines@);
    let n: usize = lines.len();
    let mut start: usize = 0;
    while start < n && trim_str(lines[start].as_str()).is_empty()
        invariant
            start <= n,
            n == lines@.len(),
            all == line_texts(lines@),
            first_content(all, 0) == first_content(all, start as int),
        decreases n - start,
    {
        start += 1;
    }
    if start >= n {
        return Err(HeaderFault::Empty);
    }
    let mut positions: Vec<String> = Vec::new();
    let mut i: usize = start + 1;
    assert(line_texts(positions@) =~= Seq::<Seq<char>>::empty());
    while i < n
        invariant
            start < i <= n,
            n == lines@.len(),
            all == line_texts(lines@),
            header(all) == scan_header(all, i as int, line_texts(positions@)),
        decreases n - i,
    {
        let line: &str = lines[i].as_str();
        assert(all[i as int] == line@);
        let cs = chars_of(line);
        let colon = find_colon(&cs);
        if cs.len() > 0 && cs[0] != '#' && colon < cs.len() {
            let key = trim_str(line.substring_char(0, colon));
            let value = trim_str(line.substring_char(colon + 1, cs.len()));
            assert(line@.subrange(0, colon as int) =~= line@.take(colon as int));
            assert(line@.subrange(colon + 1, cs@.len() as int) =~= line@.skip(colon + 1));
            if str_eq(key, "version") {
                if !str_eq(value, "1") {
                    return Err(HeaderFault::VersionMismatch { version: String::from_str(value) });
                }
            } else if str_eq(key, "positions") {
                let names = split_ascii_whitespace(value);
                positions = owned(&names);
            } else if str_eq(key, "events") {
                let names = split_ascii_whitespace(value);
                match declare_kinds(&names) {
                    Ok(kinds) => {
                        proof {
                            lemma_header_wf(all);
                        }
                        match Costs::with_event_kinds(kinds) {
                            Some(costs) => {
                                return Ok(
                                    (
                                        CallgrindProperties {
                                            positions_prototype: positions,
                                            costs_prototype: costs,
                                        },
                                        i + 1,
                                    ),
                                );
                            },
                            None => {
                                assert(false);
                                return Err(HeaderFault::MissingEvents);
                            },
                        }
                    },
                    Err(fault) => {
                        return Err(fault);
                    },
                }
            }
        }
        i += 1;
    }
    Err(HeaderFault::MissingEvents)
}

} // verus!
