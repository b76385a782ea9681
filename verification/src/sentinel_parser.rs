//! Finds the records of one function in the body of a report and adds up
//! their cost lines.

use vstd::prelude::*;
use crate::callgrind::{CallgrindOutput, CallgrindStats};
use crate::costs::{malformed, Costs, CostsView};
use crate::error::{Error, ErrorView, HeaderFaultView};
use crate::parser::{
    header,
    lemma_header_wf,
    line_texts,
    parse_header,
    prototype,
    HeaderView,
    Sentinel,
};
use crate::text::{is_ascii_digit, split_ascii_whitespace, texts, tokens, trim, trim_str};

verus! {

/// Whether a line of the body is a comment. Comments are passed over
/// wherever they stand.
pub open spec fn is_comment(line: Seq<char>) -> bool {
    line.len() > 0 && line[0] == '#'
}

/// The label of a line of the form `fn=<label>`.
pub open spec fn fn_label(line: Seq<char>) -> Option<Seq<char>> {
    if line.len() >= 3 && line[0] == 'f' && line[1] == 'n' && line[2] == '=' {
        Some(line.skip(3))
    } else {
        None
    }
}

/// The tokens of a cost line that stand for counters: all but the first
/// `positions`.
pub open spec fn counter_tokens(line: Seq<char>, positions: nat) -> Seq<Seq<char>> {
    let all = tokens(line);
    if positions <= all.len() {
        all.skip(positions as int)
    } else {
        Seq::empty()
    }
}

/// Where the scan of a body stands.
pub struct Scan {
    /// The costs added up so far.
    pub costs: CostsView,
    /// Whether a record of the function sought has been met.
    pub found: bool,
    /// Whether the scan is inside such a record.
    pub in_record: bool,
}

/// The scan after one line; on a cost line that cannot be read, the token
/// at fault.
///
/// A comment changes nothing. A blank line ends the record. Outside a
/// record, a line `fn=<label>` whose label is the one sought opens one.
/// Inside a record, a line that begins with a digit is a cost line: its
/// counter tokens are added to the costs. Every other line changes nothing.
pub open spec fn step(sentinel: Seq<char>, positions: nat, scan: Scan, line: Seq<char>) -> Result<
    Scan,
    Seq<char>,
> {
    let content = trim(line);
    if is_comment(line) {
        Ok(scan)
    } else if content.len() == 0 {
        Ok(Scan { in_record: false, ..scan })
    } else if !scan.in_record {
        if fn_label(content) == Some(sentinel) {
            Ok(Scan { found: true, in_record: true, ..scan })
        } else {
            Ok(scan)
        }
    } else if is_ascii_digit(content[0]) {
        let counters = counter_tokens(content, positions);
        match malformed(scan.costs.kinds.len(), counters) {
            Some(at) => Err(counters[at]),
            None => Ok(Scan { costs: scan.costs.add_tokens(counters), ..scan }),
        }
    } else {
        Ok(scan)
    }
}

/// The scan after the lines from index `i` on; on a cost line that cannot
/// be read, its index and the token at fault.
pub open spec fn scan_body(
    sentinel: Seq<char>,
    positions: nat,
    lines: Seq<Seq<char>>,
    i: int,
    scan: Scan,
) -> Result<Scan, (int, Seq<char>)>
    decreases lines.len() - i,
{
    if !(0 <= i < lines.len()) {
        Ok(scan)
    } else {
        match step(sentinel, positions, scan, lines[i]) {
            Ok(next) => scan_body(sentinel, positions, lines, i + 1, next),
            Err(token) => Err((i, token)),
        }
    }
}

/// What reading a report for the function `sentinel` gives.
///
/// The head is read first. Then the whole body is scanned, and the cost
/// lines of every record of the function are added up, wherever in the body
/// the records stand. A report without such a record gives no costs.
pub open spec fn parsed(sentinel: Seq<char>, label: Seq<char>, lines: Seq<Seq<char>>) -> Result<
    CostsView,
    ErrorView,
> {
    match header(lines) {
        Err(fault) => Err(ErrorView::HeaderParseError { label, fault }),
        Ok(head) => {
            let start = Scan { costs: prototype(head.kinds), found: false, in_record: false };
            match scan_body(sentinel, head.positions.len(), lines, head.body, start) {
                Err((at, token)) => Err(
                    ErrorView::MalformedCostLine { label, line: at + 1, token },
                ),
                Ok(end) => if end.found {
                    Ok(end.costs)
                } else {
                    Err(ErrorView::SentinelNotFound { label, sentinel })
                },
            }
        },
    }
}

/// Whether a line of the body opens a record of the function sought.
pub open spec fn opens_record(sentinel: Seq<char>, line: Seq<char>) -> bool {
    !is_comment(line) && fn_label(trim(line)) == Some(sentinel)
}

/// A scan that is outside a record stays as it is over lines of which none
/// opens a record, whatever cost lines they hold.
pub proof fn lemma_scan_without_record(
    sentinel: Seq<char>,
    positions: nat,
    lines: Seq<Seq<char>>,
    i: int,
    scan: Scan,
)
    requires
        0 <= i,
        !scan.in_record,
        forall|k: int| i <= k < lines.len() ==> !opens_record(sentinel, #[trigger] lines[k]),
    ensures
        scan_body(sentinel, positions, lines, i, scan) == Ok::<Scan, (int, Seq<char>)>(scan),
    decreases lines.len() - i,
{
    if i < lines.len() {
        assert(!opens_record(sentinel, lines[i]));
        assert(step(sentinel, positions, scan, lines[i]) == Ok::<Scan, Seq<char>>(scan));
        lemma_scan_without_record(sentinel, positions, lines, i + 1, scan);
    }
}

/// A report whose head can be read and whose body holds no line that opens
/// a record of the function sought gives `SentinelNotFound`, whatever else
/// the body holds.
pub proof fn lemma_sentinel_not_found(sentinel: Seq<char>, label: Seq<char>, lines: Seq<Seq<char>>)
    requires
        header(lines) is Ok,
        forall|k: int|
            header(lines)->Ok_0.body <= k < lines.len() ==> !opens_record(
                sentinel,
                #[trigger] lines[k],
            ),
    ensures
        parsed(sentinel, label, lines) == Err::<CostsView, ErrorView>(
            ErrorView::SentinelNotFound { label, sentinel },
        ),
{
    let head = header(lines)->Ok_0;
    lemma_header_wf(lines);
    let start = Scan { costs: prototype(head.kinds), found: false, in_record: false };
    lemma_scan_without_record(sentinel, head.positions.len(), lines, head.body, start);
}

/// Costs are only given where a record was found: a report that gives costs
/// holds a line that opens a record of the function sought.
pub proof fn lemma_found_has_record(sentinel: Seq<char>, label: Seq<char>, lines: Seq<Seq<char>>)
    requires
        parsed(sentinel, label, lines) is Ok,
    ensures
        exists|k: int|
            header(lines)->Ok_0.body <= k < lines.len() && opens_record(
                sentinel,
                #[trigger] lines[k],
            ),
{
    if !exists|k: int|
        header(lines)->Ok_0.body <= k < lines.len() && opens_record(sentinel, #[trigger] lines[k]) {
        lemma_sentinel_not_found(sentinel, label, lines);
    }
}

/// Scanning a body in two parts gives what scanning it in one go gives: the
/// second part is scanned from where the first ended. So the records of the
/// function add up, however many there are and wherever they stand.
pub proof fn lemma_scan_body_split(
    sentinel: Seq<char>,
    positions: nat,
    lines: Seq<Seq<char>>,
    i: int,
    j: int,
    scan: Scan,
)
    requires
        0 <= i <= j <= lines.len(),
    ensures
        scan_body(sentinel, positions, lines, i, scan) == match scan_body(
            sentinel,
            positions,
            lines.take(j),
            i,
            scan,
        ) {
            Ok(mid) => scan_body(sentinel, positions, lines, j, mid),
            Err(fault) => Err(fault),
        },
    decreases j - i,
{
    if i < j {
        assert(lines.take(j)[i] == lines[i]);
        match step(sentinel, positions, scan, lines[i]) {
            Ok(next) => lemma_scan_body_split(sentinel, positions, lines, i + 1, j, next),
            Err(token) => {},
        }
    }
}

/// Reads the costs of one function from a report.
#[derive(Debug)]
pub struct SentinelParser {
    sentinel: Sentinel,
}

fn strip_fn<'a>(line: &'a str) -> (r: Option<&'a str>)
    ensures
        match r {
            Some(label) => fn_label(line@) == Some(label@),
            None => fn_label(line@) is None,
        },
{
    let n: usize = line.unicode_len();
    if n >= 3 && line.get_char(0) == 'f' && line.get_char(1) == 'n' && line.get_char(2) == '=' {
        let label = line.substring_char(3, n);
        assert(line@.subrange(3, n as int) =~= line@.skip(3));
        Some(label)
    } else {
        None
    }
}

fn counters_of<'a>(line: &'a str, positions: usize) -> (r: Vec<&'a str>)
    ensures
        texts(r@) == counter_tokens(line@, positions as nat),
{
    let all = split_ascii_whitespace(line);
    let mut out: Vec<&'a str> = Vec::new();
    if positions > all.len() {
        assert(texts(out@) =~= counter_tokens(line@, positions as nat));
        return out;
    }
    let mut i: usize = positions;
    while i < all.len()
        invariant
            positions <= i <= all@.len(),
            out@.len() == i - positions,
            forall|j: int| 0 <= j < out@.len() ==> out@[j] == all@[positions + j],
        decreases all@.len() - i,
    {
        out.push(all[i]);
        i += 1;
    }
    assert(texts(out@) =~= counter_tokens(line@, positions as nat)) by {
        assert(texts(all@) == tokens(line@));
        assert forall|j: int| 0 <= j < out@.len() implies texts(out@)[j] == tokens(line@).skip(
            positions as int,
        )[j] by {
            assert(texts(all@)[positions + j] == all@[positions + j]@);
        }
    }
    out
}

impl SentinelParser {
    /// The function sought.
    pub closed spec fn sentinel(&self) -> Seq<char> {
        self.sentinel@
    }

    /// A parser for the costs of the function that `sentinel` names.
    pub fn new(sentinel: &Sentinel) -> (r: SentinelParser)
        ensures
            r.sentinel() == sentinel@,
    {
        SentinelParser { sentinel: sentinel.clone() }
    }

    /// Reads the costs of the function from `output`.
    ///
    /// Gives the costs that `parsed` describes, and fails where it fails:
    /// with `HeaderParseError` where the head cannot be read, with
    /// `MalformedCostLine` at the first cost line of the function that holds
    /// a token which writes no counter, and with `SentinelNotFound` where
    /// the body holds no record of the function.
    pub fn parse(&self, output: &CallgrindOutput) -> (r: Result<CallgrindStats, Error>)
        ensures
            match r {
                Ok(stats) => stats.0.wf() && parsed(
                    self.sentinel(),
                    output.label@,
                    line_texts(output.lines@),
                ) == Ok::<CostsView, ErrorView>(stats.0@),
                Err(e) => parsed(self.sentinel(), output.label@, line_texts(output.lines@)) == Err::<
                    CostsView,
                    ErrorView,
                >(e@),
            },
    {
        let ghost lines = line_texts(output.lines@);
        let ghost sentinel = self.sentinel();
        let (properties, body) = match parse_header(&output.lines) {
            Ok(found) => found,
            Err(fault) => {
                return Err(Error::HeaderParseError { label: output.label.clone(), fault });
            },
        };
        let positions: usize = properties.positions_prototype.len();
        let mut costs: Costs = properties.costs_prototype;
        let mut found = false;
        let mut start_record = false;
        let ghost head = header(lines)->Ok_0;
        let ghost first = Scan { costs: costs@, found: false, in_record: false };
        let n: usize = output.lines.len();
        let mut i: usize = body;
        while i < n
            invariant
                body <= i <= n,
                n == output.lines@.len(),
                lines == line_texts(output.lines@),
                sentinel == self.sentinel(),
                header(lines) == Ok::<HeaderView, HeaderFaultView>(head),
                head.body == body,
                head.positions.len() == positions,
                first == (Scan { costs: prototype(head.kinds), found: false, in_record: false }),
                costs.wf(),
                scan_body(sentinel, positions as nat, lines, body as int, first) == scan_body(
                    sentinel,
                    positions as nat,
                    lines,
                    i as int,
                    Scan { costs: costs@, found, in_record: start_record },
                ),
            decreases n - i,
        {
            let line: &str = output.lines[i].as_str();
            assert(lines[i as int] == line@);
            let ghost before = Scan { costs: costs@, found, in_record: start_record };
            let comment = !line.is_empty() && line.get_char(0) == '#';
            if !comment {
                let content = trim_str(line);
                if content.is_empty() {
                    start_record = false;
                } else if !start_record {
                    match strip_fn(content) {
                        Some(label) => {
                            if self.sentinel.matches(label) {
                                start_record = true;
                                found = true;
                            }
                        },
                        None => {},
                    }
                } else if is_digit(content.get_char(0)) {
                    let counters = counters_of(content, positions);
                    match costs.add_iter_str(counters.as_slice()) {
                        Ok(()) => {},
                        Err(fault) => {
                            let token = String::from_str(counters[fault.position]);
                            assert(step(sentinel, positions as nat, before, line@) == Err::<
                                Scan,
                                Seq<char>,
                            >(token@));
                            return Err(
                                Error::MalformedCostLine {
                                    label: output.label.clone(),
                                    line: i + 1,
                                    token,
                                },
                            );
                        },
                    }
                }
            }
            assert(step(sentinel, positions as nat, before, line@) == Ok::<Scan, Seq<char>>(
                Scan { costs: costs@, found, in_record: start_record },
            ));
            i += 1;
        }
        if found {
            Ok(CallgrindStats(costs))
        } else {
            Err(
                Error::SentinelNotFound {
                    label: output.label.clone(),
                    sentinel: self.sentinel.to_string(),
                },
            )
        }
    }
}

fn is_digit(c: char) -> (r: bool)
    ensures
        r == is_ascii_digit(c),
{
    '0' <= c && c <= '9'
}

} // verus!
