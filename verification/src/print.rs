//! Titles of report sections and the comparison of two cost vectors, as
//! fields of text that each carry an emphasis.

use vstd::prelude::*;
use crate::costs::{lemma_summary_idempotent, Costs, CostsView};
use crate::delta::{factor_field, percentage_field, push_factor, push_percentage};
use crate::event_kind::EventKind;
use crate::text::{
    align_center,
    align_left,
    align_right,
    decimal,
    decimal_string,
    push_center,
    push_left,
    push_right,
    texts,
};

verus! {

/// How a field is meant to stand out. What that looks like is left to
/// whatever shows the field.
#[derive(Clone, Copy, Debug, PartialEq, Eq, Structural)]
pub enum Emphasis {
    /// Nothing special.
    Neutral,
    /// A value to read first.
    Strong,
    /// A remark of little weight.
    Muted,
    /// A cost that grew.
    Alert,
    /// A cost that shrank.
    Favorable,
    /// The path in a title.
    Title,
    /// The identifier in a title.
    Label,
    /// The description in a title.
    Detail,
}

/// A piece of text with its emphasis.
#[derive(Clone, Debug)]
pub struct Field {
    pub text: String,
    pub emphasis: Emphasis,
}

/// What a field holds.
pub struct FieldView {
    pub text: Seq<char>,
    pub emphasis: Emphasis,
}

impl View for Field {
    type V = FieldView;

    open spec fn view(&self) -> FieldView {
        FieldView { text: self.text@, emphasis: self.emphasis }
    }
}

/// What each field of a list holds.
pub open spec fn field_views(fields: Seq<Field>) -> Seq<FieldView> {
    Seq::new(fields.len(), |i: int| fields[i]@)
}

/// The text of a list of fields, without any emphasis.
pub open spec fn plain(fields: Seq<FieldView>) -> Seq<char>
    decreases fields.len(),
{
    if fields.len() == 0 {
        Seq::empty()
    } else {
        plain(fields.drop_last()) + fields.last().text
    }
}

/// The text of two lists of fields in a row is the text of the first, then
/// that of the second.
pub proof fn lemma_plain_concat(a: Seq<FieldView>, b: Seq<FieldView>)
    ensures
        plain(a + b) == plain(a) + plain(b),
    decreases b.len(),
{
    if b.len() == 0 {
        assert(a + b =~= a);
        assert(plain(a) + plain(b) =~= plain(a));
    } else {
        assert((a + b).drop_last() =~= a + b.drop_last());
        lemma_plain_concat(a, b.drop_last());
        assert(plain(a + b) =~= plain(a) + plain(b));
    }
}

/// Joins the fields into one text, without any emphasis.
pub fn render(fields: &Vec<Field>) -> (r: String)
    ensures
        r@ == plain(field_views(fields@)),
{
    let mut out = String::new();
    let mut i: usize = 0;
    let ghost views = field_views(fields@);
    assert(views.take(0) =~= Seq::<FieldView>::empty());
    while i < fields.len()
        invariant
            i <= fields@.len(),
            views == field_views(fields@),
            out@ == plain(views.take(i as int)),
        decreases fields@.len() - i,
    {
        assert(views.take(i + 1).drop_last() =~= views.take(i as int));
        out.append(fields[i].text.as_str());
        i += 1;
    }
    assert(views.take(fields@.len() as int) =~= views);
    out
}

fn push_field(out: &mut Vec<Field>, text: String, emphasis: Emphasis)
    ensures
        field_views(final(out)@) == field_views(old(out)@).push(
            FieldView { text: text@, emphasis },
        ),
{
    out.push(Field { text, emphasis });
    assert(field_views(out@) =~= field_views(old(out)@).push(FieldView { text: text@, emphasis }));
}

/// The longest description that a title shows in full, in characters.
pub const MAX_DESCRIPTION: usize = 37;

/// The first `max` characters of `s`; all of `s` if it has no more.
pub open spec fn truncated(s: Seq<char>, max: nat) -> Seq<char> {
    if s.len() > max {
        s.take(max as int)
    } else {
        s
    }
}

/// Cuts `s` to its first `len` characters. A character is never split.
pub fn truncate_str_utf8(s: &str, len: usize) -> (r: &str)
    ensures
        r@ == truncated(s@, len as nat),
{
    let n: usize = s.unicode_len();
    if n > len {
        s.substring_char(0, len)
    } else {
        s
    }
}

/// The segments joined by `::`.
pub open spec fn joined(segments: Seq<Seq<char>>) -> Seq<char>
    decreases segments.len(),
{
    if segments.len() == 0 {
        Seq::empty()
    } else if segments.len() == 1 {
        segments[0]
    } else {
        joined(segments.drop_last()) + "::"@ + segments.last()
    }
}

/// The fields of a title. The identifier follows the path after a space; the
/// description follows the identifier after a colon, cut to
/// `MAX_DESCRIPTION` characters and then marked with three dots. Without an
/// identifier the title is the path alone.
pub open spec fn title_fields(
    path: Seq<char>,
    id: Option<Seq<char>>,
    description: Option<Seq<char>>,
) -> Seq<FieldView> {
    let path = seq![FieldView { text: path, emphasis: Emphasis::Title }];
    match id {
        None => path,
        Some(id) => {
            let named = path + seq![
                FieldView { text: " "@, emphasis: Emphasis::Neutral },
                FieldView { text: id, emphasis: Emphasis::Label },
            ];
            match description {
                None => named,
                Some(d) => {
                    let described = named + seq![
                        FieldView { text: ":"@, emphasis: Emphasis::Label },
                        FieldView {
                            text: truncated(d, MAX_DESCRIPTION as nat),
                            emphasis: Emphasis::Detail,
                        },
                    ];
                    if d.len() > MAX_DESCRIPTION {
                        described.push(FieldView { text: "..."@, emphasis: Emphasis::Neutral })
                    } else {
                        described
                    }
                },
            }
        },
    }
}

/// The title as plain text.
pub open spec fn title(
    path: Seq<char>,
    id: Option<Seq<char>>,
    description: Option<Seq<char>>,
) -> Seq<char> {
    match id {
        None => path,
        Some(id) => match description {
            None => path + " "@ + id,
            Some(d) => path + " "@ + id + ":"@ + truncated(d, MAX_DESCRIPTION as nat) + (if d.len()
                > MAX_DESCRIPTION {
                "..."@
            } else {
                Seq::empty()
            }),
        },
    }
}

/// What an optional string holds.
pub open spec fn option_text(s: Option<String>) -> Option<Seq<char>> {
    match s {
        Some(s) => Some(s@),
        None => None,
    }
}

/// The heading of a report section: where the benchmark lives, and what it
/// is called.
#[derive(Debug)]
pub struct Header {
    pub path: String,
    pub id: Option<String>,
    pub description: Option<String>,
}

impl Header {
    /// A header for the benchmark at `path`.
    pub fn new(path: &str, id: Option<String>, description: Option<String>) -> (r: Header)
        ensures
            r.path@ == path@,
            r.id == id,
            r.description == description,
    {
        Header { path: String::from_str(path), id, description }
    }

    /// A header whose path is the segments joined by `::`.
    pub fn from_segments(segments: &[&str], id: Option<String>, description: Option<String>) -> (r:
        Header)
        ensures
            r.path@ == joined(texts(segments@)),
            r.id == id,
            r.description == description,
    {
        let mut path = String::new();
        let mut i: usize = 0;
        let ghost parts = texts(segments@);
        assert(parts.take(0) =~= Seq::<Seq<char>>::empty());
        while i < segments.len()
            invariant
                i <= segments@.len(),
                parts == texts(segments@),
                path@ == joined(parts.take(i as int)),
            decreases segments@.len() - i,
        {
            assert(parts.take(i + 1).drop_last() =~= parts.take(i as int));
            if i > 0 {
                path.append("::");
            } else {
                assert(path@ + segments@[0]@ =~= segments@[0]@);
            }
            path.append(segments[i]);
            i += 1;
        }
        assert(parts.take(segments@.len() as int) =~= parts);
        Header { path, id, description }
    }

    /// The title, field by field.
    pub fn to_fields(&self) -> (r: Vec<Field>)
        ensures
            field_views(r@) == title_fields(
                self.path@,
                option_text(self.id),
                option_text(self.description),
            ),
    {
        let mut out: Vec<Field> = Vec::new();
        assert(field_views(out@) =~= Seq::<FieldView>::empty());
        push_field(&mut out, self.path.clone(), Emphasis::Title);
        if let Some(id) = &self.id {
            push_field(&mut out, String::from_str(" "), Emphasis::Neutral);
            push_field(&mut out, id.clone(), Emphasis::Label);
            if let Some(description) = &self.description {
                let cut = truncate_str_utf8(description.as_str(), MAX_DESCRIPTION);
                push_field(&mut out, String::from_str(":"), Emphasis::Label);
                push_field(&mut out, String::from_str(cut), Emphasis::Detail);
                if description.as_str().unicode_len() > MAX_DESCRIPTION {
                    push_field(&mut out, String::from_str("..."), Emphasis::Neutral);
                }
            }
        }
        assert(field_views(out@) =~= title_fields(
            self.path@,
            option_text(self.id),
            option_text(self.description),
        ));
        out
    }

    /// The title as plain text.
    pub fn to_title(&self) -> (r: String)
        ensures
            r@ == title(self.path@, option_text(self.id), option_text(self.description)),
    {
        let mut output = String::new();
        output.append(self.path.as_str());
        if let Some(id) = &self.id {
            output.append(" ");
            output.append(id.as_str());
            if let Some(description) = &self.description {
                let cut = truncate_str_utf8(description.as_str(), MAX_DESCRIPTION);
                output.append(":");
                output.append(cut);
                if description.as_str().unicode_len() > MAX_DESCRIPTION {
                    output.append("...");
                }
            }
        }
        assert(output@ =~= title(
            self.path@,
            option_text(self.id),
            option_text(self.description),
        ));
        output
    }
}

/// A description of at most `MAX_DESCRIPTION` characters stands in the title
/// as it is, with no mark; a longer one is cut to its first `MAX_DESCRIPTION`
/// characters, whatever their size in bytes, and three dots follow.
pub proof fn lemma_title_truncation(path: Seq<char>, id: Seq<char>, description: Seq<char>)
    ensures
        description.len() <= MAX_DESCRIPTION ==> title(path, Some(id), Some(description)) == path
            + " "@ + id + ":"@ + description,
        description.len() > MAX_DESCRIPTION ==> title(path, Some(id), Some(description)) == path
            + " "@ + id + ":"@ + description.take(MAX_DESCRIPTION as int) + "..."@,
        truncated(description, MAX_DESCRIPTION as nat).len() <= MAX_DESCRIPTION,
        truncated(description, MAX_DESCRIPTION as nat).is_prefix_of(description),
{
    assert(path + " "@ + id + ":"@ + description + Seq::<char>::empty() =~= path + " "@ + id + ":"@
        + description);
}

/// The plain text of a title's fields is the title.
pub proof fn lemma_title_fields_plain(
    path: Seq<char>,
    id: Option<Seq<char>>,
    description: Option<Seq<char>>,
)
    ensures
        plain(title_fields(path, id, description)) == title(path, id, description),
{
    reveal_with_fuel(plain, 8);
    let fields = title_fields(path, id, description);
    assert(plain(fields) =~= title(path, id, description)) by {
        if fields.len() >= 1 {
            assert(fields.take(1) =~= seq![fields[0]]);
        }
        lemma_plain_unfold(fields, fields.len() as int);
        assert(fields.take(fields.len() as int) =~= fields);
    }
}

/// The text of the first `n` fields, written out field by field.
pub open spec fn plain_prefix(fields: Seq<FieldView>, n: int) -> Seq<char>
    decreases n,
{
    if n <= 0 {
        Seq::empty()
    } else {
        plain_prefix(fields, n - 1) + fields[n - 1].text
    }
}

/// The text of the first `n` fields is their texts in a row.
pub proof fn lemma_plain_unfold(fields: Seq<FieldView>, n: int)
    requires
        0 <= n <= fields.len(),
    ensures
        plain(fields.take(n)) == plain_prefix(fields, n),
    decreases n,
{
    if n > 0 {
        assert(fields.take(n).drop_last() =~= fields.take(n - 1));
        lemma_plain_unfold(fields, n - 1);
    } else {
        assert(fields.take(0) =~= Seq::<FieldView>::empty());
    }
}

/// The label that a row begins with.
pub open spec fn description(kind: EventKind) -> Seq<char> {
    match kind {
        EventKind::Ir => "Instructions:"@,
        EventKind::L1hits => "L1 Hits:"@,
        EventKind::LLhits => "L2 Hits:"@,
        EventKind::RamHits => "RAM Hits:"@,
        EventKind::TotalRW => "Total read+write:"@,
        EventKind::EstimatedCycles => "Estimated Cycles:"@,
        _ => kind.identifier() + ":"@,
    }
}

/// A cost as text; `N/A` where there is none.
pub open spec fn cost_text(cost: Option<u64>) -> Seq<char> {
    match cost {
        Some(c) => decimal(c as nat),
        None => "N/A"@,
    }
}

/// The emphasis of the difference between two costs that differ.
pub open spec fn change_emphasis(new_cost: u64, old_cost: u64) -> Emphasis {
    if new_cost > old_cost {
        Emphasis::Alert
    } else {
        Emphasis::Favorable
    }
}

/// The fields of one row.
///
/// A kind with no cost on either side has no row. Every other row holds the
/// label in a column of 18 characters after two spaces, the new cost at the
/// right of 15, a bar, the old cost at the left of 15, and in round brackets
/// a field of 9: stars where one side has no cost, `No change` where both
/// are equal, else the difference in percent. Only in the last case the
/// factor follows in square brackets. The row ends with a line feed.
pub open spec fn row_fields(kind: EventKind, new_cost: Option<u64>, old_cost: Option<u64>) -> Seq<
    FieldView,
> {
    if new_cost is None && old_cost is None {
        Seq::empty()
    } else {
        let head = seq![
            FieldView {
                text: "  "@ + align_left(description(kind), 18),
                emphasis: Emphasis::Neutral,
            },
            FieldView { text: align_right(cost_text(new_cost), 15), emphasis: Emphasis::Strong },
            FieldView {
                text: "|"@ + align_left(cost_text(old_cost), 15) + " ("@,
                emphasis: Emphasis::Neutral,
            },
        ];
        if new_cost is Some && old_cost is Some && new_cost != old_cost {
            let n = new_cost.unwrap();
            let o = old_cost.unwrap();
            head + seq![
                FieldView {
                    text: align_center(percentage_field(n, o), 9),
                    emphasis: change_emphasis(n, o),
                },
                FieldView { text: ") ["@, emphasis: Emphasis::Neutral },
                FieldView {
                    text: align_center(factor_field(n, o), 9),
                    emphasis: change_emphasis(n, o),
                },
                FieldView { text: "]\n"@, emphasis: Emphasis::Neutral },
            ]
        } else if new_cost is Some && old_cost is Some {
            head + seq![
                FieldView { text: align_center("No change"@, 9), emphasis: Emphasis::Muted },
                FieldView { text: ")\n"@, emphasis: Emphasis::Neutral },
            ]
        } else {
            head + seq![
                FieldView { text: align_center("*********"@, 9), emphasis: Emphasis::Muted },
                FieldView { text: ")\n"@, emphasis: Emphasis::Neutral },
            ]
        }
    }
}

/// The cost that a row shows for `kind`: what the vector holds once its
/// derived counters have been asked for.
pub open spec fn shown_cost(costs: Option<CostsView>, kind: EventKind) -> Option<u64> {
    match costs {
        Some(c) => c.summarized().cost(kind),
        None => None,
    }
}

/// The fields of a comparison: the rows of the kinds, in order.
pub open spec fn report_fields(
    kinds: Seq<EventKind>,
    new_costs: CostsView,
    old_costs: Option<CostsView>,
) -> Seq<FieldView>
    decreases kinds.len(),
{
    if kinds.len() == 0 {
        Seq::empty()
    } else {
        report_fields(kinds.drop_last(), new_costs, old_costs) + row_fields(
            kinds.last(),
            shown_cost(Some(new_costs), kinds.last()),
            shown_cost(old_costs, kinds.last()),
        )
    }
}

/// One row as a line of plain text; no text for a kind with no cost on
/// either side.
pub open spec fn row_text(kind: EventKind, new_cost: Option<u64>, old_cost: Option<u64>) -> Seq<
    char,
> {
    if new_cost is None && old_cost is None {
        Seq::empty()
    } else {
        let start = "  "@ + align_left(description(kind), 18) + align_right(cost_text(new_cost), 15)
            + "|"@ + align_left(cost_text(old_cost), 15) + " ("@;
        if new_cost is Some && old_cost is Some && new_cost != old_cost {
            start + align_center(percentage_field(new_cost.unwrap(), old_cost.unwrap()), 9)
                + ") ["@ + align_center(factor_field(new_cost.unwrap(), old_cost.unwrap()), 9)
                + "]\n"@
        } else if new_cost is Some && old_cost is Some {
            start + align_center("No change"@, 9) + ")\n"@
        } else {
            start + align_center("*********"@, 9) + ")\n"@
        }
    }
}

/// A comparison as plain text: the lines of the rows, in the order of the
/// kinds.
pub open spec fn report_text(
    kinds: Seq<EventKind>,
    new_costs: CostsView,
    old_costs: Option<CostsView>,
) -> Seq<char>
    decreases kinds.len(),
{
    if kinds.len() == 0 {
        Seq::empty()
    } else {
        report_text(kinds.drop_last(), new_costs, old_costs) + row_text(
            kinds.last(),
            shown_cost(Some(new_costs), kinds.last()),
            shown_cost(old_costs, kinds.last()),
        )
    }
}

/// Which row a kind gets.
///
/// No cost on either side: none. A cost on one side only: the other side
/// reads `N/A`, the note is a row of stars, and no factor follows. The same
/// cost on both sides: the note reads `No change`, and no factor follows.
/// Two costs that differ: the note is the difference in percent and the
/// factor follows, both marked as an alert where the cost grew and as
/// favorable where it shrank.
pub proof fn lemma_row_selection(kind: EventKind, new_cost: Option<u64>, old_cost: Option<u64>)
    ensures
        new_cost is None && old_cost is None ==> row_fields(kind, new_cost, old_cost).len() == 0,
        new_cost is None && old_cost is Some ==> {
            let row = row_fields(kind, new_cost, old_cost);
            &&& row.len() == 5
            &&& row[1].text == align_right("N/A"@, 15)
            &&& row[2].text == "|"@ + align_left(decimal(old_cost.unwrap() as nat), 15) + " ("@
            &&& row[3] == FieldView { text: align_center("*********"@, 9), emphasis: Emphasis::Muted }
        },
        new_cost is Some && old_cost is None ==> {
            let row = row_fields(kind, new_cost, old_cost);
            &&& row.len() == 5
            &&& row[1].text == align_right(decimal(new_cost.unwrap() as nat), 15)
            &&& row[2].text == "|"@ + align_left("N/A"@, 15) + " ("@
            &&& row[3] == FieldView { text: align_center("*********"@, 9), emphasis: Emphasis::Muted }
        },
        new_cost is Some && old_cost == new_cost ==> {
            let row = row_fields(kind, new_cost, old_cost);
            &&& row.len() == 5
            &&& row[1].text == align_right(decimal(new_cost.unwrap() as nat), 15)
            &&& row[2].text == "|"@ + align_left(decimal(old_cost.unwrap() as nat), 15) + " ("@
            &&& row[3] == FieldView { text: align_center("No change"@, 9), emphasis: Emphasis::Muted }
        },
        new_cost is Some && old_cost is Some && new_cost != old_cost ==> {
            let row = row_fields(kind, new_cost, old_cost);
            let n = new_cost.unwrap();
            let o = old_cost.unwrap();
            &&& row.len() == 7
            &&& row[3].text == align_center(percentage_field(n, o), 9)
            &&& row[5].text == align_center(factor_field(n, o), 9)
            &&& n > o ==> row[3].emphasis == Emphasis::Alert && row[5].emphasis == Emphasis::Alert
            &&& n < o ==> row[3].emphasis == Emphasis::Favorable && row[5].emphasis
                == Emphasis::Favorable
        },
{
}

/// The plain text of a row's fields is the row's line.
pub proof fn lemma_row_text(kind: EventKind, new_cost: Option<u64>, old_cost: Option<u64>)
    ensures
        plain(row_fields(kind, new_cost, old_cost)) == row_text(kind, new_cost, old_cost),
{
    let row = row_fields(kind, new_cost, old_cost);
    reveal_with_fuel(plain_prefix, 8);
    lemma_plain_unfold(row, row.len() as int);
    assert(row.take(row.len() as int) =~= row);
    assert(plain_prefix(row, row.len() as int) =~= row_text(kind, new_cost, old_cost));
}

/// The plain text of a comparison's fields is the lines of its rows.
pub proof fn lemma_report_text(
    kinds: Seq<EventKind>,
    new_costs: CostsView,
    old_costs: Option<CostsView>,
)
    ensures
        plain(report_fields(kinds, new_costs, old_costs)) == report_text(
            kinds,
            new_costs,
            old_costs,
        ),
    decreases kinds.len(),
{
    if kinds.len() > 0 {
        let kind = kinds.last();
        let row = row_fields(kind, shown_cost(Some(new_costs), kind), shown_cost(old_costs, kind));
        lemma_report_text(kinds.drop_last(), new_costs, old_costs);
        lemma_plain_concat(report_fields(kinds.drop_last(), new_costs, old_costs), row);
        lemma_row_text(kind, shown_cost(Some(new_costs), kind), shown_cost(old_costs, kind));
    }
}

/// What an optional vector holds.
pub open spec fn option_costs(costs: Option<&Costs>) -> Option<CostsView> {
    match costs {
        Some(c) => Some(c@),
        None => None,
    }
}

/// The kinds that a comparison shows unless told otherwise, in order: the
/// instruction count, the derived counters, then the rest.
pub open spec fn default_kinds() -> Seq<EventKind> {
    seq![
        EventKind::Ir,
        EventKind::L1hits,
        EventKind::LLhits,
        EventKind::RamHits,
        EventKind::TotalRW,
        EventKind::EstimatedCycles,
        EventKind::SysCount,
        EventKind::SysTime,
        EventKind::SysCpuTime,
        EventKind::Ge,
        EventKind::Bc,
        EventKind::Bcm,
        EventKind::Bi,
        EventKind::Bim,
        EventKind::ILdmr,
        EventKind::DLdmr,
        EventKind::DLdmw,
        EventKind::AcCost1,
        EventKind::AcCost2,
        EventKind::SpLoss1,
        EventKind::SpLoss2,
    ]
}

fn description_string(kind: EventKind) -> (r: String)
    ensures
        r@ == description(kind),
{
    match kind {
        EventKind::Ir => String::from_str("Instructions:"),
        EventKind::L1hits => String::from_str("L1 Hits:"),
        EventKind::LLhits => String::from_str("L2 Hits:"),
        EventKind::RamHits => String::from_str("RAM Hits:"),
        EventKind::TotalRW => String::from_str("Total read+write:"),
        EventKind::EstimatedCycles => String::from_str("Estimated Cycles:"),
        _ => {
            let mut label = kind.to_string();
            label.append(":");
            label
        },
    }
}

fn cost_string(cost: Option<u64>) -> (r: String)
    ensures
        r@ == cost_text(cost),
{
    match cost {
        Some(c) => decimal_string(c),
        None => String::from_str("N/A"),
    }
}

fn push_row(out: &mut Vec<Field>, kind: EventKind, new_cost: Option<u64>, old_cost: Option<u64>)
    ensures
        field_views(final(out)@) == field_views(old(out)@) + row_fields(kind, new_cost, old_cost),
{
    if new_cost.is_none() && old_cost.is_none() {
        assert(field_views(out@) + row_fields(kind, new_cost, old_cost) =~= field_views(out@));
        return ;
    }
    let mut label = String::from_str("  ");
    push_left(&mut label, description_string(kind).as_str(), 18);
    push_field(out, label, Emphasis::Neutral);
    let mut new_text = String::new();
    push_right(&mut new_text, cost_string(new_cost).as_str(), 15);
    assert(new_text@ =~= align_right(cost_text(new_cost), 15));
    push_field(out, new_text, Emphasis::Strong);
    let mut old_text = String::from_str("|");
    push_left(&mut old_text, cost_string(old_cost).as_str(), 15);
    old_text.append(" (");
    push_field(out, old_text, Emphasis::Neutral);
    match (new_cost, old_cost) {
        (Some(n), Some(o)) => {
            if n != o {
                let emphasis = if n > o {
                    Emphasis::Alert
                } else {
                    Emphasis::Favorable
                };
                let mut percentage = String::new();
                push_percentage(&mut percentage, n, o);
                assert(percentage@ =~= percentage_field(n, o));
                let mut note = String::new();
                push_center(&mut note, percentage.as_str(), 9);
                assert(note@ =~= align_center(percentage_field(n, o), 9));
                push_field(out, note, emphasis);
                push_field(out, String::from_str(") ["), Emphasis::Neutral);
                let mut factor = String::new();
                push_factor(&mut factor, n, o);
                assert(factor@ =~= factor_field(n, o));
                let mut ratio = String::new();
                push_center(&mut ratio, factor.as_str(), 9);
                assert(ratio@ =~= align_center(factor_field(n, o), 9));
                push_field(out, ratio, emphasis);
                push_field(out, String::from_str("]\n"), Emphasis::Neutral);
            } else {
                let mut note = String::new();
                push_center(&mut note, "No change", 9);
                assert(note@ =~= align_center("No change"@, 9));
                push_field(out, note, Emphasis::Muted);
                push_field(out, String::from_str(")\n"), Emphasis::Neutral);
            }
        },
        _ => {
            let mut note = String::new();
            push_center(&mut note, "*********", 9);
            assert(note@ =~= align_center("*********"@, 9));
            push_field(out, note, Emphasis::Muted);
            push_field(out, String::from_str(")\n"), Emphasis::Neutral);
        },
    }
    assert(field_views(out@) =~= field_views(old(out)@) + row_fields(kind, new_cost, old_cost));
}

/// Something that writes the comparison of two cost vectors.
pub trait Formatter {
    /// The text that compares `new_costs` with `old_costs`.
    spec fn comparison(&self, new_costs: CostsView, old_costs: Option<CostsView>) -> Seq<char>;

    /// Compares `new_costs` with `old_costs`, if there are any.
    fn format(&self, new_costs: &Costs, old_costs: Option<&Costs>) -> (r: String)
        ensures
            r@ == self.comparison(new_costs@, option_costs(old_costs)),
    ;
}

/// Writes a comparison with one row for each kind of event.
#[derive(Clone, Debug)]
pub struct VerticalFormat {
    event_kinds: Vec<EventKind>,
}

impl VerticalFormat {
    /// The kinds that get a row, in order.
    pub closed spec fn kinds(&self) -> Seq<EventKind> {
        self.event_kinds@
    }

    /// The comparison, field by field.
    ///
    /// Neither vector is changed: where derived counters are asked for and
    /// a vector does not hold them yet, they are computed for this
    /// comparison alone.
    pub fn format_fields(&self, new_costs: &Costs, old_costs: Option<&Costs>) -> (r: Vec<Field>)
        ensures
            field_views(r@) == report_fields(self.kinds(), new_costs@, option_costs(old_costs)),
    {
        let mut new_copy = new_costs.clone();
        let mut old_copy: Option<Costs> = match old_costs {
            Some(o) => Some(o.clone()),
            None => None,
        };
        let ghost new_view = new_costs@;
        let ghost old_view = option_costs(old_costs);
        let ghost kinds = self.kinds();
        let mut out: Vec<Field> = Vec::new();
        let mut i: usize = 0;
        assert(field_views(out@) =~= report_fields(kinds.take(0), new_view, old_view));
        while i < self.event_kinds.len()
            invariant
                i <= self.event_kinds@.len(),
                kinds == self.event_kinds@,
                new_view.wf(),
                new_copy.wf(),
                new_copy@ == new_view || new_copy@ == new_view.summarized(),
                match old_copy {
                    Some(c) => old_view matches Some(v) && v.wf() && c.wf() && (c@ == v || c@
                        == v.summarized()),
                    None => old_view is None,
                },
                field_views(out@) == report_fields(kinds.take(i as int), new_view, old_view),
            decreases self.event_kinds@.len() - i,
        {
            let kind = self.event_kinds[i];
            if kind.is_derived() {
                if !new_copy.is_summarized() {
                    let _ = new_copy.make_summary();
                }
                match &mut old_copy {
                    Some(c) => {
                        if !c.is_summarized() {
                            let _ = c.make_summary();
                        }
                    },
                    None => {},
                }
            }
            let new_cost = new_copy.cost_by_kind(&kind);
            let old_cost = match &old_copy {
                Some(c) => c.cost_by_kind(&kind),
                None => None,
            };
            proof {
                lemma_summary_idempotent(new_view);
                if old_view is Some {
                    lemma_summary_idempotent(old_view.unwrap());
                }
                assert(new_cost == shown_cost(Some(new_view), kind));
                assert(old_cost == shown_cost(old_view, kind));
                assert(kinds.take(i + 1).drop_last() =~= kinds.take(i as int));
                assert(kinds.take(i + 1).last() == kind);
            }
            push_row(&mut out, kind, new_cost, old_cost);
            i += 1;
        }
        assert(kinds.take(self.event_kinds@.len() as int) =~= kinds);
        out
    }
}

impl Default for VerticalFormat {
    fn default() -> (r: Self)
        ensures
            r.kinds() == default_kinds(),
    {
        let event_kinds = vec![
            EventKind::Ir,
            EventKind::L1hits,
            EventKind::LLhits,
            EventKind::RamHits,
            EventKind::TotalRW,
            EventKind::EstimatedCycles,
            EventKind::SysCount,
            EventKind::SysTime,
            EventKind::SysCpuTime,
            EventKind::Ge,
            EventKind::Bc,
            EventKind::Bcm,
            EventKind::Bi,
            EventKind::Bim,
            EventKind::ILdmr,
            EventKind::DLdmr,
            EventKind::DLdmw,
            EventKind::AcCost1,
            EventKind::AcCost2,
            EventKind::SpLoss1,
            EventKind::SpLoss2,
        ];
        assert(event_kinds@ =~= default_kinds());
        VerticalFormat { event_kinds }
    }
}

impl Formatter for VerticalFormat {
    /// One line for each row, in the order of the kinds.
    open spec fn comparison(&self, new_costs: CostsView, old_costs: Option<CostsView>) -> Seq<
        char,
    > {
        report_text(self.kinds(), new_costs, old_costs)
    }

    /// The comparison as plain text, one line for each row.
    fn format(&self, new_costs: &Costs, old_costs: Option<&Costs>) -> (r: String) {
        let fields = self.format_fields(new_costs, old_costs);
        proof {
            lemma_report_text(self.kinds(), new_costs@, option_costs(old_costs));
        }
        render(&fields)
    }
}

} // verus!
