//! The lines of a recording: a header, which is a JSON object, and events, which are JSON arrays.

use vstd::prelude::*;

use crate::text;

verus! {

/// Whether `s` begins with `first` and ends with `last`, which are two characters.
pub open spec fn enclosed(s: Seq<char>, first: char, last: char) -> bool {
    s.len() >= 2 && s.first() == first && s.last() == last
}

/// Whether `s`, apart from whitespace around it, is enclosed in braces.
pub open spec fn object_like(s: Seq<char>) -> bool {
    enclosed(text::trimmed(s), '{', '}')
}

/// Whether `s`, apart from whitespace around it, is enclosed in square brackets.
pub open spec fn array_like(s: Seq<char>) -> bool {
    enclosed(text::trimmed(s), '[', ']')
}

/// Whether `s`, apart from whitespace around it, looks like a JSON object.
pub fn looks_like_object(s: &str) -> (r: bool)
    ensures
        r == object_like(s@),
{
    proof {
        reveal_strlit("{");
        reveal_strlit("}");
    }
    let s = s.trim();
    let r = text::starts_with(s, "{") && text::ends_with(s, "}");
    proof {
        starts_and_ends(s@, "{"@, "}"@);
    }
    r
}

/// Whether `s`, apart from whitespace around it, looks like a JSON array.
pub fn looks_like_array(s: &str) -> (r: bool)
    ensures
        r == array_like(s@),
{
    proof {
        reveal_strlit("[");
        reveal_strlit("]");
    }
    let s = s.trim();
    let r = text::starts_with(s, "[") && text::ends_with(s, "]");
    proof {
        starts_and_ends(s@, "["@, "]"@);
    }
    r
}

/// Whether `s`, apart from whitespace around it, looks like a JSON object or a JSON array.
pub fn looks_like_json(s: &str) -> (r: bool)
    ensures
        r == (object_like(s@) || array_like(s@)),
{
    looks_like_object(s) || looks_like_array(s)
}

proof fn starts_and_ends(s: Seq<char>, first: Seq<char>, last: Seq<char>)
    requires
        first.len() == 1,
        last.len() == 1,
        first[0] != last[0],
    ensures
        enclosed(s, first[0], last[0]) == (text::occurs_at(s, first, 0) && text::occurs_at(
            s,
            last,
            s.len() - last.len(),
        )),
{
    if s.len() > 0 {
        assert(s.subrange(0, 1)[0] == s.first());
        assert(s.subrange(s.len() - 1, s.len() as int)[0] == s.last());
        assert(s.first() == first[0] ==> s.subrange(0, 1) =~= first);
        assert(s.last() == last[0] ==> s.subrange(s.len() - 1, s.len() as int) =~= last);
    }
}

/// An item of a JSON array, as far as an event is read from it.
pub struct JsonItem {
    /// The number that the item is, without its fraction and brought into the range of `i32`.
    pub number: Option<i32>,
    /// The string that the item is.
    pub text: Option<String>,
}

impl View for JsonItem {
    type V = (Option<i32>, Option<Seq<char>>);

    open spec fn view(&self) -> (Option<i32>, Option<Seq<char>>) {
        (self.number, self.text.deep_view())
    }
}

impl DeepView for JsonItem {
    type V = (Option<i32>, Option<Seq<char>>);

    open spec fn deep_view(&self) -> (Option<i32>, Option<Seq<char>>) {
        self@
    }
}

/// The items of the JSON array that `text` is, each as a number and as a string where it is one,
/// or `None` where `text` is no JSON array.
pub uninterp spec fn json_items(text: Seq<char>) -> Option<Seq<(Option<i32>, Option<Seq<char>>)>>;

/// Trusted: `serde_json::from_str` parses a text as a JSON array of any values, and the result
/// depends on the text alone. Each value is handed on as what `Value::as_f64`, cast to `i32`, and
/// `Value::as_str` make of it.
#[verifier::external_body]
pub(crate) fn parse_items(text: &str) -> (r: Option<Vec<JsonItem>>)
    ensures
        r.deep_view() == json_items(text@),
{
    let values = serde_json::from_str::<Vec<serde_json::Value>>(text).ok()?;
    Some(
        values.iter().map(|value| JsonItem {
            number: value.as_f64().map(|n| n as i32),
            text: value.as_str().map(|s| s.to_string()),
        }).collect(),
    )
}

/// What a line of a recording is.
pub enum Line {
    /// Neither an event nor anything else that is known.
    Unknown,
    /// An event that carries no data of a process.
    NoData,
    /// What the process `pid` wrote to its terminal.
    Data { pid: i32, data: String },
}

/// What a line of a recording is, with the text that it carries as a sequence of characters.
pub enum LineView {
    Unknown,
    NoData,
    Data { pid: i32, data: Seq<char> },
}

impl View for Line {
    type V = LineView;

    open spec fn view(&self) -> LineView {
        match self {
            Line::Unknown => LineView::Unknown,
            Line::NoData => LineView::NoData,
            Line::Data { pid, data } => LineView::Data { pid: *pid, data: data@ },
        }
    }
}

/// What a line is whose array holds the given items, or none where it is no array: the third item
/// of an event is its data, and the fourth is the process.
pub open spec fn line_of_items(
    items: Option<Seq<(Option<i32>, Option<Seq<char>>)>>,
) -> LineView {
    match items {
        None => LineView::Unknown,
        Some(items) => if items.len() >= 4 {
            match (items[3].0, items[2].1) {
                (Some(pid), Some(data)) => LineView::Data { pid, data },
                _ => LineView::NoData,
            }
        } else {
            LineView::NoData
        },
    }
}

/// What a line is whose array holds the given items, or none where it is no array.
pub fn read_items(items: Option<Vec<JsonItem>>) -> (r: Line)
    ensures
        r@ == line_of_items(items.deep_view()),
{
    match items {
        None => Line::Unknown,
        Some(items) => {
            if items.len() < 4 {
                return Line::NoData;
            }
            match (items[3].number, items[2].text.clone()) {
                (Some(pid), Some(data)) => Line::Data { pid, data },
                _ => Line::NoData,
            }
        },
    }
}

/// What a line of a recording is.
pub open spec fn line_view(line: Seq<char>) -> LineView {
    if array_like(line) {
        line_of_items(json_items(text::trimmed(line)))
    } else {
        LineView::Unknown
    }
}

/// What a line of a recording is.
pub fn read_line(line: &str) -> (r: Line)
    ensures
        r@ == line_view(line@),
{
    if looks_like_array(line) {
        read_items(parse_items(line.trim()))
    } else {
        Line::Unknown
    }
}

/// An array of at least four items is data of the process that its fourth item numbers where that
/// is a number and its third item a string, which is the data, whatever the first two items are and
/// whatever follows. Every other array carries no data, and what is no array is unknown.
pub proof fn data_by_the_third_and_fourth_item(
    items: Seq<(Option<i32>, Option<Seq<char>>)>,
)
    ensures
        items.len() >= 4 && items[2].1 is Some && items[3].0 is Some ==> line_of_items(Some(items))
            == (LineView::Data { pid: items[3].0->0, data: items[2].1->0 }),
        items.len() < 4 || items[2].1 is None || items[3].0 is None ==> line_of_items(Some(items))
            == LineView::NoData,
        line_of_items(None) == LineView::Unknown,
{
}

/// Two arrays of at least four items that agree in the third and the fourth are the same line.
pub proof fn other_items_make_no_difference(
    a: Seq<(Option<i32>, Option<Seq<char>>)>,
    b: Seq<(Option<i32>, Option<Seq<char>>)>,
)
    requires
        a.len() >= 4,
        b.len() >= 4,
        a[2] == b[2],
        a[3] == b[3],
    ensures
        line_of_items(Some(a)) == line_of_items(Some(b)),
{
}

/// Text in braces looks like an object and text in square brackets like an array, with any
/// whitespace around it, and nothing else does.
pub proof fn json_by_what_encloses_it(a: Seq<char>, s: Seq<char>, b: Seq<char>)
    requires
        text::is_blank(a),
        text::is_blank(b),
        s.len() > 0 ==> !text::is_whitespace(s.first()) && !text::is_whitespace(s.last()),
    ensures
        object_like(a + s + b) <==> s.len() >= 2 && s[0] == '{' && s[s.len() - 1] == '}',
        array_like(a + s + b) <==> s.len() >= 2 && s[0] == '[' && s[s.len() - 1] == ']',
{
    text::trimmed_between_blanks(a, s, b);
}

/// A line that looks like an array is what the items of that array make it, with any whitespace
/// around it, and every other line is unknown.
pub proof fn line_by_its_array(a: Seq<char>, s: Seq<char>, b: Seq<char>)
    requires
        text::is_blank(a),
        text::is_blank(b),
        s.len() > 0 ==> !text::is_whitespace(s.first()) && !text::is_whitespace(s.last()),
    ensures
        s.len() >= 2 && s[0] == '[' && s[s.len() - 1] == ']' ==> line_view(a + s + b)
            == line_of_items(json_items(s)),
        !(s.len() >= 2 && s[0] == '[' && s[s.len() - 1] == ']') ==> line_view(a + s + b)
            == LineView::Unknown,
{
    text::trimmed_between_blanks(a, s, b);
}

/// The view of a line shows what it carries.
pub proof fn line_is_seen_whole(line: Line)
    ensures
        line is Unknown <==> line@ is Unknown,
        line is NoData <==> line@ is NoData,
        line matches Line::Data { pid, data } ==> line@ == (LineView::Data { pid, data: data@ }),
{
}

} // verus!
