use vstd::prelude::*;

use crate::scanner::{copy_bytes, lines_of, push_all, RevScanner, CR, NL};
use crate::timestamp::{date_bytes, date_seq, dec4, push_dec4, Timestamp};

verus! {

/// What must be written before a new entry.
#[derive(Clone, Copy, Debug, PartialEq, Eq, Structural)]
pub enum HeaderDecision {
    /// The latest entry already belongs to today's day section.
    NoHeaders,
    /// A new day in the year of the latest entry.
    DayOnly,
    /// A new year: year header, then day header.
    YearAndDay,
    /// No prior entry at all: file title, year header, then day header.
    TitleYearAndDay,
}

/// One element of a backward scan as the engine consumes it: a line that was
/// read, or one that could not be.
pub enum ScanItem {
    Line(Vec<u8>),
    Unreadable,
}

impl View for ScanItem {
    type V = Option<Seq<u8>>;

    open spec fn view(&self) -> Option<Seq<u8>> {
        match self {
            ScanItem::Line(l) => Some(l@),
            ScanItem::Unreadable => None,
        }
    }
}

/// An ASCII whitespace byte, the kind a blank separator line is made of.
pub open spec fn is_blank_byte(b: u8) -> bool {
    b == 32 || b == 9 || b == 11 || b == 12 || b == CR || b == NL
}

/// A line that is empty after trimming whitespace.
pub open spec fn is_blank(l: Seq<u8>) -> bool {
    forall|i: int| 0 <= i < l.len() ==> is_blank_byte(l[i])
}

/// `l` begins with the bytes of `p`.
pub open spec fn starts_with(l: Seq<u8>, p: Seq<u8>) -> bool {
    l.len() >= p.len() && l.take(p.len() as int) == p
}

/// The marker an entry line of today's day section begins with: `- YYYY-MM-DD`.
pub open spec fn day_prefix(t: Timestamp) -> Seq<u8> {
    seq![45u8, 32u8] + date_seq(t)
}

/// The marker an entry line of the current year begins with: `- YYYY`.
pub open spec fn year_prefix(t: Timestamp) -> Seq<u8> {
    seq![45u8, 32u8] + dec4(t.year as int)
}

/// What one scanned line settles: nothing yet (a blank line), or the final
/// decision.
pub open spec fn classify_spec(l: Option<Seq<u8>>, t: Timestamp) -> Option<HeaderDecision> {
    match l {
        None => Some(HeaderDecision::TitleYearAndDay),
        Some(l) => if is_blank(l) {
            None
        } else if starts_with(l, day_prefix(t)) {
            Some(HeaderDecision::NoHeaders)
        } else if starts_with(l, year_prefix(t)) {
            Some(HeaderDecision::DayOnly)
        } else {
            Some(HeaderDecision::YearAndDay)
        },
    }
}

/// The decision reached from the lines of a file given most recent first:
/// blank lines are skipped, the first readable non-blank line settles the
/// outcome, an unreadable or absent line means a fresh file.
pub open spec fn decision_of_items(items: Seq<Option<Seq<u8>>>, t: Timestamp) -> HeaderDecision
    decreases items.len(),
{
    if items.len() == 0 {
        HeaderDecision::TitleYearAndDay
    } else {
        match classify_spec(items[0], t) {
            Some(d) => d,
            None => decision_of_items(items.drop_first(), t),
        }
    }
}

/// The decision for a file whose lines, most recent first, are `rl` and all
/// readable.
pub open spec fn decision_of_lines(rl: Seq<Seq<u8>>, t: Timestamp) -> HeaderDecision
    decreases rl.len(),
{
    if rl.len() == 0 {
        HeaderDecision::TitleYearAndDay
    } else {
        match classify_spec(Some(rl[0]), t) {
            Some(d) => d,
            None => decision_of_lines(rl.drop_first(), t),
        }
    }
}

/// The decision for a file with the given byte content.
pub open spec fn decision_for_content_spec(content: Seq<u8>, t: Timestamp) -> HeaderDecision {
    decision_of_lines(lines_of(content).reverse(), t)
}

/// Whether `l` is empty after trimming ASCII whitespace.
pub fn is_blank_line(l: &Vec<u8>) -> (r: bool)
    ensures
        r == is_blank(l@),
{
    let mut i: usize = 0;
    while i < l.len()
        invariant
            i <= l.len(),
            forall|k: int| 0 <= k < i ==> is_blank_byte(l@[k]),
        decreases l.len() - i,
    {
        let b = l[i];
        if !(b == 32 || b == 9 || b == 11 || b == 12 || b == CR || b == NL) {
            assert(!is_blank_byte(l@[i as int]));
            return false;
        }
        i = i + 1;
    }
    true
}

/// Whether `l` begins with the bytes of `p`.
pub fn begins_with(l: &Vec<u8>, p: &Vec<u8>) -> (r: bool)
    ensures
        r == starts_with(l@, p@),
{
    if l.len() < p.len() {
        return false;
    }
    let mut i: usize = 0;
    while i < p.len()
        invariant
            i <= p.len() <= l.len(),
            forall|k: int| 0 <= k < i ==> l@[k] == p@[k],
        decreases p.len() - i,
    {
        if l[i] != p[i] {
            assert(l@.take(p@.len() as int)[i as int] == l@[i as int]);
            return false;
        }
        i = i + 1;
    }
    proof {
        assert(l@.take(p@.len() as int) =~= p@);
    }
    true
}

/// The bytes of `- YYYY-MM-DD` for `t`.
pub fn day_prefix_bytes(t: &Timestamp) -> (r: Vec<u8>)
    requires
        t.wf(),
    ensures
        r@ == day_prefix(*t),
{
    let mut v: Vec<u8> = Vec::new();
    v.push(45);
    v.push(32);
    let d = date_bytes(t);
    let mut i: usize = 0;
    while i < d.len()
        invariant
            i <= d.len(),
            d@ == date_seq(*t),
            v@ == seq![45u8, 32u8] + d@.take(i as int),
        decreases d.len() - i,
    {
        v.push(d[i]);
        i = i + 1;
        proof {
            assert(v@ =~= seq![45u8, 32u8] + d@.take(i as int));
        }
    }
    proof {
        assert(v@ =~= day_prefix(*t));
    }
    v
}

/// The bytes of `- YYYY` for `t`.
pub fn year_prefix_bytes(t: &Timestamp) -> (r: Vec<u8>)
    requires
        t.wf(),
    ensures
        r@ == year_prefix(*t),
{
    let mut v: Vec<u8> = Vec::new();
    v.push(45);
    v.push(32);
    push_dec4(&mut v, t.year);
    proof {
        assert(v@ =~= year_prefix(*t));
    }
    v
}

/// What one scanned element settles, executably.
pub fn classify_item(item: &ScanItem, t: &Timestamp) -> (r: Option<HeaderDecision>)
    requires
        t.wf(),
    ensures
        r == classify_spec(item@, *t),
{
    match item {
        ScanItem::Unreadable => Some(HeaderDecision::TitleYearAndDay),
        ScanItem::Line(l) => {
            if is_blank_line(l) {
                None
            } else if begins_with(l, &day_prefix_bytes(t)) {
                Some(HeaderDecision::NoHeaders)
            } else if begins_with(l, &year_prefix_bytes(t)) {
                Some(HeaderDecision::DayOnly)
            } else {
                Some(HeaderDecision::YearAndDay)
            }
        },
    }
}

/// The view of each element of a scanned sequence.
pub open spec fn items_view(s: Seq<ScanItem>) -> Seq<Option<Seq<u8>>> {
    s.map_values(|it: ScanItem| it@)
}

/// Decides the headers from an already collected backward scan, most recent
/// element first, unreadable elements included.
pub fn decide_from_scan(items: &Vec<ScanItem>, t: &Timestamp) -> (r: HeaderDecision)
    requires
        t.wf(),
    ensures
        r == decision_of_items(items_view(items@), *t),
{
    let ghost full = items_view(items@);
    proof {
        assert(full.skip(0) =~= full);
    }
    let mut i: usize = 0;
    while i < items.len()
        invariant
            t.wf(),
            i <= items.len(),
            full == items_view(items@),
            full.len() == items@.len(),
            decision_of_items(full.skip(i as int), *t) == decision_of_items(full, *t),
        decreases items.len() - i,
    {
        proof {
            assert(full.skip(i as int)[0] == items@[i as int]@);
        }
        let step = classify_item(&items[i], t);
        match step {
            Some(d) => {
                return d;
            },
            None => {
                proof {
                    assert(full.skip(i as int).drop_first() =~= full.skip(i as int + 1));
                }
                i = i + 1;
            },
        }
    }
    proof {
        assert(full.skip(items@.len() as int) =~= Seq::<Option<Seq<u8>>>::empty());
    }
    HeaderDecision::TitleYearAndDay
}

/// Decides the headers for a file with the given byte content, scanning its
/// lines backward and stopping at the first non-blank one.
pub fn decide_for_content(content: &Vec<u8>, t: &Timestamp) -> (r: HeaderDecision)
    requires
        t.wf(),
    ensures
        r == decision_for_content_spec(content@, *t),
{
    let ghost all = lines_of(content@).reverse();
    let dp = day_prefix_bytes(t);
    let yp = year_prefix_bytes(t);
    let mut sc = RevScanner::new(copy_bytes(content));
    loop
        invariant
            t.wf(),
            sc.wf(),
            all == lines_of(content@).reverse(),
            dp@ == day_prefix(*t),
            yp@ == year_prefix(*t),
            decision_of_lines(sc@.reverse(), *t) == decision_of_lines(all, *t),
        decreases sc@.len(),
    {
        let ghost before = sc@;
        let next_line = sc.next();
        match next_line {
            None => {
                proof {
                    assert(before.reverse() =~= Seq::<Seq<u8>>::empty());
                }
                return HeaderDecision::TitleYearAndDay;
            },
            Some(line) => {
                proof {
                    assert(before.reverse()[0] == before.last());
                }
                if is_blank_line(&line) {
                    proof {
                        assert(before.reverse().drop_first() =~= sc@.reverse());
                    }
                } else if begins_with(&line, &dp) {
                    return HeaderDecision::NoHeaders;
                } else if begins_with(&line, &yp) {
                    return HeaderDecision::DayOnly;
                } else {
                    return HeaderDecision::YearAndDay;
                }
            },
        }
    }
}

/// The file title line: `# Lab Log` with its terminator.
pub open spec fn title_seq() -> Seq<u8> {
    seq![35u8, 32u8, 76u8, 97u8, 98u8, 32u8, 76u8, 111u8, 103u8, 10u8]
}

/// The year header for `t`: `\n## YYYY`.
pub open spec fn year_header_seq(t: Timestamp) -> Seq<u8> {
    seq![10u8, 35u8, 35u8, 32u8] + dec4(t.year as int)
}

/// The day header for `t`: `\n\n### YYYY-MM-DD\n`.
pub open spec fn day_header_seq(t: Timestamp) -> Seq<u8> {
    seq![10u8, 10u8, 35u8, 35u8, 35u8, 32u8] + date_seq(t) + seq![10u8]
}

/// The exact header text a decision stands for.
pub open spec fn headers_seq(d: HeaderDecision, t: Timestamp) -> Seq<u8> {
    match d {
        HeaderDecision::NoHeaders => Seq::empty(),
        HeaderDecision::DayOnly => day_header_seq(t),
        HeaderDecision::YearAndDay => year_header_seq(t) + day_header_seq(t),
        HeaderDecision::TitleYearAndDay => title_seq() + year_header_seq(t) + day_header_seq(t),
    }
}

/// The header text owed before an entry written at `t` into a file that now
/// holds `content`.
pub open spec fn headers_for_content(content: Seq<u8>, t: Timestamp) -> Seq<u8> {
    headers_seq(decision_for_content_spec(content, t), t)
}

/// The bytes of the year header `\n## YYYY`.
pub fn year_header(t: &Timestamp) -> (r: Vec<u8>)
    requires
        t.wf(),
    ensures
        r@ == year_header_seq(*t),
{
    let mut v: Vec<u8> = Vec::new();
    v.push(10);
    v.push(35);
    v.push(35);
    v.push(32);
    push_dec4(&mut v, t.year);
    proof {
        assert(v@ =~= year_header_seq(*t));
    }
    v
}

/// The bytes of the day header `\n\n### YYYY-MM-DD\n`.
pub fn day_header(t: &Timestamp) -> (r: Vec<u8>)
    requires
        t.wf(),
    ensures
        r@ == day_header_seq(*t),
{
    let mut v: Vec<u8> = Vec::new();
    v.push(10);
    v.push(10);
    v.push(35);
    v.push(35);
    v.push(35);
    v.push(32);
    let d = date_bytes(t);
    push_all(&mut v, &d);
    v.push(10);
    proof {
        assert(v@ =~= day_header_seq(*t));
    }
    v
}

/// The bytes of the file title line `# Lab Log\n`.
pub fn title_bytes() -> (r: Vec<u8>)
    ensures
        r@ == title_seq(),
{
    let mut v: Vec<u8> = Vec::new();
    v.push(35);
    v.push(32);
    v.push(76);
    v.push(97);
    v.push(98);
    v.push(32);
    v.push(76);
    v.push(111);
    v.push(103);
    v.push(10);
    proof {
        assert(v@ =~= title_seq());
    }
    v
}

/// The header text a decision stands for, as bytes.
pub fn render_headers(d: HeaderDecision, t: &Timestamp) -> (r: Vec<u8>)
    requires
        t.wf(),
    ensures
        r@ == headers_seq(d, *t),
{
    let mut v: Vec<u8> = Vec::new();
    match d {
        HeaderDecision::NoHeaders => {},
        HeaderDecision::DayOnly => {
            let dh = day_header(t);
            push_all(&mut v, &dh);
        },
        HeaderDecision::YearAndDay => {
            let yh = year_header(t);
            let dh = day_header(t);
            push_all(&mut v, &yh);
            push_all(&mut v, &dh);
        },
        HeaderDecision::TitleYearAndDay => {
            let ti = title_bytes();
            let yh = year_header(t);
            let dh = day_header(t);
            push_all(&mut v, &ti);
            push_all(&mut v, &yh);
            push_all(&mut v, &dh);
        },
    }
    proof {
        assert(v@ =~= headers_seq(d, *t));
    }
    v
}

/// Scans the file content backward and returns the exact header text owed
/// before an entry written at `t`: nothing when today's day section is already
/// at the tail, a day header for a new day, a year header before it for a new
/// year, and the file title in front of both for a file with no prior entry.
pub fn determine_headers(content: &Vec<u8>, t: &Timestamp) -> (r: Vec<u8>)
    requires
        t.wf(),
    ensures
        r@ == headers_for_content(content@, *t),
{
    let d = decide_for_content(content, t);
    render_headers(d, t)
}

} // verus!
