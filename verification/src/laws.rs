use vstd::prelude::*;

use crate::engine::{
    day_header_seq, day_prefix, decision_for_content_spec, decision_of_lines, headers_for_content,
    is_blank, is_blank_byte, starts_with, title_seq, year_header_seq, year_prefix, HeaderDecision,
};
use crate::scanner::{lemma_rfind_nl_unique, lines_of, strip_cr, CR, NL};
use crate::timestamp::{datetime_seq, dec2, dec4, digit, Timestamp};
use crate::writer::{entry_line_seq, file_after_append};

verus! {

/// The engine's decision is settled by the first non-blank line of the
/// backward scan: blank lines before it change nothing.
pub proof fn lemma_decision_at_first_nonblank(rl: Seq<Seq<u8>>, k: int, t: Timestamp)
    requires
        0 <= k < rl.len(),
        forall|j: int| 0 <= j < k ==> is_blank(rl[j]),
        !is_blank(rl[k]),
    ensures
        decision_of_lines(rl, t) == (if starts_with(rl[k], day_prefix(t)) {
            HeaderDecision::NoHeaders
        } else if starts_with(rl[k], year_prefix(t)) {
            HeaderDecision::DayOnly
        } else {
            HeaderDecision::YearAndDay
        }),
    decreases k,
{
    if k > 0 {
        assert(is_blank(rl[0]));
        assert forall|j: int| 0 <= j < k - 1 implies is_blank(rl.drop_first()[j]) by {
            assert(rl.drop_first()[j] == rl[j + 1]);
        }
        assert(rl.drop_first()[k - 1] == rl[k]);
        lemma_decision_at_first_nonblank(rl.drop_first(), k - 1, t);
    }
}

/// The current-year marker is a prefix of today's day marker, so a line that
/// opens today's day section also names the current year.
pub proof fn lemma_day_prefix_extends_year_prefix(l: Seq<u8>, t: Timestamp)
    ensures
        starts_with(l, day_prefix(t)) ==> starts_with(l, year_prefix(t)),
{
    if starts_with(l, day_prefix(t)) {
        assert(year_prefix(t) =~= day_prefix(t).take(6));
        assert(l.take(day_prefix(t).len() as int).take(6) =~= l.take(6));
    }
}

/// A line that begins with an entry marker is not blank.
proof fn lemma_marker_line_not_blank(l: Seq<u8>, p: Seq<u8>)
    requires
        p.len() > 0,
        p[0] == 45,
        starts_with(l, p),
    ensures
        !is_blank(l),
{
    assert(l.take(p.len() as int)[0] == l[0]);
    assert(l[0] == 45);
    assert(!is_blank_byte(l[0]));
}

/// When the most recent non-blank line of the file is an entry of today's day
/// section, no header at all is owed.
pub proof fn lemma_same_day_no_headers(content: Seq<u8>, i: int, t: Timestamp)
    requires
        0 <= i < lines_of(content).len(),
        forall|j: int| i < j < lines_of(content).len() ==> is_blank(lines_of(content)[j]),
        starts_with(lines_of(content)[i], day_prefix(t)),
    ensures
        decision_for_content_spec(content, t) == HeaderDecision::NoHeaders,
        headers_for_content(content, t) == Seq::<u8>::empty(),
{
    let ls = lines_of(content);
    let rl = ls.reverse();
    let k = ls.len() - 1 - i;
    assert(rl[k] == ls[i]);
    assert forall|j: int| 0 <= j < k implies is_blank(rl[j]) by {
        assert(rl[j] == ls[ls.len() - 1 - j]);
    }
    assert(day_prefix(t)[0] == 45);
    lemma_marker_line_not_blank(ls[i], day_prefix(t));
    lemma_decision_at_first_nonblank(rl, k, t);
}

/// When the most recent non-blank line is an entry of the current year but not
/// of today, exactly the day header is owed, and no year header.
pub proof fn lemma_same_year_day_header_only(content: Seq<u8>, i: int, t: Timestamp)
    requires
        0 <= i < lines_of(content).len(),
        forall|j: int| i < j < lines_of(content).len() ==> is_blank(lines_of(content)[j]),
        starts_with(lines_of(content)[i], year_prefix(t)),
        !starts_with(lines_of(content)[i], day_prefix(t)),
    ensures
        decision_for_content_spec(content, t) == HeaderDecision::DayOnly,
        headers_for_content(content, t) == day_header_seq(t),
{
    let ls = lines_of(content);
    let rl = ls.reverse();
    let k = ls.len() - 1 - i;
    assert(rl[k] == ls[i]);
    assert forall|j: int| 0 <= j < k implies is_blank(rl[j]) by {
        assert(rl[j] == ls[ls.len() - 1 - j]);
    }
    assert(year_prefix(t)[0] == 45);
    lemma_marker_line_not_blank(ls[i], year_prefix(t));
    lemma_decision_at_first_nonblank(rl, k, t);
}

/// When the most recent non-blank line is an entry of a year other than the
/// current one, the year header is owed and the day header follows it: never
/// the day header alone, and neither is empty.
pub proof fn lemma_prior_year_both_headers(content: Seq<u8>, i: int, t: Timestamp)
    requires
        0 <= i < lines_of(content).len(),
        forall|j: int| i < j < lines_of(content).len() ==> is_blank(lines_of(content)[j]),
        starts_with(lines_of(content)[i], seq![45u8, 32u8]),
        !starts_with(lines_of(content)[i], year_prefix(t)),
    ensures
        decision_for_content_spec(content, t) == HeaderDecision::YearAndDay,
        headers_for_content(content, t) == year_header_seq(t) + day_header_seq(t),
        year_header_seq(t).len() > 0,
        day_header_seq(t).len() > 0,
{
    let ls = lines_of(content);
    let rl = ls.reverse();
    let k = ls.len() - 1 - i;
    assert(rl[k] == ls[i]);
    assert forall|j: int| 0 <= j < k implies is_blank(rl[j]) by {
        assert(rl[j] == ls[ls.len() - 1 - j]);
    }
    lemma_marker_line_not_blank(ls[i], seq![45u8, 32u8]);
    lemma_day_prefix_extends_year_prefix(ls[i], t);
    lemma_decision_at_first_nonblank(rl, k, t);
}

/// An empty file always gets the file title, the year header, and the day
/// header, in that fixed order, exactly once each.
pub proof fn lemma_empty_file_full_headers(t: Timestamp)
    ensures
        decision_for_content_spec(Seq::empty(), t) == HeaderDecision::TitleYearAndDay,
        headers_for_content(Seq::empty(), t) == title_seq() + year_header_seq(t)
            + day_header_seq(t),
{
    assert(lines_of(Seq::<u8>::empty()) =~= Seq::<Seq<u8>>::empty());
    assert(Seq::<Seq<u8>>::empty().reverse() =~= Seq::<Seq<u8>>::empty());
}

/// Appending one terminated line to a text that is empty or itself terminated
/// appends exactly one line to its line sequence.
pub proof fn lemma_lines_of_append_line(s: Seq<u8>, l: Seq<u8>)
    requires
        s.len() == 0 || s[s.len() - 1] == NL,
        forall|i: int| 0 <= i < l.len() ==> l[i] != NL,
        l.len() == 0 || l[l.len() - 1] != CR,
    ensures
        lines_of(s + l + seq![NL]) == lines_of(s).push(l),
{
    let s2 = s + l + seq![NL];
    let e = s2.len() - 1;
    let m = s.len() as int - 1;
    assert(s2[e] == NL);
    assert forall|k: int| m < k < e implies s2[k] != NL by {
        if k < s.len() {
            assert(s2[k] == s[k]);
        } else {
            assert(s2[k] == l[k - s.len()]);
        }
    }
    if s.len() > 0 {
        assert(s2[m] == s[m]);
    }
    lemma_rfind_nl_unique(s2, e, m);
    assert(s2.take(m + 1) =~= s);
    assert(s2.subrange(m + 1, e) =~= l);
    assert(strip_cr(l) == l);
    assert(lines_of(s2) == lines_of(s).push(l));
}

/// Every byte of a two-digit rendering is an ASCII digit.
proof fn lemma_dec2_digits(n: int)
    requires
        n >= 0,
    ensures
        forall|i: int| 0 <= i < 2 ==> 48 <= #[trigger] dec2(n)[i] <= 57,
{
    assert forall|i: int| 0 <= i < 2 implies 48 <= #[trigger] dec2(n)[i] <= 57 by {
        if i == 0 {
            assert(dec2(n)[0] == digit(n / 10 % 10));
        } else {
            assert(dec2(n)[1] == digit(n % 10));
        }
    }
}

/// Every byte of a four-digit rendering is an ASCII digit.
proof fn lemma_dec4_digits(n: int)
    requires
        n >= 0,
    ensures
        forall|i: int| 0 <= i < 4 ==> 48 <= #[trigger] dec4(n)[i] <= 57,
{
    assert forall|i: int| 0 <= i < 4 implies 48 <= #[trigger] dec4(n)[i] <= 57 by {
        if i == 0 {
            assert(dec4(n)[0] == digit(n / 1000 % 10));
        } else if i == 1 {
            assert(dec4(n)[1] == digit(n / 100 % 10));
        } else if i == 2 {
            assert(dec4(n)[2] == digit(n / 10 % 10));
        } else {
            assert(dec4(n)[3] == digit(n % 10));
        }
    }
}

/// A formatted timestamp holds no line terminator.
proof fn lemma_datetime_no_nl(t: Timestamp)
    ensures
        datetime_seq(t).len() == 19,
        forall|i: int| 0 <= i < datetime_seq(t).len() ==> #[trigger] datetime_seq(t)[i] != NL,
{
    lemma_dec4_digits(t.year as int);
    lemma_dec2_digits(t.month as int);
    lemma_dec2_digits(t.day as int);
    lemma_dec2_digits(t.hour as int);
    lemma_dec2_digits(t.minute as int);
    lemma_dec2_digits(t.second as int);
}

/// An entry line holds no terminator, does not end in a carriage return as
/// long as its text does not, and is never empty.
pub proof fn lemma_entry_line_clean(t: Timestamp, text: Seq<u8>)
    requires
        forall|i: int| 0 <= i < text.len() ==> text[i] != NL,
        text.len() == 0 || text[text.len() - 1] != CR,
    ensures
        entry_line_seq(t, text).len() == 23 + text.len(),
        forall|i: int|
            0 <= i < entry_line_seq(t, text).len() ==> #[trigger] entry_line_seq(t, text)[i] != NL,
        entry_line_seq(t, text)[entry_line_seq(t, text).len() - 1] != CR,
{
    lemma_datetime_no_nl(t);
    let el = entry_line_seq(t, text);
    assert forall|i: int| 0 <= i < el.len() implies #[trigger] el[i] != NL by {
        if i < 2 {
        } else if i < 21 {
            assert(el[i] == datetime_seq(t)[i - 2]);
        } else if i < 23 {
        } else {
            assert(el[i] == text[i - 23]);
        }
    }
    if text.len() > 0 {
        assert(el[el.len() - 1] == text[text.len() - 1]);
    } else {
        assert(el[el.len() - 1] == 32);
    }
}

/// The header text owed for any file state either is empty or ends with a
/// line terminator.
pub proof fn lemma_headers_terminated(content: Seq<u8>, t: Timestamp)
    ensures
        headers_for_content(content, t).len() == 0 || headers_for_content(content, t)[
            headers_for_content(content, t).len() - 1
        ] == NL,
{
    let hs = headers_for_content(content, t);
    match decision_for_content_spec(content, t) {
        HeaderDecision::NoHeaders => {},
        HeaderDecision::DayOnly => {
            assert(hs[hs.len() - 1] == NL);
        },
        HeaderDecision::YearAndDay => {
            assert(hs[hs.len() - 1] == NL);
        },
        HeaderDecision::TitleYearAndDay => {
            assert(hs[hs.len() - 1] == NL);
        },
    }
}

/// Round trip: after appending an entry to a file that is empty or ends with
/// a line terminator, the most recent line of the file is exactly the entry
/// line just written, whatever headers were prepended.
pub proof fn lemma_append_round_trip(content: Seq<u8>, t: Timestamp, text: Seq<u8>)
    requires
        content.len() == 0 || content[content.len() - 1] == NL,
        forall|i: int| 0 <= i < text.len() ==> text[i] != NL,
        text.len() == 0 || text[text.len() - 1] != CR,
    ensures
        lines_of(file_after_append(content, t, text)).len() > 0,
        lines_of(file_after_append(content, t, text)) == lines_of(
            content + headers_for_content(content, t),
        ).push(entry_line_seq(t, text)),
        lines_of(file_after_append(content, t, text)).last() == entry_line_seq(t, text),
{
    let hs = headers_for_content(content, t);
    let el = entry_line_seq(t, text);
    let base = content + hs;
    lemma_headers_terminated(content, t);
    if hs.len() > 0 {
        assert(base[base.len() - 1] == hs[hs.len() - 1]);
    } else if content.len() > 0 {
        assert(base[base.len() - 1] == content[content.len() - 1]);
    }
    lemma_entry_line_clean(t, text);
    lemma_lines_of_append_line(base, el);
    assert(file_after_append(content, t, text) =~= base + el + seq![NL]);
}

} // verus!
