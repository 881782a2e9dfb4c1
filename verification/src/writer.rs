use vstd::prelude::*;

use crate::engine::{determine_headers, headers_for_content};
use crate::scanner::{copy_bytes, push_all, NL};
use crate::timestamp::{datetime_bytes, datetime_seq, Timestamp};

verus! {

/// One formatted entry line, without its terminator:
/// `- YYYY-MM-DD HH:MM:SS: <text>`.
pub open spec fn entry_line_seq(t: Timestamp, text: Seq<u8>) -> Seq<u8> {
    seq![45u8, 32u8] + datetime_seq(t) + seq![58u8, 32u8] + text
}

/// The full text one append writes: owed headers, then the entry line, then
/// its terminator.
pub open spec fn appended_text_seq(content: Seq<u8>, t: Timestamp, text: Seq<u8>) -> Seq<u8> {
    headers_for_content(content, t) + entry_line_seq(t, text) + seq![NL]
}

/// The file content after one append.
pub open spec fn file_after_append(content: Seq<u8>, t: Timestamp, text: Seq<u8>) -> Seq<u8> {
    content + appended_text_seq(content, t, text)
}

/// The bytes of one entry line for `t` and `text`, without the terminator.
pub fn entry_line(t: &Timestamp, text: &Vec<u8>) -> (r: Vec<u8>)
    requires
        t.wf(),
    ensures
        r@ == entry_line_seq(*t, text@),
{
    let mut v: Vec<u8> = Vec::new();
    v.push(45);
    v.push(32);
    let dt = datetime_bytes(t);
    push_all(&mut v, &dt);
    v.push(58);
    v.push(32);
    push_all(&mut v, text);
    proof {
        assert(v@ =~= entry_line_seq(*t, text@));
    }
    v
}

/// The exact text to append for an entry written at `t` into a file that now
/// holds `content`: the owed headers, the entry line, and one terminator, as a
/// single write.
pub fn compose_entry(content: &Vec<u8>, t: &Timestamp, text: &Vec<u8>) -> (r: Vec<u8>)
    requires
        t.wf(),
    ensures
        r@ == appended_text_seq(content@, *t, text@),
{
    let mut v = determine_headers(content, t);
    let line = entry_line(t, text);
    push_all(&mut v, &line);
    v.push(NL);
    proof {
        assert(v@ =~= appended_text_seq(content@, *t, text@));
    }
    v
}

/// The whole file content after appending an entry written at `t` with `text`.
pub fn append_entry(content: &Vec<u8>, t: &Timestamp, text: &Vec<u8>) -> (r: Vec<u8>)
    requires
        t.wf(),
    ensures
        r@ == file_after_append(content@, *t, text@),
{
    let mut v = copy_bytes(content);
    let add = compose_entry(content, t, text);
    push_all(&mut v, &add);
    v
}

} // verus!
