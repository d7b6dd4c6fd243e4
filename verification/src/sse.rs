//! Incremental decoder for server-sent event streams.
//!
//! Text arrives in chunks. Complete events end at a blank line (`"\n\n"` or
//! `"\r\n\r\n"`, whichever comes first); each complete event yields the
//! `data:` lines it carries, joined by `'\n'`. Text after the last complete
//! event waits in the buffer for the next chunk.

use vstd::prelude::*;
use crate::text::{
    blank, chars_to_string, extend_chars, find, first_occ, has_prefix, is_blank, lemma_first_occ_from,
    lemma_first_occ_intro, occurs_at, starts_with, str_chars, sub_chars,
};

verus! {

pub open spec fn lf_lf() -> Seq<char> {
    seq!['\n', '\n']
}

pub open spec fn crlf_crlf() -> Seq<char> {
    seq!['\r', '\n', '\r', '\n']
}

pub open spec fn lf() -> Seq<char> {
    seq!['\n']
}

pub open spec fn data_field() -> Seq<char> {
    seq!['d', 'a', 't', 'a', ':']
}

/// The end of the next complete event in `s` and where the text after its
/// terminator starts; the earlier terminator wins, `"\r\n\r\n"` on a tie.
pub open spec fn event_boundary(s: Seq<char>) -> Option<(int, int)> {
    match (first_occ(s, lf_lf()), first_occ(s, crlf_crlf())) {
        (Some(l), Some(c)) => if c <= l {
            Some((c, c + 4))
        } else {
            Some((l, l + 2))
        },
        (Some(l), None) => Some((l, l + 2)),
        (None, Some(c)) => Some((c, c + 4)),
        (None, None) => None,
    }
}

/// A line without its trailing carriage returns.
pub open spec fn strip_cr_end(l: Seq<char>) -> Seq<char>
    decreases l.len(),
{
    if l.len() > 0 && l.last() == '\r' {
        strip_cr_end(l.drop_last())
    } else {
        l
    }
}

/// The payload of a `data:` line (one space after the colon is dropped).
pub open spec fn line_data(line: Seq<char>) -> Option<Seq<char>> {
    let l = strip_cr_end(line);
    if starts_with(l, data_field()) {
        let d = l.skip(5);
        Some(
            if d.len() > 0 && d[0] == ' ' {
                d.skip(1)
            } else {
                d
            },
        )
    } else {
        None
    }
}

pub open spec fn opt_seq(o: Option<Seq<char>>) -> Seq<Seq<char>> {
    match o {
        Some(d) => seq![d],
        None => Seq::empty(),
    }
}

/// The payloads of the `data:` lines of an event, in order.
pub open spec fn data_lines(s: Seq<char>) -> Seq<Seq<char>>
    decreases s.len(),
{
    match first_occ(s, lf()) {
        Some(k) => {
            if 0 <= k < s.len() {
                opt_seq(line_data(s.take(k))) + data_lines(s.skip(k + 1))
            } else {
                Seq::empty()
            }
        },
        None => opt_seq(line_data(s)),
    }
}

/// Lines joined by `'\n'`.
pub open spec fn join_lf(ls: Seq<Seq<char>>) -> Seq<char>
    decreases ls.len(),
{
    if ls.len() == 0 {
        Seq::empty()
    } else if ls.len() == 1 {
        ls[0]
    } else {
        join_lf(ls.drop_last()) + lf() + ls.last()
    }
}

/// What one event yields: nothing without data lines, else their join.
pub open spec fn event_payloads(event: Seq<char>) -> Seq<Seq<char>> {
    if data_lines(event).len() == 0 {
        Seq::empty()
    } else {
        seq![join_lf(data_lines(event))]
    }
}

/// Decoding a buffer: the payloads of its complete events, and the text
/// left over after them.
pub open spec fn decode(s: Seq<char>) -> (Seq<Seq<char>>, Seq<char>)
    decreases s.len(),
{
    match event_boundary(s) {
        Some((e, r)) => {
            if 0 <= e <= r <= s.len() && 0 < r {
                let d = decode(s.skip(r));
                (event_payloads(s.take(e)) + d.0, d.1)
            } else {
                (Seq::empty(), s)
            }
        },
        None => (Seq::empty(), s),
    }
}

pub proof fn lemma_event_boundary(s: Seq<char>)
    ensures
        event_boundary(s) matches Some((e, r)) ==> 0 <= e < r <= s.len(),
{
    lemma_first_occ_from(s, lf_lf(), 0);
    lemma_first_occ_from(s, crlf_crlf(), 0);
}

pub open spec fn view_strings(v: Seq<String>) -> Seq<Seq<char>> {
    v.map_values(|x: String| x@)
}

/// Streaming decoder of server-sent events.
pub struct SseDecoder {
    buffer: Vec<char>,
}

impl View for SseDecoder {
    type V = Seq<char>;

    /// The text received but not yet part of a complete event.
    closed spec fn view(&self) -> Seq<char> {
        self.buffer@
    }
}

impl Default for SseDecoder {
    fn default() -> (d: Self)
        ensures
            d@ == Seq::<char>::empty(),
    {
        SseDecoder { buffer: Vec::new() }
    }
}

impl SseDecoder {
    /// Appends a chunk and returns the payloads of the events it completes.
    pub fn push_str(&mut self, text: &str) -> (events: Vec<String>)
        ensures
            view_strings(events@) == decode(old(self)@ + text@).0,
            final(self)@ == decode(old(self)@ + text@).1,
    {
        let t = str_chars(text);
        extend_chars(&mut self.buffer, &t);
        let ghost whole = self.buffer@;
        let mut events: Vec<String> = Vec::new();
        assert(whole == old(self)@ + text@);
        loop
            invariant
                decode(whole) == (view_strings(events@) + decode(self.buffer@).0, decode(
                    self.buffer@,
                ).1),
            ensures
                view_strings(events@) == decode(whole).0,
                self.buffer@ == decode(whole).1,
            decreases self.buffer@.len(),
        {
            match split_next_event(&self.buffer) {
                Some((event, rest)) => {
                    proof {
                        lemma_event_boundary(self.buffer@);
                    }
                    let ghost old_events = events@;
                    let ghost old_buf = self.buffer@;
                    let mut payloads = extract_data_events(&event);
                    events.append(&mut payloads);
                    assert(view_strings(events@) =~= view_strings(old_events) + event_payloads(
                        event@,
                    ));
                    self.buffer = rest;
                    assert(view_strings(events@) + decode(self.buffer@).0 =~= view_strings(
                        old_events,
                    ) + decode(old_buf).0);
                },
                None => {
                    assert(decode(self.buffer@).0 =~= Seq::<Seq<char>>::empty());
                    assert(view_strings(events@) + decode(self.buffer@).0 =~= view_strings(
                        events@,
                    ));
                    break ;
                },
            }
        }
        events
    }

    /// Ends the stream: whatever is buffered is decoded as a final event,
    /// unless it is only whitespace.
    pub fn finish(&mut self) -> (events: Vec<String>)
        ensures
            is_blank(old(self)@) ==> events@.len() == 0,
            !is_blank(old(self)@) ==> view_strings(events@) == event_payloads(old(self)@),
            final(self)@ == Seq::<char>::empty(),
    {
        if blank(&self.buffer) {
            self.buffer = Vec::new();
            return Vec::new();
        }
        let mut event: Vec<char> = Vec::new();
        std::mem::swap(&mut event, &mut self.buffer);
        extract_data_events(&event)
    }
}

/// Splits off the next complete event: its text and the text after its
/// terminator.
fn split_next_event(buffer: &[char]) -> (r: Option<(Vec<char>, Vec<char>)>)
    ensures
        r matches Some((event, rest)) ==> event_boundary(buffer@) matches Some((e, n)) && event@
            == buffer@.take(e) && rest@ == buffer@.skip(n),
        r is None ==> event_boundary(buffer@) is None,
{
    let lf_pattern: Vec<char> = vec!['\n', '\n'];
    let crlf_pattern: Vec<char> = vec!['\r', '\n', '\r', '\n'];
    assert(lf_pattern@ == lf_lf());
    assert(crlf_pattern@ == crlf_crlf());
    assert(lf_lf().len() == 2);
    assert(crlf_crlf().len() == 4);
    let lf_lf_at = find(buffer, &lf_pattern);
    let crlf_crlf_at = find(buffer, &crlf_pattern);
    proof {
        lemma_first_occ_from(buffer@, lf_lf(), 0);
        lemma_first_occ_from(buffer@, crlf_crlf(), 0);
    }
    match (lf_lf_at, crlf_crlf_at) {
        (Some(l), Some(c)) => {
            assert(occurs_at(buffer@, lf_lf(), l as int));
            assert(occurs_at(buffer@, crlf_crlf(), c as int));
            assert(c + 4 <= buffer.len());
            assert(l + 2 <= buffer.len());
            if c <= l {
                Some((sub_chars(buffer, 0, c), sub_chars(buffer, c + 4, buffer.len())))
            } else {
                Some((sub_chars(buffer, 0, l), sub_chars(buffer, l + 2, buffer.len())))
            }
        },
        (Some(l), None) => {
            assert(occurs_at(buffer@, lf_lf(), l as int));
            assert(l + 2 <= buffer.len());
            Some((sub_chars(buffer, 0, l), sub_chars(buffer, l + 2, buffer.len())))
        },
        (None, Some(c)) => {
            assert(occurs_at(buffer@, crlf_crlf(), c as int));
            Some((sub_chars(buffer, 0, c), sub_chars(buffer, c + 4, buffer.len())))
        },
        (None, None) => None,
    }
}

/// A line without its trailing carriage returns.
fn trim_cr_end(line: &[char]) -> (r: Vec<char>)
    ensures
        r@ == strip_cr_end(line@),
{
    let mut j = line.len();
    assert(line@.take(j as int) == line@);
    while j > 0 && line[j - 1] == '\r'
        invariant
            j <= line.len(),
            strip_cr_end(line@) == strip_cr_end(line@.take(j as int)),
        decreases j,
    {
        assert(line@.take(j as int).drop_last() == line@.take(j - 1));
        j -= 1;
    }
    assert(line@.take(j as int) == line@.subrange(0, j as int));
    sub_chars(line, 0, j)
}

/// The payload of a `data:` line, if it is one.
fn data_of_line(line: &[char]) -> (r: Option<Vec<char>>)
    ensures
        r matches Some(d) ==> line_data(line@) == Some(d@),
        r is None ==> line_data(line@) is None,
{
    let l = trim_cr_end(line);
    let prefix: Vec<char> = vec!['d', 'a', 't', 'a', ':'];
    assert(prefix@ == data_field());
    if has_prefix(&l, &prefix) {
        if l.len() > 5 && l[5] == ' ' {
            Some(sub_chars(&l, 6, l.len()))
        } else {
            Some(sub_chars(&l, 5, l.len()))
        }
    } else {
        None
    }
}

/// The payloads an event yields.
fn extract_data_events(event: &[char]) -> (r: Vec<String>)
    ensures
        view_strings(r@) == event_payloads(event@),
{
    let mut datas: Vec<Vec<char>> = Vec::new();
    let mut cur: Vec<char> = sub_chars(event, 0, event.len());
    assert(event@.subrange(0, event.len() as int) == event@);
    let newline: Vec<char> = vec!['\n'];
    assert(newline@ == lf());
    loop
        invariant_except_break
            newline@ == lf(),
            data_lines(event@) == datas@.map_values(|d: Vec<char>| d@) + data_lines(cur@),
        ensures
            data_lines(event@) == datas@.map_values(|d: Vec<char>| d@),
        decreases cur@.len(),
    {
        let ghost before = datas@.map_values(|d: Vec<char>| d@);
        match find(&cur, &newline) {
            Some(k) => {
                proof {
                    lemma_first_occ_from(cur@, lf(), 0);
                }
                assert(occurs_at(cur@, lf(), k as int));
                assert(lf().len() == 1);
                assert(k + 1 <= cur.len());
                let line = sub_chars(&cur, 0, k);
                assert(line@ == cur@.take(k as int));
                match data_of_line(&line) {
                    Some(d) => {
                        datas.push(d);
                    },
                    None => {},
                }
                assert(datas@.map_values(|d: Vec<char>| d@) =~= before + opt_seq(
                    line_data(cur@.take(k as int)),
                ));
                let next = sub_chars(&cur, k + 1, cur.len());
                assert(next@ == cur@.skip(k + 1));
                cur = next;
            },
            None => {
                match data_of_line(&cur) {
                    Some(d) => {
                        datas.push(d);
                    },
                    None => {},
                }
                assert(datas@.map_values(|d: Vec<char>| d@) =~= before + data_lines(cur@));
                break ;
            },
        }
    }
    let ghost lines = datas@.map_values(|d: Vec<char>| d@);
    assert(data_lines(event@) == lines);
    let mut out: Vec<String> = Vec::new();
    if datas.len() == 0 {
        assert(view_strings(out@) =~= event_payloads(event@));
        return out;
    }
    let mut joined: Vec<char> = Vec::new();
    extend_chars(&mut joined, &datas[0]);
    assert(lines.take(1) =~= seq![lines[0]]);
    let mut i: usize = 1;
    while i < datas.len()
        invariant
            1 <= i <= datas.len(),
            lines == datas@.map_values(|d: Vec<char>| d@),
            joined@ == join_lf(lines.take(i as int)),
        decreases datas.len() - i,
    {
        joined.push('\n');
        extend_chars(&mut joined, &datas[i]);
        assert(lines.take((i + 1) as int).drop_last() =~= lines.take(i as int));
        i += 1;
    }
    assert(lines.take(datas.len() as int) =~= lines);
    out.push(chars_to_string(&joined));
    assert(view_strings(out@) =~= event_payloads(event@));
    out
}

// ---------------------------------------------------------------------------
// Chunking does not change what is decoded
// ---------------------------------------------------------------------------

/// A first occurrence in `a` stays the first occurrence once text is
/// appended after `a`.
proof fn lemma_first_occ_append(a: Seq<char>, b: Seq<char>, p: Seq<char>)
    requires
        first_occ(a, p) is Some,
    ensures
        first_occ(a + b, p) == first_occ(a, p),
{
    let k = first_occ(a, p)->0;
    lemma_first_occ_from(a, p, 0);
    assert(occurs_at(a, p, k));
    assert(forall|j: int| 0 <= j < k ==> !occurs_at(a, p, j));
    assert((a + b).subrange(k, k + p.len()) =~= a.subrange(k, k + p.len()));
    assert forall|j: int| 0 <= j < k implies !occurs_at(a + b, p, j) by {
        if occurs_at(a + b, p, j) {
            if j + p.len() <= a.len() {
                assert((a + b).subrange(j, j + p.len()) =~= a.subrange(j, j + p.len()));
                assert(occurs_at(a, p, j));
            } else {
                assert(k + p.len() <= a.len());
            }
        }
    }
    lemma_first_occ_intro(a + b, p, 0, k);
}

/// A complete event in `a` is split off the same way from `a + b`.
proof fn lemma_boundary_append(a: Seq<char>, b: Seq<char>)
    requires
        event_boundary(a) is Some,
    ensures
        event_boundary(a + b) == event_boundary(a),
{
    let ab = a + b;
    lemma_first_occ_from(a, lf_lf(), 0);
    lemma_first_occ_from(a, crlf_crlf(), 0);
    lemma_first_occ_from(ab, lf_lf(), 0);
    lemma_first_occ_from(ab, crlf_crlf(), 0);
    match (first_occ(a, lf_lf()), first_occ(a, crlf_crlf())) {
        (Some(l), Some(c)) => {
            lemma_first_occ_append(a, b, lf_lf());
            lemma_first_occ_append(a, b, crlf_crlf());
        },
        (Some(l), None) => {
            lemma_first_occ_append(a, b, lf_lf());
            assert(a.subrange(l, l + 2) == lf_lf());
            assert(a[l] == '\n' && a[l + 1] == '\n');
            if let Some(c) = first_occ(ab, crlf_crlf()) {
                if c <= l {
                    assert(ab.subrange(c, c + 4) == crlf_crlf());
                    assert(ab[c] == '\r');
                    if c + 4 <= a.len() {
                        assert(ab.subrange(c, c + 4) =~= a.subrange(c, c + 4));
                        assert(occurs_at(a, crlf_crlf(), c));
                    } else {
                        assert(ab[c + 2] == '\r');
                        assert(ab[c] == a[c]);
                        if c + 2 < a.len() {
                            assert(ab[c + 2] == a[c + 2]);
                        }
                    }
                }
            }
        },
        (None, Some(c)) => {
            lemma_first_occ_append(a, b, crlf_crlf());
            if let Some(l) = first_occ(ab, lf_lf()) {
                if l < c {
                    if l + 2 <= a.len() {
                        assert(ab.subrange(l, l + 2) =~= a.subrange(l, l + 2));
                        assert(occurs_at(a, lf_lf(), l));
                    }
                }
            }
        },
        (None, None) => {},
    }
}

/// Decoding `a + b` is decoding `a`, then decoding what `a` left over
/// followed by `b`.
pub proof fn lemma_decode_append(a: Seq<char>, b: Seq<char>)
    ensures
        decode(a + b) == ({
            let (e1, r1) = decode(a);
            let (e2, r2) = decode(r1 + b);
            (e1 + e2, r2)
        }),
    decreases a.len(),
{
    lemma_event_boundary(a);
    match event_boundary(a) {
        Some((e, r)) => {
            lemma_boundary_append(a, b);
            let ab = a + b;
            assert(ab.take(e) =~= a.take(e));
            assert(ab.skip(r) =~= a.skip(r) + b);
            lemma_decode_append(a.skip(r), b);
            let (e1, r1) = decode(a.skip(r));
            let (e2, r2) = decode(r1 + b);
            assert(event_payloads(a.take(e)) + (e1 + e2) =~= (event_payloads(a.take(e)) + e1)
                + e2);
        },
        None => {
            assert(decode(a) == (Seq::<Seq<char>>::empty(), a));
            let (e2, r2) = decode(a + b);
            assert(Seq::<Seq<char>>::empty() + e2 =~= e2);
        },
    }
}

/// Splitting the stream into chunks does not change what is decoded:
/// pushing `a` and then `b` yields, in order, the same events as pushing
/// `a + b` at once, and leaves the same text buffered.
pub proof fn law_push_chunking(buffered: Seq<char>, a: Seq<char>, b: Seq<char>)
    ensures
        ({
            let (e1, r1) = decode(buffered + a);
            let (e2, r2) = decode(r1 + b);
            let (e, r) = decode(buffered + (a + b));
            e == e1 + e2 && r == r2
        }),
{
    lemma_decode_append(buffered + a, b);
    assert(buffered + (a + b) =~= (buffered + a) + b);
}

} // verus!
