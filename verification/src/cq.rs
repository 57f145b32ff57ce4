//! CQ codes: the string form of messages, where `[CQ:type,key=value,...]` stands for a segment
//! and the text around the codes stands for text segments.
use vstd::prelude::*;
use crate::json::{Json, JsonV, JsonEntry, entries_view, lemma_entries_view, obj_insert, object_insert, str_eq, key_index, insert_pos, key_lt, first_key_at};
use crate::message::{Message, Segment, SegmentV, seg_views, seg1, text_seg, text_segment, segment_of};
use crate::text::{str_chars, string_from_chars, string_push_str, decimal, spec_decimal, spec_digits, digit_char, join};

verus! {

/// A message in CQ-code string form.
#[derive(Debug)]
pub struct CQMessage(pub String);

impl View for CQMessage {
    type V = Seq<char>;

    open spec fn view(&self) -> Seq<char> {
        self.0@
    }
}

/// A letter of a CQ code's type name.
pub open spec fn is_letter(c: char) -> bool {
    ('a' <= c && c <= 'z') || ('A' <= c && c <= 'Z')
}

/// The end of the run of letters that starts at `i`.
pub open spec fn letters_end(t: Seq<char>, i: int) -> int
    decreases t.len() - i,
{
    if 0 <= i < t.len() && is_letter(t[i]) {
        letters_end(t, i + 1)
    } else {
        i
    }
}

/// The position of the first `]` at or after `i`, or the length of `t` if there is none.
pub open spec fn close_at(t: Seq<char>, i: int) -> int
    decreases t.len() - i,
{
    if 0 <= i < t.len() && t[i] != ']' {
        close_at(t, i + 1)
    } else {
        i
    }
}

/// `[CQ:` stands at position `i`.
pub open spec fn opens_at(t: Seq<char>, i: int) -> bool {
    0 <= i && i + 4 <= t.len() && t[i] == '[' && t[i + 1] == 'C' && t[i + 2] == 'Q' && t[i + 3] == ':'
}

/// The end (one past the `]`) of the CQ code that starts at `i`, if one does: `[CQ:`, one or
/// more letters, then `]`, or `,` and one or more characters other than `]` and then `]`.
pub open spec fn code_end(t: Seq<char>, i: int) -> Option<int> {
    if !opens_at(t, i) {
        None
    } else {
        let e = letters_end(t, i + 4);
        if e == i + 4 || e >= t.len() {
            None
        } else if t[e] == ']' {
            Some(e + 1)
        } else if t[e] == ',' {
            let k = close_at(t, e + 1);
            if e + 1 < k && k < t.len() {
                Some(k + 1)
            } else {
                None
            }
        } else {
            None
        }
    }
}

/// The start of the first CQ code at or after `from`.
pub open spec fn next_code(t: Seq<char>, from: int) -> Option<int>
    decreases t.len() - from,
{
    if from < 0 || from >= t.len() {
        None
    } else if code_end(t, from) is Some {
        Some(from)
    } else {
        next_code(t, from + 1)
    }
}

/// `p` without its leading commas.
pub open spec fn trim_commas(p: Seq<char>) -> Seq<char>
    decreases p.len(),
{
    if p.len() > 0 && p[0] == ',' {
        trim_commas(p.drop_first())
    } else {
        p
    }
}

/// The pieces of `s` between the characters `c` (one piece more than there are `c`).
pub open spec fn split_on(s: Seq<char>, c: char) -> Seq<Seq<char>>
    decreases s.len(),
{
    if s.len() == 0 {
        seq![Seq::empty()]
    } else {
        let r = split_on(s.drop_last(), c);
        if s.last() == c {
            r.push(Seq::empty())
        } else {
            r.update(r.len() - 1, r.last().push(s.last()))
        }
    }
}

/// The position of the first `=` in `p`, or its length if there is none.
pub open spec fn eq_pos(p: Seq<char>) -> int
    decreases p.len(),
{
    if p.len() == 0 {
        0
    } else {
        let q = eq_pos(p.drop_last());
        if q < p.len() - 1 {
            q
        } else if p.last() == '=' {
            p.len() - 1
        } else {
            p.len() as int
        }
    }
}

/// The key and value of one parameter: the text before its first `=` and the text after it
/// (empty when there is no `=`).
pub open spec fn param_entry(p: Seq<char>) -> (Seq<char>, JsonV) {
    let q = eq_pos(p);
    if q < p.len() {
        (p.take(q), JsonV::Str(p.skip(q + 1)))
    } else {
        (p, JsonV::Str(Seq::empty()))
    }
}

/// The data object of a list of parameters, each set in turn.
pub open spec fn params_obj(ps: Seq<Seq<char>>) -> Seq<(Seq<char>, JsonV)>
    decreases ps.len(),
{
    if ps.len() == 0 {
        Seq::empty()
    } else {
        obj_insert(params_obj(ps.drop_last()), param_entry(ps.last()).0, param_entry(ps.last()).1)
    }
}

/// The segment of the CQ code that starts at `s`.
pub open spec fn code_seg(t: Seq<char>, s: int) -> SegmentV {
    let e = letters_end(t, s + 4);
    let data = if t[e] == ',' {
        params_obj(split_on(trim_commas(t.subrange(e, close_at(t, e + 1))), ','))
    } else {
        Seq::empty()
    };
    SegmentV { type_: t.subrange(s + 4, e), data: JsonV::Object(data) }
}

/// The text segment of `t[from..to]`, if that text is not empty.
pub open spec fn gap(t: Seq<char>, from: int, to: int) -> Seq<SegmentV> {
    if from < to {
        seq![text_seg(t.subrange(from, to))]
    } else {
        Seq::empty()
    }
}

/// The segments of the CQ string `t` from position `from` on.
pub open spec fn cq_segs(t: Seq<char>, from: int) -> Seq<SegmentV>
    decreases t.len() - from,
{
    if 0 <= from <= t.len() {
        match next_code(t, from) {
            None => gap(t, from, t.len() as int),
            Some(s) => {
                let x = code_end(t, s)->0;
                if from < x <= t.len() {
                    gap(t, from, s) + seq![code_seg(t, s)] + cq_segs(t, x)
                } else {
                    Seq::empty()
                }
            },
        }
    } else {
        Seq::empty()
    }
}

/// The `key=value` texts of the string-valued entries of an object, in order.
pub open spec fn param_texts(es: Seq<(Seq<char>, JsonV)>) -> Seq<Seq<char>>
    decreases es.len(),
{
    if es.len() == 0 {
        Seq::empty()
    } else {
        let r = param_texts(es.drop_last());
        match es.last().1 {
            JsonV::Str(v) => r.push(es.last().0 + "="@ + v),
            _ => r,
        }
    }
}

/// The CQ text of one segment: a text segment's text (nothing if it has no string `text`);
/// for another segment, `[CQ:type,k=v,...]` over its string entries, or `[CQ:type]` when it
/// has none.
pub open spec fn code_text(s: SegmentV) -> Seq<char> {
    if s.type_ == "text"@ {
        match JsonV::str_of(s.data.get("text"@)) {
            Some(t) => t,
            None => Seq::empty(),
        }
    } else {
        let ps = param_texts(s.data->Object_0);
        if ps.len() > 0 {
            "[CQ:"@ + s.type_ + ","@ + join(ps, ","@) + "]"@
        } else {
            "[CQ:"@ + s.type_ + "]"@
        }
    }
}

/// The CQ text of a message: each segment's CQ text, in order.
pub open spec fn cq_text(s: Seq<SegmentV>) -> Seq<char>
    decreases s.len(),
{
    if s.len() == 0 {
        Seq::empty()
    } else {
        cq_text(s.drop_last()) + code_text(s.last())
    }
}

/// Every segment other than a text segment has an object as data.
pub open spec fn codes_have_objects(s: Seq<SegmentV>) -> bool {
    forall|i: int| 0 <= i < s.len() && s[i].type_ != "text"@ ==> (#[trigger] s[i].data) is Object
}

proof fn lemma_letters_end(t: Seq<char>, i: int)
    requires
        0 <= i,
    ensures
        i <= letters_end(t, i),
        letters_end(t, i) <= t.len() || letters_end(t, i) == i,
        forall|j: int| i <= j < letters_end(t, i) ==> is_letter(t[j]),
        letters_end(t, i) < t.len() ==> !is_letter(t[letters_end(t, i)]),
    decreases t.len() - i,
{
    if 0 <= i < t.len() && is_letter(t[i]) {
        lemma_letters_end(t, i + 1);
    }
}

proof fn lemma_close_at(t: Seq<char>, i: int)
    requires
        0 <= i,
    ensures
        i <= close_at(t, i),
        close_at(t, i) <= t.len() || close_at(t, i) == i,
        forall|j: int| i <= j < close_at(t, i) ==> t[j] != ']',
        close_at(t, i) < t.len() ==> t[close_at(t, i)] == ']',
    decreases t.len() - i,
{
    if 0 <= i < t.len() && t[i] != ']' {
        lemma_close_at(t, i + 1);
    }
}

proof fn lemma_code_end(t: Seq<char>, i: int)
    requires
        code_end(t, i) is Some,
    ensures
        i + 6 <= code_end(t, i)->0 <= t.len(),
        letters_end(t, i + 4) < t.len(),
{
    lemma_letters_end(t, i + 4);
    let e = letters_end(t, i + 4);
    if t[e] == ',' {
        lemma_close_at(t, e + 1);
    }
}

proof fn lemma_next_code(t: Seq<char>, from: int)
    requires
        0 <= from,
    ensures
        match next_code(t, from) {
            Some(s) => from <= s < t.len() && code_end(t, s) is Some
                && forall|j: int| from <= j < s ==> code_end(t, j) is None,
            None => forall|j: int| from <= j < t.len() ==> code_end(t, j) is None,
        },
    decreases t.len() - from,
{
    if from < t.len() && code_end(t, from) is None {
        lemma_next_code(t, from + 1);
    }
}

/// The end of the run of letters that starts at `i`.
fn letters_end_exec(t: &Vec<char>, i: usize) -> (r: usize)
    requires
        i <= t@.len(),
    ensures
        r == letters_end(t@, i as int),
        i <= r <= t@.len(),
{
    let mut j = i;
    while j < t.len() && ((t[j] >= 'a' && t[j] <= 'z') || (t[j] >= 'A' && t[j] <= 'Z'))
        invariant
            i <= j <= t@.len(),
            letters_end(t@, i as int) == letters_end(t@, j as int),
        decreases t@.len() - j,
    {
        j = j + 1;
    }
    j
}

/// The position of the first `]` at or after `i`, or the length of `t`.
fn close_at_exec(t: &Vec<char>, i: usize) -> (r: usize)
    requires
        i <= t@.len(),
    ensures
        r == close_at(t@, i as int),
        i <= r <= t@.len(),
{
    let mut j = i;
    while j < t.len() && t[j] != ']'
        invariant
            i <= j <= t@.len(),
            close_at(t@, i as int) == close_at(t@, j as int),
        decreases t@.len() - j,
    {
        j = j + 1;
    }
    j
}

/// The end of the CQ code that starts at `i`, if one does.
fn code_end_exec(t: &Vec<char>, i: usize) -> (r: Option<usize>)
    requires
        i <= t@.len(),
    ensures
        match r {
            Some(x) => code_end(t@, i as int) == Some(x as int),
            None => code_end(t@, i as int) is None,
        },
{
    if !(t.len() - i >= 4 && t[i] == '[' && t[i + 1] == 'C' && t[i + 2] == 'Q' && t[i + 3] == ':') {
        return None;
    }
    let e = letters_end_exec(t, i + 4);
    if e == i + 4 || e >= t.len() {
        None
    } else if t[e] == ']' {
        Some(e + 1)
    } else if t[e] == ',' {
        let k = close_at_exec(t, e + 1);
        if e + 1 < k && k < t.len() {
            Some(k + 1)
        } else {
            None
        }
    } else {
        None
    }
}

/// The start of the first CQ code at or after `from`.
fn next_code_exec(t: &Vec<char>, from: usize) -> (r: Option<usize>)
    requires
        from <= t@.len(),
    ensures
        match r {
            Some(s) => next_code(t@, from as int) == Some(s as int),
            None => next_code(t@, from as int) is None,
        },
{
    let mut s = from;
    while s < t.len()
        invariant
            from <= s <= t@.len(),
            next_code(t@, from as int) == next_code(t@, s as int),
        decreases t@.len() - s,
    {
        match code_end_exec(t, s) {
            Some(_) => return Some(s),
            None => {},
        }
        s = s + 1;
    }
    None
}

proof fn lemma_trim_commas(p: Seq<char>, n: int)
    requires
        0 <= n <= p.len(),
        forall|j: int| 0 <= j < n ==> p[j] == ',',
        n == p.len() || p[n] != ',',
    ensures
        trim_commas(p) == p.skip(n),
    decreases n,
{
    if n > 0 {
        assert(p.drop_first().skip(n - 1) =~= p.skip(n));
        lemma_trim_commas(p.drop_first(), n - 1);
    } else {
        assert(p.skip(0) =~= p);
    }
}

proof fn lemma_params_push(done: Seq<Seq<char>>, piece: Seq<char>)
    ensures
        params_obj(done.push(piece)) == obj_insert(params_obj(done), param_entry(piece).0, param_entry(piece).1),
{
    assert(done.push(piece).drop_last() =~= done);
}

proof fn lemma_split_step(t: Seq<char>, j: int, ps: int, idx: int, done: Seq<Seq<char>>)
    requires
        0 <= j <= ps <= idx < t.len(),
        split_on(t.subrange(j, idx), ',') == done.push(t.subrange(ps, idx)),
    ensures
        t[idx] == ',' ==> split_on(t.subrange(j, idx + 1), ',') == done.push(t.subrange(ps, idx)).push(Seq::empty()),
        t[idx] != ',' ==> split_on(t.subrange(j, idx + 1), ',') == done.push(t.subrange(ps, idx + 1)),
{
    let before = t.subrange(j, idx);
    assert(t.subrange(j, idx + 1).drop_last() =~= before);
    assert(t.subrange(j, idx + 1).last() == t[idx]);
    if t[idx] != ',' {
        let r = done.push(t.subrange(ps, idx));
        assert(t.subrange(ps, idx + 1) =~= t.subrange(ps, idx).push(t[idx]));
        assert(r.update(r.len() - 1, r.last().push(t[idx])) =~= done.push(t.subrange(ps, idx + 1)));
    }
}

proof fn lemma_eq_pos_step(t: Seq<char>, ps: int, idx: int)
    requires
        0 <= ps <= idx < t.len(),
    ensures
        eq_pos(t.subrange(ps, idx + 1)) == if eq_pos(t.subrange(ps, idx)) < idx - ps {
            eq_pos(t.subrange(ps, idx))
        } else if t[idx] == '=' {
            idx - ps
        } else {
            idx + 1 - ps
        },
{
    assert(t.subrange(ps, idx + 1).drop_last() =~= t.subrange(ps, idx));
    lemma_eq_pos_bound(t.subrange(ps, idx));
}

proof fn lemma_eq_pos_bound(p: Seq<char>)
    ensures
        0 <= eq_pos(p) <= p.len(),
    decreases p.len(),
{
    if p.len() > 0 {
        lemma_eq_pos_bound(p.drop_last());
    }
}

/// The data object of the parameters `t[from..to]` (leading commas dropped, split at commas).
fn params_exec(t: &Vec<char>, from: usize, to: usize) -> (r: Vec<JsonEntry>)
    requires
        from <= to <= t@.len(),
    ensures
        entries_view(r@) == params_obj(split_on(trim_commas(t@.subrange(from as int, to as int)), ',')),
{
    let ghost p = t@.subrange(from as int, to as int);
    let mut j = from;
    while j < to && t[j] == ','
        invariant
            from <= j <= to <= t@.len(),
            forall|m: int| from <= m < j ==> t@[m] == ',',
        decreases to - j,
    {
        j = j + 1;
    }
    proof {
        lemma_trim_commas(p, j - from);
        assert(p.skip(j - from) =~= t@.subrange(j as int, to as int));
    }
    let ghost q = t@.subrange(j as int, to as int);
    let mut es: Vec<JsonEntry> = Vec::new();
    let ghost mut done: Seq<Seq<char>> = Seq::empty();
    let mut ps = j;
    let mut eq: usize = j;
    let mut seen_eq = false;
    let mut idx = j;
    proof {
        assert(q.subrange(0, 0) =~= Seq::<char>::empty());
        assert(t@.subrange(ps as int, idx as int) =~= Seq::<char>::empty());
    }
    while idx < to
        invariant
            j <= ps <= idx <= to <= t@.len(),
            q == t@.subrange(j as int, to as int),
            split_on(t@.subrange(j as int, idx as int), ',') == done.push(t@.subrange(ps as int, idx as int)),
            entries_view(es@) == params_obj(done),
            seen_eq ==> ps <= eq < idx && eq_pos(t@.subrange(ps as int, idx as int)) == eq - ps,
            !seen_eq ==> eq_pos(t@.subrange(ps as int, idx as int)) == idx - ps,
        decreases to - idx,
    {
        let c = t[idx];
        let ghost before = t@.subrange(j as int, idx as int);
        let ghost piece = t@.subrange(ps as int, idx as int);
        proof { lemma_split_step(t@, j as int, ps as int, idx as int, done); }
        if c == ',' {
            finish_param(t, &mut es, ps, idx, eq, seen_eq);
            proof {
                lemma_params_push(done, piece);
                done = done.push(piece);
            }
            ps = idx + 1;
            seen_eq = false;
            eq = idx + 1;
            assert(t@.subrange(ps as int, idx + 1) =~= Seq::<char>::empty());
        } else {
            proof { lemma_eq_pos_step(t@, ps as int, idx as int); }
            if !seen_eq && c == '=' {
                seen_eq = true;
                eq = idx;
            }
        }
        idx = idx + 1;
    }
    finish_param(t, &mut es, ps, idx, eq, seen_eq);
    proof {
        lemma_params_push(done, t@.subrange(ps as int, idx as int));
    }
    es
}

/// Sets the parameter `t[ps..pe]` (its first `=` at `eq` when `seen_eq`) in `es`.
fn finish_param(t: &Vec<char>, es: &mut Vec<JsonEntry>, ps: usize, pe: usize, eq: usize, seen_eq: bool)
    requires
        ps <= pe <= t@.len(),
        seen_eq ==> ps <= eq < pe && eq_pos(t@.subrange(ps as int, pe as int)) == eq - ps,
        !seen_eq ==> eq_pos(t@.subrange(ps as int, pe as int)) == pe - ps,
    ensures
        entries_view(final(es)@) == obj_insert(
            entries_view(old(es)@),
            param_entry(t@.subrange(ps as int, pe as int)).0,
            param_entry(t@.subrange(ps as int, pe as int)).1,
        ),
{
    let ghost p = t@.subrange(ps as int, pe as int);
    if seen_eq {
        let key = string_from_chars(t, ps, eq);
        let value = string_from_chars(t, eq + 1, pe);
        assert(key@ =~= p.take(eq - ps));
        assert(value@ =~= p.skip(eq - ps + 1));
        object_insert(es, key, Json::Str(value));
    } else {
        let key = string_from_chars(t, ps, pe);
        let value = String::new();
        object_insert(es, key, Json::Str(value));
    }
}

/// The segment of the CQ code that starts at `s`.
fn code_segment(t: &Vec<char>, s: usize) -> (r: Segment)
    requires
        s <= t@.len(),
        code_end(t@, s as int) is Some,
    ensures
        r@ == code_seg(t@, s as int),
{
    proof { lemma_code_end(t@, s as int); }
    let n = t.len();
    assert(s + 6 <= n);
    let e = letters_end_exec(t, s + 4);
    assert(e < t@.len());
    let name = string_from_chars(t, s + 4, e);
    let data = if t[e] == ',' {
        let k = close_at_exec(t, e + 1);
        params_exec(t, e, k)
    } else {
        Vec::new()
    };
    proof { lemma_entries_view(data@); }
    Segment { type_: name, data: Json::Object(data) }
}

/// The message that a CQ string stands for: each CQ code as a segment of its type with its
/// parameters as string data, the text around the codes as text segments.
pub fn cq_to_arr(message: CQMessage) -> (r: Message)
    ensures
        r@ == cq_segs(message@, 0),
{
    let t = str_chars(message.0.as_str());
    let ghost tv = t@;
    let mut out: Vec<Segment> = Vec::new();
    let mut last: usize = 0;
    loop
        invariant
            t@ == tv,
            tv == message@,
            last <= t@.len(),
            seg_views(out@) + cq_segs(tv, last as int) == cq_segs(tv, 0),
        decreases t@.len() - last,
    {
        proof { lemma_next_code(tv, last as int); }
        match next_code_exec(&t, last) {
            None => {
                if last < t.len() {
                    let text = string_from_chars(&t, last, t.len());
                    out.push(text_segment(text.as_str()));
                }
                assert(seg_views(out@) =~= cq_segs(tv, 0));
                return Message(out);
            },
            Some(s) => {
                proof { lemma_code_end(tv, s as int); }
                let end = match code_end_exec(&t, s) {
                    Some(x) => x,
                    None => 0,
                };
                let ghost mid = gap(tv, last as int, s as int) + seq![code_seg(tv, s as int)];
                assert(cq_segs(tv, last as int) == mid + cq_segs(tv, end as int));
                let ghost before = seg_views(out@);
                if last < s {
                    let text = string_from_chars(&t, last, s);
                    out.push(text_segment(text.as_str()));
                }
                out.push(code_segment(&t, s));
                assert(seg_views(out@) =~= before + mid);
                assert(seg_views(out@) + cq_segs(tv, end as int) =~= before + (mid + cq_segs(tv, end as int)));
                last = end;
            },
        }
    }
}

/// The CQ text of one segment (see `code_text`).
pub fn parse_cq_code(item: &Segment) -> (r: String)
    requires
        item@.type_ != "text"@ ==> item@.data is Object,
    ensures
        r@ == code_text(item@),
{
    let mut result = String::new();
    if str_eq(item.type_.as_str(), "text") {
        match item.data.get("text") {
            Some(t) => match t.as_str() {
                Some(ts) => string_push_str(&mut result, ts),
                None => {},
            },
            None => {},
        }
        assert(result@ =~= code_text(item@));
    } else {
        let es = match &item.data {
            Json::Object(es) => es,
            _ => {
                assert(false);
                return result;
            },
        };
        proof { lemma_entries_view(es@); }
        let ghost ev = entries_view(es@);
        assert(ev == item@.data->Object_0);
        let mut params = String::new();
        let mut count: usize = 0;
        let mut i: usize = 0;
        while i < es.len()
            invariant
                0 <= i <= es@.len(),
                ev == entries_view(es@),
                ev.len() == es@.len(),
                forall|k: int| 0 <= k < es@.len() ==> #[trigger] ev[k] == (es@[k].key@, es@[k].value@),
                count == param_texts(ev.take(i as int)).len(),
                count <= i,
                params@ == join(param_texts(ev.take(i as int)), ","@),
            decreases es@.len() - i,
        {
            assert(ev.take(i + 1).drop_last() =~= ev.take(i as int));
            match &es[i].value {
                Json::Str(v) => {
                    if count > 0 {
                        string_push_str(&mut params, ",");
                    }
                    string_push_str(&mut params, es[i].key.as_str());
                    string_push_str(&mut params, "=");
                    string_push_str(&mut params, v.as_str());
                    proof {
                        let ps = param_texts(ev.take(i + 1));
                        assert(ps == param_texts(ev.take(i as int)).push(es@[i as int].key@ + "="@ + v@));
                        assert(ps.drop_last() == param_texts(ev.take(i as int)));
                        if count > 0 {
                            assert(params@ =~= join(ps, ","@));
                        } else {
                            assert(params@ =~= join(ps, ","@));
                        }
                    }
                    count = count + 1;
                },
                _ => {
                    assert(param_texts(ev.take(i + 1)) == param_texts(ev.take(i as int)));
                },
            }
            i = i + 1;
        }
        assert(ev.take(es@.len() as int) =~= ev);
        string_push_str(&mut result, "[CQ:");
        string_push_str(&mut result, item.type_.as_str());
        if count > 0 {
            string_push_str(&mut result, ",");
            string_push_str(&mut result, params.as_str());
        }
        string_push_str(&mut result, "]");
        assert(result@ =~= code_text(item@));
    }
    result
}

/// The CQ string of a message: each segment's CQ text, in order.
pub fn arr_to_cq(message: Message) -> (r: CQMessage)
    requires
        codes_have_objects(message@),
    ensures
        r@ == cq_text(message@),
{
    let mut result = String::new();
    let mut i: usize = 0;
    while i < message.0.len()
        invariant
            0 <= i <= message@.len(),
            codes_have_objects(message@),
            result@ == cq_text(message@.take(i as int)),
        decreases message@.len() - i,
    {
        assert(message@.take(i + 1).drop_last() =~= message@.take(i as int));
        assert(message@[i as int] == message.0@[i as int]@);
        let code = parse_cq_code(&message.0[i]);
        string_push_str(&mut result, code.as_str());
        i = i + 1;
    }
    assert(message@.take(message@.len() as int) =~= message@);
    CQMessage(result)
}

impl CQMessage {
    /// The CQ string with a text code holding `text` added at the end.
    pub fn add_text(self, text: &str) -> (r: CQMessage)
        ensures
            r@ == self@ + "[CQ:text,text="@ + text@ + "]"@,
    {
        let mut s = self.0;
        string_push_str(&mut s, "[CQ:text,text=");
        string_push_str(&mut s, text);
        string_push_str(&mut s, "]");
        CQMessage(s)
    }

    /// The CQ string with a mention of user `id` added at the end.
    pub fn add_at(self, id: &str) -> (r: CQMessage)
        ensures
            r@ == self@ + "[CQ:at,qq="@ + id@ + "]"@,
    {
        let mut s = self.0;
        string_push_str(&mut s, "[CQ:at,qq=");
        string_push_str(&mut s, id);
        string_push_str(&mut s, "]");
        CQMessage(s)
    }

    /// The CQ string with a quote of message `message_id` put in front.
    pub fn add_reply(self, message_id: i32) -> (r: CQMessage)
        ensures
            r@ == "[CQ:reply,id="@ + spec_decimal(message_id as int) + "]"@ + self@,
    {
        let mut s = String::new();
        string_push_str(&mut s, "[CQ:reply,id=");
        let d = decimal(message_id as i64);
        string_push_str(&mut s, d.as_str());
        string_push_str(&mut s, "]");
        string_push_str(&mut s, self.0.as_str());
        CQMessage(s)
    }

    /// The CQ string with face `id` added at the end.
    pub fn add_face(self, id: i64) -> (r: CQMessage)
        ensures
            r@ == self@ + "[CQ:face,id="@ + spec_decimal(id as int) + "]"@,
    {
        let mut s = self.0;
        string_push_str(&mut s, "[CQ:face,id=");
        let d = decimal(id);
        string_push_str(&mut s, d.as_str());
        string_push_str(&mut s, "]");
        CQMessage(s)
    }

    /// The CQ string with image `file` added at the end.
    pub fn add_image(self, file: &str) -> (r: CQMessage)
        ensures
            r@ == self@ + "[CQ:image,file="@ + file@ + "]"@,
    {
        let mut s = self.0;
        string_push_str(&mut s, "[CQ:image,file=");
        string_push_str(&mut s, file);
        string_push_str(&mut s, "]");
        CQMessage(s)
    }

    /// The CQ string with the CQ text of the segment that `segment` stands for added at the
    /// end; unchanged when `segment` is not a segment record.
    pub fn add_segment(self, segment: Json) -> (r: CQMessage)
        requires
            segment_of(segment@) matches Some(s) ==> (s.type_ != "text"@ ==> s.data is Object),
        ensures
            match segment_of(segment@) {
                Some(s) => r@ == self@ + code_text(s),
                None => r@ == self@,
            },
    {
        let mut s = self.0;
        match Segment::from_json(&segment) {
            Some(seg) => {
                let code = parse_cq_code(&seg);
                string_push_str(&mut s, code.as_str());
            },
            None => {},
        }
        CQMessage(s)
    }
}

impl From<String> for CQMessage {
    fn from(v: String) -> (r: CQMessage)
        ensures
            r@ == v@,
    {
        CQMessage(v)
    }
}

impl vstd::std_specs::convert::FromSpecImpl<String> for CQMessage {
    open spec fn obeys_from_spec() -> bool {
        true
    }

    open spec fn from_spec(v: String) -> CQMessage {
        CQMessage(v)
    }
}

impl From<&str> for CQMessage {
    fn from(v: &str) -> (r: CQMessage)
        ensures
            r@ == v@,
    {
        CQMessage(v.to_owned())
    }
}

impl vstd::std_specs::convert::FromSpecImpl<&str> for CQMessage {
    open spec fn obeys_from_spec() -> bool {
        false
    }

    open spec fn from_spec(v: &str) -> CQMessage {
        vstd::pervasive::arbitrary()
    }
}

impl From<&String> for CQMessage {
    fn from(v: &String) -> (r: CQMessage)
        ensures
            r@ == v@,
    {
        CQMessage(v.clone())
    }
}

impl vstd::std_specs::convert::FromSpecImpl<&String> for CQMessage {
    open spec fn obeys_from_spec() -> bool {
        true
    }

    open spec fn from_spec(v: &String) -> CQMessage {
        CQMessage(*v)
    }
}

impl From<CQMessage> for String {
    fn from(v: CQMessage) -> (r: String)
        ensures
            r@ == v@,
    {
        v.0
    }
}

impl vstd::std_specs::convert::FromSpecImpl<CQMessage> for String {
    open spec fn obeys_from_spec() -> bool {
        true
    }

    open spec fn from_spec(v: CQMessage) -> String {
        v.0
    }
}

impl From<CQMessage> for Message {
    fn from(v: CQMessage) -> (r: Message)
        ensures
            r@ == cq_segs(v@, 0),
    {
        cq_to_arr(v)
    }
}

impl vstd::std_specs::convert::FromSpecImpl<CQMessage> for Message {
    open spec fn obeys_from_spec() -> bool {
        false
    }

    open spec fn from_spec(v: CQMessage) -> Message {
        vstd::pervasive::arbitrary()
    }
}


/// A string in which `[CQ:` never occurs reads as one text segment holding the whole
/// string, and as no segment at all when it is empty.
pub proof fn law_plain_text_is_one_segment(t: Seq<char>)
    requires
        forall|i: int| 0 <= i < t.len() ==> !opens_at(t, i),
    ensures
        t.len() == 0 ==> cq_segs(t, 0) == Seq::<SegmentV>::empty(),
        t.len() > 0 ==> cq_segs(t, 0) == seq![text_seg(t)],
{
    lemma_next_code(t, 0);
    if next_code(t, 0) is Some {
        let s = next_code(t, 0)->0;
        assert(code_end(t, s) is Some);
        assert(!opens_at(t, s));
    }
    assert(t.subrange(0, t.len() as int) =~= t);
}

proof fn lemma_digits_plain(n: nat)
    ensures
        forall|i: int| 0 <= i < spec_digits(n).len() ==> {
            let c = #[trigger] spec_digits(n)[i];
            c != ']' && c != ',' && c != '='
        },
    decreases n,
{
    let d = (n % 10) as int;
    let c = digit_char(d);
    assert(c != ']' && c != ',' && c != '=') by {
        assert(48 <= 48 + d < 58);
        assert(c as int == 48 + d);
    }
    if n >= 10 {
        lemma_digits_plain(n / 10);
        let r = spec_digits(n / 10);
        assert(spec_digits(n) == r.push(c));
        assert forall|i: int| 0 <= i < spec_digits(n).len() implies {
            let x = #[trigger] spec_digits(n)[i];
            x != ']' && x != ',' && x != '='
        } by {
            if i < r.len() {
                assert(spec_digits(n)[i] == r[i]);
            }
        }
    } else {
        assert(spec_digits(n) == seq![c]);
    }
}

proof fn lemma_decimal_plain(n: int)
    ensures
        forall|i: int| 0 <= i < spec_decimal(n).len() ==> {
            let c = #[trigger] spec_decimal(n)[i];
            c != ']' && c != ',' && c != '='
        },
{
    let m: nat = if n < 0 { (-n) as nat } else { n as nat };
    lemma_digits_plain(m);
    if n < 0 {
        assert forall|i: int| 0 <= i < spec_decimal(n).len() implies {
            let c = #[trigger] spec_decimal(n)[i];
            c != ']' && c != ',' && c != '='
        } by {
            if i > 0 {
                assert(spec_decimal(n)[i] == spec_digits(m)[i - 1]);
            }
        }
    }
}

proof fn lemma_split_without(s: Seq<char>, c: char)
    requires
        forall|i: int| 0 <= i < s.len() ==> s[i] != c,
    ensures
        split_on(s, c) == seq![s],
    decreases s.len(),
{
    if s.len() > 0 {
        lemma_split_without(s.drop_last(), c);
        let r = split_on(s.drop_last(), c);
        assert(s[s.len() - 1] != c);
        assert(r.len() == 1 && r.last() == s.drop_last());
        assert(s.drop_last().push(s.last()) =~= s);
        assert(split_on(s, c) == r.update(r.len() - 1, r.last().push(s.last())));
        assert(r.update(0, s.drop_last().push(s.last())) =~= seq![s]);
    } else {
        assert(split_on(s, c) == seq![Seq::<char>::empty()]);
        assert(s =~= Seq::<char>::empty());
    }
}

proof fn lemma_eq_pos_none(p: Seq<char>)
    requires
        forall|i: int| 0 <= i < p.len() ==> p[i] != '=',
    ensures
        eq_pos(p) == p.len(),
    decreases p.len(),
{
    if p.len() > 0 {
        lemma_eq_pos_none(p.drop_last());
    }
}

proof fn lemma_eq_pos_first(p: Seq<char>, q: int)
    requires
        0 <= q < p.len(),
        p[q] == '=',
        forall|j: int| 0 <= j < q ==> p[j] != '=',
    ensures
        eq_pos(p) == q,
    decreases p.len(),
{
    if q == p.len() - 1 {
        lemma_eq_pos_none(p.drop_last());
    } else {
        lemma_eq_pos_first(p.drop_last(), q);
    }
}

/// The CQ code that `CQMessage::add_face` appends reads back as one face segment whose `id` is
/// the face's decimal id, the segment that `Message::add_face` adds.
pub proof fn law_face_code_reads_back(id: i64)
    ensures
        cq_segs("[CQ:face,id="@ + spec_decimal(id as int) + "]"@, 0)
            == seq![seg1("face"@, "id"@, spec_decimal(id as int))],
{
    reveal_strlit("[CQ:face,id=");
    reveal_strlit("]");
    reveal_strlit("face");
    reveal_strlit("id");
    reveal_strlit("id=");
    let d = spec_decimal(id as int);
    crate::text::lemma_decimal_nonempty(id as int);
    lemma_decimal_plain(id as int);
    let t = "[CQ:face,id="@ + d + "]"@;
    let n = t.len();
    assert(n == 13 + d.len());
    assert(t[0] == '[' && t[1] == 'C' && t[2] == 'Q' && t[3] == ':');
    assert(t[4] == 'f' && t[5] == 'a' && t[6] == 'c' && t[7] == 'e' && t[8] == ',');
    assert(t[9] == 'i' && t[10] == 'd' && t[11] == '=');
    assert(t[n - 1] == ']');
    assert forall|j: int| 12 <= j < n - 1 implies t[j] == d[j - 12] by {}
    // the type name ends at the comma
    lemma_letters_end(t, 4);
    assert(letters_end(t, 4) == 8) by {
        let e = letters_end(t, 4);
        if e < 8 {
            assert(!is_letter(t[e]));
        } else if e > 8 {
            assert(is_letter(t[8]));
        }
    }
    // the parameters end at the last character
    lemma_close_at(t, 9);
    assert(close_at(t, 9) == n - 1) by {
        let k = close_at(t, 9);
        if k < n - 1 {
            assert(t[k] == ']');
            if k >= 12 {
                assert(t[k] == d[k - 12]);
            }
        } else if k > n - 1 {
            assert(t[n - 1] != ']');
        }
    }
    assert(code_end(t, 0) == Some(n as int));
    assert(next_code(t, 0) == Some(0int));
    assert(next_code(t, n as int) is None);
    // the data object
    let raw = t.subrange(8, n - 1);
    let p = "id="@ + d;
    assert forall|j: int| 0 <= j < p.len() implies #[trigger] raw.drop_first()[j] == p[j] by {
        assert(raw.drop_first()[j] == t[9 + j]);
        if j >= 3 {
            assert(p[j] == d[j - 3]);
            assert(t[9 + j] == d[j - 3]);
        }
    }
    assert(raw.drop_first() =~= p);
    assert(trim_commas(p) == p);
    assert(trim_commas(raw) == p);
    assert forall|i: int| 0 <= i < p.len() implies p[i] != ',' by {
        if i >= 3 {
            assert(p[i] == d[i - 3]);
        }
    }
    lemma_split_without(p, ',');
    assert(p[2] == '=' && p[0] != '=' && p[1] != '=');
    lemma_eq_pos_first(p, 2);
    assert(p.take(2) =~= "id"@);
    assert(p.skip(3) =~= d);
    let ps = seq![p];
    assert(ps.drop_last() =~= Seq::<Seq<char>>::empty());
    let entry = param_entry(p);
    assert(entry == ("id"@, JsonV::Str(d)));
    let empty = Seq::<(Seq<char>, JsonV)>::empty();
    assert(key_index(empty, "id"@) is None);
    assert(insert_pos(empty, "id"@) == 0);
    assert(params_obj(ps.drop_last()) == empty);
    assert(ps.last() == p);
    assert(obj_insert(empty, "id"@, JsonV::Str(d)) =~= seq![("id"@, JsonV::Str(d))]);
    assert(params_obj(ps) == obj_insert(empty, "id"@, JsonV::Str(d)));
    assert(t.subrange(4, 8) =~= "face"@);
    assert(code_seg(t, 0) == seg1("face"@, "id"@, d));
    assert(gap(t, 0, 0) =~= Seq::<SegmentV>::empty());
    assert(cq_segs(t, n as int) =~= Seq::<SegmentV>::empty());
    assert(cq_segs(t, 0) =~= seq![seg1("face"@, "id"@, d)]);
}

/// `c` does not occur in `s`.
pub open spec fn free_of(s: Seq<char>, c: char) -> bool {
    forall|i: int| 0 <= i < s.len() ==> s[i] != c
}

proof fn lemma_split_append(a: Seq<char>, b: Seq<char>, c: char)
    requires
        free_of(b, c),
    ensures
        split_on(a.push(c) + b, c) == split_on(a, c).push(b),
    decreases b.len(),
{
    if b.len() == 0 {
        assert(a.push(c) + b =~= a.push(c));
        assert(a.push(c).drop_last() =~= a);
        assert(a.push(c).last() == c);
        assert(split_on(a.push(c), c) == split_on(a, c).push(Seq::empty()));
        assert(b =~= Seq::<char>::empty());
    } else {
        let w = a.push(c) + b;
        assert(w.drop_last() =~= a.push(c) + b.drop_last());
        lemma_split_append(a, b.drop_last(), c);
        assert(w.last() == b.last());
        assert(b[b.len() - 1] != c);
        let r = split_on(a, c).push(b.drop_last());
        assert(split_on(w, c) == r.update(r.len() - 1, r.last().push(w.last())));
        assert(r.update(r.len() - 1, r.last().push(b.last())) =~= split_on(a, c).push(b)) by {
            assert(b.drop_last().push(b.last()) =~= b);
        }
    }
}

proof fn lemma_join_facts(ps: Seq<Seq<char>>, c: char)
    requires
        ps.len() > 0,
        c != ',',
        forall|i: int| 0 <= i < ps.len() ==> free_of(#[trigger] ps[i], ',') && free_of(ps[i], c) && ps[i].len() > 0,
    ensures
        split_on(join(ps, ","@), ',') == ps,
        free_of(join(ps, ","@), c),
        join(ps, ","@).len() > 0,
        join(ps, ","@)[0] == ps[0][0],
    decreases ps.len(),
{
    reveal_strlit(",");
    if ps.len() == 1 {
        assert(join(ps, ","@) == ps[0]);
        lemma_split_without(ps[0], ',');
        assert(seq![ps[0]] =~= ps);
    } else {
        let d = ps.drop_last();
        assert forall|i: int| 0 <= i < d.len() implies free_of(#[trigger] d[i], ',') && free_of(d[i], c) && d[i].len() > 0 by {
            assert(d[i] == ps[i]);
        }
        lemma_join_facts(d, c);
        let jd = join(d, ","@);
        assert(join(ps, ","@) == jd + ","@ + ps.last());
        assert(jd + ","@ + ps.last() =~= jd.push(',') + ps.last());
        assert(free_of(ps[ps.len() - 1], ','));
        lemma_split_append(jd, ps.last(), ',');
        assert(d.push(ps.last()) =~= ps);
        assert(free_of(ps[ps.len() - 1], c));
        assert forall|i: int| 0 <= i < join(ps, ","@).len() implies join(ps, ","@)[i] != c by {
            let w = jd.push(',') + ps.last();
            if i < jd.len() {
                assert(w[i] == jd[i]);
            } else if i > jd.len() {
                assert(w[i] == ps.last()[i - jd.len() - 1]);
            }
        }
        assert(d[0] == ps[0]);
    }
}

proof fn lemma_key_lt_ne(a: Seq<char>, b: Seq<char>)
    requires
        key_lt(a, b),
    ensures
        a != b,
{
    if a == b {
        let i = choose|i: int|
            #![trigger a.take(i), b.take(i)]
            0 <= i <= a.len() && i <= b.len() && a.take(i) == b.take(i) && (
            (i == a.len() && i < b.len()) || (i < a.len() && i < b.len() && (a[i] as u32) < (b[i] as u32)));
    }
}

proof fn lemma_param_entry(k: Seq<char>, v: Seq<char>)
    requires
        free_of(k, '='),
    ensures
        param_entry(k + "="@ + v) == (k, JsonV::Str(v)),
{
    reveal_strlit("=");
    let p = k + "="@ + v;
    assert(p[k.len() as int] == '=');
    assert forall|j: int| 0 <= j < k.len() implies p[j] != '=' by {
        assert(p[j] == k[j]);
    }
    lemma_eq_pos_first(p, k.len() as int);
    assert(p.take(k.len() as int) =~= k);
    assert(p.skip(k.len() as int + 1) =~= v);
}

/// The data of a CQ code that reads back as it was written: every value a string, the keys
/// in strictly increasing order, no key holding `,`, `=` or `]`, no value holding `,` or `]`.
pub open spec fn plain_params(es: Seq<(Seq<char>, JsonV)>) -> bool {
    &&& forall|i: int| 0 <= i < es.len() ==> {
        &&& (#[trigger] es[i]).1 is Str
        &&& free_of(es[i].0, ',') && free_of(es[i].0, '=') && free_of(es[i].0, ']')
        &&& free_of(es[i].1->Str_0, ',') && free_of(es[i].1->Str_0, ']')
    }
    &&& forall|i: int, j: int| 0 <= i < j < es.len() ==> key_lt(es[i].0, es[j].0)
}

proof fn lemma_params_back(es: Seq<(Seq<char>, JsonV)>)
    requires
        plain_params(es),
    ensures
        param_texts(es).len() == es.len(),
        params_obj(param_texts(es)) == es,
        forall|i: int| 0 <= i < es.len() ==> #[trigger] param_texts(es)[i] == es[i].0 + "="@ + es[i].1->Str_0,
    decreases es.len(),
{
    reveal_strlit("=");
    if es.len() > 0 {
        let d = es.drop_last();
        assert(plain_params(d)) by {
            assert forall|i: int| 0 <= i < d.len() implies {
                &&& (#[trigger] d[i]).1 is Str
                &&& free_of(d[i].0, ',') && free_of(d[i].0, '=') && free_of(d[i].0, ']')
                &&& free_of(d[i].1->Str_0, ',') && free_of(d[i].1->Str_0, ']')
            } by {
                assert(d[i] == es[i]);
            }
            assert forall|i: int, j: int| 0 <= i < j < d.len() implies key_lt(d[i].0, d[j].0) by {
                assert(d[i] == es[i] && d[j] == es[j]);
            }
        }
        lemma_params_back(d);
        let last = es[es.len() - 1];
        assert(last.1 is Str);
        let k = last.0;
        let v = last.1->Str_0;
        assert(es.last() == last);
        assert(param_texts(es) == param_texts(d).push(k + "="@ + v));
        let ps = param_texts(es);
        assert(ps.drop_last() =~= param_texts(d));
        lemma_param_entry(k, v);
        assert(params_obj(ps) == obj_insert(es.drop_last(), k, JsonV::Str(v)));
        assert forall|i: int| 0 <= i < d.len() implies key_lt(#[trigger] d[i].0, k) && d[i].0 != k by {
            assert(d[i] == es[i]);
            lemma_key_lt_ne(d[i].0, k);
        }
        assert(!exists|i: int| first_key_at(d, k, i));
        assert(key_index(d, k) is None);
        assert(!exists|i: int| 0 <= i < d.len() && !key_lt(d[i].0, k) && (forall|j: int| 0 <= j < i ==> key_lt(d[j].0, k)));
        assert(insert_pos(d, k) == d.len());
        assert(d.insert(d.len() as int, (k, JsonV::Str(v))) =~= es);
        assert forall|i: int| 0 <= i < es.len() implies #[trigger] ps[i] == es[i].0 + "="@ + es[i].1->Str_0 by {
            if i < d.len() {
                assert(ps[i] == param_texts(d)[i]);
                assert(d[i] == es[i]);
            }
        }
    }
}

/// A segment other than text whose CQ code reads back as the segment: its type is one or more
/// ASCII letters, its data an object of plain parameters.
pub open spec fn cq_plain_code(s: SegmentV) -> bool {
    &&& s.type_ != "text"@
    &&& s.type_.len() > 0
    &&& forall|i: int| 0 <= i < s.type_.len() ==> is_letter(#[trigger] s.type_[i])
    &&& s.data is Object
    &&& plain_params(s.data->Object_0)
}

proof fn lemma_sub_split(t: Seq<char>, p: int, x: Seq<char>, y: Seq<char>)
    requires
        0 <= p,
        p + x.len() + y.len() <= t.len(),
        t.subrange(p, p + x.len() + y.len()) == x + y,
    ensures
        t.subrange(p, p + x.len()) == x,
        t.subrange(p + x.len(), p + x.len() + y.len()) == y,
{
    assert forall|j: int| 0 <= j < x.len() implies t.subrange(p, p + x.len())[j] == x[j] by {
        assert(t.subrange(p, p + x.len() + y.len())[j] == (x + y)[j]);
    }
    assert forall|j: int| 0 <= j < y.len() implies t.subrange(p + x.len(), p + x.len() + y.len())[j] == y[j] by {
        let k = x.len() + j;
        assert(t.subrange(p, p + x.len() + y.len())[k] == (x + y)[k]);
        assert(t.subrange(p, p + x.len() + y.len())[k] == t[p + k]);
        assert((x + y)[k] == y[j]);
        assert(t.subrange(p + x.len(), p + x.len() + y.len())[j] == t[p + x.len() + j]);
    }
    assert(t.subrange(p, p + x.len()) =~= x);
    assert(t.subrange(p + x.len(), p + x.len() + y.len()) =~= y);
}

/// The opening `[CQ:` and the type name of a code written at `p`, followed by `tail`, whose
/// first character is not a letter.
proof fn lemma_code_head(t: Seq<char>, p: int, ty: Seq<char>, tail: Seq<char>)
    requires
        0 <= p,
        ty.len() > 0,
        forall|i: int| 0 <= i < ty.len() ==> is_letter(#[trigger] ty[i]),
        tail.len() > 0,
        !is_letter(tail[0]),
        p + 4 + ty.len() + tail.len() <= t.len(),
        t.subrange(p, p + 4 + ty.len() + tail.len()) == "[CQ:"@ + ty + tail,
    ensures
        opens_at(t, p),
        letters_end(t, p + 4) == p + 4 + ty.len(),
        t.subrange(p + 4, p + 4 + ty.len()) == ty,
        t.subrange(p + 4 + ty.len(), p + 4 + ty.len() + tail.len()) == tail,
{
    reveal_strlit("[CQ:");
    let h = "[CQ:"@ + ty;
    assert(h.len() == 4 + ty.len());
    lemma_sub_split(t, p, h, tail);
    lemma_sub_split(t, p, "[CQ:"@, ty);
    let o = t.subrange(p, p + 4);
    assert(o[0] == t[p] && o[1] == t[p + 1] && o[2] == t[p + 2] && o[3] == t[p + 3]);
    let e = p + 4 + ty.len();
    assert forall|j: int| p + 4 <= j < e implies is_letter(#[trigger] t[j]) by {
        assert(t.subrange(p + 4, e)[j - p - 4] == t[j]);
    }
    assert(t.subrange(e, e + tail.len())[0] == t[e]);
    lemma_letters_end(t, p + 4);
    let l = letters_end(t, p + 4);
    if l < e {
        assert(!is_letter(t[l]));
    } else if l > e {
        assert(is_letter(t[e]));
    }
}

proof fn lemma_code_back_bare(t: Seq<char>, p: int, sg: SegmentV)
    requires
        cq_plain_code(sg),
        sg.data->Object_0.len() == 0,
        0 <= p,
        p + code_text(sg).len() <= t.len(),
        t.subrange(p, p + code_text(sg).len()) == code_text(sg),
    ensures
        code_text(sg).len() >= 5,
        t[p] == '[',
        code_end(t, p) == Some(p + code_text(sg).len()),
        code_seg(t, p) == sg,
{
    reveal_strlit("[CQ:");
    reveal_strlit("]");
    let es = sg.data->Object_0;
    lemma_params_back(es);
    assert(param_texts(es).len() == 0);
    let ty = sg.type_;
    assert(code_text(sg) == "[CQ:"@ + ty + "]"@);
    assert(("]"@)[0] == ']');
    lemma_code_head(t, p, ty, "]"@);
    let e = p + 4 + ty.len();
    assert(t.subrange(e, e + 1)[0] == t[e]);
    assert(t[e] == ']');
    assert(es =~= Seq::<(Seq<char>, JsonV)>::empty());
    assert(sg.data == JsonV::Object(Seq::empty()));
}

proof fn lemma_code_back_params(t: Seq<char>, p: int, sg: SegmentV)
    requires
        cq_plain_code(sg),
        sg.data->Object_0.len() > 0,
        0 <= p,
        p + code_text(sg).len() <= t.len(),
        t.subrange(p, p + code_text(sg).len()) == code_text(sg),
    ensures
        code_text(sg).len() >= 5,
        t[p] == '[',
        code_end(t, p) == Some(p + code_text(sg).len()),
        code_seg(t, p) == sg,
{
    reveal_strlit("[CQ:");
    reveal_strlit("]");
    reveal_strlit(",");
    reveal_strlit("=");
    let ty = sg.type_;
    let es = sg.data->Object_0;
    lemma_params_back(es);
    let ps = param_texts(es);
    assert forall|i: int| 0 <= i < ps.len() implies free_of(#[trigger] ps[i], ',') && free_of(ps[i], ']') && ps[i].len() > 0 by {
        let k = es[i].0;
        let v = es[i].1->Str_0;
        assert(ps[i] == k + "="@ + v);
        assert forall|j: int| 0 <= j < ps[i].len() implies ps[i][j] != ',' && ps[i][j] != ']' by {
            if j < k.len() {
                assert(ps[i][j] == k[j]);
            } else if j > k.len() {
                assert(ps[i][j] == v[j - k.len() - 1]);
            }
        }
    }
    lemma_join_facts(ps, ']');
    let jn = join(ps, ","@);
    let tail = ","@ + jn + "]"@;
    assert(code_text(sg) == "[CQ:"@ + ty + tail);
    assert(tail[0] == ',');
    lemma_code_head(t, p, ty, tail);
    let e = p + 4 + ty.len();
    let n = code_text(sg).len();
    assert(n == 6 + ty.len() + jn.len());
    let tl = t.subrange(e, e + tail.len());
    assert(tl[0] == t[e]);
    assert(t[e] == ',');
    assert forall|j: int| 0 <= j < jn.len() implies #[trigger] t[e + 1 + j] == jn[j] by {
        assert(tl[1 + j] == t[e + 1 + j]);
        assert(tail[1 + j] == jn[j]);
    }
    assert(tl[tail.len() - 1] == t[p + n - 1]);
    assert(t[p + n - 1] == ']');
    lemma_close_at(t, e + 1);
    let k = close_at(t, e + 1);
    assert(k == p + n - 1) by {
        if k < p + n - 1 {
            assert(t[k] == ']');
            assert(t[e + 1 + (k - e - 1)] == jn[k - e - 1]);
        } else if k > p + n - 1 {
            assert(t[p + n - 1] != ']');
        }
    }
    let sub = t.subrange(e, k);
    assert(sub.drop_first() =~= jn) by {
        assert forall|j: int| 0 <= j < jn.len() implies sub.drop_first()[j] == jn[j] by {
            assert(sub.drop_first()[j] == t[e + 1 + j]);
        }
    }
    assert(sub[0] == ',');
    let k0 = es[0].0;
    assert(ps[0] == k0 + "="@ + es[0].1->Str_0);
    assert(ps[0][0] != ',') by {
        if k0.len() > 0 {
            assert(ps[0][0] == k0[0]);
        } else {
            assert(ps[0][0] == '=');
        }
    }
    assert(jn[0] != ',');
    assert(trim_commas(jn) == jn);
    assert(trim_commas(sub) == trim_commas(sub.drop_first()));
    assert(code_seg(t, p).data == JsonV::Object(params_obj(split_on(jn, ','))));
}

proof fn lemma_code_back(t: Seq<char>, p: int, sg: SegmentV)
    requires
        cq_plain_code(sg),
        0 <= p,
        p + code_text(sg).len() <= t.len(),
        t.subrange(p, p + code_text(sg).len()) == code_text(sg),
    ensures
        code_text(sg).len() >= 5,
        t[p] == '[',
        code_end(t, p) == Some(p + code_text(sg).len()),
        code_seg(t, p) == sg,
{
    if sg.data->Object_0.len() == 0 {
        lemma_code_back_bare(t, p, sg);
    } else {
        lemma_code_back_params(t, p, sg);
    }
}

/// A text segment whose CQ text reads back as the segment: its data is exactly one non-empty
/// string `text`, in which `[CQ:` does not occur.
pub open spec fn cq_plain_text(s: SegmentV) -> bool {
    &&& s.type_ == "text"@
    &&& s.data is Object
    &&& s.data->Object_0.len() == 1
    &&& s.data->Object_0[0].0 == "text"@
    &&& s.data->Object_0[0].1 is Str
    &&& s.data->Object_0[0].1->Str_0.len() > 0
    &&& forall|i: int| !opens_at(s.data->Object_0[0].1->Str_0, i)
}

/// A message whose CQ string reads back as the message: every segment reads back, and no two
/// text segments stand next to each other (their texts would run together).
pub open spec fn cq_round_trips(m: Seq<SegmentV>) -> bool {
    &&& forall|i: int| 0 <= i < m.len() ==> if (#[trigger] m[i]).type_ == "text"@ {
        cq_plain_text(m[i])
    } else {
        cq_plain_code(m[i])
    }
    &&& forall|i: int| 0 <= i < m.len() - 1 ==> !((#[trigger] m[i]).type_ == "text"@ && m[i + 1].type_ == "text"@)
}

proof fn lemma_text_seg_back(sg: SegmentV)
    requires
        cq_plain_text(sg),
    ensures
        code_text(sg) == sg.data->Object_0[0].1->Str_0,
        sg == text_seg(code_text(sg)),
{
    reveal_strlit("text");
    let es = sg.data->Object_0;
    let x = es[0].1->Str_0;
    assert(first_key_at(es, "text"@, 0));
    assert(key_index(es, "text"@) == Some(0int));
    assert(es =~= seq![("text"@, JsonV::Str(x))]);
}

proof fn lemma_cq_text_concat(a: Seq<SegmentV>, b: Seq<SegmentV>)
    ensures
        cq_text(a + b) == cq_text(a) + cq_text(b),
    decreases b.len(),
{
    if b.len() == 0 {
        assert(a + b =~= a);
        assert(cq_text(a) + cq_text(b) =~= cq_text(a));
    } else {
        lemma_cq_text_concat(a, b.drop_last());
        assert((a + b).drop_last() =~= a + b.drop_last());
        assert((a + b).last() == b.last());
        assert(cq_text(a + b) =~= cq_text(a) + cq_text(b));
    }
}

/// The position in a message's CQ string where segment `k` starts.
spec fn cq_pos(m: Seq<SegmentV>, k: int) -> int {
    cq_text(m.take(k)).len() as int
}

proof fn lemma_cq_pos(m: Seq<SegmentV>, k: int)
    requires
        0 <= k < m.len(),
    ensures
        cq_pos(m, k + 1) == cq_pos(m, k) + code_text(m[k]).len(),
        cq_pos(m, k + 1) <= cq_text(m).len(),
        cq_text(m).subrange(cq_pos(m, k), cq_pos(m, k + 1)) == code_text(m[k]),
{
    let t = cq_text(m);
    assert(m.take(k + 1).drop_last() =~= m.take(k));
    assert(m.take(k + 1).last() == m[k]);
    let a = cq_text(m.take(k));
    let c = code_text(m[k]);
    assert(cq_text(m.take(k + 1)) == a + c);
    assert(m =~= m.take(k + 1) + m.skip(k + 1));
    lemma_cq_text_concat(m.take(k + 1), m.skip(k + 1));
    let r = cq_text(m.skip(k + 1));
    assert(t == a + c + r);
    assert(t.subrange(a.len() as int, a.len() as int + c.len() as int) =~= c);
}

proof fn lemma_text_region(t: Seq<char>, p: int, q: int, x: Seq<char>)
    requires
        0 <= p <= q <= t.len(),
        t.subrange(p, q) == x,
        forall|i: int| !opens_at(x, i),
        q == t.len() || t[q] == '[',
    ensures
        forall|j: int| p <= j < q ==> code_end(t, j) is None,
{
    assert forall|j: int| p <= j < q implies code_end(t, j) is None by {
        if opens_at(t, j) {
            if j + 4 <= q {
                assert(x[j - p] == t[j] && x[j - p + 1] == t[j + 1] && x[j - p + 2] == t[j + 2] && x[j - p + 3] == t[j + 3]);
                assert(opens_at(x, j - p));
            } else {
                assert(t[q] == '[');
            }
        }
    }
}

proof fn lemma_next_code_at(t: Seq<char>, from: int, s: int)
    requires
        0 <= from <= s < t.len(),
        forall|j: int| from <= j < s ==> code_end(t, j) is None,
        code_end(t, s) is Some,
    ensures
        next_code(t, from) == Some(s),
{
    lemma_next_code(t, from);
    match next_code(t, from) {
        Some(s2) => {
            if s2 < s {
                assert(code_end(t, s2) is None);
            } else if s2 > s {
                assert(code_end(t, s) is None);
            }
        },
        None => {
            assert(code_end(t, s) is None);
        },
    }
}

proof fn lemma_cq_end(m: Seq<SegmentV>)
    ensures
        cq_segs(cq_text(m), cq_pos(m, m.len() as int)) == m.skip(m.len() as int),
{
    let t = cq_text(m);
    assert(m.take(m.len() as int) =~= m);
    assert(cq_pos(m, m.len() as int) == t.len());
    assert(next_code(t, t.len() as int) is None);
    assert(m.skip(m.len() as int) =~= Seq::<SegmentV>::empty());
    assert(gap(t, t.len() as int, t.len() as int) =~= Seq::<SegmentV>::empty());
}

proof fn lemma_step_code(m: Seq<SegmentV>, k: int)
    requires
        0 <= k < m.len(),
        cq_plain_code(m[k]),
        cq_segs(cq_text(m), cq_pos(m, k + 1)) == m.skip(k + 1),
    ensures
        cq_segs(cq_text(m), cq_pos(m, k)) == m.skip(k),
{
    let t = cq_text(m);
    let p = cq_pos(m, k);
    let sg = m[k];
    lemma_cq_pos(m, k);
    lemma_code_back(t, p, sg);
    assert(next_code(t, p) == Some(p));
    assert(gap(t, p, p) =~= Seq::<SegmentV>::empty());
    assert(m.skip(k) =~= seq![sg] + m.skip(k + 1));
    assert(cq_segs(t, p) =~= seq![sg] + m.skip(k + 1));
}

proof fn lemma_step_text_last(m: Seq<SegmentV>, k: int)
    requires
        k == m.len() - 1,
        0 <= k,
        cq_plain_text(m[k]),
    ensures
        cq_segs(cq_text(m), cq_pos(m, k)) == m.skip(k),
{
    let t = cq_text(m);
    let p = cq_pos(m, k);
    let q = cq_pos(m, k + 1);
    let sg = m[k];
    lemma_cq_pos(m, k);
    lemma_text_seg_back(sg);
    let x = code_text(sg);
    assert(m.take(k + 1) =~= m);
    assert(q == t.len());
    lemma_text_region(t, p, q, x);
    lemma_next_code(t, p);
    assert(next_code(t, p) is None);
    assert(m.skip(k) =~= seq![sg]);
    assert(gap(t, p, q) == seq![text_seg(x)]);
}

proof fn lemma_text_then_code(t: Seq<char>, p: int, q: int, nx: SegmentV, rest: Seq<SegmentV>)
    requires
        0 <= p < q,
        cq_plain_code(nx),
        q + code_text(nx).len() <= t.len(),
        forall|i: int| !opens_at(t.subrange(p, q), i),
        t.subrange(q, q + code_text(nx).len()) == code_text(nx),
        cq_segs(t, q + code_text(nx).len()) == rest,
    ensures
        cq_segs(t, p) == seq![text_seg(t.subrange(p, q)), nx] + rest,
{
    let x = t.subrange(p, q);
    lemma_code_back(t, q, nx);
    lemma_text_region(t, p, q, x);
    lemma_next_code_at(t, p, q);
    assert(gap(t, p, q) == seq![text_seg(x)]);
    assert(cq_segs(t, p) == gap(t, p, q) + seq![code_seg(t, q)] + cq_segs(t, q + code_text(nx).len()));
    assert(seq![text_seg(x)] + seq![nx] + rest =~= seq![text_seg(x), nx] + rest);
}

#[verifier::spinoff_prover]
#[verifier::rlimit(40)]
proof fn lemma_step_text_code(m: Seq<SegmentV>, k: int)
    requires
        0 <= k,
        k + 1 < m.len(),
        cq_plain_text(m[k]),
        cq_plain_code(m[k + 1]),
        cq_segs(cq_text(m), cq_pos(m, k + 2)) == m.skip(k + 2),
    ensures
        cq_segs(cq_text(m), cq_pos(m, k)) == m.skip(k),
{
    let t = cq_text(m);
    let p = cq_pos(m, k);
    let q = cq_pos(m, k + 1);
    let sg = m[k];
    let nx = m[k + 1];
    lemma_cq_pos(m, k);
    lemma_cq_pos(m, k + 1);
    lemma_text_seg_back(sg);
    assert(q + code_text(nx).len() == cq_pos(m, k + 2));
    assert(t.subrange(p, q) == code_text(sg));
    lemma_text_then_code(t, p, q, nx, m.skip(k + 2));
    assert(m.skip(k) =~= seq![sg, nx] + m.skip(k + 2));
}

proof fn lemma_cq_from(m: Seq<SegmentV>, k: int)
    requires
        cq_round_trips(m),
        0 <= k <= m.len(),
    ensures
        cq_segs(cq_text(m), cq_pos(m, k)) == m.skip(k),
    decreases m.len() - k,
{
    if k == m.len() {
        lemma_cq_end(m);
    } else if m[k].type_ != "text"@ {
        lemma_cq_from(m, k + 1);
        lemma_step_code(m, k);
    } else if k + 1 == m.len() {
        lemma_step_text_last(m, k);
    } else {
        assert(m[k + 1].type_ != "text"@);
        lemma_cq_from(m, k + 2);
        lemma_step_text_code(m, k);
    }
}

/// A message written as a CQ string reads back as the same message, when each of its segments
/// reads back (see `cq_round_trips`): plain texts without `[CQ:`, never two in a row, and codes
/// with a letters-only type and string parameters, keys in order, free of the characters that
/// delimit them.
pub proof fn law_cq_round_trip(m: Seq<SegmentV>)
    requires
        cq_round_trips(m),
    ensures
        cq_segs(cq_text(m), 0) == m,
{
    lemma_cq_from(m, 0);
    assert(m.take(0) =~= Seq::<SegmentV>::empty());
    assert(m.skip(0) =~= m);
}

} // verus!
