//! The durable representation of the task list: a record per task, each with
//! the description text and the completion flag, written as one array of
//! key/value records.  The encoder produces the canonical form; the parser
//! accepts exactly that form and inverts the encoder, so a just-persisted
//! list loads back unchanged and persists again to identical content.

use vstd::prelude::*;
use crate::strutil::{chars_to_string, push_char};
use crate::task::{views, Task, TaskView};

verus! {

/// Failure to decode the durable medium's content.
#[derive(Clone, Copy, Debug, PartialEq, Eq, Structural)]
pub enum LoadError {
    CorruptData,
}

/// How one character of a description is written: a quote or a backslash is
/// preceded by a backslash, every other character stands as itself.
pub open spec fn esc_char(c: char) -> Seq<char> {
    if c == '"' || c == '\\' {
        seq!['\\', c]
    } else {
        seq![c]
    }
}

/// A description written out character by character.
pub open spec fn escape(s: Seq<char>) -> Seq<char>
    decreases s.len(),
{
    if s.len() == 0 {
        Seq::empty()
    } else {
        esc_char(s[0]) + escape(s.skip(1))
    }
}

/// The opening of a record, up to and including the description's opening
/// quote.
pub open spec fn lit_open() -> Seq<char> {
    seq!['{', '"', 'd', 'e', 's', 'c', '"', ':', '"']
}

/// What follows the description's closing quote, up to the flag value.
pub open spec fn lit_done() -> Seq<char> {
    seq![',', '"', 'd', 'o', 'n', 'e', '"', ':']
}

pub open spec fn lit_true() -> Seq<char> {
    seq!['t', 'r', 'u', 'e']
}

pub open spec fn lit_false() -> Seq<char> {
    seq!['f', 'a', 'l', 's', 'e']
}

/// One task's record.
pub open spec fn encode_task(t: TaskView) -> Seq<char> {
    lit_open() + escape(t.desc) + seq!['"'] + lit_done() + (if t.done {
        lit_true()
    } else {
        lit_false()
    }) + seq!['}']
}

/// The records of a non-empty list, separated by commas.
pub open spec fn encode_inner(ts: Seq<TaskView>) -> Seq<char>
    decreases ts.len(),
{
    if ts.len() == 0 {
        Seq::empty()
    } else if ts.len() == 1 {
        encode_task(ts[0])
    } else {
        encode_task(ts[0]) + seq![','] + encode_inner(ts.skip(1))
    }
}

/// The whole durable content for a task list.
pub open spec fn encode_list(ts: Seq<TaskView>) -> Seq<char> {
    if ts.len() == 0 {
        seq!['[', ']']
    } else {
        seq!['['] + encode_inner(ts) + seq![']']
    }
}

/// Reads a description up to and including its closing quote: yields the
/// unescaped description and the rest of the input, or nothing when the
/// input is not a description.
pub open spec fn parse_str_body(s: Seq<char>) -> Option<(Seq<char>, Seq<char>)>
    decreases s.len(),
{
    if s.len() == 0 {
        Option::None
    } else if s[0] == '"' {
        Option::Some((Seq::empty(), s.skip(1)))
    } else if s[0] == '\\' {
        if s.len() >= 2 && (s[1] == '"' || s[1] == '\\') {
            match parse_str_body(s.skip(2)) {
                Option::Some((d, r)) => Option::Some((seq![s[1]] + d, r)),
                Option::None => Option::None,
            }
        } else {
            Option::None
        }
    } else {
        match parse_str_body(s.skip(1)) {
            Option::Some((d, r)) => Option::Some((seq![s[0]] + d, r)),
            Option::None => Option::None,
        }
    }
}

/// Reads a flag value and yields it with the rest of the input.
pub open spec fn parse_bool(s: Seq<char>) -> Option<(bool, Seq<char>)> {
    if s.len() >= 4 && s.subrange(0, 4) == lit_true() {
        Option::Some((true, s.skip(4)))
    } else if s.len() >= 5 && s.subrange(0, 5) == lit_false() {
        Option::Some((false, s.skip(5)))
    } else {
        Option::None
    }
}

/// Reads one record and yields the task with the rest of the input.
pub open spec fn parse_record(s: Seq<char>) -> Option<(TaskView, Seq<char>)> {
    if s.len() >= 9 && s.subrange(0, 9) == lit_open() {
        match parse_str_body(s.skip(9)) {
            Option::Some((desc, r)) => if r.len() >= 8 && r.subrange(0, 8) == lit_done() {
                match parse_bool(r.skip(8)) {
                    Option::Some((done, r2)) => if r2.len() >= 1 && r2[0] == '}' {
                        Option::Some((TaskView { desc, done }, r2.skip(1)))
                    } else {
                        Option::None
                    },
                    Option::None => Option::None,
                }
            } else {
                Option::None
            },
            Option::None => Option::None,
        }
    } else {
        Option::None
    }
}

/// A successful description read consumes at least its closing quote.
proof fn lemma_parse_str_body_shrinks(s: Seq<char>)
    ensures
        parse_str_body(s) matches Option::Some((d, r)) ==> r.len() < s.len(),
    decreases s.len(),
{
    if s.len() == 0 {
    } else if s[0] == '"' {
    } else if s[0] == '\\' {
        if s.len() >= 2 && (s[1] == '"' || s[1] == '\\') {
            lemma_parse_str_body_shrinks(s.skip(2));
        }
    } else {
        lemma_parse_str_body_shrinks(s.skip(1));
    }
}

/// A successful record read consumes at least one character.
proof fn lemma_parse_record_shrinks(s: Seq<char>)
    ensures
        parse_record(s) matches Option::Some((t, r)) ==> r.len() < s.len(),
{
    if s.len() >= 9 && s.subrange(0, 9) == lit_open() {
        lemma_parse_str_body_shrinks(s.skip(9));
    }
}

/// Reads records separated by commas up to a final closing bracket that ends
/// the input, or nothing when the input has no such shape.
pub open spec fn parse_records(s: Seq<char>) -> Option<Seq<TaskView>>
    decreases s.len(),
        via parse_records_decreases
{
    match parse_record(s) {
        Option::Some((t, r)) => if r.len() == 1 && r[0] == ']' {
            Option::Some(seq![t])
        } else if r.len() >= 1 && r[0] == ',' {
            match parse_records(r.skip(1)) {
                Option::Some(ts) => Option::Some(seq![t] + ts),
                Option::None => Option::None,
            }
        } else {
            Option::None
        },
        Option::None => Option::None,
    }
}

#[via_fn]
proof fn parse_records_decreases(s: Seq<char>) {
    lemma_parse_record_shrinks(s);
}

/// Decodes a whole durable content: the empty list's bracket pair, or one or
/// more records between brackets.  Yields nothing on any other content.
pub open spec fn parse_list(s: Seq<char>) -> Option<Seq<TaskView>> {
    if s.len() == 2 && s[0] == '[' && s[1] == ']' {
        Option::Some(Seq::empty())
    } else if s.len() >= 1 && s[0] == '[' {
        parse_records(s.skip(1))
    } else {
        Option::None
    }
}

/// Reading an escaped description followed by its closing quote yields the
/// description back and leaves the rest untouched.
proof fn lemma_parse_escape(d: Seq<char>, rest: Seq<char>)
    ensures
        parse_str_body(escape(d) + seq!['"'] + rest) == Option::Some((d, rest)),
    decreases d.len(),
{
    let s = escape(d) + seq!['"'] + rest;
    if d.len() == 0 {
        assert(s =~= seq!['"'] + rest);
        assert(s.skip(1) =~= rest);
    } else {
        let c = d[0];
        lemma_parse_escape(d.skip(1), rest);
        if c == '"' || c == '\\' {
            assert(s[0] == '\\');
            assert(s[1] == c);
            assert(s.skip(2) =~= escape(d.skip(1)) + seq!['"'] + rest);
            assert(seq![c] + d.skip(1) =~= d);
        } else {
            assert(s[0] == c);
            assert(s.skip(1) =~= escape(d.skip(1)) + seq!['"'] + rest);
            assert(seq![c] + d.skip(1) =~= d);
        }
    }
}

/// Reading an encoded record yields the task back and leaves the rest
/// untouched.
proof fn lemma_parse_record_encode(t: TaskView, rest: Seq<char>)
    ensures
        parse_record(encode_task(t) + rest) == Option::Some((t, rest)),
{
    let s = encode_task(t) + rest;
    let flag = if t.done {
        lit_true()
    } else {
        lit_false()
    };
    let after_desc = lit_done() + flag + seq!['}'] + rest;
    assert(s.subrange(0, 9) =~= lit_open());
    assert(s.skip(9) =~= escape(t.desc) + seq!['"'] + after_desc);
    lemma_parse_escape(t.desc, after_desc);
    assert(after_desc.subrange(0, 8) =~= lit_done());
    let after_done = after_desc.skip(8);
    assert(after_done =~= flag + seq!['}'] + rest);
    if t.done {
        assert(after_done.subrange(0, 4) =~= lit_true());
        assert(after_done.skip(4) =~= seq!['}'] + rest);
        assert((seq!['}'] + rest).skip(1) =~= rest);
    } else {
        assert(after_done.subrange(0, 4)[0] == 'f');
        assert(after_done.subrange(0, 4) != lit_true());
        assert(after_done.subrange(0, 5) =~= lit_false());
        assert(after_done.skip(5) =~= seq!['}'] + rest);
        assert((seq!['}'] + rest).skip(1) =~= rest);
    }
}

/// Reading the encoded records of a non-empty list, closed by the final
/// bracket, yields the list back.
proof fn lemma_parse_records_encode(ts: Seq<TaskView>)
    requires
        ts.len() >= 1,
    ensures
        parse_records(encode_inner(ts) + seq![']']) == Option::Some(ts),
    decreases ts.len(),
{
    let s = encode_inner(ts) + seq![']'];
    if ts.len() == 1 {
        lemma_parse_record_encode(ts[0], seq![']']);
        assert(s =~= encode_task(ts[0]) + seq![']']);
        assert(seq![ts[0]] =~= ts);
    } else {
        let rest = seq![','] + encode_inner(ts.skip(1)) + seq![']'];
        assert(s =~= encode_task(ts[0]) + rest);
        lemma_parse_record_encode(ts[0], rest);
        lemma_parse_records_encode(ts.skip(1));
        assert(rest.skip(1) =~= encode_inner(ts.skip(1)) + seq![']']);
        assert(seq![ts[0]] + ts.skip(1) =~= ts);
    }
}

/// Every record is at least as long as its opening literal.
proof fn lemma_encode_task_len(t: TaskView)
    ensures
        encode_task(t).len() >= 9,
{
}

/// The durable content round-trips: decoding what the encoder wrote yields
/// the same task list, so loading a just-persisted list and persisting it
/// again produces identical durable content.
pub proof fn lemma_encode_parse_round_trip(ts: Seq<TaskView>)
    ensures
        parse_list(encode_list(ts)) == Option::Some(ts),
        encode_list(parse_list(encode_list(ts))->Some_0) == encode_list(ts),
{
    let s = encode_list(ts);
    if ts.len() == 0 {
    } else {
        lemma_encode_task_len(ts[0]);
        assert(s.len() >= 3);
        assert(s[0] == '[');
        assert(s.skip(1) =~= encode_inner(ts) + seq![']']);
        lemma_parse_records_encode(ts);
    }
}

/// Escaping distributes over concatenation.
proof fn lemma_escape_concat(a: Seq<char>, b: Seq<char>)
    ensures
        escape(a + b) == escape(a) + escape(b),
    decreases a.len(),
{
    if a.len() == 0 {
        assert(a + b =~= b);
        assert(escape(a) + escape(b) =~= escape(b));
    } else {
        lemma_escape_concat(a.skip(1), b);
        assert((a + b).skip(1) =~= a.skip(1) + b);
        assert(esc_char(a[0]) + (escape(a.skip(1)) + escape(b)) =~= (esc_char(a[0]) + escape(
            a.skip(1),
        )) + escape(b));
    }
}

/// Escaping one more character appends that character's escape.
proof fn lemma_escape_snoc(d: Seq<char>, j: int)
    requires
        0 <= j < d.len(),
    ensures
        escape(d.take(j + 1)) == escape(d.take(j)) + esc_char(d[j]),
{
    lemma_escape_concat(d.take(j), seq![d[j]]);
    assert(d.take(j + 1) =~= d.take(j) + seq![d[j]]);
    let s1 = seq![d[j]];
    assert(s1.skip(1) =~= Seq::<char>::empty());
    assert(escape(s1) == esc_char(s1[0]) + escape(s1.skip(1)));
    assert(escape(s1.skip(1)) == Seq::<char>::empty());
    assert(esc_char(d[j]) + Seq::<char>::empty() =~= esc_char(d[j]));
}

/// Encoding one more task appends a comma and that task's record.
proof fn lemma_encode_inner_snoc(ts: Seq<TaskView>, t: TaskView)
    requires
        ts.len() >= 1,
    ensures
        encode_inner(ts.push(t)) == encode_inner(ts) + seq![','] + encode_task(t),
    decreases ts.len(),
{
    let s2 = ts.push(t);
    if ts.len() == 1 {
        assert(s2.skip(1) =~= seq![t]);
        assert(encode_inner(seq![t]) == encode_task(t));
        assert(encode_task(s2[0]) + seq![','] + encode_inner(s2.skip(1)) =~= encode_inner(ts)
            + seq![','] + encode_task(t));
    } else {
        lemma_encode_inner_snoc(ts.skip(1), t);
        assert(s2.skip(1) =~= ts.skip(1).push(t));
        assert(encode_task(ts[0]) + seq![','] + (encode_inner(ts.skip(1)) + seq![',']
            + encode_task(t)) =~= (encode_task(ts[0]) + seq![','] + encode_inner(ts.skip(1)))
            + seq![','] + encode_task(t));
    }
}

fn lit_open_vec() -> (r: Vec<char>)
    ensures
        r@ == lit_open(),
{
    let mut r: Vec<char> = Vec::new();
    r.push('{');
    r.push('"');
    r.push('d');
    r.push('e');
    r.push('s');
    r.push('c');
    r.push('"');
    r.push(':');
    r.push('"');
    proof {
        assert(r@ =~= lit_open());
    }
    r
}

fn lit_done_vec() -> (r: Vec<char>)
    ensures
        r@ == lit_done(),
{
    let mut r: Vec<char> = Vec::new();
    r.push(',');
    r.push('"');
    r.push('d');
    r.push('o');
    r.push('n');
    r.push('e');
    r.push('"');
    r.push(':');
    proof {
        assert(r@ =~= lit_done());
    }
    r
}

fn lit_true_vec() -> (r: Vec<char>)
    ensures
        r@ == lit_true(),
{
    let mut r: Vec<char> = Vec::new();
    r.push('t');
    r.push('r');
    r.push('u');
    r.push('e');
    proof {
        assert(r@ =~= lit_true());
    }
    r
}

fn lit_false_vec() -> (r: Vec<char>)
    ensures
        r@ == lit_false(),
{
    let mut r: Vec<char> = Vec::new();
    r.push('f');
    r.push('a');
    r.push('l');
    r.push('s');
    r.push('e');
    proof {
        assert(r@ =~= lit_false());
    }
    r
}

/// Appends one task's record to `out`.
fn encode_task_exec(t: &Task, out: &mut String)
    ensures
        final(out)@ == old(out)@ + encode_task(t@),
{
    let lo = lit_open_vec();
    crate::strutil::push_chars(out, &lo);
    let ds = t.desc.as_str();
    let dlen = ds.unicode_len();
    let mut j: usize = 0;
    while j < dlen
        invariant
            j <= dlen,
            dlen == ds@.len(),
            ds@ == t.desc@,
            out@ == old(out)@ + lit_open() + escape(t.desc@.take(j as int)),
        decreases dlen - j,
    {
        let c = ds.get_char(j);
        if c == '"' || c == '\\' {
            push_char(out, '\\');
            push_char(out, c);
        } else {
            push_char(out, c);
        }
        proof {
            lemma_escape_snoc(t.desc@, j as int);
            assert(out@ =~= old(out)@ + lit_open() + escape(t.desc@.take(j as int + 1)));
        }
        j = j + 1;
    }
    proof {
        assert(t.desc@.take(dlen as int) =~= t.desc@);
    }
    push_char(out, '"');
    let ld = lit_done_vec();
    crate::strutil::push_chars(out, &ld);
    if t.done {
        let lt = lit_true_vec();
        crate::strutil::push_chars(out, &lt);
    } else {
        let lf = lit_false_vec();
        crate::strutil::push_chars(out, &lf);
    }
    push_char(out, '}');
    proof {
        assert(out@ =~= old(out)@ + encode_task(t@));
    }
}

/// Serializes the whole task list to its durable content.  The caller
/// replaces the durable medium's content with exactly this string, in full,
/// immediately after every mutation.
pub fn persist(tasks: &Vec<Task>) -> (r: String)
    ensures
        r@ == encode_list(views(tasks@)),
{
    let mut out = String::new();
    push_char(&mut out, '[');
    let mut i: usize = 0;
    while i < tasks.len()
        invariant
            i <= tasks@.len(),
            i == 0 ==> out@ == seq!['['],
            i >= 1 ==> out@ == seq!['['] + encode_inner(views(tasks@).take(i as int)),
        decreases tasks@.len() - i,
    {
        if i > 0 {
            push_char(&mut out, ',');
        }
        encode_task_exec(&tasks[i], &mut out);
        proof {
            let vs = views(tasks@);
            if i == 0 {
                assert(vs.take(1) =~= seq![tasks@[0]@]);
                assert(out@ =~= seq!['['] + encode_inner(vs.take(1)));
            } else {
                lemma_encode_inner_snoc(vs.take(i as int), tasks@[i as int]@);
                assert(vs.take(i as int + 1) =~= vs.take(i as int).push(tasks@[i as int]@));
                assert(out@ =~= seq!['['] + encode_inner(vs.take(i as int + 1)));
            }
        }
        i = i + 1;
    }
    push_char(&mut out, ']');
    proof {
        if tasks@.len() == 0 {
            assert(out@ =~= seq!['[', ']']);
        } else {
            assert(views(tasks@).take(tasks@.len() as int) =~= views(tasks@));
            assert(out@ =~= seq!['['] + encode_inner(views(tasks@)) + seq![']']);
        }
    }
    out
}

/// Reads a description from offset `i`, pushing its characters onto `acc`;
/// yields the offset just past the closing quote.
fn parse_str_body_exec(v: &Vec<char>, i: usize, acc: &mut Vec<char>) -> (r: Option<usize>)
    requires
        i <= v@.len(),
    ensures
        r matches Option::Some(j) ==> i <= j <= v@.len() && (parse_str_body(v@.skip(i as int))
            matches Option::Some((d, rem)) && final(acc)@ == old(acc)@ + d && rem == v@.skip(
            j as int,
        )),
        r is None ==> parse_str_body(v@.skip(i as int)) is None,
    decreases v@.len() - i,
{
    let ghost s = v@.skip(i as int);
    if i == v.len() {
        return Option::None;
    }
    let c = v[i];
    proof {
        assert(s[0] == c);
    }
    if c == '"' {
        proof {
            assert(s.skip(1) =~= v@.skip(i as int + 1));
            assert(acc@ =~= acc@ + Seq::<char>::empty());
        }
        Option::Some(i + 1)
    } else if c == '\\' {
        if i + 1 < v.len() {
            let c2 = v[i + 1];
            proof {
                assert(s[1] == c2);
            }
            if c2 == '"' || c2 == '\\' {
                acc.push(c2);
                let res = parse_str_body_exec(v, i + 2, acc);
                proof {
                    assert(s.skip(2) =~= v@.skip(i as int + 2));
                    if res is Some {
                        let (d, rem) = parse_str_body(v@.skip(i as int + 2))->Some_0;
                        assert(old(acc)@.push(c2) + d =~= old(acc)@ + (seq![c2] + d));
                    }
                }
                res
            } else {
                Option::None
            }
        } else {
            proof {
                assert(s.len() < 2);
            }
            Option::None
        }
    } else {
        acc.push(c);
        let res = parse_str_body_exec(v, i + 1, acc);
        proof {
            assert(s.skip(1) =~= v@.skip(i as int + 1));
            if res is Some {
                let (d, rem) = parse_str_body(v@.skip(i as int + 1))->Some_0;
                assert(old(acc)@.push(c) + d =~= old(acc)@ + (seq![c] + d));
            }
        }
        res
    }
}

/// Reads a flag value from offset `i`; yields it with the offset just past
/// it.
fn parse_bool_exec(v: &Vec<char>, i: usize) -> (r: Option<(bool, usize)>)
    requires
        i <= v@.len(),
    ensures
        r matches Option::Some((b, j)) ==> i <= j <= v@.len() && parse_bool(v@.skip(i as int))
            == Option::Some((b, v@.skip(j as int))),
        r is None ==> parse_bool(v@.skip(i as int)) is None,
{
    let ghost s = v@.skip(i as int);
    proof {
        if i + 4 <= v@.len() {
            assert(s.subrange(0, 4) =~= v@.subrange(i as int, i as int + 4));
        }
        if i + 5 <= v@.len() {
            assert(s.subrange(0, 5) =~= v@.subrange(i as int, i as int + 5));
        }
    }
    let lt = lit_true_vec();
    if crate::strutil::starts_with_at(v, i, &lt) {
        proof {
            assert(s.skip(4) =~= v@.skip(i as int + 4));
        }
        return Option::Some((true, i + 4));
    }
    let lf = lit_false_vec();
    if crate::strutil::starts_with_at(v, i, &lf) {
        proof {
            assert(s.skip(5) =~= v@.skip(i as int + 5));
        }
        return Option::Some((false, i + 5));
    }
    Option::None
}

/// Reads one record from offset `i`; yields the task with the offset just
/// past the record.
fn parse_record_exec(v: &Vec<char>, i: usize) -> (r: Option<(Task, usize)>)
    requires
        i <= v@.len(),
    ensures
        r matches Option::Some((t, j)) ==> i <= j <= v@.len() && parse_record(v@.skip(i as int))
            == Option::Some((t@, v@.skip(j as int))),
        r is None ==> parse_record(v@.skip(i as int)) is None,
{
    let ghost s = v@.skip(i as int);
    proof {
        if i + 9 <= v@.len() {
            assert(s.subrange(0, 9) =~= v@.subrange(i as int, i as int + 9));
        }
    }
    let lo = lit_open_vec();
    if !crate::strutil::starts_with_at(v, i, &lo) {
        return Option::None;
    }
    proof {
        assert(s.skip(9) =~= v@.skip(i as int + 9));
    }
    let mut acc: Vec<char> = Vec::new();
    match parse_str_body_exec(v, i + 9, &mut acc) {
        Option::None => Option::None,
        Option::Some(j) => {
            let ghost rafter = v@.skip(j as int);
            proof {
                if j + 8 <= v@.len() {
                    assert(rafter.subrange(0, 8) =~= v@.subrange(j as int, j as int + 8));
                }
            }
            let ld = lit_done_vec();
            if !crate::strutil::starts_with_at(v, j, &ld) {
                return Option::None;
            }
            proof {
                assert(rafter.skip(8) =~= v@.skip(j as int + 8));
            }
            match parse_bool_exec(v, j + 8) {
                Option::None => Option::None,
                Option::Some((done, j2)) => {
                    let ghost r2 = v@.skip(j2 as int);
                    if j2 < v.len() {
                        let cc = v[j2];
                        proof {
                            assert(r2[0] == cc);
                        }
                        if cc == '}' {
                            let desc = chars_to_string(&acc);
                            proof {
                                assert(r2.skip(1) =~= v@.skip(j2 as int + 1));
                            }
                            Option::Some((Task { desc, done }, j2 + 1))
                        } else {
                            Option::None
                        }
                    } else {
                        Option::None
                    }
                },
            }
        },
    }
}

/// Reads records separated by commas from offset `i` up to a final closing
/// bracket that ends the input, pushing the tasks onto `out`.
fn parse_records_exec(v: &Vec<char>, i: usize, out: &mut Vec<Task>) -> (r: bool)
    requires
        i <= v@.len(),
    ensures
        r ==> (parse_records(v@.skip(i as int)) matches Option::Some(d) && views(final(out)@)
            == views(old(out)@) + d),
        !r ==> parse_records(v@.skip(i as int)) is None,
    decreases v@.len() - i,
{
    let ghost s = v@.skip(i as int);
    match parse_record_exec(v, i) {
        Option::None => false,
        Option::Some((t, j)) => {
            let ghost tv = t@;
            out.push(t);
            let ghost mid = out@;
            proof {
                assert(views(mid) =~= views(old(out)@).push(tv));
            }
            let ghost rem = v@.skip(j as int);
            if j < v.len() && j + 1 == v.len() && v[j] == ']' {
                proof {
                    assert(rem[0] == v@[j as int]);
                    assert(rem.len() == 1);
                    assert(views(mid) =~= views(old(out)@) + seq![tv]);
                }
                true
            } else if j < v.len() && v[j] == ',' {
                proof {
                    assert(rem[0] == v@[j as int]);
                    assert(rem.skip(1) =~= v@.skip(j as int + 1));
                }
                let rr = parse_records_exec(v, j + 1, out);
                proof {
                    if rr {
                        let d2 = parse_records(v@.skip(j as int + 1))->Some_0;
                        assert(views(mid) + d2 =~= views(old(out)@) + (seq![tv] + d2));
                    }
                }
                rr
            } else {
                proof {
                    if j < v@.len() {
                        assert(rem[0] == v@[j as int]);
                    }
                }
                false
            }
        },
    }
}

/// Decodes durable content.  Succeeds exactly on what `parse_list` accepts,
/// yielding the task list it denotes; any other content is corrupt data.
pub fn parse_tasks(s: &str) -> (r: Result<Vec<Task>, LoadError>)
    ensures
        r matches Ok(ts) ==> parse_list(s@) == Option::Some(views(ts@)),
        r matches Err(e) ==> parse_list(s@) is None && e == LoadError::CorruptData,
{
    let v = crate::strutil::str_to_chars(s);
    if v.len() == 2 && v[0] == '[' && v[1] == ']' {
        let ts: Vec<Task> = Vec::new();
        proof {
            assert(views(ts@) =~= Seq::<TaskView>::empty());
        }
        Result::Ok(ts)
    } else if v.len() >= 1 && v[0] == '[' {
        let mut out: Vec<Task> = Vec::new();
        let ok = parse_records_exec(&v, 1, &mut out);
        if ok {
            proof {
                let d = parse_records(v@.skip(1))->Some_0;
                assert(views(out@) =~= Seq::<TaskView>::empty() + d);
            }
            Result::Ok(out)
        } else {
            Result::Err(LoadError::CorruptData)
        }
    } else {
        Result::Err(LoadError::CorruptData)
    }
}

/// Reads the durable medium's content handed in by the caller: absent or
/// empty content is an empty task list, anything else must decode.
pub fn load(content: &str) -> (r: Result<Vec<Task>, LoadError>)
    ensures
        content@.len() == 0 ==> (r matches Ok(ts) && views(ts@) == Seq::<TaskView>::empty()),
        content@.len() > 0 ==> (r matches Ok(ts) ==> parse_list(content@) == Option::Some(
            views(ts@),
        )),
        content@.len() > 0 ==> (r matches Err(e) ==> parse_list(content@) is None && e
            == LoadError::CorruptData),
{
    if content.is_empty() {
        let ts: Vec<Task> = Vec::new();
        proof {
            assert(views(ts@) =~= Seq::<TaskView>::empty());
        }
        Result::Ok(ts)
    } else {
        parse_tasks(content)
    }
}

} // verus!
