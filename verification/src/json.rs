use vstd::prelude::*;
use crate::models::{Todo, TodoView};
use crate::fmt::{digit_char, int_dec_seq, push_i32_dec};
use crate::store::todos_view;

verus! {

/// The hexadecimal digit character of a value below sixteen.
pub open spec fn hex_char(d: nat) -> char
    recommends
        d < 16,
{
    if d < 10 {
        digit_char(d)
    } else if d == 10 {
        'a'
    } else if d == 11 {
        'b'
    } else if d == 12 {
        'c'
    } else if d == 13 {
        'd'
    } else if d == 14 {
        'e'
    } else {
        'f'
    }
}

/// How one character of a title is written inside a JSON string literal:
/// quote and backslash are escaped, control characters become a
/// `\u00..` escape, everything else stands as itself.
pub open spec fn esc_char(c: char) -> Seq<char> {
    if c == '"' {
        seq!['\\', '"']
    } else if c == '\\' {
        seq!['\\', '\\']
    } else if (c as int) < 32 {
        seq!['\\', 'u', '0', '0', hex_char((c as nat) / 16), hex_char((c as nat) % 16)]
    } else {
        seq![c]
    }
}

/// A title as written inside a JSON string literal.
pub open spec fn json_escaped(s: Seq<char>) -> Seq<char>
    decreases s.len(),
{
    if s.len() == 0 {
        Seq::empty()
    } else {
        json_escaped(s.drop_last()) + esc_char(s.last())
    }
}

/// The text `true` or `false`.
pub open spec fn bool_seq(b: bool) -> Seq<char> {
    if b {
        "true"@
    } else {
        "false"@
    }
}

/// The JSON object written for one todo item.
pub open spec fn todo_json(t: TodoView) -> Seq<char> {
    "{\"id\":"@ + int_dec_seq(t.id) + ",\"title\":\""@ + json_escaped(t.title)
        + "\",\"is_completed\":"@ + bool_seq(t.is_completed) + "}"@
}

/// The comma-separated members of the JSON array written for a table.
pub open spec fn todo_list_items(ts: Seq<TodoView>) -> Seq<char>
    decreases ts.len(),
{
    if ts.len() == 0 {
        Seq::empty()
    } else if ts.len() == 1 {
        todo_json(ts[0])
    } else {
        todo_list_items(ts.drop_last()) + seq![','] + todo_json(ts.last())
    }
}

/// The JSON array written for a table of todo items.
pub open spec fn todo_list_json(ts: Seq<TodoView>) -> Seq<char> {
    seq!['['] + todo_list_items(ts) + seq![']']
}

/// Appends every character of `s`.
#[verifier::loop_isolation(false)]
pub fn push_str(out: &mut Vec<char>, s: &str)
    ensures
        final(out)@ == old(out)@ + s@,
{
    let n = s.unicode_len();
    for i in 0..n
        invariant
            n == s@.len(),
            out@ == old(out)@ + s@.subrange(0, i as int),
    {
        out.push(s.get_char(i));
        proof {
            assert(out@ =~= old(out)@ + s@.subrange(0, i as int + 1));
        }
    }
    proof {
        assert(s@.subrange(0, n as int) =~= s@);
    }
}

fn hex_digit(d: u32) -> (c: char)
    requires
        d < 16,
    ensures
        c == hex_char(d as nat),
{
    if d == 0 {
        '0'
    } else if d == 1 {
        '1'
    } else if d == 2 {
        '2'
    } else if d == 3 {
        '3'
    } else if d == 4 {
        '4'
    } else if d == 5 {
        '5'
    } else if d == 6 {
        '6'
    } else if d == 7 {
        '7'
    } else if d == 8 {
        '8'
    } else if d == 9 {
        '9'
    } else if d == 10 {
        'a'
    } else if d == 11 {
        'b'
    } else if d == 12 {
        'c'
    } else if d == 13 {
        'd'
    } else if d == 14 {
        'e'
    } else {
        'f'
    }
}

/// Appends a title in its escaped form.
#[verifier::loop_isolation(false)]
pub fn push_escaped(out: &mut Vec<char>, s: &str)
    ensures
        final(out)@ == old(out)@ + json_escaped(s@),
{
    let n = s.unicode_len();
    for i in 0..n
        invariant
            n == s@.len(),
            out@ == old(out)@ + json_escaped(s@.subrange(0, i as int)),
    {
        let c = s.get_char(i);
        proof {
            assert(s@.subrange(0, i as int + 1).drop_last() =~= s@.subrange(0, i as int));
            assert(s@.subrange(0, i as int + 1).last() == c);
        }
        if c == '"' {
            out.push('\\');
            out.push('"');
        } else if c == '\\' {
            out.push('\\');
            out.push('\\');
        } else if (c as u32) < 32 {
            let v = c as u32;
            out.push('\\');
            out.push('u');
            out.push('0');
            out.push('0');
            out.push(hex_digit(v / 16));
            out.push(hex_digit(v % 16));
        } else {
            out.push(c);
        }
        proof {
            assert(out@ =~= old(out)@ + json_escaped(s@.subrange(0, i as int + 1)));
        }
    }
    proof {
        assert(s@.subrange(0, n as int) =~= s@);
    }
}

/// Appends the JSON object for one todo item.
pub fn write_todo(out: &mut Vec<char>, t: &Todo)
    ensures
        final(out)@ == old(out)@ + todo_json(t@),
{
    push_str(out, "{\"id\":");
    push_i32_dec(out, t.id);
    push_str(out, ",\"title\":\"");
    push_escaped(out, t.title.as_str());
    push_str(out, "\",\"is_completed\":");
    if t.is_completed {
        push_str(out, "true");
    } else {
        push_str(out, "false");
    }
    push_str(out, "}");
    proof {
        assert(out@ =~= old(out)@ + todo_json(t@));
    }
}

/// Appends the JSON array for a table of todo items.
#[verifier::loop_isolation(false)]
pub fn write_todo_list(out: &mut Vec<char>, ts: &Vec<Todo>)
    ensures
        final(out)@ == old(out)@ + todo_list_json(todos_view(ts@)),
{
    out.push('[');
    let n = ts.len();
    for i in 0..n
        invariant
            n == ts@.len(),
            out@ == old(out)@ + seq!['['] + todo_list_items(todos_view(ts@).subrange(0, i as int)),
    {
        if i > 0 {
            out.push(',');
        }
        write_todo(out, &ts[i]);
        proof {
            let v = todos_view(ts@);
            assert(v.subrange(0, i as int + 1).drop_last() =~= v.subrange(0, i as int));
            assert(v.subrange(0, i as int + 1).last() == ts@[i as int]@);
            assert(out@ =~= old(out)@ + seq!['['] + todo_list_items(v.subrange(0, i as int + 1)));
        }
    }
    out.push(']');
    proof {
        assert(todos_view(ts@).subrange(0, n as int) =~= todos_view(ts@));
        assert(out@ =~= old(out)@ + todo_list_json(todos_view(ts@)));
    }
}

/// Relies on `String`'s `FromIterator` over `char`: collecting yields a
/// string holding exactly the given characters, in order.
#[verifier::external_body]
pub fn chars_to_string(v: &Vec<char>) -> (r: String)
    ensures
        r@ == v@,
{
    v.iter().collect()
}

/// The characters of `s`, as a vector.
#[verifier::loop_isolation(false)]
pub fn str_chars(s: &str) -> (r: Vec<char>)
    ensures
        r@ == s@,
{
    let mut out: Vec<char> = Vec::new();
    let n = s.unicode_len();
    for i in 0..n
        invariant
            n == s@.len(),
            out@ == s@.subrange(0, i as int),
    {
        out.push(s.get_char(i));
        proof {
            assert(out@ =~= s@.subrange(0, i as int + 1));
        }
    }
    proof {
        assert(out@ =~= s@);
    }
    out
}

/// The JSON text for one todo item, as a string.
pub fn todo_json_string(t: &Todo) -> (r: String)
    ensures
        r@ == todo_json(t@),
{
    let mut out: Vec<char> = Vec::new();
    write_todo(&mut out, t);
    chars_to_string(&out)
}

/// The JSON text for a table of todo items, as a string.
pub fn todo_list_json_string(ts: &Vec<Todo>) -> (r: String)
    ensures
        r@ == todo_list_json(todos_view(ts@)),
{
    let mut out: Vec<char> = Vec::new();
    write_todo_list(&mut out, ts);
    chars_to_string(&out)
}

} // verus!
