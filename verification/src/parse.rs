use vstd::prelude::*;
use crate::models::{Todo, TodoView};
use crate::fmt::{all_digits, char_digit, dec_seq, dec_value, digit_char, int_dec_seq, is_digit};
use crate::json::{bool_seq, chars_to_string, esc_char, hex_char, json_escaped, str_chars, todo_json, todo_list_items, todo_list_json};

verus! {

/// Powers of ten.
pub open spec fn pow10(n: nat) -> nat
    decreases n,
{
    if n == 0 {
        1
    } else {
        10 * pow10((n - 1) as nat)
    }
}

/// Where reading `lit` at `i` ends: just past it, when it stands there.
pub open spec fn spec_take_lit(s: Seq<char>, i: int, lit: Seq<char>) -> Option<int> {
    if 0 <= i && i + lit.len() <= s.len() && s.subrange(i, i + lit.len()) == lit {
        Some(i + lit.len())
    } else {
        None
    }
}

#[verifier::loop_isolation(false)]
fn take_lit(s: &[char], i: usize, lit: &str) -> (r: Option<usize>)
    requires
        i <= s@.len(),
    ensures
        match r {
            Some(j) => {
                &&& spec_take_lit(s@, i as int, lit@) == Some(j as int)
                &&& i <= j <= s@.len()
                &&& j == i + lit@.len()
            },
            None => spec_take_lit(s@, i as int, lit@) is None,
        },
{
    let m = lit.unicode_len();
    if s.len() - i < m {
        return None;
    }
    for k in 0..m
        invariant
            m == lit@.len(),
            i + m <= s@.len(),
            forall|q: int| 0 <= q < k ==> s@[i + q] == lit@[q],
    {
        if s[i + k] != lit.get_char(k) {
            proof {
                assert(s@.subrange(i as int, i as int + lit@.len())[k as int] == s@[i + k]);
                assert(s@.subrange(i as int, i as int + lit@.len()) != lit@);
            }
            return None;
        }
    }
    proof {
        assert(s@.subrange(i as int, i as int + lit@.len()) =~= lit@);
    }
    Some(i + m)
}

/// Where the run of digits beginning at `i` ends, reading at most `fuel`
/// of them.
pub open spec fn digit_run(s: Seq<char>, i: int, fuel: nat) -> int
    decreases fuel,
{
    if fuel == 0 || !(0 <= i < s.len()) || !is_digit(s[i]) {
        i
    } else {
        digit_run(s, i + 1, (fuel - 1) as nat)
    }
}

/// The unsigned number read at `i`: one to ten digits with no digit
/// following; a todo identifier is never written longer.
pub open spec fn spec_take_uint(s: Seq<char>, i: int) -> Option<(int, int)> {
    let e = digit_run(s, i, 10);
    if e == i {
        None
    } else if e < s.len() && is_digit(s[e]) {
        None
    } else {
        Some((dec_value(s.subrange(i, e)) as int, e))
    }
}

#[verifier::loop_isolation(false)]
fn take_uint(s: &[char], i: usize) -> (r: Option<(u64, usize)>)
    requires
        i <= s@.len(),
    ensures
        match r {
            Some(p) => {
                &&& spec_take_uint(s@, i as int) == Some((p.0 as int, p.1 as int))
                &&& i < p.1 <= s@.len()
            },
            None => spec_take_uint(s@, i as int) is None,
        },
{
    let n = s.len();
    let mut k: usize = i;
    let mut acc: u64 = 0;
    proof {
        reveal_with_fuel(pow10, 11);
    }
    while k < n && k - i < 10 && '0' <= s[k] && s[k] <= '9'
        invariant
            i <= k <= n,
            k - i <= 10,
            n == s@.len(),
            acc == dec_value(s@.subrange(i as int, k as int)),
            acc < pow10((k - i) as nat),
            digit_run(s@, i as int, 10) == digit_run(s@, k as int, (10 - (k - i)) as nat),
        decreases n - k,
    {
        proof {
            assert(pow10((k - i) as nat) <= pow10(9)) by {
                assert forall|a: nat, b: nat| a <= b && b <= 10 implies pow10(a) <= pow10(
                    b,
                ) by {
                    lemma_pow10_le(a, b);
                }
            }
            let p = s@.subrange(i as int, k as int);
            let p2 = s@.subrange(i as int, k as int + 1);
            assert(p2.drop_last() =~= p);
            assert(p2.last() == s@[k as int]);
        }
        let dv: u64 = ((s[k] as u32) - 48) as u64;
        acc = acc * 10 + dv;
        k = k + 1;
    }
    proof {
        assert(digit_run(s@, k as int, (10 - (k - i)) as nat) == k as int);
        assert(digit_run(s@, i as int, 10) == k as int);
    }
    if k == i {
        return None;
    }
    if k < n && '0' <= s[k] && s[k] <= '9' {
        return None;
    }
    Some((acc, k))
}

proof fn lemma_pow10_le(a: nat, b: nat)
    requires
        a <= b,
    ensures
        pow10(a) <= pow10(b),
    decreases b,
{
    if a < b {
        lemma_pow10_le(a, (b - 1) as nat);
        assert(pow10(b) == 10 * pow10((b - 1) as nat));
    }
}

/// The signed number read at `i`, within the magnitudes an identifier can
/// have.
pub open spec fn spec_take_int(s: Seq<char>, i: int) -> Option<(int, int)> {
    if 0 <= i && i < s.len() && s[i] == '-' {
        match spec_take_uint(s, i + 1) {
            Some((v, j)) => if v <= 0x8000_0000 {
                Some((-v, j))
            } else {
                None
            },
            None => None,
        }
    } else {
        match spec_take_uint(s, i) {
            Some((v, j)) => if v < 0x8000_0000 {
                Some((v, j))
            } else {
                None
            },
            None => None,
        }
    }
}

fn take_int(s: &[char], i: usize) -> (r: Option<(i32, usize)>)
    requires
        i <= s@.len(),
    ensures
        match r {
            Some(p) => {
                &&& spec_take_int(s@, i as int) == Some((p.0 as int, p.1 as int))
                &&& i < p.1 <= s@.len()
            },
            None => spec_take_int(s@, i as int) is None,
        },
{
    if i < s.len() && s[i] == '-' {
        match take_uint(s, i + 1) {
            Some((v, j)) => {
                if v <= 0x8000_0000 {
                    Some(((-(v as i64)) as i32, j))
                } else {
                    None
                }
            },
            None => None,
        }
    } else {
        match take_uint(s, i) {
            Some((v, j)) => {
                if v < 0x8000_0000 {
                    Some((v as i32, j))
                } else {
                    None
                }
            },
            None => None,
        }
    }
}

/// True for the lower-case hexadecimal digits.
pub open spec fn is_hex_lower(c: char) -> bool {
    is_digit(c) || (97 <= c as int && c as int <= 102)
}

/// The value of a lower-case hexadecimal digit.
pub open spec fn hex_val(c: char) -> nat
    recommends
        is_hex_lower(c),
{
    if is_digit(c) {
        char_digit(c)
    } else {
        (c as int - 87) as nat
    }
}

/// Joins a read character onto a read tail.
pub open spec fn title_cons(c: char, r: Option<(Seq<char>, int)>) -> Option<(Seq<char>, int)> {
    match r {
        Some((t, j)) => Some((seq![c] + t, j)),
        None => None,
    }
}

/// The title read at `i`, up to and past its closing quote, undoing the
/// escapes the writer makes: `\"`, `\\`, and `\u00..` below 32.
pub open spec fn spec_take_title(s: Seq<char>, i: int) -> Option<(Seq<char>, int)>
    decreases s.len() - i when 0 <= i <= s.len()
{
    if !(0 <= i && i < s.len()) {
        None
    } else if s[i] == '"' {
        Some((Seq::empty(), i + 1))
    } else if s[i] == '\\' {
        if i + 1 < s.len() && s[i + 1] == '"' {
            title_cons('"', spec_take_title(s, i + 2))
        } else if i + 1 < s.len() && s[i + 1] == '\\' {
            title_cons('\\', spec_take_title(s, i + 2))
        } else if i + 5 < s.len() && s[i + 1] == 'u' && s[i + 2] == '0' && s[i + 3] == '0'
            && is_hex_lower(s[i + 4]) && is_hex_lower(s[i + 5]) && hex_val(s[i + 4]) * 16
            + hex_val(s[i + 5]) < 32 {
            title_cons(
                ((hex_val(s[i + 4]) * 16 + hex_val(s[i + 5])) as u8) as char,
                spec_take_title(s, i + 6),
            )
        } else {
            None
        }
    } else if s[i] as int >= 32 {
        title_cons(s[i], spec_take_title(s, i + 1))
    } else {
        None
    }
}

fn hex_digit_val(c: char) -> (r: Option<u32>)
    ensures
        match r {
            Some(v) => is_hex_lower(c) && v as nat == hex_val(c) && v < 16,
            None => !is_hex_lower(c),
        },
{
    if '0' <= c && c <= '9' {
        Some((c as u32) - 48)
    } else if 'a' <= c && c <= 'f' {
        Some((c as u32) - 87)
    } else {
        None
    }
}

fn take_title(s: &[char], i: usize) -> (r: Option<(Vec<char>, usize)>)
    requires
        i <= s@.len(),
    ensures
        match r {
            Some(p) => {
                &&& spec_take_title(s@, i as int) == Some((p.0@, p.1 as int))
                &&& i < p.1 <= s@.len()
            },
            None => spec_take_title(s@, i as int) is None,
        },
    decreases s@.len() - i,
{
    if i >= s.len() {
        return None;
    }
    let c = s[i];
    if c == '"' {
        return Some((Vec::new(), i + 1));
    }
    if c == '\\' {
        if i + 1 < s.len() && s[i + 1] == '"' {
            return match take_title(s, i + 2) {
                Some((mut t, j)) => {
                    let ghost t0 = t@;
                    t.insert(0, '"');
                    proof {
                        assert(t@ =~= seq!['"'] + t0);
                    }
                    Some((t, j))
                },
                None => None,
            };
        }
        if i + 1 < s.len() && s[i + 1] == '\\' {
            return match take_title(s, i + 2) {
                Some((mut t, j)) => {
                    let ghost t0 = t@;
                    t.insert(0, '\\');
                    proof {
                        assert(t@ =~= seq!['\\'] + t0);
                    }
                    Some((t, j))
                },
                None => None,
            };
        }
        if s.len() - i > 5 && s[i + 1] == 'u' && s[i + 2] == '0' && s[i + 3] == '0' {
            let hi = match hex_digit_val(s[i + 4]) {
                Some(v) => v,
                None => {
                    return None;
                },
            };
            let lo = match hex_digit_val(s[i + 5]) {
                Some(v) => v,
                None => {
                    return None;
                },
            };
            let v = hi * 16 + lo;
            if v >= 32 {
                return None;
            }
            let decoded = (v as u8) as char;
            return match take_title(s, i + 6) {
                Some((mut t, j)) => {
                    let ghost t0 = t@;
                    t.insert(0, decoded);
                    proof {
                        assert(t@ =~= seq![decoded] + t0);
                    }
                    Some((t, j))
                },
                None => None,
            };
        }
        return None;
    }
    if c >= ' ' {
        return match take_title(s, i + 1) {
            Some((mut t, j)) => {
                let ghost t0 = t@;
                t.insert(0, c);
                proof {
                    assert(t@ =~= seq![c] + t0);
                }
                Some((t, j))
            },
            None => None,
        };
    }
    None
}


/// The boolean read at `i`: the text `true` or `false`.
pub open spec fn spec_take_bool(s: Seq<char>, i: int) -> Option<(bool, int)> {
    match spec_take_lit(s, i, "true"@) {
        Some(j) => Some((true, j)),
        None => match spec_take_lit(s, i, "false"@) {
            Some(j) => Some((false, j)),
            None => None,
        },
    }
}

fn take_bool(s: &[char], i: usize) -> (r: Option<(bool, usize)>)
    requires
        i <= s@.len(),
    ensures
        match r {
            Some(p) => {
                &&& spec_take_bool(s@, i as int) == Some((p.0, p.1 as int))
                &&& i < p.1 <= s@.len()
            },
            None => spec_take_bool(s@, i as int) is None,
        },
{
    proof {
        reveal_strlit("true");
        reveal_strlit("false");
    }
    match take_lit(s, i, "true") {
        Some(j) => Some((true, j)),
        None => match take_lit(s, i, "false") {
            Some(j) => Some((false, j)),
            None => None,
        },
    }
}

/// The todo object read at `i`: the fields in the order and the shape the
/// writer emits them.
pub open spec fn spec_take_todo(s: Seq<char>, i: int) -> Option<(TodoView, int)> {
    match spec_take_lit(s, i, "{\"id\":"@) {
        None => None,
        Some(j1) => match spec_take_int(s, j1) {
            None => None,
            Some((id, j2)) => match spec_take_lit(s, j2, ",\"title\":\""@) {
                None => None,
                Some(j3) => match spec_take_title(s, j3) {
                    None => None,
                    Some((title, j4)) => match spec_take_lit(s, j4, ",\"is_completed\":"@) {
                        None => None,
                        Some(j5) => match spec_take_bool(s, j5) {
                            None => None,
                            Some((flag, j6)) => match spec_take_lit(s, j6, "}"@) {
                                None => None,
                                Some(j7) => Some(
                                    (TodoView { id: id, title: title, is_completed: flag }, j7),
                                ),
                            },
                        },
                    },
                },
            },
        },
    }
}

fn take_todo(s: &[char], i: usize) -> (r: Option<(Todo, usize)>)
    requires
        i <= s@.len(),
    ensures
        match r {
            Some(p) => {
                &&& spec_take_todo(s@, i as int) == Some((p.0@, p.1 as int))
                &&& i < p.1 <= s@.len()
            },
            None => spec_take_todo(s@, i as int) is None,
        },
{
    proof {
        reveal_strlit("{\"id\":");
        reveal_strlit(",\"title\":\"");
        reveal_strlit(",\"is_completed\":");
        reveal_strlit("}");
    }
    let j1 = match take_lit(s, i, "{\"id\":") {
        Some(j) => j,
        None => {
            return None;
        },
    };
    let (id, j2) = match take_int(s, j1) {
        Some(p) => p,
        None => {
            return None;
        },
    };
    let j3 = match take_lit(s, j2, ",\"title\":\"") {
        Some(j) => j,
        None => {
            return None;
        },
    };
    let (title, j4) = match take_title(s, j3) {
        Some(p) => p,
        None => {
            return None;
        },
    };
    let j5 = match take_lit(s, j4, ",\"is_completed\":") {
        Some(j) => j,
        None => {
            return None;
        },
    };
    let (flag, j6) = match take_bool(s, j5) {
        Some(p) => p,
        None => {
            return None;
        },
    };
    let j7 = match take_lit(s, j6, "}") {
        Some(j) => j,
        None => {
            return None;
        },
    };
    Some((Todo { id, title: chars_to_string(&title), is_completed: flag }, j7))
}

/// The comma-separated todo objects read at `i`; the fuel bounds how many.
pub open spec fn spec_take_items(s: Seq<char>, i: int, fuel: nat) -> Option<(Seq<TodoView>, int)>
    decreases fuel,
{
    if fuel == 0 {
        None
    } else {
        match spec_take_todo(s, i) {
            None => None,
            Some((t, j)) => if 0 <= j && j < s.len() && s[j] == ',' {
                match spec_take_items(s, j + 1, (fuel - 1) as nat) {
                    None => None,
                    Some((ts, k)) => Some((seq![t] + ts, k)),
                }
            } else {
                Some((seq![t], j))
            },
        }
    }
}

fn take_items(s: &[char], i: usize, fuel: usize) -> (r: Option<(Vec<Todo>, usize)>)
    requires
        i <= s@.len(),
    ensures
        match r {
            Some(p) => {
                &&& spec_take_items(s@, i as int, fuel as nat) == Some(
                    (crate::store::todos_view(p.0@), p.1 as int),
                )
                &&& i < p.1 <= s@.len()
            },
            None => spec_take_items(s@, i as int, fuel as nat) is None,
        },
    decreases fuel,
{
    if fuel == 0 {
        return None;
    }
    let (t, j) = match take_todo(s, i) {
        Some(p) => p,
        None => {
            return None;
        },
    };
    if j < s.len() && s[j] == ',' {
        match take_items(s, j + 1, fuel - 1) {
            Some((mut ts, k)) => {
                let ghost ts0 = ts@;
                ts.insert(0, t);
                proof {
                    assert(crate::store::todos_view(ts@) =~= seq![ts@[0]@] + crate::store::todos_view(
                        ts0,
                    ));
                }
                Some((ts, k))
            },
            None => None,
        }
    } else {
        let mut one: Vec<Todo> = Vec::new();
        let ghost tv = t@;
        one.push(t);
        proof {
            assert(crate::store::todos_view(one@) =~= seq![tv]);
        }
        Some((one, j))
    }
}

/// What a whole string parses to as one todo object.
pub open spec fn spec_parse_todo(s: Seq<char>) -> Option<TodoView> {
    match spec_take_todo(s, 0) {
        Some((t, j)) => if j == s.len() {
            Some(t)
        } else {
            None
        },
        None => None,
    }
}

/// Parses a whole string as one todo object, in the exact shape the
/// writer emits.
pub fn parse_todo(s: &str) -> (r: Option<Todo>)
    ensures
        match r {
            Some(t) => spec_parse_todo(s@) == Some(t@),
            None => spec_parse_todo(s@) is None,
        },
{
    let chars = str_chars(s);
    match take_todo(chars.as_slice(), 0) {
        Some((t, j)) => {
            if j == chars.len() {
                Some(t)
            } else {
                None
            }
        },
        None => None,
    }
}

/// What a whole string parses to as a todo array.
pub open spec fn spec_parse_todo_list(s: Seq<char>) -> Option<Seq<TodoView>> {
    if s.len() == 2 && s[0] == '[' && s[1] == ']' {
        Some(Seq::empty())
    } else if s.len() > 0 && s[0] == '[' {
        match spec_take_items(s, 1, s.len() as nat) {
            None => None,
            Some((ts, j)) => if j + 1 == s.len() && j < s.len() && s[j] == ']' {
                Some(ts)
            } else {
                None
            },
        }
    } else {
        None
    }
}

/// Parses a whole string as a todo array, in the exact shape the writer
/// emits.
pub fn parse_todo_list(s: &str) -> (r: Option<Vec<Todo>>)
    ensures
        match r {
            Some(ts) => spec_parse_todo_list(s@) == Some(crate::store::todos_view(ts@)),
            None => spec_parse_todo_list(s@) is None,
        },
{
    let chars = str_chars(s);
    let n = chars.len();
    if n == 2 && chars[0] == '[' && chars[1] == ']' {
        let empty: Vec<Todo> = Vec::new();
        proof {
            assert(crate::store::todos_view(empty@) =~= Seq::<TodoView>::empty());
        }
        return Some(empty);
    }
    if n > 0 && chars[0] == '[' {
        match take_items(chars.as_slice(), 1, n) {
            Some((ts, j)) => {
                if j == n - 1 && chars[j] == ']' {
                    Some(ts)
                } else {
                    None
                }
            },
            None => None,
        }
    } else {
        None
    }
}


proof fn lemma_split_prefix(s: Seq<char>, i: int, a: Seq<char>, b: Seq<char>)
    requires
        0 <= i,
        i + a.len() + b.len() <= s.len(),
        s.subrange(i, i + a.len() + b.len()) == a + b,
    ensures
        s.subrange(i, i + a.len()) == a,
        s.subrange(i + a.len(), i + a.len() + b.len()) == b,
{
    let whole = s.subrange(i, i + a.len() + b.len());
    assert forall|q: int| 0 <= q < a.len() implies s.subrange(i, i + a.len())[q] == a[q] by {
        assert(whole[q] == s[i + q]);
        assert(s.subrange(i, i + a.len())[q] == s[i + q]);
        assert((a + b)[q] == a[q]);
    }
    assert(s.subrange(i, i + a.len()) =~= a);
    assert forall|q: int|
        0 <= q < b.len() implies s.subrange(i + a.len(), i + a.len() + b.len())[q] == b[q] by {
        assert(whole[a.len() + q] == s[i + a.len() + q]);
        assert(s.subrange(i + a.len(), i + a.len() + b.len())[q] == s[i + a.len() + q]);
        assert((a + b)[a.len() + q] == b[q]);
    }
    assert(s.subrange(i + a.len(), i + a.len() + b.len()) =~= b);
}

proof fn lemma_json_escaped_front(t: Seq<char>)
    requires
        t.len() > 0,
    ensures
        json_escaped(t) == esc_char(t[0]) + json_escaped(t.drop_first()),
    decreases t.len(),
{
    if t.len() == 1 {
        assert(t.drop_last() =~= Seq::<char>::empty());
        assert(t.drop_first() =~= Seq::<char>::empty());
        assert(t.last() == t[0]);
        assert(json_escaped(t) =~= esc_char(t[0]) + json_escaped(t.drop_first()));
    } else {
        let u = t.drop_last();
        lemma_json_escaped_front(u);
        assert(u[0] == t[0]);
        assert(t.drop_first().drop_last() =~= u.drop_first());
        assert(t.drop_first().last() == t.last());
        assert(json_escaped(t.drop_first()) == json_escaped(t.drop_first().drop_last())
            + esc_char(t.drop_first().last()));
        assert(json_escaped(t) =~= esc_char(t[0]) + json_escaped(t.drop_first()));
    }
}

proof fn lemma_control_char_facts(c: char)
    requires
        (c as int) < 32,
    ensures
        c as nat == c as int,
        (c as nat) < 32,
        (c as nat) / 16 < 16,
        (c as nat) % 16 < 16,
        ((c as nat) / 16) * 16 + ((c as nat) % 16) == c as nat,
        (((c as int) as u8) as char) == c,
{
}

proof fn lemma_hex_char_val(d: nat)
    requires
        d < 16,
    ensures
        is_hex_lower(hex_char(d)),
        hex_val(hex_char(d)) == d,
{
}

proof fn lemma_take_title_exact(s: Seq<char>, i: int, title: Seq<char>)
    requires
        0 <= i,
        i + json_escaped(title).len() + 1 <= s.len(),
        s.subrange(i, i + json_escaped(title).len() + 1) == json_escaped(title) + seq!['"'],
    ensures
        spec_take_title(s, i) == Some((title, i + json_escaped(title).len() + 1)),
    decreases title.len(),
{
    let e = json_escaped(title);
    assert forall|q: int| 0 <= q < e.len() + 1 implies s[i + q] == (e + seq!['"'])[q] by {
        assert(s.subrange(i, i + e.len() + 1)[q] == s[i + q]);
    }
    if title.len() == 0 {
        assert(e =~= Seq::<char>::empty());
        assert(s.subrange(i, i + e.len() + 1)[0] == s[i]);
        assert((e + seq!['"'])[0] == '"');
        assert(s[i] == '"');
    } else {
        lemma_json_escaped_front(title);
        let c = title[0];
        let rest = title.drop_first();
        let ec = esc_char(c);
        let e2 = json_escaped(rest);
        let i2 = i + ec.len();
        assert(e == ec + e2);
        assert forall|q: int| 0 <= q < ec.len() implies s[i + q] == ec[q] by {
            assert((e + seq!['"'])[q] == e[q]);
            assert(e[q] == ec[q]);
        }
        assert(s.subrange(i2, i2 + e2.len() + 1) =~= e2 + seq!['"']) by {
            assert forall|q: int| 0 <= q < e2.len() + 1 implies s[i2 + q] == (e2 + seq!['"'])[q] by {
                assert(s[i + (ec.len() + q)] == (e + seq!['"'])[ec.len() + q]);
            }
        }
        lemma_take_title_exact(s, i2, rest);
        assert(seq![c] + rest =~= title);
        if c == '"' {
            assert(s[i] == '\\');
            assert(s[i + 1] == '"');
        } else if c == '\\' {
            assert(s[i] == '\\');
            assert(s[i + 1] == '\\');
        } else if (c as int) < 32 {
            lemma_control_char_facts(c);
            lemma_hex_char_val((c as nat) / 16);
            lemma_hex_char_val((c as nat) % 16);
            assert(s[i] == '\\');
            assert(s[i + 1] == 'u');
            assert(s[i + 2] == '0');
            assert(s[i + 3] == '0');
            assert(s[i + 4] == hex_char((c as nat) / 16));
            assert(s[i + 5] == hex_char((c as nat) % 16));
            assert(hex_val(s[i + 4]) * 16 + hex_val(s[i + 5]) == c as int);
            assert((((hex_val(s[i + 4]) * 16 + hex_val(s[i + 5])) as u8) as char) == c);
        } else {
            assert(s[i] == c);
        }
    }
}

proof fn lemma_dec_seq_props(n: nat)
    ensures
        dec_seq(n).len() >= 1,
        all_digits(dec_seq(n)),
        dec_value(dec_seq(n)) == n,
    decreases n,
{
    if n < 10 {
        let d = dec_seq(n);
        assert(is_digit(digit_char(n)));
        assert(d == seq![digit_char(n)]);
        assert(d.len() == 1);
        assert(d.last() == digit_char(n));
        assert(d.drop_last() =~= Seq::<char>::empty());
        assert(dec_value(d.drop_last()) == 0);
        assert(char_digit(digit_char(n)) == n);
        assert(dec_value(d) == dec_value(d.drop_last()) * 10 + char_digit(d.last()));
        assert(dec_value(dec_seq(n)) == n);
        assert forall|k: int| 0 <= k < dec_seq(n).len() implies is_digit(dec_seq(n)[k]) by {
            assert(dec_seq(n)[k] == digit_char(n));
        }
    } else {
        lemma_dec_seq_props(n / 10);
        let d = dec_seq(n);
        assert(d == dec_seq(n / 10).push(digit_char(n % 10)));
        assert(d.drop_last() =~= dec_seq(n / 10));
        assert(d.last() == digit_char(n % 10));
        assert(is_digit(digit_char(n % 10)));
        assert(char_digit(digit_char(n % 10)) == n % 10);
        assert forall|k: int| 0 <= k < d.len() implies is_digit(d[k]) by {
            if k < d.len() - 1 {
                assert(d[k] == dec_seq(n / 10)[k]);
                assert(is_digit(dec_seq(n / 10)[k]));
            } else {
                assert(d[k] == digit_char(n % 10));
            }
        }
        assert(dec_value(d) == dec_value(dec_seq(n / 10)) * 10 + (n % 10));
        assert(dec_value(d) == n);
    }
}

proof fn lemma_dec_seq_len(n: nat, k: nat)
    requires
        n < pow10(k),
        k >= 1,
    ensures
        dec_seq(n).len() <= k,
    decreases k,
{
    if n < 10 {
    } else {
        assert(pow10(k) == 10 * pow10((k - 1) as nat));
        if k == 1 {
            assert(pow10(0) == 1);
            assert(false);
        }
        assert(n / 10 < pow10((k - 1) as nat));
        lemma_dec_seq_len(n / 10, (k - 1) as nat);
    }
}

proof fn lemma_digit_run_exact(s: Seq<char>, i: int, d: Seq<char>, fuel: nat)
    requires
        all_digits(d),
        0 <= i,
        i + d.len() <= s.len(),
        s.subrange(i, i + d.len()) == d,
        d.len() <= fuel,
        i + d.len() == s.len() || !is_digit(s[i + d.len()]),
    ensures
        digit_run(s, i, fuel) == i + d.len(),
    decreases d.len(),
{
    if d.len() == 0 {
    } else {
        assert(s.subrange(i, i + d.len())[0] == s[i]);
        assert(s[i] == d[0]);
        assert(is_digit(d[0]));
        let d2 = d.drop_first();
        assert(all_digits(d2)) by {
            assert forall|q: int| 0 <= q < d2.len() implies is_digit(d2[q]) by {
                assert(d2[q] == d[q + 1]);
                assert(is_digit(d[q + 1]));
            }
        }
        assert(s.subrange(i + 1, i + d.len()) =~= d2) by {
            assert forall|q: int|
                0 <= q < d2.len() implies s.subrange(i + 1, i + d.len())[q] == d2[q] by {
                assert(s.subrange(i + 1, i + d.len())[q] == s[i + 1 + q]);
                assert(s.subrange(i, i + d.len())[q + 1] == s[i + 1 + q]);
                assert(d2[q] == d[q + 1]);
            }
        }
        lemma_digit_run_exact(s, i + 1, d2, (fuel - 1) as nat);
    }
}

proof fn lemma_take_uint_exact(s: Seq<char>, i: int, n: nat)
    requires
        0 <= i,
        n <= 0xFFFF_FFFF,
        i + dec_seq(n).len() <= s.len(),
        s.subrange(i, i + dec_seq(n).len()) == dec_seq(n),
        i + dec_seq(n).len() == s.len() || !is_digit(s[i + dec_seq(n).len()]),
    ensures
        spec_take_uint(s, i) == Some((n as int, i + dec_seq(n).len())),
{
    lemma_dec_seq_props(n);
    reveal_with_fuel(pow10, 11);
    lemma_dec_seq_len(n, 10);
    lemma_digit_run_exact(s, i, dec_seq(n), 10);
}

proof fn lemma_take_int_exact(s: Seq<char>, i: int, v: int)
    requires
        -0x8000_0000 <= v < 0x8000_0000,
        0 <= i,
        i + int_dec_seq(v).len() <= s.len(),
        s.subrange(i, i + int_dec_seq(v).len()) == int_dec_seq(v),
        i + int_dec_seq(v).len() == s.len() || !is_digit(s[i + int_dec_seq(v).len()]),
    ensures
        spec_take_int(s, i) == Some((v, i + int_dec_seq(v).len())),
{
    if v < 0 {
        let m = (-v) as nat;
        lemma_dec_seq_props(m);
        lemma_split_prefix(s, i, seq!['-'], dec_seq(m));
        assert(s.subrange(i, i + 1)[0] == s[i]);
        assert(s[i] == '-');
        lemma_take_uint_exact(s, i + 1, m);
    } else {
        lemma_dec_seq_props(v as nat);
        lemma_take_uint_exact(s, i, v as nat);
        assert(s.subrange(i, i + dec_seq(v as nat).len())[0] == s[i]);
        assert(is_digit(s[i]));
        assert(s[i] != '-');
    }
}


proof fn lemma_take_todo_exact(s: Seq<char>, i: int, t: TodoView)
    requires
        -0x8000_0000 <= t.id < 0x8000_0000,
        0 <= i,
        i + todo_json(t).len() <= s.len(),
        s.subrange(i, i + todo_json(t).len()) == todo_json(t),
    ensures
        spec_take_todo(s, i) == Some((t, i + todo_json(t).len())),
{
    reveal_strlit("{\"id\":");
    reveal_strlit(",\"title\":\"");
    reveal_strlit("\",\"is_completed\":");
    reveal_strlit(",\"is_completed\":");
    reveal_strlit("}");
    reveal_strlit("true");
    reveal_strlit("false");
    let l1 = "{\"id\":"@;
    let num = int_dec_seq(t.id);
    let l2 = ",\"title\":\""@;
    let esc = json_escaped(t.title);
    let l3 = "\",\"is_completed\":"@;
    let l3tail = ",\"is_completed\":"@;
    let bs = bool_seq(t.is_completed);
    let rb = "}"@;
    let r1 = num + (l2 + (esc + (l3 + (bs + rb))));
    let r2 = l2 + (esc + (l3 + (bs + rb)));
    let r3 = esc + (l3 + (bs + rb));
    let r4 = l3 + (bs + rb);
    let r5 = bs + rb;
    assert(todo_json(t) =~= l1 + r1);
    let p1 = i + l1.len();
    let p2 = p1 + num.len();
    let p3 = p2 + l2.len();
    let p4 = p3 + esc.len() + 1;
    let p5 = p4 + l3tail.len();
    let p6 = p5 + bs.len();
    let p7 = p6 + rb.len();
    lemma_split_prefix(s, i, l1, r1);
    assert(spec_take_lit(s, i, l1) == Some(p1));
    lemma_split_prefix(s, p1, num, r2);
    assert(s.subrange(p2, p2 + r2.len())[0] == s[p2]);
    assert(s[p2] == r2[0]);
    assert(r2[0] == l2[0]);
    assert(l2[0] == ',');
    assert(!is_digit(','));
    lemma_take_int_exact(s, p1, t.id);
    assert(spec_take_int(s, p1) == Some((t.id, p2)));
    lemma_split_prefix(s, p2, l2, r3);
    assert(spec_take_lit(s, p2, l2) == Some(p3));
    lemma_split_prefix(s, p3, esc, r4);
    lemma_split_prefix(s, p3 + esc.len(), l3, r5);
    assert(s.subrange(p3 + esc.len(), p3 + esc.len() + l3.len())[0] == s[p3 + esc.len()]);
    assert(s[p3 + esc.len()] == l3[0]);
    assert(l3[0] == '"');
    assert(s.subrange(p3, p4) =~= esc + seq!['"']) by {
        assert forall|q: int| 0 <= q < esc.len() + 1 implies s.subrange(p3, p4)[q] == (esc
            + seq!['"'])[q] by {
            assert(s.subrange(p3, p4)[q] == s[p3 + q]);
            if q < esc.len() {
                assert(s.subrange(p3, p3 + esc.len())[q] == s[p3 + q]);
            } else {
                assert(s[p3 + esc.len()] == '"');
            }
        }
    }
    lemma_take_title_exact(s, p3, t.title);
    assert(spec_take_title(s, p3) == Some((t.title, p4)));
    assert(s.subrange(p4, p4 + l3tail.len()) =~= l3tail) by {
        assert forall|q: int| 0 <= q < l3tail.len() implies s.subrange(p4, p4 + l3tail.len())[q]
            == l3tail[q] by {
            assert(s.subrange(p4, p4 + l3tail.len())[q] == s[p4 + q]);
            assert(s.subrange(p3 + esc.len(), p3 + esc.len() + l3.len())[q + 1] == s[p4 + q]);
            assert(l3[q + 1] == l3tail[q]);
        }
    }
    assert(spec_take_lit(s, p4, l3tail) == Some(p5));
    lemma_split_prefix(s, p5, bs, rb);
    if t.is_completed {
        assert(bs == "true"@);
        assert(spec_take_lit(s, p5, "true"@) == Some(p6));
        assert(spec_take_bool(s, p5) == Some((true, p6)));
    } else {
        assert(bs == "false"@);
        assert(s.subrange(p5, p5 + bs.len())[0] == s[p5]);
        assert(s[p5] == 'f');
        assert(p5 + 4 <= s.len());
        assert(s.subrange(p5, p5 + 4)[0] == s[p5]);
        assert(s.subrange(p5, p5 + 4) != "true"@);
        assert(spec_take_lit(s, p5, "true"@) is None);
        assert(spec_take_lit(s, p5, "false"@) == Some(p6));
        assert(spec_take_bool(s, p5) == Some((false, p6)));
    }
    assert(spec_take_lit(s, p6, rb) == Some(p7));
    assert(p7 == i + todo_json(t).len());
    assert(TodoView { id: t.id, title: t.title, is_completed: t.is_completed } == t);
}

/// Law: a written todo object, parsed, yields the todo it was written
/// from; writing loses nothing.
pub proof fn lemma_todo_json_round_trip(t: TodoView)
    requires
        -0x8000_0000 <= t.id < 0x8000_0000,
    ensures
        spec_parse_todo(todo_json(t)) == Some(t),
{
    let s = todo_json(t);
    assert(s.subrange(0, s.len() as int) =~= s);
    lemma_take_todo_exact(s, 0, t);
}


proof fn lemma_todo_json_len_pos(t: TodoView)
    ensures
        todo_json(t).len() >= 7,
{
    reveal_strlit("{\"id\":");
    reveal_strlit("}");
    assert(("{\"id\":"@).len() == 6);
    assert(("}"@).len() == 1);
}

proof fn lemma_items_front(ts: Seq<TodoView>)
    requires
        ts.len() >= 2,
    ensures
        todo_list_items(ts) == todo_json(ts[0]) + seq![','] + todo_list_items(ts.drop_first()),
    decreases ts.len(),
{
    if ts.len() == 2 {
        let u = ts.drop_last();
        assert(u.len() == 1);
        assert(u[0] == ts[0]);
        assert(todo_list_items(u) == todo_json(ts[0]));
        assert(ts.drop_first().len() == 1);
        assert(ts.drop_first()[0] == ts[1]);
        assert(ts.last() == ts[1]);
        assert(todo_list_items(ts.drop_first()) == todo_json(ts[1]));
        assert(todo_list_items(ts) =~= todo_json(ts[0]) + seq![','] + todo_list_items(
            ts.drop_first(),
        ));
    } else {
        let u = ts.drop_last();
        lemma_items_front(u);
        assert(u[0] == ts[0]);
        assert(ts.drop_first().drop_last() =~= u.drop_first());
        assert(ts.drop_first().last() == ts.last());
        assert(ts.drop_first().len() >= 2);
        assert(todo_list_items(ts.drop_first()) == todo_list_items(ts.drop_first().drop_last())
            + seq![','] + todo_json(ts.drop_first().last()));
        assert(todo_list_items(ts) =~= todo_json(ts[0]) + seq![','] + todo_list_items(
            ts.drop_first(),
        ));
    }
}

proof fn lemma_take_items_exact(s: Seq<char>, i: int, ts: Seq<TodoView>, fuel: nat)
    requires
        ts.len() >= 1,
        fuel >= ts.len(),
        forall|k: int| 0 <= k < ts.len() ==> -0x8000_0000 <= (#[trigger] ts[k]).id < 0x8000_0000,
        0 <= i,
        i + todo_list_items(ts).len() + 1 <= s.len(),
        s.subrange(i, i + todo_list_items(ts).len() + 1) == todo_list_items(ts) + seq![']'],
    ensures
        spec_take_items(s, i, fuel) == Some((ts, i + todo_list_items(ts).len())),
    decreases ts.len(),
{
    let items = todo_list_items(ts);
    if ts.len() == 1 {
        assert(items == todo_json(ts[0]));
        lemma_split_prefix(s, i, items, seq![']']);
        lemma_take_todo_exact(s, i, ts[0]);
        let j = i + items.len();
        assert(s.subrange(j, j + 1)[0] == s[j]);
        assert(s[j] == ']');
        assert(spec_take_todo(s, i) == Some((ts[0], j)));
        assert(seq![ts[0]] =~= ts);
    } else {
        lemma_items_front(ts);
        let rest = ts.drop_first();
        let head = todo_json(ts[0]);
        let restitems = todo_list_items(rest);
        assert(items == head + seq![','] + restitems);
        assert(items + seq![']'] =~= head + (seq![','] + (restitems + seq![']'])));
        lemma_split_prefix(s, i, head, seq![','] + (restitems + seq![']']));
        let j = i + head.len();
        lemma_split_prefix(s, j, seq![','], restitems + seq![']']);
        lemma_take_todo_exact(s, i, ts[0]);
        assert(s.subrange(j, j + 1)[0] == s[j]);
        assert(s[j] == ',');
        assert(s.subrange(j + 1, j + 1 + restitems.len() + 1) == restitems + seq![']']);
        assert(rest.len() >= 1);
        assert(forall|k: int|
            0 <= k < rest.len() ==> -0x8000_0000 <= (#[trigger] rest[k]).id < 0x8000_0000) by {
            assert(forall|k: int| 0 <= k < rest.len() ==> rest[k] == ts[k + 1]);
        }
        lemma_take_items_exact(s, j + 1, rest, (fuel - 1) as nat);
        assert(spec_take_items(s, j + 1, (fuel - 1) as nat) == Some(
            (rest, j + 1 + restitems.len()),
        ));
        assert(seq![ts[0]] + rest =~= ts);
        assert(i + items.len() == j + 1 + restitems.len());
    }
}

/// Law: a written todo array, parsed, yields the table it was written
/// from; writing loses nothing.
pub proof fn lemma_todo_list_json_round_trip(ts: Seq<TodoView>)
    requires
        forall|k: int| 0 <= k < ts.len() ==> -0x8000_0000 <= (#[trigger] ts[k]).id < 0x8000_0000,
    ensures
        spec_parse_todo_list(todo_list_json(ts)) == Some(ts),
{
    let s = todo_list_json(ts);
    let items = todo_list_items(ts);
    assert(s == seq!['['] + items + seq![']']);
    if ts.len() == 0 {
        assert(items =~= Seq::<char>::empty());
        assert(s.len() == 2);
        assert(s[0] == '[');
        assert(s[1] == ']');
    } else {
        lemma_todo_json_len_pos(ts[0]);
        assert(items.len() >= 1) by {
            if ts.len() == 1 {
                assert(items == todo_json(ts[0]));
            } else {
                lemma_items_front(ts);
            }
        }
        assert(s.len() > 2);
        assert(s[0] == '[');
        assert(s.subrange(1, 1 + items.len() as int + 1) =~= items + seq![']']) by {
            assert forall|q: int| 0 <= q < items.len() + 1 implies s.subrange(
                1,
                1 + items.len() as int + 1,
            )[q] == (items + seq![']'])[q] by {
                assert(s.subrange(1, 1 + items.len() as int + 1)[q] == s[1 + q]);
                assert(s[1 + q] == (seq!['['] + items + seq![']'])[1 + q]);
            }
        }
        assert(s.len() >= ts.len()) by {
            lemma_items_len(ts);
        }
        lemma_take_items_exact(s, 1, ts, s.len() as nat);
        let j = 1 + items.len() as int;
        assert(spec_take_items(s, 1, s.len() as nat) == Some((ts, j)));
        assert(j + 1 == s.len());
        assert(s[j] == ']');
    }
}

proof fn lemma_items_len(ts: Seq<TodoView>)
    ensures
        todo_list_items(ts).len() >= ts.len(),
    decreases ts.len(),
{
    if ts.len() == 0 {
    } else if ts.len() == 1 {
        lemma_todo_json_len_pos(ts[0]);
    } else {
        lemma_items_len(ts.drop_last());
        lemma_todo_json_len_pos(ts.last());
        assert(ts.drop_last().len() == ts.len() - 1);
    }
}

} // verus!
