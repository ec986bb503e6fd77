use vstd::prelude::*;
use crate::fmt::{parse_id, spec_parse_id};
use crate::json::str_chars;

verus! {

/// An HTTP method, as far as the route table distinguishes them.
pub enum Method {
    Get,
    Post,
    Put,
    Delete,
    Other,
}

/// What the route table decides for a request line.
#[derive(Debug, PartialEq, Eq, Structural)]
pub enum RouteMatch {
    /// The list endpoint.
    TodoList,
    /// The create endpoint.
    TodoCreate,
    /// The get-by-id endpoint.
    TodoGet(i32),
    /// The update endpoint.
    TodoUpdate(i32),
    /// The delete endpoint.
    TodoDelete(i32),
    /// An id-addressed path whose segment is not an integer.
    BadId,
    /// A bound path addressed with a method it does not serve.
    MethodNotAllowed,
    /// No API route matches; static serving decides.
    Fallback,
}

/// True when `path` addresses a single item: the todo prefix, then one
/// nonempty segment without a further slash.
pub open spec fn is_id_path(path: Seq<char>) -> bool {
    &&& path.len() > 10
    &&& path.subrange(0, 10) == "/api/todo/"@
    &&& forall|k: int| 10 <= k < path.len() ==> path[k] != '/'
}

/// The decision of the route table for a method and a path: the two fixed
/// paths serve one method each, an id path serves get, put and delete, and
/// every other path is left to static serving.
pub open spec fn spec_route(m: Method, path: Seq<char>) -> RouteMatch {
    if path == "/api/todo/list"@ {
        match m {
            Method::Get => RouteMatch::TodoList,
            _ => RouteMatch::MethodNotAllowed,
        }
    } else if path == "/api/todo/create"@ {
        match m {
            Method::Post => RouteMatch::TodoCreate,
            _ => RouteMatch::MethodNotAllowed,
        }
    } else if is_id_path(path) {
        match m {
            Method::Get => match spec_parse_id(path.skip(10)) {
                Some(v) => RouteMatch::TodoGet(v as i32),
                None => RouteMatch::BadId,
            },
            Method::Put => match spec_parse_id(path.skip(10)) {
                Some(v) => RouteMatch::TodoUpdate(v as i32),
                None => RouteMatch::BadId,
            },
            Method::Delete => match spec_parse_id(path.skip(10)) {
                Some(v) => RouteMatch::TodoDelete(v as i32),
                None => RouteMatch::BadId,
            },
            _ => RouteMatch::MethodNotAllowed,
        }
    } else {
        RouteMatch::Fallback
    }
}

/// True when the characters of `v` spell exactly `s`.
#[verifier::loop_isolation(false)]
pub(crate) fn chars_eq_str(v: &[char], s: &str) -> (r: bool)
    ensures
        r == (v@ == s@),
{
    let n = s.unicode_len();
    if v.len() != n {
        proof {
            assert(v@ != s@);
        }
        return false;
    }
    for i in 0..n
        invariant
            n == s@.len() == v@.len(),
            forall|j: int| 0 <= j < i ==> v@[j] == s@[j],
    {
        if v[i] != s.get_char(i) {
            proof {
                assert(v@[i as int] != s@[i as int]);
            }
            return false;
        }
    }
    proof {
        assert(v@ =~= s@);
    }
    true
}

/// The id segment of an item path: the tail after the todo prefix, when
/// the path has that prefix and the tail holds no further slash.
#[verifier::loop_isolation(false)]
fn id_segment(chars: &Vec<char>) -> (r: Option<Vec<char>>)
    ensures
        match r {
            Some(seg) => is_id_path(chars@) && seg@ == chars@.skip(10),
            None => !is_id_path(chars@),
        },
{
    proof {
        reveal_strlit("/api/todo/");
    }
    let n = chars.len();
    if n <= 10 {
        return None;
    }
    let prefix = "/api/todo/";
    let mut i: usize = 0;
    while i < 10
        invariant
            i <= 10,
            n == chars@.len() > 10,
            forall|j: int| 0 <= j < i ==> chars@[j] == "/api/todo/"@[j],
        decreases 10 - i,
    {
        if chars[i] != prefix.get_char(i) {
            proof {
                assert(chars@.subrange(0, 10)[i as int] == chars@[i as int]);
                assert(chars@.subrange(0, 10) != "/api/todo/"@);
            }
            return None;
        }
        i = i + 1;
    }
    proof {
        assert(chars@.subrange(0, 10) =~= "/api/todo/"@);
    }
    let mut seg: Vec<char> = Vec::new();
    let mut k: usize = 10;
    while k < n
        invariant
            10 <= k <= n,
            n == chars@.len(),
            chars@.subrange(0, 10) == "/api/todo/"@,
            seg@ == chars@.subrange(10, k as int),
            forall|j: int| 10 <= j < k ==> chars@[j] != '/',
        decreases n - k,
    {
        let c = chars[k];
        if c == '/' {
            return None;
        }
        seg.push(c);
        proof {
            assert(seg@ =~= chars@.subrange(10, k as int + 1));
        }
        k = k + 1;
    }
    proof {
        assert(seg@ =~= chars@.skip(10));
        assert(is_id_path(chars@));
    }
    Some(seg)
}

/// The route decision for a request line.
pub fn match_route(m: &Method, path: &str) -> (r: RouteMatch)
    ensures
        r == spec_route(*m, path@),
{
    let chars = str_chars(path);
    if chars_eq_str(chars.as_slice(), "/api/todo/list") {
        return match m {
            Method::Get => RouteMatch::TodoList,
            _ => RouteMatch::MethodNotAllowed,
        };
    }
    if chars_eq_str(chars.as_slice(), "/api/todo/create") {
        return match m {
            Method::Post => RouteMatch::TodoCreate,
            _ => RouteMatch::MethodNotAllowed,
        };
    }
    match id_segment(&chars) {
        None => RouteMatch::Fallback,
        Some(seg) => {
            let parsed = parse_id(seg.as_slice());
            match parsed {
                Some(v) => match m {
                    Method::Get => RouteMatch::TodoGet(v),
                    Method::Put => RouteMatch::TodoUpdate(v),
                    Method::Delete => RouteMatch::TodoDelete(v),
                    _ => RouteMatch::MethodNotAllowed,
                },
                None => match m {
                    Method::Get => RouteMatch::BadId,
                    Method::Put => RouteMatch::BadId,
                    Method::Delete => RouteMatch::BadId,
                    _ => RouteMatch::MethodNotAllowed,
                },
            }
        },
    }
}

/// Law: the list path is answered by the route table for every method, so
/// a request for it never falls through to static serving.
pub proof fn lemma_list_path_never_fallback(m: Method, path: Seq<char>)
    requires
        path == "/api/todo/list"@,
    ensures
        spec_route(m, path) != RouteMatch::Fallback,
{
}

} // verus!
