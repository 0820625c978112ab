//! Crew roles and ship systems, and reading a role from text.
use vstd::prelude::*;
use crate::text::{chars_of, fold, range_eq_ignore_case};

verus! {

/// The five stations of the boat.
#[derive(Debug, Clone, Copy, PartialEq, Eq, Hash, Structural)]
pub enum CrewRole {
    Captain,
    Pilot,
    Sonar,
    Engineer,
    Weapons,
}

/// The repairable systems of the boat.
#[derive(Debug, Clone, Copy, PartialEq, Eq, Hash, Structural)]
pub enum SystemId {
    Engine,
    Torpedo,
    Sonar,
    Life,
    Navigation,
}

/// Every role, in station order.
pub open spec fn all_roles() -> Seq<CrewRole> {
    seq![CrewRole::Captain, CrewRole::Pilot, CrewRole::Sonar, CrewRole::Engineer, CrewRole::Weapons]
}

/// Position of a role in station order.
pub open spec fn role_index(role: CrewRole) -> int {
    match role {
        CrewRole::Captain => 0,
        CrewRole::Pilot => 1,
        CrewRole::Sonar => 2,
        CrewRole::Engineer => 3,
        CrewRole::Weapons => 4,
    }
}

impl CrewRole {
    /// Every role, in station order.
    pub fn all() -> (r: [CrewRole; 5])
        ensures
            r@ == all_roles(),
    {
        let r = [CrewRole::Captain, CrewRole::Pilot, CrewRole::Sonar, CrewRole::Engineer, CrewRole::Weapons];
        assert(r@ =~= all_roles());
        r
    }
}

/// The lower-case name by which a role is chosen.
pub open spec fn role_name(role: CrewRole) -> Seq<char> {
    match role {
        CrewRole::Captain => seq!['c', 'a', 'p', 't', 'a', 'i', 'n'],
        CrewRole::Pilot => seq!['p', 'i', 'l', 'o', 't'],
        CrewRole::Sonar => seq!['s', 'o', 'n', 'a', 'r'],
        CrewRole::Engineer => seq!['e', 'n', 'g', 'i', 'n', 'e', 'e', 'r'],
        CrewRole::Weapons => seq!['w', 'e', 'a', 'p', 'o', 'n', 's'],
    }
}

/// The role whose name matches `folded`, the case-folded text.
pub open spec fn role_named(folded: Seq<u32>) -> Option<CrewRole> {
    if folded == fold(role_name(CrewRole::Captain)) {
        Some(CrewRole::Captain)
    } else if folded == fold(role_name(CrewRole::Pilot)) {
        Some(CrewRole::Pilot)
    } else if folded == fold(role_name(CrewRole::Sonar)) {
        Some(CrewRole::Sonar)
    } else if folded == fold(role_name(CrewRole::Engineer)) {
        Some(CrewRole::Engineer)
    } else if folded == fold(role_name(CrewRole::Weapons)) {
        Some(CrewRole::Weapons)
    } else {
        None
    }
}

fn role_name_chars(role: CrewRole) -> (r: Vec<char>)
    ensures
        r@ == role_name(role),
{
    let r = match role {
        CrewRole::Captain => vec!['c', 'a', 'p', 't', 'a', 'i', 'n'],
        CrewRole::Pilot => vec!['p', 'i', 'l', 'o', 't'],
        CrewRole::Sonar => vec!['s', 'o', 'n', 'a', 'r'],
        CrewRole::Engineer => vec!['e', 'n', 'g', 'i', 'n', 'e', 'e', 'r'],
        CrewRole::Weapons => vec!['w', 'e', 'a', 'p', 'o', 'n', 's'],
    };
    assert(r@ =~= role_name(role));
    r
}

/// Reads a role from `chars[from..to]`, ignoring ASCII case.
pub fn parse_role_range(chars: &Vec<char>, from: usize, to: usize) -> (r: Option<CrewRole>)
    requires
        from <= to <= chars@.len(),
    ensures
        r == role_named(fold(chars@.subrange(from as int, to as int))),
{
    if range_eq_ignore_case(chars, from, to, &role_name_chars(CrewRole::Captain)) {
        Some(CrewRole::Captain)
    } else if range_eq_ignore_case(chars, from, to, &role_name_chars(CrewRole::Pilot)) {
        Some(CrewRole::Pilot)
    } else if range_eq_ignore_case(chars, from, to, &role_name_chars(CrewRole::Sonar)) {
        Some(CrewRole::Sonar)
    } else if range_eq_ignore_case(chars, from, to, &role_name_chars(CrewRole::Engineer)) {
        Some(CrewRole::Engineer)
    } else if range_eq_ignore_case(chars, from, to, &role_name_chars(CrewRole::Weapons)) {
        Some(CrewRole::Weapons)
    } else {
        None
    }
}

/// Reads a role name, ignoring ASCII case: `"PILOT"` and `"Pilot"` both give
/// the pilot; any other text gives `None`.
pub fn parse_role(value: &str) -> (r: Option<CrewRole>)
    ensures
        r == role_named(fold(value@)),
{
    let chars = chars_of(value);
    let r = parse_role_range(&chars, 0, chars.len());
    assert(chars@.subrange(0, chars@.len() as int) =~= value@);
    r
}

/// Every role's name reads back as that role, in any ASCII case.
pub proof fn lemma_role_names_read_back(role: CrewRole, text: Seq<char>)
    requires
        fold(text) == fold(role_name(role)),
    ensures
        role_named(fold(text)) == Some(role),
{
    let c = fold(role_name(CrewRole::Captain));
    let p = fold(role_name(CrewRole::Pilot));
    let s = fold(role_name(CrewRole::Sonar));
    let e = fold(role_name(CrewRole::Engineer));
    let w = fold(role_name(CrewRole::Weapons));
    assert(c.len() == 7 && p.len() == 5 && s.len() == 5 && e.len() == 8 && w.len() == 7);
    assert(p[0] != s[0]);
    assert(c[0] != w[0]);
}

// ---------------------------------------------------------------------------
// Query strings
// ---------------------------------------------------------------------------

/// `s` without its leading question marks.
pub open spec fn trim_marks(s: Seq<char>) -> Seq<char>
    decreases s.len(),
{
    if s.len() > 0 && s[0] == '?' {
        trim_marks(s.drop_first())
    } else {
        s
    }
}

/// Index of the first `c` in `s`, or `s.len()` when there is none.
pub open spec fn index_of(s: Seq<char>, c: char) -> nat
    decreases s.len(),
{
    if s.len() == 0 {
        0
    } else if s[0] == c {
        0
    } else {
        1 + index_of(s.drop_first(), c)
    }
}

/// The parameter name that selects a role.
pub open spec fn role_key() -> Seq<char> {
    seq!['r', 'o', 'l', 'e']
}

/// The role chosen by the `&`-separated parameters of `t`: the first
/// parameter of the form `key=value` whose key is `role` in any case decides,
/// by the role named in its value; with no such parameter there is none.
pub open spec fn query_role(t: Seq<char>) -> Option<CrewRole>
    decreases t.len(),
{
    let e = index_of(t, '&');
    let seg = t.subrange(0, e as int);
    let j = index_of(seg, '=');
    if j < seg.len() && fold(seg.subrange(0, j as int)) == fold(role_key()) {
        role_named(fold(seg.subrange(j + 1int, seg.len() as int)))
    } else if e < t.len() {
        query_role(t.subrange(e + 1int, t.len() as int))
    } else {
        None
    }
}

/// The role selected by a URL query such as `?debug=true&ROLE=weapons`.
pub open spec fn role_of_query(q: Seq<char>) -> Option<CrewRole> {
    query_role(trim_marks(q))
}

proof fn lemma_index_of(s: Seq<char>, c: char, j: int)
    requires
        0 <= j <= s.len(),
        j < s.len() ==> s[j] == c,
        forall|k: int| 0 <= k < j ==> s[k] != c,
    ensures
        index_of(s, c) == j,
    decreases s.len(),
{
    if s.len() > 0 && s[0] != c {
        lemma_index_of(s.drop_first(), c, j - 1);
    }
}

proof fn lemma_index_of_bounded(s: Seq<char>, c: char)
    ensures
        index_of(s, c) <= s.len(),
    decreases s.len(),
{
    if s.len() > 0 && s[0] != c {
        lemma_index_of_bounded(s.drop_first(), c);
    }
}

/// First position in `chars[from..to]` holding `c`, or `to`.
fn find_char(chars: &Vec<char>, from: usize, to: usize, c: char) -> (r: usize)
    requires
        from <= to <= chars@.len(),
    ensures
        from <= r <= to,
        r < to ==> chars@[r as int] == c,
        forall|k: int| from <= k < r ==> chars@[k] != c,
        index_of(chars@.subrange(from as int, to as int), c) == r - from,
{
    let mut i = from;
    while i < to && chars[i] != c
        invariant
            from <= i <= to <= chars@.len(),
            forall|k: int| from <= k < i ==> chars@[k] != c,
        decreases to - i,
    {
        i = i + 1;
    }
    proof {
        let s = chars@.subrange(from as int, to as int);
        lemma_index_of(s, c, i - from);
    }
    i
}

/// How a query's parameters are read, one `&`-separated part at a time: a
/// part keyed `role` (any case, split at its first `=`) decides by the role
/// its value names, and no later part is consulted; any other part, with or
/// without `=`, is skipped; a query that is one part without a role key
/// names no role.
pub proof fn lemma_query_parts(part: Seq<char>, rest: Seq<char>)
    requires
        !part.contains('&'),
    ensures
        ({
            let j = index_of(part, '=');
            let keyed_role = j < part.len() && fold(part.subrange(0, j as int)) == fold(role_key());
            &&& keyed_role ==> query_role(part.push('&') + rest) == role_named(fold(part.subrange(j + 1int, part.len() as int)))
            &&& keyed_role ==> query_role(part) == role_named(fold(part.subrange(j + 1int, part.len() as int)))
            &&& !keyed_role ==> query_role(part.push('&') + rest) == query_role(rest)
            &&& !keyed_role ==> query_role(part) is None
        }),
{
    let t = part.push('&') + rest;
    let n = part.len() as int;
    assert forall|k: int| 0 <= k < n implies t[k] != '&' by {
        assert(t[k] == part[k]);
        if part[k] == '&' {
            assert(part.contains('&'));
        }
    }
    assert(t[n] == '&');
    lemma_index_of(t, '&', n);
    assert forall|k: int| 0 <= k < n implies part[k] != '&' by {
        if part[k] == '&' {
            assert(part.contains('&'));
        }
    }
    lemma_index_of(part, '&', n);
    assert(t.subrange(0, n) =~= part);
    assert(part.subrange(0, n) =~= part);
    assert(t.subrange(n + 1, t.len() as int) =~= rest);
}

/// Reads the role from a URL query string: leading `?` marks are skipped,
/// parameters are split at `&`, and the first one named `role` (any case)
/// decides by its value; `None` when there is none or the value names no role.
pub fn role_from_query(query: &str) -> (r: Option<CrewRole>)
    ensures
        r == role_of_query(query@),
{
    let chars = chars_of(query);
    let n = chars.len();
    let mut start: usize = 0;
    assert(chars@.subrange(0, n as int) =~= chars@);
    while start < n && chars[start] == '?'
        invariant
            start <= n == chars@.len(),
            chars@ == query@,
            trim_marks(query@) == trim_marks(chars@.subrange(start as int, n as int)),
        decreases n - start,
    {
        proof {
            let s = chars@.subrange(start as int, n as int);
            assert(s.drop_first() =~= chars@.subrange(start + 1, n as int));
        }
        start = start + 1;
    }
    assert(trim_marks(chars@.subrange(start as int, n as int)) == chars@.subrange(start as int, n as int));
    let mut pos = start;
    loop
        invariant
            pos <= n == chars@.len(),
            role_of_query(query@) == query_role(chars@.subrange(pos as int, n as int)),
        decreases n - pos,
    {
        let ghost t = chars@.subrange(pos as int, n as int);
        let e = find_char(&chars, pos, n, '&');
        let j = find_char(&chars, pos, e, '=');
        proof {
            let seg = t.subrange(0, e - pos);
            assert(seg =~= chars@.subrange(pos as int, e as int));
            assert(index_of(t, '&') == e - pos);
            assert(index_of(seg, '=') == j - pos);
            assert(seg.subrange(0, j - pos) =~= chars@.subrange(pos as int, j as int));
            if j < e {
                assert(seg.subrange(j - pos + 1, seg.len() as int) =~= chars@.subrange(j + 1, e as int));
            }
            if e < n {
                assert(t.subrange(e - pos + 1, t.len() as int) =~= chars@.subrange(e + 1, n as int));
            }
        }
        if j < e {
            let key = vec!['r', 'o', 'l', 'e'];
            assert(key@ =~= role_key());
            if range_eq_ignore_case(&chars, pos, j, &key) {
                return parse_role_range(&chars, j + 1, e);
            }
        }
        if e >= n {
            return None;
        }
        pos = e + 1;
    }
}

/// The role a client plays when its configuration names one (`ROLE`, any
/// case), the captain otherwise.
pub fn current_role(setting: Option<&str>) -> (r: CrewRole)
    ensures
        r == match setting {
            Some(value) => match role_named(fold(value@)) {
                Some(role) => role,
                None => CrewRole::Captain,
            },
            None => CrewRole::Captain,
        },
{
    match setting {
        Some(value) => match parse_role(value) {
            Some(role) => role,
            None => CrewRole::Captain,
        },
        None => CrewRole::Captain,
    }
}

/// The role a client in a browser plays: the one the page's query string
/// names, the captain otherwise.
pub fn current_role_from_query(search: Option<&str>) -> (r: CrewRole)
    ensures
        r == match search {
            Some(query) => match role_of_query(query@) {
                Some(role) => role,
                None => CrewRole::Captain,
            },
            None => CrewRole::Captain,
        },
{
    match search {
        Some(query) => match role_from_query(query) {
            Some(role) => role,
            None => CrewRole::Captain,
        },
        None => CrewRole::Captain,
    }
}

} // verus!
