//! Variable substitution: `$root.key[0]` references into the variables, and
//! the recursive rewriting of JSON arguments.
use crate::json::{field_views, lemma_members_view, lookup, lookup_field, member, Json, JsonView};
use crate::number::{all_digits, digits_value, is_digit};

use vstd::prelude::*;

verus! {

broadcast use vstd::std_specs::vec::axiom_vec_index_decreases;

/// The length of the run at the start of `s` that holds neither `.` nor `[`.
pub open spec fn segment_len(s: Seq<char>) -> nat
    decreases s.len(),
{
    if s.len() == 0 || s[0] == '.' || s[0] == '[' {
        0
    } else {
        1 + segment_len(s.drop_first())
    }
}

/// The position of the first `]` in `s`, or its length.
pub open spec fn close_index(s: Seq<char>) -> nat
    decreases s.len(),
{
    if s.len() == 0 || s[0] == ']' {
        0
    } else {
        1 + close_index(s.drop_first())
    }
}

/// An array index as `usize::from_str` reads it: an optional `+`, then digits.
pub open spec fn index_digits(s: Seq<char>) -> Option<Seq<char>> {
    let d = if s.len() > 0 && s[0] == '+' {
        s.drop_first()
    } else {
        s
    };
    if d.len() > 0 && all_digits(d) {
        Some(d)
    } else {
        None
    }
}

/// Follows the path `rest` (`.key` and `[n]` steps) from `cur`.
pub open spec fn walk(cur: JsonView, rest: Seq<char>) -> Option<JsonView>
    decreases rest.len(),
{
    if rest.len() == 0 {
        Some(cur)
    } else if rest[0] == '.' {
        let after = rest.drop_first();
        let n = segment_len(after);
        if n == 0 || n > after.len() {
            None
        } else {
            match member(cur, after.subrange(0, n as int)) {
                Some(v) => walk(v, after.subrange(n as int, after.len() as int)),
                None => None,
            }
        }
    } else if rest[0] == '[' {
        let after = rest.drop_first();
        let c = close_index(after);
        if c >= after.len() {
            None
        } else {
            match index_digits(after.subrange(0, c as int)) {
                Some(d) => match cur {
                    JsonView::Array(items) => if digits_value(d) < items.len() {
                        walk(items[digits_value(d) as int], after.subrange((c + 1) as int, after.len() as int))
                    } else {
                        None
                    },
                    _ => None,
                },
                None => None,
            }
        }
    } else {
        None
    }
}

/// The value a reference (without its `$`) names in `vars`, if any.
pub open spec fn reference_value(vars: Seq<(Seq<char>, JsonView)>, r: Seq<char>) -> Option<JsonView> {
    let n = segment_len(r);
    if n == 0 || n > r.len() {
        None
    } else {
        match lookup(vars, r.subrange(0, n as int)) {
            Some(v) => walk(v, r.subrange(n as int, r.len() as int)),
            None => None,
        }
    }
}

/// `v` with every `$reference` string replaced by the value it names, where
/// it names one; arrays and objects are rewritten element by element.
pub open spec fn resolved(vars: Seq<(Seq<char>, JsonView)>, v: JsonView) -> JsonView
    decreases v,
{
    match v {
        JsonView::Str(s) => if s.len() > 0 && s[0] == '$' {
            match reference_value(vars, s.drop_first()) {
                Some(x) => x,
                None => v,
            }
        } else {
            v
        },
        JsonView::Array(items) => JsonView::Array(
            Seq::new(
                items.len(),
                |i: int|
                    if 0 <= i < items.len() {
                        resolved(vars, items[i])
                    } else {
                        JsonView::Null
                    },
            ),
        ),
        JsonView::Object(fields) => JsonView::Object(
            Seq::new(
                fields.len(),
                |i: int|
                    if 0 <= i < fields.len() {
                        (fields[i].0, resolved(vars, fields[i].1))
                    } else {
                        (Seq::empty(), JsonView::Null)
                    },
            ),
        ),
        _ => v,
    }
}

proof fn lemma_segment_len(s: Seq<char>, i: int)
    requires
        0 <= i <= s.len(),
        i < s.len() ==> (s[i] == '.' || s[i] == '['),
        forall|j: int| 0 <= j < i ==> s[j] != '.' && s[j] != '[',
    ensures
        segment_len(s) == i,
    decreases i,
{
    if i > 0 {
        assert forall|j: int| 0 <= j < i - 1 implies s.drop_first()[j] != '.' && s.drop_first()[j] != '[' by {
            assert(s.drop_first()[j] == s[j + 1]);
        }
        lemma_segment_len(s.drop_first(), i - 1);
    }
}

proof fn lemma_close_index(s: Seq<char>, i: int)
    requires
        0 <= i <= s.len(),
        i < s.len() ==> s[i] == ']',
        forall|j: int| 0 <= j < i ==> s[j] != ']',
    ensures
        close_index(s) == i,
    decreases i,
{
    if i > 0 {
        assert forall|j: int| 0 <= j < i - 1 implies s.drop_first()[j] != ']' by {
            assert(s.drop_first()[j] == s[j + 1]);
        }
        lemma_close_index(s.drop_first(), i - 1);
    }
}

proof fn lemma_digits_prefix_le(s: Seq<char>, k: int)
    requires
        all_digits(s),
        0 <= k <= s.len(),
    ensures
        digits_value(s.subrange(0, k)) <= digits_value(s),
    decreases s.len() - k,
{
    if k < s.len() {
        lemma_digits_prefix_le(s, k + 1);
        let t = s.subrange(0, k + 1);
        assert(t.drop_last() =~= s.subrange(0, k));
        assert(is_digit(s[k]));
    } else {
        assert(s.subrange(0, k) =~= s);
    }
}

/// Reads an array index; `None` when `index_digits` rejects the text or its
/// value does not fit in a `u64`.
fn index_value(d: &str) -> (r: Option<u64>)
    ensures
        r matches Some(v) ==> index_digits(d@) is Some && v == digits_value(index_digits(d@)->0),
        r is None ==> index_digits(d@) is None || digits_value(index_digits(d@)->0) > u64::MAX,
{
    let n = d.unicode_len();
    let mut start: usize = 0;
    if n > 0 && d.get_char(0) == '+' {
        start = 1;
    }
    let ghost ds = if n > 0 && d@[0] == '+' { d@.drop_first() } else { d@ };
    assert(ds =~= d@.subrange(start as int, n as int));
    assert(index_digits(d@) == (if ds.len() > 0 && all_digits(ds) { Some(ds) } else { None::<Seq<char>> }));
    if start == n {
        return None;
    }
    let mut acc: u64 = 0;
    let mut i: usize = start;
    while i < n
        invariant
            n == d@.len(),
            start <= i <= n,
            start < n,
            ds =~= d@.subrange(start as int, n as int),
            index_digits(d@) == (if ds.len() > 0 && all_digits(ds) { Some(ds) } else { None::<Seq<char>> }),
            all_digits(ds.subrange(0, i - start)),
            acc == digits_value(ds.subrange(0, i - start)),
        decreases n - i,
    {
        let c = d.get_char(i);
        if !('0' <= c && c <= '9') {
            proof {
                assert(ds[i - start] == c);
            }
            return None;
        }
        let k: usize = i - start;
        proof {
            let t = ds.subrange(0, k + 1);
            assert(t.drop_last() =~= ds.subrange(0, k as int));
            assert(t.last() == c);
            assert forall|j: int| 0 <= j < k + 1 implies is_digit(#[trigger] t[j]) by {
                if j < k {
                    assert(t[j] == ds.subrange(0, k as int)[j]);
                }
            }
        }
        let dv = ((c as u32) - ('0' as u32)) as u64;
        if acc > (u64::MAX - dv) / 10 {
            proof {
                let t = ds.subrange(0, k + 1);
                assert(digits_value(t) > u64::MAX) by (nonlinear_arith)
                    requires
                        digits_value(t) == acc * 10 + dv,
                        acc > (u64::MAX - dv) / 10,
                        dv <= 9,
                ;
                if all_digits(ds) {
                    lemma_digits_prefix_le(ds, k + 1);
                }
            }
            return None;
        }
        acc = acc * 10 + dv;
        i += 1;
    }
    proof {
        assert(ds.subrange(0, n - start) =~= ds);
    }
    Some(acc)
}

/// The value that `reference` (without its `$`) names in `vars`, copied.
pub fn reference_lookup(vars: &Vec<(String, Json)>, reference: &str) -> (r: Option<Json>)
    ensures
        r matches Some(v) ==> reference_value(field_views(vars@), reference@) == Some(v@),
        r is None ==> reference_value(field_views(vars@), reference@) is None,
{
    let ghost rs = reference@;
    let n = reference.unicode_len();
    let mut i: usize = 0;
    while i < n && reference.get_char(i) != '.' && reference.get_char(i) != '['
        invariant
            n == rs.len(),
            rs == reference@,
            i <= n,
            forall|j: int| 0 <= j < i ==> rs[j] != '.' && rs[j] != '[',
        decreases n - i,
    {
        i += 1;
    }
    proof {
        lemma_segment_len(rs, i as int);
    }
    if i == 0 {
        return None;
    }
    let root = reference.substring_char(0, i);
    let start = match lookup_field(vars, root) {
        Some(v) => v,
        None => {
            return None;
        },
    };
    let mut cur: &Json = start;
    let mut pos: usize = i;
    while pos < n
        invariant
            n == rs.len(),
            rs == reference@,
            i <= pos <= n,
            segment_len(rs) == i,
            0 < i,
            lookup(field_views(vars@), rs.subrange(0, i as int)) == Some(start@),
            walk(start@, rs.subrange(i as int, n as int)) == walk(cur@, rs.subrange(pos as int, n as int)),
        decreases n - pos,
    {
        let ghost rest = rs.subrange(pos as int, n as int);
        let ghost after = rest.drop_first();
        assert(after =~= rs.subrange(pos as int + 1, n as int));
        let c = reference.get_char(pos);
        if c == '.' {
            let mut k: usize = pos + 1;
            while k < n && reference.get_char(k) != '.' && reference.get_char(k) != '['
                invariant
                    n == rs.len(),
                    rs == reference@,
                    pos < k <= n,
                    forall|j: int| pos < j < k ==> rs[j] != '.' && rs[j] != '[',
                decreases n - k,
            {
                k += 1;
            }
            proof {
                assert forall|j: int| 0 <= j < k - pos - 1 implies after[j] != '.' && after[j] != '[' by {
                    assert(after[j] == rs[pos + 1 + j]);
                }
                if k < n {
                    assert(after[k - pos - 1] == rs[k as int]);
                }
                lemma_segment_len(after, k - pos - 1);
            }
            if k == pos + 1 {
                return None;
            }
            let key = reference.substring_char(pos + 1, k);
            proof {
                assert(key@ =~= after.subrange(0, k - pos - 1));
                assert(rs.subrange(k as int, n as int) =~= after.subrange(k - pos - 1, after.len() as int));
            }
            match cur.get(key) {
                Some(next) => {
                    cur = next;
                },
                None => {
                    return None;
                },
            }
            pos = k;
        } else if c == '[' {
            let mut k: usize = pos + 1;
            while k < n && reference.get_char(k) != ']'
                invariant
                    n == rs.len(),
                    rs == reference@,
                    pos < k <= n,
                    forall|j: int| pos < j < k ==> rs[j] != ']',
                decreases n - k,
            {
                k += 1;
            }
            proof {
                assert forall|j: int| 0 <= j < k - pos - 1 implies after[j] != ']' by {
                    assert(after[j] == rs[pos + 1 + j]);
                }
                if k < n {
                    assert(after[k - pos - 1] == rs[k as int]);
                }
                lemma_close_index(after, k - pos - 1);
            }
            if k == n {
                return None;
            }
            let digits = reference.substring_char(pos + 1, k);
            proof {
                assert(digits@ =~= after.subrange(0, k - pos - 1));
                assert(rs.subrange(k + 1, n as int) =~= after.subrange(k - pos, after.len() as int));
            }
            let idx = match index_value(digits) {
                Some(v) => v,
                None => {
                    if let Json::Array(items) = cur {
                        let len = items.len();
                        assert(len <= u64::MAX);
                    }
                    return None;
                },
            };
            match cur {
                Json::Array(items) => {
                    if idx >= items.len() as u64 {
                        return None;
                    }
                    cur = &items[idx as usize];
                },
                _ => {
                    return None;
                },
            }
            pos = k + 1;
        } else {
            return None;
        }
    }
    proof {
        assert(rs.subrange(n as int, n as int) =~= Seq::<char>::empty());
    }
    Some(cur.copy())
}

/// `v` with its `$references` into `vars` substituted, as `resolved` says.
pub fn resolve_json(vars: &Vec<(String, Json)>, v: &Json) -> (r: Json)
    ensures
        r@ == resolved(field_views(vars@), v@),
    decreases v,
{
    match v {
        Json::Str(s) => {
            let n = s.as_str().unicode_len();
            if n > 0 && s.as_str().get_char(0) == '$' {
                let reference = s.as_str().substring_char(1, n);
                proof {
                    assert(reference@ =~= s@.drop_first());
                }
                match reference_lookup(vars, reference) {
                    Some(x) => x,
                    None => v.copy(),
                }
            } else {
                v.copy()
            }
        },
        Json::Array(items) => {
            let ghost vv = field_views(vars@);
            let mut out: Vec<Json> = Vec::new();
            let mut i: usize = 0;
            while i < items.len()
                invariant
                    *v == Json::Array(*items),
                    vv == field_views(vars@),
                    i <= items@.len(),
                    out@.len() == i,
                    forall|j: int| 0 <= j < i ==> out@[j]@ == resolved(vv, items@[j]@),
                decreases items@.len() - i,
            {
                proof {
                    assert(decreases_to!(*v => v->Array_0));
                    assert(decreases_to!(*v => items[i as int]));
                }
                let c = resolve_json(vars, &items[i]);
                out.push(c);
                i += 1;
            }
            let r = Json::Array(out);
            proof {
                if let JsonView::Array(a) = r@ {
                    if let JsonView::Array(b) = resolved(vv, v@) {
                        assert(a =~= b);
                    }
                }
            }
            r
        },
        Json::Object(fields) => {
            let ghost vv = field_views(vars@);
            let mut out: Vec<(String, Json)> = Vec::new();
            let mut i: usize = 0;
            while i < fields.len()
                invariant
                    *v == Json::Object(*fields),
                    vv == field_views(vars@),
                    i <= fields@.len(),
                    out@.len() == i,
                    forall|j: int|
                        0 <= j < i ==> out@[j].0@ == fields@[j].0@ && out@[j].1@ == resolved(
                            vv,
                            fields@[j].1@,
                        ),
                decreases fields@.len() - i,
            {
                proof {
                    assert(decreases_to!(*v => v->Object_0));
                    assert(decreases_to!(fields => fields[i as int]));
                    assert(decreases_to!(fields[i as int] => fields[i as int].1));
                    assert(decreases_to!(*v => fields[i as int].1));
                }
                let k = fields[i].0.clone();
                let c = resolve_json(vars, &fields[i].1);
                out.push((k, c));
                i += 1;
            }
            let r = Json::Object(out);
            proof {
                lemma_members_view(out@);
                lemma_members_view(fields@);
                assert(field_views(out@) =~= resolved(vv, v@)->Object_0);
            }
            r
        },
        _ => v.copy(),
    }
}

/// Every argument value resolved; the empty object when there are no arguments.
pub fn resolve_map(vars: &Vec<(String, Json)>, args: &Vec<(String, Json)>) -> (r: Vec<(String, Json)>)
    ensures
        r@.len() == args@.len(),
        forall|j: int|
            0 <= j < args@.len() ==> r@[j].0@ == args@[j].0@ && #[trigger] r@[j].1@ == resolved(
                field_views(vars@),
                args@[j].1@,
            ),
{
    let mut out: Vec<(String, Json)> = Vec::new();
    let mut i: usize = 0;
    while i < args.len()
        invariant
            i <= args@.len(),
            out@.len() == i,
            forall|j: int|
                0 <= j < i ==> out@[j].0@ == args@[j].0@ && #[trigger] out@[j].1@ == resolved(
                    field_views(vars@),
                    args@[j].1@,
                ),
        decreases args@.len() - i,
    {
        let k = args[i].0.clone();
        let c = resolve_json(vars, &args[i].1);
        out.push((k, c));
        i += 1;
    }
    out
}

} // verus!
