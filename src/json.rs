//! The JSON values that flow between plan nodes, with a mathematical view,
//! object lookup, and the compact text form used for policy matching.
use crate::text::{push_char, str_eq};
use vstd::prelude::*;

verus! {

broadcast use vstd::std_specs::vec::axiom_vec_index_decreases;

/// A JSON value. Numbers keep the decimal text they were written with.
pub enum Json {
    Null,
    Bool(bool),
    Number(String),
    Str(String),
    Array(Vec<Json>),
    Object(Vec<(String, Json)>),
}

/// The mathematical form of a `Json` value.
pub enum JsonView {
    Null,
    Bool(bool),
    Number(Seq<char>),
    Str(Seq<char>),
    Array(Seq<JsonView>),
    Object(Seq<(Seq<char>, JsonView)>),
}

impl View for Json {
    type V = JsonView;

    open spec fn view(&self) -> JsonView
        decreases self,
    {
        match self {
            Json::Null => JsonView::Null,
            Json::Bool(b) => JsonView::Bool(*b),
            Json::Number(n) => JsonView::Number(n@),
            Json::Str(s) => JsonView::Str(s@),
            Json::Array(items) => JsonView::Array(
                Seq::new(
                    items@.len(),
                    |i: int|
                        if 0 <= i < items@.len() {
                            items@[i]@
                        } else {
                            JsonView::Null
                        },
                ),
            ),
            Json::Object(fields) => JsonView::Object(members_view(fields@)),
        }
    }
}

/// The views of a sequence of object members.
pub open spec fn members_view(fields: Seq<(String, Json)>) -> Seq<(Seq<char>, JsonView)>
    decreases fields,
{
    if fields.len() == 0 {
        Seq::empty()
    } else {
        members_view(fields.drop_last()).push((fields.last().0@, fields.last().1@))
    }
}

/// The views of a sequence of values.
pub open spec fn views(items: Seq<Json>) -> Seq<JsonView> {
    Seq::new(items.len(), |i: int| items[i]@)
}

/// The views of a sequence of object members.
pub open spec fn field_views(fields: Seq<(String, Json)>) -> Seq<(Seq<char>, JsonView)> {
    Seq::new(fields.len(), |i: int| (fields[i].0@, fields[i].1@))
}

/// `members_view` gives each member's key and value view, position by position.
pub proof fn lemma_members_view(fields: Seq<(String, Json)>)
    ensures
        members_view(fields) == field_views(fields),
    decreases fields.len(),
{
    if fields.len() > 0 {
        lemma_members_view(fields.drop_last());
        let prev = field_views(fields.drop_last());
        let last = (fields.last().0@, fields.last().1@);
        assert(members_view(fields) == prev.push(last));
        assert forall|i: int| 0 <= i < fields.len() implies prev.push(last)[i] == field_views(fields)[i] by {
            if i < fields.len() - 1 {
                assert(fields.drop_last()[i] == fields[i]);
            }
        }
        assert(prev.push(last) =~= field_views(fields));
    } else {
        assert(members_view(fields) =~= field_views(fields));
    }
}

/// The value of the first member named `key`, if any.
pub open spec fn lookup(fields: Seq<(Seq<char>, JsonView)>, key: Seq<char>) -> Option<JsonView>
    decreases fields.len(),
{
    if fields.len() == 0 {
        None
    } else if fields[0].0 == key {
        Some(fields[0].1)
    } else {
        lookup(fields.drop_first(), key)
    }
}

/// The member `key` of an object value; `None` for a missing member or a
/// value that is not an object.
pub open spec fn member(v: JsonView, key: Seq<char>) -> Option<JsonView> {
    match v {
        JsonView::Object(fields) => lookup(fields, key),
        _ => None,
    }
}

/// `lookup` finds the member at `i` when no earlier member has that name.
pub proof fn lemma_lookup_at(fields: Seq<(Seq<char>, JsonView)>, key: Seq<char>, i: int)
    requires
        0 <= i < fields.len(),
        fields[i].0 == key,
        forall|j: int| 0 <= j < i ==> fields[j].0 != key,
    ensures
        lookup(fields, key) == Some(fields[i].1),
    decreases i,
{
    if i > 0 {
        lemma_lookup_at(fields.drop_first(), key, i - 1);
    }
}

/// `lookup` finds nothing when no member has that name.
pub proof fn lemma_lookup_none(fields: Seq<(Seq<char>, JsonView)>, key: Seq<char>)
    requires
        forall|j: int| 0 <= j < fields.len() ==> fields[j].0 != key,
    ensures
        lookup(fields, key) == None::<JsonView>,
    decreases fields.len(),
{
    if fields.len() > 0 {
        lemma_lookup_none(fields.drop_first(), key);
    }
}

/// The value of the first member named `key` among `fields`.
pub fn lookup_field<'a>(fields: &'a Vec<(String, Json)>, key: &str) -> (r: Option<&'a Json>)
    ensures
        r matches Some(v) ==> lookup(field_views(fields@), key@) == Some(v@),
        r is None ==> lookup(field_views(fields@), key@) is None,
{
    let ghost fv = field_views(fields@);
    let mut i: usize = 0;
    while i < fields.len()
        invariant
            fv == field_views(fields@),
            i <= fields@.len(),
            forall|j: int| 0 <= j < i ==> fv[j].0 != key@,
        decreases fields@.len() - i,
    {
        if crate::text::str_eq(fields[i].0.as_str(), key) {
            proof {
                lemma_lookup_at(fv, key@, i as int);
            }
            return Some(&fields[i].1);
        }
        i += 1;
    }
    proof {
        lemma_lookup_none(fv, key@);
    }
    None
}

proof fn lemma_lookup_push(fields: Seq<(Seq<char>, JsonView)>, x: (Seq<char>, JsonView), key: Seq<char>)
    ensures
        lookup(fields.push(x), key) == (match lookup(fields, key) {
            Some(v) => Some(v),
            None => if x.0 == key {
                Some(x.1)
            } else {
                None
            },
        }),
    decreases fields.len(),
{
    if fields.len() > 0 {
        assert(fields.push(x).drop_first() =~= fields.drop_first().push(x));
        assert(fields.push(x)[0] == fields[0]);
        lemma_lookup_push(fields.drop_first(), x, key);
        assert(lookup(fields.push(x), key) == if fields[0].0 == key {
            Some(fields[0].1)
        } else {
            lookup(fields.drop_first().push(x), key)
        });
        assert(lookup(fields, key) == if fields[0].0 == key {
            Some(fields[0].1)
        } else {
            lookup(fields.drop_first(), key)
        });
    } else {
        assert(fields.push(x).drop_first() =~= Seq::<(Seq<char>, JsonView)>::empty());
        assert(fields.push(x)[0] == x);
        assert(lookup(fields.push(x).drop_first(), key) is None);
        assert(lookup(fields, key) is None);
    }
}

proof fn lemma_lookup_update_other(fields: Seq<(Seq<char>, JsonView)>, i: int, x: (Seq<char>, JsonView), key: Seq<char>)
    requires
        0 <= i < fields.len(),
        fields[i].0 == x.0,
        key != x.0,
    ensures
        lookup(fields.update(i, x), key) == lookup(fields, key),
    decreases fields.len(),
{
    if i > 0 {
        assert(fields.update(i, x).drop_first() =~= fields.drop_first().update(i - 1, x));
        lemma_lookup_update_other(fields.drop_first(), i - 1, x, key);
    } else {
        assert(fields.update(i, x).drop_first() =~= fields.drop_first());
    }
}

/// Binds `key` to `value` among `fields`: replaces the first member named
/// `key`, or appends one; other names keep their values.
pub fn set_field(fields: &mut Vec<(String, Json)>, key: String, value: Json)
    ensures
        lookup(field_views(final(fields)@), key@) == Some(value@),
        forall|k: Seq<char>|
            k != key@ ==> lookup(field_views(final(fields)@), k) == lookup(field_views(old(fields)@), k),
{
    let ghost fv = field_views(fields@);
    let ghost x = (key@, value@);
    let mut i: usize = 0;
    while i < fields.len()
        invariant
            fv == field_views(fields@),
            fields@ == old(fields)@,
            x == (key@, value@),
            i <= fields@.len(),
            fields@ == old(fields)@,
            x == (key@, value@),
            forall|j: int| 0 <= j < i ==> fv[j].0 != key@,
        decreases fields@.len() - i,
    {
        if crate::text::str_eq(fields[i].0.as_str(), key.as_str()) {
            let ghost before = fields@;
            fields.remove(i);
            fields.insert(i, (key, value));
            proof {
                assert(fields@ =~= before.update(i as int, fields@[i as int]));
                assert(fields@[i as int].0@ == x.0 && fields@[i as int].1@ == x.1);
                assert(field_views(fields@) =~= fv.update(i as int, x));
                assert forall|j: int| 0 <= j < i implies fv.update(i as int, x)[j].0 != x.0 by {}
                lemma_lookup_at(fv.update(i as int, x), x.0, i as int);
                assert forall|k: Seq<char>| k != x.0 implies lookup(field_views(fields@), k) == lookup(fv, k) by {
                    lemma_lookup_update_other(fv, i as int, x, k);
                }
            }
            return;
        }
        i += 1;
    }
    fields.push((key, value));
    proof {
        assert(field_views(fields@) =~= fv.push(x));
        lemma_lookup_none(fv, x.0);
        assert forall|k: Seq<char>| lookup(field_views(fields@), k) == (match lookup(fv, k) {
            Some(v) => Some(v),
            None => if x.0 == k { Some(x.1) } else { None },
        }) by {
            lemma_lookup_push(fv, x, k);
        }
    }
}

/// The JSON string escape of one character, as serde_json writes it.
pub open spec fn escape_char(c: char) -> Seq<char> {
    if c == '"' {
        seq!['\\', '"']
    } else if c == '\\' {
        seq!['\\', '\\']
    } else if c == '\n' {
        seq!['\\', 'n']
    } else if c == '\r' {
        seq!['\\', 'r']
    } else if c == '\t' {
        seq!['\\', 't']
    } else if c == '\u{8}' {
        seq!['\\', 'b']
    } else if c == '\u{c}' {
        seq!['\\', 'f']
    } else if (c as u32) < 0x20 {
        seq!['\\', 'u', '0', '0', hex_digit((c as u32) / 16), hex_digit((c as u32) % 16)]
    } else {
        seq![c]
    }
}

/// The lower-case hexadecimal digit for `d < 16`.
pub open spec fn hex_digit(d: u32) -> char {
    seq!['0', '1', '2', '3', '4', '5', '6', '7', '8', '9', 'a', 'b', 'c', 'd', 'e', 'f'][d as int]
}

/// The escaped body of a string, without its quotes.
pub open spec fn escaped(s: Seq<char>) -> Seq<char>
    decreases s.len(),
{
    if s.len() == 0 {
        Seq::empty()
    } else {
        escaped(s.drop_last()) + escape_char(s.last())
    }
}

/// A string in quotes, escaped.
pub open spec fn quoted(s: Seq<char>) -> Seq<char> {
    seq!['"'] + escaped(s) + seq!['"']
}

/// The compact JSON text of a value: no whitespace, members in their order.
pub open spec fn text_of(v: JsonView) -> Seq<char>
    decreases v,
{
    match v {
        JsonView::Null => seq!['n', 'u', 'l', 'l'],
        JsonView::Bool(b) => if b {
            seq!['t', 'r', 'u', 'e']
        } else {
            seq!['f', 'a', 'l', 's', 'e']
        },
        JsonView::Number(n) => n,
        JsonView::Str(s) => quoted(s),
        JsonView::Array(items) => seq!['['] + items_text(items) + seq![']'],
        JsonView::Object(fields) => seq!['{'] + fields_text(fields) + seq!['}'],
    }
}

/// The elements of an array, separated by commas.
pub open spec fn items_text(items: Seq<JsonView>) -> Seq<char>
    decreases items,
{
    if items.len() == 0 {
        Seq::empty()
    } else if items.len() == 1 {
        text_of(items[0])
    } else {
        items_text(items.drop_last()) + seq![','] + text_of(items.last())
    }
}

/// The members of an object, separated by commas.
pub open spec fn fields_text(fields: Seq<(Seq<char>, JsonView)>) -> Seq<char>
    decreases fields,
{
    if fields.len() == 0 {
        Seq::empty()
    } else if fields.len() == 1 {
        quoted(fields[0].0) + seq![':'] + text_of(fields[0].1)
    } else {
        fields_text(fields.drop_last()) + seq![','] + quoted(fields.last().0) + seq![':']
            + text_of(fields.last().1)
    }
}

impl Json {
    /// A deep copy with the same view.
    pub fn copy(&self) -> (r: Json)
        ensures
            r@ == self@,
        decreases self,
    {
        match self {
            Json::Null => Json::Null,
            Json::Bool(b) => Json::Bool(*b),
            Json::Number(n) => Json::Number(n.clone()),
            Json::Str(s) => Json::Str(s.clone()),
            Json::Array(items) => {
                let mut out: Vec<Json> = Vec::new();
                let mut i: usize = 0;
                while i < items.len()
                    invariant
                        *self == Json::Array(*items),
                        i <= items@.len(),
                        out@.len() == i,
                        forall|j: int| 0 <= j < i ==> out@[j]@ == items@[j]@,
                    decreases items@.len() - i,
                {
                    proof {
                        assert(decreases_to!(*self => self->Array_0));
                        assert(decreases_to!(*self => items[i as int]));
                    }
                    let c = items[i].copy();
                    out.push(c);
                    i += 1;
                }
                let r = Json::Array(out);
                proof {
                    if let JsonView::Array(a) = r@ {
                        if let JsonView::Array(b) = self@ {
                            assert(a =~= b);
                        }
                    }
                }
                r
            },
            Json::Object(fields) => {
                let mut out: Vec<(String, Json)> = Vec::new();
                let mut i: usize = 0;
                while i < fields.len()
                    invariant
                        *self == Json::Object(*fields),
                        i <= fields@.len(),
                        out@.len() == i,
                        forall|j: int|
                            0 <= j < i ==> out@[j].0@ == fields@[j].0@ && out@[j].1@ == fields@[j].1@,
                    decreases fields@.len() - i,
                {
                    proof {
                        assert(decreases_to!(*self => self->Object_0));
                        assert(decreases_to!(fields => fields[i as int]));
                        assert(decreases_to!(fields[i as int] => fields[i as int].1));
                        assert(decreases_to!(*self => fields[i as int].1));
                    }
                    let k = fields[i].0.clone();
                    let c = fields[i].1.copy();
                    out.push((k, c));
                    i += 1;
                }
                let r = Json::Object(out);
                proof {
                    lemma_members_view(out@);
                    lemma_members_view(fields@);
                    assert(field_views(out@) =~= field_views(fields@));
                }
                r
            },
        }
    }

    /// The member `key` of an object; `None` for a missing member or a
    /// value that is not an object.
    pub fn get(&self, key: &str) -> (r: Option<&Json>)
        ensures
            r matches Some(v) ==> member(self@, key@) == Some(v@),
            r is None ==> member(self@, key@) is None,
    {
        match self {
            Json::Object(fields) => {
                let ghost fv = field_views(fields@);
                proof {
                    lemma_members_view(fields@);
                }
                let mut i: usize = 0;
                while i < fields.len()
                    invariant
                        *self == Json::Object(*fields),
                        fv == field_views(fields@),
                        fv =~= self@->Object_0,
                        i <= fields@.len(),
                        forall|j: int| 0 <= j < i ==> fv[j].0 != key@,
                    decreases fields@.len() - i,
                {
                    if str_eq(fields[i].0.as_str(), key) {
                        proof {
                            lemma_lookup_at(fv, key@, i as int);
                        }
                        return Some(&fields[i].1);
                    }
                    i += 1;
                }
                proof {
                    lemma_lookup_none(fv, key@);
                }
                None
            },
            _ => None,
        }
    }

    /// The text of a string value.
    pub fn as_str(&self) -> (r: Option<&String>)
        ensures
            r matches Some(s) ==> self@ == JsonView::Str(s@),
            r is None ==> !(self@ is Str),
    {
        match self {
            Json::Str(s) => Some(s),
            _ => None,
        }
    }

    /// The compact JSON text of this value.
    pub fn to_text(&self) -> (r: String)
        ensures
            r@ == text_of(self@),
    {
        let mut out = String::new();
        self.write_text(&mut out);
        proof {
            assert(out@ =~= Seq::<char>::empty() + text_of(self@));
        }
        out
    }

    /// Appends the compact JSON text of this value to `out`.
    pub fn write_text(&self, out: &mut String)
        ensures
            final(out)@ == old(out)@ + text_of(self@),
        decreases self,
    {
        match self {
            Json::Null => {
                out.append("null");
                proof {
                    reveal_strlit("null");
                }
            },
            Json::Bool(b) => {
                if *b {
                    out.append("true");
                    proof {
                        reveal_strlit("true");
                    }
                } else {
                    out.append("false");
                    proof {
                        reveal_strlit("false");
                    }
                }
            },
            Json::Number(n) => {
                out.append(n.as_str());
            },
            Json::Str(s) => {
                write_quoted(s.as_str(), out);
            },
            Json::Array(items) => {
                let ghost start = out@;
                let ghost iv = views(items@);
                proof {
                    assert(iv =~= self@->Array_0);
                }
                push_char(out, '[');
                let mut i: usize = 0;
                while i < items.len()
                    invariant
                        *self == Json::Array(*items),
                        iv == views(items@),
                        iv =~= self@->Array_0,
                        i <= items@.len(),
                        out@ == start + seq!['['] + items_text(iv.subrange(0, i as int)),
                    decreases items@.len() - i,
                {
                    proof {
                        assert(decreases_to!(*self => self->Array_0));
                        assert(decreases_to!(*self => items[i as int]));
                    }
                    if i > 0 {
                        push_char(out, ',');
                    }
                    items[i].write_text(out);
                    proof {
                        let next = iv.subrange(0, i as int + 1);
                        assert(next.drop_last() =~= iv.subrange(0, i as int));
                        if i == 0 {
                            assert(iv.subrange(0, 0) =~= Seq::<JsonView>::empty());
                        }
                    }
                    i += 1;
                }
                push_char(out, ']');
                proof {
                    assert(iv.subrange(0, items@.len() as int) =~= iv);
                }
            },
            Json::Object(fields) => {
                let ghost start = out@;
                let ghost fv = field_views(fields@);
                proof {
                    lemma_members_view(fields@);
                }
                push_char(out, '{');
                let mut i: usize = 0;
                while i < fields.len()
                    invariant
                        *self == Json::Object(*fields),
                        fv == field_views(fields@),
                        fv =~= self@->Object_0,
                        i <= fields@.len(),
                        out@ == start + seq!['{'] + fields_text(fv.subrange(0, i as int)),
                    decreases fields@.len() - i,
                {
                    proof {
                        assert(decreases_to!(*self => self->Object_0));
                        assert(decreases_to!(fields => fields[i as int]));
                        assert(decreases_to!(fields[i as int] => fields[i as int].1));
                        assert(decreases_to!(*self => fields[i as int].1));
                    }
                    if i > 0 {
                        push_char(out, ',');
                    }
                    write_quoted(fields[i].0.as_str(), out);
                    push_char(out, ':');
                    fields[i].1.write_text(out);
                    proof {
                        let next = fv.subrange(0, i as int + 1);
                        assert(next.drop_last() =~= fv.subrange(0, i as int));
                        if i == 0 {
                            assert(fv.subrange(0, 0) =~= Seq::<(Seq<char>, JsonView)>::empty());
                        }
                    }
                    i += 1;
                }
                push_char(out, '}');
                proof {
                    assert(fv.subrange(0, fields@.len() as int) =~= fv);
                }
            },
        }
    }
}

/// Appends `s` in quotes, escaped as a JSON string, to `out`.
pub fn write_quoted(s: &str, out: &mut String)
    ensures
        final(out)@ == old(out)@ + quoted(s@),
{
    let ghost start = out@;
    push_char(out, '"');
    let n = s.unicode_len();
    let mut i: usize = 0;
    while i < n
        invariant
            n == s@.len(),
            i <= n,
            out@ == start + seq!['"'] + escaped(s@.subrange(0, i as int)),
        decreases n - i,
    {
        let c = s.get_char(i);
        write_escaped_char(c, out);
        proof {
            assert(s@.subrange(0, i as int + 1).drop_last() =~= s@.subrange(0, i as int));
        }
        i += 1;
    }
    push_char(out, '"');
    proof {
        assert(s@.subrange(0, n as int) =~= s@);
    }
}

fn hex_char(d: u32) -> (c: char)
    requires
        d < 16,
    ensures
        c == hex_digit(d),
{
    let digits: [char; 16] = ['0', '1', '2', '3', '4', '5', '6', '7', '8', '9', 'a', 'b', 'c', 'd', 'e', 'f'];
    let c = digits[d as usize];
    proof {
        assert(digits@ =~= seq!['0', '1', '2', '3', '4', '5', '6', '7', '8', '9', 'a', 'b', 'c', 'd', 'e', 'f']);
    }
    c
}

fn write_escaped_char(c: char, out: &mut String)
    ensures
        final(out)@ == old(out)@ + escape_char(c),
{
    let ghost start = out@;
    if c == '"' || c == '\\' {
        push_char(out, '\\');
        push_char(out, c);
    } else if c == '\n' {
        push_char(out, '\\');
        push_char(out, 'n');
    } else if c == '\r' {
        push_char(out, '\\');
        push_char(out, 'r');
    } else if c == '\t' {
        push_char(out, '\\');
        push_char(out, 't');
    } else if c == '\u{8}' {
        push_char(out, '\\');
        push_char(out, 'b');
    } else if c == '\u{c}' {
        push_char(out, '\\');
        push_char(out, 'f');
    } else if (c as u32) < 0x20 {
        push_char(out, '\\');
        push_char(out, 'u');
        push_char(out, '0');
        push_char(out, '0');
        let h = hex_char((c as u32) / 16);
        push_char(out, h);
        let l = hex_char((c as u32) % 16);
        push_char(out, l);
    } else {
        push_char(out, c);
    }
    proof {
        assert(out@ =~= start + escape_char(c));
    }
}

} // verus!
