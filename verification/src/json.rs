//! The body of a POST: an ordered mapping from field names to string values,
//! written as one JSON object.

use crate::hex::{hex_digit, is_lower_hex};
use vstd::prelude::*;
use vstd::std_specs::iter::IteratorSpec;
use vstd::string::*;

verus! {

broadcast use vstd::string::group_string_axioms;

/// What stands for `c` inside a JSON string: the quotation mark and the
/// backslash get a backslash in front, the control characters below U+0020
/// their short escape where JSON has one and `\u00XX` where it has none, and
/// every other character stands for itself.
pub open spec fn escaped_char(c: char) -> Seq<char> {
    if c == '"' {
        seq!['\\', '"']
    } else if c == '\\' {
        seq!['\\', '\\']
    } else if c == '\u{8}' {
        seq!['\\', 'b']
    } else if c == '\u{c}' {
        seq!['\\', 'f']
    } else if c == '\n' {
        seq!['\\', 'n']
    } else if c == '\r' {
        seq!['\\', 'r']
    } else if c == '\t' {
        seq!['\\', 't']
    } else if (c as int) < 0x20 {
        seq!['\\', 'u', '0', '0', hex_digit(c as int / 16), hex_digit(c as int % 16)]
    } else {
        seq![c]
    }
}

/// The characters of `text`, each escaped, in order.
pub open spec fn escaped(text: Seq<char>) -> Seq<char>
    decreases text.len(),
{
    if text.len() == 0 {
        Seq::empty()
    } else {
        escaped(text.drop_last()) + escaped_char(text.last())
    }
}

/// `text` as a JSON string: escaped, between quotation marks.
pub open spec fn json_string(text: Seq<char>) -> Seq<char> {
    seq!['"'] + escaped(text) + seq!['"']
}

/// Whether `c` may stand for itself inside a JSON string: anything but the
/// quotation mark, the backslash and the control characters.
pub open spec fn is_unescaped(c: char) -> bool {
    c as int >= 0x20 && c != '"' && c != '\\'
}

/// Whether a backslash and `c` are one of the two-character escapes of JSON.
pub open spec fn is_short_escape(c: char) -> bool {
    c == '"' || c == '\\' || c == '/' || c == 'b' || c == 'f' || c == 'n' || c == 'r' || c == 't'
}

/// Whether `c` is a hexadecimal digit, in either case.
pub open spec fn is_hex_char(c: char) -> bool {
    is_lower_hex(c) || ('A' <= c && c <= 'F')
}

/// Whether `text` is what JSON allows between the quotation marks of a
/// string: unescaped characters, two-character escapes, and `\u` with four
/// hexadecimal digits.
pub open spec fn is_string_content(text: Seq<char>) -> bool
    decreases text.len(),
{
    if text.len() == 0 {
        true
    } else if is_unescaped(text[0]) {
        is_string_content(text.skip(1))
    } else if text[0] == '\\' && text.len() >= 2 && is_short_escape(text[1]) {
        is_string_content(text.skip(2))
    } else if text[0] == '\\' && text.len() >= 6 && text[1] == 'u' && is_hex_char(text[2])
        && is_hex_char(text[3]) && is_hex_char(text[4]) && is_hex_char(text[5]) {
        is_string_content(text.skip(6))
    } else {
        false
    }
}

proof fn lemma_content_concat(a: Seq<char>, b: Seq<char>)
    requires
        is_string_content(a),
        is_string_content(b),
    ensures
        is_string_content(a + b),
    decreases a.len(),
{
    if a.len() == 0 {
        assert(a + b =~= b);
    } else {
        let k: int = if is_unescaped(a[0]) {
            1
        } else if is_short_escape(a[1]) {
            2
        } else {
            6
        };
        lemma_content_concat(a.skip(k), b);
        assert((a + b).skip(k) =~= a.skip(k) + b);
    }
}

proof fn lemma_escaped_char_is_content(c: char)
    ensures
        is_string_content(escaped_char(c)),
{
    let e = escaped_char(c);
    assert(is_string_content(Seq::<char>::empty()));
    if e.len() == 1 {
        assert(e.skip(1) =~= Seq::<char>::empty());
        assert(is_unescaped(e[0]));
    } else if e.len() == 2 {
        assert(e.skip(2) =~= Seq::<char>::empty());
        assert(e[0] == '\\' && is_short_escape(e[1]));
    } else {
        assert(e.skip(6) =~= Seq::<char>::empty());
        assert(e[0] == '\\' && e[1] == 'u' && e[2] == '0' && e[3] == '0');
        assert(is_lower_hex(e[4]) && is_lower_hex(e[5]));
    }
}

/// What stands between the quotation marks of a string that this module
/// writes is what JSON allows there, whatever the text was.
pub proof fn lemma_escaped_is_string_content(text: Seq<char>)
    ensures
        is_string_content(escaped(text)),
    decreases text.len(),
{
    if text.len() > 0 {
        lemma_escaped_is_string_content(text.drop_last());
        lemma_escaped_char_is_content(text.last());
        lemma_content_concat(escaped(text.drop_last()), escaped_char(text.last()));
    }
}

fn lower_hex_digit(d: u32) -> (c: char)
    requires
        d < 16,
    ensures
        c == hex_digit(d as int),
{
    let code: u8 = if d < 10 {
        (d + 48) as u8
    } else {
        (d + 87) as u8
    };
    code as char
}

fn push_escaped_char(out: &mut String, c: char)
    ensures
        final(out)@ == old(out)@ + escaped_char(c),
{
    if c == '"' {
        out.push('\\');
        out.push('"');
    } else if c == '\\' {
        out.push('\\');
        out.push('\\');
    } else if c == '\u{8}' {
        out.push('\\');
        out.push('b');
    } else if c == '\u{c}' {
        out.push('\\');
        out.push('f');
    } else if c == '\n' {
        out.push('\\');
        out.push('n');
    } else if c == '\r' {
        out.push('\\');
        out.push('r');
    } else if c == '\t' {
        out.push('\\');
        out.push('t');
    } else if (c as u32) < 0x20 {
        out.push('\\');
        out.push('u');
        out.push('0');
        out.push('0');
        out.push(lower_hex_digit(c as u32 / 16));
        out.push(lower_hex_digit(c as u32 % 16));
    } else {
        out.push(c);
    }
    assert(out@ =~= old(out)@ + escaped_char(c));
}

fn push_escaped(out: &mut String, text: &str)
    ensures
        final(out)@ == old(out)@ + escaped(text@),
{
    assert(out@ =~= old(out)@ + escaped(text@.subrange(0, 0)));
    for c in it: text.chars()
        invariant
            it.seq() == text@,
            out@ == old(out)@ + escaped(text@.subrange(0, it.index() as int)),
    {
        let ghost done = text@.subrange(0, it.index() as int);
        push_escaped_char(out, c);
        proof {
            let next = text@.subrange(0, it.index() + 1);
            assert(next.drop_last() =~= done);
            assert(next.last() == c);
            assert(out@ =~= old(out)@ + escaped(next));
        }
    }
    assert(text@.subrange(0, text@.len() as int) =~= text@);
}

/// Renders `text` as a JSON string.
pub fn json_string_of(text: &str) -> (out: String)
    ensures
        out@ == json_string(text@),
{
    let mut out = String::new();
    out.push('"');
    push_escaped(&mut out, text);
    out.push('"');
    assert(out@ =~= json_string(text@));
    out
}

/// One field as it is written: the name and the value as JSON strings, with a
/// colon in between.
pub open spec fn json_member(field: (Seq<char>, Seq<char>)) -> Seq<char> {
    json_string(field.0) + seq![':'] + json_string(field.1)
}

/// The fields as they are written, in order, with a comma between neighbours.
pub open spec fn json_members(fields: Seq<(Seq<char>, Seq<char>)>) -> Seq<char>
    decreases fields.len(),
{
    if fields.len() == 0 {
        Seq::empty()
    } else if fields.len() == 1 {
        json_member(fields[0])
    } else {
        json_members(fields.drop_last()) + seq![','] + json_member(fields.last())
    }
}

/// The fields as one JSON object, without white space.
pub open spec fn json_object(fields: Seq<(Seq<char>, Seq<char>)>) -> Seq<char> {
    seq!['{'] + json_members(fields) + seq!['}']
}

/// Whether a field called `name` is among `fields`.
pub open spec fn has_name(fields: Seq<(Seq<char>, Seq<char>)>, name: Seq<char>) -> bool {
    exists|i: int| 0 <= i < fields.len() && (#[trigger] fields[i]).0 == name
}

/// Where the field called `name` stands.
pub open spec fn index_of_name(fields: Seq<(Seq<char>, Seq<char>)>, name: Seq<char>) -> int
    recommends
        has_name(fields, name),
{
    choose|i: int| 0 <= i < fields.len() && (#[trigger] fields[i]).0 == name
}

/// No name occurs twice.
pub open spec fn names_distinct(fields: Seq<(Seq<char>, Seq<char>)>) -> bool {
    forall|i: int, j: int|
        0 <= i < j < fields.len() ==> (#[trigger] fields[i]).0 != (#[trigger] fields[j]).0
}

/// The fields after `name` was set to `value`: a field of that name keeps its
/// place and gets the new value; a new name goes to the end.
pub open spec fn inserted(
    fields: Seq<(Seq<char>, Seq<char>)>,
    name: Seq<char>,
    value: Seq<char>,
) -> Seq<(Seq<char>, Seq<char>)> {
    if has_name(fields, name) {
        fields.update(index_of_name(fields, name), (name, value))
    } else {
        fields.push((name, value))
    }
}

/// A named string value of a request body.
struct Field {
    name: String,
    value: String,
}

impl View for Field {
    type V = (Seq<char>, Seq<char>);

    closed spec fn view(&self) -> (Seq<char>, Seq<char>) {
        (self.name@, self.value@)
    }
}

/// The fields of a request body, in the order in which their names were first
/// set. Its view is the sequence of name and value pairs.
pub struct Body {
    fields: Vec<Field>,
}

impl View for Body {
    type V = Seq<(Seq<char>, Seq<char>)>;

    closed spec fn view(&self) -> Seq<(Seq<char>, Seq<char>)> {
        self.fields@.map_values(|f: Field| f@)
    }
}

impl Body {
    /// The invariant of a body: no name occurs twice.
    pub open spec fn wf(&self) -> bool {
        names_distinct(self@)
    }

    /// A body without fields.
    pub fn new() -> (body: Body)
        ensures
            body.wf(),
            body@ == Seq::<(Seq<char>, Seq<char>)>::empty(),
    {
        let body = Body { fields: Vec::new() };
        assert(body@ =~= Seq::<(Seq<char>, Seq<char>)>::empty());
        body
    }

    /// Sets the field `name` to `value`.
    pub fn insert(&mut self, name: &str, value: &str)
        requires
            old(self).wf(),
        ensures
            final(self).wf(),
            final(self)@ == inserted(old(self)@, name@, value@),
    {
        let key = name.to_owned();
        let mut i: usize = 0;
        while i < self.fields.len()
            invariant
                *self == *old(self),
                key@ == name@,
                i <= self.fields@.len(),
                forall|k: int| 0 <= k < i ==> (#[trigger] self@[k]).0 != name@,
            ensures
                i < self.fields@.len() ==> self@[i as int].0 == name@,
            decreases self.fields@.len() - i,
        {
            assert(self@[i as int] == self.fields@[i as int]@);
            if self.fields[i].name == key {
                break ;
            }
            i = i + 1;
        }
        if i < self.fields.len() {
            assert(self@[i as int].0 == name@);
            assert(has_name(self@, name@));
            assert(index_of_name(self@, name@) == i);
            self.fields.set(i, Field { name: key, value: value.to_owned() });
            assert(self@ =~= inserted(old(self)@, name@, value@));
        } else {
            assert(!has_name(self@, name@));
            self.fields.push(Field { name: key, value: value.to_owned() });
            assert(self@ =~= inserted(old(self)@, name@, value@));
        }
    }

    /// Writes the body as one JSON object: the fields in order, names and
    /// values as JSON strings, without white space.
    pub fn to_json(&self) -> (text: String)
        ensures
            text@ == json_object(self@),
    {
        let mut text = String::new();
        text.push('{');
        let mut i: usize = 0;
        assert(json_members(self@.subrange(0, 0)) =~= Seq::<char>::empty());
        while i < self.fields.len()
            invariant
                i <= self.fields@.len(),
                text@ == seq!['{'] + json_members(self@.subrange(0, i as int)),
            decreases self.fields@.len() - i,
        {
            let ghost before = text@;
            if i > 0 {
                text.push(',');
            }
            text.push('"');
            push_escaped(&mut text, self.fields[i].name.as_str());
            text.push('"');
            text.push(':');
            text.push('"');
            push_escaped(&mut text, self.fields[i].value.as_str());
            text.push('"');
            proof {
                let done = self@.subrange(0, i as int);
                let next = self@.subrange(0, i + 1);
                assert(next.drop_last() =~= done);
                assert(next.last() == self@[i as int]);
                assert(self@[i as int] == self.fields@[i as int]@);
                let member = json_member(self@[i as int]);
                if i > 0 {
                    assert(text@ =~= before + seq![','] + member);
                } else {
                    assert(text@ =~= before + member);
                }
                assert(text@ =~= seq!['{'] + json_members(next));
            }
            i = i + 1;
        }
        assert(self@.subrange(0, self@.len() as int) =~= self@);
        text.push('}');
        text
    }
}

} // verus!
