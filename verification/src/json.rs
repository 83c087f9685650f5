//! The JSON wire format of the persisted snapshot: a document tree, a pretty
//! printer, and a parser, with the printer-then-parser round trip proved.
//!
//! The persisted blob is a single JSON document with stable field names. Both
//! directions are specified over `Seq<char>`: `print_json` says exactly what
//! text a tree becomes, `parse_value` says exactly what tree a text yields.

use vstd::prelude::*;

use crate::text::is_space;
use crate::text::is_space_exec;
use crate::text::push_char;
use crate::text::starts_with_seq;

verus! {

broadcast use vstd::seq::axiom_seq_index_decreases, vstd::seq::axiom_seq_subrange_decreases, vstd::std_specs::vec::axiom_vec_decreases_to_view;

/// One key-value pair of a JSON object (model).
#[verifier::ext_equal]
pub struct MemberV {
    pub key: Seq<char>,
    pub val: JsonV,
}

/// A JSON document tree (model). A number is kept as its lexeme: the snapshot
/// schema has no numeric field, so numbers are only carried through.
#[verifier::ext_equal]
pub enum JsonV {
    Null,
    Bool(bool),
    Num(Seq<char>),
    Str(Seq<char>),
    Arr(Seq<JsonV>),
    Obj(Seq<MemberV>),
}

/// One key-value pair of a JSON object.
pub struct Member {
    pub key: Vec<char>,
    pub val: Json,
}

/// A JSON document tree. String contents are kept decoded; escaping belongs
/// to the text layer alone.
pub enum Json {
    Null,
    Bool(bool),
    Num(Vec<char>),
    Str(Vec<char>),
    Arr(Vec<Json>),
    Obj(Vec<Member>),
}

/// The model of a tree.
pub open spec fn json_view(j: Json) -> JsonV
    decreases j,
{
    match j {
        Json::Null => JsonV::Null,
        Json::Bool(b) => JsonV::Bool(b),
        Json::Num(s) => JsonV::Num(s@),
        Json::Str(s) => JsonV::Str(s@),
        Json::Arr(v) => JsonV::Arr(json_seq_view(v@)),
        Json::Obj(v) => JsonV::Obj(json_members_view(v@)),
    }
}

/// The models of a sequence of trees.
pub open spec fn json_seq_view(s: Seq<Json>) -> Seq<JsonV>
    decreases s,
{
    if s.len() == 0 {
        Seq::empty()
    } else {
        seq![json_view(s[0])] + json_seq_view(s.subrange(1, s.len() as int))
    }
}

/// The models of a sequence of object members.
pub open spec fn json_members_view(s: Seq<Member>) -> Seq<MemberV>
    decreases s,
{
    if s.len() == 0 {
        Seq::empty()
    } else {
        seq![MemberV { key: s[0].key@, val: json_view(s[0].val) }] + json_members_view(
            s.subrange(1, s.len() as int),
        )
    }
}

impl View for Json {
    type V = JsonV;

    open spec fn view(&self) -> JsonV {
        json_view(*self)
    }
}

pub proof fn lemma_json_seq_view_index(s: Seq<Json>)
    ensures
        json_seq_view(s).len() == s.len(),
        forall|i: int| 0 <= i < s.len() ==> json_seq_view(s)[i] == json_view(s[i]),
    decreases s.len(),
{
    if s.len() > 0 {
        lemma_json_seq_view_index(s.subrange(1, s.len() as int));
    }
}

pub proof fn lemma_json_members_view_index(s: Seq<Member>)
    ensures
        json_members_view(s).len() == s.len(),
        forall|i: int|
            0 <= i < s.len() ==> json_members_view(s)[i] == (MemberV {
                key: s[i].key@,
                val: json_view(s[i].val),
            }),
    decreases s.len(),
{
    if s.len() > 0 {
        lemma_json_members_view_index(s.subrange(1, s.len() as int));
    }
}

/// Nesting height of a tree: leaves are 0, a container is one above its
/// deepest child.
pub open spec fn json_height(j: JsonV) -> nat
    decreases j,
{
    match j {
        JsonV::Null => 0,
        JsonV::Bool(_) => 0,
        JsonV::Num(_) => 0,
        JsonV::Str(_) => 0,
        JsonV::Arr(items) => 1 + json_seq_height(items),
        JsonV::Obj(ms) => 1 + json_members_height(ms),
    }
}

/// The deepest height among a sequence of trees.
pub open spec fn json_seq_height(s: Seq<JsonV>) -> nat
    decreases s,
{
    if s.len() == 0 {
        0
    } else {
        let h0 = json_height(s[0]);
        let hr = json_seq_height(s.subrange(1, s.len() as int));
        if h0 >= hr {
            h0
        } else {
            hr
        }
    }
}

/// The deepest value height among a sequence of members.
pub open spec fn json_members_height(s: Seq<MemberV>) -> nat
    decreases s,
{
    if s.len() == 0 {
        0
    } else {
        let h0 = json_height(s[0].val);
        let hr = json_members_height(s.subrange(1, s.len() as int));
        if h0 >= hr {
            h0
        } else {
            hr
        }
    }
}

pub proof fn lemma_json_seq_height_bound(s: Seq<JsonV>)
    ensures
        forall|i: int| 0 <= i < s.len() ==> json_height(s[i]) <= json_seq_height(s),
    decreases s.len(),
{
    if s.len() > 0 {
        lemma_json_seq_height_bound(s.subrange(1, s.len() as int));
        assert forall|i: int| 0 <= i < s.len() implies json_height(s[i]) <= json_seq_height(
            s,
        ) by {
            if i > 0 {
                assert(s.subrange(1, s.len() as int)[i - 1] == s[i]);
            }
        }
    }
}

pub proof fn lemma_json_members_height_bound(s: Seq<MemberV>)
    ensures
        forall|i: int| 0 <= i < s.len() ==> json_height(s[i].val) <= json_members_height(s),
    decreases s.len(),
{
    if s.len() > 0 {
        lemma_json_members_height_bound(s.subrange(1, s.len() as int));
        assert forall|i: int| 0 <= i < s.len() implies json_height(s[i].val)
            <= json_members_height(s) by {
            if i > 0 {
                assert(s.subrange(1, s.len() as int)[i - 1] == s[i]);
            }
        }
    }
}

// ------------------------------------------------------------------
// Printing
// ------------------------------------------------------------------

/// The lower-case hexadecimal digit for a value below 16.
pub open spec fn hex_digit(n: int) -> char {
    if n < 10 {
        (48 + n) as char
    } else {
        (87 + n) as char
    }
}

/// How one character is written inside a JSON string: quote, backslash and
/// control characters are escaped, everything else stands as itself.
pub open spec fn escape_char(c: char) -> Seq<char> {
    if c == '"' {
        seq!['\\', '"']
    } else if c == '\\' {
        seq!['\\', '\\']
    } else if c as u32 == 8 {
        seq!['\\', 'b']
    } else if c as u32 == 12 {
        seq!['\\', 'f']
    } else if c == '\n' {
        seq!['\\', 'n']
    } else if c == '\r' {
        seq!['\\', 'r']
    } else if c == '\t' {
        seq!['\\', 't']
    } else if (c as u32) < 32 {
        seq!['\\', 'u', '0', '0', hex_digit(c as u32 as int / 16), hex_digit(c as u32 as int % 16)]
    } else {
        seq![c]
    }
}

/// The escaped form of a string's characters.
pub open spec fn escape_seq(s: Seq<char>) -> Seq<char>
    decreases s.len(),
{
    if s.len() == 0 {
        Seq::empty()
    } else {
        escape_char(s[0]) + escape_seq(s.skip(1))
    }
}

pub proof fn lemma_escape_seq_concat(a: Seq<char>, b: Seq<char>)
    ensures
        escape_seq(a + b) == escape_seq(a) + escape_seq(b),
    decreases a.len(),
{
    if a.len() == 0 {
        assert(a + b =~= b);
        assert(escape_seq(a) + escape_seq(b) =~= escape_seq(b));
    } else {
        assert((a + b).skip(1) =~= a.skip(1) + b);
        lemma_escape_seq_concat(a.skip(1), b);
        assert(escape_char((a + b)[0]) == escape_char(a[0]));
        assert(escape_char(a[0]) + (escape_seq(a.skip(1)) + escape_seq(b)) =~= (escape_char(a[0])
            + escape_seq(a.skip(1))) + escape_seq(b));
    }
}

/// A string as it is written: quoted and escaped.
pub open spec fn quote_str(s: Seq<char>) -> Seq<char> {
    seq!['"'] + escape_seq(s) + seq!['"']
}

/// `n` spaces.
pub open spec fn spaces(n: nat) -> Seq<char>
    decreases n,
{
    if n == 0 {
        Seq::empty()
    } else {
        seq![' '] + spaces((n - 1) as nat)
    }
}

pub proof fn lemma_spaces_snoc(n: nat)
    ensures
        spaces(n + 1) == spaces(n) + seq![' '],
    decreases n,
{
    if n == 0 {
        assert(spaces(1) =~= spaces(0) + seq![' ']);
    } else {
        lemma_spaces_snoc((n - 1) as nat);
        assert(spaces(n + 1) =~= spaces(n) + seq![' ']);
    }
}

pub proof fn lemma_spaces_len(n: nat)
    ensures
        spaces(n).len() == n,
        forall|i: int| 0 <= i < n ==> spaces(n)[i] == ' ',
    decreases n,
{
    if n > 0 {
        lemma_spaces_len((n - 1) as nat);
    }
}

/// The pretty-printed text of a tree at nesting level `ind`: two-space
/// indentation, each element or member on its own line.
pub open spec fn print_json(j: JsonV, ind: nat) -> Seq<char>
    decreases j,
{
    match j {
        JsonV::Null => "null"@,
        JsonV::Bool(b) => if b {
            "true"@
        } else {
            "false"@
        },
        JsonV::Num(s) => s,
        JsonV::Str(s) => quote_str(s),
        JsonV::Arr(items) => if items.len() == 0 {
            "[]"@
        } else {
            seq!['['] + print_items(items, ind + 1) + seq!['\n'] + spaces(2 * ind) + seq![']']
        },
        JsonV::Obj(ms) => if ms.len() == 0 {
            "{}"@
        } else {
            seq!['{'] + print_members(ms, ind + 1) + seq!['\n'] + spaces(2 * ind) + seq!['}']
        },
    }
}

/// The elements of a non-empty array, each on its own line, separated by commas.
pub open spec fn print_items(items: Seq<JsonV>, ind: nat) -> Seq<char>
    decreases items,
{
    if items.len() == 0 {
        Seq::empty()
    } else {
        let head = seq!['\n'] + spaces(2 * ind) + print_json(items[0], ind);
        let rest = items.subrange(1, items.len() as int);
        if rest.len() == 0 {
            head
        } else {
            head + seq![','] + print_items(rest, ind)
        }
    }
}

/// The members of a non-empty object, each on its own line, separated by commas.
pub open spec fn print_members(ms: Seq<MemberV>, ind: nat) -> Seq<char>
    decreases ms,
{
    if ms.len() == 0 {
        Seq::empty()
    } else {
        let head = seq!['\n'] + spaces(2 * ind) + quote_str(ms[0].key) + seq![':', ' ']
            + print_json(ms[0].val, ind);
        let rest = ms.subrange(1, ms.len() as int);
        if rest.len() == 0 {
            head
        } else {
            head + seq![','] + print_members(rest, ind)
        }
    }
}

/// The full text of a persisted document.
pub open spec fn print_document(j: JsonV) -> Seq<char> {
    print_json(j, 0)
}

/// Writes `n` spaces.
fn write_indent(out: &mut String, n: usize)
    ensures
        final(out)@ == old(out)@ + spaces(n as nat),
{
    let mut i: usize = 0;
    while i < n
        invariant
            i <= n,
            out@ == old(out)@ + spaces(i as nat),
        decreases n - i,
    {
        push_char(out, ' ');
        proof {
            lemma_spaces_snoc(i as nat);
            assert(old(out)@ + spaces(i as nat) + seq![' '] =~= old(out)@ + spaces((i + 1) as nat));
        }
        i += 1;
    }
}

/// Writes one character in its escaped JSON-string form.
fn write_escaped_char(out: &mut String, c: char)
    ensures
        final(out)@ == old(out)@ + escape_char(c),
{
    let u = c as u32;
    if c == '"' {
        push_char(out, '\\');
        push_char(out, '"');
        assert(final(out)@ =~= old(out)@ + escape_char(c));
    } else if c == '\\' {
        push_char(out, '\\');
        push_char(out, '\\');
        assert(final(out)@ =~= old(out)@ + escape_char(c));
    } else if u == 8 {
        push_char(out, '\\');
        push_char(out, 'b');
        assert(final(out)@ =~= old(out)@ + escape_char(c));
    } else if u == 12 {
        push_char(out, '\\');
        push_char(out, 'f');
        assert(final(out)@ =~= old(out)@ + escape_char(c));
    } else if c == '\n' {
        push_char(out, '\\');
        push_char(out, 'n');
        assert(final(out)@ =~= old(out)@ + escape_char(c));
    } else if c == '\r' {
        push_char(out, '\\');
        push_char(out, 'r');
        assert(final(out)@ =~= old(out)@ + escape_char(c));
    } else if c == '\t' {
        push_char(out, '\\');
        push_char(out, 't');
        assert(final(out)@ =~= old(out)@ + escape_char(c));
    } else if u < 32 {
        push_char(out, '\\');
        push_char(out, 'u');
        push_char(out, '0');
        push_char(out, '0');
        let hi = u / 16;
        let lo = u % 16;
        let hc: char = if hi < 10 {
            ((48 + hi) as u8) as char
        } else {
            ((87 + hi) as u8) as char
        };
        let lc: char = if lo < 10 {
            ((48 + lo) as u8) as char
        } else {
            ((87 + lo) as u8) as char
        };
        push_char(out, hc);
        push_char(out, lc);
        assert(hc == hex_digit(c as u32 as int / 16));
        assert(lc == hex_digit(c as u32 as int % 16));
        assert(final(out)@ =~= old(out)@ + escape_char(c));
    } else {
        push_char(out, c);
        assert(final(out)@ =~= old(out)@ + escape_char(c));
    }
}

/// Writes a string in its quoted, escaped JSON form.
fn write_quoted(out: &mut String, s: &Vec<char>)
    ensures
        final(out)@ == old(out)@ + quote_str(s@),
{
    push_char(out, '"');
    let mut i: usize = 0;
    while i < s.len()
        invariant
            i <= s@.len(),
            out@ == old(out)@ + seq!['"'] + escape_seq(s@.take(i as int)),
        decreases s@.len() - i,
    {
        write_escaped_char(out, s[i]);
        proof {
            assert(s@.take((i + 1) as int) =~= s@.take(i as int) + seq![s@[i as int]]);
            lemma_escape_seq_concat(s@.take(i as int), seq![s@[i as int]]);
            assert(seq![s@[i as int]].skip(1) =~= Seq::<char>::empty());
            assert(escape_seq(Seq::<char>::empty()) =~= Seq::<char>::empty());
            assert(escape_seq(seq![s@[i as int]]) =~= escape_char(s@[i as int]) + escape_seq(
                seq![s@[i as int]].skip(1),
            ));
            assert(escape_seq(seq![s@[i as int]]) =~= escape_char(s@[i as int]));
            assert(old(out)@ + seq!['"'] + escape_seq(s@.take(i as int)) + escape_char(
                s@[i as int],
            ) =~= old(out)@ + seq!['"'] + escape_seq(s@.take((i + 1) as int)));
        }
        i += 1;
    }
    assert(s@.take(s@.len() as int) =~= s@);
    push_char(out, '"');
    assert(final(out)@ =~= old(out)@ + quote_str(s@));
}

/// Writes the pretty-printed text of a tree at nesting level `ind`.
pub fn write_json(j: &Json, ind: usize, out: &mut String)
    requires
        ind + json_height(json_view(*j)) <= 1024,
    ensures
        final(out)@ == old(out)@ + print_json(json_view(*j), ind as nat),
    decreases json_height(json_view(*j)),
{
    match j {
        Json::Null => {
            out.append("null");
        },
        Json::Bool(b) => {
            if *b {
                out.append("true");
            } else {
                out.append("false");
            }
        },
        Json::Num(s) => {
            crate::text::append_chars(out, s);
        },
        Json::Str(s) => {
            write_quoted(out, s);
        },
        Json::Arr(v) => {
            let ghost items = json_seq_view(v@);
            proof {
                lemma_json_seq_view_index(v@);
                lemma_json_seq_height_bound(items);
            }
            if v.len() == 0 {
                out.append("[]");
                return ;
            }
            push_char(out, '[');
            proof {
                assert(items.skip(0) =~= items);
                assert(out@ =~= old(out)@ + seq!['[']);
            }
            let n = v.len();
            let mut i: usize = 0;
            while i < n
                invariant
                    0 <= i <= n,
                    n == v@.len(),
                    json_view(*j) == JsonV::Arr(items),
                    items == json_seq_view(v@),
                    items.len() == n,
                    forall|k: int| 0 <= k < n ==> items[k] == json_view(v@[k]),
                    forall|k: int|
                        0 <= k < n ==> json_height(#[trigger] items[k]) <= json_seq_height(items),
                    ind + 1 + json_seq_height(items) <= 1024,
                    n > 0,
                    out@ + print_items(items.skip(i as int), (ind + 1) as nat) == old(out)@
                        + seq!['['] + print_items(items, (ind + 1) as nat),
                decreases n - i,
            {
                proof {
                    assert(json_height(json_view(v@[i as int])) <= json_seq_height(items));
                    assert(json_height(json_view(*j)) == 1 + json_seq_height(items));
                }
                push_char(out, '\n');
                write_indent(out, 2 * (ind + 1));
                let ghost pre = out@;
                write_json(&v[i], ind + 1, out);
                proof {
                    let rest = items.skip(i as int);
                    assert(rest[0] == items[i as int]);
                    assert(rest.subrange(1, rest.len() as int) =~= items.skip(i as int + 1));
                }
                if i < n - 1 {
                    push_char(out, ',');
                }
                i += 1;
            }
            proof {
                assert(items.skip(n as int) =~= Seq::<JsonV>::empty());
            }
            push_char(out, '\n');
            write_indent(out, 2 * ind);
            push_char(out, ']');
            assert(final(out)@ =~= old(out)@ + print_json(json_view(*j), ind as nat));
        },
        Json::Obj(v) => {
            let ghost ms = json_members_view(v@);
            proof {
                lemma_json_members_view_index(v@);
                lemma_json_members_height_bound(ms);
            }
            if v.len() == 0 {
                out.append("{}");
                return ;
            }
            push_char(out, '{');
            proof {
                assert(ms.skip(0) =~= ms);
                assert(out@ =~= old(out)@ + seq!['{']);
            }
            let n = v.len();
            let mut i: usize = 0;
            while i < n
                invariant
                    0 <= i <= n,
                    n == v@.len(),
                    json_view(*j) == JsonV::Obj(ms),
                    ms == json_members_view(v@),
                    ms.len() == n,
                    forall|k: int|
                        0 <= k < n ==> ms[k] == (MemberV {
                            key: v@[k].key@,
                            val: json_view(v@[k].val),
                        }),
                    forall|k: int|
                        0 <= k < n ==> json_height(#[trigger] ms[k].val) <= json_members_height(ms),
                    ind + 1 + json_members_height(ms) <= 1024,
                    n > 0,
                    out@ + print_members(ms.skip(i as int), (ind + 1) as nat) == old(out)@
                        + seq!['{'] + print_members(ms, (ind + 1) as nat),
                decreases n - i,
            {
                proof {
                    assert(json_height(json_view(v@[i as int].val)) <= json_members_height(ms));
                    assert(json_height(json_view(*j)) == 1 + json_members_height(ms));
                }
                push_char(out, '\n');
                write_indent(out, 2 * (ind + 1));
                write_quoted(out, &v[i].key);
                push_char(out, ':');
                push_char(out, ' ');
                write_json(&v[i].val, ind + 1, out);
                proof {
                    let rest = ms.skip(i as int);
                    assert(rest[0] == ms[i as int]);
                    assert(rest.subrange(1, rest.len() as int) =~= ms.skip(i as int + 1));
                }
                if i < n - 1 {
                    push_char(out, ',');
                }
                i += 1;
            }
            proof {
                assert(ms.skip(n as int) =~= Seq::<MemberV>::empty());
            }
            push_char(out, '\n');
            write_indent(out, 2 * ind);
            push_char(out, '}');
            assert(final(out)@ =~= old(out)@ + print_json(json_view(*j), ind as nat));
        },
    }
}

// ------------------------------------------------------------------
// Parsing
// ------------------------------------------------------------------

/// A decimal digit.
pub open spec fn is_digit(c: char) -> bool {
    48 <= c as u32 && c as u32 <= 57
}

/// A character that can stand in a number lexeme.
pub open spec fn is_num_char(c: char) -> bool {
    is_digit(c) || c == '.' || c == '-' || c == '+' || c == 'e' || c == 'E'
}

/// A hexadecimal digit, either case.
pub open spec fn is_hex_digit(c: char) -> bool {
    is_digit(c) || (97 <= c as u32 && c as u32 <= 102) || (65 <= c as u32 && c as u32 <= 70)
}

/// The value of a hexadecimal digit.
pub open spec fn hex_val(c: char) -> u32 {
    if is_digit(c) {
        (c as u32 - 48) as u32
    } else if 97 <= c as u32 && c as u32 <= 102 {
        (c as u32 - 87) as u32
    } else {
        (c as u32 - 65) as u32
    }
}

/// The input with its leading whitespace removed.
pub open spec fn skip_ws(s: Seq<char>) -> Seq<char>
    decreases s.len(),
{
    if s.len() > 0 && is_space(s[0]) {
        skip_ws(s.skip(1))
    } else {
        s
    }
}

/// How many leading characters of the input can stand in a number lexeme.
pub open spec fn num_len(s: Seq<char>) -> int
    decreases s.len(),
{
    if s.len() > 0 && is_num_char(s[0]) {
        1 + num_len(s.skip(1))
    } else {
        0
    }
}

/// Parses the inside of a JSON string after the opening quote: `acc` holds the
/// characters decoded so far; yields the decoded string and the input after
/// the closing quote. Escapes cover the two-character forms and `\u`, with
/// surrogate pairs combined and lone surrogates rejected; raw control
/// characters are rejected.
pub open spec fn parse_string_body(s: Seq<char>, acc: Seq<char>) -> Option<(Seq<char>, Seq<char>)>
    decreases s.len(),
{
    if s.len() == 0 {
        None
    } else {
        let c = s[0];
        if c == '"' {
            Some((acc, s.skip(1)))
        } else if c == '\\' {
            if s.len() < 2 {
                None
            } else {
                let e = s[1];
                if e == '"' {
                    parse_string_body(s.skip(2), acc.push('"'))
                } else if e == '\\' {
                    parse_string_body(s.skip(2), acc.push('\\'))
                } else if e == '/' {
                    parse_string_body(s.skip(2), acc.push('/'))
                } else if e == 'b' {
                    parse_string_body(s.skip(2), acc.push((8u8) as char))
                } else if e == 'f' {
                    parse_string_body(s.skip(2), acc.push((12u8) as char))
                } else if e == 'n' {
                    parse_string_body(s.skip(2), acc.push('\n'))
                } else if e == 'r' {
                    parse_string_body(s.skip(2), acc.push('\r'))
                } else if e == 't' {
                    parse_string_body(s.skip(2), acc.push('\t'))
                } else if e == 'u' {
                    if s.len() < 6 || !(is_hex_digit(s[2]) && is_hex_digit(s[3]) && is_hex_digit(
                        s[4],
                    ) && is_hex_digit(s[5])) {
                        None
                    } else {
                        let code = hex_val(s[2]) * 4096 + hex_val(s[3]) * 256 + hex_val(s[4]) * 16
                            + hex_val(s[5]);
                        if 0xD800 <= code && code < 0xDC00 {
                            if s.len() < 12 || !(s[6] == '\\' && s[7] == 'u' && is_hex_digit(s[8])
                                && is_hex_digit(s[9]) && is_hex_digit(s[10]) && is_hex_digit(
                                s[11],
                            )) {
                                None
                            } else {
                                let lo = hex_val(s[8]) * 4096 + hex_val(s[9]) * 256 + hex_val(
                                    s[10],
                                ) * 16 + hex_val(s[11]);
                                if 0xDC00 <= lo && lo < 0xE000 {
                                    let cp = 0x10000 + (code - 0xD800) * 1024 + (lo - 0xDC00);
                                    parse_string_body(s.skip(12), acc.push(cp as char))
                                } else {
                                    None
                                }
                            }
                        } else if 0xDC00 <= code && code < 0xE000 {
                            None
                        } else {
                            parse_string_body(s.skip(6), acc.push(code as char))
                        }
                    }
                } else {
                    None
                }
            }
        } else if (c as u32) < 32 {
            None
        } else {
            parse_string_body(s.skip(1), acc.push(c))
        }
    }
}

/// Parses one JSON value. `depth` bounds how deeply containers may nest;
/// a document needing more is rejected. The shrink checks on recursive calls
/// state what a successful inner parse always delivers: they keep the
/// recursion visibly well-founded and reject nothing real.
pub open spec fn parse_value(s: Seq<char>, depth: nat) -> Option<(JsonV, Seq<char>)>
    decreases depth, s.len(), 0int,
{
    let t = skip_ws(s);
    if t.len() == 0 {
        None
    } else {
        let c = t[0];
        if c == '{' {
            if depth == 0 {
                None
            } else {
                parse_obj_body(t.skip(1), (depth - 1) as nat)
            }
        } else if c == '[' {
            if depth == 0 {
                None
            } else {
                parse_arr_body(t.skip(1), (depth - 1) as nat)
            }
        } else if c == '"' {
            match parse_string_body(t.skip(1), Seq::empty()) {
                Some(p) => Some((JsonV::Str(p.0), p.1)),
                None => None,
            }
        } else if starts_with_seq(t, "true"@) {
            Some((JsonV::Bool(true), t.skip(4)))
        } else if starts_with_seq(t, "false"@) {
            Some((JsonV::Bool(false), t.skip(5)))
        } else if starts_with_seq(t, "null"@) {
            Some((JsonV::Null, t.skip(4)))
        } else if c == '-' || is_digit(c) {
            let n = num_len(t);
            Some((JsonV::Num(t.take(n)), t.skip(n)))
        } else {
            None
        }
    }
}

/// Parses the inside of an array after the opening bracket.
pub open spec fn parse_arr_body(s: Seq<char>, depth: nat) -> Option<(JsonV, Seq<char>)>
    decreases depth, s.len(), 2int,
{
    let t = skip_ws(s);
    if t.len() == 0 {
        None
    } else if t[0] == ']' {
        Some((JsonV::Arr(Seq::empty()), t.skip(1)))
    } else {
        parse_items(s, depth, Seq::empty())
    }
}

/// Parses the remaining elements of a non-empty array: `acc` holds the
/// elements parsed so far.
pub open spec fn parse_items(s: Seq<char>, depth: nat, acc: Seq<JsonV>) -> Option<
    (JsonV, Seq<char>),
>
    decreases depth, s.len(), 1int,
{
    match parse_value(s, depth) {
        None => None,
        Some(p) => {
            let t = skip_ws(p.1);
            if t.len() == 0 {
                None
            } else if t[0] == ',' {
                let s2 = t.skip(1);
                if s2.len() < s.len() {
                    parse_items(s2, depth, acc.push(p.0))
                } else {
                    None
                }
            } else if t[0] == ']' {
                Some((JsonV::Arr(acc.push(p.0)), t.skip(1)))
            } else {
                None
            }
        },
    }
}

/// Parses the inside of an object after the opening brace.
pub open spec fn parse_obj_body(s: Seq<char>, depth: nat) -> Option<(JsonV, Seq<char>)>
    decreases depth, s.len(), 2int,
{
    let t = skip_ws(s);
    if t.len() == 0 {
        None
    } else if t[0] == '}' {
        Some((JsonV::Obj(Seq::empty()), t.skip(1)))
    } else {
        parse_members(s, depth, Seq::empty())
    }
}

/// Parses the remaining members of a non-empty object: `acc` holds the
/// members parsed so far.
pub open spec fn parse_members(s: Seq<char>, depth: nat, acc: Seq<MemberV>) -> Option<
    (JsonV, Seq<char>),
>
    decreases depth, s.len(), 1int,
{
    let t = skip_ws(s);
    if t.len() == 0 || t[0] != '"' {
        None
    } else {
        match parse_string_body(t.skip(1), Seq::empty()) {
            None => None,
            Some(kp) => {
                let t2 = skip_ws(kp.1);
                if t2.len() == 0 || t2[0] != ':' {
                    None
                } else {
                    let sv = t2.skip(1);
                    if sv.len() <= s.len() {
                        match parse_value(sv, depth) {
                            None => None,
                            Some(vp) => {
                                let m = MemberV { key: kp.0, val: vp.0 };
                                let t3 = skip_ws(vp.1);
                                if t3.len() == 0 {
                                    None
                                } else if t3[0] == ',' {
                                    let s2 = t3.skip(1);
                                    if s2.len() < s.len() {
                                        parse_members(s2, depth, acc.push(m))
                                    } else {
                                        None
                                    }
                                } else if t3[0] == '}' {
                                    Some((JsonV::Obj(acc.push(m)), t3.skip(1)))
                                } else {
                                    None
                                }
                            },
                        }
                    } else {
                        None
                    }
                }
            },
        }
    }
}

/// The nesting depth a document may use.
pub open spec fn max_depth() -> nat {
    128
}

/// A Unicode scalar value: what a `char` may hold.
pub open spec fn is_scalar_value(v: u32) -> bool {
    v < 0xD800 || (0xE000 <= v && v <= 0x10FFFF)
}

/// Relies on std's `char::from_u32`: `Some` exactly for Unicode scalar values,
/// holding the character with that code.
#[verifier::external_body]
fn char_from_u32(v: u32) -> (r: Option<char>)
    ensures
        r == (if is_scalar_value(v) {
            Some(v as char)
        } else {
            None::<char>
        }),
{
    char::from_u32(v)
}

/// Parses a whole document: one value with nothing but whitespace after it.
pub open spec fn parse_document(s: Seq<char>) -> Option<JsonV> {
    match parse_value(s, max_depth()) {
        None => None,
        Some(p) => if skip_ws(p.1).len() == 0 {
            Some(p.0)
        } else {
            None
        },
    }
}

/// Advances past leading whitespace.
fn skip_ws_at(v: &Vec<char>, pos: usize) -> (p: usize)
    requires
        pos <= v@.len(),
    ensures
        pos <= p <= v@.len(),
        v@.skip(p as int) == skip_ws(v@.skip(pos as int)),
{
    let n = v.len();
    let mut p = pos;
    while p < n && is_space_exec(v[p])
        invariant
            pos <= p <= n,
            n == v@.len(),
            skip_ws(v@.skip(pos as int)) == skip_ws(v@.skip(p as int)),
        decreases n - p,
    {
        proof {
            let s = v@.skip(p as int);
            assert(s[0] == v@[p as int]);
            assert(s.skip(1) =~= v@.skip(p as int + 1));
        }
        p += 1;
    }
    proof {
        let s = v@.skip(p as int);
        if p < n {
            assert(s[0] == v@[p as int]);
        }
    }
    p
}

/// Whether the character is a decimal digit.
fn is_digit_exec(c: char) -> (r: bool)
    ensures
        r == is_digit(c),
{
    let u = c as u32;
    48 <= u && u <= 57
}

/// Whether the character can stand in a number lexeme.
fn is_num_char_exec(c: char) -> (r: bool)
    ensures
        r == is_num_char(c),
{
    is_digit_exec(c) || c == '.' || c == '-' || c == '+' || c == 'e' || c == 'E'
}

/// Whether the character is a hexadecimal digit.
fn is_hex_digit_exec(c: char) -> (r: bool)
    ensures
        r == is_hex_digit(c),
{
    let u = c as u32;
    (48 <= u && u <= 57) || (97 <= u && u <= 102) || (65 <= u && u <= 70)
}

/// The value of a hexadecimal digit.
fn hex_val_exec(c: char) -> (r: u32)
    requires
        is_hex_digit(c),
    ensures
        r == hex_val(c),
        r < 16,
{
    let u = c as u32;
    if 48 <= u && u <= 57 {
        u - 48
    } else if 97 <= u {
        u - 87
    } else {
        u - 65
    }
}

proof fn lemma_num_len_at(s: Seq<char>, k: int)
    requires
        0 <= k <= s.len(),
        forall|j: int| 0 <= j < k ==> is_num_char(s[j]),
        k == s.len() || !is_num_char(s[k]),
    ensures
        num_len(s) == k,
    decreases k,
{
    if k == 0 {
    } else {
        let t = s.skip(1);
        assert(forall|j: int| 0 <= j < k - 1 ==> is_num_char(#[trigger] t[j]));
        assert(k - 1 == t.len() || !is_num_char(t[k - 1]));
        lemma_num_len_at(t, k - 1);
    }
}

/// Whether the text at `pos` begins with the given literal.
fn has_prefix_at(v: &Vec<char>, pos: usize, lit: &str) -> (r: bool)
    requires
        pos <= v@.len(),
    ensures
        r == starts_with_seq(v@.skip(pos as int), lit@),
{
    let chars = crate::text::str_to_chars(lit);
    if v.len() - pos < chars.len() {
        return false;
    }
    let m = crate::text::match_at(v, &chars, pos);
    proof {
        assert(v@.subrange(pos as int, pos as int + lit@.len() as int) =~= v@.skip(
            pos as int,
        ).take(lit@.len() as int));
    }
    m
}

/// Parses the inside of a JSON string after the opening quote.
#[verifier::rlimit(100)]
fn parse_string_at(v: &Vec<char>, pos: usize) -> (r: Option<(Vec<char>, usize)>)
    requires
        pos <= v@.len(),
    ensures
        r matches Some(sp) ==> pos <= sp.1 <= v@.len() && parse_string_body(
            v@.skip(pos as int),
            Seq::empty(),
        ) == Some((sp.0@, v@.skip(sp.1 as int))),
        r is None ==> parse_string_body(v@.skip(pos as int), Seq::empty()) is None,
{
    let n = v.len();
    let mut cur = pos;
    let mut acc: Vec<char> = Vec::new();
    loop
        invariant
            pos <= cur <= n,
            n == v@.len(),
            parse_string_body(v@.skip(pos as int), Seq::empty()) == parse_string_body(
                v@.skip(cur as int),
                acc@,
            ),
        decreases n - cur,
    {
        if cur == n {
            return None;
        }
        let ghost s = v@.skip(cur as int);
        proof {
            assert(s.len() == n - cur);
            assert forall|k: int| 0 <= k < s.len() implies s[k] == v@[cur + k] by {}
        }
        let c = v[cur];
        if c == '"' {
            proof {
                assert(s.skip(1) =~= v@.skip(cur as int + 1));
            }
            return Some((acc, cur + 1));
        }
        if c == '\\' {
            if n - cur < 2 {
                return None;
            }
            let e = v[cur + 1];
            if e == 'u' {
                if n - cur < 6 {
                    return None;
                }
                let d2 = v[cur + 2];
                let d3 = v[cur + 3];
                let d4 = v[cur + 4];
                let d5 = v[cur + 5];
                if !(is_hex_digit_exec(d2) && is_hex_digit_exec(d3) && is_hex_digit_exec(d4)
                    && is_hex_digit_exec(d5)) {
                    return None;
                }
                let code = hex_val_exec(d2) * 4096 + hex_val_exec(d3) * 256 + hex_val_exec(d4) * 16
                    + hex_val_exec(d5);
                if 0xD800 <= code && code < 0xDC00 {
                    if n - cur < 12 {
                        return None;
                    }
                    let e6 = v[cur + 6];
                    let e7 = v[cur + 7];
                    let d8 = v[cur + 8];
                    let d9 = v[cur + 9];
                    let d10 = v[cur + 10];
                    let d11 = v[cur + 11];
                    if !(e6 == '\\' && e7 == 'u' && is_hex_digit_exec(d8) && is_hex_digit_exec(d9)
                        && is_hex_digit_exec(d10) && is_hex_digit_exec(d11)) {
                        return None;
                    }
                    let lo = hex_val_exec(d8) * 4096 + hex_val_exec(d9) * 256 + hex_val_exec(d10)
                        * 16 + hex_val_exec(d11);
                    if !(0xDC00 <= lo && lo < 0xE000) {
                        return None;
                    }
                    let cp = 0x10000 + (code - 0xD800) * 1024 + (lo - 0xDC00);
                    let ch = match char_from_u32(cp) {
                        Some(ch) => ch,
                        None => {
                            proof {
                                assert(false);
                            }
                            return None;
                        },
                    };
                    proof {
                        assert(s.skip(12) =~= v@.skip(cur as int + 12));
                    }
                    acc.push(ch);
                    cur = cur + 12;
                } else if 0xDC00 <= code && code < 0xE000 {
                    return None;
                } else {
                    let ch = match char_from_u32(code) {
                        Some(ch) => ch,
                        None => {
                            proof {
                                assert(false);
                            }
                            return None;
                        },
                    };
                    proof {
                        assert(s.skip(6) =~= v@.skip(cur as int + 6));
                    }
                    acc.push(ch);
                    cur = cur + 6;
                }
            } else {
                let decoded: Option<char> = if e == '"' {
                    Some('"')
                } else if e == '\\' {
                    Some('\\')
                } else if e == '/' {
                    Some('/')
                } else if e == 'b' {
                    Some((8u8) as char)
                } else if e == 'f' {
                    Some((12u8) as char)
                } else if e == 'n' {
                    Some('\n')
                } else if e == 'r' {
                    Some('\r')
                } else if e == 't' {
                    Some('\t')
                } else {
                    None
                };
                match decoded {
                    None => {
                        return None;
                    },
                    Some(ch) => {
                        proof {
                            assert(s.skip(2) =~= v@.skip(cur as int + 2));
                        }
                        acc.push(ch);
                        cur = cur + 2;
                    },
                }
            }
        } else if (c as u32) < 32 {
            return None;
        } else {
            proof {
                assert(s.skip(1) =~= v@.skip(cur as int + 1));
            }
            acc.push(c);
            cur = cur + 1;
        }
    }
}

/// Parses one JSON value starting at `pos`.
pub fn parse_value_at(v: &Vec<char>, pos: usize, depth: u32) -> (r: Option<(Json, usize)>)
    requires
        pos <= v@.len(),
    ensures
        r matches Some(jp) ==> pos <= jp.1 <= v@.len() && parse_value(
            v@.skip(pos as int),
            depth as nat,
        ) == Some((jp.0@, v@.skip(jp.1 as int))),
        r is None ==> parse_value(v@.skip(pos as int), depth as nat) is None,
    decreases depth, v@.len() - pos, 0int,
{
    let n = v.len();
    let t = skip_ws_at(v, pos);
    let ghost ts = v@.skip(t as int);
    if t == n {
        return None;
    }
    let c = v[t];
    proof {
        assert(ts[0] == v@[t as int]);
        assert(ts.skip(1) =~= v@.skip(t as int + 1));
    }
    if c == '{' {
        if depth == 0 {
            return None;
        }
        parse_obj_body_at(v, t + 1, depth - 1)
    } else if c == '[' {
        if depth == 0 {
            return None;
        }
        parse_arr_body_at(v, t + 1, depth - 1)
    } else if c == '"' {
        match parse_string_at(v, t + 1) {
            Some(sp) => Some((Json::Str(sp.0), sp.1)),
            None => None,
        }
    } else if has_prefix_at(v, t, "true") {
        proof {
            reveal_strlit("true");
            assert(ts.skip(4) =~= v@.skip(t as int + 4));
        }
        Some((Json::Bool(true), t + 4))
    } else if has_prefix_at(v, t, "false") {
        proof {
            reveal_strlit("true");
            reveal_strlit("false");
            assert(ts.skip(5) =~= v@.skip(t as int + 5));
        }
        Some((Json::Bool(false), t + 5))
    } else if has_prefix_at(v, t, "null") {
        proof {
            reveal_strlit("true");
            reveal_strlit("false");
            reveal_strlit("null");
            assert(ts.skip(4) =~= v@.skip(t as int + 4));
        }
        Some((Json::Null, t + 4))
    } else if c == '-' || is_digit_exec(c) {
        let mut e = t;
        while e < n && is_num_char_exec(v[e])
            invariant
                t <= e <= n,
                n == v@.len(),
                forall|j: int| t <= j < e ==> is_num_char(v@[j]),
            decreases n - e,
        {
            e += 1;
        }
        proof {
            assert forall|j: int| 0 <= j < e - t implies is_num_char(#[trigger] ts[j]) by {
                assert(ts[j] == v@[t + j]);
            }
            if e < n {
                assert(ts[e - t] == v@[e as int]);
            }
            lemma_num_len_at(ts, e - t);
            assert(ts.take(e - t) =~= v@.subrange(t as int, e as int));
            assert(ts.skip(e - t) =~= v@.skip(e as int));
        }
        let lex = crate::text::copy_range(v, t, e);
        Some((Json::Num(lex), e))
    } else {
        return None;
    }
}

/// Parses the inside of an array after the opening bracket.
#[verifier::rlimit(100)]
fn parse_arr_body_at(v: &Vec<char>, pos: usize, depth: u32) -> (r: Option<(Json, usize)>)
    requires
        pos <= v@.len(),
    ensures
        r matches Some(jp) ==> pos <= jp.1 <= v@.len() && parse_arr_body(
            v@.skip(pos as int),
            depth as nat,
        ) == Some((jp.0@, v@.skip(jp.1 as int))),
        r is None ==> parse_arr_body(v@.skip(pos as int), depth as nat) is None,
    decreases depth, v@.len() - pos, 2int,
{
    let n = v.len();
    let t = skip_ws_at(v, pos);
    let ghost ts = v@.skip(t as int);
    if t == n {
        return None;
    }
    proof {
        assert(ts[0] == v@[t as int]);
        assert(ts.skip(1) =~= v@.skip(t as int + 1));
    }
    if v[t] == ']' {
        let items: Vec<Json> = Vec::new();
        proof {
            assert(json_seq_view(items@) =~= Seq::<JsonV>::empty());
        }
        return Some((Json::Arr(items), t + 1));
    }
    let mut acc: Vec<Json> = Vec::new();
    let mut cur = pos;
    proof {
        assert(json_seq_view(acc@) =~= Seq::<JsonV>::empty());
    }
    loop
        invariant
            pos <= cur <= n,
            n == v@.len(),
            parse_arr_body(v@.skip(pos as int), depth as nat) == parse_items(
                v@.skip(pos as int),
                depth as nat,
                Seq::empty(),
            ),
            parse_items(v@.skip(pos as int), depth as nat, Seq::empty()) == parse_items(
                v@.skip(cur as int),
                depth as nat,
                json_seq_view(acc@),
            ),
        decreases n - cur,
    {
        let item = parse_value_at(v, cur, depth);
        match item {
            None => {
                return None;
            },
            Some(jp) => {
                let t3 = skip_ws_at(v, jp.1);
                let ghost t3s = v@.skip(t3 as int);
                if t3 == n {
                    return None;
                }
                proof {
                    assert(t3s[0] == v@[t3 as int]);
                    assert(t3s.skip(1) =~= v@.skip(t3 as int + 1));
                }
                let c3 = v[t3];
                if c3 == ',' {
                    proof {
                        lemma_json_seq_view_push(acc@, jp.0);
                    }
                    let pushed = jp.0;
                    acc.push(pushed);
                    cur = t3 + 1;
                } else if c3 == ']' {
                    proof {
                        lemma_json_seq_view_push(acc@, jp.0);
                    }
                    let mut done = acc;
                    done.push(jp.0);
                    return Some((Json::Arr(done), t3 + 1));
                } else {
                    return None;
                }
            },
        }
    }
}

/// Parses one member of an object — key, colon, value — and the separator
/// after it. The answer says, for any elements already parsed, how the member
/// list parse proceeds from here: a comma continues it strictly later in the
/// text, a brace closes the object, anything else fails it.
#[verifier::rlimit(100)]
fn parse_member_at(v: &Vec<char>, cur: usize, depth: u32) -> (r: Option<(Member, bool, usize)>)
    requires
        cur <= v@.len(),
    ensures
        r matches Some(t) ==> {
            let m = MemberV { key: t.0.key@, val: json_view(t.0.val) };
            &&& cur < t.2 <= v@.len()
            &&& (t.1 ==> forall|acc: Seq<MemberV>|
                #[trigger] parse_members(v@.skip(cur as int), depth as nat, acc) == parse_members(
                    v@.skip(t.2 as int),
                    depth as nat,
                    acc.push(m),
                ))
            &&& (!t.1 ==> forall|acc: Seq<MemberV>|
                #[trigger] parse_members(v@.skip(cur as int), depth as nat, acc) == Some(
                    (JsonV::Obj(acc.push(m)), v@.skip(t.2 as int)),
                ))
        },
        r is None ==> forall|acc: Seq<MemberV>|
            #[trigger] parse_members(v@.skip(cur as int), depth as nat, acc) is None,
    decreases depth, v@.len() - cur, 1int,
{
    let n = v.len();
    let tk = skip_ws_at(v, cur);
    let ghost tks = v@.skip(tk as int);
    if tk == n {
        return None;
    }
    proof {
        assert(tks[0] == v@[tk as int]);
        assert(tks.skip(1) =~= v@.skip(tk as int + 1));
    }
    if v[tk] != '"' {
        return None;
    }
    let key = match parse_string_at(v, tk + 1) {
        None => {
            return None;
        },
        Some(kp) => kp,
    };
    let tc = skip_ws_at(v, key.1);
    let ghost tcs = v@.skip(tc as int);
    if tc == n {
        return None;
    }
    proof {
        assert(tcs[0] == v@[tc as int]);
        assert(tcs.skip(1) =~= v@.skip(tc as int + 1));
    }
    if v[tc] != ':' {
        return None;
    }
    let val = match parse_value_at(v, tc + 1, depth) {
        None => {
            return None;
        },
        Some(vp) => vp,
    };
    let t3 = skip_ws_at(v, val.1);
    let ghost t3s = v@.skip(t3 as int);
    if t3 == n {
        return None;
    }
    proof {
        assert(t3s[0] == v@[t3 as int]);
        assert(t3s.skip(1) =~= v@.skip(t3 as int + 1));
    }
    let c3 = v[t3];
    proof {
        let sc = v@.skip(cur as int);
        assert(skip_ws(sc) == tks);
        assert(tks.len() > 0 && tks[0] == '"');
        assert(parse_string_body(tks.skip(1), Seq::empty()) == Some(
            (key.0@, v@.skip(key.1 as int)),
        ));
        assert(skip_ws(v@.skip(key.1 as int)) == tcs);
        assert(tcs[0] == ':');
        assert(tcs.skip(1) == v@.skip(tc as int + 1));
        assert(tcs.skip(1).len() <= sc.len());
        assert(parse_value(v@.skip(tc as int + 1), depth as nat) == Some(
            (val.0@, v@.skip(val.1 as int)),
        ));
        assert(skip_ws(v@.skip(val.1 as int)) == t3s);
        assert(t3s.len() > 0 && t3s[0] == v@[t3 as int]);
    }
    let m = Member { key: key.0, val: val.0 };
    if c3 == ',' {
        Some((m, true, t3 + 1))
    } else if c3 == '}' {
        Some((m, false, t3 + 1))
    } else {
        None
    }
}

/// Parses the inside of an object after the opening brace.
#[verifier::rlimit(100)]
fn parse_obj_body_at(v: &Vec<char>, pos: usize, depth: u32) -> (r: Option<(Json, usize)>)
    requires
        pos <= v@.len(),
    ensures
        r matches Some(jp) ==> pos <= jp.1 <= v@.len() && parse_obj_body(
            v@.skip(pos as int),
            depth as nat,
        ) == Some((jp.0@, v@.skip(jp.1 as int))),
        r is None ==> parse_obj_body(v@.skip(pos as int), depth as nat) is None,
    decreases depth, v@.len() - pos, 2int,
{
    let n = v.len();
    let t = skip_ws_at(v, pos);
    let ghost ts = v@.skip(t as int);
    if t == n {
        return None;
    }
    proof {
        assert(ts[0] == v@[t as int]);
        assert(ts.skip(1) =~= v@.skip(t as int + 1));
    }
    if v[t] == '}' {
        let ms: Vec<Member> = Vec::new();
        proof {
            assert(json_members_view(ms@) =~= Seq::<MemberV>::empty());
        }
        return Some((Json::Obj(ms), t + 1));
    }
    let mut acc: Vec<Member> = Vec::new();
    let mut cur = pos;
    proof {
        assert(json_members_view(acc@) =~= Seq::<MemberV>::empty());
    }
    loop
        invariant
            pos <= cur <= n,
            n == v@.len(),
            parse_obj_body(v@.skip(pos as int), depth as nat) == parse_members(
                v@.skip(pos as int),
                depth as nat,
                Seq::empty(),
            ),
            parse_members(v@.skip(pos as int), depth as nat, Seq::empty()) == parse_members(
                v@.skip(cur as int),
                depth as nat,
                json_members_view(acc@),
            ),
        decreases n - cur,
    {
        match parse_member_at(v, cur, depth) {
            None => {
                return None;
            },
            Some(step) => {
                let more = step.1;
                let p2 = step.2;
                proof {
                    lemma_json_members_view_push(acc@, step.0);
                }
                acc.push(step.0);
                if more {
                    cur = p2;
                } else {
                    return Some((Json::Obj(acc), p2));
                }
            },
        }
    }
}

pub proof fn lemma_json_seq_view_push(s: Seq<Json>, j: Json)
    ensures
        json_seq_view(s.push(j)) == json_seq_view(s).push(json_view(j)),
{
    lemma_json_seq_view_index(s.push(j));
    lemma_json_seq_view_index(s);
    assert(json_seq_view(s.push(j)) =~= json_seq_view(s).push(json_view(j)));
}

pub proof fn lemma_json_members_view_push(s: Seq<Member>, m: Member)
    ensures
        json_members_view(s.push(m)) == json_members_view(s).push(
            MemberV { key: m.key@, val: json_view(m.val) },
        ),
{
    lemma_json_members_view_index(s.push(m));
    lemma_json_members_view_index(s);
    assert(json_members_view(s.push(m)) =~= json_members_view(s).push(
        MemberV { key: m.key@, val: json_view(m.val) },
    ));
}

/// Parses a whole document: one value with nothing but whitespace after it.
pub fn parse_json_text(v: &Vec<char>) -> (r: Option<Json>)
    ensures
        r matches Some(j) ==> parse_document(v@) == Some(j@),
        r is None ==> parse_document(v@) is None,
{
    proof {
        assert(v@.skip(0) =~= v@);
    }
    match parse_value_at(v, 0, 128) {
        None => None,
        Some(jp) => {
            let t = skip_ws_at(v, jp.1);
            if t == v.len() {
                Some(jp.0)
            } else {
                None
            }
        },
    }
}

// ------------------------------------------------------------------
// The printer-then-parser round trip
// ------------------------------------------------------------------

/// A tree the printer can commit to paper faithfully: every number lexeme
/// looks like a number. Strings and keys are unrestricted; escaping covers
/// every character.
pub open spec fn json_wf(j: JsonV) -> bool
    decreases j,
{
    match j {
        JsonV::Null => true,
        JsonV::Bool(_) => true,
        JsonV::Num(s) => s.len() > 0 && (s[0] == '-' || is_digit(s[0])) && (forall|i: int|
            0 <= i < s.len() ==> is_num_char(s[i])),
        JsonV::Str(_) => true,
        JsonV::Arr(items) => json_seq_wf(items),
        JsonV::Obj(ms) => json_members_wf(ms),
    }
}

/// Every tree of the sequence is well-formed.
pub open spec fn json_seq_wf(s: Seq<JsonV>) -> bool
    decreases s,
{
    if s.len() == 0 {
        true
    } else {
        json_wf(s[0]) && json_seq_wf(s.subrange(1, s.len() as int))
    }
}

/// Every member value of the sequence is well-formed.
pub open spec fn json_members_wf(s: Seq<MemberV>) -> bool
    decreases s,
{
    if s.len() == 0 {
        true
    } else {
        json_wf(s[0].val) && json_members_wf(s.subrange(1, s.len() as int))
    }
}

/// Every character of the sequence is whitespace.
pub open spec fn all_space(s: Seq<char>) -> bool {
    forall|i: int| 0 <= i < s.len() ==> is_space(s[i])
}

proof fn lemma_skip_ws_space_prefix(a: Seq<char>, b: Seq<char>)
    requires
        all_space(a),
    ensures
        skip_ws(a + b) == skip_ws(b),
    decreases a.len(),
{
    if a.len() == 0 {
        assert(a + b =~= b);
    } else {
        assert(is_space((a + b)[0]));
        assert((a + b).skip(1) =~= a.skip(1) + b);
        assert(all_space(a.skip(1)));
        lemma_skip_ws_space_prefix(a.skip(1), b);
    }
}

proof fn lemma_skip_ws_idem(s: Seq<char>)
    ensures
        skip_ws(skip_ws(s)) == skip_ws(s),
    decreases s.len(),
{
    if s.len() > 0 && is_space(s[0]) {
        lemma_skip_ws_idem(s.skip(1));
    }
}

proof fn lemma_parse_value_skip_ws(s: Seq<char>, depth: nat)
    ensures
        parse_value(s, depth) == parse_value(skip_ws(s), depth),
{
    lemma_skip_ws_idem(s);
}

/// A character that can open a printed JSON value.
pub open spec fn starts_value(c: char) -> bool {
    c == '{' || c == '[' || c == '"' || c == 't' || c == 'f' || c == 'n' || c == '-' || is_digit(c)
}

proof fn lemma_print_first_char(j: JsonV, ind: nat)
    requires
        json_wf(j),
    ensures
        print_json(j, ind).len() > 0,
        starts_value(print_json(j, ind)[0]),
{
    reveal_strlit("null");
    reveal_strlit("true");
    reveal_strlit("false");
    reveal_strlit("[]");
    reveal_strlit("{}");
    match j {
        JsonV::Null => {},
        JsonV::Bool(_) => {},
        JsonV::Num(_) => {},
        JsonV::Str(s) => {
            assert(print_json(j, ind)[0] == '"');
        },
        JsonV::Arr(items) => {
            if items.len() > 0 {
                assert(print_json(j, ind)[0] == '[');
            }
        },
        JsonV::Obj(ms) => {
            if ms.len() > 0 {
                assert(print_json(j, ind)[0] == '{');
            }
        },
    }
}

proof fn lemma_hex_digit_val(x: int)
    requires
        0 <= x < 16,
    ensures
        is_hex_digit(hex_digit(x)),
        hex_val(hex_digit(x)) == x,
        !is_space(hex_digit(x)),
{
}

proof fn lemma_num_boundary(lex: Seq<char>, rest: Seq<char>)
    requires
        forall|i: int| 0 <= i < lex.len() ==> is_num_char(lex[i]),
        rest.len() == 0 || !is_num_char(rest[0]),
    ensures
        num_len(lex + rest) == lex.len(),
{
    let s = lex + rest;
    assert forall|j: int| 0 <= j < lex.len() implies is_num_char(s[j]) by {
        assert(s[j] == lex[j]);
    }
    if rest.len() > 0 {
        assert(s[lex.len() as int] == rest[0]);
    }
    lemma_num_len_at(s, lex.len() as int);
}

/// The parser undoes the escaper: an escaped string followed by its closing
/// quote parses back to the original characters.
#[verifier::rlimit(100)]
proof fn lemma_parse_escaped(sv: Seq<char>, acc: Seq<char>, rest: Seq<char>)
    ensures
        parse_string_body(escape_seq(sv) + seq!['"'] + rest, acc) == Some((acc + sv, rest)),
    decreases sv.len(),
{
    if sv.len() == 0 {
        let s = escape_seq(sv) + seq!['"'] + rest;
        assert(s =~= seq!['"'] + rest);
        assert(s[0] == '"');
        assert(s.skip(1) =~= rest);
        assert(acc + sv =~= acc);
    } else {
        let c = sv[0];
        let e = escape_char(c);
        let tail = escape_seq(sv.skip(1)) + seq!['"'] + rest;
        let s = escape_seq(sv) + seq!['"'] + rest;
        assert(s =~= e + tail);
        assert forall|k: int| 0 <= k < e.len() implies s[k] == e[k] by {}
        lemma_parse_escaped(sv.skip(1), acc.push(c), rest);
        assert(acc.push(c) + sv.skip(1) =~= acc + sv);
        if c == '"' {
            assert(s[0] == '\\' && s[1] == '"');
            assert(s.skip(2) =~= tail);
        } else if c == '\\' {
            assert(s[0] == '\\' && s[1] == '\\');
            assert(s.skip(2) =~= tail);
        } else if c as u32 == 8 {
            assert(s[0] == '\\' && s[1] == 'b');
            assert(s.skip(2) =~= tail);
            assert(((8u8) as char) as u32 == 8);
            vstd::utf8::char_u32_cast(c, 8u32);
            vstd::utf8::char_u32_cast((8u8) as char, 8u32);
            assert((8u8) as char == c);
        } else if c as u32 == 12 {
            assert(s[0] == '\\' && s[1] == 'f');
            assert(s.skip(2) =~= tail);
            assert(((12u8) as char) as u32 == 12);
            vstd::utf8::char_u32_cast(c, 12u32);
            vstd::utf8::char_u32_cast((12u8) as char, 12u32);
            assert((12u8) as char == c);
        } else if c == '\n' {
            assert(s[0] == '\\' && s[1] == 'n');
            assert(s.skip(2) =~= tail);
        } else if c == '\r' {
            assert(s[0] == '\\' && s[1] == 'r');
            assert(s.skip(2) =~= tail);
        } else if c == '\t' {
            assert(s[0] == '\\' && s[1] == 't');
            assert(s.skip(2) =~= tail);
        } else if (c as u32) < 32 {
            let u = c as u32 as int;
            lemma_hex_digit_val(u / 16);
            lemma_hex_digit_val(u % 16);
            assert(s[0] == '\\' && s[1] == 'u' && s[2] == '0' && s[3] == '0');
            assert(s[4] == hex_digit(u / 16) && s[5] == hex_digit(u / 16 * 0 + u % 16));
            assert(s.len() >= 6);
            assert(is_hex_digit(s[2]) && is_hex_digit(s[3]) && is_hex_digit(s[4]) && is_hex_digit(
                s[5],
            ));
            let code = hex_val(s[2]) * 4096 + hex_val(s[3]) * 256 + hex_val(s[4]) * 16 + hex_val(
                s[5],
            );
            assert(code == c as u32);
            assert(s.skip(6) =~= tail);
            vstd::utf8::char_u32_cast(c, code as u32);
            assert(code as char == c);
        } else {
            assert(e =~= seq![c]);
            assert(s[0] == c);
            assert(s[0] != '"' && s[0] != '\\' && !((s[0] as u32) < 32));
            assert(s.skip(1) =~= tail);
        }
    }
}

/// A printed leaf value (no container) parses back to itself.
proof fn lemma_ppv_leaf(j: JsonV, ind: nat, depth: nat, rest: Seq<char>)
    requires
        json_wf(j),
        !(j is Arr),
        !(j is Obj),
        rest.len() == 0 || !is_num_char(rest[0]),
    ensures
        parse_value(print_json(j, ind) + rest, depth) == Some((j, rest)),
{
    reveal_strlit("null");
    reveal_strlit("true");
    reveal_strlit("false");
    let p = print_json(j, ind);
    let s = p + rest;
    lemma_print_first_char(j, ind);
    assert(s[0] == p[0]);
    assert(!is_space(s[0]));
    assert(skip_ws(s) == s);
    match j {
        JsonV::Null => {
            assert(s[0] == 'n');
            if starts_with_seq(s, "true"@) {
                assert(s.take(4)[0] == s[0]);
                assert(s[0] == 't');
            }
            if starts_with_seq(s, "false"@) {
                assert(s.take(5)[0] == s[0]);
                assert(s[0] == 'f');
            }
            assert(s.take(4) =~= "null"@);
            assert(s.skip(4) =~= rest);
        },
        JsonV::Bool(b) => {
            if b {
                assert(s[0] == 't');
                assert(s.take(4) =~= "true"@);
                assert(s.skip(4) =~= rest);
            } else {
                assert(s[0] == 'f');
                if starts_with_seq(s, "true"@) {
                    assert(s.take(4)[0] == s[0]);
                    assert(s[0] == 't');
                }
                assert(s.take(5) =~= "false"@);
                assert(s.skip(5) =~= rest);
            }
        },
        JsonV::Num(lex) => {
            assert(s[0] == lex[0]);
            if starts_with_seq(s, "true"@) {
                assert(s.take(4)[0] == s[0]);
                assert(s[0] == 't');
            }
            if starts_with_seq(s, "false"@) {
                assert(s.take(5)[0] == s[0]);
                assert(s[0] == 'f');
            }
            if starts_with_seq(s, "null"@) {
                assert(s.take(4)[0] == s[0]);
                assert(s[0] == 'n');
            }
            lemma_num_boundary(lex, rest);
            assert(s.take(lex.len() as int) =~= lex);
            assert(s.skip(lex.len() as int) =~= rest);
        },
        JsonV::Str(sv) => {
            assert(s[0] == '"');
            assert(s.skip(1) =~= escape_seq(sv) + seq!['"'] + rest);
            lemma_parse_escaped(sv, Seq::empty(), rest);
            assert(Seq::empty() + sv =~= sv);
        },
        JsonV::Arr(_) => {},
        JsonV::Obj(_) => {},
    }
}

/// What the printer writes, the parser reads back: one printed value followed
/// by anything that cannot extend a number lexeme parses to exactly that value
/// with the trailing text untouched.
/// A printed array parses back to itself.
#[verifier::rlimit(100)]
proof fn lemma_ppv_arr(items: Seq<JsonV>, ind: nat, depth: nat, rest: Seq<char>)
    requires
        json_seq_wf(items),
        1 + json_seq_height(items) <= depth,
        rest.len() == 0 || !is_num_char(rest[0]),
    ensures
        parse_value(print_json(JsonV::Arr(items), ind) + rest, depth) == Some(
            (JsonV::Arr(items), rest),
        ),
    decreases items, 1int,
{
    reveal_strlit("[]");
    let j = JsonV::Arr(items);
    let p = print_json(j, ind);
    let s = p + rest;
    lemma_print_first_char(j, ind);
    assert(s[0] == p[0]);
    assert(!is_space(s[0]));
    assert(skip_ws(s) == s);
    assert(s[0] == '[');
            assert(depth >= 1);
            if items.len() == 0 {
                assert(items =~= Seq::<JsonV>::empty());
                assert(s.skip(1) =~= seq![']'] + rest);
                let b = seq![']'] + rest;
                assert(b[0] == ']');
                assert(!is_space(b[0]));
                assert(skip_ws(b) == b);
                assert(b.skip(1) =~= rest);
            } else {
                let wsc = seq!['\n'] + spaces(2 * ind);
                lemma_spaces_len(2 * ind);
                assert(all_space(wsc));
                let close = wsc + seq![']'] + rest;
                let body = print_items(items, ind + 1) + close;
                assert(s.skip(1) =~= body);
                // where skipping whitespace inside the body lands: at the first element
                let item0 = items[0];
                assert(json_seq_wf(items));
                assert(json_wf(item0));
                let head_ws = seq!['\n'] + spaces(2 * (ind + 1));
                lemma_spaces_len(2 * (ind + 1));
                assert(all_space(head_ws));
                let ptext = print_json(item0, ind + 1);
                lemma_print_first_char(item0, ind + 1);
                let tail_items = items.subrange(1, items.len() as int);
                let after0 = if tail_items.len() == 0 {
                    close
                } else {
                    seq![','] + (print_items(tail_items, ind + 1) + close)
                };
                assert(body =~= head_ws + (ptext + after0));
                lemma_skip_ws_space_prefix(head_ws, ptext + after0);
                assert((ptext + after0)[0] == ptext[0]);
                assert(skip_ws(ptext + after0) == ptext + after0);
                assert(skip_ws(body) == ptext + after0);
                assert(skip_ws(body)[0] != ']' && skip_ws(body).len() > 0);
                // the element list parses back to the elements
                assert(json_seq_height(items) <= (depth - 1) as nat);
                lemma_print_parse_items(items, ind + 1, (depth - 1) as nat, Seq::empty(), wsc, rest);
                assert(Seq::empty() + items =~= items);
                assert(parse_arr_body(body, (depth - 1) as nat) == Some((JsonV::Arr(items), rest)));
            }
}

/// Skipping whitespace in a printed non-empty member list lands on the first
/// key's opening quote.
proof fn lemma_print_members_head(ms: Seq<MemberV>, ind: nat, x: Seq<char>)
    requires
        ms.len() > 0,
    ensures
        skip_ws(print_members(ms, ind) + x).len() > 0,
        skip_ws(print_members(ms, ind) + x)[0] == '"',
{
    let head_ws = seq!['\n'] + spaces(2 * ind);
    lemma_spaces_len(2 * ind);
    assert(all_space(head_ws));
    let m0 = ms[0];
    let ktext = quote_str(m0.key);
    assert(ktext[0] == '"');
    let tail_ms = ms.subrange(1, ms.len() as int);
    let after0 = seq![':', ' '] + print_json(m0.val, ind) + (if tail_ms.len() == 0 {
        Seq::<char>::empty()
    } else {
        seq![','] + print_members(tail_ms, ind)
    });
    assert(print_members(ms, ind) + x =~= head_ws + (ktext + (after0 + x)));
    lemma_skip_ws_space_prefix(head_ws, ktext + (after0 + x));
    assert((ktext + (after0 + x))[0] == '"');
    assert(!is_space('"'));
    assert(skip_ws(ktext + (after0 + x)) == ktext + (after0 + x));
}

/// A printed object parses back to itself.
#[verifier::rlimit(100)]
proof fn lemma_ppv_obj(ms: Seq<MemberV>, ind: nat, depth: nat, rest: Seq<char>)
    requires
        json_members_wf(ms),
        1 + json_members_height(ms) <= depth,
        rest.len() == 0 || !is_num_char(rest[0]),
    ensures
        parse_value(print_json(JsonV::Obj(ms), ind) + rest, depth) == Some(
            (JsonV::Obj(ms), rest),
        ),
    decreases ms, 1int,
{
    reveal_strlit("{}");
    let j = JsonV::Obj(ms);
    let p = print_json(j, ind);
    let s = p + rest;
    lemma_print_first_char(j, ind);
    assert(s[0] == p[0]);
    assert(!is_space(s[0]));
    assert(skip_ws(s) == s);
    assert(s[0] == '{');
            assert(depth >= 1);
            if ms.len() == 0 {
                assert(ms =~= Seq::<MemberV>::empty());
                assert(s.skip(1) =~= seq!['}'] + rest);
                let b = seq!['}'] + rest;
                assert(b[0] == '}');
                assert(!is_space(b[0]));
                assert(skip_ws(b) == b);
                assert(b.skip(1) =~= rest);
            } else {
                let wsc = seq!['\n'] + spaces(2 * ind);
                lemma_spaces_len(2 * ind);
                assert(all_space(wsc));
                let close = wsc + seq!['}'] + rest;
                let body = print_members(ms, ind + 1) + close;
                assert(s.skip(1) =~= body);
                lemma_print_members_head(ms, ind + 1, close);
                assert(skip_ws(body)[0] != '}' && skip_ws(body).len() > 0);
                assert(json_members_height(ms) <= (depth - 1) as nat);
                lemma_print_parse_members(
                    ms,
                    ind + 1,
                    (depth - 1) as nat,
                    Seq::empty(),
                    wsc,
                    rest,
                );
                assert(Seq::empty() + ms =~= ms);
                assert(parse_obj_body(body, (depth - 1) as nat) == Some((JsonV::Obj(ms), rest)));
            }
}

pub proof fn lemma_print_parse_value(j: JsonV, ind: nat, depth: nat, rest: Seq<char>)
    requires
        json_wf(j),
        json_height(j) <= depth,
        rest.len() == 0 || !is_num_char(rest[0]),
    ensures
        parse_value(print_json(j, ind) + rest, depth) == Some((j, rest)),
    decreases j, 2int,
{
    match j {
        JsonV::Null => {
            lemma_ppv_leaf(j, ind, depth, rest);
        },
        JsonV::Bool(_) => {
            lemma_ppv_leaf(j, ind, depth, rest);
        },
        JsonV::Num(_) => {
            lemma_ppv_leaf(j, ind, depth, rest);
        },
        JsonV::Str(_) => {
            lemma_ppv_leaf(j, ind, depth, rest);
        },
        JsonV::Arr(items) => {
            lemma_ppv_arr(items, ind, depth, rest);
        },
        JsonV::Obj(ms) => {
            lemma_ppv_obj(ms, ind, depth, rest);
        },
    }
}

/// The printed elements of a non-empty array, followed by the closing bracket
/// under any whitespace, parse back to exactly those elements appended to the
/// accumulator.
#[verifier::rlimit(100)]
proof fn lemma_print_parse_items(
    items: Seq<JsonV>,
    ind: nat,
    depth: nat,
    acc: Seq<JsonV>,
    wsc: Seq<char>,
    rest: Seq<char>,
)
    requires
        items.len() > 0,
        json_seq_wf(items),
        json_seq_height(items) <= depth,
        all_space(wsc),
    ensures
        parse_items(print_items(items, ind) + (wsc + seq![']'] + rest), depth, acc) == Some(
            (JsonV::Arr(acc + items), rest),
        ),
    decreases items, 0int,
{
    let close = wsc + seq![']'] + rest;
    let s = print_items(items, ind) + close;
    let item0 = items[0];
    assert(json_wf(item0));
    assert(json_height(item0) <= json_seq_height(items));
    let head_ws = seq!['\n'] + spaces(2 * ind);
    lemma_spaces_len(2 * ind);
    assert(all_space(head_ws));
    let ptext = print_json(item0, ind);
    lemma_print_first_char(item0, ind);
    let tail_items = items.subrange(1, items.len() as int);
    if tail_items.len() == 0 {
        assert(s =~= head_ws + (ptext + close));
        // close begins with whitespace or the bracket, never a number character
        assert(close.len() > 0);
        if wsc.len() > 0 {
            assert(close[0] == wsc[0]);
            assert(is_space(close[0]));
        } else {
            assert(close[0] == ']');
        }
        lemma_print_parse_value(item0, ind, depth, close);
        lemma_skip_ws_space_prefix(head_ws, ptext + close);
        assert((ptext + close)[0] == ptext[0]);
        assert(skip_ws(ptext + close) == ptext + close);
        lemma_parse_value_skip_ws(s, depth);
        assert(parse_value(s, depth) == Some((item0, close)));
        // the rest of the element list: whitespace, then the bracket
        lemma_skip_ws_space_prefix(wsc, seq![']'] + rest);
        let b = seq![']'] + rest;
        assert(close =~= wsc + b);
        assert(b[0] == ']');
        assert(!is_space(b[0]));
        assert(skip_ws(b) == b);
        assert(skip_ws(close) == b);
        assert(b.skip(1) =~= rest);
        assert(acc.push(item0) =~= acc + items);
    } else {
        let inner = print_items(tail_items, ind) + close;
        let after0 = seq![','] + inner;
        assert(s =~= head_ws + (ptext + after0));
        assert(after0[0] == ',');
        lemma_print_parse_value(item0, ind, depth, after0);
        lemma_skip_ws_space_prefix(head_ws, ptext + after0);
        assert((ptext + after0)[0] == ptext[0]);
        assert(skip_ws(ptext + after0) == ptext + after0);
        lemma_parse_value_skip_ws(s, depth);
        assert(parse_value(s, depth) == Some((item0, after0)));
        assert(!is_space(after0[0]));
        assert(skip_ws(after0) == after0);
        assert(after0.skip(1) =~= inner);
        // the separator puts the remaining elements strictly later in the text
        assert(s.len() == head_ws.len() + ptext.len() + 1 + inner.len());
        assert(inner.len() < s.len());
        assert(json_seq_wf(tail_items));
        assert(json_seq_height(tail_items) <= json_seq_height(items));
        lemma_print_parse_items(tail_items, ind, depth, acc.push(item0), wsc, rest);
        assert(acc.push(item0) + tail_items =~= acc + items);
    }
}

/// The printed members of a non-empty object, followed by the closing brace
/// under any whitespace, parse back to exactly those members appended to the
/// accumulator.
#[verifier::rlimit(100)]
proof fn lemma_print_parse_members(
    ms: Seq<MemberV>,
    ind: nat,
    depth: nat,
    acc: Seq<MemberV>,
    wsc: Seq<char>,
    rest: Seq<char>,
)
    requires
        ms.len() > 0,
        json_members_wf(ms),
        json_members_height(ms) <= depth,
        all_space(wsc),
    ensures
        parse_members(print_members(ms, ind) + (wsc + seq!['}'] + rest), depth, acc) == Some(
            (JsonV::Obj(acc + ms), rest),
        ),
    decreases ms, 0int,
{
    let close = wsc + seq!['}'] + rest;
    let s = print_members(ms, ind) + close;
    let m0 = ms[0];
    assert(json_wf(m0.val));
    assert(json_height(m0.val) <= json_members_height(ms));
    let head_ws = seq!['\n'] + spaces(2 * ind);
    lemma_spaces_len(2 * ind);
    assert(all_space(head_ws));
    let ktext = quote_str(m0.key);
    let vtext = print_json(m0.val, ind);
    lemma_print_first_char(m0.val, ind);
    let tail_ms = ms.subrange(1, ms.len() as int);
    let after_val = if tail_ms.len() == 0 {
        close
    } else {
        seq![','] + (print_members(tail_ms, ind) + close)
    };
    let after_key = seq![':', ' '] + (vtext + after_val);
    assert(s =~= head_ws + (ktext + after_key));
    lemma_skip_ws_space_prefix(head_ws, ktext + after_key);
    let t = ktext + after_key;
    assert(t[0] == '"');
    assert(!is_space(t[0]));
    assert(skip_ws(t) == t);
    assert(skip_ws(s) == t);
    // the key string parses back to the key
    assert(t.skip(1) =~= escape_seq(m0.key) + seq!['"'] + after_key);
    lemma_parse_escaped(m0.key, Seq::empty(), after_key);
    assert(Seq::empty() + m0.key =~= m0.key);
    // the colon follows at once
    assert(after_key[0] == ':');
    assert(!is_space(after_key[0]));
    assert(skip_ws(after_key) == after_key);
    // the value follows under one space
    let sv = seq![' '] + (vtext + after_val);
    assert(after_key.skip(1) =~= sv);
    assert(sv.len() <= s.len());
    if tail_ms.len() == 0 {
        assert(after_val.len() > 0);
        if wsc.len() > 0 {
            assert(after_val[0] == wsc[0]);
            assert(is_space(after_val[0]));
        } else {
            assert(after_val[0] == '}');
        }
    } else {
        assert(after_val[0] == ',');
    }
    lemma_print_parse_value(m0.val, ind, depth, after_val);
    lemma_skip_ws_space_prefix(seq![' '], vtext + after_val);
    assert((vtext + after_val)[0] == vtext[0]);
    assert(skip_ws(vtext + after_val) == vtext + after_val);
    lemma_parse_value_skip_ws(sv, depth);
    assert(parse_value(sv, depth) == Some((m0.val, after_val)));
    if tail_ms.len() == 0 {
        // the rest of the member list: whitespace, then the brace
        lemma_skip_ws_space_prefix(wsc, seq!['}'] + rest);
        let b = seq!['}'] + rest;
        assert(close =~= wsc + b);
        assert(b[0] == '}');
        assert(!is_space(b[0]));
        assert(skip_ws(b) == b);
        assert(skip_ws(close) == b);
        assert(b.skip(1) =~= rest);
        assert(acc.push(m0) =~= acc + ms);
    } else {
        let inner = print_members(tail_ms, ind) + close;
        assert(!is_space(after_val[0]));
        assert(skip_ws(after_val) == after_val);
        assert(after_val.skip(1) =~= inner);
        // the separator puts the remaining members strictly later in the text
        assert(s.len() == head_ws.len() + ktext.len() + 2 + vtext.len() + 1 + inner.len());
        assert(inner.len() < s.len());
        assert(json_members_wf(tail_ms));
        assert(json_members_height(tail_ms) <= json_members_height(ms));
        lemma_print_parse_members(tail_ms, ind, depth, acc.push(m0), wsc, rest);
        assert(acc.push(m0) + tail_ms =~= acc + ms);
    }
}

/// Round trip: parsing a pretty-printed document yields the printed tree.
pub proof fn lemma_print_parse_document(j: JsonV)
    requires
        json_wf(j),
        json_height(j) <= max_depth(),
    ensures
        parse_document(print_document(j)) == Some(j),
{
    lemma_print_parse_value(j, 0, max_depth(), Seq::empty());
    assert(print_json(j, 0) + Seq::<char>::empty() =~= print_json(j, 0));
}

/// The pretty-printed document text of a tree.
pub fn json_to_string(j: &Json) -> (r: String)
    requires
        json_height(json_view(*j)) <= 1024,
    ensures
        r@ == print_document(json_view(*j)),
{
    let mut out = String::new();
    write_json(j, 0, &mut out);
    out
}

} // verus!
