//! A small JSON tree, with a fully specified serializer and parser.
//!
//! This is the wire form of the engine: policy documents and context
//! fingerprints both go through it. Numbers are held exactly — whole numbers
//! as 64-bit integers and fractional numbers in fixed point as millionths — so
//! the tree never touches machine floating point.

use vstd::prelude::*;
use crate::error::Error;
use crate::value::MICRO;

verus! {

broadcast use
    vstd::seq::axiom_seq_index_decreases,
    vstd::std_specs::vec::axiom_vec_index_decreases,
    vstd::std_specs::vec::axiom_vec_decreases_to_view,
;

/// One JSON value.
#[derive(Debug)]
pub enum JsonNode {
    /// `null`
    Null,
    /// `true` or `false`
    Bool(bool),
    /// A whole number
    Int(i64),
    /// A fractional number, in millionths
    Flt(i64),
    /// A string
    Str(String),
    /// An array
    Arr(Vec<JsonNode>),
    /// An object: fields in order of appearance
    Obj(Vec<(String, JsonNode)>),
}

/// The mathematical shape of a [`JsonNode`].
#[verifier::ext_equal]
pub enum NodeView {
    /// `null`
    Null,
    /// `true` or `false`
    Bool(bool),
    /// A whole number
    Int(int),
    /// A fractional number, in millionths
    Flt(int),
    /// A string
    Str(Seq<char>),
    /// An array
    Arr(Seq<NodeView>),
    /// An object
    Obj(Seq<(Seq<char>, NodeView)>),
}

/// The views of a sequence of nodes, elementwise.
pub open spec fn node_views(s: Seq<JsonNode>) -> Seq<NodeView>
    decreases s,
{
    if s.len() == 0 {
        Seq::empty()
    } else {
        proof {
            assert(decreases_to!(s => s[0]));
            assert(decreases_to!(s => s.subrange(1, s.len() as int)));
        }
        seq![s[0].deep_view()] + node_views(s.subrange(1, s.len() as int))
    }
}

/// The views of a sequence of object entries, elementwise.
pub open spec fn entry_views(s: Seq<(String, JsonNode)>) -> Seq<(Seq<char>, NodeView)>
    decreases s,
{
    if s.len() == 0 {
        Seq::empty()
    } else {
        proof {
            assert(decreases_to!(s => s[0]));
            assert(decreases_to!(s[0] => s[0].1));
            assert(decreases_to!(s => s.subrange(1, s.len() as int)));
        }
        seq![(s[0].0@, s[0].1.deep_view())] + entry_views(s.subrange(1, s.len() as int))
    }
}

impl DeepView for JsonNode {
    type V = NodeView;

    open spec fn deep_view(&self) -> NodeView
        decreases self,
    {
        match self {
            JsonNode::Null => NodeView::Null,
            JsonNode::Bool(b) => NodeView::Bool(*b),
            JsonNode::Int(n) => NodeView::Int(*n as int),
            JsonNode::Flt(m) => NodeView::Flt(*m as int),
            JsonNode::Str(s) => NodeView::Str(s@),
            JsonNode::Arr(items) => {
                proof {
                    assert(decreases_to!(*items => items@));
                }
                NodeView::Arr(node_views(items@))
            },
            JsonNode::Obj(entries) => {
                proof {
                    assert(decreases_to!(*entries => entries@));
                }
                NodeView::Obj(entry_views(entries@))
            },
        }
    }
}

impl View for JsonNode {
    type V = NodeView;

    open spec fn view(&self) -> NodeView {
        self.deep_view()
    }
}

/// `node_views` maps the view pointwise over the sequence.
pub proof fn lemma_node_views(s: Seq<JsonNode>)
    ensures
        node_views(s).len() == s.len(),
        forall|i: int| 0 <= i < s.len() ==> node_views(s)[i] == s[i].deep_view(),
    decreases s.len(),
{
    if s.len() > 0 {
        let rest = s.subrange(1, s.len() as int);
        lemma_node_views(rest);
        let first = seq![s[0].deep_view()];
        assert(node_views(s) == first + node_views(rest));
        assert forall|i: int| 0 <= i < s.len() implies node_views(s)[i] == s[i].deep_view() by {
            if i > 0 {
                assert((first + node_views(rest))[i] == node_views(rest)[i - 1]);
                assert(rest[i - 1] == s[i]);
            }
        }
    }
}

/// `entry_views` maps the view pointwise over the sequence.
pub proof fn lemma_entry_views(s: Seq<(String, JsonNode)>)
    ensures
        entry_views(s).len() == s.len(),
        forall|i: int|
            0 <= i < s.len() ==> entry_views(s)[i] == (s[i].0@, s[i].1.deep_view()),
    decreases s.len(),
{
    if s.len() > 0 {
        let rest = s.subrange(1, s.len() as int);
        lemma_entry_views(rest);
        let first = seq![(s[0].0@, s[0].1.deep_view())];
        assert(entry_views(s) == first + entry_views(rest));
        assert forall|i: int|
            0 <= i < s.len() implies entry_views(s)[i] == (s[i].0@, s[i].1.deep_view()) by {
            if i > 0 {
                assert((first + entry_views(rest))[i] == entry_views(rest)[i - 1]);
                assert(rest[i - 1] == s[i]);
            }
        }
    }
}

/// The decimal digit character for `d`.
pub open spec fn spec_digit_char(d: int) -> char {
    if d == 0 {
        '0'
    } else if d == 1 {
        '1'
    } else if d == 2 {
        '2'
    } else if d == 3 {
        '3'
    } else if d == 4 {
        '4'
    } else if d == 5 {
        '5'
    } else if d == 6 {
        '6'
    } else if d == 7 {
        '7'
    } else if d == 8 {
        '8'
    } else {
        '9'
    }
}

/// The decimal digits of a non-negative number, most significant first.
pub open spec fn spec_nat_chars(n: int) -> Seq<char>
    decreases n,
{
    if n < 10 {
        seq![spec_digit_char(n)]
    } else {
        spec_nat_chars(n / 10).push(spec_digit_char(n % 10))
    }
}

/// The decimal text of an integer.
pub open spec fn spec_int_chars(n: int) -> Seq<char> {
    if n < 0 {
        seq!['-'] + spec_nat_chars(-n)
    } else {
        spec_nat_chars(n)
    }
}

/// The six decimal digits of a fraction of millionths, most significant first.
pub open spec fn spec_frac6_chars(f: int) -> Seq<char> {
    seq![
        spec_digit_char(f / 100000 % 10),
        spec_digit_char(f / 10000 % 10),
        spec_digit_char(f / 1000 % 10),
        spec_digit_char(f / 100 % 10),
        spec_digit_char(f / 10 % 10),
        spec_digit_char(f % 10),
    ]
}

/// Those digits with trailing zeros dropped, keeping at least one digit.
pub open spec fn spec_trim_zeros(s: Seq<char>) -> Seq<char>
    decreases s.len(),
{
    if s.len() <= 1 {
        s
    } else if s[s.len() - 1] == '0' {
        spec_trim_zeros(s.subrange(0, s.len() - 1))
    } else {
        s
    }
}

/// The canonical text of a fixed-point count of millionths: sign, whole part,
/// a dot, and the fraction with trailing zeros trimmed (at least one digit).
pub open spec fn spec_micro_chars(m: int) -> Seq<char> {
    let a = if m < 0 {
        -m
    } else {
        m
    };
    let sign: Seq<char> = if m < 0 {
        seq!['-']
    } else {
        Seq::empty()
    };
    sign + spec_nat_chars(a / (MICRO as int)) + seq!['.'] + spec_trim_zeros(
        spec_frac6_chars(a % (MICRO as int)),
    )
}

/// The hexadecimal digit character for `d` (lower case).
pub open spec fn spec_hex_char(d: int) -> char {
    if d == 10 {
        'a'
    } else if d == 11 {
        'b'
    } else if d == 12 {
        'c'
    } else if d == 13 {
        'd'
    } else if d == 14 {
        'e'
    } else if d == 15 {
        'f'
    } else {
        spec_digit_char(d)
    }
}

/// The JSON escape of one string character.
pub open spec fn spec_escape_char(c: char) -> Seq<char> {
    if c == '"' {
        seq!['\\', '"']
    } else if c == '\\' {
        seq!['\\', '\\']
    } else if c == '\n' {
        seq!['\\', 'n']
    } else if c == '\r' {
        seq!['\\', 'r']
    } else if c == '\t' {
        seq!['\\', 't']
    } else if (c as u32) < 32 {
        seq!['\\', 'u', '0', '0'] + seq![
            spec_hex_char((c as u32) as int / 16),
            spec_hex_char((c as u32) as int % 16),
        ]
    } else {
        seq![c]
    }
}

/// The JSON escape of a whole string body.
pub open spec fn spec_escape(s: Seq<char>) -> Seq<char>
    decreases s.len(),
{
    if s.len() == 0 {
        Seq::empty()
    } else {
        spec_escape_char(s[0]) + spec_escape(s.subrange(1, s.len() as int))
    }
}

/// The serialized text of a JSON value: canonical, with no whitespace, fields
/// in stored order.
pub open spec fn spec_ser_node(n: NodeView) -> Seq<char>
    decreases n, 1int,
{
    match n {
        NodeView::Null => "null"@,
        NodeView::Bool(b) => if b {
            "true"@
        } else {
            "false"@
        },
        NodeView::Int(i) => spec_int_chars(i),
        NodeView::Flt(m) => spec_micro_chars(m),
        NodeView::Str(s) => seq!['"'] + spec_escape(s) + seq!['"'],
        NodeView::Arr(items) => seq!['['] + spec_ser_items(items) + seq![']'],
        NodeView::Obj(entries) => seq!['{'] + spec_ser_entries(entries) + seq!['}'],
    }
}

/// The comma-separated serialization of array items.
pub open spec fn spec_ser_items(items: Seq<NodeView>) -> Seq<char>
    decreases items, 0int,
{
    if items.len() == 0 {
        Seq::empty()
    } else {
        proof {
            assert(decreases_to!(items => items[0]));
            assert(decreases_to!(items => items.subrange(1, items.len() as int)));
        }
        let first = spec_ser_node(items[0]);
        if items.len() == 1 {
            first
        } else {
            first + seq![','] + spec_ser_items(items.subrange(1, items.len() as int))
        }
    }
}

/// The comma-separated serialization of object entries.
pub open spec fn spec_ser_entries(entries: Seq<(Seq<char>, NodeView)>) -> Seq<char>
    decreases entries, 0int,
{
    if entries.len() == 0 {
        Seq::empty()
    } else {
        proof {
            assert(decreases_to!(entries => entries[0]));
            assert(decreases_to!(entries[0] => entries[0].1));
            assert(decreases_to!(entries => entries.subrange(1, entries.len() as int)));
        }
        let first = seq!['"'] + spec_escape(entries[0].0) + seq!['"', ':'] + spec_ser_node(
            entries[0].1,
        );
        if entries.len() == 1 {
            first
        } else {
            first + seq![','] + spec_ser_entries(entries.subrange(1, entries.len() as int))
        }
    }
}

} // verus!

verus! {

/// The decimal digit character for `d`.
fn digit_char(d: u64) -> (r: char)
    requires
        d < 10,
    ensures
        r == spec_digit_char(d as int),
{
    match d {
        0 => '0',
        1 => '1',
        2 => '2',
        3 => '3',
        4 => '4',
        5 => '5',
        6 => '6',
        7 => '7',
        8 => '8',
        _ => '9',
    }
}

/// The hexadecimal digit character for `d`, lower case.
fn hex_char(d: u32) -> (r: char)
    requires
        d < 16,
    ensures
        r == spec_hex_char(d as int),
{
    match d {
        10 => 'a',
        11 => 'b',
        12 => 'c',
        13 => 'd',
        14 => 'e',
        15 => 'f',
        _ => digit_char(d as u64),
    }
}

/// Append the decimal digits of `n`.
fn push_nat_chars(out: &mut Vec<char>, n: u64)
    ensures
        final(out)@ == old(out)@ + spec_nat_chars(n as int),
    decreases n,
{
    if n < 10 {
        out.push(digit_char(n));
        proof {
            assert(out@ =~= old(out)@ + spec_nat_chars(n as int));
        }
    } else {
        push_nat_chars(out, n / 10);
        out.push(digit_char(n % 10));
        proof {
            assert(out@ =~= old(out)@ + spec_nat_chars(n as int));
        }
    }
}

/// Append the decimal text of `n`.
fn push_int_chars(out: &mut Vec<char>, n: i64)
    ensures
        final(out)@ == old(out)@ + spec_int_chars(n as int),
{
    if n < 0 {
        out.push('-');
        let ghost mid = out@;
        let a: u64 = (-(n as i128)) as u64;
        proof {
            assert(a as int == -(n as int));
        }
        push_nat_chars(out, a);
        proof {
            assert(out@ =~= old(out)@ + spec_int_chars(n as int));
        }
    } else {
        push_nat_chars(out, n as u64);
    }
}

/// Trimming a digit run keeps exactly the prefix up to its last non-zero
/// digit, never dropping the first digit.
proof fn lemma_trim_at(s: Seq<char>, end: int)
    requires
        1 <= end <= s.len(),
        forall|j: int| end <= j < s.len() ==> s[j] == '0',
        end > 1 ==> s[end - 1] != '0',
    ensures
        spec_trim_zeros(s) == s.subrange(0, end),
    decreases s.len(),
{
    if s.len() <= 1 {
        assert(s.subrange(0, end) =~= s);
    } else if end == s.len() {
        if s[s.len() - 1] == '0' {
            assert(end == 1);
            let shorter = s.subrange(0, s.len() - 1);
            lemma_trim_at(shorter, end);
            assert(shorter.subrange(0, end) =~= s.subrange(0, end));
        } else {
            assert(s.subrange(0, end) =~= s);
        }
    } else {
        assert(s[s.len() - 1] == '0');
        let shorter = s.subrange(0, s.len() - 1);
        assert forall|j: int| end <= j < shorter.len() implies shorter[j] == '0' by {
            assert(shorter[j] == s[j]);
        }
        assert(end > 1 ==> shorter[end - 1] == s[end - 1]);
        lemma_trim_at(shorter, end);
        assert(shorter.subrange(0, end) =~= s.subrange(0, end));
    }
}

/// Append the canonical text of a fixed-point count of millionths.
fn push_micro_chars(out: &mut Vec<char>, m: i64)
    ensures
        final(out)@ == old(out)@ + spec_micro_chars(m as int),
{
    let a: u64 = if m < 0 {
        out.push('-');
        (-(m as i128)) as u64
    } else {
        m as u64
    };
    proof {
        assert(a as int == if m < 0 { -(m as int) } else { m as int });
    }
    push_nat_chars(out, a / 1_000_000);
    out.push('.');
    let f = a % 1_000_000;
    let mut digits: Vec<char> = Vec::new();
    digits.push(digit_char(f / 100000 % 10));
    digits.push(digit_char(f / 10000 % 10));
    digits.push(digit_char(f / 1000 % 10));
    digits.push(digit_char(f / 100 % 10));
    digits.push(digit_char(f / 10 % 10));
    digits.push(digit_char(f % 10));
    proof {
        assert(digits@ =~= spec_frac6_chars(f as int));
    }
    let mut end: usize = 6;
    while end > 1 && digits[end - 1] == '0'
        invariant
            1 <= end <= 6,
            digits@ == spec_frac6_chars(f as int),
            forall|j: int| end as int <= j < 6 ==> digits@[j] == '0',
        decreases end,
    {
        end = end - 1;
    }
    proof {
        lemma_trim_at(digits@, end as int);
    }
    let ghost before = out@;
    let mut k: usize = 0;
    while k < end
        invariant
            k <= end <= 6,
            digits@ == spec_frac6_chars(f as int),
            out@ =~= before + digits@.subrange(0, k as int),
        decreases end - k,
    {
        out.push(digits[k]);
        proof {
            assert(out@ =~= before + digits@.subrange(0, k + 1 as int));
        }
        k = k + 1;
    }
    proof {
        assert(out@ =~= old(out)@ + spec_micro_chars(m as int));
    }
}

/// Escaping distributes one character at a time.
proof fn lemma_escape_snoc(s: Seq<char>, c: char)
    ensures
        spec_escape(s.push(c)) == spec_escape(s) + spec_escape_char(c),
    decreases s.len(),
{
    if s.len() == 0 {
        assert(s.push(c)[0] == c);
        assert(s.push(c).subrange(1, 1) =~= Seq::<char>::empty());
        assert(spec_escape(s.push(c)) == spec_escape_char(c) + spec_escape(
            s.push(c).subrange(1, 1),
        ));
        assert(spec_escape_char(c) + Seq::<char>::empty() =~= spec_escape_char(c));
        assert(spec_escape(s) + spec_escape_char(c) =~= spec_escape_char(c));
    } else {
        assert(s.push(c)[0] == s[0]);
        assert(s.push(c).subrange(1, s.len() as int + 1) =~= s.subrange(1, s.len() as int).push(c));
        lemma_escape_snoc(s.subrange(1, s.len() as int), c);
        assert(spec_escape_char(s[0]) + (spec_escape(s.subrange(1, s.len() as int))
            + spec_escape_char(c)) =~= (spec_escape_char(s[0]) + spec_escape(
            s.subrange(1, s.len() as int),
        )) + spec_escape_char(c));
    }
}

/// Append the JSON escape of one character.
fn push_escape_char(out: &mut Vec<char>, c: char)
    ensures
        final(out)@ == old(out)@ + spec_escape_char(c),
{
    if c == '"' {
        out.push('\\');
        out.push('"');
    } else if c == '\\' {
        out.push('\\');
        out.push('\\');
    } else if c == '\n' {
        out.push('\\');
        out.push('n');
    } else if c == '\r' {
        out.push('\\');
        out.push('r');
    } else if c == '\t' {
        out.push('\\');
        out.push('t');
    } else if (c as u32) < 32 {
        out.push('\\');
        out.push('u');
        out.push('0');
        out.push('0');
        out.push(hex_char((c as u32) / 16));
        out.push(hex_char((c as u32) % 16));
    } else {
        out.push(c);
    }
    proof {
        assert(out@ =~= old(out)@ + spec_escape_char(c));
    }
}

/// Append the JSON escape of a whole string body.
fn push_escape(out: &mut Vec<char>, s: &Vec<char>)
    ensures
        final(out)@ == old(out)@ + spec_escape(s@),
{
    let mut i: usize = 0;
    proof {
        assert(s@.subrange(0, 0) =~= Seq::<char>::empty());
        assert(spec_escape(s@.subrange(0, 0)) == Seq::<char>::empty());
        assert(out@ =~= old(out)@ + spec_escape(s@.subrange(0, 0)));
    }
    while i < s.len()
        invariant
            i <= s@.len(),
            out@ =~= old(out)@ + spec_escape(s@.subrange(0, i as int)),
        decreases s@.len() - i,
    {
        push_escape_char(out, s[i]);
        proof {
            lemma_escape_snoc(s@.subrange(0, i as int), s@[i as int]);
            assert(s@.subrange(0, i + 1 as int) =~= s@.subrange(0, i as int).push(s@[i as int]));
        }
        i = i + 1;
    }
    proof {
        assert(s@.subrange(0, s@.len() as int) =~= s@);
    }
}

/// Serialized items extend one element at a time, a comma between elements.
proof fn lemma_ser_items_snoc(items: Seq<NodeView>, x: NodeView)
    ensures
        spec_ser_items(items.push(x)) == if items.len() == 0 {
            spec_ser_node(x)
        } else {
            spec_ser_items(items) + seq![','] + spec_ser_node(x)
        },
    decreases items.len(),
{
    let all = items.push(x);
    if items.len() == 0 {
        assert(all[0] == x);
        assert(all.len() == 1);
    } else {
        assert(all[0] == items[0]);
        assert(all.subrange(1, all.len() as int) =~= items.subrange(1, items.len() as int).push(x));
        lemma_ser_items_snoc(items.subrange(1, items.len() as int), x);
        if items.len() == 1 {
            assert(items.subrange(1, 1).len() == 0);
            assert(spec_ser_items(all) == spec_ser_node(items[0]) + seq![','] + spec_ser_node(x));
            assert(spec_ser_node(items[0]) + seq![','] + spec_ser_node(x) =~= spec_ser_items(items)
                + seq![','] + spec_ser_node(x));
        } else {
            assert(spec_ser_items(all) =~= spec_ser_items(items) + seq![','] + spec_ser_node(x));
        }
    }
}

/// Serialized entries extend one entry at a time, a comma between entries.
proof fn lemma_ser_entries_snoc(entries: Seq<(Seq<char>, NodeView)>, x: (Seq<char>, NodeView))
    ensures
        spec_ser_entries(entries.push(x)) == {
            let piece = seq!['"'] + spec_escape(x.0) + seq!['"', ':'] + spec_ser_node(x.1);
            if entries.len() == 0 {
                piece
            } else {
                spec_ser_entries(entries) + seq![','] + piece
            }
        },
    decreases entries.len(),
{
    let all = entries.push(x);
    let piece = seq!['"'] + spec_escape(x.0) + seq!['"', ':'] + spec_ser_node(x.1);
    if entries.len() == 0 {
        assert(all[0] == x);
        assert(all.len() == 1);
    } else {
        assert(all[0] == entries[0]);
        assert(all.subrange(1, all.len() as int) =~= entries.subrange(
            1,
            entries.len() as int,
        ).push(x));
        lemma_ser_entries_snoc(entries.subrange(1, entries.len() as int), x);
        if entries.len() == 1 {
            assert(entries.subrange(1, 1).len() == 0);
            assert(spec_ser_entries(all) =~= spec_ser_entries(entries) + seq![','] + piece);
        } else {
            assert(spec_ser_entries(all) =~= spec_ser_entries(entries) + seq![','] + piece);
        }
    }
}

/// Append the serialized text of a node.
#[verifier::rlimit(60)]
pub fn ser_node(n: &JsonNode, out: &mut Vec<char>)
    ensures
        final(out)@ == old(out)@ + spec_ser_node(n@),
    decreases n,
{
    match n {
        JsonNode::Null => {
            out.push('n');
            out.push('u');
            out.push('l');
            out.push('l');
            proof {
                reveal_strlit("null");
                assert(out@ =~= old(out)@ + "null"@);
            }
        },
        JsonNode::Bool(b) => {
            if *b {
                out.push('t');
                out.push('r');
                out.push('u');
                out.push('e');
                proof {
                    reveal_strlit("true");
                    assert(out@ =~= old(out)@ + "true"@);
                }
            } else {
                out.push('f');
                out.push('a');
                out.push('l');
                out.push('s');
                out.push('e');
                proof {
                    reveal_strlit("false");
                    assert(out@ =~= old(out)@ + "false"@);
                }
            }
        },
        JsonNode::Int(i) => {
            push_int_chars(out, *i);
        },
        JsonNode::Flt(m) => {
            push_micro_chars(out, *m);
        },
        JsonNode::Str(s) => {
            out.push('"');
            push_escape(out, &crate::outside::chars_of(s.as_str()));
            out.push('"');
            proof {
                assert(out@ =~= old(out)@ + (seq!['"'] + spec_escape(s@) + seq!['"']));
            }
        },
        JsonNode::Arr(items) => {
            out.push('[');
            let ghost opened = out@;
            let mut i: usize = 0;
            proof {
                lemma_node_views(items@);
                assert(node_views(items@).subrange(0, 0) =~= Seq::<NodeView>::empty());
            }
            while i < items.len()
                invariant
                    i <= items@.len(),
                    node_views(items@).len() == items@.len(),
                    forall|j: int|
                        0 <= j < items@.len() ==> node_views(items@)[j] == items@[j].deep_view(),
                    out@ =~= opened + spec_ser_items(node_views(items@).subrange(0, i as int)),
                decreases items@.len() - i,
            {
                if i > 0 {
                    out.push(',');
                }
                proof {
                    assert(decreases_to!(*items => items@));
                    assert(decreases_to!(items@ => items@[i as int]));
                }
                ser_node(&items[i], out);
                proof {
                    lemma_ser_items_snoc(
                        node_views(items@).subrange(0, i as int),
                        node_views(items@)[i as int],
                    );
                    assert(node_views(items@).subrange(0, i + 1 as int) =~= node_views(
                        items@,
                    ).subrange(0, i as int).push(node_views(items@)[i as int]));
                }
                i = i + 1;
            }
            out.push(']');
            proof {
                assert(node_views(items@).subrange(0, items@.len() as int) =~= node_views(items@));
                assert(out@ =~= old(out)@ + (seq!['['] + spec_ser_items(node_views(items@))
                    + seq![']']));
            }
        },
        JsonNode::Obj(entries) => {
            out.push('{');
            let ghost opened = out@;
            let mut i: usize = 0;
            proof {
                lemma_entry_views(entries@);
                assert(entry_views(entries@).subrange(0, 0) =~= Seq::<(Seq<char>, NodeView)>::empty());
            }
            while i < entries.len()
                invariant
                    i <= entries@.len(),
                    entry_views(entries@).len() == entries@.len(),
                    forall|j: int|
                        0 <= j < entries@.len() ==> entry_views(entries@)[j] == (
                        entries@[j].0@,
                        entries@[j].1.deep_view(),
                        ),
                    out@ =~= opened + spec_ser_entries(entry_views(entries@).subrange(0, i as int)),
                decreases entries@.len() - i,
            {
                if i > 0 {
                    out.push(',');
                }
                out.push('"');
                push_escape(out, &crate::outside::chars_of(entries[i].0.as_str()));
                out.push('"');
                out.push(':');
                proof {
                    assert(decreases_to!(*entries => entries@));
                    assert(decreases_to!(entries@ => entries@[i as int]));
                    assert(decreases_to!(entries@[i as int] => entries@[i as int].1));
                }
                ser_node(&entries[i].1, out);
                proof {
                    lemma_ser_entries_snoc(
                        entry_views(entries@).subrange(0, i as int),
                        entry_views(entries@)[i as int],
                    );
                    assert(entry_views(entries@).subrange(0, i + 1 as int) =~= entry_views(
                        entries@,
                    ).subrange(0, i as int).push(entry_views(entries@)[i as int]));
                }
                i = i + 1;
            }
            out.push('}');
            proof {
                assert(entry_views(entries@).subrange(0, entries@.len() as int) =~= entry_views(
                    entries@,
                ));
                assert(out@ =~= old(out)@ + (seq!['{'] + spec_ser_entries(entry_views(entries@))
                    + seq!['}']));
            }
        },
    }
}

/// The serialized text of a node, as a string.
pub fn node_to_string(n: &JsonNode) -> (r: String)
    ensures
        r@ == spec_ser_node(n@),
{
    let mut out: Vec<char> = Vec::new();
    ser_node(n, &mut out);
    crate::outside::string_from_chars(&out)
}

} // verus!

verus! {

/// The JSON shape of a condition value: one-for-one on every case.
pub open spec fn spec_value_node(v: crate::value::ValueView) -> NodeView
    decreases v,
{
    match v {
        crate::value::ValueView::Str(s) => NodeView::Str(s),
        crate::value::ValueView::Int(n) => NodeView::Int(n),
        crate::value::ValueView::Flt(m) => NodeView::Flt(m),
        crate::value::ValueView::Bool(b) => NodeView::Bool(b),
        crate::value::ValueView::Null => NodeView::Null,
        crate::value::ValueView::Arr(items) => NodeView::Arr(spec_value_nodes(items)),
    }
}

/// The JSON shapes of a sequence of condition values, elementwise.
pub open spec fn spec_value_nodes(s: Seq<crate::value::ValueView>) -> Seq<NodeView>
    decreases s,
{
    if s.len() == 0 {
        Seq::empty()
    } else {
        proof {
            assert(decreases_to!(s => s[0]));
            assert(decreases_to!(s => s.subrange(1, s.len() as int)));
        }
        seq![spec_value_node(s[0])] + spec_value_nodes(s.subrange(1, s.len() as int))
    }
}

/// Turn a condition value into its JSON node.
pub fn value_to_node(v: &crate::value::ConditionValue) -> (r: JsonNode)
    ensures
        r@ == spec_value_node(v@),
    decreases v,
{
    match v {
        crate::value::ConditionValue::String(s) => JsonNode::Str(s.clone()),
        crate::value::ConditionValue::Integer(n) => JsonNode::Int(*n),
        crate::value::ConditionValue::Float(m) => JsonNode::Flt(*m),
        crate::value::ConditionValue::Boolean(b) => JsonNode::Bool(*b),
        crate::value::ConditionValue::Null => JsonNode::Null,
        crate::value::ConditionValue::Array(items) => {
            let mut out: Vec<JsonNode> = Vec::new();
            let mut i: usize = 0;
            while i < items.len()
                invariant
                    i <= items.len(),
                    out@.len() == i as int,
                    forall|j: int|
                        0 <= j < i as int ==> out@[j].deep_view() == spec_value_node(
                            #[trigger] crate::value::value_views(items@)[j],
                        ),
                decreases items@.len() - i,
            {
                proof {
                    assert(decreases_to!(*items => items@));
                    assert(decreases_to!(items@ => items@[i as int]));
                    crate::value::lemma_value_views(items@);
                }
                let n = value_to_node(&items[i]);
                out.push(n);
                i = i + 1;
            }
            let r = JsonNode::Arr(out);
            proof {
                crate::value::lemma_value_views(items@);
                lemma_node_views(r->Arr_0@);
                lemma_value_nodes(crate::value::value_views(items@));
                assert(node_views(out@) =~= spec_value_nodes(crate::value::value_views(items@)));
            }
            r
        },
    }
}

/// `spec_value_nodes` maps pointwise.
pub proof fn lemma_value_nodes(s: Seq<crate::value::ValueView>)
    ensures
        spec_value_nodes(s).len() == s.len(),
        forall|i: int| 0 <= i < s.len() ==> spec_value_nodes(s)[i] == spec_value_node(s[i]),
    decreases s.len(),
{
    if s.len() > 0 {
        let rest = s.subrange(1, s.len() as int);
        lemma_value_nodes(rest);
        let first = seq![spec_value_node(s[0])];
        assert(spec_value_nodes(s) == first + spec_value_nodes(rest));
        assert forall|i: int|
            0 <= i < s.len() implies spec_value_nodes(s)[i] == spec_value_node(s[i]) by {
            if i > 0 {
                assert((first + spec_value_nodes(rest))[i] == spec_value_nodes(rest)[i - 1]);
                assert(rest[i - 1] == s[i]);
            }
        }
    }
}

} // verus!

verus! {

/// Whether a character is JSON whitespace.
pub open spec fn spec_is_ws(c: char) -> bool {
    c == ' ' || c == '\t' || c == '\n' || c == '\r'
}

/// The first index at or after `p` holding something other than whitespace,
/// or the length.
pub open spec fn spec_skip_ws(s: Seq<char>, p: int) -> int
    decreases s.len() - p,
{
    if p < 0 || p >= s.len() {
        p
    } else if spec_is_ws(s[p]) {
        spec_skip_ws(s, p + 1)
    } else {
        p
    }
}

/// Skipping whitespace never moves backwards and never passes the end.
pub proof fn lemma_skip_ws(s: Seq<char>, p: int)
    requires
        0 <= p <= s.len(),
    ensures
        p <= spec_skip_ws(s, p) <= s.len(),
        spec_skip_ws(s, p) < s.len() ==> !spec_is_ws(s[spec_skip_ws(s, p)]),
    decreases s.len() - p,
{
    if p < s.len() && spec_is_ws(s[p]) {
        lemma_skip_ws(s, p + 1);
    }
}

/// Whether a character is a decimal digit.
pub open spec fn spec_is_digit(c: char) -> bool {
    '0' <= c && c <= '9'
}

/// The value of a decimal digit.
pub open spec fn spec_digit_val(c: char) -> int {
    c as u32 - 48
}

/// The first index at or after `p` holding a non-digit, or the length.
pub open spec fn spec_digits_end(s: Seq<char>, p: int) -> int
    decreases s.len() - p,
{
    if p < 0 || p >= s.len() {
        p
    } else if spec_is_digit(s[p]) {
        spec_digits_end(s, p + 1)
    } else {
        p
    }
}

/// The digits run stays in bounds and everything inside it is a digit.
pub proof fn lemma_digits_end(s: Seq<char>, p: int)
    requires
        0 <= p <= s.len(),
    ensures
        p <= spec_digits_end(s, p) <= s.len(),
        forall|j: int| p <= j < spec_digits_end(s, p) ==> spec_is_digit(#[trigger] s[j]),
        spec_digits_end(s, p) < s.len() ==> !spec_is_digit(s[spec_digits_end(s, p)]),
    decreases s.len() - p,
{
    if p < s.len() && spec_is_digit(s[p]) {
        lemma_digits_end(s, p + 1);
    }
}

/// The number held by the digits of `s` between `p` and `e`.
pub open spec fn spec_digits_val(s: Seq<char>, p: int, e: int) -> int
    decreases e - p,
{
    if e <= p {
        0
    } else {
        spec_digits_val(s, p, e - 1) * 10 + spec_digit_val(s[e - 1])
    }
}

/// Ten to the given power (one for non-positive exponents).
pub open spec fn spec_pow10(n: int) -> int
    decreases n,
{
    if n <= 0 {
        1
    } else {
        10 * spec_pow10(n - 1)
    }
}

/// Powers of ten are positive and grow with the exponent.
pub proof fn lemma_pow10_pos(n: int)
    ensures
        spec_pow10(n) >= 1,
        n >= 1 ==> spec_pow10(n) >= 10,
    decreases n,
{
    if n > 0 {
        lemma_pow10_pos(n - 1);
    }
}

/// A digit run of bounded length holds a bounded value.
pub proof fn lemma_digits_val_bound(s: Seq<char>, p: int, e: int)
    requires
        p <= e,
        forall|j: int| p <= j < e ==> spec_is_digit(#[trigger] s[j]),
    ensures
        0 <= spec_digits_val(s, p, e) < spec_pow10(e - p),
    decreases e - p,
{
    if e > p {
        lemma_digits_val_bound(s, p, e - 1);
        lemma_pow10_pos(e - p - 1);
        assert(spec_digit_val(s[e - 1]) <= 9);
        assert(spec_digits_val(s, p, e - 1) * 10 + 9 < spec_pow10(e - p - 1) * 10) by (nonlinear_arith)
            requires
                spec_digits_val(s, p, e - 1) < spec_pow10(e - p - 1),
        ;
    }
}

/// The numeric value a parsed number denotes: a whole number stays an integer
/// node, anything with a fraction or exponent becomes fixed point. Digit runs
/// beyond eighteen digits, exponents beyond three digits, and magnitudes
/// beyond the 64-bit range are rejected; fractional precision beyond
/// millionths is truncated.
pub open spec fn spec_number_node(
    neg: bool,
    intval: int,
    intlen: int,
    has_frac: bool,
    fracval: int,
    fraclen: int,
    has_exp: bool,
    expneg: bool,
    expval: int,
    explen: int,
) -> Result<NodeView, ()> {
    if intlen > 18 || fraclen > 18 || explen > 3 {
        Err(())
    } else if !has_frac && !has_exp {
        let v = if neg {
            -intval
        } else {
            intval
        };
        if i64::MIN <= v <= i64::MAX {
            Ok(NodeView::Int(v))
        } else {
            Err(())
        }
    } else {
        let digitsval = intval * spec_pow10(fraclen) + fracval;
        let exp = if expneg {
            -expval
        } else {
            expval
        };
        let shift = exp + 6 - fraclen;
        if shift >= 0 && digitsval > i64::MAX {
            Err(())
        } else {
            let mag = if shift >= 0 {
                digitsval * spec_pow10(shift)
            } else {
                digitsval / spec_pow10(-shift)
            };
            let v = if neg {
                -mag
            } else {
                mag
            };
            if i64::MIN <= v <= i64::MAX {
                Ok(NodeView::Flt(v))
            } else {
                Err(())
            }
        }
    }
}

/// Parse a number at `p`: optional minus, digits, optional fraction, optional
/// exponent. Returns the node and the index after the number.
pub open spec fn spec_parse_number(s: Seq<char>, p: int) -> Result<(NodeView, int), ()> {
    let p0 = if p < s.len() && s[p] == '-' {
        p + 1
    } else {
        p
    };
    let neg = p0 > p;
    let e1 = spec_digits_end(s, p0);
    if e1 == p0 {
        Err(())
    } else {
        let intval = spec_digits_val(s, p0, e1);
        let has_frac = e1 < s.len() && s[e1] == '.';
        let fs = e1 + 1;
        let e2 = if has_frac {
            spec_digits_end(s, fs)
        } else {
            e1
        };
        if has_frac && e2 == fs {
            Err(())
        } else {
            let fracval = if has_frac {
                spec_digits_val(s, fs, e2)
            } else {
                0
            };
            let fraclen = if has_frac {
                e2 - fs
            } else {
                0
            };
            let has_exp = e2 < s.len() && (s[e2] == 'e' || s[e2] == 'E');
            if !has_exp {
                match spec_number_node(
                    neg,
                    intval,
                    e1 - p0,
                    has_frac,
                    fracval,
                    fraclen,
                    false,
                    false,
                    0,
                    0,
                ) {
                    Ok(n) => Ok((n, e2)),
                    Err(u) => Err(u),
                }
            } else {
                let es0 = e2 + 1;
                let expneg = es0 < s.len() && s[es0] == '-';
                let es = if es0 < s.len() && (s[es0] == '-' || s[es0] == '+') {
                    es0 + 1
                } else {
                    es0
                };
                let e3 = spec_digits_end(s, es);
                if e3 == es {
                    Err(())
                } else {
                    let expval = spec_digits_val(s, es, e3);
                    match spec_number_node(
                        neg,
                        intval,
                        e1 - p0,
                        has_frac,
                        fracval,
                        fraclen,
                        true,
                        expneg,
                        expval,
                        e3 - es,
                    ) {
                        Ok(n) => Ok((n, e3)),
                        Err(u) => Err(u),
                    }
                }
            }
        }
    }
}

/// The value of a hexadecimal digit, or 16 for anything else.
pub open spec fn spec_hex_val(c: char) -> int {
    if '0' <= c && c <= '9' {
        c as u32 - 48
    } else if 'a' <= c && c <= 'f' {
        c as u32 - 87
    } else if 'A' <= c && c <= 'F' {
        c as u32 - 55
    } else {
        16
    }
}

/// The code unit of four hexadecimal characters starting at `p`.
pub open spec fn spec_hex4(s: Seq<char>, p: int) -> int {
    spec_hex_val(s[p]) * 4096 + spec_hex_val(s[p + 1]) * 256 + spec_hex_val(s[p + 2]) * 16
        + spec_hex_val(s[p + 3])
}

/// Whether four valid hexadecimal characters start at `p`.
pub open spec fn spec_hex4_ok(s: Seq<char>, p: int) -> bool {
    p + 4 <= s.len() && spec_hex_val(s[p]) < 16 && spec_hex_val(s[p + 1]) < 16 && spec_hex_val(
        s[p + 2],
    ) < 16 && spec_hex_val(s[p + 3]) < 16
}

/// Parse the body of a string after its opening quote: plain characters and
/// the JSON escapes, including surrogate pairs. Returns the characters and the
/// index after the closing quote.
pub open spec fn spec_parse_string(s: Seq<char>, p: int) -> Result<(Seq<char>, int), ()>
    decreases s.len() - p,
{
    if p < 0 || p >= s.len() {
        Err(())
    } else if s[p] == '"' {
        Ok((Seq::empty(), p + 1))
    } else if s[p] == '\\' {
        if p + 1 >= s.len() {
            Err(())
        } else {
            let e = s[p + 1];
            if e == 'u' {
                if !spec_hex4_ok(s, p + 2) {
                    Err(())
                } else {
                    let code = spec_hex4(s, p + 2);
                    if 0xD800 <= code < 0xDC00 {
                        if p + 12 <= s.len() && s[p + 6] == '\\' && s[p + 7] == 'u' && spec_hex4_ok(
                            s,
                            p + 8,
                        ) {
                            let low = spec_hex4(s, p + 8);
                            if 0xDC00 <= low < 0xE000 {
                                let combined = 0x10000 + (code - 0xD800) * 0x400 + (low - 0xDC00);
                                match spec_parse_string(s, p + 12) {
                                    Ok((cs, q)) => Ok(
                                        (seq![(combined as u32) as char] + cs, q),
                                    ),
                                    Err(u) => Err(u),
                                }
                            } else {
                                Err(())
                            }
                        } else {
                            Err(())
                        }
                    } else if 0xDC00 <= code < 0xE000 {
                        Err(())
                    } else {
                        match spec_parse_string(s, p + 6) {
                            Ok((cs, q)) => Ok((seq![(code as u32) as char] + cs, q)),
                            Err(u) => Err(u),
                        }
                    }
                }
            } else {
                let mapped: Result<char, ()> = if e == '"' {
                    Ok('"')
                } else if e == '\\' {
                    Ok('\\')
                } else if e == '/' {
                    Ok('/')
                } else if e == 'n' {
                    Ok('\n')
                } else if e == 't' {
                    Ok('\t')
                } else if e == 'r' {
                    Ok('\r')
                } else if e == 'b' {
                    Ok('\u{0008}')
                } else if e == 'f' {
                    Ok('\u{000C}')
                } else {
                    Err(())
                };
                match mapped {
                    Ok(c) => match spec_parse_string(s, p + 2) {
                        Ok((cs, q)) => Ok((seq![c] + cs, q)),
                        Err(u) => Err(u),
                    },
                    Err(u) => Err(u),
                }
            }
        }
    } else {
        match spec_parse_string(s, p + 1) {
            Ok((cs, q)) => Ok((seq![s[p]] + cs, q)),
            Err(u) => Err(u),
        }
    }
}

/// The parsed string always ends after where it started.
pub proof fn lemma_parse_string_advances(s: Seq<char>, p: int)
    requires
        0 <= p,
    ensures
        spec_parse_string(s, p) matches Ok((cs, q)) ==> p < q <= s.len(),
    decreases s.len() - p,
{
    if 0 <= p < s.len() {
        if s[p] == '"' {
        } else if s[p] == '\\' && p + 1 < s.len() {
            if p + 2 <= s.len() {
                lemma_parse_string_advances(s, p + 2);
            }
            if p + 6 <= s.len() {
                lemma_parse_string_advances(s, p + 6);
            }
            if p + 12 <= s.len() {
                lemma_parse_string_advances(s, p + 12);
            }
        } else {
            lemma_parse_string_advances(s, p + 1);
        }
    }
}

/// Parse a JSON value at `p`, leading whitespace allowed: a keyword, a string,
/// a number, an array or an object. Returns the node and the index after it.
pub open spec fn spec_parse_value(s: Seq<char>, p: int) -> Result<(NodeView, int), ()>
    decreases s.len() - p, 1int,
    when 0 <= p <= s.len()
{
    let q = spec_skip_ws(s, p);
    proof {
        lemma_skip_ws(s, p);
    }
    if q >= s.len() {
        Err(())
    } else {
        let c = s[q];
        if c == 'n' {
            if q + 4 <= s.len() && s.subrange(q, q + 4) == "null"@ {
                Ok((NodeView::Null, q + 4))
            } else {
                Err(())
            }
        } else if c == 't' {
            if q + 4 <= s.len() && s.subrange(q, q + 4) == "true"@ {
                Ok((NodeView::Bool(true), q + 4))
            } else {
                Err(())
            }
        } else if c == 'f' {
            if q + 5 <= s.len() && s.subrange(q, q + 5) == "false"@ {
                Ok((NodeView::Bool(false), q + 5))
            } else {
                Err(())
            }
        } else if c == '"' {
            match spec_parse_string(s, q + 1) {
                Ok((cs, e)) => Ok((NodeView::Str(cs), e)),
                Err(u) => Err(u),
            }
        } else if c == '[' {
            let r = spec_skip_ws(s, q + 1);
            proof {
                lemma_skip_ws(s, q + 1);
            }
            if r < s.len() && s[r] == ']' {
                Ok((NodeView::Arr(Seq::empty()), r + 1))
            } else {
                match spec_parse_elems(s, q + 1, Seq::empty()) {
                    Ok((items, e)) => Ok((NodeView::Arr(items), e)),
                    Err(u) => Err(u),
                }
            }
        } else if c == '{' {
            let r = spec_skip_ws(s, q + 1);
            proof {
                lemma_skip_ws(s, q + 1);
            }
            if r < s.len() && s[r] == '}' {
                Ok((NodeView::Obj(Seq::empty()), r + 1))
            } else {
                match spec_parse_members(s, q + 1, Seq::empty()) {
                    Ok((entries, e)) => Ok((NodeView::Obj(entries), e)),
                    Err(u) => Err(u),
                }
            }
        } else if c == '-' || spec_is_digit(c) {
            spec_parse_number(s, q)
        } else {
            Err(())
        }
    }
}

/// Parse the elements of an array after its opening bracket (or a comma),
/// accumulating into `acc`. Returns all elements and the index after the
/// closing bracket.
pub open spec fn spec_parse_elems(s: Seq<char>, p: int, acc: Seq<NodeView>) -> Result<
    (Seq<NodeView>, int),
    (),
>
    decreases s.len() - p, 2int,
    when 0 <= p <= s.len()
{
    match spec_parse_value(s, p) {
        Err(u) => Err(u),
        Ok((n, e)) => {
            let e2 = if p < e <= s.len() {
                e
            } else if p + 1 <= s.len() {
                p + 1
            } else {
                s.len() as int
            };
            let w = spec_skip_ws(s, e2);
            proof {
                lemma_skip_ws(s, e2);
            }
            if w >= s.len() {
                Err(())
            } else if s[w] == ',' {
                spec_parse_elems(s, w + 1, acc.push(n))
            } else if s[w] == ']' {
                Ok((acc.push(n), w + 1))
            } else {
                Err(())
            }
        },
    }
}

/// Parse the members of an object after its opening brace (or a comma),
/// accumulating into `acc`. Returns all entries and the index after the
/// closing brace.
pub open spec fn spec_parse_members(
    s: Seq<char>,
    p: int,
    acc: Seq<(Seq<char>, NodeView)>,
) -> Result<(Seq<(Seq<char>, NodeView)>, int), ()>
    decreases s.len() - p, 2int,
    when 0 <= p <= s.len()
{
    let w = spec_skip_ws(s, p);
    proof {
        lemma_skip_ws(s, p);
    }
    if w >= s.len() || s[w] != '"' {
        Err(())
    } else {
        match spec_parse_string(s, w + 1) {
            Err(u) => Err(u),
            Ok((k, ek)) => {
                let ek2 = if w + 1 < ek <= s.len() {
                    ek
                } else if w + 2 <= s.len() {
                    w + 2
                } else {
                    s.len() as int
                };
                let wc = spec_skip_ws(s, ek2);
                proof {
                    lemma_skip_ws(s, ek2);
                }
                if wc >= s.len() || s[wc] != ':' {
                    Err(())
                } else {
                    match spec_parse_value(s, wc + 1) {
                        Err(u) => Err(u),
                        Ok((n, e)) => {
                            let e2 = if wc + 1 < e <= s.len() {
                                e
                            } else if wc + 2 <= s.len() {
                                wc + 2
                            } else {
                                s.len() as int
                            };
                            let w2 = spec_skip_ws(s, e2);
                            proof {
                                lemma_skip_ws(s, e2);
                            }
                            if w2 >= s.len() {
                                Err(())
                            } else if s[w2] == ',' {
                                spec_parse_members(s, w2 + 1, acc.push((k, n)))
                            } else if s[w2] == '}' {
                                Ok((acc.push((k, n)), w2 + 1))
                            } else {
                                Err(())
                            }
                        },
                    }
                }
            },
        }
    }
}

/// Parse a whole JSON document: one value with nothing but whitespace after
/// it.
pub open spec fn spec_parse_json(s: Seq<char>) -> Result<NodeView, ()> {
    match spec_parse_value(s, 0) {
        Err(u) => Err(u),
        Ok((n, e)) => {
            let e2 = if 0 <= e <= s.len() {
                e
            } else {
                s.len() as int
            };
            if spec_skip_ws(s, e2) == s.len() {
                Ok(n)
            } else {
                Err(())
            }
        },
    }
}

} // verus!

verus! {

/// Powers of ten do not shrink as the exponent grows.
proof fn lemma_pow10_mono(a: int, b: int)
    requires
        a <= b,
    ensures
        spec_pow10(a) <= spec_pow10(b),
    decreases b - a,
{
    if a < b {
        lemma_pow10_mono(a, b - 1);
        lemma_pow10_pos(b - 1);
    }
}

/// Skip whitespace from `p`.
fn skip_ws(s: &Vec<char>, p: usize) -> (r: usize)
    requires
        p <= s@.len(),
    ensures
        r as int == spec_skip_ws(s@, p as int),
        p <= r <= s@.len(),
{
    let mut i = p;
    while i < s.len()
        invariant
            p <= i <= s@.len(),
            spec_skip_ws(s@, p as int) == spec_skip_ws(s@, i as int),
        decreases s@.len() - i,
    {
        let c = s[i];
        if !(c == ' ' || c == '\t' || c == '\n' || c == '\r') {
            return i;
        }
        i = i + 1;
    }
    i
}

/// Find the end of the digit run from `p`.
fn digits_end(s: &Vec<char>, p: usize) -> (r: usize)
    requires
        p <= s@.len(),
    ensures
        r as int == spec_digits_end(s@, p as int),
        p <= r <= s@.len(),
{
    let mut i = p;
    while i < s.len()
        invariant
            p <= i <= s@.len(),
            spec_digits_end(s@, p as int) == spec_digits_end(s@, i as int),
        decreases s@.len() - i,
    {
        let c = s[i];
        if !('0' <= c && c <= '9') {
            return i;
        }
        i = i + 1;
    }
    i
}

/// The value of a digit run of at most eighteen digits.
fn digits_value(s: &Vec<char>, p: usize, e: usize) -> (r: i128)
    requires
        p <= e <= s@.len(),
        e - p <= 18,
        forall|j: int| p as int <= j < e as int ==> spec_is_digit(#[trigger] s@[j]),
    ensures
        r == spec_digits_val(s@, p as int, e as int),
        0 <= r < spec_pow10(e as int - p as int),
{
    proof {
        lemma_digits_val_bound(s@, p as int, e as int);
    }
    let mut val: i128 = 0;
    let mut i = p;
    while i < e
        invariant
            p <= i <= e <= s@.len(),
            e - p <= 18,
            forall|j: int| p as int <= j < e as int ==> spec_is_digit(#[trigger] s@[j]),
            val == spec_digits_val(s@, p as int, i as int),
            0 <= val < spec_pow10(i as int - p as int),
        decreases e - i,
    {
        proof {
            lemma_digits_val_bound(s@, p as int, i as int);
            lemma_pow10_mono(i as int - p as int, 18);
            assert(spec_pow10(18) == 1_000_000_000_000_000_000) by {
                reveal_with_fuel(spec_pow10, 40);
            };
        }
        let c = s[i];
        let d = (c as u32) - 48;
        val = val * 10 + (d as i128);
        i = i + 1;
        proof {
            lemma_digits_val_bound(s@, p as int, i as int);
        }
    }
    val
}

/// Ten to a small power, exactly.
fn pow10_i128(n: u64) -> (r: i128)
    requires
        n <= 37,
    ensures
        r == spec_pow10(n as int),
        r >= 1,
{
    proof {
        assert(spec_pow10(37) == 0x785_EE10_D5DA_46D9_00F4_36A0_0000_0000_int) by {
                reveal_with_fuel(spec_pow10, 40);
            };
    }
    let mut r: i128 = 1;
    let mut i: u64 = 0;
    while i < n
        invariant
            i <= n <= 37,
            r == spec_pow10(i as int),
            r >= 1,
        decreases n - i,
    {
        proof {
            lemma_pow10_mono(i as int + 1, 37);
            lemma_pow10_pos(i as int);
            assert(spec_pow10(37) == 0x785_EE10_D5DA_46D9_00F4_36A0_0000_0000_int) by {
                reveal_with_fuel(spec_pow10, 40);
            };
        }
        r = r * 10;
        i = i + 1;
    }
    r
}

/// Build the node a parsed number denotes, mirroring the specification's
/// bounds and truncation.
fn number_node(
    neg: bool,
    intval: i128,
    intlen: usize,
    has_frac: bool,
    fracval: i128,
    fraclen: usize,
    has_exp: bool,
    expneg: bool,
    expval: i128,
    explen: usize,
) -> (r: Result<JsonNode, Error>)
    requires
        intlen <= 18 ==> 0 <= intval < spec_pow10(intlen as int),
        fraclen <= 18 ==> 0 <= fracval < spec_pow10(fraclen as int),
        explen <= 3 ==> 0 <= expval < spec_pow10(explen as int),
        !has_frac ==> fracval == 0 && fraclen == 0,
        !has_exp ==> expval == 0 && explen == 0 && !expneg,
    ensures
        match spec_number_node(
            neg,
            intval as int,
            intlen as int,
            has_frac,
            fracval as int,
            fraclen as int,
            has_exp,
            expneg,
            expval as int,
            explen as int,
        ) {
            Ok(nv) => r matches Ok(n) && n@ == nv,
            Err(_) => r matches Err(e) && e is Parse,
        },
{
    if intlen > 18 || fraclen > 18 || explen > 3 {
        return Err(Error::parse("number has too many digits"));
    }
    proof {
        assert(spec_pow10(18) == 1_000_000_000_000_000_000) by {
                reveal_with_fuel(spec_pow10, 40);
            };
        assert(spec_pow10(3) == 1000) by {
                reveal_with_fuel(spec_pow10, 40);
            };
        lemma_pow10_mono(intlen as int, 18);
        lemma_pow10_mono(fraclen as int, 18);
        lemma_pow10_mono(explen as int, 3);
    }
    if !has_frac && !has_exp {
        let v: i128 = if neg {
            -intval
        } else {
            intval
        };
        if i64::MIN as i128 <= v && v <= i64::MAX as i128 {
            return Ok(JsonNode::Int(v as i64));
        } else {
            return Err(Error::parse("whole number out of range"));
        }
    }
    let scale = pow10_i128(fraclen as u64);
    proof {
        assert(intval * scale <= 1_000_000_000_000_000_000i128 * 1_000_000_000_000_000_000i128)
            by (nonlinear_arith)
            requires
                0 <= intval <= 1_000_000_000_000_000_000i128,
                1 <= scale <= 1_000_000_000_000_000_000i128,
        ;
        assert(intval * scale >= 0) by (nonlinear_arith)
            requires
                intval >= 0,
                scale >= 0,
        ;
    }
    let digitsval: i128 = intval * scale + fracval;
    let exp: i128 = if expneg {
        -expval
    } else {
        expval
    };
    let shift: i128 = exp + 6 - (fraclen as i128);
    if shift >= 0 && digitsval > i64::MAX as i128 {
        return Err(Error::parse("number out of range"));
    }
    let mag: i128 = if digitsval == 0 {
        proof {
            if shift >= 0 {
                assert(0int * spec_pow10(shift as int) == 0) by (nonlinear_arith);
            } else {
                lemma_pow10_pos(-(shift as int));
            }
        }
        0
    } else if shift >= 0 {
        if shift > 19 {
            proof {
                lemma_pow10_mono(20, shift as int);
                assert(spec_pow10(20) == 100_000_000_000_000_000_000_int) by {
                reveal_with_fuel(spec_pow10, 40);
            };
                assert(digitsval as int * spec_pow10(shift as int) >= spec_pow10(shift as int))
                    by (nonlinear_arith)
                    requires
                        digitsval as int >= 1,
                        spec_pow10(shift as int) >= 1,
                ;
            }
            return Err(Error::parse("number out of range"));
        }
        let pow = pow10_i128(shift as u64);
        proof {
            assert(spec_pow10(19) == 10_000_000_000_000_000_000_int) by {
                reveal_with_fuel(spec_pow10, 40);
            };
            lemma_pow10_mono(shift as int, 19);
            assert(digitsval * pow <= 10_000_000_000_000_000_000i128
                * 10_000_000_000_000_000_000i128) by (nonlinear_arith)
                requires
                    0 <= digitsval <= 10_000_000_000_000_000_000i128,
                    1 <= pow <= 10_000_000_000_000_000_000i128,
            ;
            assert(digitsval * pow >= 0) by (nonlinear_arith)
                requires
                    digitsval >= 0,
                    pow >= 0,
            ;
        }
        digitsval * pow
    } else {
        let k: i128 = -shift;
        if k > 37 {
            proof {
                assert(spec_pow10(37) == 0x785_EE10_D5DA_46D9_00F4_36A0_0000_0000_int) by {
                reveal_with_fuel(spec_pow10, 40);
            };
                lemma_pow10_mono(37, k as int);
                assert(digitsval as int / spec_pow10(k as int) == 0) by (nonlinear_arith)
                    requires
                        0 <= digitsval as int,
                        (digitsval as int) < spec_pow10(k as int),
                        spec_pow10(k as int) >= 1,
                ;
            }
            0
        } else {
            let pow = pow10_i128(k as u64);
            digitsval / pow
        }
    };
    let v: i128 = if neg {
        -mag
    } else {
        mag
    };
    if i64::MIN as i128 <= v && v <= i64::MAX as i128 {
        Ok(JsonNode::Flt(v as i64))
    } else {
        Err(Error::parse("number out of range"))
    }
}

/// Parse a number at `p`.
fn parse_number(s: &Vec<char>, p: usize) -> (r: Result<(JsonNode, usize), Error>)
    requires
        p <= s@.len(),
    ensures
        match spec_parse_number(s@, p as int) {
            Ok((nv, e)) => r matches Ok(pair) && pair.0@ == nv && pair.1 as int == e,
            Err(_) => r matches Err(err) && err is Parse,
        },
{
    let neg = p < s.len() && s[p] == '-';
    let p0 = if neg {
        p + 1
    } else {
        p
    };
    let e1 = digits_end(s, p0);
    if e1 == p0 {
        return Err(Error::parse("expected digits"));
    }
    proof {
        lemma_digits_end(s@, p0 as int);
    }
    if e1 - p0 > 18 {
        return Err(Error::parse("number has too many digits"));
    }
    let intval = digits_value(s, p0, e1);
    let has_frac = e1 < s.len() && s[e1] == '.';
    let fs = if has_frac {
        e1 + 1
    } else {
        e1
    };
    let e2 = if has_frac {
        digits_end(s, fs)
    } else {
        e1
    };
    if has_frac && e2 == fs {
        return Err(Error::parse("expected digits after the decimal point"));
    }
    proof {
        if has_frac {
            lemma_digits_end(s@, fs as int);
        }
    }
    if has_frac && e2 - fs > 18 {
        return Err(Error::parse("number has too many digits"));
    }
    let fracval = if has_frac {
        digits_value(s, fs, e2)
    } else {
        0
    };
    let fraclen = if has_frac {
        e2 - fs
    } else {
        0
    };
    let has_exp = e2 < s.len() && (s[e2] == 'e' || s[e2] == 'E');
    if !has_exp {
        match number_node(neg, intval, e1 - p0, has_frac, fracval, fraclen, false, false, 0, 0) {
            Ok(n) => Ok((n, e2)),
            Err(e) => Err(e),
        }
    } else {
        let es0 = e2 + 1;
        proof {
            assert(e2 < s@.len());
        }
        let expneg = es0 < s.len() && s[es0] == '-';
        let es = if es0 < s.len() && (s[es0] == '-' || s[es0] == '+') {
            es0 + 1
        } else {
            es0
        };
        let e3 = digits_end(s, es);
        if e3 == es {
            return Err(Error::parse("expected digits in the exponent"));
        }
        proof {
            lemma_digits_end(s@, es as int);
        }
        if e3 - es > 3 {
            return Err(Error::parse("exponent has too many digits"));
        }
        let expval = digits_value(s, es, e3);
        match number_node(
            neg,
            intval,
            e1 - p0,
            has_frac,
            fracval,
            fraclen,
            true,
            expneg,
            expval,
            e3 - es,
        ) {
            Ok(n) => Ok((n, e3)),
            Err(e) => Err(e),
        }
    }
}

} // verus!

verus! {

/// The value of one hexadecimal character, or 16 for anything else.
fn hex_val(c: char) -> (r: u32)
    ensures
        r as int == spec_hex_val(c),
{
    if '0' <= c && c <= '9' {
        (c as u32) - 48
    } else if 'a' <= c && c <= 'f' {
        (c as u32) - 87
    } else if 'A' <= c && c <= 'F' {
        (c as u32) - 55
    } else {
        16
    }
}

/// Read four hexadecimal characters at `p`: whether they are all valid, and
/// their code unit.
fn hex4(s: &Vec<char>, p: usize) -> (r: (bool, u32))
    requires
        p + 4 <= s@.len(),
    ensures
        r.0 == spec_hex4_ok(s@, p as int),
        r.0 ==> r.1 as int == spec_hex4(s@, p as int) && r.1 < 0x10000,
{
    let n = s.len();
    proof {
        assert(s@.len() == n as int);
    }
    let h0 = hex_val(s[p]);
    let h1 = hex_val(s[p + 1]);
    let h2 = hex_val(s[p + 2]);
    let h3 = hex_val(s[p + 3]);
    let ok = h0 < 16 && h1 < 16 && h2 < 16 && h3 < 16;
    if ok {
        (true, h0 * 4096 + h1 * 256 + h2 * 16 + h3)
    } else {
        (false, 0)
    }
}

/// Whether the composed string-parse outcome at `i` with prefix `acc` agrees
/// with the outcome at the opening position.
spec fn string_compose(s: Seq<char>, p: int, acc: Seq<char>, i: int) -> bool {
    spec_parse_string(s, p) == match spec_parse_string(s, i) {
        Ok((cs, e)) => Ok::<(Seq<char>, int), ()>((acc + cs, e)),
        Err(u) => Err::<(Seq<char>, int), ()>(u),
    }
}

/// Parse the body of a string after its opening quote.
fn parse_string(s: &Vec<char>, p: usize) -> (r: Result<(Vec<char>, usize), Error>)
    requires
        p <= s@.len(),
    ensures
        match spec_parse_string(s@, p as int) {
            Ok((cs, e)) => r matches Ok(pair) && pair.0@ == cs && pair.1 as int == e,
            Err(_) => r matches Err(err) && err is Parse,
        },
{
    let mut acc: Vec<char> = Vec::new();
    let mut i = p;
    proof {
        assert(acc@ =~= Seq::<char>::empty());
        assert(string_compose(s@, p as int, acc@, i as int)) by {
            match spec_parse_string(s@, p as int) {
                Ok((cs, e)) => {
                    assert(Seq::<char>::empty() + cs =~= cs);
                },
                Err(_) => {},
            }
        }
    }
    loop
        invariant
            p <= i <= s@.len(),
            string_compose(s@, p as int, acc@, i as int),
        decreases s@.len() - i,
    {
        if i >= s.len() {
            return Err(Error::parse("unterminated string"));
        }
        let c = s[i];
        if c == '"' {
            proof {
                assert(acc@ + Seq::<char>::empty() =~= acc@);
            }
            return Ok((acc, i + 1));
        }
        let ghost acc0 = acc@;
        if c == '\\' {
            if i + 1 >= s.len() {
                return Err(Error::parse("unterminated escape"));
            }
            let e = s[i + 1];
            if e == 'u' {
                if s.len() - i < 6 {
                    proof {
                        assert(!spec_hex4_ok(s@, i + 2));
                    }
                    return Err(Error::parse("short unicode escape"));
                }
                let (ok, code) = hex4(s, i + 2);
                if !ok {
                    return Err(Error::parse("bad unicode escape"));
                }
                if 0xD800 <= code && code < 0xDC00 {
                    if !(s.len() - i >= 12 && s[i + 6] == '\\' && s[i + 7] == 'u') {
                        return Err(Error::parse("lone high surrogate"));
                    }
                    let (ok2, low) = hex4(s, i + 8);
                    if !ok2 {
                        return Err(Error::parse("bad unicode escape"));
                    }
                    if !(0xDC00 <= low && low < 0xE000) {
                        return Err(Error::parse("bad low surrogate"));
                    }
                    let combined: u32 = 0x10000 + (code - 0xD800) * 0x400 + (low - 0xDC00);
                    let ch = match crate::outside::char_from_u32(combined) {
                        Some(ch) => ch,
                        None => {
                            proof {
                                assert(false);
                            }
                            return Err(Error::parse("invalid scalar"));
                        },
                    };
                    acc.push(ch);
                    proof {
                        lemma_string_step(s@, p as int, acc0, i as int, ch, i + 12);
                    }
                    i = i + 12;
                } else if 0xDC00 <= code && code < 0xE000 {
                    return Err(Error::parse("lone low surrogate"));
                } else {
                    let ch = match crate::outside::char_from_u32(code) {
                        Some(ch) => ch,
                        None => {
                            proof {
                                assert(false);
                            }
                            return Err(Error::parse("invalid scalar"));
                        },
                    };
                    acc.push(ch);
                    proof {
                        lemma_string_step(s@, p as int, acc0, i as int, ch, i + 6);
                    }
                    i = i + 6;
                }
            } else {
                let mapped: Option<char> = if e == '"' {
                    Some('"')
                } else if e == '\\' {
                    Some('\\')
                } else if e == '/' {
                    Some('/')
                } else if e == 'n' {
                    Some('\n')
                } else if e == 't' {
                    Some('\t')
                } else if e == 'r' {
                    Some('\r')
                } else if e == 'b' {
                    Some('\u{0008}')
                } else if e == 'f' {
                    Some('\u{000C}')
                } else {
                    None
                };
                let ch = match mapped {
                    Some(ch) => ch,
                    None => {
                        return Err(Error::parse("unknown escape"));
                    },
                };
                acc.push(ch);
                proof {
                    lemma_string_step(s@, p as int, acc0, i as int, ch, i + 2);
                }
                i = i + 2;
            }
        } else {
            acc.push(c);
            proof {
                lemma_string_step(s@, p as int, acc0, i as int, c, i + 1);
            }
            i = i + 1;
        }
    }
}

/// One parsing step prepends one character: the composition invariant moves
/// from `i` to `next` when the specification at `i` is the specification at
/// `next` with `ch` prepended.
proof fn lemma_string_step(s: Seq<char>, p: int, acc: Seq<char>, i: int, ch: char, next: int)
    requires
        string_compose(s, p, acc, i),
        spec_parse_string(s, i) == match spec_parse_string(s, next) {
            Ok((cs, e)) => Ok::<(Seq<char>, int), ()>((seq![ch] + cs, e)),
            Err(u) => Err::<(Seq<char>, int), ()>(u),
        },
    ensures
        string_compose(s, p, acc.push(ch), next),
{
    match spec_parse_string(s, next) {
        Ok((cs, e)) => {
            assert(acc + (seq![ch] + cs) =~= acc.push(ch) + cs);
        },
        Err(_) => {},
    }
}

} // verus!

verus! {

/// Whether the four characters of `kw` start at `q` in `s`.
fn match_keyword(s: &Vec<char>, q: usize, kw: &Vec<char>) -> (r: bool)
    requires
        q <= s@.len(),
    ensures
        r == (q + kw@.len() <= s@.len() && s@.subrange(q as int, q as int + kw@.len() as int)
            == kw@),
{
    if s.len() - q < kw.len() {
        return false;
    }
    let mut j: usize = 0;
    while j < kw.len()
        invariant
            j <= kw@.len(),
            q + kw@.len() <= s@.len(),
            forall|k: int| 0 <= k < j as int ==> s@[q as int + k] == kw@[k],
        decreases kw@.len() - j,
    {
        if s[q + j] != kw[j] {
            proof {
                assert(s@.subrange(q as int, q as int + kw@.len() as int)[j as int] != kw@[
                    j as int
                ]);
            }
            return false;
        }
        j = j + 1;
    }
    proof {
        assert(s@.subrange(q as int, q as int + kw@.len() as int) =~= kw@);
    }
    true
}

/// Parse a JSON value at `p`, leading whitespace allowed.
pub fn parse_value(s: &Vec<char>, p: usize) -> (r: Result<(JsonNode, usize), Error>)
    requires
        p <= s@.len(),
    ensures
        match spec_parse_value(s@, p as int) {
            Ok((nv, e)) => r matches Ok(pair) && pair.0@ == nv && pair.1 as int == e && p
                < pair.1 <= s@.len(),
            Err(_) => r matches Err(err) && err is Parse,
        },
    decreases s@.len() - p, 1int,
{
    let q = skip_ws(s, p);
    if q >= s.len() {
        return Err(Error::parse("unexpected end of input"));
    }
    let c = s[q];
    if c == 'n' {
        if match_keyword(s, q, &chars_lit_null()) {
            proof {
                reveal_strlit("null");
            }
            Ok((JsonNode::Null, q + 4))
        } else {
            proof {
                reveal_strlit("null");
            }
            Err(Error::parse("unknown keyword"))
        }
    } else if c == 't' {
        if match_keyword(s, q, &chars_lit_true()) {
            proof {
                reveal_strlit("true");
            }
            Ok((JsonNode::Bool(true), q + 4))
        } else {
            proof {
                reveal_strlit("true");
            }
            Err(Error::parse("unknown keyword"))
        }
    } else if c == 'f' {
        if match_keyword(s, q, &chars_lit_false()) {
            proof {
                reveal_strlit("false");
            }
            Ok((JsonNode::Bool(false), q + 5))
        } else {
            proof {
                reveal_strlit("false");
            }
            Err(Error::parse("unknown keyword"))
        }
    } else if c == '"' {
        match parse_string(s, q + 1) {
            Ok((cs, e)) => {
                proof {
                    lemma_parse_string_advances(s@, q + 1 as int);
                }
                Ok((JsonNode::Str(crate::outside::string_from_chars(&cs)), e))
            },
            Err(e) => Err(e),
        }
    } else if c == '[' {
        let r = skip_ws(s, q + 1);
        if r < s.len() && s[r] == ']' {
            let node = JsonNode::Arr(Vec::new());
            proof {
                assert(node_views(node->Arr_0@) =~= Seq::<NodeView>::empty());
            }
            Ok((node, r + 1))
        } else {
            let mut acc: Vec<JsonNode> = Vec::new();
            let mut pos = q + 1;
            let ghost entry_pos = q + 1 as int;
            proof {
                assert(node_views(acc@) =~= Seq::<NodeView>::empty());
            }
            loop
                invariant
                    q + 1 <= pos <= s@.len(),
                    q < s@.len(),
                    spec_parse_elems(s@, entry_pos, Seq::empty()) == spec_parse_elems(
                        s@,
                        pos as int,
                        node_views(acc@),
                    ),
                    entry_pos == q + 1 as int,
                decreases s@.len() - pos, 0int,
            {
                let item = match parse_value(s, pos) {
                    Ok(pair) => pair,
                    Err(e) => {
                        return Err(e);
                    },
                };
                let (n, e) = item;
                let ghost acc0 = acc@;
                let w = skip_ws(s, e);
                if w >= s.len() {
                    return Err(Error::parse("unterminated array"));
                }
                acc.push(n);
                proof {
                    lemma_node_views(acc0);
                    lemma_node_views(acc@);
                    assert(node_views(acc@) =~= node_views(acc0).push(n@));
                }
                if s[w] == ',' {
                    pos = w + 1;
                } else if s[w] == ']' {
                    let node = JsonNode::Arr(acc);
                    return Ok((node, w + 1));
                } else {
                    return Err(Error::parse("expected a comma or a closing bracket"));
                }
            }
        }
    } else if c == '{' {
        let r = skip_ws(s, q + 1);
        if r < s.len() && s[r] == '}' {
            let node = JsonNode::Obj(Vec::new());
            proof {
                assert(entry_views(node->Obj_0@) =~= Seq::<(Seq<char>, NodeView)>::empty());
            }
            Ok((node, r + 1))
        } else {
            let mut acc: Vec<(String, JsonNode)> = Vec::new();
            let mut pos = q + 1;
            let ghost entry_pos = q + 1 as int;
            proof {
                assert(entry_views(acc@) =~= Seq::<(Seq<char>, NodeView)>::empty());
            }
            loop
                invariant
                    q + 1 <= pos <= s@.len(),
                    q < s@.len(),
                    spec_parse_members(s@, entry_pos, Seq::empty()) == spec_parse_members(
                        s@,
                        pos as int,
                        entry_views(acc@),
                    ),
                    entry_pos == q + 1 as int,
                decreases s@.len() - pos, 0int,
            {
                let w = skip_ws(s, pos);
                if w >= s.len() {
                    return Err(Error::parse("unterminated object"));
                }
                if s[w] != '"' {
                    return Err(Error::parse("expected a field name"));
                }
                let key_pair = match parse_string(s, w + 1) {
                    Ok(pair) => pair,
                    Err(e) => {
                        return Err(e);
                    },
                };
                let (kcs, ek) = key_pair;
                proof {
                    lemma_parse_string_advances(s@, w + 1 as int);
                }
                let wc = skip_ws(s, ek);
                if wc >= s.len() {
                    return Err(Error::parse("unterminated object"));
                }
                if s[wc] != ':' {
                    return Err(Error::parse("expected a colon"));
                }
                let val_pair = match parse_value(s, wc + 1) {
                    Ok(pair) => pair,
                    Err(e) => {
                        return Err(e);
                    },
                };
                let (n, e) = val_pair;
                let ghost acc0 = acc@;
                let w2 = skip_ws(s, e);
                if w2 >= s.len() {
                    return Err(Error::parse("unterminated object"));
                }
                let key = crate::outside::string_from_chars(&kcs);
                acc.push((key, n));
                proof {
                    lemma_entry_views(acc0);
                    lemma_entry_views(acc@);
                    assert(entry_views(acc@) =~= entry_views(acc0).push((kcs@, n@)));
                }
                if s[w2] == ',' {
                    pos = w2 + 1;
                } else if s[w2] == '}' {
                    let node = JsonNode::Obj(acc);
                    return Ok((node, w2 + 1));
                } else {
                    return Err(Error::parse("expected a comma or a closing brace"));
                }
            }
        }
    } else if c == '-' || ('0' <= c && c <= '9') {
        proof {
            lemma_parse_number_advances(s@, q as int);
        }
        parse_number(s, q)
    } else {
        Err(Error::parse("unexpected character"))
    }
}

/// A parsed number always ends after where it started and within the input.
proof fn lemma_parse_number_advances(s: Seq<char>, p: int)
    requires
        0 <= p <= s.len(),
    ensures
        spec_parse_number(s, p) matches Ok((nv, e)) ==> p < e <= s.len(),
{
    let p0 = if p < s.len() && s[p] == '-' {
        p + 1
    } else {
        p
    };
    lemma_digits_end(s, p0);
    let e1 = spec_digits_end(s, p0);
    if e1 != p0 {
        if e1 < s.len() && s[e1] == '.' {
            lemma_digits_end(s, e1 + 1);
        }
        let has_frac = e1 < s.len() && s[e1] == '.';
        let e2 = if has_frac {
            spec_digits_end(s, e1 + 1)
        } else {
            e1
        };
        if e2 < s.len() && (s[e2] == 'e' || s[e2] == 'E') {
            let es0 = e2 + 1;
            let es = if es0 < s.len() && (s[es0] == '-' || s[es0] == '+') {
                es0 + 1
            } else {
                es0
            };
            if es <= s.len() {
                lemma_digits_end(s, es);
            }
        }
    }
}

/// The characters of the `null` keyword.
fn chars_lit_null() -> (r: Vec<char>)
    ensures
        r@ == "null"@,
{
    crate::outside::chars_of("null")
}

/// The characters of the `true` keyword.
fn chars_lit_true() -> (r: Vec<char>)
    ensures
        r@ == "true"@,
{
    crate::outside::chars_of("true")
}

/// The characters of the `false` keyword.
fn chars_lit_false() -> (r: Vec<char>)
    ensures
        r@ == "false"@,
{
    crate::outside::chars_of("false")
}

/// Parse a whole JSON document: one value with nothing but whitespace after
/// it.
pub fn parse_json_text(s: &str) -> (r: Result<JsonNode, Error>)
    ensures
        match spec_parse_json(s@) {
            Ok(nv) => r matches Ok(n) && n@ == nv,
            Err(_) => r matches Err(err) && err is Parse,
        },
{
    let cs = crate::outside::chars_of(s);
    match parse_value(&cs, 0) {
        Ok(pair) => {
            let (n, e) = pair;
            if skip_ws(&cs, e) == cs.len() {
                Ok(n)
            } else {
                Err(Error::parse("unexpected trailing characters"))
            }
        },
        Err(e) => Err(e),
    }
}

} // verus!
