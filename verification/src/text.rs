//! Operations on strings: equality, the byte-wise order of keys, splitting and
//! joining, and lists of strings.

use vstd::prelude::*;
use vstd::utf8::encode_utf8;

verus! {

/// Whether `a` comes strictly before `b` in the lexicographic order of bytes.
pub open spec fn bytes_less(a: Seq<u8>, b: Seq<u8>) -> bool
    decreases a.len(),
{
    if b.len() == 0 {
        false
    } else if a.len() == 0 {
        true
    } else if a[0] != b[0] {
        a[0] < b[0]
    } else {
        bytes_less(a.drop_first(), b.drop_first())
    }
}

/// Whether the string `a` comes strictly before the string `b`: strings are
/// ordered lexicographically by the bytes of their UTF-8 encoding.
pub open spec fn text_less(a: Seq<char>, b: Seq<char>) -> bool {
    bytes_less(encode_utf8(a), encode_utf8(b))
}

/// The place of one string relative to another.
#[derive(Debug, Clone, Copy, PartialEq, Eq, Structural)]
pub enum Place {
    Before,
    Same,
    After,
}

/// The pieces of `s` between the occurrences of `separator`; a string without
/// a separator is its own single piece.
pub open spec fn split_at_each(s: Seq<char>, separator: char) -> Seq<Seq<char>>
    decreases s.len(),
{
    if s.len() == 0 {
        seq![Seq::<char>::empty()]
    } else {
        let before = split_at_each(s.drop_last(), separator);
        if s.last() == separator {
            before.push(Seq::<char>::empty())
        } else {
            before.drop_last().push(before.last().push(s.last()))
        }
    }
}

/// The pieces one after another, with `separator` between neighbours.
pub open spec fn joined(pieces: Seq<Seq<char>>, separator: Seq<char>) -> Seq<char>
    decreases pieces.len(),
{
    if pieces.len() == 0 {
        Seq::empty()
    } else if pieces.len() == 1 {
        pieces[0]
    } else {
        joined(pieces.drop_last(), separator) + separator + pieces.last()
    }
}

/// The items that are not among the others, in their order.
pub open spec fn excluding<A>(items: Seq<A>, others: Seq<A>) -> Seq<A> {
    items.filter(|item: A| !others.contains(item))
}

/// No sequence of bytes comes before itself.
pub proof fn lemma_bytes_less_irreflexive(a: Seq<u8>)
    ensures
        !bytes_less(a, a),
    decreases a.len(),
{
    if a.len() > 0 {
        lemma_bytes_less_irreflexive(a.drop_first());
    }
}

/// The order of bytes is transitive.
pub proof fn lemma_bytes_less_transitive(a: Seq<u8>, b: Seq<u8>, c: Seq<u8>)
    requires
        bytes_less(a, b),
        bytes_less(b, c),
    ensures
        bytes_less(a, c),
    decreases a.len(),
{
    if a.len() > 0 && a[0] == b[0] && b[0] == c[0] {
        lemma_bytes_less_transitive(a.drop_first(), b.drop_first(), c.drop_first());
    }
}

/// Of two different strings exactly one comes before the other, a string does
/// not come before itself, and the order is transitive.
pub proof fn text_less_is_a_strict_order(a: Seq<char>, b: Seq<char>, c: Seq<char>)
    ensures
        !text_less(a, a),
        !(text_less(a, b) && text_less(b, a)),
        a != b ==> text_less(a, b) || text_less(b, a),
        text_less(a, b) && text_less(b, c) ==> text_less(a, c),
{
    let (x, y, z) = (encode_utf8(a), encode_utf8(b), encode_utf8(c));
    lemma_bytes_less_irreflexive(x);
    if bytes_less(x, y) && bytes_less(y, x) {
        lemma_bytes_less_transitive(x, y, x);
    }
    if !bytes_less(x, y) && !bytes_less(y, x) {
        lemma_bytes_less_total(x, y);
        lemma_encoding_is_injective(a, b);
    }
    if bytes_less(x, y) && bytes_less(y, z) {
        lemma_bytes_less_transitive(x, y, z);
    }
}

proof fn lemma_bytes_less_total(a: Seq<u8>, b: Seq<u8>)
    requires
        !bytes_less(a, b),
        !bytes_less(b, a),
    ensures
        a == b,
    decreases a.len(),
{
    if a.len() > 0 && b.len() > 0 {
        lemma_bytes_less_total(a.drop_first(), b.drop_first());
        assert(a == seq![a[0]] + a.drop_first());
        assert(b == seq![b[0]] + b.drop_first());
    }
    assert(a =~= b);
}

proof fn lemma_encoding_is_injective(a: Seq<char>, b: Seq<char>)
    requires
        encode_utf8(a) == encode_utf8(b),
    ensures
        a == b,
{
    vstd::utf8::encode_utf8_decode_utf8(a);
    vstd::utf8::encode_utf8_decode_utf8(b);
}

/// Where `a` stands relative to `b`.
pub fn place(a: &str, b: &str) -> (r: Place)
    ensures
        r == Place::Before <==> text_less(a@, b@),
        r == Place::Same <==> a@ == b@,
        r == Place::After <==> text_less(b@, a@),
{
    let x = a.as_bytes();
    let y = b.as_bytes();
    let mut i: usize = 0;
    proof {
        text_less_is_a_strict_order(a@, b@, a@);
        assert(x@.skip(0) == x@);
        assert(y@.skip(0) == y@);
    }
    while i < x.len() && i < y.len() && x[i] == y[i]
        invariant
            i <= x@.len(),
            i <= y@.len(),
            x@.take(i as int) == y@.take(i as int),
            bytes_less(x@, y@) == bytes_less(x@.skip(i as int), y@.skip(i as int)),
            bytes_less(y@, x@) == bytes_less(y@.skip(i as int), x@.skip(i as int)),
        decreases x@.len() - i,
    {
        proof {
            let (p, q) = (x@.skip(i as int), y@.skip(i as int));
            assert(p.drop_first() == x@.skip(i + 1));
            assert(q.drop_first() == y@.skip(i + 1));
            assert(x@.take(i + 1) == x@.take(i as int).push(x@[i as int]));
            assert(y@.take(i + 1) == y@.take(i as int).push(y@[i as int]));
        }
        i = i + 1;
    }
    if i == x.len() && i == y.len() {
        proof {
            assert(x@.take(i as int) == x@);
            assert(y@.take(i as int) == y@);
            lemma_encoding_is_injective(a@, b@);
        }
        Place::Same
    } else if i == x.len() {
        Place::Before
    } else if i == y.len() {
        Place::After
    } else if x[i] < y[i] {
        Place::Before
    } else {
        Place::After
    }
}

/// Whether two strings hold the same characters.
pub fn same(a: &str, b: &str) -> (r: bool)
    ensures
        r == (a@ == b@),
{
    match place(a, b) {
        Place::Same => true,
        _ => false,
    }
}

/// Whether a string is among the given ones.
pub fn is_among(text: &str, strings: &Vec<String>) -> (r: bool)
    ensures
        r == strings.deep_view().contains(text@),
{
    let mut i: usize = 0;
    while i < strings.len()
        invariant
            i <= strings@.len(),
            forall|j: int| 0 <= j < i ==> #[trigger] strings.deep_view()[j] != text@,
        decreases strings@.len() - i,
    {
        if same(strings[i].as_str(), text) {
            assert(strings.deep_view()[i as int] == text@);
            return true;
        }
        i = i + 1;
    }
    false
}

/// The strings that are not among the others, in their order.
pub fn not_among(strings: &Vec<String>, others: &Vec<String>) -> (r: Vec<String>)
    ensures
        r.deep_view() == excluding(strings.deep_view(), others.deep_view()),
{
    let ghost all = strings.deep_view();
    let ghost pred = |s: Seq<char>| !others.deep_view().contains(s);
    let mut rest: Vec<String> = Vec::new();
    let mut i: usize = 0;
    assert(rest.deep_view() =~= all.take(0).filter(pred));
    while i < strings.len()
        invariant
            i <= strings@.len(),
            all == strings.deep_view(),
            pred == (|s: Seq<char>| !others.deep_view().contains(s)),
            rest.deep_view() == all.take(i as int).filter(pred),
        decreases strings@.len() - i,
    {
        let ghost before = rest.deep_view();
        let ghost view = strings@[i as int]@;
        if !is_among(strings[i].as_str(), others) {
            rest.push(strings[i].clone());
            assert(rest.deep_view() =~= before.push(view));
        }
        proof {
            assert(all.take(i + 1) =~= all.take(i as int).push(view));
            all.take(i as int).lemma_filter_push(view, pred);
        }
        i = i + 1;
    }
    assert(all.take(i as int) == all);
    rest
}

/// The pieces of `s` between the occurrences of `separator`.
pub fn split(s: &str, separator: char) -> (r: Vec<String>)
    ensures
        r.deep_view() == split_at_each(s@, separator),
{
    let n: usize = s.unicode_len();
    let mut pieces: Vec<String> = Vec::new();
    let mut start: usize = 0;
    let mut i: usize = 0;
    proof {
        assert(s@.subrange(0, 0) == Seq::<char>::empty());
        assert(pieces.deep_view().push(s@.subrange(0, 0)) == split_at_each(s@.take(0), separator));
    }
    while i < n
        invariant
            n == s@.len(),
            start <= i <= n,
            pieces.deep_view().push(s@.subrange(start as int, i as int)) == split_at_each(
                s@.take(i as int),
                separator,
            ),
        decreases n - i,
    {
        let ghost before = pieces.deep_view();
        let c = s.get_char(i);
        proof {
            assert(s@.take(i + 1).drop_last() == s@.take(i as int));
            assert(split_at_each(s@.take(i as int), separator).drop_last() == before);
        }
        if c == separator {
            pieces.push(s.substring_char(start, i).to_owned());
            start = i + 1;
            assert(pieces.deep_view() == before.push(pieces@.last()@));
            assert(s@.subrange(i + 1, i + 1) == Seq::<char>::empty());
        } else {
            assert(s@.subrange(start as int, i + 1) == s@.subrange(start as int, i as int).push(c));
        }
        i = i + 1;
    }
    let ghost before = pieces.deep_view();
    pieces.push(s.substring_char(start, n).to_owned());
    proof {
        assert(s@.take(n as int) == s@);
        assert(pieces.deep_view() == before.push(pieces@.last()@));
    }
    pieces
}

/// The pieces one after another, with `separator` between neighbours.
pub fn join(pieces: &Vec<String>, separator: &str) -> (r: String)
    ensures
        r@ == joined(pieces.deep_view(), separator@),
{
    let mut text = String::new();
    let mut i: usize = 0;
    while i < pieces.len()
        invariant
            i <= pieces@.len(),
            text@ == joined(pieces.deep_view().take(i as int), separator@),
        decreases pieces@.len() - i,
    {
        if i > 0 {
            text.append(separator);
        }
        text.append(pieces[i].as_str());
        proof {
            let next = pieces.deep_view().take(i + 1);
            assert(next.drop_last() == pieces.deep_view().take(i as int));
            assert(next.last() == pieces@[i as int]@);
        }
        i = i + 1;
    }
    proof {
        assert(pieces.deep_view().take(i as int) == pieces.deep_view());
    }
    text
}

} // verus!
