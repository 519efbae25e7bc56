//! What holds of the texts that the operator reads and writes: their order, label
//! selectors and filters.

use crate::error::ErrorView;
use crate::label_filter::{
    filter_holds, filter_of, lemma_split_is_not_empty, rule_of, rules_of, RuleView,
};
use crate::laws::{lemma_rules_concat, lemma_split_concat};
use crate::string_map::{ascending, in_order, label_selector_text, lemma_in_order, listed};
use crate::text::{
    bytes_less, excluding, joined, split_at_each, text_less, text_less_is_a_strict_order,
};
use vstd::prelude::*;
use vstd::utf8::encode_utf8;

verus! {

/// Of two texts whose first `n` bytes agree, the one with the smaller next byte
/// comes first, and so does one that ends there while the other goes on.
pub proof fn the_first_difference_decides(a: Seq<char>, b: Seq<char>, n: int)
    requires
        0 <= n <= encode_utf8(a).len(),
        n < encode_utf8(b).len(),
        forall|i: int| 0 <= i < n ==> #[trigger] encode_utf8(a)[i] == encode_utf8(b)[i],
    ensures
        n == encode_utf8(a).len() ==> text_less(a, b),
        n < encode_utf8(a).len() && encode_utf8(a)[n] < encode_utf8(b)[n] ==> text_less(a, b),
        n < encode_utf8(a).len() && encode_utf8(a)[n] > encode_utf8(b)[n] ==> !text_less(a, b),
{
    lemma_first_difference(encode_utf8(a), encode_utf8(b), n);
}

proof fn lemma_first_difference(x: Seq<u8>, y: Seq<u8>, n: int)
    requires
        0 <= n <= x.len(),
        n < y.len(),
        forall|i: int| 0 <= i < n ==> #[trigger] x[i] == y[i],
    ensures
        n == x.len() ==> bytes_less(x, y),
        n < x.len() && x[n] != y[n] ==> (bytes_less(x, y) <==> x[n] < y[n]),
    decreases n,
{
    if n > 0 {
        let (p, q) = (x.drop_first(), y.drop_first());
        assert(x[0] == y[0]);
        assert forall|i: int| 0 <= i < n - 1 implies #[trigger] p[i] == q[i] by {
            assert(p[i] == x[i + 1]);
            assert(q[i] == y[i + 1]);
        }
        lemma_first_difference(p, q, n - 1);
    }
}

/// Joined pieces: none give the empty text, one gives itself, and one more piece
/// adds the separator and itself.
pub proof fn one_more_piece_is_joined(
    pieces: Seq<Seq<char>>,
    piece: Seq<char>,
    separator: Seq<char>,
)
    ensures
        joined(Seq::empty(), separator).len() == 0,
        joined(seq![piece], separator) == piece,
        pieces.len() > 0 ==> joined(pieces.push(piece), separator) == joined(pieces, separator)
            + separator + piece,
{
    assert(pieces.push(piece).drop_last() =~= pieces);
}

/// One more item is kept, after those before it, exactly if it is not among the
/// others.
pub proof fn one_more_item_is_kept_or_not<A>(items: Seq<A>, item: A, others: Seq<A>)
    ensures
        excluding(Seq::<A>::empty(), others).len() == 0,
        others.contains(item) ==> excluding(items.push(item), others) == excluding(items, others),
        !others.contains(item) ==> excluding(items.push(item), others) == excluding(
            items,
            others,
        ).push(item),
{
    let pred = |a: A| !others.contains(a);
    items.lemma_filter_push(item, pred);
    assert(Seq::<A>::empty().filter(pred).len() == 0) by {
        reveal(Seq::filter);
    }
}

proof fn lemma_greatest_key(keys: Set<Seq<char>>) -> (greatest: Seq<char>)
    requires
        keys.finite(),
        exists|key: Seq<char>| #[trigger] keys.contains(key),
    ensures
        keys.contains(greatest),
        forall|key: Seq<char>| #[trigger]
            keys.contains(key) && key != greatest ==> text_less(key, greatest),
    decreases keys.len(),
{
    let some = choose|key: Seq<char>| #[trigger] keys.contains(key);
    let rest = keys.remove(some);
    if exists|key: Seq<char>| #[trigger] rest.contains(key) {
        let other = lemma_greatest_key(rest);
        text_less_is_a_strict_order(some, other, some);
        let greatest = if text_less(some, other) {
            other
        } else {
            some
        };
        assert forall|key: Seq<char>| #[trigger]
            keys.contains(key) && key != greatest implies text_less(key, greatest) by {
            if key != some {
                assert(rest.contains(key));
                text_less_is_a_strict_order(key, other, some);
            }
        }
        greatest
    } else {
        assert forall|key: Seq<char>| #[trigger] keys.contains(key) && key != some implies text_less(
            key,
            some,
        ) by {
            assert(rest.contains(key));
        }
        some
    }
}

proof fn lemma_listing_exists(map: Map<Seq<char>, Seq<char>>) -> (entries: Seq<
    (Seq<char>, Seq<char>),
>)
    requires
        map.dom().finite(),
    ensures
        ascending(entries),
        listed(entries) == map,
        entries.len() == 0 <==> map == Map::<Seq<char>, Seq<char>>::empty(),
    decreases map.dom().len(),
{
    if exists|key: Seq<char>| #[trigger] map.dom().contains(key) {
        let key = lemma_greatest_key(map.dom());
        let front = lemma_listing_exists(map.remove(key));
        lemma_greater_entry(front, map.remove(key), key, map[key]);
        assert(map.remove(key).insert(key, map[key]) =~= map);
        assert(map.contains_key(key));
        front.push((key, map[key]))
    } else {
        assert(map =~= Map::empty());
        Seq::empty()
    }
}

proof fn lemma_greater_entry(
    entries: Seq<(Seq<char>, Seq<char>)>,
    map: Map<Seq<char>, Seq<char>>,
    key: Seq<char>,
    value: Seq<char>,
)
    requires
        ascending(entries),
        listed(entries) == map,
        forall|other: Seq<char>| #[trigger] map.contains_key(other) ==> text_less(other, key),
    ensures
        ascending(entries.push((key, value))),
        listed(entries.push((key, value))) == map.insert(key, value),
{
    let more = entries.push((key, value));
    crate::string_map::lemma_listed(entries);
    assert forall|i: int, j: int| 0 <= i < j < more.len() implies text_less(
        (#[trigger] more[i]).0,
        (#[trigger] more[j]).0,
    ) by {
        assert(more[i] == entries[i]);
        if j < entries.len() {
            assert(more[j] == entries[j]);
        } else {
            assert(map.contains_key(entries[i].0));
        }
    }
    assert(more.drop_last() =~= entries);
}

/// The label selector of a map: empty for no entry; and an entry whose key comes
/// after all others adds itself, as `key=value`, at the end, after a comma if
/// there is anything before it.
pub proof fn one_more_label_is_asked_for(
    map: Map<Seq<char>, Seq<char>>,
    key: Seq<char>,
    value: Seq<char>,
)
    requires
        map.dom().finite(),
        forall|other: Seq<char>| #[trigger] map.contains_key(other) ==> text_less(other, key),
    ensures
        label_selector_text(Map::empty()).len() == 0,
        map == Map::<Seq<char>, Seq<char>>::empty() ==> label_selector_text(map.insert(key, value))
            == key + "="@ + value,
        map != Map::<Seq<char>, Seq<char>>::empty() ==> label_selector_text(map.insert(key, value))
            == label_selector_text(map) + ","@ + (key + "="@ + value),
{
    let text = |e: (Seq<char>, Seq<char>)| e.0 + "="@ + e.1;
    let none = Seq::<(Seq<char>, Seq<char>)>::empty();
    lemma_in_order(none);
    assert(none.map_values(text) =~= Seq::empty());
    let entries = lemma_listing_exists(map);
    let more = entries.push((key, value));
    lemma_greater_entry(entries, map, key, value);
    lemma_in_order(entries);
    lemma_in_order(more);
    assert(in_order(map.insert(key, value)) == more);
    assert(more.map_values(text) =~= entries.map_values(text).push(text((key, value))));
    one_more_piece_is_joined(entries.map_values(text), text((key, value)), ","@);
    if entries.len() == 0 {
        assert(more.map_values(text) =~= seq![text((key, value))]);
    }
}

/// When labels meet a rule, told in the labels themselves.
pub proof fn when_a_rule_holds(
    key: Seq<char>,
    value: Seq<char>,
    labels: Map<Seq<char>, Seq<char>>,
)
    ensures
        RuleView::Equal(key, value).holds(labels) <==> labels.contains_key(key) && labels[key]
            == value,
        RuleView::NotEqual(key, value).holds(labels) <==> !labels.contains_key(key) || labels[key]
            != value,
        RuleView::Exists(key).holds(labels) <==> labels.contains_key(key),
        RuleView::DoesNotExist(key).holds(labels) <==> !labels.contains_key(key),
{
}

/// One more rule is one more condition; no rules ask for nothing.
pub proof fn one_more_rule_is_one_more_condition(
    rules: Seq<RuleView>,
    rule: RuleView,
    labels: Map<Seq<char>, Seq<char>>,
)
    ensures
        filter_holds(Seq::empty(), labels),
        filter_holds(rules.push(rule), labels) <==> filter_holds(rules, labels) && rule.holds(
            labels,
        ),
{
    let more = rules.push(rule);
    if filter_holds(more, labels) {
        assert forall|i: int| 0 <= i < rules.len() implies (#[trigger] rules[i]).holds(labels) by {
            assert(more[i].holds(labels));
        }
        assert(more[rules.len() as int].holds(labels));
    }
    if filter_holds(rules, labels) && rule.holds(labels) {
        assert forall|i: int| 0 <= i < more.len() implies (#[trigger] more[i]).holds(labels) by {
            if i < rules.len() {
                assert(rules[i].holds(labels));
            }
        }
    }
}

proof fn lemma_split_without_separator(text: Seq<char>, separator: char)
    requires
        !text.contains(separator),
    ensures
        split_at_each(text, separator) == seq![text],
    decreases text.len(),
{
    if text.len() > 0 {
        let front = text.drop_last();
        if front.contains(separator) {
            let i = choose|i: int| 0 <= i < front.len() && front[i] == separator;
            assert(text[i] == separator);
        }
        assert(text[text.len() - 1] != separator);
        lemma_split_without_separator(front, separator);
        assert(front.push(text.last()) =~= text);
        assert(split_at_each(text, separator) =~= seq![text]);
    } else {
        assert(text =~= Seq::empty());
    }
}

proof fn lemma_one_rule(text: Seq<char>)
    requires
        !text.contains(','),
    ensures
        filter_of(text) == (match rule_of(text) {
            Some(rule) => Ok::<Seq<RuleView>, ErrorView>(seq![rule]),
            None => Err(ErrorView::InvalidNodeFilter(text)),
        }),
{
    lemma_split_without_separator(text, ',');
    assert(seq![text].drop_last() =~= Seq::empty());
    reveal_with_fuel(rules_of, 2);
    if let Some(rule) = rule_of(text) {
        assert(Seq::<RuleView>::empty().push(rule) =~= seq![rule]);
    }
}

proof fn lemma_two_sides(left: Seq<char>, right: Seq<char>)
    requires
        !left.contains('='),
        !right.contains('='),
    ensures
        split_at_each(left.push('=') + right, '=') == seq![left, right],
{
    lemma_split_concat(left, right, '=');
    lemma_split_without_separator(left, '=');
    lemma_split_without_separator(right, '=');
    assert(seq![left] + seq![right] =~= seq![left, right]);
}

proof fn lemma_free_of(a: Seq<char>, b: Seq<char>, c: char)
    requires
        !a.contains(c),
        !b.contains(c),
    ensures
        !(a + b).contains(c),
{
    if (a + b).contains(c) {
        let i = choose|i: int| 0 <= i < (a + b).len() && (a + b)[i] == c;
        if i < a.len() {
            assert(a[i] == c);
        } else {
            assert(b[i - a.len()] == c);
        }
    }
}

/// How each kind of rule is spelled, for every key and value without a comma and
/// an equals sign: `key=value`, `key!=value`, `key` and `!key`.
pub proof fn how_rules_are_spelled(key: Seq<char>, value: Seq<char>)
    requires
        key.len() > 0,
        !key.contains('='),
        !key.contains(','),
        !value.contains('='),
        !value.contains(','),
    ensures
        key.last() != '!' ==> filter_of(key + seq!['='] + value) == Ok::<Seq<RuleView>, ErrorView>(
            seq![RuleView::Equal(key, value)],
        ),
        filter_of(key + seq!['!', '='] + value) == Ok::<Seq<RuleView>, ErrorView>(
            seq![RuleView::NotEqual(key, value)],
        ),
        key[0] != '!' ==> filter_of(key) == Ok::<Seq<RuleView>, ErrorView>(
            seq![RuleView::Exists(key)],
        ),
        filter_of(seq!['!'] + key) == Ok::<Seq<RuleView>, ErrorView>(
            seq![RuleView::DoesNotExist(key)],
        ),
{
    let equal = key + seq!['='] + value;
    assert(equal =~= key.push('=') + value);
    lemma_free_of(key, seq!['='], ',');
    lemma_free_of(key + seq!['='], value, ',');
    lemma_two_sides(key, value);
    lemma_one_rule(equal);

    let negated = key.push('!');
    let unequal = key + seq!['!', '='] + value;
    assert(unequal =~= negated.push('=') + value);
    assert(negated =~= key + seq!['!']);
    lemma_free_of(key, seq!['!'], '=');
    lemma_free_of(key, seq!['!', '='], ',');
    lemma_free_of(key + seq!['!', '='], value, ',');
    lemma_two_sides(negated, value);
    assert(negated.drop_last() =~= key);
    lemma_one_rule(unequal);

    lemma_split_without_separator(key, '=');
    lemma_one_rule(key);

    let missing = seq!['!'] + key;
    lemma_free_of(seq!['!'], key, '=');
    lemma_free_of(seq!['!'], key, ',');
    lemma_split_without_separator(missing, '=');
    assert(missing.drop_first() =~= key);
    lemma_one_rule(missing);
}

/// What is no rule, and is named in the error: a piece without a key, and one with
/// more than one equals sign.
pub proof fn what_is_no_rule(a: Seq<char>, b: Seq<char>, c: Seq<char>)
    requires
        !a.contains(','),
        !b.contains(','),
        !c.contains(','),
    ensures
        ({
            let refused = |text: Seq<char>|
                filter_of(text) == Err::<Seq<RuleView>, ErrorView>(
                    ErrorView::InvalidNodeFilter(text),
                );
            &&& refused(Seq::empty())
            &&& refused(seq!['!'])
            &&& refused(seq!['='] + a)
            &&& refused(seq!['!', '='] + a)
            &&& refused(a + seq!['='] + b + seq!['='] + c)
        }),
{
    let none = Seq::<char>::empty();
    lemma_split_without_separator(none, '=');
    lemma_one_rule(none);

    let bang = seq!['!'];
    lemma_split_without_separator(bang, '=');
    lemma_one_rule(bang);

    let keyless = seq!['='] + a;
    lemma_free_of(seq!['='], a, ',');
    assert(keyless =~= none.push('=') + a);
    lemma_split_concat(none, a, '=');
    lemma_one_rule(keyless);

    let negated = seq!['!', '='] + a;
    lemma_free_of(seq!['!', '='], a, ',');
    assert(negated =~= bang.push('=') + a);
    lemma_split_concat(bang, a, '=');
    lemma_split_is_not_empty(a, '=');
    lemma_one_rule(negated);

    let three = a + seq!['='] + b + seq!['='] + c;
    lemma_free_of(a, seq!['='], ',');
    lemma_free_of(a + seq!['='], b, ',');
    lemma_free_of(a + seq!['='] + b, seq!['='], ',');
    lemma_free_of(a + seq!['='] + b + seq!['='], c, ',');
    assert(three =~= a.push('=') + (b.push('=') + c));
    lemma_split_concat(a, b.push('=') + c, '=');
    lemma_split_concat(b, c, '=');
    lemma_split_is_not_empty(a, '=');
    lemma_split_is_not_empty(b, '=');
    lemma_split_is_not_empty(c, '=');
    lemma_one_rule(three);
}

/// The rules of two filters that a comma joins are those of the first and then
/// those of the second. If one of them is no filter, its error is that of both,
/// and the first comes first.
pub proof fn a_comma_lists_both(a: Seq<char>, b: Seq<char>)
    ensures
        filter_of(a) is Ok && filter_of(b) is Ok ==> filter_of(a + seq![','] + b) == Ok::<
            Seq<RuleView>,
            ErrorView,
        >(filter_of(a)->Ok_0 + filter_of(b)->Ok_0),
        filter_of(a) is Err ==> filter_of(a + seq![','] + b) == filter_of(a),
        filter_of(a) is Ok && filter_of(b) is Err ==> filter_of(a + seq![','] + b) == filter_of(b),
{
    assert(a + seq![','] + b =~= a.push(',') + b);
    lemma_split_concat(a, b, ',');
    lemma_rules_concat(split_at_each(a, ','), split_at_each(b, ','));
}

} // verus!
