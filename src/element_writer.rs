//! Writing typed fields back into an element, so that reading the element gives
//! the same fields again.
//!
//! A field that holds its default is left out; every other field is written in
//! the canonical text of its codec.
use crate::conditional_uint::{self, lemma_serialize_then_deserialize, ConditionalUint};
use crate::duration_iso_8601::{iso_text, lemma_format_then_parse, Duration, Iso8601};
use crate::mpd::timestamp_accepted;
use crate::tags::{self, has_no_comma, lemma_join_then_split, tokens_view};
use crate::text::{
    decimal_text, is_digit, lemma_decimal_text, push_char, push_decimal, unsigned_text_value,
};
use crate::xml::{
    all_valid, attr, bool_value, children_named, conditional_value, duration_ms, duration_value,
    find_attr, first_maps, first_valid, is_space, maps_all, named, sap_value, tags_value,
    text_option, text_value, u64_list_value, u64_value, words, words_value, FromElement,
    XmlAttribute, XmlElement,
};
use vstd::prelude::*;
use vstd::string::*;

verus! {

/// Writes a value as an element that reads back as the same value.
pub trait ToElement: FromElement {
    /// Whether the value can be written and read back unchanged.
    spec fn well_formed(&self) -> bool;

    /// The attributes that the written element may have.
    spec fn writes_attr(n: Seq<char>) -> bool;

    /// The names of the children that the written element may have.
    spec fn writes_child(n: Seq<char>) -> bool;

    /// What is read from an element can be written back.
    proof fn lemma_read_well_formed(e: XmlElement, v: Self)
        requires
            Self::valid_element(e),
            Self::maps_from(e, v),
        ensures
            v.well_formed(),
    ;

    fn to_element(&self, name: &str) -> (r: XmlElement)
        requires
            self.well_formed(),
        ensures
            r.name@ == name@,
            Self::valid_element(r),
            Self::maps_from(r, *self),
            forall|n: Seq<char>| !Self::writes_attr(n) ==> #[trigger] attr(r, n) is None,
            forall|n: Seq<char>|
                !Self::writes_child(n) ==> #[trigger] children_named(r, n).len() == 0,
    ;
}

pub open spec fn all_well_formed<T: ToElement>(s: Seq<T>) -> bool {
    forall|i: int| 0 <= i < s.len() ==> (#[trigger] s[i]).well_formed()
}

pub open spec fn option_well_formed<T: ToElement>(v: Option<T>) -> bool {
    match v {
        Some(x) => x.well_formed(),
        None => true,
    }
}

/// A duration that reads back unchanged: not negative.
pub open spec fn duration_well_formed(d: Option<Duration>) -> bool {
    match d {
        Some(x) => x.ms >= 0,
        None => true,
    }
}

/// A tag list that reads back unchanged: no token holds a comma.
pub open spec fn tags_well_formed(l: Seq<String>) -> bool {
    forall|i: int| 0 <= i < l.len() ==> has_no_comma(#[trigger] l[i]@)
}

pub open spec fn is_word(t: Seq<char>) -> bool {
    t.len() > 0 && forall|i: int| 0 <= i < t.len() ==> !is_space(#[trigger] t[i])
}

/// A list of words that reads back unchanged: each word is non-empty and without
/// white space.
pub open spec fn words_well_formed(l: Seq<String>) -> bool {
    forall|i: int| 0 <= i < l.len() ==> is_word(#[trigger] l[i]@)
}

/// The words with a space between each two.
pub open spec fn join_with_space(l: Seq<Seq<char>>) -> Seq<char>
    decreases l.len(),
{
    if l.len() == 0 {
        Seq::empty()
    } else if l.len() == 1 {
        l[0]
    } else {
        join_with_space(l.drop_last()) + seq![' '] + l.last()
    }
}

pub open spec fn decimal_texts(l: Seq<u64>) -> Seq<Seq<char>> {
    l.map_values(|n: u64| decimal_text(n as nat))
}

pub proof fn lemma_all_read_well_formed<T: ToElement>(s: Seq<XmlElement>, v: Seq<T>)
    requires
        all_valid::<T>(s),
        maps_all(s, v),
    ensures
        all_well_formed(v),
{
    assert forall|i: int| 0 <= i < v.len() implies (#[trigger] v[i]).well_formed() by {
        T::lemma_read_well_formed(s[i], v[i]);
    }
}

pub proof fn lemma_first_read_well_formed<T: ToElement>(s: Seq<XmlElement>, v: Option<T>)
    requires
        first_valid::<T>(s),
        first_maps(s, v),
    ensures
        option_well_formed(v),
{
    if v is Some {
        T::lemma_read_well_formed(s[0], v->Some_0);
    }
}

pub proof fn lemma_tags_read(e: XmlElement, name: Seq<char>, l: Seq<String>)
    requires
        tokens_view(l) == tags_value(e, name),
    ensures
        tags_well_formed(l),
{
    assert forall|i: int| 0 <= i < l.len() implies has_no_comma(#[trigger] l[i]@) by {
        assert(tokens_view(l)[i] == l[i]@);
        let t = attr(e, name)->Some_0;
        crate::tags::lemma_split_has_no_comma(t);
        assert(tags_value(e, name) == crate::tags::split_on_comma(t));
        assert(has_no_comma(crate::tags::split_on_comma(t)[i]));
    }
}

pub proof fn lemma_duration_read(e: XmlElement, name: Seq<char>, d: Option<Duration>)
    requires
        duration_value(e, name) == Some(duration_ms(d)),
    ensures
        duration_well_formed(d),
{
    if attr(e, name) is Some {
        crate::duration_iso_8601::lemma_duration_nonnegative(attr(e, name)->Some_0);
    }
}

proof fn lemma_words_are_words(s: Seq<char>)
    ensures
        forall|i: int| 0 <= i < words(s).len() ==> is_word(#[trigger] words(s)[i]),
    decreases s.len(),
{
    if s.len() > 0 {
        lemma_words_are_words(s.drop_last());
        let prev = words(s.drop_last());
        let c = s.last();
        if !is_space(c) && s.len() >= 2 && !is_space(s[s.len() - 2]) {
            crate::xml::lemma_words_nonempty(s.drop_last());
            assert(s.drop_last().last() == s[s.len() - 2]);
            let t = prev.last();
            assert(is_word(prev[prev.len() - 1]));
            assert(is_word(t.push(c))) by {
                assert forall|k: int| 0 <= k < t.push(c).len() implies !is_space(
                    #[trigger] t.push(c)[k],
                ) by {
                    if k < t.len() {
                        assert(t.push(c)[k] == t[k]);
                    }
                }
            }
        } else if !is_space(c) {
            assert(is_word(seq![c]));
        }
    }
}

pub proof fn lemma_words_read(e: XmlElement, name: Seq<char>, l: Seq<String>)
    requires
        tokens_view(l) == words_value(e, name),
    ensures
        words_well_formed(l),
{
    assert forall|i: int| 0 <= i < l.len() implies is_word(#[trigger] l[i]@) by {
        assert(tokens_view(l)[i] == l[i]@);
        let t = attr(e, name)->Some_0;
        lemma_words_are_words(t);
        assert(words_value(e, name) == words(t));
        assert(is_word(words(t)[i]));
    }
}

// Attributes.

proof fn lemma_find_attr_push(attrs: Seq<XmlAttribute>, a: XmlAttribute, n: Seq<char>)
    ensures
        find_attr(attrs.push(a), n) == (if find_attr(attrs, n) is Some {
            find_attr(attrs, n)
        } else if a.name@ == n {
            Some(a.value@)
        } else {
            None
        }),
    decreases attrs.len(),
{
    assert(attrs.push(a).len() > 0);
    if attrs.len() > 0 {
        assert(attrs.push(a)[0] == attrs[0]);
        assert(attrs.push(a).drop_first() =~= attrs.drop_first().push(a));
        lemma_find_attr_push(attrs.drop_first(), a, n);
    } else {
        assert(attrs.push(a)[0] == a);
        assert(attrs.push(a).drop_first() =~= Seq::<XmlAttribute>::empty());
        assert(find_attr(Seq::<XmlAttribute>::empty(), n) is None);
    }
}

/// What stays of an element when an attribute named `name` is added.
pub open spec fn keeps_others(old_e: XmlElement, new_e: XmlElement, name: Seq<char>) -> bool {
    &&& new_e.name == old_e.name
    &&& new_e.children == old_e.children
    &&& new_e.text == old_e.text
    &&& forall|n: Seq<char>| n != name ==> #[trigger] attr(new_e, n) == attr(old_e, n)
    &&& forall|n: Seq<char>| #[trigger] children_named(new_e, n) == children_named(old_e, n)
}

/// Adds the attribute `name` with `value`.
pub fn put_attribute(e: &mut XmlElement, name: &str, value: String)
    ensures
        keeps_others(*old(e), *final(e), name@),
        attr(*old(e), name@) is None ==> attr(*final(e), name@) == Some(value@),
{
    let ghost v = value@;
    e.push_attribute(name, value);
    proof {
        assert(final(e).attributes@ =~= old(e).attributes@.push(final(e).attributes@.last()));
        assert forall|n: Seq<char>| true implies #[trigger] attr(*final(e), n) == (if attr(
            *old(e),
            n,
        ) is Some {
            attr(*old(e), n)
        } else if n == name@ {
            Some(v)
        } else {
            None
        }) by {
            lemma_find_attr_push(old(e).attributes@, final(e).attributes@.last(), n);
        }
    }
}

/// Writes a text attribute, left out where it is empty.
pub fn put_text(e: &mut XmlElement, name: &str, value: &String)
    ensures
        keeps_others(*old(e), *final(e), name@),
        attr(*old(e), name@) is None ==> text_value(*final(e), name@) == value@,
{
    if value.as_str().unicode_len() > 0 {
        put_attribute(e, name, value.clone());
    }
}

/// Writes a text attribute that is always present.
pub fn put_required_text(e: &mut XmlElement, name: &str, value: &String)
    ensures
        keeps_others(*old(e), *final(e), name@),
        attr(*old(e), name@) is None ==> attr(*final(e), name@) == Some(value@),
{
    put_attribute(e, name, value.clone());
}

/// Writes an optional text attribute.
pub fn put_optional_text(e: &mut XmlElement, name: &str, value: &Option<String>)
    ensures
        keeps_others(*old(e), *final(e), name@),
        attr(*old(e), name@) is None ==> attr(*final(e), name@) == text_option(*value),
{
    match value {
        Some(v) => put_attribute(e, name, v.clone()),
        None => {},
    }
}

pub proof fn lemma_unsigned_of_decimal(n: u64)
    ensures
        unsigned_text_value(decimal_text(n as nat)) == Some(n),
        decimal_text(n as nat).len() > 0,
        decimal_text(n as nat)[0] != '+',
{
    lemma_decimal_text(n as nat);
    assert(is_digit(decimal_text(n as nat)[0]));
}

fn decimal_string(n: u64) -> (r: String)
    ensures
        r@ == decimal_text(n as nat),
{
    let mut s = String::new();
    push_decimal(&mut s, n);
    assert(s@ =~= decimal_text(n as nat));
    s
}

/// Writes an unsigned attribute, left out where it is zero.
pub fn put_u64(e: &mut XmlElement, name: &str, n: u64)
    ensures
        keeps_others(*old(e), *final(e), name@),
        attr(*old(e), name@) is None ==> u64_value(*final(e), name@) == Some(n),
{
    proof {
        lemma_unsigned_of_decimal(n);
    }
    if n != 0 {
        put_attribute(e, name, decimal_string(n));
    }
}

/// Writes an unsigned attribute that is always present.
pub fn put_required_u64(e: &mut XmlElement, name: &str, n: u64)
    ensures
        keeps_others(*old(e), *final(e), name@),
        attr(*old(e), name@) is None ==> attr(*final(e), name@) is Some && u64_value(
            *final(e),
            name@,
        ) == Some(n),
{
    proof {
        lemma_unsigned_of_decimal(n);
    }
    put_attribute(e, name, decimal_string(n));
}

/// Writes an optional unsigned attribute.
pub fn put_optional_u64(e: &mut XmlElement, name: &str, n: Option<u64>)
    ensures
        keeps_others(*old(e), *final(e), name@),
        attr(*old(e), name@) is None ==> match n {
            Some(x) => attr(*final(e), name@) is Some && u64_value(*final(e), name@) == Some(x),
            None => attr(*final(e), name@) is None,
        },
{
    match n {
        Some(x) => {
            proof {
                lemma_unsigned_of_decimal(x);
            }
            put_attribute(e, name, decimal_string(x));
        },
        None => {},
    }
}

/// Writes a stream access point class, left out where it is zero.
pub fn put_sap(e: &mut XmlElement, name: &str, n: u8)
    requires
        n <= 6,
    ensures
        keeps_others(*old(e), *final(e), name@),
        attr(*old(e), name@) is None ==> sap_value(*final(e), name@) == Some(n),
{
    put_u64(e, name, n as u64);
}

/// Writes a boolean attribute, left out where it is `false`.
pub fn put_bool(e: &mut XmlElement, name: &str, b: bool)
    ensures
        keeps_others(*old(e), *final(e), name@),
        attr(*old(e), name@) is None ==> bool_value(*final(e), name@) == Some(b),
{
    if b {
        put_attribute(e, name, String::from_str("true"));
    }
}

/// Writes a tag list attribute, left out where the list is empty.
pub fn put_tags(e: &mut XmlElement, name: &str, l: &Vec<String>)
    requires
        tags_well_formed(l@),
    ensures
        keeps_others(*old(e), *final(e), name@),
        attr(*old(e), name@) is None ==> tags_value(*final(e), name@) == tokens_view(l@),
{
    if l.len() > 0 {
        proof {
            assert forall|i: int| 0 <= i < tokens_view(l@).len() implies has_no_comma(
                #[trigger] tokens_view(l@)[i],
            ) by {
                assert(tokens_view(l@)[i] == l@[i]@);
            }
            lemma_join_then_split(tokens_view(l@));
        }
        put_attribute(e, name, tags::serialize(l));
    } else {
        assert(tokens_view(l@) =~= Seq::<Seq<char>>::empty());
    }
}

/// Writes a tag list attribute that is always present.
pub fn put_required_tags(e: &mut XmlElement, name: &str, l: &Vec<String>)
    requires
        tags_well_formed(l@),
        l@.len() > 0,
    ensures
        keeps_others(*old(e), *final(e), name@),
        attr(*old(e), name@) is None ==> attr(*final(e), name@) is Some && tags_value(
            *final(e),
            name@,
        ) == tokens_view(l@),
{
    proof {
        assert forall|i: int| 0 <= i < tokens_view(l@).len() implies has_no_comma(
            #[trigger] tokens_view(l@)[i],
        ) by {
            assert(tokens_view(l@)[i] == l@[i]@);
        }
        lemma_join_then_split(tokens_view(l@));
    }
    put_attribute(e, name, tags::serialize(l));
}

/// Writes a duration attribute, left out where there is no duration.
pub fn put_duration(e: &mut XmlElement, name: &str, d: Option<Duration>)
    requires
        duration_well_formed(d),
    ensures
        keeps_others(*old(e), *final(e), name@),
        attr(*old(e), name@) is None ==> duration_value(*final(e), name@) == Some(duration_ms(d)),
{
    match d {
        Some(x) => {
            proof {
                lemma_format_then_parse(x.ms as int);
                assert(iso_text(x.ms as int)[0] == 'P');
            }
            put_attribute(e, name, Iso8601::to_string(x));
        },
        None => {},
    }
}

/// Writes a conditional integer attribute, left out where it is the flag `false`.
pub fn put_conditional(e: &mut XmlElement, name: &str, c: ConditionalUint)
    ensures
        keeps_others(*old(e), *final(e), name@),
        attr(*old(e), name@) is None ==> conditional_value(*final(e), name@) == Some(c),
{
    proof {
        lemma_serialize_then_deserialize(c);
    }
    if c != ConditionalUint::Flag(false) {
        put_attribute(e, name, conditional_uint::serialize(&c));
    }
}

/// Writes a timestamp attribute, kept as written.
pub fn put_timestamp(e: &mut XmlElement, name: &str, t: &Option<String>)
    ensures
        keeps_others(*old(e), *final(e), name@),
        attr(*old(e), name@) is None ==> attr(*final(e), name@) == text_option(*t),
{
    put_optional_text(e, name, t);
}

proof fn lemma_words_single(b: Seq<char>)
    requires
        is_word(b),
    ensures
        words(b) == seq![b],
    decreases b.len(),
{
    let b2 = b.drop_last();
    assert(b2.push(b.last()) =~= b);
    assert(!is_space(b[b.len() - 1]));
    if b2.len() == 0 {
        assert(words(b2) =~= Seq::<Seq<char>>::empty());
        assert(b =~= seq![b.last()]);
    } else {
        assert(is_word(b2)) by {
            assert forall|i: int| 0 <= i < b2.len() implies !is_space(#[trigger] b2[i]) by {
                assert(b2[i] == b[i]);
            }
        }
        lemma_words_single(b2);
        assert(!is_space(b[b.len() - 2]));
        assert(words(b) =~= seq![b]);
    }
}

proof fn lemma_words_after_space(a: Seq<char>, b: Seq<char>)
    requires
        is_word(b),
    ensures
        words(a + seq![' '] + b) == words(a).push(b),
    decreases b.len(),
{
    let x = a + seq![' '];
    assert(x.drop_last() =~= a);
    assert(words(x) == words(a));
    let b2 = b.drop_last();
    assert(b2.push(b.last()) =~= b);
    assert(!is_space(b[b.len() - 1]));
    assert((x + b).drop_last() =~= x + b2);
    assert((x + b).last() == b.last());
    if b2.len() == 0 {
        assert(x + b2 =~= x);
        assert((x + b)[(x + b).len() - 2] == ' ');
        assert(b =~= seq![b.last()]);
        assert(words(x + b) =~= words(a).push(b));
    } else {
        assert(is_word(b2)) by {
            assert forall|i: int| 0 <= i < b2.len() implies !is_space(#[trigger] b2[i]) by {
                assert(b2[i] == b[i]);
            }
        }
        lemma_words_after_space(a, b2);
        assert((x + b)[(x + b).len() - 2] == b[b.len() - 2]);
        assert(!is_space(b[b.len() - 2]));
        assert(words(x + b) =~= words(a).push(b));
    }
}

/// Joining words with spaces and cutting the text into words gives the words back.
pub proof fn lemma_join_then_words(l: Seq<Seq<char>>)
    requires
        forall|i: int| 0 <= i < l.len() ==> is_word(#[trigger] l[i]),
    ensures
        words(join_with_space(l)) == l,
    decreases l.len(),
{
    if l.len() == 0 {
        assert(words(Seq::<char>::empty()) =~= l);
    } else if l.len() == 1 {
        lemma_words_single(l[0]);
        assert(seq![l[0]] =~= l);
    } else {
        let l2 = l.drop_last();
        assert forall|i: int| 0 <= i < l2.len() implies is_word(#[trigger] l2[i]) by {
            assert(l2[i] == l[i]);
        }
        lemma_join_then_words(l2);
        assert(is_word(l[l.len() - 1]));
        lemma_words_after_space(join_with_space(l2), l.last());
        assert(l2.push(l.last()) =~= l);
    }
}

/// Joins the texts with single spaces.
fn join_spaced(l: &Vec<String>) -> (r: String)
    ensures
        r@ == join_with_space(tokens_view(l@)),
{
    let mut out = String::new();
    let n = l.len();
    if n == 0 {
        return out;
    }
    out.append(l[0].as_str());
    let mut i: usize = 1;
    assert(tokens_view(l@).take(1) =~= seq![l@[0]@]);
    while i < n
        invariant
            1 <= i <= n,
            n == l@.len(),
            out@ == join_with_space(tokens_view(l@).take(i as int)),
        decreases n - i,
    {
        let ghost t = tokens_view(l@).take(i + 1);
        assert(t.drop_last() =~= tokens_view(l@).take(i as int));
        push_char(&mut out, ' ');
        out.append(l[i].as_str());
        assert(out@ =~= join_with_space(t));
        i = i + 1;
    }
    assert(tokens_view(l@).take(n as int) =~= tokens_view(l@));
    out
}

/// Writes a list of words attribute, left out where the list is empty.
pub fn put_words(e: &mut XmlElement, name: &str, l: &Vec<String>)
    requires
        words_well_formed(l@),
    ensures
        keeps_others(*old(e), *final(e), name@),
        attr(*old(e), name@) is None ==> words_value(*final(e), name@) == tokens_view(l@),
{
    if l.len() > 0 {
        proof {
            assert forall|i: int| 0 <= i < tokens_view(l@).len() implies is_word(
                #[trigger] tokens_view(l@)[i],
            ) by {
                assert(tokens_view(l@)[i] == l@[i]@);
            }
            lemma_join_then_words(tokens_view(l@));
        }
        put_attribute(e, name, join_spaced(l));
    } else {
        assert(tokens_view(l@) =~= Seq::<Seq<char>>::empty());
    }
}

/// Writes a list of unsigned integers attribute, left out where the list is empty.
pub fn put_u64_list(e: &mut XmlElement, name: &str, l: &Vec<u64>)
    ensures
        keeps_others(*old(e), *final(e), name@),
        attr(*old(e), name@) is None ==> u64_list_value(*final(e), name@) == Some(l@),
{
    if l.len() == 0 {
        assert(l@ =~= Seq::<u64>::empty());
        return;
    }
    put_required_u64_list(e, name, l);
}

/// Writes a list of unsigned integers attribute that is always present.
pub fn put_required_u64_list(e: &mut XmlElement, name: &str, l: &Vec<u64>)
    ensures
        keeps_others(*old(e), *final(e), name@),
        attr(*old(e), name@) is None ==> attr(*final(e), name@) is Some && u64_list_value(
            *final(e),
            name@,
        ) == Some(l@),
{
    let mut texts: Vec<String> = Vec::new();
    let mut i: usize = 0;
    while i < l.len()
        invariant
            i <= l@.len(),
            texts@.len() == i,
            forall|j: int| 0 <= j < i ==> (#[trigger] texts@[j])@ == decimal_text(l@[j] as nat),
        decreases l@.len() - i,
    {
        texts.push(decimal_string(l[i]));
        i = i + 1;
    }
    proof {
        let tv = tokens_view(texts@);
        assert(tv =~= decimal_texts(l@));
        assert forall|j: int| 0 <= j < tv.len() implies is_word(#[trigger] tv[j]) by {
            lemma_decimal_text(l@[j] as nat);
            let t = decimal_text(l@[j] as nat);
            assert forall|k: int| 0 <= k < t.len() implies !is_space(#[trigger] t[k]) by {
                assert(is_digit(t[k]));
            }
        }
        lemma_join_then_words(tv);
        assert forall|j: int| 0 <= j < tv.len() implies (#[trigger] unsigned_text_value(tv[j]))
            == Some(l@[j]) by {
            lemma_unsigned_of_decimal(l@[j]);
        }
        assert(tv.map_values(|t: Seq<char>| unsigned_text_value(t)->Some_0) =~= l@);
    }
    put_attribute(e, name, join_spaced(&texts));
}

// Children.

/// What stays of an element when children named `name` are added.
pub open spec fn keeps_other_children(
    old_e: XmlElement,
    new_e: XmlElement,
    name: Seq<char>,
) -> bool {
    &&& new_e.name == old_e.name
    &&& new_e.attributes == old_e.attributes
    &&& new_e.text == old_e.text
    &&& forall|n: Seq<char>| n != name ==> #[trigger] children_named(new_e, n) == children_named(
        old_e,
        n,
    )
    &&& forall|n: Seq<char>| #[trigger] attr(new_e, n) == attr(old_e, n)
}

/// Adds one child.
pub fn add_child(e: &mut XmlElement, c: XmlElement)
    ensures
        final(e).name == old(e).name,
        final(e).attributes == old(e).attributes,
        final(e).text == old(e).text,
        forall|n: Seq<char>| #[trigger]
            children_named(*final(e), n) == (if c.name@ == n {
                children_named(*old(e), n).push(c)
            } else {
                children_named(*old(e), n)
            }),
{
    let ghost c2 = c;
    e.push_child(c);
    proof {
        assert forall|n: Seq<char>| true implies #[trigger] children_named(*final(e), n) == (if c2.name@
            == n {
            children_named(*old(e), n).push(c2)
        } else {
            children_named(*old(e), n)
        }) by {
            assert(final(e).children@.drop_last() =~= old(e).children@);
        }
    }
}

/// Writes each item as a child named `name`, in order.
pub fn put_children<T: ToElement>(e: &mut XmlElement, name: &str, items: &Vec<T>)
    requires
        all_well_formed(items@),
    ensures
        keeps_other_children(*old(e), *final(e), name@),
        children_named(*old(e), name@).len() == 0 ==> all_valid::<T>(
            children_named(*final(e), name@),
        ) && maps_all(children_named(*final(e), name@), items@),
{
    let n = items.len();
    let mut i: usize = 0;
    let ghost start = children_named(*e, name@);
    while i < n
        invariant
            i <= n,
            n == items@.len(),
            all_well_formed(items@),
            e.name == old(e).name,
            e.attributes == old(e).attributes,
            e.text == old(e).text,
            forall|m: Seq<char>| m != name@ ==> #[trigger] children_named(*e, m) == children_named(
                *old(e),
                m,
            ),
            start == children_named(*old(e), name@),
            children_named(*e, name@).len() == start.len() + i,
            forall|j: int| 0 <= j < start.len() ==> #[trigger] children_named(*e, name@)[j] == start[j],
            forall|j: int|
                0 <= j < i ==> T::valid_element(#[trigger] children_named(*e, name@)[start.len() + j]),
            forall|j: int|
                0 <= j < i ==> T::maps_from(
                    #[trigger] children_named(*e, name@)[start.len() + j],
                    items@[j],
                ),
        decreases n - i,
    {
        let c = items[i].to_element(name);
        add_child(e, c);
        i = i + 1;
    }
    proof {
        if start.len() == 0 {
            let s = children_named(*final(e), name@);
            assert forall|j: int| 0 <= j < s.len() implies T::valid_element(#[trigger] s[j]) by {
                assert(s[0 + j] == s[j]);
            }
            assert forall|j: int| 0 <= j < s.len() implies T::maps_from(#[trigger] s[j], items@[j]) by {
                assert(s[0 + j] == s[j]);
            }
        }
    }
}

/// Writes an optional item as a child named `name`.
pub fn put_optional_child<T: ToElement>(e: &mut XmlElement, name: &str, item: &Option<T>)
    requires
        option_well_formed(*item),
    ensures
        keeps_other_children(*old(e), *final(e), name@),
        children_named(*old(e), name@).len() == 0 ==> first_valid::<T>(
            children_named(*final(e), name@),
        ) && first_maps(children_named(*final(e), name@), *item),
{
    match item {
        Some(x) => {
            let c = x.to_element(name);
            add_child(e, c);
        },
        None => {},
    }
}

/// Writes a text as a child named `name`, left out where it is empty.
pub fn put_text_child(e: &mut XmlElement, name: &str, text: &String)
    ensures
        keeps_other_children(*old(e), *final(e), name@),
        children_named(*old(e), name@).len() == 0 ==> crate::xml::child_text_value(
            *final(e),
            name@,
        ) == text@,
{
    if text.as_str().unicode_len() > 0 {
        let mut c = XmlElement::new(name);
        c.text = text.clone();
        add_child(e, c);
    }
}

} // verus!
