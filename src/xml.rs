//! A manifest as a tree of elements, and the readers that turn an element's
//! attributes and children into typed fields.
//!
//! Every field rule is the same across the document: an attribute or child that is
//! absent takes the field's default, one that is present but malformed fails the
//! whole read.
use crate::conditional_uint::{self, conditional_of_text, ConditionalUint};
use crate::duration_iso_8601::{self, duration_of_text, Duration, DurationFault, Iso8601Error};
use crate::tags::{self, split_on_comma, tokens_view};
use crate::text::{parse_unsigned, same_text, unsigned_text_value};
use vstd::prelude::*;
use vstd::string::*;

verus! {

#[derive(Debug, PartialEq)]
pub struct XmlAttribute {
    pub name: String,
    pub value: String,
}

/// An element: its name, its attributes in order, its child elements in order,
/// and the text directly inside it.
#[derive(Debug, PartialEq)]
pub struct XmlElement {
    pub name: String,
    pub attributes: Vec<XmlAttribute>,
    pub children: Vec<XmlElement>,
    pub text: String,
}

/// Why a manifest could not be read.
#[derive(Debug, Clone, PartialEq)]
pub enum ManifestError {
    /// A duration attribute that is not a duration.
    Duration(Iso8601Error),
    /// An attribute whose text is not a value of the field's type.
    TypeMismatch { element: String, attribute: String, value: String },
    /// A required attribute or child that is absent.
    SchemaViolation { element: String, field: String },
}

/// The value of the first attribute named `name`.
pub open spec fn find_attr(attrs: Seq<XmlAttribute>, name: Seq<char>) -> Option<Seq<char>>
    decreases attrs.len(),
{
    if attrs.len() == 0 {
        None
    } else if attrs[0].name@ == name {
        Some(attrs[0].value@)
    } else {
        find_attr(attrs.drop_first(), name)
    }
}

pub open spec fn attr(e: XmlElement, name: Seq<char>) -> Option<Seq<char>> {
    find_attr(e.attributes@, name)
}

/// The elements of `s` named `name`, in order.
pub open spec fn named(s: Seq<XmlElement>, name: Seq<char>) -> Seq<XmlElement>
    decreases s.len(),
{
    if s.len() == 0 {
        Seq::empty()
    } else if s.last().name@ == name {
        named(s.drop_last(), name).push(s.last())
    } else {
        named(s.drop_last(), name)
    }
}

pub open spec fn children_named(e: XmlElement, name: Seq<char>) -> Seq<XmlElement> {
    named(e.children@, name)
}

/// A text attribute: absent is empty.
pub open spec fn text_value(e: XmlElement, name: Seq<char>) -> Seq<char> {
    match attr(e, name) {
        Some(v) => v,
        None => Seq::empty(),
    }
}

/// An unsigned attribute: absent is zero; `None` where the text is not a `u64`.
pub open spec fn u64_value(e: XmlElement, name: Seq<char>) -> Option<u64> {
    match attr(e, name) {
        Some(v) => unsigned_text_value(v),
        None => Some(0),
    }
}

/// A stream access point class: an unsigned attribute from 0 to 6.
pub open spec fn sap_value(e: XmlElement, name: Seq<char>) -> Option<u8> {
    match u64_value(e, name) {
        Some(n) => if n <= 6 {
            Some(n as u8)
        } else {
            None
        },
        None => None,
    }
}

/// The words of a boolean: `true` or `1`, `false` or `0`.
pub open spec fn bool_of_text(v: Seq<char>) -> Option<bool> {
    if v == "true"@ || v == "1"@ {
        Some(true)
    } else if v == "false"@ || v == "0"@ {
        Some(false)
    } else {
        None
    }
}

/// A boolean attribute: absent is `false`.
pub open spec fn bool_value(e: XmlElement, name: Seq<char>) -> Option<bool> {
    match attr(e, name) {
        Some(v) => bool_of_text(v),
        None => Some(false),
    }
}

/// A tag list attribute: absent is the empty list.
pub open spec fn tags_value(e: XmlElement, name: Seq<char>) -> Seq<Seq<char>> {
    match attr(e, name) {
        Some(v) => split_on_comma(v),
        None => Seq::empty(),
    }
}

/// A duration attribute: absent or empty is no duration; `None` where the text
/// is refused.
pub open spec fn duration_value(e: XmlElement, name: Seq<char>) -> Option<Option<int>> {
    match attr(e, name) {
        Some(v) => if v.len() == 0 {
            Some(None)
        } else {
            match duration_of_text(v) {
                Ok(ms) => Some(Some(ms)),
                Err(_) => None,
            }
        },
        None => Some(None),
    }
}

pub open spec fn duration_ms(d: Option<Duration>) -> Option<int> {
    match d {
        Some(x) => Some(x.ms as int),
        None => None,
    }
}

/// A conditional integer attribute: absent is the flag `false`.
pub open spec fn conditional_value(e: XmlElement, name: Seq<char>) -> Option<ConditionalUint> {
    match attr(e, name) {
        Some(v) => conditional_of_text(v),
        None => Some(ConditionalUint::Flag(false)),
    }
}

pub open spec fn text_option(s: Option<String>) -> Option<Seq<char>> {
    match s {
        Some(t) => Some(t@),
        None => None,
    }
}

/// Reads the element into a value of the implementing type.
pub trait FromElement: Sized {
    /// Whether `e` holds a value of this type.
    spec fn valid_element(e: XmlElement) -> bool;

    /// Whether `v` is the value that `e` holds.
    spec fn maps_from(e: XmlElement, v: Self) -> bool;

    fn from_element(e: &XmlElement) -> (r: Result<Self, ManifestError>)
        ensures
            r is Ok <==> Self::valid_element(*e),
            r matches Ok(v) ==> Self::maps_from(*e, v),
    ;
}

pub open spec fn all_valid<T: FromElement>(s: Seq<XmlElement>) -> bool {
    forall|i: int| 0 <= i < s.len() ==> T::valid_element(#[trigger] s[i])
}

/// `v` holds, one for one and in order, the values of the elements `s`.
pub open spec fn maps_all<T: FromElement>(s: Seq<XmlElement>, v: Seq<T>) -> bool {
    &&& v.len() == s.len()
    &&& forall|i: int| 0 <= i < s.len() ==> T::maps_from(#[trigger] s[i], v[i])
}

/// An optional child: the first child named so, if any.
pub open spec fn first_valid<T: FromElement>(s: Seq<XmlElement>) -> bool {
    s.len() > 0 ==> T::valid_element(s[0])
}

pub open spec fn first_maps<T: FromElement>(s: Seq<XmlElement>, v: Option<T>) -> bool {
    match v {
        Some(x) => s.len() > 0 && T::maps_from(s[0], x),
        None => s.len() == 0,
    }
}

proof fn lemma_find_attr_skip(attrs: Seq<XmlAttribute>, name: Seq<char>, i: int)
    requires
        0 <= i < attrs.len(),
        attrs[i].name@ != name,
    ensures
        find_attr(attrs.skip(i), name) == find_attr(attrs.skip(i + 1), name),
{
    assert(attrs.skip(i).drop_first() =~= attrs.skip(i + 1));
}

/// The value of the first attribute of `e` named `name`.
pub fn get_attribute<'a>(e: &'a XmlElement, name: &str) -> (r: Option<&'a String>)
    ensures
        match r {
            Some(v) => attr(*e, name@) == Some(v@),
            None => attr(*e, name@) is None,
        },
{
    let n = e.attributes.len();
    let mut i: usize = 0;
    assert(e.attributes@.skip(0) =~= e.attributes@);
    while i < n
        invariant
            i <= n,
            n == e.attributes@.len(),
            attr(*e, name@) == find_attr(e.attributes@.skip(i as int), name@),
        decreases n - i,
    {
        if same_text(e.attributes[i].name.as_str(), name) {
            return Some(&e.attributes[i].value);
        }
        proof {
            lemma_find_attr_skip(e.attributes@, name@, i as int);
        }
        i = i + 1;
    }
    assert(e.attributes@.skip(n as int) =~= Seq::<XmlAttribute>::empty());
    None
}

/// `err` says that the attribute `name` of `e` does not hold a value of its type.
pub open spec fn is_mismatch(err: ManifestError, e: XmlElement, name: Seq<char>) -> bool {
    match err {
        ManifestError::TypeMismatch { element, attribute, value } => {
            &&& element@ == e.name@
            &&& attribute@ == name
            &&& attr(e, name) == Some(value@)
        },
        _ => false,
    }
}

/// `err` says that the required attribute `name` of `e` is absent.
pub open spec fn is_missing(err: ManifestError, e: XmlElement, name: Seq<char>) -> bool {
    match err {
        ManifestError::SchemaViolation { element, field } => element@ == e.name@ && field@ == name,
        _ => false,
    }
}

pub(crate) fn mismatch(e: &XmlElement, name: &str, value: &String) -> (r: ManifestError)
    requires
        attr(*e, name@) == Some(value@),
    ensures
        is_mismatch(r, *e, name@),
{
    ManifestError::TypeMismatch {
        element: e.name.clone(),
        attribute: String::from_str(name),
        value: value.clone(),
    }
}

pub(crate) fn missing(e: &XmlElement, name: &str) -> (r: ManifestError)
    ensures
        is_missing(r, *e, name@),
{
    ManifestError::SchemaViolation { element: e.name.clone(), field: String::from_str(name) }
}

/// Reads a text attribute.
pub fn text_attr(e: &XmlElement, name: &str) -> (r: String)
    ensures
        r@ == text_value(*e, name@),
{
    match get_attribute(e, name) {
        Some(v) => v.clone(),
        None => String::new(),
    }
}

/// Reads an optional text attribute.
pub fn optional_text_attr(e: &XmlElement, name: &str) -> (r: Option<String>)
    ensures
        text_option(r) == attr(*e, name@),
{
    match get_attribute(e, name) {
        Some(v) => Some(v.clone()),
        None => None,
    }
}

/// Reads a text attribute that must be present.
pub fn required_text_attr(e: &XmlElement, name: &str) -> (r: Result<String, ManifestError>)
    ensures
        r is Ok <==> attr(*e, name@) is Some,
        r matches Ok(v) ==> attr(*e, name@) == Some(v@),
        r matches Err(err) ==> is_missing(err, *e, name@),
{
    match get_attribute(e, name) {
        Some(v) => Ok(v.clone()),
        None => Err(missing(e, name)),
    }
}

/// Reads an unsigned attribute.
pub fn u64_attr(e: &XmlElement, name: &str) -> (r: Result<u64, ManifestError>)
    ensures
        r is Ok <==> u64_value(*e, name@) is Some,
        r matches Ok(n) ==> u64_value(*e, name@) == Some(n),
        r matches Err(err) ==> is_mismatch(err, *e, name@),
{
    match get_attribute(e, name) {
        Some(v) => match parse_unsigned(v.as_str()) {
            Some(n) => Ok(n),
            None => Err(mismatch(e, name, v)),
        },
        None => Ok(0),
    }
}

/// Reads an unsigned attribute that must be present.
pub fn required_u64_attr(e: &XmlElement, name: &str) -> (r: Result<u64, ManifestError>)
    ensures
        r is Ok <==> (attr(*e, name@) is Some && u64_value(*e, name@) is Some),
        r matches Ok(n) ==> u64_value(*e, name@) == Some(n),
        r matches Err(err) ==> if attr(*e, name@) is Some {
            is_mismatch(err, *e, name@)
        } else {
            is_missing(err, *e, name@)
        },
{
    match get_attribute(e, name) {
        Some(v) => match parse_unsigned(v.as_str()) {
            Some(n) => Ok(n),
            None => Err(mismatch(e, name, v)),
        },
        None => Err(missing(e, name)),
    }
}

/// Reads an optional unsigned attribute.
pub fn optional_u64_attr(e: &XmlElement, name: &str) -> (r: Result<Option<u64>, ManifestError>)
    ensures
        r is Ok <==> (attr(*e, name@) is Some ==> u64_value(*e, name@) is Some),
        r matches Ok(v) ==> match v {
            Some(n) => attr(*e, name@) is Some && u64_value(*e, name@) == Some(n),
            None => attr(*e, name@) is None,
        },
        r matches Err(err) ==> is_mismatch(err, *e, name@),
{
    match get_attribute(e, name) {
        Some(v) => match parse_unsigned(v.as_str()) {
            Some(n) => Ok(Some(n)),
            None => Err(mismatch(e, name, v)),
        },
        None => Ok(None),
    }
}

/// Reads a stream access point class, from 0 to 6.
pub fn sap_attr(e: &XmlElement, name: &str) -> (r: Result<u8, ManifestError>)
    ensures
        r is Ok <==> sap_value(*e, name@) is Some,
        r matches Ok(n) ==> sap_value(*e, name@) == Some(n),
        r matches Err(err) ==> is_mismatch(err, *e, name@),
{
    match get_attribute(e, name) {
        Some(v) => match parse_unsigned(v.as_str()) {
            Some(n) => if n <= 6 {
                Ok(n as u8)
            } else {
                Err(mismatch(e, name, v))
            },
            None => Err(mismatch(e, name, v)),
        },
        None => Ok(0),
    }
}

/// Reads a boolean attribute.
pub fn bool_attr(e: &XmlElement, name: &str) -> (r: Result<bool, ManifestError>)
    ensures
        r is Ok <==> bool_value(*e, name@) is Some,
        r matches Ok(b) ==> bool_value(*e, name@) == Some(b),
        r matches Err(err) ==> is_mismatch(err, *e, name@),
{
    match get_attribute(e, name) {
        Some(v) => {
            let t = v.as_str();
            if same_text(t, "true") || same_text(t, "1") {
                Ok(true)
            } else if same_text(t, "false") || same_text(t, "0") {
                Ok(false)
            } else {
                Err(mismatch(e, name, v))
            }
        },
        None => Ok(false),
    }
}

/// Reads a tag list attribute.
pub fn tags_attr(e: &XmlElement, name: &str) -> (r: Vec<String>)
    ensures
        tokens_view(r@) == tags_value(*e, name@),
{
    match get_attribute(e, name) {
        Some(v) => tags::deserialize(v.as_str()),
        None => {
            let r: Vec<String> = Vec::new();
            assert(tokens_view(r@) =~= Seq::<Seq<char>>::empty());
            r
        },
    }
}

/// Reads a duration attribute.
pub fn duration_attr(e: &XmlElement, name: &str) -> (r: Result<Option<Duration>, ManifestError>)
    ensures
        r is Ok <==> duration_value(*e, name@) is Some,
        r matches Ok(d) ==> duration_value(*e, name@) == Some(duration_ms(d)),
        r matches Err(err) ==> err matches ManifestError::Duration(d) && attr(*e, name@) == Some(
            d.input@,
        ) && duration_of_text(d.input@) == Err::<int, DurationFault>(d.kind),
{
    match get_attribute(e, name) {
        Some(v) => match duration_iso_8601::deserialize(v.as_str()) {
            Ok(d) => Ok(d),
            Err(err) => Err(ManifestError::Duration(err)),
        },
        None => Ok(None),
    }
}

/// Reads a conditional integer attribute.
pub fn conditional_attr(e: &XmlElement, name: &str) -> (r: Result<ConditionalUint, ManifestError>)
    ensures
        r is Ok <==> conditional_value(*e, name@) is Some,
        r matches Ok(c) ==> conditional_value(*e, name@) == Some(c),
        r matches Err(err) ==> is_mismatch(err, *e, name@),
{
    match get_attribute(e, name) {
        Some(v) => match conditional_uint::deserialize(v.as_str()) {
            Ok(c) => Ok(c),
            Err(_) => Err(mismatch(e, name, v)),
        },
        None => Ok(ConditionalUint::Flag(false)),
    }
}

proof fn lemma_named_step(s: Seq<XmlElement>, name: Seq<char>, i: int)
    requires
        0 <= i < s.len(),
    ensures
        named(s.take(i + 1), name) == (if s[i].name@ == name {
            named(s.take(i), name).push(s[i])
        } else {
            named(s.take(i), name)
        }),
{
    assert(s.take(i + 1).drop_last() =~= s.take(i));
}

/// What is named in a prefix comes first in what is named in the whole.
proof fn lemma_named_prefix(s: Seq<XmlElement>, name: Seq<char>, k: int)
    requires
        0 <= k <= s.len(),
    ensures
        named(s.take(k), name).len() <= named(s, name).len(),
        forall|j: int|
            0 <= j < named(s.take(k), name).len() ==> named(s.take(k), name)[j] == named(
                s,
                name,
            )[j],
    decreases s.len() - k,
{
    if k == s.len() {
        assert(s.take(k) =~= s);
    } else {
        lemma_named_prefix(s, name, k + 1);
        lemma_named_step(s, name, k);
    }
}

/// Reads every child of `e` named `name`, in order.
pub fn collect_children<T: FromElement>(e: &XmlElement, name: &str) -> (r: Result<
    Vec<T>,
    ManifestError,
>)
    ensures
        r is Ok <==> all_valid::<T>(children_named(*e, name@)),
        r matches Ok(v) ==> maps_all(children_named(*e, name@), v@),
{
    let n = e.children.len();
    let mut out: Vec<T> = Vec::new();
    let mut i: usize = 0;
    let ghost all = children_named(*e, name@);
    assert(e.children@.take(0) =~= Seq::<XmlElement>::empty());
    while i < n
        invariant
            i <= n,
            n == e.children@.len(),
            all == children_named(*e, name@),
            all_valid::<T>(named(e.children@.take(i as int), name@)),
            maps_all(named(e.children@.take(i as int), name@), out@),
        decreases n - i,
    {
        proof {
            lemma_named_step(e.children@, name@, i as int);
        }
        let ghost before = named(e.children@.take(i as int), name@);
        if same_text(e.children[i].name.as_str(), name) {
            match T::from_element(&e.children[i]) {
                Ok(v) => {
                    out.push(v);
                },
                Err(err) => {
                    proof {
                        lemma_named_prefix(e.children@, name@, i + 1);
                        let k = before.len() as int;
                        assert(named(e.children@.take(i + 1), name@)[k] == e.children@[i as int]);
                        assert(all[k] == e.children@[i as int]);
                    }
                    return Err(err);
                },
            }
        }
        i = i + 1;
    }
    assert(e.children@.take(n as int) =~= e.children@);
    Ok(out)
}

/// Reads the first child of `e` named `name`, if there is one.
pub fn first_child<T: FromElement>(e: &XmlElement, name: &str) -> (r: Result<
    Option<T>,
    ManifestError,
>)
    ensures
        r is Ok <==> first_valid::<T>(children_named(*e, name@)),
        r matches Ok(v) ==> first_maps(children_named(*e, name@), v),
{
    let n = e.children.len();
    let mut i: usize = 0;
    assert(e.children@.take(0) =~= Seq::<XmlElement>::empty());
    while i < n
        invariant
            i <= n,
            n == e.children@.len(),
            named(e.children@.take(i as int), name@).len() == 0,
        decreases n - i,
    {
        proof {
            lemma_named_step(e.children@, name@, i as int);
        }
        if same_text(e.children[i].name.as_str(), name) {
            proof {
                lemma_named_prefix(e.children@, name@, i + 1);
                assert(named(e.children@.take(i + 1), name@)[0] == e.children@[i as int]);
            }
            return match T::from_element(&e.children[i]) {
                Ok(v) => Ok(Some(v)),
                Err(err) => Err(err),
            };
        }
        i = i + 1;
    }
    assert(e.children@.take(n as int) =~= e.children@);
    Ok(None)
}

pub open spec fn is_space(c: char) -> bool {
    c == ' ' || c == '\t' || c == '\n' || c == '\r'
}

/// The words of `s`: the longest runs of characters other than white space, in order.
pub open spec fn words(s: Seq<char>) -> Seq<Seq<char>>
    decreases s.len(),
{
    if s.len() == 0 {
        Seq::empty()
    } else {
        let prev = words(s.drop_last());
        let c = s.last();
        if is_space(c) {
            prev
        } else if s.len() >= 2 && !is_space(s[s.len() - 2]) {
            prev.update(prev.len() - 1, prev.last().push(c))
        } else {
            prev.push(seq![c])
        }
    }
}

pub proof fn lemma_words_nonempty(s: Seq<char>)
    ensures
        s.len() > 0 && !is_space(s.last()) ==> words(s).len() > 0,
    decreases s.len(),
{
    if s.len() > 0 {
        lemma_words_nonempty(s.drop_last());
    }
}

/// Cuts `s` into its words.
pub fn split_words(s: &str) -> (r: Vec<String>)
    ensures
        tokens_view(r@) == words(s@),
{
    let len = s.unicode_len();
    let mut done: Vec<String> = Vec::new();
    let mut cur = String::new();
    let mut i: usize = 0;
    assert(s@.take(0) =~= Seq::<char>::empty());
    assert(tokens_view(done@) =~= Seq::<Seq<char>>::empty());
    while i < len
        invariant
            i <= len,
            len == s@.len(),
            cur@.len() > 0 <==> (i > 0 && !is_space(s@[i - 1])),
            cur@.len() == 0 ==> tokens_view(done@) == words(s@.take(i as int)),
            cur@.len() > 0 ==> tokens_view(done@).push(cur@) == words(s@.take(i as int)),
        decreases len - i,
    {
        let c = s.get_char(i);
        let ghost t = s@.take(i + 1);
        assert(t.drop_last() =~= s@.take(i as int));
        assert(t.last() == c);
        proof {
            if i > 0 {
                assert(t[t.len() - 2] == s@[i - 1]);
            }
        }
        if c == ' ' || c == '\t' || c == '\n' || c == '\r' {
            if cur.unicode_len() > 0 {
                let word = cur;
                cur = String::new();
                done.push(word);
                assert(tokens_view(done@) =~= words(t));
            }
        } else {
            let ghost before = tokens_view(done@);
            let ghost old_cur = cur@;
            crate::text::push_char(&mut cur, c);
            proof {
                if i > 0 && !is_space(s@[i - 1]) {
                    assert(before.push(cur@) =~= words(t));
                } else {
                    assert(old_cur =~= Seq::<char>::empty());
                    assert(cur@ =~= seq![c]);
                    assert(before.push(cur@) =~= words(t));
                }
            }
        }
        i = i + 1;
    }
    assert(s@.take(len as int) =~= s@);
    if cur.unicode_len() > 0 {
        done.push(cur);
    }
    proof {
        assert(tokens_view(done@) =~= words(s@));
    }
    done
}

/// The numbers of a list of unsigned integers separated by white space; `None`
/// where a word is not a `u64`.
pub open spec fn u64_words(s: Seq<char>) -> Option<Seq<u64>> {
    let w = words(s);
    if forall|i: int| 0 <= i < w.len() ==> (#[trigger] unsigned_text_value(w[i])) is Some {
        Some(w.map_values(|t: Seq<char>| unsigned_text_value(t)->Some_0))
    } else {
        None
    }
}

/// A list of words attribute: absent is the empty list.
pub open spec fn words_value(e: XmlElement, name: Seq<char>) -> Seq<Seq<char>> {
    match attr(e, name) {
        Some(v) => words(v),
        None => Seq::empty(),
    }
}

/// A list of unsigned integers attribute: absent is the empty list.
pub open spec fn u64_list_value(e: XmlElement, name: Seq<char>) -> Option<Seq<u64>> {
    match attr(e, name) {
        Some(v) => u64_words(v),
        None => Some(Seq::empty()),
    }
}

/// Reads a list of words attribute.
pub fn words_attr(e: &XmlElement, name: &str) -> (r: Vec<String>)
    ensures
        tokens_view(r@) == words_value(*e, name@),
{
    match get_attribute(e, name) {
        Some(v) => split_words(v.as_str()),
        None => {
            let r: Vec<String> = Vec::new();
            assert(tokens_view(r@) =~= Seq::<Seq<char>>::empty());
            r
        },
    }
}

/// Reads a list of unsigned integers attribute.
pub fn u64_list_attr(e: &XmlElement, name: &str) -> (r: Result<Vec<u64>, ManifestError>)
    ensures
        r is Ok <==> u64_list_value(*e, name@) is Some,
        r matches Ok(v) ==> u64_list_value(*e, name@) == Some(v@),
        r matches Err(err) ==> is_mismatch(err, *e, name@),
{
    let v = match get_attribute(e, name) {
        Some(v) => v,
        None => {
            let r: Vec<u64> = Vec::new();
            assert(r@ =~= Seq::<u64>::empty());
            return Ok(r);
        },
    };
    let ws = split_words(v.as_str());
    let ghost w = words(v@);
    let mut out: Vec<u64> = Vec::new();
    let mut i: usize = 0;
    while i < ws.len()
        invariant
            i <= ws@.len(),
            tokens_view(ws@) == w,
            w == words(v@),
            attr(*e, name@) == Some(v@),
            out@.len() == i,
            forall|j: int| 0 <= j < i ==> unsigned_text_value(w[j]) == Some(#[trigger] out@[j]),
        decreases ws@.len() - i,
    {
        assert(w[i as int] == ws@[i as int]@);
        match parse_unsigned(ws[i].as_str()) {
            Some(n) => out.push(n),
            None => {
                assert(unsigned_text_value(w[i as int]) is None);
                return Err(mismatch(e, name, v));
            },
        }
        i = i + 1;
    }
    assert(ws@.len() == w.len());
    assert forall|i: int| 0 <= i < w.len() implies (#[trigger] unsigned_text_value(w[i])) is Some by {
        assert(unsigned_text_value(w[i]) == Some(out@[i]));
    }
    assert(out@ =~= w.map_values(|t: Seq<char>| unsigned_text_value(t)->Some_0));
    Ok(out)
}

/// The text inside the first child named `name`, or empty.
pub open spec fn child_text_value(e: XmlElement, name: Seq<char>) -> Seq<char> {
    let c = children_named(e, name);
    if c.len() > 0 {
        c[0].text@
    } else {
        Seq::empty()
    }
}

/// Reads the text inside the first child named `name`.
pub fn child_text(e: &XmlElement, name: &str) -> (r: String)
    ensures
        r@ == child_text_value(*e, name@),
{
    let n = e.children.len();
    let mut i: usize = 0;
    assert(e.children@.take(0) =~= Seq::<XmlElement>::empty());
    while i < n
        invariant
            i <= n,
            n == e.children@.len(),
            named(e.children@.take(i as int), name@).len() == 0,
        decreases n - i,
    {
        proof {
            lemma_named_step(e.children@, name@, i as int);
        }
        if same_text(e.children[i].name.as_str(), name) {
            proof {
                lemma_named_prefix(e.children@, name@, i + 1);
                assert(named(e.children@.take(i + 1), name@)[0] == e.children@[i as int]);
            }
            return e.children[i].text.clone();
        }
        i = i + 1;
    }
    assert(e.children@.take(n as int) =~= e.children@);
    String::new()
}

impl XmlElement {
    /// An element with no attribute, no child and no text.
    pub fn new(name: &str) -> (r: XmlElement)
        ensures
            r.name@ == name@,
            r.attributes@.len() == 0,
            r.children@.len() == 0,
            r.text@.len() == 0,
    {
        XmlElement {
            name: String::from_str(name),
            attributes: Vec::new(),
            children: Vec::new(),
            text: String::new(),
        }
    }

    /// Adds an attribute after the others.
    pub fn push_attribute(&mut self, name: &str, value: String)
        ensures
            final(self).name == old(self).name,
            final(self).children == old(self).children,
            final(self).text == old(self).text,
            final(self).attributes@.len() == old(self).attributes@.len() + 1,
            forall|i: int|
                0 <= i < old(self).attributes@.len() ==> final(self).attributes@[i] == old(
                    self,
                ).attributes@[i],
            final(self).attributes@.last().name@ == name@,
            final(self).attributes@.last().value@ == value@,
    {
        self.attributes.push(XmlAttribute { name: String::from_str(name), value });
    }

    /// Adds a child after the others.
    pub fn push_child(&mut self, child: XmlElement)
        ensures
            final(self).name == old(self).name,
            final(self).attributes == old(self).attributes,
            final(self).text == old(self).text,
            final(self).children@ == old(self).children@.push(child),
    {
        self.children.push(child);
    }
}

/// What ending the innermost open element does to a builder.
pub open spec fn ended(b: TreeBuilder, a: TreeBuilder) -> bool {
    let n = b.open@.len();
    if n == 0 {
        a.open@ == b.open@ && a.root == b.root && a.malformed
    } else if n == 1 {
        &&& a.open@.len() == 0
        &&& if b.root is None {
            a.root == Some(b.open@[0]) && a.malformed == b.malformed
        } else {
            a.root == b.root && a.malformed
        }
    } else {
        let parent = b.open@[n - 2];
        let new_parent = a.open@.last();
        &&& a.open@.len() == n - 1
        &&& a.open@.drop_last() == b.open@.take(n - 2)
        &&& new_parent.name == parent.name
        &&& new_parent.attributes == parent.attributes
        &&& new_parent.text == parent.text
        &&& new_parent.children@ == parent.children@.push(b.open@[n - 1])
        &&& a.root == b.root
        &&& a.malformed == b.malformed
    }
}

/// Assembles an element tree from the events of a document read in order: an
/// element starts, text, an element ends.
pub struct TreeBuilder {
    /// The elements that have started and not ended yet, outermost first.
    pub open: Vec<XmlElement>,
    /// The first top-level element that has ended.
    pub root: Option<XmlElement>,
    /// Whether a second top-level element, or an end without a start, was seen.
    pub malformed: bool,
}

impl TreeBuilder {
    pub fn new() -> (r: TreeBuilder)
        ensures
            r.open@.len() == 0,
            r.root is None,
            !r.malformed,
    {
        TreeBuilder { open: Vec::new(), root: None, malformed: false }
    }

    /// An element starts: it becomes the innermost open element.
    pub fn start(&mut self, e: XmlElement)
        ensures
            final(self).open@ == old(self).open@.push(e),
            final(self).root == old(self).root,
            final(self).malformed == old(self).malformed,
    {
        self.open.push(e);
    }

    /// Text inside the innermost open element is added to its text; text outside
    /// every element is ignored.
    pub fn text(&mut self, t: &str)
        ensures
            final(self).root == old(self).root,
            final(self).malformed == old(self).malformed,
            old(self).open@.len() == 0 ==> final(self).open@ == old(self).open@,
            old(self).open@.len() > 0 ==> {
                let top = old(self).open@.last();
                let new_top = final(self).open@.last();
                &&& final(self).open@.drop_last() == old(self).open@.drop_last()
                &&& final(self).open@.len() == old(self).open@.len()
                &&& new_top.name == top.name
                &&& new_top.attributes == top.attributes
                &&& new_top.children == top.children
                &&& new_top.text@ == top.text@ + t@
            },
    {
        match self.open.pop() {
            Some(mut top) => {
                top.text.append(t);
                self.open.push(top);
            },
            None => {},
        }
    }

    /// The innermost open element ends: it becomes the last child of the element
    /// around it, or, at the top, the root.
    pub fn end(&mut self)
        ensures
            ended(*old(self), *final(self)),
    {
        let ghost before = self.open@;
        match self.open.pop() {
            None => {
                self.malformed = true;
            },
            Some(top) => {
                match self.open.pop() {
                    Some(mut parent) => {
                        parent.children.push(top);
                        self.open.push(parent);
                        assert(self.open@.drop_last() =~= before.take(before.len() - 2));
                    },
                    None => {
                        if self.root.is_none() {
                            self.root = Some(top);
                        } else {
                            self.malformed = true;
                        }
                    },
                }
            },
        }
    }

    /// The tree, where exactly one top-level element started and ended and
    /// nothing is left open.
    pub fn finish(self) -> (r: Option<XmlElement>)
        ensures
            r == (if self.open@.len() == 0 && !self.malformed {
                self.root
            } else {
                None
            }),
    {
        if self.open.len() == 0 && !self.malformed {
            self.root
        } else {
            None
        }
    }
}

} // verus!
