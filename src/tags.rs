//! The tag list codec: a list of tokens joined by commas, with no escaping.
use crate::text::push_char;
use vstd::prelude::*;
use vstd::string::*;

verus! {

/// What a list of strings holds, as sequences of characters.
pub open spec fn tokens_view(v: Seq<String>) -> Seq<Seq<char>> {
    v.map_values(|t: String| t@)
}

/// `s` cut at every comma; the empty text gives one empty token.
pub open spec fn split_on_comma(s: Seq<char>) -> Seq<Seq<char>>
    decreases s.len(),
{
    if s.len() == 0 {
        seq![Seq::empty()]
    } else {
        let prev = split_on_comma(s.drop_last());
        if s.last() == ',' {
            prev.push(Seq::empty())
        } else {
            prev.update(prev.len() - 1, prev.last().push(s.last()))
        }
    }
}

/// The tokens with a comma between each two.
pub open spec fn join_with_comma(l: Seq<Seq<char>>) -> Seq<char>
    decreases l.len(),
{
    if l.len() == 0 {
        Seq::empty()
    } else if l.len() == 1 {
        l[0]
    } else {
        join_with_comma(l.drop_last()) + seq![','] + l.last()
    }
}

pub open spec fn has_no_comma(t: Seq<char>) -> bool {
    forall|i: int| 0 <= i < t.len() ==> t[i] != ','
}

pub proof fn lemma_split_len(s: Seq<char>)
    ensures
        split_on_comma(s).len() >= 1,
    decreases s.len(),
{
    if s.len() > 0 {
        lemma_split_len(s.drop_last());
    }
}

/// No token of a cut text holds a comma.
pub proof fn lemma_split_has_no_comma(s: Seq<char>)
    ensures
        forall|i: int|
            0 <= i < split_on_comma(s).len() ==> has_no_comma(#[trigger] split_on_comma(s)[i]),
    decreases s.len(),
{
    if s.len() > 0 {
        lemma_split_has_no_comma(s.drop_last());
        lemma_split_len(s.drop_last());
        let prev = split_on_comma(s.drop_last());
        if s.last() != ',' {
            let t = prev.last();
            assert(has_no_comma(prev[prev.len() - 1]));
            assert(has_no_comma(t.push(s.last())));
        }
    }
}

/// After a comma, a text without commas is the last token.
proof fn lemma_split_after_comma(a: Seq<char>, b: Seq<char>)
    requires
        has_no_comma(b),
    ensures
        split_on_comma(a + seq![','] + b) == split_on_comma(a).push(b),
    decreases b.len(),
{
    let x = a + seq![','];
    assert(x.drop_last() =~= a);
    if b.len() == 0 {
        assert(x + b =~= x);
        assert(b =~= Seq::<char>::empty());
        assert(x.last() == ',');
        assert(split_on_comma(x) =~= split_on_comma(a).push(b));
    } else {
        let b2 = b.drop_last();
        lemma_split_after_comma(a, b2);
        assert((x + b).drop_last() =~= x + b2);
        assert((x + b).last() == b.last());
        lemma_split_len(x + b2);
        assert(b2.push(b.last()) =~= b);
        assert(split_on_comma(x + b) =~= split_on_comma(a).push(b));
    }
}

/// A text without commas is a single token.
proof fn lemma_split_single(b: Seq<char>)
    requires
        has_no_comma(b),
    ensures
        split_on_comma(b) == seq![b],
    decreases b.len(),
{
    if b.len() == 0 {
        assert(b =~= Seq::<char>::empty());
    } else {
        let b2 = b.drop_last();
        lemma_split_single(b2);
        assert(b2.push(b.last()) =~= b);
        assert(split_on_comma(b) =~= seq![b]);
    }
}

/// Joining a non-empty list of tokens without commas and cutting the text again
/// gives back the list.
pub proof fn lemma_join_then_split(l: Seq<Seq<char>>)
    requires
        l.len() >= 1,
        forall|i: int| 0 <= i < l.len() ==> has_no_comma(#[trigger] l[i]),
    ensures
        split_on_comma(join_with_comma(l)) == l,
    decreases l.len(),
{
    if l.len() == 1 {
        lemma_split_single(l[0]);
        assert(seq![l[0]] =~= l);
    } else {
        let l2 = l.drop_last();
        lemma_join_then_split(l2);
        assert(has_no_comma(l[l.len() - 1]));
        lemma_split_after_comma(join_with_comma(l2), l.last());
        assert(l2.push(l.last()) =~= l);
    }
}

/// Cuts a tag list at every comma, keeping empty tokens and their order.
pub fn deserialize(s: &str) -> (r: Vec<String>)
    ensures
        tokens_view(r@) == split_on_comma(s@),
{
    let len = s.unicode_len();
    let mut done: Vec<String> = Vec::new();
    let mut cur = String::new();
    let mut i: usize = 0;
    assert(s@.take(0) =~= Seq::<char>::empty());
    while i < len
        invariant
            i <= len,
            len == s@.len(),
            tokens_view(done@).push(cur@) == split_on_comma(s@.take(i as int)),
        decreases len - i,
    {
        let c = s.get_char(i);
        let ghost prev = split_on_comma(s@.take(i as int));
        assert(s@.take(i + 1).drop_last() =~= s@.take(i as int));
        assert(s@.take(i + 1).last() == c);
        if c == ',' {
            let old_cur = cur;
            cur = String::new();
            done.push(old_cur);
            assert(tokens_view(done@).push(cur@) =~= prev.push(Seq::empty()));
        } else {
            push_char(&mut cur, c);
            assert(tokens_view(done@).push(cur@) =~= prev.update(
                prev.len() - 1,
                prev.last().push(c),
            ));
        }
        i = i + 1;
    }
    done.push(cur);
    assert(s@.take(len as int) =~= s@);
    assert(tokens_view(done@) =~= split_on_comma(s@));
    done
}

/// Joins the tokens with commas.
pub fn serialize(tags: &Vec<String>) -> (r: String)
    ensures
        r@ == join_with_comma(tokens_view(tags@)),
{
    let mut out = String::new();
    let n = tags.len();
    if n == 0 {
        return out;
    }
    out.append(tags[0].as_str());
    let mut i: usize = 1;
    assert(tokens_view(tags@).take(1) =~= seq![tags@[0]@]);
    while i < n
        invariant
            1 <= i <= n,
            n == tags@.len(),
            out@ == join_with_comma(tokens_view(tags@).take(i as int)),
        decreases n - i,
    {
        let ghost l = tokens_view(tags@).take(i + 1);
        assert(l.drop_last() =~= tokens_view(tags@).take(i as int));
        push_char(&mut out, ',');
        out.append(tags[i].as_str());
        assert(out@ =~= join_with_comma(l));
        i = i + 1;
    }
    assert(tokens_view(tags@).take(n as int) =~= tokens_view(tags@));
    out
}

} // verus!
