//! Model lists reported by the secondary backend: the ids a response names,
//! and the sorted list without blanks or repeats.

use vstd::prelude::*;
use crate::control::{blank, is_blank};

verus! {

/// One element of a model list.
pub enum ModelItem {
    Text(String),
    /// An object; `id` and `name` hold the fields of those names that are
    /// strings.
    Entry { id: Option<String>, name: Option<String> },
    Other,
}

/// The `models` field of a response object.
pub enum ModelsField {
    List(Vec<ModelItem>),
    Single(ModelItem),
}

/// A model-list response body.
pub enum ModelsPayload {
    List(Vec<ModelItem>),
    /// `data` holds the field of that name when it is an array.
    Object { data: Option<Vec<ModelItem>>, models: Option<ModelsField> },
    Other,
}

pub open spec fn views(v: Seq<String>) -> Seq<Seq<char>> {
    v.map_values(|s: String| s@)
}

/// The id an item names: a string itself, else an object's `id`, else its
/// `name`.
pub open spec fn item_ids(item: ModelItem) -> Seq<Seq<char>> {
    match item {
        ModelItem::Text(s) => seq![s@],
        ModelItem::Entry { id: Some(i), name: _ } => seq![i@],
        ModelItem::Entry { id: None, name: Some(n) } => seq![n@],
        _ => Seq::empty(),
    }
}

pub open spec fn items_ids(items: Seq<ModelItem>) -> Seq<Seq<char>>
    decreases items.len(),
{
    if items.len() == 0 {
        Seq::empty()
    } else {
        items_ids(items.drop_last()) + item_ids(items.last())
    }
}

pub open spec fn payload_ids(p: ModelsPayload) -> Seq<Seq<char>> {
    match p {
        ModelsPayload::List(items) => items_ids(items@),
        ModelsPayload::Object { data, models } => {
            let d = match data {
                Some(items) => items_ids(items@),
                None => Seq::empty(),
            };
            let m = match models {
                Some(ModelsField::List(items)) => items_ids(items@),
                Some(ModelsField::Single(item)) => item_ids(item),
                None => Seq::empty(),
            };
            d + m
        },
        ModelsPayload::Other => Seq::empty(),
    }
}

/// The order of `str`'s `Ord`: lexicographic by code point.
pub open spec fn str_lt(a: Seq<char>, b: Seq<char>) -> bool
    decreases a.len(),
{
    if a.len() == 0 {
        b.len() > 0
    } else if b.len() == 0 {
        false
    } else if a[0] != b[0] {
        a[0] < b[0]
    } else {
        str_lt(a.drop_first(), b.drop_first())
    }
}

/// Strictly increasing, hence free of repeats.
pub open spec fn strictly_sorted(v: Seq<Seq<char>>) -> bool {
    forall|i: int, j: int| 0 <= i < j < v.len() ==> str_lt(#[trigger] v[i], #[trigger] v[j])
}

pub open spec fn holds(v: Seq<Seq<char>>, x: Seq<char>) -> bool {
    exists|i: int| 0 <= i < v.len() && v[i] == x
}

proof fn lemma_lt_transitive(a: Seq<char>, b: Seq<char>, c: Seq<char>)
    requires
        str_lt(a, b),
        str_lt(b, c),
    ensures
        str_lt(a, c),
    decreases a.len(),
{
    if a.len() > 0 && b.len() > 0 && c.len() > 0 && a[0] == b[0] && b[0] == c[0] {
        lemma_lt_transitive(a.drop_first(), b.drop_first(), c.drop_first());
    }
}

proof fn lemma_lt_total(a: Seq<char>, b: Seq<char>)
    requires
        a != b,
    ensures
        str_lt(a, b) || str_lt(b, a),
    decreases a.len(),
{
    if a.len() > 0 && b.len() > 0 && a[0] == b[0] {
        if a.drop_first() == b.drop_first() {
            assert(a =~= seq![a[0]] + a.drop_first());
            assert(b =~= seq![b[0]] + b.drop_first());
        }
        lemma_lt_total(a.drop_first(), b.drop_first());
    } else if a.len() == 0 && b.len() == 0 {
        assert(a =~= b);
    }
}

/// Whether `a` orders before `b`.
pub fn str_less(a: &str, b: &str) -> (r: bool)
    ensures
        r == str_lt(a@, b@),
{
    let la = a.unicode_len();
    let lb = b.unicode_len();
    let mut i: usize = 0;
    assert(a@.subrange(0, la as int) =~= a@);
    assert(b@.subrange(0, lb as int) =~= b@);
    while i < la && i < lb
        invariant
            la == a@.len(),
            lb == b@.len(),
            i <= la,
            i <= lb,
            str_lt(a@, b@) == str_lt(a@.subrange(i as int, la as int), b@.subrange(i as int, lb as int)),
        decreases la - i,
    {
        let ca = a.get_char(i);
        let cb = b.get_char(i);
        let ghost sa = a@.subrange(i as int, la as int);
        let ghost sb = b@.subrange(i as int, lb as int);
        assert(sa[0] == ca && sb[0] == cb);
        if ca != cb {
            return ca < cb;
        }
        assert(sa.drop_first() =~= a@.subrange(i + 1, la as int));
        assert(sb.drop_first() =~= b@.subrange(i + 1, lb as int));
        i = i + 1;
    }
    i < lb
}

/// Adds `s` to a strictly sorted list, unless it is already there.
fn insert_sorted(v: &mut Vec<String>, s: String)
    requires
        strictly_sorted(views(old(v)@)),
    ensures
        strictly_sorted(views(final(v)@)),
        forall|x: Seq<char>| #![trigger holds(views(final(v)@), x)] holds(views(final(v)@), x) <==> (holds(views(old(v)@), x) || x == s@),
{
    let ghost before = views(v@);
    let mut j: usize = 0;
    while j < v.len() && str_less(v[j].as_str(), s.as_str())
        invariant
            j <= v@.len(),
            v@ == old(v)@,
            before == views(v@),
            forall|k: int| 0 <= k < j ==> str_lt(#[trigger] before[k], s@),
        decreases v@.len() - j,
    {
        j = j + 1;
    }
    if j < v.len() && v[j] == s {
        proof {
            assert forall|x: Seq<char>| holds(views(v@), x) <==> (holds(before, x) || x == s@) by {
                if x == s@ {
                    assert(before[j as int] == s@);
                }
            }
        }
        return;
    }
    proof {
        if j < v@.len() {
            assert(!str_lt(before[j as int], s@));
            assert(before[j as int] != s@);
            lemma_lt_total(before[j as int], s@);
            assert forall|k: int| j <= k < before.len() implies str_lt(s@, #[trigger] before[k]) by {
                if k > j {
                    lemma_lt_transitive(s@, before[j as int], before[k]);
                }
            }
        }
    }
    let ghost sv = s@;
    v.insert(j, s);
    proof {
        let after = views(v@);
        assert(after =~= before.insert(j as int, sv));
        assert forall|p: int, q: int| 0 <= p < q < after.len() implies str_lt(#[trigger] after[p], #[trigger] after[q]) by {
            if q < j {
                assert(str_lt(before[p], before[q]));
            } else if q == j {
                assert(str_lt(before[p], sv));
            } else if p < j {
                assert(after[q] == before[q - 1]);
                assert(str_lt(before[p], before[q - 1]));
            } else if p == j {
                assert(after[q] == before[q - 1]);
            } else {
                assert(str_lt(before[p - 1], before[q - 1]));
            }
        }
        assert forall|x: Seq<char>| holds(after, x) <==> (holds(before, x) || x == sv) by {
            if holds(after, x) {
                let i = choose|i: int| 0 <= i < after.len() && after[i] == x;
                if i < j {
                    assert(before[i] == x);
                } else if i > j {
                    assert(before[i - 1] == x);
                }
            }
            if holds(before, x) {
                let i = choose|i: int| 0 <= i < before.len() && before[i] == x;
                if i < j {
                    assert(after[i] == x);
                } else {
                    assert(after[i + 1] == x);
                }
            }
            if x == sv {
                assert(after[j as int] == x);
            }
        }
    }
}

/// The non-blank ids of `ids`, sorted, each once.
pub fn normalize_model_ids(ids: Vec<String>) -> (r: Vec<String>)
    ensures
        strictly_sorted(views(r@)),
        forall|x: Seq<char>| #![trigger holds(views(r@), x)] holds(views(r@), x) <==> (holds(views(ids@), x) && !is_blank(x)),
{
    let mut out: Vec<String> = Vec::new();
    let mut i: usize = 0;
    while i < ids.len()
        invariant
            i <= ids@.len(),
            strictly_sorted(views(out@)),
            forall|x: Seq<char>| #![trigger holds(views(out@), x)] holds(views(out@), x) <==> (holds(views(ids@.subrange(0, i as int)), x) && !is_blank(x)),
        decreases ids@.len() - i,
    {
        let ghost pre = views(ids@.subrange(0, i as int));
        let ghost next = views(ids@.subrange(0, i + 1));
        proof {
            assert(next =~= pre.push(ids@[i as int]@));
            assert forall|x: Seq<char>| holds(next, x) <==> (holds(pre, x) || x == ids@[i as int]@) by {
                if holds(next, x) {
                    let k = choose|k: int| 0 <= k < next.len() && next[k] == x;
                    if k < pre.len() {
                        assert(pre[k] == x);
                    }
                }
                if holds(pre, x) {
                    let k = choose|k: int| 0 <= k < pre.len() && pre[k] == x;
                    assert(next[k] == x);
                }
                if x == ids@[i as int]@ {
                    assert(next[i as int] == x);
                }
            }
        }
        let ghost prev_out = views(out@);
        let ghost cur = ids@[i as int]@;
        if !blank(ids[i].as_str()) {
            insert_sorted(&mut out, ids[i].clone());
        }
        proof {
            assert forall|x: Seq<char>| holds(views(out@), x) <==> (holds(next, x) && !is_blank(x)) by {
                if x == cur {
                    if !is_blank(x) {
                        assert(holds(views(out@), x));
                    }
                } else {
                    assert(holds(views(out@), x) <==> holds(prev_out, x));
                }
            }
        }
        i = i + 1;
    }
    assert(ids@.subrange(0, ids@.len() as int) =~= ids@);
    out
}

fn push_item_ids(out: &mut Vec<String>, item: &ModelItem)
    ensures
        views(final(out)@) == views(old(out)@) + item_ids(*item),
{
    let ghost before = out@;
    match item {
        ModelItem::Text(s) => out.push(s.clone()),
        ModelItem::Entry { id: Some(i), name: _ } => out.push(i.clone()),
        ModelItem::Entry { id: None, name: Some(n) } => out.push(n.clone()),
        _ => {},
    }
    assert(views(out@) =~= views(before) + item_ids(*item));
}

fn push_items_ids(out: &mut Vec<String>, items: &Vec<ModelItem>)
    ensures
        views(final(out)@) == views(old(out)@) + items_ids(items@),
{
    let mut i: usize = 0;
    while i < items.len()
        invariant
            i <= items@.len(),
            views(out@) == views(old(out)@) + items_ids(items@.subrange(0, i as int)),
        decreases items@.len() - i,
    {
        assert(items@.subrange(0, i + 1).drop_last() =~= items@.subrange(0, i as int));
        push_item_ids(out, &items[i]);
        assert(views(out@) =~= views(old(out)@) + items_ids(items@.subrange(0, i + 1)));
        i = i + 1;
    }
    assert(items@.subrange(0, items@.len() as int) =~= items@);
}

/// Every model id a response names, in order of appearance: the elements of
/// a list, or of an object's `data` array and then its `models` field.
pub fn extract_model_ids(value: &ModelsPayload) -> (r: Vec<String>)
    ensures
        views(r@) == payload_ids(*value),
{
    let mut out: Vec<String> = Vec::new();
    assert(views(out@) =~= Seq::<Seq<char>>::empty());
    match value {
        ModelsPayload::List(items) => push_items_ids(&mut out, items),
        ModelsPayload::Object { data, models } => {
            if let Some(items) = data {
                push_items_ids(&mut out, items);
            }
            match models {
                Some(ModelsField::List(items)) => push_items_ids(&mut out, items),
                Some(ModelsField::Single(item)) => push_item_ids(&mut out, item),
                None => {},
            }
        },
        ModelsPayload::Other => {},
    }
    assert(views(out@) =~= payload_ids(*value));
    out
}

/// The model list a response reports: its ids without blanks, sorted, each
/// once.
pub fn model_list(value: &ModelsPayload) -> (r: Vec<String>)
    ensures
        strictly_sorted(views(r@)),
        forall|x: Seq<char>| #![trigger holds(views(r@), x)] holds(views(r@), x) <==> (holds(payload_ids(*value), x) && !is_blank(x)),
{
    let ids = extract_model_ids(value);
    let ghost found = views(ids@);
    let r = normalize_model_ids(ids);
    assert forall|x: Seq<char>| holds(views(r@), x) <==> (holds(payload_ids(*value), x) && !is_blank(x)) by {
        assert(found == payload_ids(*value));
    }
    r
}

} // verus!
