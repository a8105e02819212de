//! Differences of attributes, inline styles and listened events of one element.

use std::rc::Rc;
use vstd::prelude::*;

use crate::diff_spec::{attrs_changes, changed_entries, dropped_keys, event_changes, style_changes};
use crate::dom_change::{changes_view, text_set, ChangeView, DomChange};
use crate::node::{attrs_view, clone_coords, clone_path, coord_view, events_view, RespoCoord};
use crate::pairs::{find_last_key, is_last_key_at, last_before, last_wins, lemma_last_wins_contains, lemma_last_wins_value};

verus! {

/// The key texts occurring in a list of pairs.
pub open spec fn key_texts<X>(v: Seq<(String, X)>) -> Set<Seq<char>> {
    Set::new(|k: Seq<char>| exists|j: int| 0 <= j < v.len() && v[j].0@ == k)
}

pub proof fn lemma_attrs_keys(v: Seq<(String, String)>)
    ensures
        last_wins(attrs_view(v)).dom() == key_texts(v),
{
    assert forall|k: Seq<char>| last_wins(attrs_view(v)).dom().contains(k) <==> key_texts(v).contains(k) by {
        lemma_last_wins_contains(attrs_view(v), k);
        if key_texts(v).contains(k) {
            let j = choose|j: int| 0 <= j < v.len() && v[j].0@ == k;
            assert(attrs_view(v)[j].0 == k);
        }
    }
    assert(last_wins(attrs_view(v)).dom() =~= key_texts(v));
}

pub proof fn lemma_events_keys<L: ?Sized>(v: Seq<(String, Rc<L>)>)
    ensures
        last_wins(events_view(v)).dom() == key_texts(v),
{
    assert forall|k: Seq<char>| last_wins(events_view(v)).dom().contains(k) <==> key_texts(v).contains(k) by {
        lemma_last_wins_contains(events_view(v), k);
        if key_texts(v).contains(k) {
            let j = choose|j: int| 0 <= j < v.len() && v[j].0@ == k;
            assert(events_view(v)[j].0 == k);
        }
    }
    assert(last_wins(events_view(v)).dom() =~= key_texts(v));
}

pub proof fn lemma_last_index_exists<V>(s: Seq<(Seq<char>, V)>, k: Seq<char>, j: int)
    requires
        0 <= j < s.len(),
        s[j].0 == k,
    ensures
        exists|i: int| j <= i && #[trigger] is_last_key_at(s, k, i),
    decreases s.len() - j,
{
    if exists|i: int| j < i < s.len() && s[i].0 == k {
        let i = choose|i: int| j < i < s.len() && s[i].0 == k;
        lemma_last_index_exists(s, k, i);
    } else {
        assert(is_last_key_at(s, k, j));
    }
}

pub proof fn lemma_text_set_push(v: Seq<String>, s: String)
    ensures
        text_set(v.push(s)) == text_set(v).insert(s@),
{
    assert(v.push(s).map_values(|x: String| x@) =~= v.map_values(|x: String| x@).push(s@));
    v.map_values(|x: String| x@).lemma_push_to_set_commute(s@);
}

pub proof fn lemma_text_set_len(v: Seq<String>)
    ensures
        (v.len() == 0) == (text_set(v) == Set::<Seq<char>>::empty()),
{
    if v.len() == 0 {
        assert(text_set(v) =~= Set::<Seq<char>>::empty());
    } else {
        assert(v.map_values(|x: String| x@)[0] == v[0]@);
        assert(text_set(v).contains(v[0]@));
    }
}

/// The key texts of `a` that do not occur in `b`.
pub fn keys_not_in<X, Y>(a: &Vec<(String, X)>, b: &Vec<(String, Y)>) -> (r: Vec<String>)
    ensures
        text_set(r@) == key_texts(a@).difference(key_texts(b@)),
{
    let mut r: Vec<String> = Vec::new();
    let mut i: usize = 0;
    while i < a.len()
        invariant
            i <= a@.len(),
            forall|k: Seq<char>|
                text_set(r@).contains(k) <==> (exists|j: int| 0 <= j < i && a@[j].0@ == k) && !key_texts(
                    b@,
                ).contains(k),
        decreases a@.len() - i,
    {
        let found = find_last_key(b, &a[i].0);
        let ghost before = r@;
        if found.is_none() {
            r.push(a[i].0.clone());
            proof {
                lemma_text_set_push(before, a@[i as int].0);
            }
        }
        proof {
            assert forall|k: Seq<char>|
                text_set(r@).contains(k) <==> (exists|j: int| 0 <= j < i + 1 && a@[j].0@ == k) && !key_texts(
                    b@,
                ).contains(k) by {
                if (exists|j: int| 0 <= j < i + 1 && a@[j].0@ == k) && !(exists|j: int| 0 <= j < i && a@[j].0@ == k) {
                    assert(a@[i as int].0@ == k);
                }
                if key_texts(b@).contains(k) && k == a@[i as int].0@ {
                    let j = choose|j: int| 0 <= j < b@.len() && b@[j].0@ == k;
                    assert(b@[j].0@ == a@[i as int].0@);
                }
            }
        }
        i = i + 1;
    }
    assert(text_set(r@) =~= key_texts(a@).difference(key_texts(b@)));
    r
}

/// The entries of `new` that are absent from `old` or have another value there,
/// and the keys of `old` absent from `new`, both read as maps.
pub fn pairs_delta(new: &Vec<(String, String)>, old: &Vec<(String, String)>) -> (r: (
    Vec<(String, String)>,
    Vec<String>,
))
    ensures
        last_wins(attrs_view(r.0@)) == changed_entries(last_wins(attrs_view(new@)), last_wins(attrs_view(old@))),
        text_set(r.1@) == dropped_keys(last_wins(attrs_view(new@)), last_wins(attrs_view(old@))),
        (r.0@.len() == 0) == (changed_entries(last_wins(attrs_view(new@)), last_wins(attrs_view(old@)))
            == Map::<Seq<char>, Seq<char>>::empty()),
{
    let ghost nv = attrs_view(new@);
    let ghost ov = attrs_view(old@);
    let ghost nm = last_wins(nv);
    let ghost om = last_wins(ov);
    let ghost cm = changed_entries(nm, om);
    let mut added: Vec<(String, String)> = Vec::new();
    let mut i: usize = 0;
    while i < new.len()
        invariant
            i <= new@.len(),
            nv == attrs_view(new@),
            ov == attrs_view(old@),
            nm == last_wins(nv),
            om == last_wins(ov),
            cm == changed_entries(nm, om),
            forall|k: Seq<char>|
                #![trigger last_wins(attrs_view(added@)).contains_key(k)]
                #![trigger last_before(nv, k, i as int)]
                last_wins(attrs_view(added@)).contains_key(k) <==> cm.contains_key(k) && last_before(nv, k, i as int),
            forall|k: Seq<char>|
                last_wins(attrs_view(added@)).contains_key(k) ==> #[trigger] last_wins(attrs_view(added@))[k]
                    == nm[k],
            (added@.len() == 0) ==> last_wins(attrs_view(added@)) == Map::<Seq<char>, Seq<char>>::empty(),
            (added@.len() > 0) ==> last_wins(attrs_view(added@)).contains_key(attrs_view(added@).last().0),
        decreases new@.len() - i,
    {
        let ghost k = new@[i as int].0@;
        let ghost before = added@;
        let ghost mut pushed = false;
        let last = find_last_key(new, &new[i].0);
        let is_last = match last {
            Some(j) => j == i,
            None => false,
        };
        proof {
            assert(nv[i as int].0 == k);
            if is_last {
                assert(is_last_key_at(nv, k, i as int));
                lemma_last_wins_value(nv, k, i as int);
            }
        }
        if is_last {
            let changed = match find_last_key(old, &new[i].0) {
                Some(j) => {
                    proof {
                        assert(is_last_key_at(ov, k, j as int));
                        lemma_last_wins_value(ov, k, j as int);
                    }
                    old[j].1 != new[i].1
                },
                None => {
                    proof {
                        lemma_last_wins_contains(ov, k);
                        if om.contains_key(k) {
                            let j = choose|j: int| 0 <= j < ov.len() && ov[j].0 == k;
                            assert(old@[j].0@ == k);
                        }
                    }
                    true
                },
            };
            proof {
                assert(changed == cm.contains_key(k));
            }
            if changed {
                added.push((new[i].0.clone(), new[i].1.clone()));
                proof {
                    pushed = true;
                    assert(attrs_view(added@) =~= attrs_view(before).push((k, nv[i as int].1)));
                    assert(attrs_view(added@).drop_last() =~= attrs_view(before));
                    assert(last_wins(attrs_view(added@)) == last_wins(attrs_view(before)).insert(k, nm[k]));
                }
            }
        }
        proof {
            let a0 = last_wins(attrs_view(before));
            let a1 = last_wins(attrs_view(added@));
            let n = i as int;
            if !pushed {
                assert(added@ == before);
            }
            assert forall|key: Seq<char>|
                #![trigger a1.contains_key(key)]
                #![trigger last_before(nv, key, n + 1)]
                a1.contains_key(key) <==> cm.contains_key(key) && last_before(nv, key, n + 1) by {
                if key != k {
                    if last_before(nv, key, n + 1) {
                        let j = choose|j: int| 0 <= j < n + 1 && #[trigger] is_last_key_at(nv, key, j);
                        assert(j != n);
                        assert(last_before(nv, key, n));
                    }
                    if last_before(nv, key, n) {
                        let j = choose|j: int| 0 <= j < n && #[trigger] is_last_key_at(nv, key, j);
                        assert(is_last_key_at(nv, key, j));
                    }
                    assert(a1.contains_key(key) == a0.contains_key(key));
                } else if pushed {
                    assert(is_last_key_at(nv, key, n));
                } else {
                    assert(a0.contains_key(key) == (cm.contains_key(key) && last_before(nv, key, n)));
                    if last_before(nv, key, n) {
                        let j = choose|j: int| 0 <= j < n && #[trigger] is_last_key_at(nv, key, j);
                        assert(nv[n].0 == key);
                        assert(false);
                    }
                    assert(!a0.contains_key(key));
                    assert(a1 == a0);
                    if cm.contains_key(key) && last_before(nv, key, n + 1) {
                        let j = choose|j: int| 0 <= j < n + 1 && #[trigger] is_last_key_at(nv, key, j);
                        if j < n {
                            assert(nv[n].0 == key);
                        } else {
                            match last {
                                Some(jj) => {
                                    assert(nv[jj as int].0 == key);
                                    assert(jj as int >= n);
                                },
                                None => {},
                            }
                        }
                    }
                }
            }
        }
        i = i + 1;
    }
    proof {
        assert forall|k: Seq<char>| cm.contains_key(k) implies last_before(nv, k, new@.len() as int) by {
            lemma_last_wins_contains(nv, k);
            let j = choose|j: int| 0 <= j < nv.len() && nv[j].0 == k;
            lemma_last_index_exists(nv, k, j);
        }
        assert(last_wins(attrs_view(added@)) =~= cm);
    }
    let removed = keys_not_in(old, new);
    proof {
        lemma_attrs_keys(new@);
        lemma_attrs_keys(old@);
        assert(text_set(removed@) =~= dropped_keys(nm, om));
    }
    (added, removed)
}

fn push_pairs_change<L: ?Sized, E: ?Sized>(
    is_style: bool,
    set: Vec<(String, String)>,
    unset: Vec<String>,
    coord: &[RespoCoord],
    dom_path: &[u32],
    changes: &mut Vec<DomChange<L, E>>,
)
    ensures
        changes_view(final(changes)@) == changes_view(old(changes)@).push(
            if is_style {
                ChangeView::<L, E>::ModifyStyle {
                    coord: coord_view(coord@),
                    dom_path: dom_path@,
                    set: last_wins(attrs_view(set@)),
                    unset: text_set(unset@),
                }
            } else {
                ChangeView::<L, E>::ModifyAttrs {
                    coord: coord_view(coord@),
                    dom_path: dom_path@,
                    set: last_wins(attrs_view(set@)),
                    unset: text_set(unset@),
                }
            },
        ),
{
    let c = if is_style {
        DomChange::ModifyStyle { coord: clone_coords(coord), dom_path: clone_path(dom_path), set, unset }
    } else {
        DomChange::ModifyAttrs { coord: clone_coords(coord), dom_path: clone_path(dom_path), set, unset }
    };
    let ghost before = changes@;
    changes.push(c);
    assert(changes_view(changes@) =~= changes_view(before).push(c@));
}

/// Records the attribute change of an element, if any.
pub fn diff_attrs<L: ?Sized, E: ?Sized>(
    new_attrs: &Vec<(String, String)>,
    old_attrs: &Vec<(String, String)>,
    coord: &[RespoCoord],
    dom_path: &[u32],
    changes: &mut Vec<DomChange<L, E>>,
)
    ensures
        changes_view(final(changes)@) == changes_view(old(changes)@) + attrs_changes::<L, E>(
            attrs_view(new_attrs@),
            attrs_view(old_attrs@),
            coord_view(coord@),
            dom_path@,
        ),
{
    let (set, unset) = pairs_delta(new_attrs, old_attrs);
    proof {
        lemma_text_set_len(unset@);
    }
    if set.len() > 0 || unset.len() > 0 {
        push_pairs_change(false, set, unset, coord, dom_path, changes);
    } else {
        assert(changes_view(changes@) + Seq::<ChangeView<L, E>>::empty() =~= changes_view(changes@));
    }
}

/// Records the inline style change of an element, if any.
pub fn diff_style<L: ?Sized, E: ?Sized>(
    new_style: &Vec<(String, String)>,
    old_style: &Vec<(String, String)>,
    coord: &[RespoCoord],
    dom_path: &[u32],
    changes: &mut Vec<DomChange<L, E>>,
)
    ensures
        changes_view(final(changes)@) == changes_view(old(changes)@) + style_changes::<L, E>(
            attrs_view(new_style@),
            attrs_view(old_style@),
            coord_view(coord@),
            dom_path@,
        ),
{
    let (set, unset) = pairs_delta(new_style, old_style);
    proof {
        lemma_text_set_len(unset@);
    }
    if set.len() > 0 || unset.len() > 0 {
        push_pairs_change(true, set, unset, coord, dom_path, changes);
    } else {
        assert(changes_view(changes@) + Seq::<ChangeView<L, E>>::empty() =~= changes_view(changes@));
    }
}

/// Records the change of the event names an element listens to, if any.
pub fn diff_event<L: ?Sized, E: ?Sized>(
    new_event: &Vec<(String, Rc<L>)>,
    old_event: &Vec<(String, Rc<L>)>,
    coord: &[RespoCoord],
    dom_path: &[u32],
    changes: &mut Vec<DomChange<L, E>>,
)
    ensures
        changes_view(final(changes)@) == changes_view(old(changes)@) + event_changes::<L, E>(
            events_view(new_event@),
            events_view(old_event@),
            coord_view(coord@),
            dom_path@,
        ),
{
    let add = keys_not_in(new_event, old_event);
    let remove = keys_not_in(old_event, new_event);
    proof {
        lemma_events_keys(new_event@);
        lemma_events_keys(old_event@);
        lemma_text_set_len(add@);
        lemma_text_set_len(remove@);
        let nk = key_texts(new_event@);
        let ok = key_texts(old_event@);
        if nk.difference(ok) == Set::<Seq<char>>::empty() && ok.difference(nk) == Set::<Seq<char>>::empty() {
            assert forall|k: Seq<char>| nk.contains(k) <==> ok.contains(k) by {
                assert(!nk.difference(ok).contains(k));
                assert(!ok.difference(nk).contains(k));
            }
            assert(nk =~= ok);
        }
    }
    if add.len() > 0 || remove.len() > 0 {
        proof {
            let nk = key_texts(new_event@);
            let ok = key_texts(old_event@);
            if nk == ok {
                assert(nk.difference(ok) =~= Set::<Seq<char>>::empty());
                assert(ok.difference(nk) =~= Set::<Seq<char>>::empty());
            }
        }
        let c = DomChange::ModifyEvent { coord: clone_coords(coord), dom_path: clone_path(dom_path), add, remove };
        let ghost before = changes@;
        changes.push(c);
        assert(changes_view(changes@) =~= changes_view(before).push(c@));
    } else {
        assert(changes_view(changes@) + Seq::<ChangeView<L, E>>::empty() =~= changes_view(changes@));
    }
}

} // verus!
