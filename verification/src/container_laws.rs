use vstd::prelude::*;

use crate::data::{read_byte, read_count, written, Value};
use crate::enums::{texts, trimmed, CustomEnum};
use crate::settings::{Atom, Setting, Settings};
use crate::session_common::other_than;
use crate::types::UID;

verus! {

/// Popping right after a push gives back the pushed value and leaves the
/// storage as it was before the push.
pub proof fn law_storage_pop_undoes_push<T>(s: Seq<T>, x: T)
    ensures
        s.push(x).len() > 0,
        s.push(x).last() == x,
        s.push(x).drop_last() == s,
{
    assert(s.push(x).drop_last() =~= s);
}

/// Removing at the position of an insert gives back the inserted value and
/// leaves the storage as it was before the insert.
pub proof fn law_storage_remove_undoes_insert<T>(s: Seq<T>, i: int, x: T)
    requires
        0 <= i <= s.len(),
    ensures
        s.insert(i, x)[i] == x,
        s.insert(i, x).remove(i) == s,
{
    assert(s.insert(i, x).remove(i) =~= s);
}

/// After a value is stored under a name (a setting, a switch, a map
/// entry), reading that name gives it back, and every other name reads as
/// before.
pub proof fn law_named_insert_then_read<V>(m: Map<Seq<char>, V>, k: Seq<char>, v: V)
    ensures
        m.insert(k, v).contains_key(k),
        m.insert(k, v)[k] == v,
        forall|j: Seq<char>| j != k ==> (#[trigger] m.insert(k, v).contains_key(j) <==> m.contains_key(j)),
        forall|j: Seq<char>| j != k && m.contains_key(j) ==> #[trigger] m.insert(k, v)[j] == m[j],
{
}

/// Setting the value of a data entry and reading it gives the new value;
/// resetting it and reading gives its default; the rest of the entry and
/// every other entry stay as they were.
pub proof fn law_data_set_then_get(m: Map<Seq<char>, Value>, k: Seq<char>, v: Atom)
    requires
        m.contains_key(k),
    ensures
        ({
            let set = m.insert(k, Value { value: v, ..m[k] });
            let reset = m.insert(k, Value { value: m[k].default, ..m[k] });
            &&& set.contains_key(k) && set[k].value == v
            &&& set[k].default == m[k].default && set[k].desc == m[k].desc
            &&& reset.contains_key(k) && reset[k].value == m[k].default
            &&& set.dom() == m.dom() && reset.dom() == m.dom()
            &&& forall|j: Seq<char>| j != k && m.contains_key(j) ==> #[trigger] set[j] == m[j] && reset[j] == m[j]
        }),
{
    let set = m.insert(k, Value { value: v, ..m[k] });
    let reset = m.insert(k, Value { value: m[k].default, ..m[k] });
    assert(set.dom() =~= m.dom());
    assert(reset.dom() =~= m.dom());
}

/// No two fields have the same text once trimmed.
pub open spec fn distinct_after_trim(t: Seq<Seq<char>>) -> bool {
    forall|i: int, j: int| 0 <= i < j < t.len() ==> trimmed(#[trigger] t[i]) != trimmed(#[trigger] t[j])
}

/// Adding fields one by one never gives an enum two fields with the same
/// trimmed text: a field is added only when no field has its trimmed text.
pub proof fn law_enum_fields_stay_distinct(e: CustomEnum, field: Seq<char>)
    requires
        distinct_after_trim(texts(e.data@)),
        !e.spec_has(field),
    ensures
        distinct_after_trim(texts(e.data@).push(field)),
{
    let t = texts(e.data@);
    let u = t.push(field);
    assert forall|i: int, j: int| 0 <= i < j < u.len() implies trimmed(#[trigger] u[i]) != trimmed(#[trigger] u[j]) by {
        if j == t.len() {
            assert(u[i] == e.data@[i]@);
            assert(u[j] == field);
        } else {
            assert(u[i] == t[i] && u[j] == t[j]);
        }
    }
}

/// Without `r`, leaving out `r` changes nothing.
proof fn lemma_filter_absent(s: Seq<UID>, r: UID)
    requires
        !s.contains(r),
    ensures
        s.filter(other_than(r)) == s,
    decreases s.len(),
{
    reveal_with_fuel(Seq::<_>::filter, 1);
    if s.len() > 0 {
        assert(!s.drop_last().contains(r)) by {
            if s.drop_last().contains(r) {
                let i = choose|i: int| 0 <= i < s.drop_last().len() && s.drop_last()[i] == r;
                assert(s[i] == r);
            }
        }
        lemma_filter_absent(s.drop_last(), r);
        assert(s.last() != r) by {
            assert(s[s.len() - 1] == s.last());
        }
        assert(s.drop_last().push(s.last()) =~= s);
    }
}

/// Unsubscribing right after a subscription that was taken leaves the
/// subscribers as they were before it.
pub proof fn law_unsubscribe_undoes_subscribe(s: Seq<UID>, r: UID)
    requires
        !s.contains(r),
    ensures
        s.push(r).contains(r),
        s.push(r).filter(other_than(r)) == s,
{
    reveal_with_fuel(Seq::<_>::filter, 1);
    assert(s.push(r)[s.len() as int] == r);
    assert(s.push(r).drop_last() =~= s);
    lemma_filter_absent(s, r);
}

/// Writing inside a buffer, byte by byte, overwrites the bytes from the
/// cursor on and moves the cursor past them.
proof fn lemma_written_inside(data: Seq<u8>, c: int, buf: Seq<u8>)
    requires
        0 <= c,
        c + buf.len() <= data.len(),
    ensures
        written(data, c, buf) == (data.take(c) + buf + data.skip(c + buf.len()), c + buf.len()),
    decreases buf.len(),
{
    if buf.len() > 0 {
        let n = buf.len() as int;
        lemma_written_inside(data, c, buf.drop_last());
        let prev = data.take(c) + buf.drop_last() + data.skip(c + n - 1);
        assert(prev.update(c + n - 1, buf.last()) =~= data.take(c) + buf + data.skip(c + n));
    } else {
        assert(data.take(c) + buf + data.skip(c) =~= data);
    }
}

/// Reading, from where a write inside the buffer started, as many bytes as
/// were written gives them back (the cursor must not be at the very start,
/// where nothing is read); the bytes around them are kept.
pub proof fn law_bytes_read_after_write(data: Seq<u8>, c: int, buf: Seq<u8>)
    requires
        0 < c,
        c + buf.len() <= data.len(),
    ensures
        ({
            let w = written(data, c, buf);
            &&& w.0.len() == data.len()
            &&& w.1 == c + buf.len()
            &&& read_count(w.0.len() as int, c, buf.len() as int) == buf.len()
            &&& forall|i: int| 0 <= i < buf.len() ==> #[trigger] read_byte(w.0, c, false, i) == buf[i]
            &&& forall|j: int| 0 <= j < data.len() && !(c <= j < c + buf.len()) ==> #[trigger] w.0[j] == data[j]
        }),
{
    lemma_written_inside(data, c, buf);
}

/// A setting is valid exactly when it lists no variants, or when its value
/// equals one of its variants, at whatever position that variant stands.
pub proof fn law_setting_valid_when_value_listed(s: Setting)
    ensures
        s.variants@.len() == 0 ==> s.spec_valid(),
        forall|i: int| 0 <= i < s.variants@.len() && #[trigger] s.variants@[i]@ == s.value@ ==> s.spec_valid(),
        s.spec_valid() && s.variants@.len() > 0 ==> exists|i: int|
            0 <= i < s.variants@.len() && #[trigger] s.variants@[i]@ == s.value@,
{
}

/// When every setting's value is one of its variants (or it lists none),
/// checking the settings reports no name; a setting whose value is none of
/// its (listed) variants is always reported.
pub proof fn law_settings_report_only_unlisted_values(s: Settings)
    ensures
        (forall|j: int|
            0 <= j < s.settings.entries().len() ==> {
                let e = #[trigger] s.settings.entries()[j].1;
                e.variants@.len() == 0 || exists|i: int| 0 <= i < e.variants@.len() && e.variants@[i]@ == e.value@
            }) ==> s.invalid_names().len() == 0,
        forall|j: int|
            0 <= j < s.settings.entries().len() && ({
                let e = #[trigger] s.settings.entries()[j].1;
                e.variants@.len() > 0 && forall|i: int| 0 <= i < e.variants@.len() ==> e.variants@[i]@ != e.value@
            }) ==> s.invalid_names().contains(s.settings.entries()[j].0@),
{
    let es = s.settings.entries();
    let pred = |e: (String, Setting)| !e.1.spec_valid();
    if forall|j: int|
        0 <= j < es.len() ==> {
            let e = #[trigger] es[j].1;
            e.variants@.len() == 0 || exists|i: int| 0 <= i < e.variants@.len() && e.variants@[i]@ == e.value@
        } {
        assert(es.filter(pred).len() == 0) by {
            assert forall|j: int| 0 <= j < es.len() implies !pred(#[trigger] es[j]) by {
                let e = es[j].1;
                if e.variants@.len() > 0 {
                    let i = choose|i: int| 0 <= i < e.variants@.len() && e.variants@[i]@ == e.value@;
                    assert(e.variants@[i]@ == e.value@);
                }
            }
            lemma_filter_none(es, pred);
        }
    }
    assert forall|j: int|
        0 <= j < es.len() && ({
            let e = #[trigger] es[j].1;
            e.variants@.len() > 0 && forall|i: int| 0 <= i < e.variants@.len() ==> e.variants@[i]@ != e.value@
        }) implies s.invalid_names().contains(es[j].0@) by {
        assert(pred(es[j]));
        es.lemma_filter_contains(pred, j);
        let f = es.filter(pred);
        let k = choose|k: int| 0 <= k < f.len() && f[k] == es[j];
        assert(s.invalid_names()[k] == es[j].0@);
    }
}

/// Nothing passes a filter that nothing satisfies.
proof fn lemma_filter_none<A>(s: Seq<A>, pred: spec_fn(A) -> bool)
    requires
        forall|j: int| 0 <= j < s.len() ==> !pred(#[trigger] s[j]),
    ensures
        s.filter(pred).len() == 0,
    decreases s.len(),
{
    reveal_with_fuel(Seq::<_>::filter, 1);
    if s.len() > 0 {
        assert forall|j: int| 0 <= j < s.drop_last().len() implies !pred(#[trigger] s.drop_last()[j]) by {
            assert(s.drop_last()[j] == s[j]);
        }
        lemma_filter_none(s.drop_last(), pred);
        assert(!pred(s[s.len() - 1]));
    }
}

} // verus!
