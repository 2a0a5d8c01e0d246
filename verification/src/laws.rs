//! What holds of every compiled table: how many records it has, where the
//! services start, where the values lie, and what the dispatch lists hold.

use crate::layout::{
    characteristic_record_count, characteristic_records, characteristic_value,
    characteristics_dispatch, characteristics_names, characteristics_records, complete,
    complete_before, lemma_characteristics_step, lemma_table_step, service_declaration, service_records,
    service_start, service_starts, table_dispatch, table_names, table_records, user_description,
    value_index, value_index_from,
};
use crate::model::{Access, CharacteristicView, ServiceView};
use vstd::prelude::*;

verus! {

/// The number of records that a run of characteristics contributes.
pub open spec fn characteristics_record_count(cs: Seq<CharacteristicView>) -> nat
    decreases cs.len(),
{
    if cs.len() == 0 {
        0
    } else {
        characteristics_record_count(cs.drop_last()) + characteristic_record_count(cs.last())
    }
}

/// The number of records that all characteristics of all services
/// contribute.
pub open spec fn all_characteristics_record_count(ss: Seq<ServiceView>) -> nat
    decreases ss.len(),
{
    if ss.len() == 0 {
        0
    } else {
        all_characteristics_record_count(ss.drop_last()) + characteristics_record_count(
            ss.last().characteristics,
        )
    }
}

/// A run of characteristics has two records for each of them and one more
/// for each user description.
pub proof fn lemma_characteristics_record_count(cs: Seq<CharacteristicView>)
    ensures
        characteristics_records(cs).len() == characteristics_record_count(cs),
    decreases cs.len(),
{
    if cs.len() > 0 {
        lemma_characteristics_record_count(cs.drop_last());
    }
}

/// The table has one record for each service, two for each characteristic
/// and one more for each user description.
pub proof fn lemma_record_count(ss: Seq<ServiceView>)
    ensures
        table_records(ss).len() == ss.len() + all_characteristics_record_count(ss),
    decreases ss.len(),
{
    if ss.len() > 0 {
        lemma_record_count(ss.drop_last());
        lemma_characteristics_record_count(ss.last().characteristics);
    }
}

/// Each service starts after the one before it, the first at index 0, and
/// the last entry of the start list is the record count.
pub proof fn lemma_service_starts(ss: Seq<ServiceView>, s: int)
    requires
        0 <= s < ss.len(),
    ensures
        service_starts(ss).len() == ss.len() + 1,
        service_starts(ss)[0] == 0,
        service_starts(ss)[s] < service_starts(ss)[s + 1],
        service_starts(ss)[ss.len() as int] == table_records(ss).len(),
        table_records(ss)[service_starts(ss)[s]] == service_declaration(ss[s].uuid),
{
    lemma_table_step(ss, s);
    assert(ss.take(0) =~= Seq::empty());
    assert(ss.take(ss.len() as int) =~= ss);
    lemma_table_prefix(ss, s + 1);
    let start = service_start(ss, s);
    let longer = table_records(ss.take(s + 1));
    assert(longer[start] == service_records(ss[s])[0]);
    assert(table_records(ss).take(longer.len() as int)[start] == table_records(ss)[start]);
}

/// The table of the first `n` services is the start of the whole table.
pub proof fn lemma_table_prefix(ss: Seq<ServiceView>, n: int)
    requires
        0 <= n <= ss.len(),
    ensures
        table_records(ss.take(n)).len() <= table_records(ss).len(),
        table_records(ss.take(n)) == table_records(ss).take(table_records(ss.take(n)).len() as int),
    decreases ss.len() - n,
{
    if n == ss.len() {
        assert(ss.take(n) =~= ss);
        assert(table_records(ss) =~= table_records(ss).take(table_records(ss).len() as int));
    } else {
        lemma_table_prefix(ss, n + 1);
        lemma_table_step(ss, n);
        let whole = table_records(ss);
        let longer = table_records(ss.take(n + 1));
        let shorter = table_records(ss.take(n));
        assert(shorter =~= longer.take(shorter.len() as int));
        assert(shorter =~= whole.take(shorter.len() as int));
    }
}

/// The records of the first `n` characteristics of a run are the start of
/// the records of the run, and each characteristic adds at least two.
pub proof fn lemma_characteristics_prefix(cs: Seq<CharacteristicView>, i: int, j: int)
    requires
        0 <= i <= j <= cs.len(),
    ensures
        characteristics_records(cs.take(i)).len() + 2 * (j - i) <= characteristics_records(
            cs.take(j),
        ).len(),
        characteristics_records(cs.take(i)) == characteristics_records(cs.take(j)).take(
            characteristics_records(cs.take(i)).len() as int,
        ),
    decreases j - i,
{
    let short = characteristics_records(cs.take(i));
    if i == j {
        assert(short =~= short.take(short.len() as int));
    } else {
        lemma_characteristics_prefix(cs, i, j - 1);
        lemma_characteristics_step(cs, 0, j - 1);
        let mid = characteristics_records(cs.take(j - 1));
        let long = characteristics_records(cs.take(j));
        assert(long == mid + characteristic_records(cs[j - 1]));
        assert(short =~= long.take(short.len() as int));
    }
}

/// Within a run of characteristics the value indices increase with
/// declaration order and lie within the records of the run; at each lies
/// the characteristic's value record, followed at once by its user
/// description where it has one.
pub proof fn lemma_value_indices(cs: Seq<CharacteristicView>, base: int, i: int, j: int)
    requires
        0 <= i <= j < cs.len(),
    ensures
        i < j ==> value_index_from(cs, base, i) < value_index_from(cs, base, j),
        base < value_index_from(cs, base, j) < base + characteristics_records(cs).len(),
        characteristics_records(cs)[value_index_from(cs, 0, j)] == characteristic_value(cs[j]),
        cs[j].user_description.is_some() ==> value_index_from(cs, 0, j) + 1
            < characteristics_records(cs).len() && characteristics_records(cs)[value_index_from(
            cs,
            0,
            j,
        ) + 1] == user_description(cs[j].user_description.unwrap()),
{
    lemma_characteristics_prefix(cs, i, j);
    lemma_characteristics_prefix(cs, j, j + 1);
    lemma_characteristics_prefix(cs, j + 1, cs.len() as int);
    lemma_characteristics_step(cs, 0, j);
    assert(cs.take(cs.len() as int) =~= cs);
    let upto = characteristics_records(cs.take(j));
    let at = upto.len() as int;
    let with = characteristics_records(cs.take(j + 1));
    assert(with == upto + characteristic_records(cs[j]));
    assert(with[at + 1] == characteristic_value(cs[j]));
    assert(with == characteristics_records(cs).take(with.len() as int));
    assert(characteristics_records(cs).take(with.len() as int)[at + 1]
        == characteristics_records(cs)[at + 1]);
    if cs[j].user_description.is_some() {
        assert(with[at + 2] == user_description(cs[j].user_description.unwrap()));
        assert(characteristics_records(cs).take(with.len() as int)[at + 2]
            == characteristics_records(cs)[at + 2]);
    }
}

/// Every entry of the name map points into the table, past index 0.
pub proof fn lemma_name_indices_in_table(ss: Seq<ServiceView>, k: int)
    requires
        0 <= k < table_names(ss).len(),
    ensures
        0 < table_names(ss)[k].1 < table_records(ss).len(),
    decreases ss.len(),
{
    let rest = ss.drop_last();
    let cs = ss.last().characteristics;
    let earlier = table_names(rest);
    assert(ss.take(ss.len() - 1) =~= rest);
    if k < earlier.len() {
        lemma_name_indices_in_table(rest, k);
    } else {
        lemma_value_indices(
            cs,
            table_records(rest).len() as int + 1,
            k - earlier.len(),
            k - earlier.len(),
        );
    }
}

/// The name map holds value indices that increase strictly with
/// declaration order, so no two characteristics share an index.
pub proof fn lemma_name_indices_increasing(ss: Seq<ServiceView>, i: int, j: int)
    requires
        0 <= i < j < table_names(ss).len(),
    ensures
        table_names(ss)[i].1 < table_names(ss)[j].1,
    decreases ss.len(),
{
    let rest = ss.drop_last();
    let cs = ss.last().characteristics;
    let earlier = table_names(rest);
    let base = table_records(rest).len() as int + 1;
    assert(ss.take(ss.len() - 1) =~= rest);
    if j < earlier.len() {
        lemma_name_indices_increasing(rest, i, j);
    } else if i < earlier.len() {
        lemma_name_indices_in_table(rest, i);
        lemma_value_indices(cs, base, j - earlier.len(), j - earlier.len());
    } else {
        lemma_value_indices(cs, base, i - earlier.len(), j - earlier.len());
    }
}

/// The position in the name map of characteristic `c` of service `s`.
pub open spec fn name_position(ss: Seq<ServiceView>, s: int, c: int) -> int
    recommends
        0 <= s < ss.len(),
{
    table_names(ss.take(s)).len() + c
}

/// The name map holds, for each characteristic, its name and the index of
/// its value record; at that index the table holds the value record, and
/// right after it the user description where there is one.
pub proof fn lemma_value_record(ss: Seq<ServiceView>, s: int, c: int)
    requires
        0 <= s < ss.len(),
        0 <= c < ss[s].characteristics.len(),
    ensures
        0 <= name_position(ss, s, c) < table_names(ss).len(),
        table_names(ss)[name_position(ss, s, c)] == (
            ss[s].characteristics[c].name,
            value_index(ss, s, c),
        ),
        0 < value_index(ss, s, c) < table_records(ss).len(),
        table_records(ss)[value_index(ss, s, c)] == characteristic_value(
            ss[s].characteristics[c],
        ),
        ss[s].characteristics[c].user_description.is_some() ==> value_index(ss, s, c) + 1
            < table_records(ss).len() && table_records(ss)[value_index(ss, s, c) + 1]
            == user_description(ss[s].characteristics[c].user_description.unwrap()),
{
    let cs = ss[s].characteristics;
    let start = service_start(ss, s);
    lemma_table_step(ss, s);
    lemma_table_prefix(ss, s + 1);
    lemma_names_prefix(ss, s + 1);
    lemma_value_indices(cs, 0, c, c);
    let within = value_index_from(cs, 0, c);
    let longer = table_records(ss.take(s + 1));
    assert(longer == table_records(ss.take(s)) + service_records(ss[s]));
    assert(value_index(ss, s, c) == start + 1 + within);
    assert(longer[start + 1 + within] == characteristics_records(cs)[within]);
    assert(table_records(ss).take(longer.len() as int)[start + 1 + within] == table_records(
        ss,
    )[start + 1 + within]);
    if cs[c].user_description.is_some() {
        assert(longer[start + 2 + within] == characteristics_records(cs)[within + 1]);
        assert(table_records(ss).take(longer.len() as int)[start + 2 + within] == table_records(
            ss,
        )[start + 2 + within]);
    }
    let names = table_names(ss.take(s + 1));
    assert(names == table_names(ss.take(s)) + characteristics_names(cs, start + 1));
    assert(names[name_position(ss, s, c)] == characteristics_names(cs, start + 1)[c]);
    assert(table_names(ss).take(names.len() as int)[name_position(ss, s, c)] == table_names(
        ss,
    )[name_position(ss, s, c)]);
}

/// The name map of the first `n` services is the start of the whole map.
pub proof fn lemma_names_prefix(ss: Seq<ServiceView>, n: int)
    requires
        0 <= n <= ss.len(),
    ensures
        table_names(ss.take(n)).len() <= table_names(ss).len(),
        table_names(ss.take(n)) == table_names(ss).take(table_names(ss.take(n)).len() as int),
    decreases ss.len() - n,
{
    if n == ss.len() {
        assert(ss.take(n) =~= ss);
        assert(table_names(ss) =~= table_names(ss).take(table_names(ss).len() as int));
    } else {
        lemma_names_prefix(ss, n + 1);
        lemma_table_step(ss, n);
        let shorter = table_names(ss.take(n));
        let longer = table_names(ss.take(n + 1));
        assert(shorter =~= longer.take(shorter.len() as int));
        assert(shorter =~= table_names(ss).take(shorter.len() as int));
    }
}

/// A characteristic that routes an access has its value index and handler
/// in the dispatch list of its run.
pub proof fn lemma_characteristics_routed(
    cs: Seq<CharacteristicView>,
    base: int,
    access: Access,
    c: int,
)
    requires
        0 <= c < cs.len(),
        cs[c].routes(access),
    ensures
        characteristics_dispatch(cs, base, access).contains(
            (value_index_from(cs, base, c), cs[c].handler(access).unwrap()),
        ),
    decreases cs.len(),
{
    let entry = (value_index_from(cs, base, c), cs[c].handler(access).unwrap());
    let earlier = characteristics_dispatch(cs.drop_last(), base, access);
    let all = characteristics_dispatch(cs, base, access);
    if c == cs.len() - 1 {
        assert(all == earlier.push(entry));
        assert(all[earlier.len() as int] == entry);
    } else {
        lemma_characteristics_routed(cs.drop_last(), base, access, c);
        assert(cs.drop_last().take(c) =~= cs.take(c));
        assert(earlier.contains(entry));
        let k = choose|k: int| 0 <= k < earlier.len() && earlier[k] == entry;
        assert(all[k] == entry);
    }
}

/// A characteristic whose permissions grant an access and that names a
/// handler for it stands in the dispatch list of that access, at the
/// index of its value record and with that handler.
pub proof fn lemma_routed_in_dispatch(ss: Seq<ServiceView>, s: int, c: int, access: Access)
    requires
        0 <= s < ss.len(),
        0 <= c < ss[s].characteristics.len(),
        ss[s].characteristics[c].routes(access),
    ensures
        table_dispatch(ss, access).contains(
            (value_index(ss, s, c), ss[s].characteristics[c].handler(access).unwrap()),
        ),
    decreases ss.len(),
{
    let entry = (value_index(ss, s, c), ss[s].characteristics[c].handler(access).unwrap());
    let rest = ss.drop_last();
    let earlier = table_dispatch(rest, access);
    let last = characteristics_dispatch(
        ss.last().characteristics,
        service_start(ss, ss.len() - 1) + 1,
        access,
    );
    let all = table_dispatch(ss, access);
    assert(all == earlier + last);
    if s == ss.len() - 1 {
        lemma_characteristics_routed(
            ss.last().characteristics,
            service_start(ss, ss.len() - 1) + 1,
            access,
            c,
        );
        let k = choose|k: int| 0 <= k < last.len() && last[k] == entry;
        assert(all[earlier.len() + k] == entry);
    } else {
        lemma_routed_in_dispatch(rest, s, c, access);
        assert(rest.take(s) =~= ss.take(s));
        let k = choose|k: int| 0 <= k < earlier.len() && earlier[k] == entry;
        assert(all[k] == entry);
    }
}

/// Every entry of a run's dispatch list is the value index and handler of
/// a characteristic of the run that routes the access.
pub proof fn lemma_characteristics_dispatch_sound(
    cs: Seq<CharacteristicView>,
    base: int,
    access: Access,
    k: int,
) -> (c: int)
    requires
        0 <= k < characteristics_dispatch(cs, base, access).len(),
    ensures
        0 <= c < cs.len(),
        cs[c].routes(access),
        characteristics_dispatch(cs, base, access)[k] == (
            value_index_from(cs, base, c),
            cs[c].handler(access).unwrap(),
        ),
    decreases cs.len(),
{
    let earlier = characteristics_dispatch(cs.drop_last(), base, access);
    if k < earlier.len() {
        let c = lemma_characteristics_dispatch_sound(cs.drop_last(), base, access, k);
        assert(cs.drop_last().take(c) =~= cs.take(c));
        c
    } else {
        cs.len() - 1
    }
}

/// Every entry of a dispatch list is the value index and handler of a
/// characteristic that routes the access: an index that belongs to no
/// such characteristic is in no entry.
pub proof fn lemma_dispatch_sound(ss: Seq<ServiceView>, access: Access, k: int) -> (at: (int, int))
    requires
        0 <= k < table_dispatch(ss, access).len(),
    ensures
        0 <= at.0 < ss.len(),
        0 <= at.1 < ss[at.0].characteristics.len(),
        ss[at.0].characteristics[at.1].routes(access),
        table_dispatch(ss, access)[k] == (
            value_index(ss, at.0, at.1),
            ss[at.0].characteristics[at.1].handler(access).unwrap(),
        ),
    decreases ss.len(),
{
    let rest = ss.drop_last();
    let earlier = table_dispatch(rest, access);
    if k < earlier.len() {
        let at = lemma_dispatch_sound(rest, access, k);
        assert(rest.take(at.0) =~= ss.take(at.0));
        at
    } else {
        let c = lemma_characteristics_dispatch_sound(
            ss.last().characteristics,
            service_start(ss, ss.len() - 1) + 1,
            access,
            k - earlier.len(),
        );
        (ss.len() - 1, c)
    }
}

/// A list of services in which a characteristic's permissions grant an
/// access for which it names no handler is not complete, so it does not
/// compile.
pub proof fn lemma_unrouted_access_incomplete(ss: Seq<ServiceView>, s: int, c: int, access: Access)
    requires
        0 <= s < ss.len(),
        0 <= c < ss[s].characteristics.len(),
        ss[s].characteristics[c].grants(access),
        ss[s].characteristics[c].handler(access).is_none(),
    ensures
        ss[s].characteristics[c].missing_handler().is_some(),
        !complete(ss),
        access == Access::Read ==> ss[s].characteristics[c].missing_handler() == Some(Access::Read),
        access == Access::Write && ss[s].characteristics[c].routes(Access::Read)
            ==> ss[s].characteristics[c].missing_handler() == Some(Access::Write),
        access == Access::Write && !ss[s].characteristics[c].grants(Access::Read)
            ==> ss[s].characteristics[c].missing_handler() == Some(Access::Write),
{
    if complete(ss) {
        assert(ss[s].characteristics[c].missing_handler().is_none());
    }
}

/// There is at most one first characteristic that lacks a handler: the
/// place that a failed compilation reports is determined by the services.
pub proof fn lemma_first_incomplete_unique(
    ss: Seq<ServiceView>,
    s1: int,
    c1: int,
    s2: int,
    c2: int,
)
    requires
        0 <= s1 < ss.len(),
        0 <= c1 < ss[s1].characteristics.len(),
        ss[s1].characteristics[c1].missing_handler().is_some(),
        complete_before(ss, s1, c1),
        0 <= s2 < ss.len(),
        0 <= c2 < ss[s2].characteristics.len(),
        ss[s2].characteristics[c2].missing_handler().is_some(),
        complete_before(ss, s2, c2),
    ensures
        s1 == s2,
        c1 == c2,
{
    if s1 < s2 || (s1 == s2 && c1 < c2) {
        assert(ss[s1].characteristics[c1].missing_handler().is_none());
    }
    if s2 < s1 || (s1 == s2 && c2 < c1) {
        assert(ss[s2].characteristics[c2].missing_handler().is_none());
    }
}

} // verus!
