//! The funds-and-margins summary: the equity segment of a margins reply
//! flattened into one row of named values.
use vstd::prelude::*;
use vstd::string::StringExecFns;
use crate::json::Json;
use crate::text::{lemma_text_lt_irreflexive, lemma_text_lt_total, lemma_text_lt_transitive, str_lt, text_lt};

verus! {

/// The margins reply has no `equity` member.
#[derive(Debug, Clone, Copy, PartialEq, Eq, Structural)]
pub struct MissingEquity;

/// The members of an object value (none for other values).
pub open spec fn members_of(v: Option<Json>) -> Seq<(String, Json)> {
    match v {
        Some(o) => match o.object_members() {
            Some(ms) => ms,
            None => Seq::empty(),
        },
        None => Seq::empty(),
    }
}

pub open spec fn prefixed(prefix: Seq<char>, ms: Seq<(String, Json)>) -> Seq<(Seq<char>, Json)> {
    ms.map_values(|m: (String, Json)| (prefix + m.0@, m.1))
}

pub open spec fn own_entry(equity: Json, key: Seq<char>) -> Seq<(Seq<char>, Json)> {
    match equity.field(key) {
        Some(v) => seq![(key, v)],
        None => Seq::empty(),
    }
}

/// The entries written into the row, in writing order: `enabled`, `net`,
/// then `available.*` as `available_<key>` and `utilised.*` as
/// `utilised_<key>`.
pub open spec fn flat_entries(equity: Json) -> Seq<(Seq<char>, Json)> {
    own_entry(equity, "enabled"@) + own_entry(equity, "net"@) + prefixed(
        "available_"@,
        members_of(equity.field("available"@)),
    ) + prefixed("utilised_"@, members_of(equity.field("utilised"@)))
}

/// Writing the entries one after the other into a map: a later entry
/// replaces an earlier one with the same name.
pub open spec fn written(entries: Seq<(Seq<char>, Json)>) -> Map<Seq<char>, Json>
    decreases entries.len(),
{
    if entries.len() == 0 {
        Map::empty()
    } else {
        written(entries.drop_last()).insert(entries.last().0, entries.last().1)
    }
}

/// `row` lists the map `m`: each name once, with its value, in ascending
/// order of the names (the order a `BTreeMap` keyed by them iterates in).
pub open spec fn row_lists(row: Seq<(String, &Json)>, m: Map<Seq<char>, Json>) -> bool {
    &&& forall|i: int, j: int| 0 <= i < j < row.len() ==> text_lt((#[trigger] row[i]).0@, (#[trigger] row[j]).0@)
    &&& forall|i: int, j: int| 0 <= i < j < row.len() ==> (#[trigger] row[i]).0@ != (#[trigger] row[j]).0@
    &&& forall|i: int| 0 <= i < row.len() ==> m.contains_key((#[trigger] row[i]).0@) && m[row[i].0@] == *row[i].1
    &&& forall|k: Seq<char>| #[trigger] m.contains_key(k) ==> exists|i: int| 0 <= i < row.len() && row[i].0@ == k
}

/// Writes `key -> v` into a row at its place in name order, replacing an
/// entry of the same name.
fn upsert<'a>(row: &mut Vec<(String, &'a Json)>, key: String, v: &'a Json, Ghost(m): Ghost<Map<Seq<char>, Json>>)
    requires
        row_lists(old(row)@, m),
    ensures
        row_lists(final(row)@, m.insert(key@, *v)),
{
    let ghost m2 = m.insert(key@, *v);
    let ghost kv = key@;
    let mut p: usize = 0;
    while p < row.len() && str_lt(row[p].0.as_str(), key.as_str())
        invariant
            p <= row@.len(),
            kv == key@,
            row@ == old(row)@,
            row_lists(row@, m),
            forall|k: int| 0 <= k < p ==> text_lt((#[trigger] row@[k]).0@, kv),
        decreases row@.len() - p,
    {
        p = p + 1;
    }
    let ghost before = row@;
    proof {
        if p < before.len() {
            lemma_text_lt_total(kv, before[p as int].0@);
        }
    }
    if p < row.len() && !str_lt(key.as_str(), row[p].0.as_str()) {
        assert(before[p as int].0@ == kv);
        row.set(p, (key, v));
        proof {
            assert forall|a: int, b: int| 0 <= a < b < row@.len() implies text_lt(
                (#[trigger] row@[a]).0@,
                (#[trigger] row@[b]).0@,
            ) && row@[a].0@ != row@[b].0@ by {
                assert(row@[a].0@ == before[a].0@ && row@[b].0@ == before[b].0@);
            }
            assert forall|a: int| 0 <= a < row@.len() implies m2.contains_key((#[trigger] row@[a]).0@)
                && m2[row@[a].0@] == *row@[a].1 by {
                if a != p {
                    assert(row@[a] == before[a]);
                    assert(before[a].0@ != before[p as int].0@);
                } else {
                    assert(row@[a].0@ == kv);
                }
            }
            assert forall|k: Seq<char>| #[trigger] m2.contains_key(k) implies exists|a: int|
                0 <= a < row@.len() && row@[a].0@ == k by {
                if k == kv {
                    assert(row@[p as int].0@ == k);
                } else {
                    assert(m.contains_key(k));
                    let a = choose|a: int| 0 <= a < before.len() && before[a].0@ == k;
                    assert(a != p);
                    assert(row@[a] == before[a]);
                }
            }
        }
        return;
    }
    row.insert(p, (key, v));
    proof {
        assert(row@[p as int].0@ == kv);
        assert forall|a: int, b: int| 0 <= a < b < row@.len() implies text_lt(
            (#[trigger] row@[a]).0@,
            (#[trigger] row@[b]).0@,
        ) by {
            if b < p {
                assert(row@[a] == before[a] && row@[b] == before[b]);
            } else if b == p {
                assert(row@[a] == before[a]);
            } else if a == p {
                assert(row@[b] == before[b - 1]);
                if b - 1 > p {
                    lemma_text_lt_transitive(kv, before[p as int].0@, before[b - 1].0@);
                }
            } else if a < p {
                assert(row@[a] == before[a] && row@[b] == before[b - 1]);
            } else {
                assert(row@[a] == before[a - 1] && row@[b] == before[b - 1]);
            }
        }
        assert forall|a: int, b: int| 0 <= a < b < row@.len() implies (#[trigger] row@[a]).0@ != (
        #[trigger] row@[b]).0@ by {
            assert(text_lt(row@[a].0@, row@[b].0@));
            if row@[a].0@ == row@[b].0@ {
                lemma_text_lt_irreflexive(row@[a].0@);
            }
        }
        assert forall|a: int| 0 <= a < row@.len() implies m2.contains_key((#[trigger] row@[a]).0@) && m2[row@[a].0@]
            == *row@[a].1 by {
            if a < p {
                assert(row@[a] == before[a]);
                assert(text_lt(before[a].0@, kv));
                if before[a].0@ == kv {
                    lemma_text_lt_irreflexive(kv);
                }
            } else if a > p {
                assert(row@[a] == before[a - 1]);
                assert(row@[a].0@ != row@[p as int].0@);
            }
        }
        assert forall|k: Seq<char>| #[trigger] m2.contains_key(k) implies exists|a: int|
            0 <= a < row@.len() && row@[a].0@ == k by {
            if k == kv {
                assert(row@[p as int].0@ == k);
            } else {
                let a = choose|a: int| 0 <= a < before.len() && before[a].0@ == k;
                if a < p {
                    assert(row@[a] == before[a]);
                } else {
                    assert(row@[a + 1] == before[a]);
                }
            }
        }
    }
}

fn write_own<'a>(row: &mut Vec<(String, &'a Json)>, equity: &'a Json, key: &str, Ghost(es): Ghost<Seq<(Seq<char>, Json)>>)
    requires
        row_lists(old(row)@, written(es)),
    ensures
        row_lists(final(row)@, written(es + own_entry(*equity, key@))),
{
    match equity.get(key) {
        Some(v) => {
            assert((es + own_entry(*equity, key@)).drop_last() =~= es);
            upsert(row, key.to_owned(), v, Ghost(written(es)));
        },
        None => {
            assert(es + own_entry(*equity, key@) =~= es);
        },
    }
}

fn write_prefixed<'a>(
    row: &mut Vec<(String, &'a Json)>,
    prefix: &str,
    obj: Option<&'a Json>,
    Ghost(es): Ghost<Seq<(Seq<char>, Json)>>,
)
    requires
        row_lists(old(row)@, written(es)),
    ensures
        row_lists(
            final(row)@,
            written(es + prefixed(prefix@, members_of(match obj { Some(o) => Some(*o), None => None }))),
        ),
{
    let ghost ov = match obj {
        Some(o) => Some(*o),
        None => None::<Json>,
    };
    let ms = match obj {
        Some(o) => match o.as_object() {
            Some(ms) => ms,
            None => {
                assert(es + prefixed(prefix@, members_of(ov)) =~= es);
                return;
            },
        },
        None => {
            assert(es + prefixed(prefix@, members_of(ov)) =~= es);
            return;
        },
    };
    let mut i: usize = 0;
    assert(es + prefixed(prefix@, ms@.take(0)) =~= es);
    while i < ms.len()
        invariant
            i <= ms@.len(),
            members_of(ov) == ms@,
            row_lists(row@, written(es + prefixed(prefix@, ms@.take(i as int)))),
        decreases ms@.len() - i,
    {
        let mut k = String::from_str(prefix);
        k.append(ms[i].0.as_str());
        let ghost pre = es + prefixed(prefix@, ms@.take(i as int));
        assert((es + prefixed(prefix@, ms@.take(i + 1))).drop_last() =~= pre);
        assert((es + prefixed(prefix@, ms@.take(i + 1))).last() == (k@, ms@[i as int].1));
        upsert(row, k, &ms[i].1, Ghost(written(pre)));
        i = i + 1;
    }
    assert(ms@.take(i as int) =~= ms@);
}

/// The row: each name of the flattened entries once, in ascending name
/// order, with the value written last under that name (the keys of the margins reply are
/// distinct, so normally no entry is replaced). Fails when there is no
/// `equity` member.
pub fn flatten_equity_margins<'a>(margins: &'a Json) -> (r: Result<Vec<(String, &'a Json)>, MissingEquity>)
    ensures
        margins.field("equity"@) is None ==> r == Err::<Vec<(String, &'a Json)>, MissingEquity>(MissingEquity),
        margins.field("equity"@) matches Some(eq) ==> (r matches Ok(row) && row_lists(row@, written(flat_entries(eq)))),
{
    let equity = match margins.get("equity") {
        Some(e) => e,
        None => return Err(MissingEquity),
    };
    let mut row: Vec<(String, &'a Json)> = Vec::new();
    let ghost e0 = Seq::<(Seq<char>, Json)>::empty();
    write_own(&mut row, equity, "enabled", Ghost(e0));
    let ghost e1 = e0 + own_entry(*equity, "enabled"@);
    write_own(&mut row, equity, "net", Ghost(e1));
    let ghost e2 = e1 + own_entry(*equity, "net"@);
    write_prefixed(&mut row, "available_", equity.get("available"), Ghost(e2));
    let ghost e3 = e2 + prefixed("available_"@, members_of(equity.field("available"@)));
    write_prefixed(&mut row, "utilised_", equity.get("utilised"), Ghost(e3));
    assert(e3 + prefixed("utilised_"@, members_of(equity.field("utilised"@))) =~= flat_entries(*equity));
    Ok(row)
}

} // verus!
