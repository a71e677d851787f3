//! The aggregation engine: turns a flat sequence of joined rows into parents
//! with their children, without assuming any order of the rows.
//!
//! Every row carries the columns of a parent and, where the join found a
//! match, the columns of one child. The engine walks the rows once. Parents
//! come out in the order in which their keys were first seen; the children of
//! a parent come out in the order of their rows. A parent whose rows carry no
//! child comes out with an empty list.

use std::collections::HashMap;
use vstd::prelude::*;
use vstd::std_specs::hash::*;

verus! {

/// A parent record that can be opened from a joined row and gathers the
/// children that the rows of its key carry.
pub trait Gathers: Sized {
    /// The flat row of the join.
    type Row;

    /// The child record.
    type Child;

    /// The parent's own columns, as a value.
    type Header;

    /// The key of the parent that a row belongs to.
    spec fn row_key(row: &Self::Row) -> u128;

    /// The parent columns that a row carries.
    spec fn row_header(row: &Self::Row) -> Self::Header;

    /// The child that a row carries, if the join found one.
    spec fn row_child(row: &Self::Row) -> Option<Self::Child>;

    /// This parent's own columns.
    spec fn header(&self) -> Self::Header;

    /// The children gathered so far.
    spec fn children(&self) -> Seq<Self::Child>;

    /// The invariant of a parent under construction.
    spec fn wf(&self) -> bool;

    /// Reads the parent key of a row.
    fn key_of(row: &Self::Row) -> (key: u128)
        ensures
            key == Self::row_key(row),
    ;

    /// Reads the child of a row.
    fn child_of(row: &Self::Row) -> (child: Option<Self::Child>)
        ensures
            child == Self::row_child(row),
    ;

    /// Materializes the parent of a row, with no children.
    fn open(row: &Self::Row) -> (parent: Self)
        ensures
            parent.wf(),
            parent.header() == Self::row_header(row),
            parent.children() == Seq::<Self::Child>::empty(),
    ;

    /// Appends one child.
    fn attach(&mut self, child: Self::Child)
        ensures
            old(self).wf() ==> final(self).wf(),
            final(self).header() == old(self).header(),
            final(self).children() == old(self).children().push(child),
    ;
}

/// The distinct parent keys of the rows, in the order in which each is first seen.
pub open spec fn parent_keys<T: Gathers>(rows: Seq<T::Row>) -> Seq<u128>
    decreases rows.len(),
{
    if rows.len() == 0 {
        Seq::empty()
    } else {
        let seen = parent_keys::<T>(rows.drop_last());
        let key = T::row_key(&rows.last());
        if seen.contains(key) {
            seen
        } else {
            seen.push(key)
        }
    }
}

/// The parent columns of the first row with the given key, if there is such a row.
pub open spec fn header_of<T: Gathers>(rows: Seq<T::Row>, key: u128) -> Option<T::Header>
    decreases rows.len(),
{
    if rows.len() == 0 {
        None
    } else {
        match header_of::<T>(rows.drop_last(), key) {
            Some(header) => Some(header),
            None => if T::row_key(&rows.last()) == key {
                Some(T::row_header(&rows.last()))
            } else {
                None
            },
        }
    }
}

/// The children carried by the rows with the given key, in the order of the rows.
pub open spec fn children_of<T: Gathers>(rows: Seq<T::Row>, key: u128) -> Seq<T::Child> {
    rows.filter_map(
        |row: T::Row|
            if T::row_key(&row) == key {
                T::row_child(&row)
            } else {
                None
            },
    )
}

/// Whether `groups` is the grouping of `rows`: one parent per distinct key,
/// in first-seen order, each with the columns of its first row and with all
/// the children of its rows.
pub open spec fn is_grouping<T: Gathers>(groups: Seq<T>, rows: Seq<T::Row>) -> bool {
    let keys = parent_keys::<T>(rows);
    &&& groups.len() == keys.len()
    &&& forall|i: int|
        0 <= i < groups.len() ==> {
            &&& (#[trigger] groups[i]).wf()
            &&& Some(groups[i].header()) == header_of::<T>(rows, keys[i])
            &&& groups[i].children() == children_of::<T>(rows, keys[i])
        }
}

/// A key is among the parent keys exactly when some row has it: no parent is
/// dropped, whether or not its rows carry a child, and none is invented.
pub proof fn lemma_parent_keys_cover<T: Gathers>(rows: Seq<T::Row>, key: u128)
    ensures
        parent_keys::<T>(rows).contains(key) <==> exists|i: int|
            0 <= i < rows.len() && T::row_key(&#[trigger] rows[i]) == key,
    decreases rows.len(),
{
    if rows.len() > 0 {
        let head = rows.drop_last();
        let seen = parent_keys::<T>(head);
        let last_key = T::row_key(&rows.last());
        lemma_parent_keys_cover::<T>(head, key);
        lemma_parent_keys_cover::<T>(head, last_key);
        if parent_keys::<T>(rows).contains(key) {
            if seen.contains(key) {
                let i = choose|i: int| 0 <= i < head.len() && T::row_key(&#[trigger] head[i]) == key;
                assert(T::row_key(&rows[i]) == key);
            } else {
                assert(!seen.contains(last_key));
                let j = choose|j: int|
                    0 <= j < seen.push(last_key).len() && seen.push(last_key)[j] == key;
                if j < seen.len() {
                    assert(seen[j] == key);
                }
                assert(T::row_key(&rows[rows.len() - 1]) == key);
            }
        }
        if exists|i: int| 0 <= i < rows.len() && T::row_key(&#[trigger] rows[i]) == key {
            let i = choose|i: int| 0 <= i < rows.len() && T::row_key(&#[trigger] rows[i]) == key;
            if i < head.len() {
                assert(T::row_key(&head[i]) == key);
                let j = choose|j: int| 0 <= j < seen.len() && seen[j] == key;
                assert(parent_keys::<T>(rows)[j] == key);
            } else {
                if seen.contains(key) {
                    let j = choose|j: int| 0 <= j < seen.len() && seen[j] == key;
                    assert(parent_keys::<T>(rows)[j] == key);
                } else {
                    assert(seen.push(key)[seen.len() as int] == key);
                }
            }
        }
    }
}

/// No key occurs twice among the parent keys.
pub proof fn lemma_parent_keys_distinct<T: Gathers>(rows: Seq<T::Row>)
    ensures
        parent_keys::<T>(rows).no_duplicates(),
    decreases rows.len(),
{
    if rows.len() > 0 {
        lemma_parent_keys_distinct::<T>(rows.drop_last());
    }
}

/// A key that no row has yields no header and no children.
pub proof fn lemma_absent_key<T: Gathers>(rows: Seq<T::Row>, key: u128)
    requires
        !parent_keys::<T>(rows).contains(key),
    ensures
        header_of::<T>(rows, key) is None,
        children_of::<T>(rows, key) == Seq::<T::Child>::empty(),
    decreases rows.len(),
{
    if rows.len() > 0 {
        let head = rows.drop_last();
        let seen = parent_keys::<T>(head);
        let last_key = T::row_key(&rows.last());
        if seen.contains(key) {
            let j = choose|j: int| 0 <= j < seen.len() && seen[j] == key;
            assert(parent_keys::<T>(rows)[j] == key);
        }
        if last_key == key {
            if !seen.contains(last_key) {
                assert(seen.push(last_key)[seen.len() as int] == key);
            }
        }
        lemma_absent_key::<T>(head, key);
    }
}

/// A parent key always has a header: the columns of its first row.
pub proof fn lemma_present_key<T: Gathers>(rows: Seq<T::Row>, key: u128)
    requires
        parent_keys::<T>(rows).contains(key),
    ensures
        header_of::<T>(rows, key) is Some,
    decreases rows.len(),
{
    if rows.len() > 0 {
        let head = rows.drop_last();
        let seen = parent_keys::<T>(head);
        let last_key = T::row_key(&rows.last());
        if seen.contains(key) {
            lemma_present_key::<T>(head, key);
        } else {
            let j = choose|j: int|
                0 <= j < parent_keys::<T>(rows).len() && parent_keys::<T>(rows)[j] == key;
            if seen.contains(last_key) {
                assert(seen[j] == key);
            } else if j < seen.len() {
                assert(seen[j] == key);
            }
        }
    }
}

/// The header of a parent key is the header of a row with that key.
pub proof fn lemma_header_from_row<T: Gathers>(rows: Seq<T::Row>, key: u128)
    requires
        header_of::<T>(rows, key) is Some,
    ensures
        exists|i: int|
            0 <= i < rows.len() && T::row_key(&#[trigger] rows[i]) == key && header_of::<T>(
                rows,
                key,
            ) == Some(T::row_header(&rows[i])),
    decreases rows.len(),
{
    if rows.len() > 0 {
        let head = rows.drop_last();
        if header_of::<T>(head, key) is Some {
            lemma_header_from_row::<T>(head, key);
            let i = choose|i: int|
                0 <= i < head.len() && T::row_key(&#[trigger] head[i]) == key && header_of::<T>(
                    head,
                    key,
                ) == Some(T::row_header(&head[i]));
            assert(rows[i] == head[i]);
        } else {
            assert(T::row_key(&rows[rows.len() - 1]) == key);
        }
    }
}

/// Appending the rows of a parent that was not seen before appends that
/// parent: it comes last, with the columns of the first of those rows and
/// the children of all of them, and the parents seen before are as they were.
pub proof fn lemma_block_appended<T: Gathers>(seen: Seq<T::Row>, block: Seq<T::Row>, key: u128)
    requires
        block.len() > 0,
        forall|i: int| 0 <= i < block.len() ==> T::row_key(&#[trigger] block[i]) == key,
        !parent_keys::<T>(seen).contains(key),
    ensures
        parent_keys::<T>(seen + block) == parent_keys::<T>(seen).push(key),
        header_of::<T>(seen + block, key) == Some(T::row_header(&block[0])),
        children_of::<T>(seen + block, key) == block.filter_map(|row: T::Row| T::row_child(&row)),
        forall|other: u128|
            other != key ==> #[trigger] header_of::<T>(seen + block, other) == header_of::<T>(
                seen,
                other,
            ),
        forall|other: u128|
            other != key ==> #[trigger] children_of::<T>(seen + block, other) == children_of::<T>(
                seen,
                other,
            ),
    decreases block.len(),
{
    let rows = seen + block;
    let shorter = block.drop_last();
    let last = block.last();
    let carried = |row: T::Row| T::row_child(&row);
    assert(rows.drop_last() =~= seen + shorter);
    assert(rows.last() == last);
    assert(T::row_key(&block[block.len() - 1]) == key);
    lemma_absent_key::<T>(seen, key);
    if shorter.len() == 0 {
        assert(seen + shorter =~= seen);
        assert(block =~= seq![last]);
        assert(block.filter_map(carried) =~= match carried(last) {
            Some(child) => seq![child],
            None => Seq::empty(),
        }) by {
            reveal_with_fuel(Seq::filter_map, 2);
            assert(shorter.filter_map(carried) =~= Seq::<T::Child>::empty());
        }
    } else {
        assert forall|i: int| 0 <= i < shorter.len() implies T::row_key(&#[trigger] shorter[i])
            == key by {
            assert(shorter[i] == block[i]);
        }
        lemma_block_appended::<T>(seen, shorter, key);
        assert(shorter[0] == block[0]);
        assert(parent_keys::<T>(seen).push(key)[parent_keys::<T>(seen).len() as int] == key);
    }
    assert forall|other: u128| #[trigger]
        children_of::<T>(rows, other) == children_of::<T>(seen + shorter, other) + (match (if T::row_key(
        &last,
    ) == other {
        T::row_child(&last)
    } else {
        None
    }) {
        Some(child) => seq![child],
        None => Seq::empty(),
    }) by {
        let of_other = |row: T::Row|
            if T::row_key(&row) == other {
                T::row_child(&row)
            } else {
                None
            };
        assert(rows.take(rows.len() - 1) =~= seen + shorter);
        assert(rows.take(rows.len() as int) =~= rows);
        rows.lemma_filter_map_take_succ(of_other, rows.len() - 1);
    }
    assert(block.take(block.len() - 1) =~= shorter);
    assert(block.take(block.len() as int) =~= block);
    block.lemma_filter_map_take_succ(carried, block.len() - 1);
    assert(children_of::<T>(seen + shorter, key) =~= shorter.filter_map(carried)) by {
        if shorter.len() == 0 {
            assert(seen + shorter =~= seen);
            assert(shorter.filter_map(carried) =~= Seq::<T::Child>::empty());
        }
    }
}

/// A parent none of whose rows carries a child has an empty list of children.
pub proof fn lemma_childless_parent<T: Gathers>(rows: Seq<T::Row>, key: u128)
    requires
        forall|i: int|
            0 <= i < rows.len() && T::row_key(&#[trigger] rows[i]) == key ==> T::row_child(&rows[i])
                is None,
    ensures
        children_of::<T>(rows, key) == Seq::<T::Child>::empty(),
    decreases rows.len(),
{
    if rows.len() > 0 {
        let head = rows.drop_last();
        assert forall|i: int|
            0 <= i < head.len() && T::row_key(&#[trigger] head[i]) == key implies T::row_child(
            &head[i],
        ) is None by {
            assert(head[i] == rows[i]);
        }
        lemma_childless_parent::<T>(head, key);
        assert(T::row_key(&rows[rows.len() - 1]) == key ==> T::row_child(&rows[rows.len() - 1])
            is None);
    }
}

/// Groups joined rows by parent. See [`is_grouping`].
pub fn group_by_parent<T: Gathers>(rows: &Vec<T::Row>) -> (groups: Vec<T>)
    ensures
        is_grouping::<T>(groups@, rows@),
{
    broadcast use group_hash_axioms;

    let mut groups: Vec<T> = Vec::new();
    let mut slots: HashMap<u128, usize> = HashMap::new();
    let mut i: usize = 0;
    while i < rows.len()
        invariant
            0 <= i <= rows.len(),
            is_grouping::<T>(groups@, rows@.take(i as int)),
            forall|key: u128|
                slots@.contains_key(key) <==> parent_keys::<T>(rows@.take(i as int)).contains(key),
            forall|key: u128| #[trigger]
                slots@.contains_key(key) ==> slots@[key] < groups.len() && parent_keys::<T>(
                    rows@.take(i as int),
                )[slots@[key] as int] == key,
        decreases rows.len() - i,
    {
        let ghost seen_rows = rows@.take(i as int);
        let ghost next_rows = rows@.take(i + 1);
        let ghost seen = parent_keys::<T>(seen_rows);
        let ghost before = groups@;
        let row = &rows[i];
        let key = T::key_of(row);
        let child = T::child_of(row);
        proof {
            assert(next_rows.drop_last() == seen_rows);
            assert(next_rows.last() == rows@[i as int]);
            lemma_parent_keys_distinct::<T>(seen_rows);
            assert forall|other: u128|
                children_of::<T>(next_rows, other) == children_of::<T>(seen_rows, other) + (
                if other == key && child is Some {
                    seq![child->0]
                } else {
                    Seq::empty()
                }) by {
                rows@.lemma_filter_map_take_succ(
                    |row: T::Row|
                        if T::row_key(&row) == other {
                            T::row_child(&row)
                        } else {
                            None
                        },
                    i as int,
                );
            }
        }
        let found = slots.get(&key);
        let slot: usize = match found {
            Some(at) => *at,
            None => {
                let at: usize = groups.len();
                let parent = T::open(row);
                groups.push(parent);
                slots.insert(key, at);
                proof {
                    lemma_absent_key::<T>(seen_rows, key);
                    assert(parent_keys::<T>(next_rows) == seen.push(key));
                }
                at
            },
        };
        proof {
            let keys = parent_keys::<T>(next_rows);
            assert(keys[slot as int] == key);
            assert forall|other: u128| keys.contains(other) <==> slots@.contains_key(other) by {
                if keys.contains(other) && !seen.contains(other) {
                    let j = choose|j: int| 0 <= j < keys.len() && keys[j] == other;
                    assert(j == seen.len());
                }
                if seen.contains(other) {
                    let j = choose|j: int| 0 <= j < seen.len() && seen[j] == other;
                    assert(keys[j] == other);
                }
            }
            assert forall|j: int| 0 <= j < groups@.len() && j != slot as int implies keys[j]
                != key by {}
            assert forall|j: int| 0 <= j < before.len() implies header_of::<T>(seen_rows, seen[j])
                is Some by {
                assert(Some(before[j].header()) == header_of::<T>(seen_rows, seen[j]));
            }
        }
        let ghost opened = groups@;
        match child {
            Some(record) => {
                groups[slot].attach(record);
                assert(forall|j: int|
                    0 <= j < groups@.len() && j != slot as int ==> groups@[j] == opened[j]);
            },
            None => {},
        }
        i = i + 1;
        proof {
            let keys = parent_keys::<T>(next_rows);
            assert forall|j: int| 0 <= j < groups@.len() implies {
                &&& (#[trigger] groups@[j]).wf()
                &&& Some(groups@[j].header()) == header_of::<T>(next_rows, keys[j])
                &&& groups@[j].children() == children_of::<T>(next_rows, keys[j])
            } by {
                if j < before.len() {
                    assert(Some(before[j].header()) == header_of::<T>(seen_rows, seen[j]));
                    assert(keys[j] == seen[j]);
                }
            }
        }
    }
    proof {
        assert(rows@.take(i as int) == rows@);
    }
    groups
}

} // verus!
