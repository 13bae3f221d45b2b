//! The value-level runtime: factory instances, association resolution and
//! the insert-returning operation, modelled over plain column values.
//!
//! The backend's only obligation is the narrow capability [`Store`]
//! exposes: "insert these values, return the resulting row under a fresh
//! generated key".  Everything around it — builder overrides, the order
//! and count of the inserts an association graph demands, and the shape
//! of the materialized record — is decided and proved here.

use crate::annotation::str_eq;
use vstd::prelude::*;

verus! {

/// One plain column value.
pub enum ColumnData {
    Text(String),
    Integer(i64),
    ForeignKey(i64),
}

/// A named column with its value.
pub struct ColumnValue {
    pub column: String,
    pub data: ColumnData,
}

/// One foreign-key relationship of a factory instance: the column it
/// fills and its pending or resolved state.
pub struct AssociationSlot {
    pub column: String,
    pub assoc: AssociationValue,
}

/// The state of one relationship, with the associated factory held by
/// value.  An unbuilt slot carries the associated type's default
/// instance, to be built and inserted only at resolution time.
pub enum AssociationValue {
    Unbuilt(Box<FactoryValue>),
    Pending(Box<FactoryValue>),
    Existing(i64),
}

/// A factory instance: default-valued plain fields, overridable through
/// the generated setters, plus one slot per relationship field.
pub struct FactoryValue {
    pub fields: Vec<ColumnValue>,
    pub associations: Vec<AssociationSlot>,
}

/// A materialized record: the generated key and every column the insert
/// sent.
pub struct StoredRow {
    pub key: i64,
    pub columns: Vec<ColumnValue>,
}

/// The persistence capability: a table of rows and a fresh-key counter.
pub struct Store {
    pub rows: Vec<StoredRow>,
    pub next_key: i64,
}

// ---------------------------------------------------------------------
// How many inserts a factory triggers
// ---------------------------------------------------------------------

/// How many rows inserting a factory writes: one for the factory itself,
/// plus one for every pending or unbuilt association, transitively.
pub open spec fn insert_count(f: FactoryValue) -> int
    decreases f, 0int,
{
    1 + assoc_count_from(f.associations@, 0)
}

/// The inserts the associations from position `i` on trigger.
pub open spec fn assoc_count_from(s: Seq<AssociationSlot>, i: int) -> int
    decreases s, s.len() - i,
{
    if i < 0 || i >= s.len() {
        0
    } else {
        slot_insert_count(s[i].assoc) + assoc_count_from(s, i + 1)
    }
}

/// The inserts one association triggers when resolved: none for an
/// existing record, the associated factory's own count otherwise.
pub open spec fn slot_insert_count(a: AssociationValue) -> int
    decreases a, 0int,
{
    match a {
        AssociationValue::Unbuilt(f) => insert_count(*f),
        AssociationValue::Pending(f) => insert_count(*f),
        AssociationValue::Existing(_) => 0,
    }
}

pub proof fn lemma_insert_count_pos(f: FactoryValue)
    ensures
        insert_count(f) >= 1,
    decreases f, 0int,
{
    lemma_assoc_count_nonneg(f.associations@, 0);
}

pub proof fn lemma_assoc_count_nonneg(s: Seq<AssociationSlot>, i: int)
    ensures
        assoc_count_from(s, i) >= 0,
    decreases s, s.len() - i,
{
    if 0 <= i < s.len() {
        lemma_slot_count_nonneg(s[i].assoc);
        lemma_assoc_count_nonneg(s, i + 1);
    }
}

pub proof fn lemma_slot_count_nonneg(a: AssociationValue)
    ensures
        slot_insert_count(a) >= 0,
    decreases a, 0int,
{
    match a {
        AssociationValue::Unbuilt(f) => lemma_insert_count_pos(*f),
        AssociationValue::Pending(f) => lemma_insert_count_pos(*f),
        AssociationValue::Existing(_) => {},
    }
}

// ---------------------------------------------------------------------
// The store
// ---------------------------------------------------------------------

impl Store {
    /// An empty table; generated keys start at 1.
    pub fn new() -> (s: Store)
        ensures
            s.rows@.len() == 0,
            s.next_key == 1,
    {
        Store { rows: Vec::new(), next_key: 1 }
    }

    /// The insert-returning capability: a single statement that writes
    /// one row under a fresh generated key and hands the fully
    /// materialized row back.
    pub fn insert_returning(&mut self, columns: Vec<ColumnValue>) -> (r: StoredRow)
        requires
            old(self).next_key < i64::MAX,
        ensures
            r.key == old(self).next_key,
            r.columns@ == columns@,
            final(self).next_key == old(self).next_key + 1,
            final(self).rows@.len() == old(self).rows@.len() + 1,
            old(self).rows@.is_prefix_of(final(self).rows@),
            final(self).rows@.last().key == r.key,
            final(self).rows@.last().columns@ == r.columns@,
    {
        let key = self.next_key;
        self.next_key = self.next_key + 1;
        let stored_columns = clone_columns(&columns);
        self.rows.push(StoredRow { key, columns: stored_columns });
        let r = StoredRow { key, columns };
        proof {
            assert(self.rows@.subrange(0, old(self).rows@.len() as int) =~= old(self).rows@);
        }
        r
    }
}

pub proof fn lemma_slot_count_pos(a: AssociationValue)
    requires
        !(a is Existing),
    ensures
        slot_insert_count(a) >= 1,
{
    match a {
        AssociationValue::Unbuilt(f) => lemma_insert_count_pos(*f),
        AssociationValue::Pending(f) => lemma_insert_count_pos(*f),
        AssociationValue::Existing(_) => {},
    }
}

pub proof fn lemma_assoc_count_mono(s: Seq<AssociationSlot>, i: int, j: int)
    requires
        0 <= i <= j,
    ensures
        assoc_count_from(s, i) >= assoc_count_from(s, j),
    decreases j - i,
{
    if i < j {
        if i < s.len() {
            lemma_slot_count_nonneg(s[i].assoc);
        }
        lemma_assoc_count_mono(s, i + 1, j);
    }
}

/// The foreign-key value the association at position `i` resolves to,
/// when resolution starts with `first_key` as the store's next fresh
/// key: an existing record's own key, or the key generated for the
/// associated record's row, the last key that record's insert consumed.
pub open spec fn resolved_fk_key(first_key: int, s: Seq<AssociationSlot>, i: int) -> int {
    match s[i].assoc {
        AssociationValue::Existing(k) => k as int,
        _ => first_key + (assoc_count_from(s, 0) - assoc_count_from(s, i + 1)) - 1,
    }
}

/// How the row written for a factory's own record looks, when its
/// insert starts with `first_key` as the store's next fresh key: the
/// generated key, the factory's plain fields unchanged and in order,
/// then one resolved foreign-key column per association.
pub open spec fn row_of_insert(first_key: int, f: FactoryValue, row: StoredRow) -> bool {
    &&& row.key == first_key + insert_count(f) - 1
    &&& row.columns@.len() == f.fields@.len() + f.associations@.len()
    &&& forall|i: int| 0 <= i < f.fields@.len() ==> row.columns@[i] == f.fields@[i]
    &&& forall|i: int|
        0 <= i < f.associations@.len() ==> (#[trigger] row.columns@[f.fields@.len() + i]).column@
            == f.associations@[i].column@ && row.columns@[f.fields@.len() + i].data
            == ColumnData::ForeignKey(resolved_fk_key(first_key, f.associations@, i) as i64)
}

/// How the rows written for the association at position `i` look, in a
/// store whose rows numbered `base` and whose next fresh key was
/// `first_key` when the owning insert began: an existing record writes
/// none; a pending or unbuilt association's own record row stands among
/// the rows before the owner's, holds the associated factory's fields,
/// and carries the very key the owner's foreign-key column names.
pub open spec fn assoc_row_ok(
    first_key: int,
    base: int,
    s: Seq<AssociationSlot>,
    i: int,
    rows: Seq<StoredRow>,
) -> bool {
    match s[i].assoc {
        AssociationValue::Existing(_) => true,
        AssociationValue::Pending(g) => row_of_insert(
            first_key + (assoc_count_from(s, 0) - assoc_count_from(s, i)),
            *g,
            rows[base + (assoc_count_from(s, 0) - assoc_count_from(s, i + 1)) - 1],
        ),
        AssociationValue::Unbuilt(g) => row_of_insert(
            first_key + (assoc_count_from(s, 0) - assoc_count_from(s, i)),
            *g,
            rows[base + (assoc_count_from(s, 0) - assoc_count_from(s, i + 1)) - 1],
        ),
    }
}

/// Resolves one association against the store, yielding the foreign-key
/// value the owning record will carry.  Resolving an existing record's
/// reference returns its key directly and never triggers an insert —
/// the store is untouched.  Resolving a pending or unbuilt association
/// triggers exactly one insert of the associated record (plus,
/// transitively, one for each of its own unresolved associations); the
/// key returned is the one that insert generated.  Resolution consumes
/// the association, so none is resolved twice.
pub fn resolve(a: AssociationValue, store: &mut Store) -> (k: i64)
    requires
        old(store).next_key + slot_insert_count(a) <= i64::MAX,
    ensures
        final(store).next_key == old(store).next_key + slot_insert_count(a),
        final(store).rows@.len() == old(store).rows@.len() + slot_insert_count(a),
        old(store).rows@.is_prefix_of(final(store).rows@),
        a matches AssociationValue::Existing(key) ==> k == key && *final(store) == *old(store),
        !(a is Existing) ==> slot_insert_count(a) >= 1 && final(store).rows@.last().key == k
            && k == final(store).next_key - 1,
        a matches AssociationValue::Pending(f) ==> row_of_insert(
            old(store).next_key as int,
            *f,
            final(store).rows@.last(),
        ),
        a matches AssociationValue::Unbuilt(f) ==> row_of_insert(
            old(store).next_key as int,
            *f,
            final(store).rows@.last(),
        ),
    decreases slot_insert_count(a), 1int,
{
    match a {
        AssociationValue::Existing(key) => key,
        AssociationValue::Pending(bf) => {
            proof {
                lemma_insert_count_pos(*bf);
            }
            let rec = insert_factory(*bf, store);
            rec.key
        },
        AssociationValue::Unbuilt(bf) => {
            proof {
                lemma_insert_count_pos(*bf);
            }
            let rec = insert_factory(*bf, store);
            rec.key
        },
    }
}

/// Inserts a factory instance: every association is resolved first, in
/// declaration order — an associated record is inserted where one is
/// pending or unbuilt, and the held key is used directly where the
/// record already exists — then one insert-returning statement writes
/// the factory's own row.  The returned record carries the factory's
/// plain fields unchanged, followed by one resolved foreign-key column
/// per association.
pub fn insert_factory(f: FactoryValue, store: &mut Store) -> (r: StoredRow)
    requires
        old(store).next_key + insert_count(f) <= i64::MAX,
    ensures
        final(store).next_key == old(store).next_key + insert_count(f),
        final(store).rows@.len() == old(store).rows@.len() + insert_count(f),
        old(store).rows@.is_prefix_of(final(store).rows@),
        r.key == final(store).next_key - 1,
        final(store).rows@.last().key == r.key,
        final(store).rows@.last().columns@ == r.columns@,
        row_of_insert(old(store).next_key as int, f, r),
        forall|i: int|
            0 <= i < f.associations@.len() ==> assoc_row_ok(
                old(store).next_key as int,
                old(store).rows@.len() as int,
                f.associations@,
                i,
                final(store).rows@,
            ),
    decreases insert_count(f), 0int,
{
    proof {
        lemma_insert_count_pos(f);
    }
    let ghost orig = f;
    let FactoryValue { fields, associations } = f;
    let mut columns = fields;
    let mut assocs = associations;
    let ghost m = orig.associations@.len() as int;
    while assocs.len() > 0
        invariant
            m == orig.associations@.len(),
            assocs@.len() <= m,
            assocs@ == orig.associations@.subrange(m - assocs@.len(), m),
            columns@.len() == orig.fields@.len() + (m - assocs@.len()),
            forall|i: int| 0 <= i < orig.fields@.len() ==> columns@[i] == orig.fields@[i],
            forall|i: int|
                0 <= i < m - assocs@.len() ==> (#[trigger] columns@[orig.fields@.len()
                    + i]).column@ == orig.associations@[i].column@ && columns@[orig.fields@.len()
                    + i].data is ForeignKey,
            forall|i: int|
                0 <= i < m - assocs@.len() ==> (#[trigger] columns@[orig.fields@.len() + i]).data
                    == ColumnData::ForeignKey(
                    resolved_fk_key(old(store).next_key as int, orig.associations@, i) as i64,
                ),
            store.next_key == old(store).next_key + (assoc_count_from(orig.associations@, 0)
                - assoc_count_from(orig.associations@, m - assocs@.len())),
            store.rows@.len() == old(store).rows@.len() + (assoc_count_from(orig.associations@, 0)
                - assoc_count_from(orig.associations@, m - assocs@.len())),
            old(store).rows@.is_prefix_of(store.rows@),
            forall|i: int|
                0 <= i < m - assocs@.len() ==> assoc_row_ok(
                    old(store).next_key as int,
                    old(store).rows@.len() as int,
                    orig.associations@,
                    i,
                    store.rows@,
                ),
            old(store).next_key + insert_count(orig) <= i64::MAX,
            insert_count(orig) == 1 + assoc_count_from(orig.associations@, 0),
            f == orig,
        decreases assocs@.len(),
    {
        let ghost done = m - assocs@.len();
        let ghost rows_before = store.rows@;
        let slot = assocs.remove(0);
        proof {
            assert(orig.associations@.subrange(done, m)[0] == orig.associations@[done]);
            assert(slot == orig.associations@[done]);
            assert(assocs@ =~= orig.associations@.subrange(done + 1, m));
            lemma_assoc_count_nonneg(orig.associations@, done + 1);
            lemma_slot_count_nonneg(orig.associations@[done].assoc);
            lemma_assoc_count_mono(orig.associations@, 0, done);
            assert(assoc_count_from(orig.associations@, done) == slot_insert_count(
                orig.associations@[done].assoc,
            ) + assoc_count_from(orig.associations@, done + 1));
        }
        let column = slot.column;
        proof {
            assert(slot_insert_count(slot.assoc) < insert_count(f));
        }
        let key: i64 = resolve(slot.assoc, store);
        columns.push(ColumnValue { column, data: ColumnData::ForeignKey(key) });
        proof {
            assert(rows_before.is_prefix_of(store.rows@));
            assert(old(store).rows@.is_prefix_of(store.rows@)) by {
                assert(store.rows@.subrange(0, old(store).rows@.len() as int) =~= old(
                    store,
                ).rows@);
            }
            assert(store.rows@.subrange(0, rows_before.len() as int) == rows_before);
            assert forall|i: int| 0 <= i < done implies assoc_row_ok(
                old(store).next_key as int,
                old(store).rows@.len() as int,
                orig.associations@,
                i,
                store.rows@,
            ) by {
                lemma_assoc_count_mono(orig.associations@, 0, i);
                lemma_assoc_count_mono(orig.associations@, i + 1, done);
                if !(orig.associations@[i].assoc is Existing) {
                    lemma_slot_count_pos(orig.associations@[i].assoc);
                    assert(assoc_count_from(orig.associations@, i) == slot_insert_count(
                        orig.associations@[i].assoc,
                    ) + assoc_count_from(orig.associations@, i + 1));
                    let idx = old(store).rows@.len() + (assoc_count_from(orig.associations@, 0)
                        - assoc_count_from(orig.associations@, i + 1)) - 1;
                    assert(0 <= idx < rows_before.len());
                    assert(rows_before[idx] == store.rows@.subrange(
                        0,
                        rows_before.len() as int,
                    )[idx]);
                    assert(store.rows@[idx] == rows_before[idx]);
                }
            }
            assert(assoc_row_ok(
                old(store).next_key as int,
                old(store).rows@.len() as int,
                orig.associations@,
                done,
                store.rows@,
            ));
        }
    }
    proof {
        assert(assocs@.len() == 0);
        assert(assoc_count_from(orig.associations@, m) == 0);
        lemma_assoc_count_nonneg(orig.associations@, 0);
    }
    let ghost rows_resolved = store.rows@;
    let r = store.insert_returning(columns);
    proof {
        assert(old(store).rows@.is_prefix_of(store.rows@)) by {
            assert(store.rows@.subrange(0, old(store).rows@.len() as int) =~= old(store).rows@);
        }
        assert(store.rows@.subrange(0, rows_resolved.len() as int) == rows_resolved);
        assert forall|i: int| 0 <= i < orig.associations@.len() implies assoc_row_ok(
            old(store).next_key as int,
            old(store).rows@.len() as int,
            orig.associations@,
            i,
            store.rows@,
        ) by {
            assert(assoc_row_ok(
                old(store).next_key as int,
                old(store).rows@.len() as int,
                orig.associations@,
                i,
                rows_resolved,
            ));
            lemma_assoc_count_mono(orig.associations@, 0, i);
            lemma_assoc_count_mono(orig.associations@, i + 1, m);
            if !(orig.associations@[i].assoc is Existing) {
                lemma_slot_count_pos(orig.associations@[i].assoc);
                assert(assoc_count_from(orig.associations@, i) == slot_insert_count(
                    orig.associations@[i].assoc,
                ) + assoc_count_from(orig.associations@, i + 1));
                let idx = old(store).rows@.len() + (assoc_count_from(orig.associations@, 0)
                    - assoc_count_from(orig.associations@, i + 1)) - 1;
                assert(0 <= idx < rows_resolved.len());
                assert(rows_resolved[idx] == store.rows@.subrange(
                    0,
                    rows_resolved.len() as int,
                )[idx]);
                assert(store.rows@[idx] == rows_resolved[idx]);
            }
        }
    }
    r
}

// ---------------------------------------------------------------------
// Builder overrides
// ---------------------------------------------------------------------

/// The first field at or after `i` whose column is `name`, or `-1`.
pub open spec fn field_index_from(s: Seq<ColumnValue>, name: Seq<char>, i: int) -> int
    decreases s.len() - i when 0 <= i
{
    if i >= s.len() {
        -1
    } else if s[i].column@ == name {
        i
    } else {
        field_index_from(s, name, i + 1)
    }
}

/// What one generated setter does to the plain fields: the first field
/// named `name` takes `data`; every other field keeps its value.
pub open spec fn spec_set_field(
    fields: Seq<ColumnValue>,
    name: Seq<char>,
    data: ColumnData,
) -> Seq<ColumnValue> {
    let idx = field_index_from(fields, name, 0);
    if idx == -1 {
        fields
    } else {
        fields.update(idx, ColumnValue { column: fields[idx].column, data })
    }
}

/// The first association slot at or after `i` for `column`, or `-1`.
pub open spec fn assoc_index_from(s: Seq<AssociationSlot>, column: Seq<char>, i: int) -> int
    decreases s.len() - i when 0 <= i
{
    if i >= s.len() {
        -1
    } else if s[i].column@ == column {
        i
    } else {
        assoc_index_from(s, column, i + 1)
    }
}

impl FactoryValue {
    /// One generated plain setter: assigns `data` to the named field and
    /// returns the factory, leaving every other field and every
    /// association unchanged.  Calling setters in any order is
    /// equivalent; the last write to a field wins.
    pub fn set_field(self, name: &str, data: ColumnData) -> (r: FactoryValue)
        ensures
            r.associations == self.associations,
            r.fields@ == spec_set_field(self.fields@, name@, data),
    {
        let FactoryValue { mut fields, associations } = self;
        let n = fields.len();
        let mut i: usize = 0;
        while i < n
            invariant
                0 <= i <= n,
                n == fields@.len(),
                fields@ == self.fields@,
                associations == self.associations,
                field_index_from(fields@, name@, 0) == field_index_from(fields@, name@, i as int),
            decreases n - i,
        {
            if str_eq(fields[i].column.as_str(), name) {
                let column = fields[i].column.clone();
                fields[i] = ColumnValue { column, data };
                proof {
                    assert(fields@ =~= spec_set_field(self.fields@, name@, data));
                }
                return FactoryValue { fields, associations };
            }
            i += 1;
        }
        FactoryValue { fields, associations }
    }

    /// One generated relationship setter: assigns the association to the
    /// named slot and returns the factory, leaving every other slot and
    /// every plain field unchanged.  An association, once assigned, is
    /// terminal until resolution consumes it.
    pub fn set_association(self, column: &str, assoc: AssociationValue) -> (r: FactoryValue)
        ensures
            r.fields == self.fields,
            ({
                let idx = assoc_index_from(self.associations@, column@, 0);
                if idx == -1 {
                    r.associations@ == self.associations@
                } else {
                    r.associations@ == self.associations@.update(
                        idx,
                        AssociationSlot { column: self.associations@[idx].column, assoc },
                    )
                }
            }),
    {
        let FactoryValue { fields, mut associations } = self;
        let n = associations.len();
        let mut i: usize = 0;
        while i < n
            invariant
                0 <= i <= n,
                n == associations@.len(),
                associations@ == self.associations@,
                fields == self.fields,
                assoc_index_from(associations@, column@, 0) == assoc_index_from(
                    associations@,
                    column@,
                    i as int,
                ),
            decreases n - i,
        {
            if str_eq(associations[i].column.as_str(), column) {
                let col = associations[i].column.clone();
                associations[i] = AssociationSlot { column: col, assoc };
                return FactoryValue { fields, associations };
            }
            i += 1;
        }
        FactoryValue { fields, associations }
    }
}

// ---------------------------------------------------------------------
// The round trip
// ---------------------------------------------------------------------

/// Column names all differ, as a struct's field names do.
pub open spec fn distinct_columns(s: Seq<ColumnValue>) -> bool {
    forall|i: int, j: int|
        0 <= i < j < s.len() ==> (#[trigger] s[i]).column@ != (#[trigger] s[j]).column@
}

/// A whole builder chain: each override applied in turn, first to last.
pub open spec fn apply_overrides(
    fields: Seq<ColumnValue>,
    ov: Seq<(Seq<char>, ColumnData)>,
) -> Seq<ColumnValue>
    decreases ov.len(),
{
    if ov.len() == 0 {
        fields
    } else {
        apply_overrides(spec_set_field(fields, ov[0].0, ov[0].1), ov.drop_first())
    }
}

/// The value of the last override in `ov` that names `name`, if any.
pub open spec fn last_override(ov: Seq<(Seq<char>, ColumnData)>, name: Seq<char>) -> Option<
    ColumnData,
>
    decreases ov.len(),
{
    if ov.len() == 0 {
        None
    } else {
        match last_override(ov.drop_first(), name) {
            Some(d) => Some(d),
            None => if ov[0].0 == name {
                Some(ov[0].1)
            } else {
                None
            },
        }
    }
}

proof fn lemma_field_index_range(s: Seq<ColumnValue>, name: Seq<char>, i: int)
    requires
        0 <= i,
    ensures
        ({
            let idx = field_index_from(s, name, i);
            if idx == -1 {
                forall|k: int| i <= k < s.len() ==> (#[trigger] s[k]).column@ != name
            } else {
                i <= idx < s.len() && s[idx].column@ == name && forall|k: int|
                    i <= k < idx ==> (#[trigger] s[k]).column@ != name
            }
        }),
    decreases s.len() - i,
{
    if i < s.len() && s[i].column@ != name {
        lemma_field_index_range(s, name, i + 1);
    }
}

proof fn lemma_field_index_hits(s: Seq<ColumnValue>, name: Seq<char>, t: int)
    requires
        0 <= t < s.len(),
        s[t].column@ == name,
        distinct_columns(s),
    ensures
        field_index_from(s, name, 0) == t,
{
    lemma_field_index_range(s, name, 0);
}

/// What one override does, field by field: the named field — there is at
/// most one, since a struct's field names differ — takes the value;
/// every other field is untouched.
pub proof fn lemma_set_field_pointwise(s: Seq<ColumnValue>, name: Seq<char>, data: ColumnData)
    requires
        distinct_columns(s),
    ensures
        spec_set_field(s, name, data).len() == s.len(),
        forall|t: int|
            0 <= t < s.len() ==> (#[trigger] spec_set_field(s, name, data)[t]).column@
                == s[t].column@,
        forall|t: int|
            0 <= t < s.len() && s[t].column@ != name ==> #[trigger] spec_set_field(s, name, data)[t]
                == s[t],
        forall|t: int|
            0 <= t < s.len() && s[t].column@ == name ==> (#[trigger] spec_set_field(
                s,
                name,
                data,
            )[t]).data == data,
        distinct_columns(spec_set_field(s, name, data)),
{
    lemma_field_index_range(s, name, 0);
    if field_index_from(s, name, 0) >= 0 {
        let idx = field_index_from(s, name, 0);
        assert forall|t: int| 0 <= t < s.len() && s[t].column@ == name implies (
        #[trigger] spec_set_field(s, name, data)[t]).data == data by {
            lemma_field_index_hits(s, name, t);
        }
    }
}

/// The round trip: starting from a factory's default values and applying
/// any chain of overrides, a field that was overridden holds the value
/// of its last override, and a field that was not holds its default —
/// and by the contract of [`insert_factory`], the inserted record's
/// plain columns are exactly these final field values.
pub proof fn lemma_round_trip(
    fields: Seq<ColumnValue>,
    ov: Seq<(Seq<char>, ColumnData)>,
    t: int,
)
    requires
        distinct_columns(fields),
        0 <= t < fields.len(),
    ensures
        apply_overrides(fields, ov).len() == fields.len(),
        apply_overrides(fields, ov)[t].column@ == fields[t].column@,
        match last_override(ov, fields[t].column@) {
            Some(d) => apply_overrides(fields, ov)[t].data == d,
            None => apply_overrides(fields, ov)[t] == fields[t],
        },
    decreases ov.len(),
{
    if ov.len() > 0 {
        let f1 = spec_set_field(fields, ov[0].0, ov[0].1);
        lemma_set_field_pointwise(fields, ov[0].0, ov[0].1);
        lemma_round_trip(f1, ov.drop_first(), t);
    }
}

fn clone_data(d: &ColumnData) -> (r: ColumnData)
    ensures
        r == *d,
{
    match d {
        ColumnData::Text(s) => ColumnData::Text(s.clone()),
        ColumnData::Integer(n) => ColumnData::Integer(*n),
        ColumnData::ForeignKey(k) => ColumnData::ForeignKey(*k),
    }
}

fn clone_columns(v: &Vec<ColumnValue>) -> (r: Vec<ColumnValue>)
    ensures
        r@ == v@,
{
    let mut out: Vec<ColumnValue> = Vec::new();
    let n = v.len();
    let mut i: usize = 0;
    while i < n
        invariant
            0 <= i <= n,
            n == v@.len(),
            out@ == v@.subrange(0, i as int),
        decreases n - i,
    {
        let c = &v[i];
        out.push(ColumnValue { column: c.column.clone(), data: clone_data(&c.data) });
        proof {
            assert(out@ =~= v@.subrange(0, i + 1));
        }
        i += 1;
    }
    proof {
        assert(out@ =~= v@);
    }
    out
}

} // verus!
