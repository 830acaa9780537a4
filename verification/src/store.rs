//! Model of the persisted `subscriptions` table.
//!
//! The table keeps one row per subscriber, keyed by a server-generated
//! identifier that is its primary key: an insert under an identifier that
//! is already present is refused, and a refused or failed insert leaves
//! the table exactly as it was — a single insert is all-or-nothing.
use vstd::prelude::*;

verus! {

/// One persisted subscriber.
pub struct SubscriberRow {
    /// Server-generated identifier; the primary key, never reused.
    pub id: u128,
    /// Submitted email address.
    pub email: String,
    /// Submitted name.
    pub name: String,
    /// Server clock at persistence time, in milliseconds since the epoch.
    pub subscribed_at_ms: i64,
}

/// Why a persistence step failed; every variant is answered with HTTP 500.
#[derive(Clone, Copy, Debug, PartialEq, Eq, Structural)]
pub enum StoreError {
    /// The row's identifier is already present.
    DuplicateId,
    /// No connection could be acquired within the acquire timeout, or the
    /// store refused the statement.
    Unavailable,
}

/// Pairwise distinctness of the identifiers of the given rows.
pub open spec fn ids_unique(rows: Seq<SubscriberRow>) -> bool {
    forall|i: int, j: int| 0 <= i < j < rows.len() ==> rows[i].id != rows[j].id
}

/// True when some row carries the given identifier.
pub open spec fn has_id(rows: Seq<SubscriberRow>, id: u128) -> bool {
    exists|i: int| 0 <= i < rows.len() && rows[i].id == id
}

/// How many rows carry the given email.
pub open spec fn count_with_email(rows: Seq<SubscriberRow>, email: Seq<char>) -> nat
    decreases rows.len(),
{
    if rows.len() == 0 {
        0
    } else {
        (if rows[0].email@ == email {
            1nat
        } else {
            0nat
        }) + count_with_email(rows.skip(1), email)
    }
}

/// What one insert does to the rows: refused under a present identifier,
/// appended otherwise.
pub open spec fn spec_insert(rows: Seq<SubscriberRow>, row: SubscriberRow) -> Result<
    Seq<SubscriberRow>,
    StoreError,
> {
    if has_id(rows, row.id) {
        Err(StoreError::DuplicateId)
    } else {
        Ok(rows.push(row))
    }
}

/// Appending a row changes only the count of its own email.
pub proof fn lemma_count_push(rows: Seq<SubscriberRow>, row: SubscriberRow, email: Seq<char>)
    ensures
        count_with_email(rows.push(row), email) == count_with_email(rows, email) + (
        if row.email@ == email {
            1nat
        } else {
            0nat
        }),
    decreases rows.len(),
{
    let delta: nat = if row.email@ == email {
        1nat
    } else {
        0nat
    };
    if rows.len() == 0 {
        assert(rows.push(row)[0] == row);
        assert(rows.push(row).skip(1) =~= Seq::<SubscriberRow>::empty());
        assert(count_with_email(rows.push(row), email) == delta + count_with_email(
            Seq::<SubscriberRow>::empty(),
            email,
        ));
        assert(count_with_email(Seq::<SubscriberRow>::empty(), email) == 0);
        assert(count_with_email(rows, email) == 0);
    } else {
        let head_delta: nat = if rows[0].email@ == email {
            1nat
        } else {
            0nat
        };
        assert(rows.push(row)[0] == rows[0]);
        assert(rows.push(row).skip(1) =~= rows.skip(1).push(row));
        lemma_count_push(rows.skip(1), row, email);
        assert(count_with_email(rows.push(row), email) == head_delta + count_with_email(
            rows.skip(1).push(row),
            email,
        ));
        assert(count_with_email(rows, email) == head_delta + count_with_email(
            rows.skip(1),
            email,
        ));
    }
}

/// A count of zero means no row matches, and conversely.
pub proof fn lemma_count_zero(rows: Seq<SubscriberRow>, email: Seq<char>)
    ensures
        count_with_email(rows, email) == 0 <==> (forall|i: int|
            0 <= i < rows.len() ==> rows[i].email@ != email),
    decreases rows.len(),
{
    if rows.len() > 0 {
        lemma_count_zero(rows.skip(1), email);
        assert(forall|i: int| 0 < i < rows.len() ==> rows[i] == rows.skip(1)[i - 1]);
    }
}

/// The in-memory model of the `subscriptions` table.
pub struct SubscriptionTable {
    rows: Vec<SubscriberRow>,
}

impl SubscriptionTable {
    /// The rows in insertion order.
    pub closed spec fn entries(&self) -> Seq<SubscriberRow> {
        self.rows@
    }

    /// Table invariant: identifiers are unique.
    pub open spec fn wf(&self) -> bool {
        ids_unique(self.entries())
    }

    /// An empty table.
    pub fn new() -> (r: Self)
        ensures
            r.entries() == Seq::<SubscriberRow>::empty(),
            r.wf(),
    {
        SubscriptionTable { rows: Vec::new() }
    }

    /// How many rows the table holds.
    pub fn len(&self) -> (r: usize)
        ensures
            r == self.entries().len(),
    {
        self.rows.len()
    }

    /// The row at the given position.
    pub fn get(&self, i: usize) -> (r: &SubscriberRow)
        requires
            i < self.entries().len(),
        ensures
            *r == self.entries()[i as int],
    {
        &self.rows[i]
    }

    /// Whether some row already carries the given identifier.
    pub fn contains_id(&self, id: u128) -> (r: bool)
        ensures
            r == has_id(self.entries(), id),
    {
        let mut i: usize = 0;
        while i < self.rows.len()
            invariant
                i <= self.rows.len(),
                self.entries() == self.rows@,
                forall|j: int| 0 <= j < i ==> self.rows@[j].id != id,
            decreases self.rows.len() - i,
        {
            if self.rows[i].id == id {
                return true;
            }
            i = i + 1;
        }
        false
    }

    /// Inserts one row, as [`spec_insert`] describes: all-or-nothing, and
    /// refused when the identifier is already present.
    pub fn insert(&mut self, row: SubscriberRow) -> (r: Result<(), StoreError>)
        requires
            old(self).wf(),
        ensures
            final(self).wf(),
            match spec_insert(old(self).entries(), row) {
                Ok(nr) => r == Ok::<(), StoreError>(()) && final(self).entries() == nr,
                Err(e) => r == Err::<(), StoreError>(e) && final(self).entries() == old(
                    self,
                ).entries(),
            },
    {
        if self.contains_id(row.id) {
            Err(StoreError::DuplicateId)
        } else {
            self.rows.push(row);
            Ok(())
        }
    }

    /// How many rows carry the given email.
    pub fn count_by_email(&self, email: &String) -> (r: usize)
        ensures
            r == count_with_email(self.entries(), email@),
    {
        let mut count: usize = 0;
        let mut i: usize = 0;
        proof {
            assert(self.entries().skip(0) =~= self.entries());
        }
        while i < self.rows.len()
            invariant
                i <= self.rows.len(),
                self.entries() == self.rows@,
                count <= i,
                count_with_email(self.entries(), email@) == count + count_with_email(
                    self.entries().skip(i as int),
                    email@,
                ),
            decreases self.rows.len() - i,
        {
            let ghost rest = self.entries().skip(i as int);
            proof {
                assert(rest.skip(1) =~= self.entries().skip(i + 1));
            }
            if self.rows[i].email.eq(email) {
                count = count + 1;
            }
            i = i + 1;
        }
        proof {
            assert(self.entries().skip(i as int) =~= Seq::<SubscriberRow>::empty());
        }
        count
    }

    /// The position of the first row with the given email, if any.
    pub fn find_by_email(&self, email: &String) -> (r: Option<usize>)
        ensures
            r matches Some(i) ==> i < self.entries().len() && self.entries()[i as int].email@
                == email@ && (forall|j: int| 0 <= j < i ==> self.entries()[j].email@ != email@),
            r is None ==> count_with_email(self.entries(), email@) == 0,
    {
        let mut i: usize = 0;
        while i < self.rows.len()
            invariant
                i <= self.rows.len(),
                self.entries() == self.rows@,
                forall|j: int| 0 <= j < i ==> self.rows@[j].email@ != email@,
            decreases self.rows.len() - i,
        {
            if self.rows[i].email.eq(email) {
                return Some(i);
            }
            i = i + 1;
        }
        proof {
            lemma_count_zero(self.entries(), email@);
        }
        None
    }
}

/// Two submissions persisted under distinct fresh identifiers both
/// succeed, whatever their relative order, and both rows are present
/// afterwards: concurrent valid submissions lose nothing to each other.
pub proof fn lemma_distinct_inserts_both_persist(
    rows: Seq<SubscriberRow>,
    a: SubscriberRow,
    b: SubscriberRow,
)
    requires
        ids_unique(rows),
        !has_id(rows, a.id),
        !has_id(rows, b.id),
        a.id != b.id,
    ensures
        spec_insert(rows, a) == Ok::<_, StoreError>(rows.push(a)),
        spec_insert(rows.push(a), b) == Ok::<_, StoreError>(rows.push(a).push(b)),
        ids_unique(rows.push(a).push(b)),
        rows.push(a).push(b).contains(a),
        rows.push(a).push(b).contains(b),
        rows.push(a).push(b).len() == rows.len() + 2,
{
    let after = rows.push(a).push(b);
    assert(!has_id(rows.push(a), b.id)) by {
        assert(forall|i: int|
            0 <= i < rows.len() ==> rows.push(a)[i] == rows[i]);
    }
    assert(after[rows.len() as int] == a);
    assert(after[rows.len() as int + 1] == b);
    assert(forall|i: int| 0 <= i < rows.len() ==> after[i] == rows[i]);
}

} // verus!
