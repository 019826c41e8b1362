//! The person table: rows keyed by a unique id, kept ordered by creation
//! time, newest first, so that listing a page is a plain slice of the table.

use vstd::prelude::*;

use crate::errors::StoreError;

verus! {

/// The mathematical value of a person row.
pub struct PersonView {
    pub id: u128,
    pub first_name: Seq<char>,
    pub middle_name: Option<Seq<char>>,
    pub last_name: Seq<char>,
    pub suffix: Option<Seq<char>>,
    pub created_date_time: i64,
    pub updated_date_time: Option<i64>,
}

/// The fields a caller supplies when creating a person.  The creation
/// timestamp of the stored row is assigned by the store, not taken from
/// here.
pub struct NewPersonRecord {
    pub id: u128,
    pub first_name: String,
    pub middle_name: Option<String>,
    pub last_name: String,
    pub suffix: Option<String>,
    pub created_date_time: i64,
}

/// A stored person row.
#[derive(Debug)]
pub struct PersonRecord {
    pub id: u128,
    pub first_name: String,
    pub middle_name: Option<String>,
    pub last_name: String,
    pub suffix: Option<String>,
    pub created_date_time: i64,
    pub updated_date_time: Option<i64>,
}

impl View for PersonRecord {
    type V = PersonView;

    open spec fn view(&self) -> PersonView {
        PersonView {
            id: self.id,
            first_name: self.first_name@,
            middle_name: self.middle_name.deep_view(),
            last_name: self.last_name@,
            suffix: self.suffix.deep_view(),
            created_date_time: self.created_date_time,
            updated_date_time: self.updated_date_time,
        }
    }
}

impl DeepView for PersonRecord {
    type V = PersonView;

    open spec fn deep_view(&self) -> PersonView {
        self.view()
    }
}

/// An owned copy of an optional string, with the same view.
pub(crate) fn clone_opt_string(o: &Option<String>) -> (r: Option<String>)
    ensures
        r.deep_view() == o.deep_view(),
{
    match o {
        Some(s) => Some(s.clone()),
        None => None,
    }
}

impl PersonRecord {
    /// An owned copy of the row, with the same view.
    pub fn duplicate(&self) -> (r: Self)
        ensures
            r@ == self@,
    {
        PersonRecord {
            id: self.id,
            first_name: self.first_name.clone(),
            middle_name: clone_opt_string(&self.middle_name),
            last_name: self.last_name.clone(),
            suffix: clone_opt_string(&self.suffix),
            created_date_time: self.created_date_time,
            updated_date_time: self.updated_date_time,
        }
    }
}

// ---------------------------------------------------------------------------
// Spec-level structure of the table.
// ---------------------------------------------------------------------------

/// The row a creation persists: the caller's id and names, the store's
/// creation timestamp, no update timestamp yet.
pub open spec fn persisted_view(user: NewPersonRecord, now: i64) -> PersonView {
    PersonView {
        id: user.id,
        first_name: user.first_name@,
        middle_name: user.middle_name.deep_view(),
        last_name: user.last_name@,
        suffix: user.suffix.deep_view(),
        created_date_time: now,
        updated_date_time: None,
    }
}

/// The row an update persists: the caller's names over the stored row's id
/// and creation timestamp, with the update timestamp set.
pub open spec fn updated_view(user: PersonRecord, created: i64, now: i64) -> PersonView {
    PersonView {
        id: user.id,
        first_name: user.first_name@,
        middle_name: user.middle_name.deep_view(),
        last_name: user.last_name@,
        suffix: user.suffix.deep_view(),
        created_date_time: created,
        updated_date_time: Some(now),
    }
}

/// Some row holds this id.
pub open spec fn has_person_id(s: Seq<PersonView>, id: u128) -> bool {
    exists|i: int| 0 <= i < s.len() && s[i].id == id
}

/// The index of the row holding this id (meaningful when ids are unique and
/// the id is present).
pub open spec fn index_of_id(s: Seq<PersonView>, id: u128) -> int {
    choose|i: int| 0 <= i < s.len() && s[i].id == id
}

/// Rows are ordered by creation time, newest first.
pub open spec fn sorted_newest_first(s: Seq<PersonView>) -> bool {
    forall|i: int, j: int|
        0 <= i < j < s.len() ==> s[i].created_date_time >= s[j].created_date_time
}

/// No two rows share an id.
pub open spec fn unique_ids(s: Seq<PersonView>) -> bool {
    forall|i: int, j: int| 0 <= i < j < s.len() ==> s[i].id != s[j].id
}

/// The table invariant.
pub open spec fn table_wf(s: Seq<PersonView>) -> bool {
    sorted_newest_first(s) && unique_ids(s)
}

/// Where a row created at time `t` is placed: after every row created at
/// `t` or later, before every row created earlier.
pub open spec fn insert_pos(s: Seq<PersonView>, t: i64) -> int
    decreases s.len(),
{
    if s.len() == 0 {
        0
    } else if s[0].created_date_time >= t {
        1 + insert_pos(s.drop_first(), t)
    } else {
        0
    }
}

/// The page `[offset, offset + limit)` of the table, clipped to its length.
pub open spec fn page(s: Seq<PersonView>, offset: int, limit: int) -> Seq<PersonView> {
    let lo = if offset > s.len() {
        s.len() as int
    } else {
        offset
    };
    let hi = if offset + limit > s.len() {
        s.len() as int
    } else {
        offset + limit
    };
    s.subrange(lo, hi)
}

proof fn lemma_insert_pos_bounds(s: Seq<PersonView>, t: i64)
    ensures
        0 <= insert_pos(s, t) <= s.len(),
        forall|i: int| 0 <= i < insert_pos(s, t) ==> s[i].created_date_time >= t,
        insert_pos(s, t) < s.len() ==> s[insert_pos(s, t)].created_date_time < t,
    decreases s.len(),
{
    if s.len() > 0 && s[0].created_date_time >= t {
        lemma_insert_pos_bounds(s.drop_first(), t);
        assert forall|i: int| 0 <= i < insert_pos(s, t) implies s[i].created_date_time >= t by {
            if i > 0 {
                assert(s.drop_first()[i - 1] == s[i]);
            }
        }
        if insert_pos(s, t) < s.len() {
            assert(s.drop_first()[insert_pos(s.drop_first(), t)] == s[insert_pos(s, t)]);
        }
    }
}

/// Inserting a fresh row at its position keeps the table well formed.
proof fn lemma_insert_keeps_wf(s: Seq<PersonView>, p: PersonView)
    requires
        table_wf(s),
        !has_person_id(s, p.id),
    ensures
        table_wf(s.insert(insert_pos(s, p.created_date_time), p)),
{
    let t = p.created_date_time;
    let k = insert_pos(s, t);
    lemma_insert_pos_bounds(s, t);
    let r = s.insert(k, p);
    assert forall|i: int, j: int|
        0 <= i < j < r.len() implies r[i].created_date_time >= r[j].created_date_time by {
        if i < k && j < k {
        } else if i < k && j == k {
        } else if i < k && j > k {
            assert(r[j] == s[j - 1]);
        } else if i == k && j > k {
            assert(r[j] == s[j - 1]);
            if j - 1 >= k + 1 {
                assert(s[k].created_date_time >= s[j - 1].created_date_time);
            }
        } else {
            assert(r[i] == s[i - 1] && r[j] == s[j - 1]);
        }
    }
    assert forall|i: int, j: int| 0 <= i < j < r.len() implies r[i].id != r[j].id by {
        if i != k && j != k {
            let i0 = if i < k {
                i
            } else {
                i - 1
            };
            let j0 = if j < k {
                j
            } else {
                j - 1
            };
            assert(r[i] == s[i0] && r[j] == s[j0]);
        } else if i == k {
            assert(r[j] == s[j - 1]);
            assert(!(s[j - 1].id == p.id));
        } else {
            assert(r[i] == s[i]);
            assert(!(s[i].id == p.id));
        }
    }
}

/// Removing a row keeps the table well formed.
proof fn lemma_remove_keeps_wf(s: Seq<PersonView>, k: int)
    requires
        table_wf(s),
        0 <= k < s.len(),
    ensures
        table_wf(s.remove(k)),
{
    let r = s.remove(k);
    assert forall|i: int, j: int|
        0 <= i < j < r.len() implies r[i].created_date_time >= r[j].created_date_time && r[i].id
        != r[j].id by {
        let i0 = if i < k {
            i
        } else {
            i + 1
        };
        let j0 = if j < k {
            j
        } else {
            j + 1
        };
        assert(r[i] == s[i0] && r[j] == s[j0]);
    }
}

/// Replacing a row in place, keeping its id and creation time, keeps the
/// table well formed.
proof fn lemma_update_keeps_wf(s: Seq<PersonView>, k: int, p: PersonView)
    requires
        table_wf(s),
        0 <= k < s.len(),
        p.id == s[k].id,
        p.created_date_time == s[k].created_date_time,
    ensures
        table_wf(s.update(k, p)),
{
}

// ---------------------------------------------------------------------------
// The table itself.
// ---------------------------------------------------------------------------

/// The person table.
pub struct PersonDb {
    rows: Vec<PersonRecord>,
}

impl View for PersonDb {
    type V = Seq<PersonView>;

    closed spec fn view(&self) -> Seq<PersonView> {
        self.rows.deep_view()
    }
}

impl PersonDb {
    /// The table invariant: rows ordered newest first, ids unique.
    pub open spec fn wf(&self) -> bool {
        table_wf(self@)
    }

    /// An empty table.
    pub fn new() -> (db: Self)
        ensures
            db@ == Seq::<PersonView>::empty(),
            db.wf(),
    {
        let db = PersonDb { rows: Vec::new() };
        proof {
            assert(db@ =~= Seq::<PersonView>::empty());
        }
        db
    }

    /// Whether some row holds this id.
    pub fn contains_id(&self, id: u128) -> (r: bool)
        ensures
            r == has_person_id(self@, id),
    {
        let n = self.rows.len();
        let mut i: usize = 0;
        while i < n
            invariant
                i <= n,
                n == self@.len(),
                forall|j: int| 0 <= j < i ==> self@[j].id != id,
            decreases n - i,
        {
            if self.rows[i].id == id {
                assert(self@[i as int].id == id);
                return true;
            }
            i += 1;
        }
        false
    }

    /// The index of the row holding this id, if any.
    fn find_index(&self, id: u128) -> (r: Option<usize>)
        requires
            self.wf(),
        ensures
            match r {
                Some(i) => i < self@.len() && self@[i as int].id == id && i as int == index_of_id(
                    self@,
                    id,
                ),
                None => !has_person_id(self@, id),
            },
    {
        let n = self.rows.len();
        let mut i: usize = 0;
        while i < n
            invariant
                i <= n,
                n == self@.len(),
                self.wf(),
                forall|j: int| 0 <= j < i ==> self@[j].id != id,
            decreases n - i,
        {
            if self.rows[i].id == id {
                proof {
                    let w = index_of_id(self@, id);
                    assert(self@[i as int].id == id);
                    assert(0 <= w < self@.len() && self@[w].id == id);
                    assert(w == i as int);
                }
                return Some(i);
            }
            i += 1;
        }
        None
    }

    /// Point lookup; absence is a normal outcome, not an error.
    pub fn get_by_id(&self, id: u128) -> (r: Option<PersonRecord>)
        requires
            self.wf(),
        ensures
            match r {
                Some(p) => has_person_id(self@, id) && p@ == self@[index_of_id(self@, id)],
                None => !has_person_id(self@, id),
            },
    {
        match self.find_index(id) {
            Some(i) => Some(self.rows[i].duplicate()),
            None => None,
        }
    }

    /// The page `[offset, offset + limit)` of the table, newest row first.
    /// Negative pagination arguments are rejected; there is no upper bound.
    pub fn list(&self, offset: i64, limit: i64) -> (r: Result<Vec<PersonRecord>, StoreError>)
        ensures
            match r {
                Ok(v) => offset >= 0 && limit >= 0 && v.deep_view() == page(
                    self@,
                    offset as int,
                    limit as int,
                ),
                Err(e) => e == StoreError::InvalidPagination && (offset < 0 || limit < 0),
            },
    {
        if offset < 0 || limit < 0 {
            return Err(StoreError::InvalidPagination);
        }
        let n = self.rows.len();
        let lo: usize = if offset as u64 >= n as u64 {
            n
        } else {
            offset as usize
        };
        let remaining: usize = n - lo;
        let count: usize = if limit as u64 >= remaining as u64 {
            remaining
        } else {
            limit as usize
        };
        proof {
            assert(lo as int == if offset as int > self@.len() {
                self@.len() as int
            } else {
                offset as int
            });
            assert(lo as int + count as int == if offset as int + limit as int > self@.len() {
                self@.len() as int
            } else {
                offset as int + limit as int
            });
        }
        let mut v: Vec<PersonRecord> = Vec::new();
        let mut i: usize = 0;
        proof {
            assert(v.deep_view() =~= self@.subrange(lo as int, lo as int));
        }
        while i < count
            invariant
                i <= count,
                lo + count <= n,
                n == self@.len(),
                v.deep_view() == self@.subrange(lo as int, lo as int + i as int),
            decreases count - i,
        {
            let row = self.rows[lo + i].duplicate();
            let ghost pre = v.deep_view();
            v.push(row);
            proof {
                let cur = v.deep_view();
                assert(cur.len() == pre.len() + 1);
                assert forall|j: int| 0 <= j < cur.len() implies cur[j] == self@.subrange(
                    lo as int,
                    lo as int + i as int + 1,
                )[j] by {
                    if j < pre.len() {
                        assert(cur[j] == pre[j]);
                    } else {
                        assert(v@[j] == row);
                        assert(cur[j] == row@);
                        assert(row@ == self@[lo as int + i as int]);
                    }
                }
                assert(v.deep_view() =~= self@.subrange(lo as int, lo as int + i as int + 1));
            }
            i += 1;
        }
        proof {
            assert(v.deep_view() =~= page(self@, offset as int, limit as int));
        }
        Ok(v)
    }

    /// Where a row created at time `t` would be placed.
    fn find_insert_pos(&self, t: i64) -> (r: usize)
        requires
            self.wf(),
        ensures
            r as int == insert_pos(self@, t),
    {
        let n = self.rows.len();
        let mut i: usize = 0;
        while i < n
            invariant
                i <= n,
                n == self@.len(),
                self.wf(),
                forall|j: int| 0 <= j < i ==> self@[j].created_date_time >= t,
            decreases n - i,
        {
            if self.rows[i].created_date_time < t {
                proof {
                    lemma_insert_pos_unique(self@, t, i as int);
                }
                return i;
            }
            i += 1;
        }
        proof {
            lemma_insert_pos_bounds(self@, t);
            if insert_pos(self@, t) < self@.len() {
                assert(false);
            }
        }
        n
    }

    /// Inserts a new row with the caller-supplied id and fields; the
    /// creation timestamp is assigned by the store (`now`), and the row is
    /// returned as persisted.  Fails when the id is already taken.
    pub fn create(&mut self, user: &NewPersonRecord, now: i64) -> (r: Result<
        PersonRecord,
        StoreError,
    >)
        requires
            old(self).wf(),
        ensures
            final(self).wf(),
            match r {
                Ok(p) => !has_person_id(old(self)@, user.id) && p@ == persisted_view(*user, now)
                    && final(self)@ == old(self)@.insert(insert_pos(old(self)@, now), p@),
                Err(e) => e == StoreError::DuplicateId && has_person_id(old(self)@, user.id)
                    && final(self)@ == old(self)@,
            },
    {
        if self.contains_id(user.id) {
            return Err(StoreError::DuplicateId);
        }
        let p = PersonRecord {
            id: user.id,
            first_name: user.first_name.clone(),
            middle_name: clone_opt_string(&user.middle_name),
            last_name: user.last_name.clone(),
            suffix: clone_opt_string(&user.suffix),
            created_date_time: now,
            updated_date_time: None,
        };
        let stored = p.duplicate();
        let pos = self.find_insert_pos(now);
        proof {
            lemma_insert_pos_bounds(self@, now);
            lemma_insert_keeps_wf(self@, stored@);
        }
        self.rows.insert(pos, stored);
        proof {
            assert(final(self)@ =~= old(self)@.insert(insert_pos(old(self)@, now), p@));
        }
        Ok(p)
    }

    /// Full-row update of the row holding `user.id`: the name fields are
    /// replaced, the creation timestamp is kept, and the update timestamp is
    /// set to `now`.  Fails when no row holds the id.
    pub fn update(&mut self, user: &PersonRecord, now: i64) -> (r: Result<
        PersonRecord,
        StoreError,
    >)
        requires
            old(self).wf(),
        ensures
            final(self).wf(),
            match r {
                Ok(p) => has_person_id(old(self)@, user.id) && ({
                    let k = index_of_id(old(self)@, user.id);
                    p@ == updated_view(*user, old(self)@[k].created_date_time, now)
                        && final(self)@ == old(self)@.update(k, p@)
                }),
                Err(e) => e == StoreError::NotFound && !has_person_id(old(self)@, user.id)
                    && final(self)@ == old(self)@,
            },
    {
        match self.find_index(user.id) {
            None => Err(StoreError::NotFound),
            Some(k) => {
                let created = self.rows[k].created_date_time;
                let p = PersonRecord {
                    id: user.id,
                    first_name: user.first_name.clone(),
                    middle_name: clone_opt_string(&user.middle_name),
                    last_name: user.last_name.clone(),
                    suffix: clone_opt_string(&user.suffix),
                    created_date_time: created,
                    updated_date_time: Some(now),
                };
                let stored = p.duplicate();
                proof {
                    lemma_update_keeps_wf(self@, k as int, stored@);
                }
                self.rows.remove(k);
                self.rows.insert(k, stored);
                proof {
                    assert(final(self)@ =~= old(self)@.update(k as int, p@));
                }
                Ok(p)
            },
        }
    }

    /// Removes the row holding `id`; returns whether a row was removed.
    /// Deleting an absent id is a normal outcome, not an error.
    pub fn delete(&mut self, id: u128) -> (r: bool)
        requires
            old(self).wf(),
        ensures
            final(self).wf(),
            r == has_person_id(old(self)@, id),
            r ==> final(self)@ == old(self)@.remove(index_of_id(old(self)@, id)),
            !r ==> final(self)@ == old(self)@,
    {
        match self.find_index(id) {
            None => false,
            Some(k) => {
                proof {
                    lemma_remove_keeps_wf(self@, k as int);
                }
                self.rows.remove(k);
                proof {
                    assert(final(self)@ =~= old(self)@.remove(index_of_id(old(self)@, id)));
                }
                true
            },
        }
    }
}

/// Pagination is deterministic over an unchanged table: two consecutive
/// pages of size `n` are, in order, exactly the one page of size `2 * n`,
/// and, ids being unique, no row appears in both pages.
pub proof fn lemma_pagination(s: Seq<PersonView>, n: int)
    requires
        0 <= n,
    ensures
        page(s, 0, n) + page(s, n, n) == page(s, 0, 2 * n),
        unique_ids(s) ==> forall|i: int, j: int|
            0 <= i < page(s, 0, n).len() && 0 <= j < page(s, n, n).len() ==> #[trigger] page(
                s,
                0,
                n,
            )[i].id != #[trigger] page(s, n, n)[j].id,
{
    assert(page(s, 0, n) + page(s, n, n) =~= page(s, 0, 2 * n));
    if unique_ids(s) {
        assert forall|i: int, j: int|
            0 <= i < page(s, 0, n).len() && 0 <= j < page(s, n, n).len() implies #[trigger] page(
            s,
            0,
            n,
        )[i].id != #[trigger] page(s, n, n)[j].id by {
            assert(page(s, 0, n)[i] == s[i]);
            assert(page(s, n, n)[j] == s[n + j]);
        }
    }
}

/// Any position with everything before it created at `t` or later and the
/// row at it created earlier is the insertion position.
proof fn lemma_insert_pos_unique(s: Seq<PersonView>, t: i64, k: int)
    requires
        0 <= k <= s.len(),
        forall|j: int| 0 <= j < k ==> s[j].created_date_time >= t,
        k < s.len() ==> s[k].created_date_time < t,
    ensures
        insert_pos(s, t) == k,
{
    lemma_insert_pos_bounds(s, t);
    let w = insert_pos(s, t);
    if w < k {
        assert(s[w].created_date_time >= t);
    } else if k < w {
        assert(s[k].created_date_time >= t);
    }
}

} // verus!
