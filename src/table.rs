use vstd::prelude::*;

use crate::errors::ServerError;

verus! {

/// The largest identifier a table hands out.
pub const MAX_ID: i32 = 0x7fff_ffff;

/// One table of the store: rows under identifiers that the table assigns,
/// kept in ascending order of identifier.
pub struct Table<R> {
    keys: Vec<i32>,
    rows: Vec<R>,
    next_id: i32,
}

/// Whether a sequence of identifiers is in strictly ascending order.
pub open spec fn strictly_ascending(s: Seq<i32>) -> bool {
    forall|i: int, j: int| 0 <= i < j < s.len() ==> s[i] < s[j]
}

/// A row that refers to rows of other tables: link `k` is the identifier
/// its `k`-th foreign key holds.
pub trait Linked {
    spec fn link(&self, k: int) -> i32;

    fn get_link(&self, k: usize) -> (r: i32)
        ensures
            r == self.link(k as int),
    ;
}

impl<R> Table<R> {
    /// The identifiers of the rows, in storage order.
    pub closed spec fn ids(&self) -> Seq<i32> {
        self.keys@
    }

    /// The rows, in storage order, matching `ids` position by position.
    pub closed spec fn entries(&self) -> Seq<R> {
        self.rows@
    }

    /// The identifier the next inserted row receives.
    pub closed spec fn next(&self) -> int {
        self.next_id as int
    }

    pub closed spec fn wf(&self) -> bool {
        &&& self.keys@.len() == self.rows@.len()
        &&& strictly_ascending(self.keys@)
        &&& 1 <= self.next_id
        &&& self.keys@.len() < self.next_id
        &&& forall|i: int| 0 <= i < self.keys@.len() ==> 1 <= #[trigger] self.keys@[i] < self.next_id
    }

    pub open spec fn len(&self) -> nat {
        self.ids().len()
    }

    pub open spec fn contains(&self, id: i32) -> bool {
        self.ids().contains(id)
    }

    /// The row under `id`; meaningful where `contains(id)`.
    pub open spec fn row(&self, id: i32) -> R {
        self.entries()[self.ids().index_of(id)]
    }

    /// The table with the row under `id` taken out.
    pub open spec fn without(&self, id: i32) -> (Seq<i32>, Seq<R>) {
        let k = self.ids().index_of(id);
        (self.ids().remove(k), self.entries().remove(k))
    }

    pub proof fn lemma_wf(&self)
        requires
            self.wf(),
        ensures
            self.ids().len() == self.entries().len(),
            strictly_ascending(self.ids()),
            forall|i: int| 0 <= i < self.ids().len() ==> 1 <= #[trigger] self.ids()[i] < self.next(),
            1 <= self.next(),
            self.ids().len() < self.next() <= MAX_ID,
    {
    }

    /// Position `k` holds `id`, and no other position does.
    pub proof fn lemma_index_of(&self, k: int)
        requires
            self.wf(),
            0 <= k < self.len(),
        ensures
            self.ids().index_of(self.ids()[k]) == k,
            self.contains(self.ids()[k]),
            self.row(self.ids()[k]) == self.entries()[k],
    {
        let s = self.ids();
        assert(s.contains(s[k]));
        let j = s.index_of(s[k]);
        assert(s[j] == s[k]);
        if j < k {
            assert(s[j] < s[k]);
        } else if k < j {
            assert(s[k] < s[j]);
        }
    }

    /// An empty table.
    pub fn new() -> (t: Table<R>)
        ensures
            t.wf(),
            t.ids().len() == 0,
            t.entries().len() == 0,
            t.next() == 1,
    {
        Table { keys: Vec::new(), rows: Vec::new(), next_id: 1 }
    }

    /// The number of rows.
    pub fn size(&self) -> (n: usize)
        requires
            self.wf(),
        ensures
            n == self.len(),
    {
        self.keys.len()
    }

    /// The identifier at position `k`.
    pub fn id_at(&self, k: usize) -> (id: i32)
        requires
            self.wf(),
            k < self.len(),
        ensures
            id == self.ids()[k as int],
    {
        self.keys[k]
    }

    /// The row at position `k`.
    pub fn row_at(&self, k: usize) -> (r: &R)
        requires
            self.wf(),
            k < self.len(),
        ensures
            *r == self.entries()[k as int],
    {
        &self.rows[k]
    }

    /// The position of the row under `id`, if there is one.
    pub fn position(&self, id: i32) -> (r: Option<usize>)
        requires
            self.wf(),
        ensures
            r is None <==> !self.contains(id),
            r matches Some(k) ==> k < self.len() && self.ids()[k as int] == id
                && self.ids().index_of(id) == k,
    {
        let mut k: usize = 0;
        while k < self.keys.len()
            invariant
                self.wf(),
                k <= self.keys@.len(),
                forall|i: int| 0 <= i < k ==> self.keys@[i] != id,
            decreases self.keys@.len() - k,
        {
            if self.keys[k] == id {
                proof {
                    self.lemma_index_of(k as int);
                }
                return Some(k);
            }
            k = k + 1;
        }
        proof {
            if self.ids().contains(id) {
                let j = self.ids().index_of(id);
                assert(self.keys@[j] == id);
            }
        }
        None
    }

    /// The row under `id`, if there is one.
    pub fn get(&self, id: i32) -> (r: Option<&R>)
        requires
            self.wf(),
        ensures
            r is None <==> !self.contains(id),
            r matches Some(x) ==> *x == self.row(id),
    {
        match self.position(id) {
            Some(k) => Some(&self.rows[k]),
            None => None,
        }
    }

    /// Adds `row` under a fresh identifier, larger than every identifier
    /// the table has handed out, and returns that identifier.
    pub fn insert(&mut self, row: R) -> (r: Result<i32, ServerError>)
        requires
            old(self).wf(),
        ensures
            final(self).wf(),
            r is Ok <==> old(self).next() < MAX_ID,
            old(self).next() < MAX_ID ==> r == Ok::<i32, ServerError>(old(self).next() as i32),
            match r {
                Ok(id) => {
                    &&& id == old(self).next()
                    &&& final(self).ids() == old(self).ids().push(id)
                    &&& final(self).entries() == old(self).entries().push(row)
                    &&& final(self).next() == id + 1
                },
                Err(e) => {
                    &&& e is InternalError
                    &&& old(self).next() == MAX_ID
                    &&& *final(self) == *old(self)
                },
            },
    {
        if self.next_id == MAX_ID {
            return Err(ServerError::InternalError);
        }
        let id = self.next_id;
        self.keys.push(id);
        self.rows.push(row);
        self.next_id = id + 1;
        proof {
            let s = self.keys@;
            assert forall|i: int, j: int| 0 <= i < j < s.len() implies s[i] < s[j] by {
                if j == s.len() - 1 {
                    assert(s[i] == old(self).keys@[i]);
                } else {
                    assert(s[i] == old(self).keys@[i]);
                    assert(s[j] == old(self).keys@[j]);
                }
            }
            assert forall|i: int| 0 <= i < s.len() implies 1 <= #[trigger] s[i] < self.next_id by {
                if i < s.len() - 1 {
                    assert(s[i] == old(self).keys@[i]);
                }
            }
        }
        Ok(id)
    }

    /// Puts `row` in place of the row under `id`; fails with not-found where
    /// no row has that id.
    pub fn replace(&mut self, id: i32, row: R) -> (r: Result<(), ServerError>)
        requires
            old(self).wf(),
        ensures
            final(self).wf(),
            r is Ok <==> old(self).contains(id),
            r matches Err(e) ==> e.is_not_found() && *final(self) == *old(self),
            r is Ok ==> final(self).ids() == old(self).ids()
                && final(self).entries() == old(self).entries().update(
                old(self).ids().index_of(id),
                row,
            ) && final(self).next() == old(self).next(),
    {
        match self.position(id) {
            Some(k) => {
                self.rows.set(k, row);
                Ok(())
            },
            None => Err(ServerError::not_found()),
        }
    }

    /// Takes out the row under `id`; fails with not-found where no row has
    /// that id.
    pub fn remove(&mut self, id: i32) -> (r: Result<R, ServerError>)
        requires
            old(self).wf(),
        ensures
            final(self).wf(),
            r is Ok <==> old(self).contains(id),
            r matches Err(e) ==> e.is_not_found() && *final(self) == *old(self),
            r matches Ok(x) ==> x == old(self).row(id)
                && (final(self).ids(), final(self).entries()) == old(self).without(id)
                && final(self).next() == old(self).next(),
    {
        match self.position(id) {
            Some(k) => {
                let ghost before = self.keys@;
                self.keys.remove(k);
                let x = self.rows.remove(k);
                proof {
                    let s = self.keys@;
                    assert forall|i: int, j: int| 0 <= i < j < s.len() implies s[i] < s[j] by {
                        if i < k {
                            assert(s[i] == before[i]);
                        } else {
                            assert(s[i] == before[i + 1]);
                        }
                        if j < k {
                            assert(s[j] == before[j]);
                        } else {
                            assert(s[j] == before[j + 1]);
                        }
                    }
                    assert forall|i: int| 0 <= i < s.len() implies 1 <= #[trigger] s[i]
                        < self.next_id by {
                        if i < k {
                            assert(s[i] == before[i]);
                        } else {
                            assert(s[i] == before[i + 1]);
                        }
                    }
                }
                Ok(x)
            },
            None => Err(ServerError::not_found()),
        }
    }
}

impl<R: Linked> Table<R> {
    /// Positions below `n` of the rows whose link `k` is `id`, ascending.
    pub open spec fn linked_upto(&self, n: nat, k: int, id: i32) -> Seq<int>
        decreases n,
    {
        if n == 0 {
            Seq::empty()
        } else {
            let p = self.linked_upto((n - 1) as nat, k, id);
            if self.entries()[n - 1].link(k) == id {
                p.push(n - 1)
            } else {
                p
            }
        }
    }

    /// Positions of the rows whose link `k` is `id`, ascending.
    pub open spec fn linked(&self, k: int, id: i32) -> Seq<int> {
        self.linked_upto(self.len(), k, id)
    }

    /// The identifier of the `j`-th row whose link `k` is `id`.
    pub open spec fn linked_id(&self, k: int, id: i32, j: int) -> i32 {
        self.ids()[self.linked(k, id)[j]]
    }

    /// The `j`-th row whose link `k` is `id`.
    pub open spec fn linked_row(&self, k: int, id: i32, j: int) -> R {
        self.entries()[self.linked(k, id)[j]]
    }

    /// Whether some row's link `k` is `id`.
    pub open spec fn refers(&self, k: int, id: i32) -> bool {
        exists|i: int| 0 <= i < self.entries().len() && #[trigger] self.entries()[i].link(k) == id
    }

    /// The positions listed are in range, ascending, hold rows whose link
    /// `k` is `id`, and every such row is listed.
    pub proof fn lemma_linked_upto(&self, n: nat, k: int, id: i32)
        requires
            n <= self.entries().len(),
        ensures
            forall|j: int| 0 <= j < self.linked_upto(n, k, id).len() ==> 0 <= #[trigger] self.linked_upto(n, k, id)[j] < n
                && self.entries()[self.linked_upto(n, k, id)[j]].link(k) == id,
            forall|i: int, j: int| 0 <= i < j < self.linked_upto(n, k, id).len() ==> self.linked_upto(n, k, id)[i]
                < self.linked_upto(n, k, id)[j],
            forall|i: int| 0 <= i < n && #[trigger] self.entries()[i].link(k) == id ==> self.linked_upto(n, k, id).contains(i),
            self.linked_upto(n, k, id).len() <= n,
        decreases n,
    {
        if n > 0 {
            self.lemma_linked_upto((n - 1) as nat, k, id);
            let p = self.linked_upto((n - 1) as nat, k, id);
            let q = self.linked_upto(n, k, id);
            assert forall|i: int| 0 <= i < n && #[trigger] self.entries()[i].link(k) == id implies q.contains(i) by {
                if i < n - 1 {
                    assert(p.contains(i));
                    let j = choose|j: int| 0 <= j < p.len() && p[j] == i;
                    assert(q[j] == i);
                } else {
                    assert(q[p.len() as int] == i);
                }
            }
        }
    }

    /// The positions of the rows whose link `k` is `id`, in ascending order.
    pub fn find_linked(&self, k: usize, id: i32) -> (r: Vec<usize>)
        requires
            self.wf(),
        ensures
            r@.len() == self.linked(k as int, id).len(),
            forall|j: int| 0 <= j < r@.len() ==> r@[j] as int == #[trigger] self.linked(k as int, id)[j],
    {
        let mut out: Vec<usize> = Vec::new();
        let mut i: usize = 0;
        while i < self.rows.len()
            invariant
                self.wf(),
                i <= self.rows@.len(),
                out@.len() == self.linked_upto(i as nat, k as int, id).len(),
                forall|j: int| 0 <= j < out@.len() ==> out@[j] as int == #[trigger] self.linked_upto(i as nat, k as int, id)[j],
            decreases self.rows@.len() - i,
        {
            let l = self.rows[i].get_link(k);
            if l == id {
                out.push(i);
            }
            assert(self.linked_upto((i + 1) as nat, k as int, id) == if self.entries()[i as int].link(k as int) == id {
                self.linked_upto(i as nat, k as int, id).push(i as int)
            } else {
                self.linked_upto(i as nat, k as int, id)
            });
            i = i + 1;
        }
        out
    }

    /// Whether some row's link `k` is `id`.
    pub fn any_linked(&self, k: usize, id: i32) -> (r: bool)
        requires
            self.wf(),
        ensures
            r == self.refers(k as int, id),
    {
        let mut i: usize = 0;
        while i < self.rows.len()
            invariant
                self.wf(),
                i <= self.rows@.len(),
                forall|j: int| 0 <= j < i ==> self.entries()[j].link(k as int) != id,
            decreases self.rows@.len() - i,
        {
            if self.rows[i].get_link(k) == id {
                assert(self.entries()[i as int].link(k as int) == id);
                return true;
            }
            i = i + 1;
        }
        false
    }
}

/// Every row of `c` has, as its link `k`, an identifier of `p`.
pub open spec fn links_into<R: Linked, P>(c: Table<R>, k: int, p: Table<P>) -> bool {
    forall|i: int| 0 <= i < c.entries().len() ==> p.contains(#[trigger] c.entries()[i].link(k))
}

pub proof fn lemma_links_parent_push<R: Linked, P>(c: Table<R>, k: int, p: Table<P>, q: Table<P>, id: i32)
    requires
        links_into(c, k, p),
        q.ids() == p.ids().push(id),
    ensures
        links_into(c, k, q),
{
    assert forall|i: int| 0 <= i < c.entries().len() implies q.contains(#[trigger] c.entries()[i].link(k)) by {
        let x = c.entries()[i].link(k);
        assert(p.contains(x));
        let j = choose|j: int| 0 <= j < p.ids().len() && p.ids()[j] == x;
        assert(q.ids()[j] == x);
    }
}

pub proof fn lemma_links_parent_remove<R: Linked, P>(c: Table<R>, k: int, p: Table<P>, q: Table<P>, id: i32)
    requires
        links_into(c, k, p),
        !c.refers(k, id),
        p.contains(id),
        q.ids() == p.ids().remove(p.ids().index_of(id)),
    ensures
        links_into(c, k, q),
{
    let pos = p.ids().index_of(id);
    assert forall|i: int| 0 <= i < c.entries().len() implies q.contains(#[trigger] c.entries()[i].link(k)) by {
        let x = c.entries()[i].link(k);
        assert(p.contains(x));
        assert(x != id);
        let j = choose|j: int| 0 <= j < p.ids().len() && p.ids()[j] == x;
        assert(j != pos);
        if j < pos {
            assert(q.ids()[j] == x);
        } else {
            assert(q.ids()[j - 1] == x);
        }
    }
}

pub proof fn lemma_links_child_push<R: Linked, P>(c: Table<R>, d: Table<R>, row: R, k: int, p: Table<P>)
    requires
        links_into(c, k, p),
        d.entries() == c.entries().push(row),
        p.contains(row.link(k)),
    ensures
        links_into(d, k, p),
{
    assert forall|i: int| 0 <= i < d.entries().len() implies p.contains(#[trigger] d.entries()[i].link(k)) by {
        if i < c.entries().len() {
            assert(d.entries()[i] == c.entries()[i]);
        }
    }
}

pub proof fn lemma_links_child_update<R: Linked, P>(c: Table<R>, d: Table<R>, pos: int, row: R, k: int, p: Table<P>)
    requires
        links_into(c, k, p),
        0 <= pos < c.entries().len(),
        d.entries() == c.entries().update(pos, row),
        p.contains(row.link(k)),
    ensures
        links_into(d, k, p),
{
    assert forall|i: int| 0 <= i < d.entries().len() implies p.contains(#[trigger] d.entries()[i].link(k)) by {
        if i != pos {
            assert(d.entries()[i] == c.entries()[i]);
        }
    }
}

pub proof fn lemma_links_child_remove<R: Linked, P>(c: Table<R>, d: Table<R>, pos: int, k: int, p: Table<P>)
    requires
        links_into(c, k, p),
        0 <= pos < c.entries().len(),
        d.entries() == c.entries().remove(pos),
    ensures
        links_into(d, k, p),
{
    assert forall|i: int| 0 <= i < d.entries().len() implies p.contains(#[trigger] d.entries()[i].link(k)) by {
        if i < pos {
            assert(d.entries()[i] == c.entries()[i]);
        } else {
            assert(d.entries()[i] == c.entries()[i + 1]);
        }
    }
}

/// Once the row under `id` is taken out, no row of the table has that id:
/// a lookup of it fails.
pub proof fn law_delete_then_get<R>(t: Table<R>, id: i32)
    requires
        t.wf(),
        t.contains(id),
    ensures
        !t.without(id).0.contains(id),
{
    let k = t.ids().index_of(id);
    let s = t.without(id).0;
    t.lemma_index_of(k);
    if s.contains(id) {
        let j = choose|j: int| 0 <= j < s.len() && s[j] == id;
        if j < k {
            assert(t.ids()[j] == id);
            assert(t.ids()[j] < t.ids()[k]);
        } else {
            assert(t.ids()[j + 1] == id);
            assert(t.ids()[k] < t.ids()[j + 1]);
        }
    }
}

} // verus!
