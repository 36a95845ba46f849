//! User records, their mathematical model, the in-memory document store, and
//! the repository operations over it.

use vstd::multiset::Multiset;
use vstd::prelude::*;

use crate::oid::RecordId;
use crate::order::lemma_lex_total;
use crate::order::lemma_lex_trans;
use crate::order::lex_leq;
use crate::order::str_leq;
use crate::user_controller::PageQuery;
use crate::user_controller::RegisterForm;

verus! {

/// The mathematical model of a user record.
#[verifier::ext_equal]
pub ghost struct UserView {
    pub id: int,
    pub username: Seq<char>,
    pub password: Seq<char>,
    pub email: Seq<char>,
    pub admin: bool,
    pub token: Seq<char>,
}

/// A stored user record.
#[derive(Debug)]
pub struct UserDocument {
    pub _id: RecordId,
    pub username: String,
    pub password: String,
    pub email: String,
    pub admin: bool,
    pub token: String,
}

impl View for UserDocument {
    type V = UserView;

    open spec fn view(&self) -> UserView {
        UserView {
            id: self._id@,
            username: self.username@,
            password: self.password@,
            email: self.email@,
            admin: self.admin,
            token: self.token@,
        }
    }
}

impl DeepView for UserDocument {
    type V = UserView;

    open spec fn deep_view(&self) -> UserView {
        self.view()
    }
}

/// `v` with the sensitive fields (password, token) blanked.
pub open spec fn redact(v: UserView) -> UserView {
    UserView { password: Seq::empty(), token: Seq::empty(), ..v }
}

/// No two records of `s` share an id.
pub open spec fn unique_ids(s: Seq<UserView>) -> bool {
    forall|i: int, j: int| 0 <= i < j < s.len() ==> s[i].id != s[j].id
}

/// Some record of `s` has the id `id`.
pub open spec fn has_id(s: Seq<UserView>, id: int) -> bool {
    exists|i: int| 0 <= i < s.len() && s[i].id == id
}

/// The position in `s` of the record with id `id`.
pub open spec fn index_of_id(s: Seq<UserView>, id: int) -> int {
    choose|i: int| 0 <= i < s.len() && s[i].id == id
}

/// The first record of `s` whose username is `name`, if any.
pub open spec fn first_with_username(s: Seq<UserView>, name: Seq<char>) -> Option<UserView>
    decreases s.len(),
{
    if s.len() == 0 {
        None
    } else if s[0].username == name {
        Some(s[0])
    } else {
        first_with_username(s.drop_first(), name)
    }
}

impl UserDocument {
    /// An exact copy of the record.
    pub fn duplicate(&self) -> (r: UserDocument)
        ensures
            r == *self,
    {
        UserDocument {
            _id: self._id,
            username: self.username.clone(),
            password: self.password.clone(),
            email: self.email.clone(),
            admin: self.admin,
            token: self.token.clone(),
        }
    }

    /// Blanks the sensitive fields (password, token) before the record leaves
    /// the repository boundary.
    pub fn hidden_props(self) -> (r: UserDocument)
        ensures
            r@ == redact(self@),
    {
        let mut s = self;
        s.token = String::new();
        s.password = String::new();
        s
    }
}

/// `x` placed into `s` before the first element whose username exceeds
/// `x`'s; elements that compare equal keep their places before `x`.
pub open spec fn insert_by_username(x: UserView, s: Seq<UserView>) -> Seq<UserView>
    decreases s.len(),
{
    if s.len() == 0 {
        seq![x]
    } else if lex_leq(s[0].username, x.username) {
        seq![s[0]] + insert_by_username(x, s.drop_first())
    } else {
        seq![x] + s
    }
}

/// `s` rearranged in ascending username order; the rearrangement is a fixed
/// function of `s`, so equal stores always list in the same order.
pub open spec fn sort_by_username(s: Seq<UserView>) -> Seq<UserView>
    decreases s.len(),
{
    if s.len() == 0 {
        Seq::empty()
    } else {
        insert_by_username(s[0], sort_by_username(s.drop_first()))
    }
}

/// Ascending username order, by code point.
pub open spec fn sorted_by_username(s: Seq<UserView>) -> bool {
    forall|i: int, j: int| 0 <= i < j < s.len() ==> lex_leq(
        #[trigger] s[i].username,
        #[trigger] s[j].username,
    )
}

/// Inserting splits the sequence at the first element greater than `x`.
proof fn lemma_insert_point(x: UserView, s: Seq<UserView>, j: int)
    requires
        0 <= j <= s.len(),
        forall|k: int| 0 <= k < j ==> lex_leq(#[trigger] s[k].username, x.username),
        j < s.len() ==> !lex_leq(s[j].username, x.username),
    ensures
        insert_by_username(x, s) =~= s.subrange(0, j) + seq![x] + s.skip(j),
    decreases j,
{
    if j == 0 {
        assert(insert_by_username(x, s) =~= s.subrange(0, 0) + seq![x] + s.skip(0));
    } else {
        let d = s.drop_first();
        assert(forall|k: int| 0 <= k < j - 1 ==> lex_leq(#[trigger] d[k].username, x.username));
        lemma_insert_point(x, d, j - 1);
        assert(insert_by_username(x, s) =~= seq![s[0]] + insert_by_username(x, d));
        assert(seq![s[0]] + (d.subrange(0, j - 1) + seq![x] + d.skip(j - 1)) =~= s.subrange(0, j)
            + seq![x] + s.skip(j));
    }
}

/// What the insertion holds: `x`, together with everything in `s`.
proof fn lemma_insert_multiset(x: UserView, s: Seq<UserView>)
    ensures
        insert_by_username(x, s).to_multiset() =~= s.to_multiset().insert(x),
    decreases s.len(),
{
    broadcast use vstd::seq_lib::group_to_multiset_ensures;

    if s.len() == 0 {
        assert(seq![x] =~= Seq::<UserView>::empty().push(x));
        assert(s.to_multiset() =~= Multiset::<UserView>::empty()) by {
            assert(forall|y: UserView| !s.contains(y));
        }
        assert(Seq::<UserView>::empty().push(x).to_multiset() =~= Seq::<
            UserView,
        >::empty().to_multiset().insert(x));
    } else if lex_leq(s[0].username, x.username) {
        let d = s.drop_first();
        lemma_insert_multiset(x, d);
        assert(insert_by_username(x, s) =~= seq![s[0]] + insert_by_username(x, d));
        vstd::seq_lib::lemma_multiset_commutative(seq![s[0]], insert_by_username(x, d));
        assert(s =~= seq![s[0]] + d);
        vstd::seq_lib::lemma_multiset_commutative(seq![s[0]], d);
        assert(seq![s[0]].to_multiset().add(d.to_multiset().insert(x)) =~= (seq![
            s[0],
        ].to_multiset().add(d.to_multiset())).insert(x));
    } else {
        assert(insert_by_username(x, s) =~= seq![x] + s);
        vstd::seq_lib::lemma_multiset_commutative(seq![x], s);
        assert(seq![x] =~= Seq::<UserView>::empty().push(x));
        assert(seq![x].to_multiset() =~= Multiset::<UserView>::empty().insert(x)) by {
            assert(Seq::<UserView>::empty().to_multiset() =~= Multiset::<UserView>::empty()) by {
                assert(forall|y: UserView| !Seq::<UserView>::empty().contains(y));
            }
        }
        assert(Multiset::<UserView>::empty().insert(x).add(s.to_multiset())
            =~= s.to_multiset().insert(x));
    }
}

/// Sorting keeps exactly the records of `s`.
pub proof fn lemma_sort_multiset(s: Seq<UserView>)
    ensures
        sort_by_username(s).to_multiset() =~= s.to_multiset(),
        sort_by_username(s).len() == s.len(),
    decreases s.len(),
{
    broadcast use vstd::seq_lib::group_to_multiset_ensures;

    if s.len() == 0 {
    } else {
        let d = s.drop_first();
        lemma_sort_multiset(d);
        lemma_insert_multiset(s[0], sort_by_username(d));
        assert(s =~= seq![s[0]] + d);
        vstd::seq_lib::lemma_multiset_commutative(seq![s[0]], d);
        assert(seq![s[0]] =~= Seq::<UserView>::empty().push(s[0]));
        assert(seq![s[0]].to_multiset() =~= Multiset::<UserView>::empty().insert(s[0])) by {
            assert(Seq::<UserView>::empty().to_multiset() =~= Multiset::<UserView>::empty()) by {
                assert(forall|y: UserView| !Seq::<UserView>::empty().contains(y));
            }
        }
        assert(sort_by_username(s).to_multiset() =~= d.to_multiset().insert(s[0]));
        assert(Multiset::<UserView>::empty().insert(s[0]).add(d.to_multiset())
            =~= d.to_multiset().insert(s[0]));
        assert(sort_by_username(s).to_multiset().len() == sort_by_username(s).len());
        assert(s.to_multiset().len() == s.len());
    }
}

/// The records after an insertion: `x` and the records of `s`.
proof fn lemma_insert_contains(x: UserView, s: Seq<UserView>, y: UserView)
    ensures
        insert_by_username(x, s).contains(y) <==> (y == x || s.contains(y)),
{
    broadcast use vstd::seq_lib::group_to_multiset_ensures;

    lemma_insert_multiset(x, s);
    if y == x {
        assert(insert_by_username(x, s).to_multiset().count(y) > 0);
    }
    if s.contains(y) {
        assert(insert_by_username(x, s).to_multiset().count(y) > 0);
    }
    if insert_by_username(x, s).contains(y) {
        assert(insert_by_username(x, s).to_multiset().count(y) > 0);
        if y != x {
            assert(s.to_multiset().count(y) > 0);
        }
    }
}

/// Inserting into a sorted sequence keeps it sorted.
proof fn lemma_insert_sorted(x: UserView, s: Seq<UserView>)
    requires
        sorted_by_username(s),
    ensures
        sorted_by_username(insert_by_username(x, s)),
    decreases s.len(),
{
    if s.len() == 0 {
    } else if lex_leq(s[0].username, x.username) {
        let d = s.drop_first();
        let t = insert_by_username(x, d);
        assert(sorted_by_username(d)) by {
            assert(forall|i: int, j: int| 0 <= i < j < d.len() ==> lex_leq(
                #[trigger] d[i].username,
                #[trigger] d[j].username,
            )) by {
                assert(forall|i: int| 0 <= i < d.len() ==> d[i] == s[i + 1]);
            }
        }
        lemma_insert_sorted(x, d);
        let r = insert_by_username(x, s);
        assert(r =~= seq![s[0]] + t);
        assert forall|k: int| 0 <= k < t.len() implies lex_leq(
            s[0].username,
            #[trigger] t[k].username,
        ) by {
            lemma_insert_contains(x, d, t[k]);
            if t[k] == x {
            } else {
                let m = choose|m: int| 0 <= m < d.len() && d[m] == t[k];
                assert(d[m] == s[m + 1]);
            }
        }
        assert forall|i: int, j: int| 0 <= i < j < r.len() implies lex_leq(
            #[trigger] r[i].username,
            #[trigger] r[j].username,
        ) by {
            if i > 0 {
                assert(r[i] == t[i - 1] && r[j] == t[j - 1]);
            } else {
                assert(r[j] == t[j - 1]);
            }
        }
    } else {
        let r = insert_by_username(x, s);
        assert(r =~= seq![x] + s);
        lemma_lex_total(s[0].username, x.username);
        assert forall|i: int, j: int| 0 <= i < j < r.len() implies lex_leq(
            #[trigger] r[i].username,
            #[trigger] r[j].username,
        ) by {
            if i == 0 {
                assert(r[j] == s[j - 1]);
                if j - 1 > 0 {
                    lemma_lex_trans(x.username, s[0].username, s[j - 1].username);
                } else {
                    assert(lex_leq(x.username, s[0].username));
                }
            } else {
                assert(r[i] == s[i - 1] && r[j] == s[j - 1]);
            }
        }
    }
}

/// The sorted listing is in ascending username order.
pub proof fn lemma_sort_sorted(s: Seq<UserView>)
    ensures
        sorted_by_username(sort_by_username(s)),
    decreases s.len(),
{
    if s.len() > 0 {
        lemma_sort_sorted(s.drop_first());
        lemma_insert_sorted(s[0], sort_by_username(s.drop_first()));
    }
}

/// Sorting keeps record ids pairwise distinct, and keeps every id.
pub proof fn lemma_sort_unique_ids(s: Seq<UserView>)
    requires
        unique_ids(s),
    ensures
        unique_ids(sort_by_username(s)),
        forall|y: UserView| sort_by_username(s).contains(y) <==> s.contains(y),
{
    broadcast use vstd::seq_lib::group_to_multiset_ensures;

    let t = sort_by_username(s);
    lemma_sort_multiset(s);
    assert(s.no_duplicates()) by {
        assert(forall|i: int, j: int| 0 <= i < s.len() && 0 <= j < s.len() && i != j
            ==> #[trigger] s[i] != #[trigger] s[j]) by {
            assert(forall|i: int, j: int| 0 <= i < j < s.len() ==> #[trigger] s[i].id
                != #[trigger] s[j].id);
        }
    }
    s.lemma_multiset_has_no_duplicates();
    t.lemma_multiset_has_no_duplicates_conv();
    assert(t.no_duplicates());
    assert(forall|y: UserView| t.contains(y) <==> s.contains(y)) by {
        assert(forall|y: UserView| t.contains(y) <==> t.to_multiset().count(y) > 0);
        assert(forall|y: UserView| s.contains(y) <==> s.to_multiset().count(y) > 0);
    }
    assert forall|i: int, j: int| 0 <= i < j < t.len() implies t[i].id != t[j].id by {
        assert(t[i] != t[j]);
        assert(t.contains(t[i]) && t.contains(t[j]));
        assert(s.contains(t[i]) && s.contains(t[j]));
        let a = choose|a: int| 0 <= a < s.len() && s[a] == t[i];
        let b = choose|b: int| 0 <= b < s.len() && s[b] == t[j];
        assert(a != b);
        if t[i].id == t[j].id {
            if a < b {
                assert(s[a].id != s[b].id);
            } else {
                assert(s[b].id != s[a].id);
            }
            assert(false);
        }
    }
}

/// Places `x` into the already-built prefix at its insertion point.
fn insert_user(out: &mut Vec<UserDocument>, x: UserDocument)
    ensures
        final(out).deep_view() =~= insert_by_username(x@, old(out).deep_view()),
{
    let ghost pre = out.deep_view();
    let mut j: usize = 0;
    while j < out.len() && str_leq(out[j].username.as_str(), x.username.as_str())
        invariant
            0 <= j <= out.len(),
            out.deep_view() =~= pre,
            forall|k: int| 0 <= k < j ==> lex_leq(#[trigger] pre[k].username, x@.username),
        decreases out.len() - j,
    {
        j += 1;
    }
    proof {
        lemma_insert_point(x@, pre, j as int);
    }
    let ghost pre_v = out@;
    out.insert(j, x);
    proof {
        pre_v.insert_ensures(j as int, x);
        assert(out.deep_view() =~= pre.subrange(0, j as int) + seq![x@] + pre.skip(j as int));
    }
}

/// A copy of the records in ascending username order.
fn sorted_copy(v: &Vec<UserDocument>) -> (r: Vec<UserDocument>)
    ensures
        r.deep_view() =~= sort_by_username(v.deep_view()),
{
    let mut r: Vec<UserDocument> = Vec::new();
    let mut i: usize = v.len();
    proof {
        assert(v.deep_view().skip(v.len() as int) =~= Seq::<UserView>::empty());
    }
    while i > 0
        invariant
            0 <= i <= v.len(),
            r.deep_view() =~= sort_by_username(v.deep_view().skip(i as int)),
        decreases i,
    {
        i -= 1;
        let x = v[i].duplicate();
        proof {
            let dv = v.deep_view();
            assert(dv.skip(i as int)[0] == dv[i as int]);
            assert(dv.skip(i as int).drop_first() =~= dv.skip(i as int + 1));
            assert(x@ == dv[i as int]);
        }
        insert_user(&mut r, x);
    }
    proof {
        assert(v.deep_view().skip(0) =~= v.deep_view());
    }
    r
}

/// One page of results: how many records exist in all, and the page's slice.
#[derive(Debug)]
pub struct PageResponse<T> {
    pub total: u64,
    pub data: Vec<T>,
}

/// The page's records: ascending by username, skipping `(page - 1) *
/// page_size` records, at most `page_size` of them, each redacted.
pub open spec fn page_slice(s: Seq<UserView>, page: u64, page_size: u64) -> Seq<UserView> {
    let sorted = sort_by_username(s);
    let start = (page - 1) * page_size;
    if start >= sorted.len() {
        Seq::empty()
    } else if start + page_size <= sorted.len() {
        sorted.subrange(start as int, (start + page_size) as int).map_values(
            |v: UserView| redact(v),
        )
    } else {
        sorted.subrange(start as int, sorted.len() as int).map_values(|v: UserView| redact(v))
    }
}

/// A record found by username lies in the store and bears that username.
pub proof fn lemma_first_username_mem(s: Seq<UserView>, name: Seq<char>)
    requires
        first_with_username(s, name) is Some,
    ensures
        s.contains(first_with_username(s, name)->Some_0),
        first_with_username(s, name)->Some_0.username == name,
    decreases s.len(),
{
    if s.len() > 0 && s[0].username != name {
        lemma_first_username_mem(s.drop_first(), name);
        let u = first_with_username(s, name)->Some_0;
        let d = s.drop_first();
        let k = choose|k: int| 0 <= k < d.len() && d[k] == u;
        assert(s[k + 1] == u);
    }
}

/// Creating a record and then fetching it by the returned id yields a view
/// whose username and email match the input and whose password and token
/// are blank.
pub proof fn lemma_create_then_find(s: Seq<UserView>, v: UserView)
    requires
        !has_id(s, v.id),
    ensures
        has_id(s.push(v), v.id),
        s.push(v)[index_of_id(s.push(v), v.id)] == v,
        redact(v).username == v.username,
        redact(v).email == v.email,
        redact(v).password == Seq::<char>::empty(),
        redact(v).token == Seq::<char>::empty(),
{
    let t = s.push(v);
    assert(t[s.len() as int] == v);
    assert(t[s.len() as int].id == v.id);
    assert(has_id(t, v.id));
    let i = index_of_id(t, v.id);
    assert(0 <= i < t.len() && t[i].id == v.id);
    if i < s.len() {
        assert(s[i].id == v.id);
        assert(false);
    }
}

/// A page holds at most `page_size` records, never more than the store has,
/// and is in ascending username order.
pub proof fn lemma_page_shape(s: Seq<UserView>, page: u64, page_size: u64)
    requires
        page >= 1,
        page_size >= 1,
    ensures
        page_slice(s, page, page_size).len() <= page_size,
        page_slice(s, page, page_size).len() <= s.len(),
        sorted_by_username(page_slice(s, page, page_size)),
{
    lemma_sort_sorted(s);
    lemma_sort_multiset(s);
    let sorted = sort_by_username(s);
    let sl = page_slice(s, page, page_size);
    let start = (page - 1) * page_size;
    if start >= sorted.len() {
    } else {
        assert forall|i: int, j: int| 0 <= i < j < sl.len() implies lex_leq(
            #[trigger] sl[i].username,
            #[trigger] sl[j].username,
        ) by {
            assert(sl[i] == redact(sorted[start + i]));
            assert(sl[j] == redact(sorted[start + j]));
            assert(lex_leq(sorted[start + i].username, sorted[start + j].username));
        }
    }
}

/// Two different pages of the same store share no record: every id on one
/// page is absent from the other.
pub proof fn lemma_pages_disjoint(s: Seq<UserView>, page_size: u64, p1: u64, p2: u64)
    requires
        unique_ids(s),
        page_size >= 1,
        p1 >= 1,
        p2 >= 1,
        p1 != p2,
    ensures
        forall|i: int, j: int| 0 <= i < page_slice(s, p1, page_size).len() && 0 <= j < page_slice(
            s,
            p2,
            page_size,
        ).len() ==> #[trigger] page_slice(s, p1, page_size)[i].id != #[trigger] page_slice(
            s,
            p2,
            page_size,
        )[j].id,
{
    lemma_sort_unique_ids(s);
    lemma_sort_multiset(s);
    let sorted = sort_by_username(s);
    let a1 = (p1 - 1) * page_size;
    let a2 = (p2 - 1) * page_size;
    assert(a1 + page_size <= a2 || a2 + page_size <= a1) by (nonlinear_arith)
        requires
            p1 >= 1,
            p2 >= 1,
            p1 != p2,
            page_size >= 1,
            a1 == (p1 - 1) * page_size,
            a2 == (p2 - 1) * page_size,
    ;
    let s1 = page_slice(s, p1, page_size);
    let s2 = page_slice(s, p2, page_size);
    assert forall|i: int, j: int| 0 <= i < s1.len() && 0 <= j < s2.len() implies #[trigger] s1[i].id
        != #[trigger] s2[j].id by {
        assert(s1[i] == redact(sorted[a1 + i]));
        assert(s2[j] == redact(sorted[a2 + j]));
        assert(a1 + i != a2 + j);
        if a1 + i < a2 + j {
            assert(sorted[a1 + i].id != sorted[a2 + j].id);
        } else {
            assert(sorted[a2 + j].id != sorted[a1 + i].id);
        }
    }
}

/// The in-memory document store: the collection of user records, plus the
/// counter from which fresh ids are assigned.
pub struct UserStore {
    records: Vec<UserDocument>,
    next_seq: u64,
}

impl View for UserStore {
    type V = Seq<UserView>;

    closed spec fn view(&self) -> Seq<UserView> {
        self.records.deep_view()
    }
}

impl UserStore {
    /// Whether the store has run out of fresh ids.
    pub closed spec fn at_capacity(&self) -> bool {
        self.next_seq == u64::MAX
    }

    /// Store invariant: ids are pairwise distinct and below the id counter.
    pub closed spec fn wf(&self) -> bool {
        &&& unique_ids(self@)
        &&& forall|i: int| 0 <= i < self@.len() ==> #[trigger] self@[i].id < self.next_seq
    }

    /// A well-formed store keeps record ids pairwise distinct.
    pub proof fn lemma_wf_unique_ids(&self)
        requires
            self.wf(),
        ensures
            unique_ids(self@),
    {
    }

    /// An empty store.
    pub fn new() -> (r: UserStore)
        ensures
            r@ =~= Seq::<UserView>::empty(),
            r.wf(),
            !r.at_capacity(),
    {
        let r = UserStore { records: Vec::new(), next_seq: 0 };
        proof {
            assert(r@ =~= Seq::<UserView>::empty());
        }
        r
    }

    /// The position of the record with id `id`, if the store holds one.
    fn position_of(&self, id: RecordId) -> (r: Option<usize>)
        requires
            self.wf(),
        ensures
            r matches Some(j) ==> 0 <= j < self@.len() && self@[j as int].id == id@ && j as int
                == index_of_id(self@, id@) && has_id(self@, id@),
            r is None <==> !has_id(self@, id@),
    {
        let mut j: usize = 0;
        while j < self.records.len()
            invariant
                self.wf(),
                0 <= j <= self@.len(),
                self@.len() == self.records.len(),
                forall|k: int| 0 <= k < j ==> #[trigger] self@[k].id != id@,
            decreases self.records.len() - j,
        {
            if self.records[j]._id == id {
                proof {
                    assert(self@[j as int].id == id@);
                    let w = index_of_id(self@, id@);
                    assert(0 <= w < self@.len() && self@[w].id == id@);
                    assert(w == j as int);
                }
                return Some(j);
            }
            proof {
                assert(self@[j as int] == self.records[j as int]@);
            }
            j += 1;
        }
        None
    }
}

impl UserDocument {
    /// Inserts a new record built from the registration form, with
    /// `admin` false and an empty token; the store assigns a fresh id.
    pub fn add_one(store: &mut UserStore, data: RegisterForm) -> (r: Option<RecordId>)
        requires
            old(store).wf(),
        ensures
            final(store).wf(),
            r is None <==> old(store).at_capacity(),
            r is None ==> final(store)@ == old(store)@,
            r matches Some(id) ==> !has_id(old(store)@, id@) && final(store)@ =~= old(store)@.push(
                UserView {
                    id: id@,
                    username: data.username@,
                    password: data.password@,
                    email: data.email@,
                    admin: false,
                    token: Seq::empty(),
                },
            ),
    {
        if store.next_seq == u64::MAX {
            return None;
        }
        let id = RecordId::from_value(store.next_seq);
        let ghost pre = store@;
        let doc = UserDocument {
            _id: id,
            username: data.username,
            password: data.password,
            email: data.email,
            admin: false,
            token: String::new(),
        };
        store.next_seq = store.next_seq + 1;
        store.records.push(doc);
        proof {
            assert(store@ =~= pre.push(doc@));
            assert(forall|i: int| 0 <= i < pre.len() ==> #[trigger] pre[i].id != id@);
        }
        Some(id)
    }

    /// Finds and removes the record with the given id; returns the removed
    /// record, unredacted, or nothing when no record matches.
    pub fn delete_one(store: &mut UserStore, id: RecordId) -> (r: Option<UserDocument>)
        requires
            old(store).wf(),
        ensures
            final(store).wf(),
            !has_id(old(store)@, id@) ==> r is None && final(store)@ == old(store)@,
            has_id(old(store)@, id@) ==> (r matches Some(u) && u@ == old(store)@[index_of_id(
                old(store)@,
                id@,
            )] && final(store)@ =~= old(store)@.remove(index_of_id(old(store)@, id@))),
    {
        let pos = store.position_of(id);
        match pos {
            None => None,
            Some(j) => {
                let ghost pre = store@;
                let removed = store.records.remove(j);
                proof {
                    assert(store@ =~= pre.remove(j as int));
                }
                Some(removed)
            },
        }
    }

    /// Replaces the stored record that has `data`'s id with `data` (full
    /// replace of username, password, email, admin, token); returns the
    /// updated record, or nothing when no record matches.
    pub fn update_one(store: &mut UserStore, data: &UserDocument) -> (r: Option<UserDocument>)
        requires
            old(store).wf(),
        ensures
            final(store).wf(),
            !has_id(old(store)@, data@.id) ==> r is None && final(store)@ == old(store)@,
            has_id(old(store)@, data@.id) ==> (r matches Some(u) && u@ == data@ && final(store)@
                =~= old(store)@.update(index_of_id(old(store)@, data@.id), data@)),
    {
        let pos = store.position_of(data._id);
        match pos {
            None => None,
            Some(j) => {
                let ghost pre = store@;
                let fresh = data.duplicate();
                store.records.set(j, fresh);
                proof {
                    assert(store@ =~= pre.update(j as int, data@));
                }
                Some(data.duplicate())
            },
        }
    }

    /// Looks up a record by id; the returned copy has password and token
    /// blanked.
    pub fn find_by_id(store: &UserStore, id: RecordId) -> (r: Option<UserDocument>)
        requires
            store.wf(),
        ensures
            r is None <==> !has_id(store@, id@),
            r matches Some(u) ==> u@ == redact(store@[index_of_id(store@, id@)]),
    {
        let pos = store.position_of(id);
        match pos {
            None => None,
            Some(j) => Some(store.records[j].duplicate().hidden_props()),
        }
    }

    /// Looks up the first record with the given username, unredacted; only
    /// the internal login path uses this.
    pub fn find_by_username(store: &UserStore, username: String) -> (r: Option<UserDocument>)
        ensures
            (match r {
                Some(u) => first_with_username(store@, username@) == Some(u@),
                None => first_with_username(store@, username@) is None,
            }),
    {
        let mut j: usize = 0;
        proof {
            assert(store@.skip(0) =~= store@);
        }
        while j < store.records.len()
            invariant
                0 <= j <= store@.len(),
                store@.len() == store.records.len(),
                first_with_username(store@, username@) == first_with_username(
                    store@.skip(j as int),
                    username@,
                ),
            decreases store.records.len() - j,
        {
            proof {
                assert(store@.skip(j as int)[0] == store@[j as int]);
                assert(store@[j as int] == store.records[j as int]@);
                assert(store@.skip(j as int).drop_first() =~= store@.skip(j as int + 1));
            }
            if store.records[j].username.eq(&username) {
                return Some(store.records[j].duplicate());
            }
            j += 1;
        }
        None
    }

    /// Lists one page of records: `total` counts every record, independent of
    /// paging; the data is in ascending username order, skips
    /// `(page - 1) * page_size` records, holds at most `page_size`, and each
    /// record is redacted.
    pub fn find_many(store: &UserStore, page_query: PageQuery) -> (r: Option<
        PageResponse<UserDocument>,
    >)
        requires
            store.wf(),
            page_query.page >= 1,
            page_query.page_size >= 1,
        ensures
            r matches Some(p) && p.total == store@.len() && p.data.deep_view() =~= page_slice(
                store@,
                page_query.page,
                page_query.page_size,
            ),
    {
        let sorted = sorted_copy(&store.records);
        let total: u64 = store.records.len() as u64;
        proof {
            let a = (page_query.page - 1) as int;
            let b = page_query.page_size as int;
            assert(a * b < 0x100000000000000000000000000000000) by (nonlinear_arith)
                requires
                    0 <= a <= 0xFFFFFFFFFFFFFFFF,
                    0 <= b <= 0xFFFFFFFFFFFFFFFF,
            ;
        }
        let start128: u128 = ((page_query.page - 1) as u128) * (page_query.page_size as u128);
        let mut data: Vec<UserDocument> = Vec::new();
        if start128 < sorted.len() as u128 {
            let start: usize = start128 as usize;
            let end128: u128 = start128 + (page_query.page_size as u128);
            let end: usize = if end128 >= sorted.len() as u128 {
                sorted.len()
            } else {
                end128 as usize
            };
            let ghost sdv = sorted.deep_view();
            let mut k: usize = start;
            proof {
                assert(data.deep_view() =~= sdv.subrange(start as int, start as int).map_values(
                    |v: UserView| redact(v),
                ));
            }
            while k < end
                invariant
                    start <= k <= end <= sorted.len(),
                    sorted@.len() == sorted.len(),
                    sdv == sorted.deep_view(),
                    sdv.len() == sorted.len(),
                    data.deep_view() =~= sdv.subrange(start as int, k as int).map_values(
                        |v: UserView| redact(v),
                    ),
                decreases end - k,
            {
                let rec = sorted[k].duplicate().hidden_props();
                proof {
                    assert(sdv.subrange(start as int, k as int + 1) =~= sdv.subrange(
                        start as int,
                        k as int,
                    ).push(sdv[k as int]));
                    assert(rec@ == redact(sdv[k as int]));
                }
                let ghost prev = data.deep_view();
                data.push(rec);
                proof {
                    assert(data.deep_view() =~= prev.push(rec@));
                    assert(prev.push(rec@) =~= sdv.subrange(start as int, k as int + 1).map_values(
                        |v: UserView| redact(v),
                    ));
                }
                k += 1;
            }
        }
        proof {
            assert(sorted.deep_view() =~= sort_by_username(store@));
            lemma_sort_multiset(store@);
        }
        Some(PageResponse { total, data })
    }
}

} // verus!
