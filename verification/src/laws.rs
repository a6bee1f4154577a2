//! What holds of the operations taken together: each keeps the books in
//! order, and a loan that is handed back leaves no trace.
use vstd::prelude::*;
use crate::model::LibraryView;

verus! {

impl LibraryView {
    /// The empty catalog is in order.
    pub proof fn law_empty_in_order()
        ensures
            LibraryView::empty().wf(),
    {
    }

    /// In a catalog that is in order a book is flagged as issued exactly when
    /// its id stands among the loans of one user, once.
    pub proof fn law_issued_iff_one_loan(self, i: int)
        requires
            self.wf(),
            0 <= i < self.books.len(),
        ensures
            self.books[i].is_issued <==> exists|j: int, p: int|
                {
                    &&& #[trigger] self.is_loan(j, p)
                    &&& self.loan_at(j, p) == self.books[i].id
                    &&& forall|k: int, q: int|
                        #[trigger] self.is_loan(k, q) && self.loan_at(k, q) == self.books[i].id
                            ==> k == j && q == p
                },
    {
        let id = self.books[i].id;
        if self.books[i].is_issued {
            assert(self.held(id));
            let (j, p) = choose|j: int, p: int| #[trigger]
                self.is_loan(j, p) && self.loan_at(j, p) == id;
            assert(forall|k: int, q: int|
                #[trigger] self.is_loan(k, q) && self.loan_at(k, q) == id ==> k == j && q == p);
        }
    }

    /// Adding a book to a catalog that is in order leaves it in order.
    pub proof fn law_add_book_keeps_order(self, title: Seq<char>, author: Seq<char>)
        requires
            self.wf(),
            self.books.len() < u32::MAX,
        ensures
            self.with_book(title, author).wf(),
    {
        let post = self.with_book(title, author);
        assert forall|j: int, p: int| #[trigger] post.is_loan(j, p) implies self.is_loan(j, p)
            && self.loan_at(j, p) == post.loan_at(j, p) by {}
        assert forall|i: int| 0 <= i < post.books.len() implies ((#[trigger] post.books[i]).is_issued
            <==> post.held(post.books[i].id)) by {
            let id = post.books[i].id;
            if post.held(id) {
                let (j, p) = choose|j: int, p: int| #[trigger]
                    post.is_loan(j, p) && post.loan_at(j, p) == id;
                assert(self.is_loan(j, p));
                assert(self.held(id));
            }
            if i < self.books.len() && self.held(id) {
                let (j, p) = choose|j: int, p: int| #[trigger]
                    self.is_loan(j, p) && self.loan_at(j, p) == id;
                assert(post.is_loan(j, p));
            }
        }
    }

    /// Adding a user under a fresh name to a catalog that is in order leaves
    /// it in order.
    pub proof fn law_add_user_keeps_order(self, name: Seq<char>)
        requires
            self.wf(),
            !self.has_user(name),
            self.users.len() < u32::MAX,
        ensures
            self.with_user(name).wf(),
    {
        let post = self.with_user(name);
        assert forall|j: int, p: int| #[trigger] post.is_loan(j, p) implies self.is_loan(j, p)
            && self.loan_at(j, p) == post.loan_at(j, p) by {}
        assert forall|j: int, k: int|
            0 <= j < post.users.len() && 0 <= k < post.users.len() && (#[trigger] post.users[j]).name
                == (#[trigger] post.users[k]).name implies j == k by {
            if j < self.users.len() {
                assert(self.users[j].name == post.users[j].name);
            }
            if k < self.users.len() {
                assert(self.users[k].name == post.users[k].name);
            }
        }
        assert forall|i: int| 0 <= i < post.books.len() implies ((#[trigger] post.books[i]).is_issued
            <==> post.held(post.books[i].id)) by {
            let id = post.books[i].id;
            if post.held(id) {
                let (j, p) = choose|j: int, p: int| #[trigger]
                    post.is_loan(j, p) && post.loan_at(j, p) == id;
                assert(self.is_loan(j, p));
                assert(self.held(id));
            }
            if self.held(id) {
                let (j, p) = choose|j: int, p: int| #[trigger]
                    self.is_loan(j, p) && self.loan_at(j, p) == id;
                assert(post.is_loan(j, p));
            }
        }
    }

    /// Issuing a book, where the rules allow it, leaves a catalog that is in
    /// order in order.
    pub proof fn law_issue_keeps_order(self, title: Seq<char>, name: Seq<char>)
        requires
            self.wf(),
            self.issue_outcome(title, name) is Ok,
        ensures
            self.after_issue(title, name).wf(),
    {
        let post = self.after_issue(title, name);
        let k0 = choose|k: int| 0 <= k < self.users.len() && (#[trigger] self.users[k]).name == name;
        self.lemma_first_user_exists(name, k0);
        let k1 = choose|k: int|
            0 <= k < self.books.len() && (#[trigger] self.books[k]).title == title
                && self.books[k].is_issued == false;
        self.lemma_first_copy_exists(title, false, k1);
        let i = self.first_copy(title, false);
        let j0 = self.first_user(name);
        let id = self.books[i].id;
        let n = self.users[j0].borrowed_books.len() as int;
        assert(!self.held(id));
        assert forall|j: int, p: int| #[trigger] post.is_loan(j, p) implies (self.is_loan(j, p)
            && self.loan_at(j, p) == post.loan_at(j, p)) || (j == j0 && p == n && post.loan_at(j, p)
            == id) by {}
        assert forall|j: int, p: int| #[trigger] self.is_loan(j, p) implies post.is_loan(j, p)
            && self.loan_at(j, p) == post.loan_at(j, p) by {}
        assert(post.is_loan(j0, n) && post.loan_at(j0, n) == id);
        assert forall|j: int, p: int, k: int, q: int|
            #[trigger] post.is_loan(j, p) && #[trigger] post.is_loan(k, q) && post.loan_at(j, p)
                == post.loan_at(k, q) implies j == k && p == q by {
            if self.is_loan(j, p) && self.loan_at(j, p) == id {
                assert(self.held(id));
            }
            if self.is_loan(k, q) && self.loan_at(k, q) == id {
                assert(self.held(id));
            }
        }
        assert forall|b: int| 0 <= b < post.books.len() implies ((#[trigger] post.books[b]).is_issued
            <==> post.held(post.books[b].id)) by {
            let bid = post.books[b].id;
            assert(bid == self.books[b].id);
            if b == i {
                assert(post.held(bid));
            } else {
                if post.held(bid) {
                    let (j, p) = choose|j: int, p: int| #[trigger]
                        post.is_loan(j, p) && post.loan_at(j, p) == bid;
                    assert(self.is_loan(j, p));
                    assert(self.held(bid));
                }
                if self.held(bid) {
                    let (j, p) = choose|j: int, p: int| #[trigger]
                        self.is_loan(j, p) && self.loan_at(j, p) == bid;
                    assert(post.is_loan(j, p));
                }
            }
        }
    }

    /// Taking a book back, where the rules allow it, leaves a catalog that is
    /// in order in order.
    pub proof fn law_return_keeps_order(self, title: Seq<char>, name: Seq<char>)
        requires
            self.wf(),
            self.return_outcome(title, name) is Ok,
        ensures
            self.after_return(title, name).wf(),
    {
        let post = self.after_return(title, name);
        let k1 = choose|k: int|
            0 <= k < self.books.len() && (#[trigger] self.books[k]).title == title
                && self.books[k].is_issued == true;
        self.lemma_first_copy_exists(title, true, k1);
        let i = self.first_copy(title, true);
        let id = self.books[i].id;
        let k0 = choose|k: int|
            0 <= k < self.users.len() && (#[trigger] self.users[k]).name == name
                && self.users[k].borrowed_books.contains(id);
        self.lemma_first_user_exists(name, k0);
        let j0 = self.first_user(name);
        assert(self.users[j0].name == self.users[k0].name);
        assert(j0 == k0);
        let loans = self.users[j0].borrowed_books;
        loans.index_of_first_ensures(id);
        let p0 = loans.index_of_first(id).unwrap();
        assert(post.users[j0].borrowed_books == loans.remove(p0));
        assert(self.is_loan(j0, p0) && self.loan_at(j0, p0) == id);
        // every loan that is left was there before
        assert forall|j: int, p: int| #[trigger] post.is_loan(j, p) implies ({
            let q = if j == j0 && p >= p0 { p + 1 } else { p };
            self.is_loan(j, q) && self.loan_at(j, q) == post.loan_at(j, p) && !(j == j0 && q == p0)
        }) by {}
        // every loan but the one handed back is still there
        assert forall|j: int, p: int|
            #[trigger] self.is_loan(j, p) && !(j == j0 && p == p0) implies ({
            let q = if j == j0 && p > p0 { p - 1 } else { p };
            post.is_loan(j, q) && post.loan_at(j, q) == self.loan_at(j, p)
        }) by {}
        assert forall|j: int, p: int| #[trigger] post.is_loan(j, p) implies 1 <= post.loan_at(j, p)
            <= post.books.len() by {
            let q = if j == j0 && p >= p0 { p + 1 } else { p };
            assert(self.is_loan(j, q));
        }
        assert forall|j: int, p: int, k: int, q: int|
            #[trigger] post.is_loan(j, p) && #[trigger] post.is_loan(k, q) && post.loan_at(j, p)
                == post.loan_at(k, q) implies j == k && p == q by {
            let p1 = if j == j0 && p >= p0 { p + 1 } else { p };
            let q1 = if k == j0 && q >= p0 { q + 1 } else { q };
            assert(self.is_loan(j, p1) && self.is_loan(k, q1));
        }
        assert forall|b: int| 0 <= b < post.books.len() implies ((#[trigger] post.books[b]).is_issued
            <==> post.held(post.books[b].id)) by {
            let bid = post.books[b].id;
            assert(bid == self.books[b].id);
            if post.held(bid) {
                let (j, p) = choose|j: int, p: int| #[trigger]
                    post.is_loan(j, p) && post.loan_at(j, p) == bid;
                let q = if j == j0 && p >= p0 { p + 1 } else { p };
                assert(self.is_loan(j, q) && self.loan_at(j, q) == bid);
                assert(self.held(bid));
                assert(b != i);
            }
            if b != i && self.held(bid) {
                let (j, p) = choose|j: int, p: int| #[trigger]
                    self.is_loan(j, p) && self.loan_at(j, p) == bid;
                let q = if j == j0 && p > p0 { p - 1 } else { p };
                assert(post.is_loan(j, q) && post.loan_at(j, q) == bid);
            }
        }
    }

    /// Issuing a book and taking it back from the same user restores the
    /// catalog exactly. This is stated of a catalog that is in order, of an
    /// issue that the rules allow, and of a title of which no copy that
    /// stands before the one handed out is already lent: taking back picks
    /// the first copy that is out, whoever holds it.
    pub proof fn law_issue_then_return(self, title: Seq<char>, name: Seq<char>)
        requires
            self.wf(),
            self.issue_outcome(title, name) is Ok,
            self.has_copy(title, true) ==> self.first_copy(title, false) < self.first_copy(
                title,
                true,
            ),
        ensures
            self.after_issue(title, name).return_outcome(title, name) == self.issue_outcome(
                title,
                name,
            ),
            self.after_issue(title, name).after_return(title, name) == self,
    {
        let mid = self.after_issue(title, name);
        let k0 = choose|k: int| 0 <= k < self.users.len() && (#[trigger] self.users[k]).name == name;
        self.lemma_first_user_exists(name, k0);
        let k1 = choose|k: int|
            0 <= k < self.books.len() && (#[trigger] self.books[k]).title == title
                && self.books[k].is_issued == false;
        self.lemma_first_copy_exists(title, false, k1);
        let i = self.first_copy(title, false);
        let j0 = self.first_user(name);
        let id = self.books[i].id;
        let loans = self.users[j0].borrowed_books;
        let n = loans.len() as int;
        assert forall|k: int| 0 <= k < i implies !((#[trigger] mid.books[k]).title == title
            && mid.books[k].is_issued == true) by {
            if self.books[k].title == title && self.books[k].is_issued {
                self.lemma_first_copy_exists(title, true, k);
            }
        }
        assert(mid.is_first_copy(title, true, i));
        mid.lemma_first_copy_is(title, true, i);
        assert forall|k: int| 0 <= k < j0 implies (#[trigger] mid.users[k]).name != name by {
            assert(self.users[k].name != name);
        }
        assert(mid.is_first_user(name, j0));
        mid.lemma_first_user_is(name, j0);
        let lent = loans.push(id);
        assert(lent[n] == id);
        assert(mid.users[j0].borrowed_books.contains(id));
        assert(mid.holds(name, id));
        // the copy was on the shelf, so nobody held its id
        assert(!self.held(id));
        assert forall|p: int| 0 <= p < n implies loans[p] != id by {
            assert(self.is_loan(j0, p));
        }
        lent.index_of_first_ensures(id);
        assert(lent.index_of_first(id) == Some(n));
        assert(lent.remove(n) =~= loans);
        let post = mid.after_return(title, name);
        assert(post.books =~= self.books);
        assert(post.users =~= self.users);
    }
}

} // verus!
