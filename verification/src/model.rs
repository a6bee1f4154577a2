//! The mathematical model of a catalog and of its operations.
use vstd::prelude::*;

verus! {

/// Why an operation on the catalog changed nothing.
#[derive(Debug, Clone, Copy, PartialEq, Eq, Structural)]
pub enum LibraryError {
    /// No user carries the given name.
    UnknownUser,
    /// A user with the given name is already registered.
    DuplicateUser,
    /// No copy with the given title is on the shelf: the title is absent, or
    /// every copy of it is out.
    BookUnavailable,
    /// No copy with the given title is out.
    BookNotIssued,
    /// The copy that is out is not held by the named user.
    NotBorrowedByUser,
}

/// A book as the contracts see it.
pub struct BookView {
    pub id: u32,
    pub title: Seq<char>,
    pub author: Seq<char>,
    pub is_issued: bool,
}

/// A user as the contracts see it.
pub struct UserView {
    pub id: u32,
    pub name: Seq<char>,
    pub borrowed_books: Seq<u32>,
}

/// A catalog as the contracts see it: its books and its users, in order.
pub struct LibraryView {
    pub books: Seq<BookView>,
    pub users: Seq<UserView>,
}

impl BookView {
    /// The same book with its flag set to `issued`.
    pub open spec fn flagged(self, issued: bool) -> BookView {
        BookView { id: self.id, title: self.title, author: self.author, is_issued: issued }
    }
}

impl UserView {
    /// The same user holding `id` as the latest loan.
    pub open spec fn lent(self, id: u32) -> UserView {
        UserView { id: self.id, name: self.name, borrowed_books: self.borrowed_books.push(id) }
    }

    /// The same user without the first occurrence of `id` among the loans.
    pub open spec fn relieved(self, id: u32) -> UserView {
        UserView {
            id: self.id,
            name: self.name,
            borrowed_books: self.borrowed_books.remove_value(id),
        }
    }
}

impl LibraryView {
    /// The catalog without books or users.
    pub open spec fn empty() -> LibraryView {
        LibraryView { books: Seq::empty(), users: Seq::empty() }
    }

    // ----- looking up users -----

    /// Some user is called `name`.
    pub open spec fn has_user(self, name: Seq<char>) -> bool {
        exists|j: int| 0 <= j < self.users.len() && (#[trigger] self.users[j]).name == name
    }

    /// `j` is the position of the first user called `name`.
    pub open spec fn is_first_user(self, name: Seq<char>, j: int) -> bool {
        &&& 0 <= j < self.users.len()
        &&& self.users[j].name == name
        &&& forall|k: int| 0 <= k < j ==> (#[trigger] self.users[k]).name != name
    }

    /// The position of the first user called `name`, where there is one.
    pub open spec fn first_user(self, name: Seq<char>) -> int {
        choose|j: int| self.is_first_user(name, j)
    }

    // ----- looking up books -----

    /// Some book is titled `title` and has its flag equal to `issued`.
    pub open spec fn has_copy(self, title: Seq<char>, issued: bool) -> bool {
        exists|i: int|
            0 <= i < self.books.len() && (#[trigger] self.books[i]).title == title
                && self.books[i].is_issued == issued
    }

    /// `i` is the position of the first book titled `title` whose flag equals
    /// `issued`.
    pub open spec fn is_first_copy(self, title: Seq<char>, issued: bool, i: int) -> bool {
        &&& 0 <= i < self.books.len()
        &&& self.books[i].title == title
        &&& self.books[i].is_issued == issued
        &&& forall|k: int|
            0 <= k < i ==> !((#[trigger] self.books[k]).title == title && self.books[k].is_issued
                == issued)
    }

    /// The position of the first book titled `title` whose flag equals
    /// `issued`, where there is one.
    pub open spec fn first_copy(self, title: Seq<char>, issued: bool) -> int {
        choose|i: int| self.is_first_copy(title, issued, i)
    }

    /// Some user called `name` has `id` among the loans.
    pub open spec fn holds(self, name: Seq<char>, id: u32) -> bool {
        exists|j: int|
            0 <= j < self.users.len() && (#[trigger] self.users[j]).name == name
                && self.users[j].borrowed_books.contains(id)
    }

    // ----- the operations -----

    /// The catalog after a book was added: it comes last, its id is the new
    /// number of books, and it is on the shelf.
    pub open spec fn with_book(self, title: Seq<char>, author: Seq<char>) -> LibraryView {
        LibraryView {
            books: self.books.push(
                BookView {
                    id: (self.books.len() + 1) as u32,
                    title: title,
                    author: author,
                    is_issued: false,
                },
            ),
            users: self.users,
        }
    }

    /// The catalog after a user was added: the user comes last, with the new
    /// number of users as id and no loans.
    pub open spec fn with_user(self, name: Seq<char>) -> LibraryView {
        LibraryView {
            books: self.books,
            users: self.users.push(
                UserView {
                    id: (self.users.len() + 1) as u32,
                    name: name,
                    borrowed_books: Seq::empty(),
                },
            ),
        }
    }

    /// What issuing `title` to `name` answers: the id of the copy handed out,
    /// or the first rule that stands against it.
    pub open spec fn issue_outcome(self, title: Seq<char>, name: Seq<char>) -> Result<
        u32,
        LibraryError,
    > {
        if !self.has_user(name) {
            Err(LibraryError::UnknownUser)
        } else if !self.has_copy(title, false) {
            Err(LibraryError::BookUnavailable)
        } else {
            Ok(self.books[self.first_copy(title, false)].id)
        }
    }

    /// The catalog after `title` was issued to `name`: the first copy on the
    /// shelf is flagged, and its id is the latest loan of the first user of
    /// that name.
    pub open spec fn after_issue(self, title: Seq<char>, name: Seq<char>) -> LibraryView {
        let i = self.first_copy(title, false);
        let j = self.first_user(name);
        LibraryView {
            books: self.books.update(i, self.books[i].flagged(true)),
            users: self.users.update(j, self.users[j].lent(self.books[i].id)),
        }
    }

    /// What returning `title` by `name` answers: the id of the copy taken
    /// back, or the first rule that stands against it.
    pub open spec fn return_outcome(self, title: Seq<char>, name: Seq<char>) -> Result<
        u32,
        LibraryError,
    > {
        if !self.has_user(name) {
            Err(LibraryError::UnknownUser)
        } else if !self.has_copy(title, true) {
            Err(LibraryError::BookNotIssued)
        } else if !self.holds(name, self.books[self.first_copy(title, true)].id) {
            Err(LibraryError::NotBorrowedByUser)
        } else {
            Ok(self.books[self.first_copy(title, true)].id)
        }
    }

    /// The catalog after `title` was returned by `name`: the first copy that
    /// is out is back on the shelf, and the first user of that name has lost
    /// the first occurrence of its id.
    pub open spec fn after_return(self, title: Seq<char>, name: Seq<char>) -> LibraryView {
        let i = self.first_copy(title, true);
        let j = self.first_user(name);
        LibraryView {
            books: self.books.update(i, self.books[i].flagged(false)),
            users: self.users.update(j, self.users[j].relieved(self.books[i].id)),
        }
    }

    // ----- the bookkeeping invariant -----

    /// `(j, p)` is a loan: user `j` has an entry at position `p`.
    pub open spec fn is_loan(self, j: int, p: int) -> bool {
        0 <= j < self.users.len() && 0 <= p < self.users[j].borrowed_books.len()
    }

    /// The book id recorded by the loan `(j, p)`.
    pub open spec fn loan_at(self, j: int, p: int) -> u32 {
        self.users[j].borrowed_books[p]
    }

    /// Some loan records `id`.
    pub open spec fn held(self, id: u32) -> bool {
        exists|j: int, p: int| #[trigger] self.is_loan(j, p) && self.loan_at(j, p) == id
    }

    /// The bookkeeping is in order: ids count from one in collection order,
    /// user names are unique, every loan records a book of the catalog, no
    /// id is recorded twice, and a book is flagged as issued exactly when a
    /// loan records it.
    pub open spec fn wf(self) -> bool {
        &&& forall|i: int| 0 <= i < self.books.len() ==> (#[trigger] self.books[i]).id == i + 1
        &&& forall|j: int| 0 <= j < self.users.len() ==> (#[trigger] self.users[j]).id == j + 1
        &&& forall|j: int, k: int|
            0 <= j < self.users.len() && 0 <= k < self.users.len() && (#[trigger] self.users[j]).name
                == (#[trigger] self.users[k]).name ==> j == k
        &&& forall|j: int, p: int| #[trigger]
            self.is_loan(j, p) ==> 1 <= self.loan_at(j, p) <= self.books.len()
        &&& forall|j: int, p: int, k: int, q: int|
            #[trigger] self.is_loan(j, p) && #[trigger] self.is_loan(k, q) && self.loan_at(j, p)
                == self.loan_at(k, q) ==> j == k && p == q
        &&& forall|i: int|
            0 <= i < self.books.len() ==> ((#[trigger] self.books[i]).is_issued <==> self.held(
                self.books[i].id,
            ))
    }

    // ----- facts about the lookups -----

    /// A first user of a name is the only one, and `first_user` names it.
    pub proof fn lemma_first_user_is(self, name: Seq<char>, j: int)
        requires
            self.is_first_user(name, j),
        ensures
            self.has_user(name),
            self.first_user(name) == j,
    {
        let c = self.first_user(name);
        assert(self.is_first_user(name, c));
        if c < j {
            assert(self.users[c].name == name);
        } else if j < c {
            assert(self.users[j].name == name);
        }
    }

    /// Where a name is taken, some user is the first to carry it.
    pub proof fn lemma_first_user_exists(self, name: Seq<char>, k: int)
        requires
            0 <= k < self.users.len(),
            self.users[k].name == name,
        ensures
            self.is_first_user(name, self.first_user(name)),
            self.first_user(name) <= k,
        decreases k,
    {
        if exists|m: int| 0 <= m < k && (#[trigger] self.users[m]).name == name {
            let m = choose|m: int| 0 <= m < k && (#[trigger] self.users[m]).name == name;
            self.lemma_first_user_exists(name, m);
        } else {
            assert(self.is_first_user(name, k));
            self.lemma_first_user_is(name, k);
        }
    }

    /// A first copy is the only one, and `first_copy` names it.
    pub proof fn lemma_first_copy_is(self, title: Seq<char>, issued: bool, i: int)
        requires
            self.is_first_copy(title, issued, i),
        ensures
            self.has_copy(title, issued),
            self.first_copy(title, issued) == i,
    {
        let c = self.first_copy(title, issued);
        assert(self.is_first_copy(title, issued, c));
        if c < i {
            assert(self.books[c].title == title);
        } else if i < c {
            assert(self.books[i].title == title);
        }
    }

    /// Where a copy with the flag exists, one of them comes first.
    pub proof fn lemma_first_copy_exists(self, title: Seq<char>, issued: bool, k: int)
        requires
            0 <= k < self.books.len(),
            self.books[k].title == title,
            self.books[k].is_issued == issued,
        ensures
            self.is_first_copy(title, issued, self.first_copy(title, issued)),
            self.first_copy(title, issued) <= k,
        decreases k,
    {
        if exists|m: int|
            0 <= m < k && (#[trigger] self.books[m]).title == title && self.books[m].is_issued
                == issued {
            let m = choose|m: int|
                0 <= m < k && (#[trigger] self.books[m]).title == title && self.books[m].is_issued
                    == issued;
            self.lemma_first_copy_exists(title, issued, m);
        } else {
            assert(self.is_first_copy(title, issued, k));
            self.lemma_first_copy_is(title, issued, k);
        }
    }
}

} // verus!
