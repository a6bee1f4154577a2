//! The catalog itself and the operations that change it.
use vstd::prelude::*;
use crate::model::{BookView, LibraryError, LibraryView, UserView};

verus! {

/// One book of the catalog.
#[derive(Debug, Clone, PartialEq, Eq)]
pub struct Book {
    pub id: u32,
    pub title: String,
    pub author: String,
    pub is_issued: bool,
}

/// One registered user, with the ids of the books the user holds.
#[derive(Debug, Clone, PartialEq, Eq)]
pub struct User {
    pub id: u32,
    pub name: String,
    pub borrowed_books: Vec<u32>,
}

/// The catalog: books and users, each in the order in which they came.
///
/// The fields are open, so a catalog may be put together from stored data as
/// it is. Every operation is specified for every catalog, and keeps the
/// bookkeeping in order ([`LibraryView::wf`]) where it was in order before.
#[derive(Debug, Clone, PartialEq, Eq)]
pub struct Library {
    pub books: Vec<Book>,
    pub users: Vec<User>,
}

impl View for Book {
    type V = BookView;

    open spec fn view(&self) -> BookView {
        BookView { id: self.id, title: self.title@, author: self.author@, is_issued: self.is_issued }
    }
}

impl View for User {
    type V = UserView;

    open spec fn view(&self) -> UserView {
        UserView { id: self.id, name: self.name@, borrowed_books: self.borrowed_books@ }
    }
}

impl View for Library {
    type V = LibraryView;

    open spec fn view(&self) -> LibraryView {
        LibraryView {
            books: Seq::new(self.books.len() as nat, |i: int| self.books[i]@),
            users: Seq::new(self.users.len() as nat, |j: int| self.users[j]@),
        }
    }
}

impl Library {
    /// The empty catalog.
    pub fn new() -> (lib: Library)
        ensures
            lib@ == LibraryView::empty(),
            lib@.wf(),
    {
        let lib = Library { books: Vec::new(), users: Vec::new() };
        proof {
            assert(lib@.books =~= Seq::empty());
            assert(lib@.users =~= Seq::empty());
        }
        lib
    }

    /// The position of the first user called `name`.
    fn find_user(&self, name: &String) -> (r: Option<usize>)
        ensures
            match r {
                Some(j) => self@.is_first_user(name@, j as int),
                None => !self@.has_user(name@),
            },
    {
        let mut j: usize = 0;
        while j < self.users.len()
            invariant
                j <= self.users.len(),
                forall|k: int| 0 <= k < j ==> (#[trigger] self@.users[k]).name != name@,
            decreases self.users.len() - j,
        {
            if self.users[j].name == *name {
                return Some(j);
            }
            j += 1;
        }
        None
    }

    /// The position of the first book titled `title` whose flag is `issued`.
    fn find_copy(&self, title: &String, issued: bool) -> (r: Option<usize>)
        ensures
            match r {
                Some(i) => self@.is_first_copy(title@, issued, i as int),
                None => !self@.has_copy(title@, issued),
            },
    {
        let mut i: usize = 0;
        while i < self.books.len()
            invariant
                i <= self.books.len(),
                forall|k: int|
                    0 <= k < i ==> !((#[trigger] self@.books[k]).title == title@
                        && self@.books[k].is_issued == issued),
            decreases self.books.len() - i,
        {
            if self.books[i].title == *title && self.books[i].is_issued == issued {
                return Some(i);
            }
            i += 1;
        }
        None
    }

    /// The position of the first occurrence of `id` among `loans`.
    fn find_loan(loans: &Vec<u32>, id: u32) -> (r: Option<usize>)
        ensures
            match r {
                Some(p) => p < loans.len() && loans@.index_of_first(id) == Some(p as int),
                None => !loans@.contains(id),
            },
    {
        let mut p: usize = 0;
        while p < loans.len()
            invariant
                p <= loans.len(),
                forall|q: int| 0 <= q < p ==> loans@[q] != id,
            decreases loans.len() - p,
        {
            if loans[p] == id {
                proof {
                    assert(loans@.contains(id));
                    loans@.index_of_first_ensures(id);
                }
                return Some(p);
            }
            p += 1;
        }
        None
    }

    /// Whether some user called `name` has `id` among the loans.
    fn is_held_by(&self, name: &String, id: u32) -> (r: bool)
        ensures
            r == self@.holds(name@, id),
    {
        let mut j: usize = 0;
        while j < self.users.len()
            invariant
                j <= self.users.len(),
                forall|k: int|
                    0 <= k < j ==> !((#[trigger] self@.users[k]).name == name@
                        && self@.users[k].borrowed_books.contains(id)),
            decreases self.users.len() - j,
        {
            if self.users[j].name == *name {
                if Self::find_loan(&self.users[j].borrowed_books, id).is_some() {
                    proof {
                        self.users[j as int].borrowed_books@.index_of_first_ensures(id);
                        assert(self@.users[j as int].borrowed_books.contains(id));
                    }
                    return true;
                }
            }
            j += 1;
        }
        false
    }

    /// Adds a book and answers its id, the new number of books. The book
    /// comes last and is on the shelf. Blank titles and authors are taken as
    /// they are. Ids are 32 bits wide, so the catalog must have room for one
    /// more.
    pub fn add_book(&mut self, title: String, author: String) -> (id: u32)
        requires
            old(self)@.books.len() < u32::MAX,
        ensures
            final(self)@ == old(self)@.with_book(title@, author@),
            id == old(self)@.books.len() + 1,
            old(self)@.wf() ==> final(self)@.wf(),
    {
        let id: u32 = (self.books.len() as u32) + 1;
        self.books.push(Book { id, title, author, is_issued: false });
        proof {
            assert(self@.books =~= old(self)@.with_book(title@, author@).books);
            assert(self@.users =~= old(self)@.users);
            if old(self)@.wf() {
                old(self)@.law_add_book_keeps_order(title@, author@);
            }
        }
        id
    }

    /// Registers a user and answers the id, the new number of users. Where
    /// the name is taken the catalog stays as it is and the answer is
    /// `DuplicateUser`. Names are compared letter for letter. Ids are 32
    /// bits wide, so for a new name the catalog must have room for one more.
    pub fn add_user(&mut self, name: String) -> (r: Result<u32, LibraryError>)
        requires
            old(self)@.users.len() < u32::MAX || old(self)@.has_user(name@),
        ensures
            match r {
                Ok(id) => {
                    &&& !old(self)@.has_user(name@)
                    &&& final(self)@ == old(self)@.with_user(name@)
                    &&& id == old(self)@.users.len() + 1
                },
                Err(e) => {
                    &&& e == LibraryError::DuplicateUser
                    &&& old(self)@.has_user(name@)
                    &&& final(self)@ == old(self)@
                },
            },
            old(self)@.wf() ==> final(self)@.wf(),
    {
        match self.find_user(&name) {
            Some(_) => Err(LibraryError::DuplicateUser),
            None => {
                let id: u32 = (self.users.len() as u32) + 1;
                self.users.push(User { id, name, borrowed_books: Vec::new() });
                proof {
                    assert(self@.users =~= old(self)@.with_user(name@).users);
                    assert(self@.books =~= old(self)@.books);
                    if old(self)@.wf() {
                        old(self)@.law_add_user_keeps_order(name@);
                    }
                }
                Ok(id)
            },
        }
    }

    /// Issues the first copy of `title` that is on the shelf to the user
    /// called `user`, and answers the copy's id. The rules are tried in
    /// order: the user must exist (`UnknownUser`), then a copy must be on the
    /// shelf (`BookUnavailable`). Where a rule fails the catalog stays as it
    /// is.
    pub fn issue_book(&mut self, title: String, user: &str) -> (r: Result<u32, LibraryError>)
        ensures
            r == old(self)@.issue_outcome(title@, user@),
            final(self)@ == if r is Ok {
                old(self)@.after_issue(title@, user@)
            } else {
                old(self)@
            },
            old(self)@.wf() ==> final(self)@.wf(),
    {
        let name = user.to_owned();
        let j = match self.find_user(&name) {
            Some(j) => j,
            None => {
                return Err(LibraryError::UnknownUser);
            },
        };
        let i = match self.find_copy(&title, false) {
            Some(i) => i,
            None => {
                return Err(LibraryError::BookUnavailable);
            },
        };
        proof {
            self@.lemma_first_user_is(user@, j as int);
            self@.lemma_first_copy_is(title@, false, i as int);
        }
        let id = self.books[i].id;
        self.books[i].is_issued = true;
        self.users[j].borrowed_books.push(id);
        proof {
            let post = old(self)@.after_issue(title@, user@);
            assert(self@.books =~= post.books);
            assert(self@.users =~= post.users);
            if old(self)@.wf() {
                old(self)@.law_issue_keeps_order(title@, user@);
            }
        }
        Ok(id)
    }

    /// Takes back the first copy of `title` that is out from the user called
    /// `user`, and answers the copy's id. The rules are tried in order: the
    /// user must exist (`UnknownUser`), a copy of the title must be out
    /// (`BookNotIssued`), and the first such copy must be among the loans of
    /// a user of that name (`NotBorrowedByUser`). Where a rule fails the
    /// catalog stays as it is.
    pub fn return_book(&mut self, title: String, user: &str) -> (r: Result<u32, LibraryError>)
        ensures
            r == old(self)@.return_outcome(title@, user@),
            final(self)@ == if r is Ok {
                old(self)@.after_return(title@, user@)
            } else {
                old(self)@
            },
            old(self)@.wf() ==> final(self)@.wf(),
    {
        let name = user.to_owned();
        let j = match self.find_user(&name) {
            Some(j) => j,
            None => {
                return Err(LibraryError::UnknownUser);
            },
        };
        let i = match self.find_copy(&title, true) {
            Some(i) => i,
            None => {
                return Err(LibraryError::BookNotIssued);
            },
        };
        proof {
            self@.lemma_first_user_is(user@, j as int);
            self@.lemma_first_copy_is(title@, true, i as int);
        }
        let id = self.books[i].id;
        if !self.is_held_by(&name, id) {
            return Err(LibraryError::NotBorrowedByUser);
        }
        self.books[i].is_issued = false;
        match Self::find_loan(&self.users[j].borrowed_books, id) {
            Some(p) => {
                self.users[j].borrowed_books.remove(p);
            },
            None => {},
        }
        proof {
            let post = old(self)@.after_return(title@, user@);
            let loans = old(self)@.users[j as int].borrowed_books;
            loans.index_of_first_ensures(id);
            assert(self@.users[j as int].borrowed_books == loans.remove_value(id));
            assert(self@.users[j as int] == post.users[j as int]);
            assert(self@.books =~= post.books);
            assert(self@.users =~= post.users);
            if old(self)@.wf() {
                old(self)@.law_return_keeps_order(title@, user@);
            }
        }
        Ok(id)
    }
}

} // verus!
