//! The read-only list of the catalog's books.
use vstd::prelude::*;
use crate::catalog::Library;
use crate::model::BookView;

verus! {

/// Where a book is: out with a user, or on the shelf.
#[derive(Debug, Clone, Copy, PartialEq, Eq, Structural)]
pub enum Status {
    Issued,
    Available,
}

impl Status {
    /// The status that goes with a book's flag.
    pub open spec fn of(is_issued: bool) -> Status {
        if is_issued {
            Status::Issued
        } else {
            Status::Available
        }
    }

    /// The word shown for a status.
    pub open spec fn label_text(self) -> Seq<char> {
        match self {
            Status::Issued => "Issued"@,
            Status::Available => "Available"@,
        }
    }

    /// The status that goes with a book's flag.
    pub fn from_flag(is_issued: bool) -> (s: Status)
        ensures
            s == Status::of(is_issued),
    {
        if is_issued {
            Status::Issued
        } else {
            Status::Available
        }
    }

    /// The word shown for this status: "Issued" or "Available".
    pub fn label(&self) -> (s: &'static str)
        ensures
            s@ == self.label_text(),
    {
        match self {
            Status::Issued => "Issued",
            Status::Available => "Available",
        }
    }
}

/// One line of the list: a book's id, title and author, and where it is.
#[derive(Debug, Clone, PartialEq, Eq)]
pub struct BookRow {
    pub id: u32,
    pub title: String,
    pub author: String,
    pub status: Status,
}

/// A line of the list as the contracts see it.
pub struct RowView {
    pub id: u32,
    pub title: Seq<char>,
    pub author: Seq<char>,
    pub status: Status,
}

impl View for BookRow {
    type V = RowView;

    open spec fn view(&self) -> RowView {
        RowView { id: self.id, title: self.title@, author: self.author@, status: self.status }
    }
}

impl BookView {
    /// The line that shows this book.
    pub open spec fn row(self) -> RowView {
        RowView {
            id: self.id,
            title: self.title,
            author: self.author,
            status: Status::of(self.is_issued),
        }
    }
}

/// The list of books: a catalog without books is told apart from a list.
#[derive(Debug, Clone, PartialEq, Eq)]
pub enum Listing {
    /// The catalog has no books.
    NoBooks,
    /// One line for each book, in the catalog's order.
    Books(Vec<BookRow>),
}

impl Listing {
    /// This list is the one that shows `books`.
    pub open spec fn shows(self, books: Seq<BookView>) -> bool {
        match self {
            Listing::NoBooks => books.len() == 0,
            Listing::Books(rows) => {
                &&& books.len() > 0
                &&& rows@.len() == books.len()
                &&& forall|i: int| 0 <= i < books.len() ==> (#[trigger] rows@[i])@ == books[i].row()
            },
        }
    }
}

impl Library {
    /// Lists the books in the catalog's order, each with its status. The
    /// catalog itself is left alone.
    pub fn display_books(&self) -> (r: Listing)
        ensures
            r.shows(self@.books),
    {
        if self.books.len() == 0 {
            return Listing::NoBooks;
        }
        let mut rows: Vec<BookRow> = Vec::new();
        let mut i: usize = 0;
        while i < self.books.len()
            invariant
                i <= self.books.len(),
                rows@.len() == i,
                forall|k: int| 0 <= k < i ==> (#[trigger] rows@[k])@ == self@.books[k].row(),
            decreases self.books.len() - i,
        {
            let book = &self.books[i];
            rows.push(
                BookRow {
                    id: book.id,
                    title: book.title.clone(),
                    author: book.author.clone(),
                    status: Status::from_flag(book.is_issued),
                },
            );
            i += 1;
        }
        Listing::Books(rows)
    }
}

} // verus!
