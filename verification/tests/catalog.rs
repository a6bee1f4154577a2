use library_catalog::{Book, BookRow, Library, LibraryError, Listing, Status, User};

fn s(text: &str) -> String {
    text.to_string()
}

/// Counts the loans, over all users, that record `id`.
fn loans_of(lib: &Library, id: u32) -> usize {
    let mut n = 0;
    for user in &lib.users {
        for held in &user.borrowed_books {
            if *held == id {
                n += 1;
            }
        }
    }
    n
}

/// A book is flagged exactly when one loan records it, and every loan
/// records a book of the catalog.
fn in_order(lib: &Library) -> bool {
    for (i, book) in lib.books.iter().enumerate() {
        if book.id as usize != i + 1 {
            return false;
        }
        let n = loans_of(lib, book.id);
        if book.is_issued && n != 1 {
            return false;
        }
        if !book.is_issued && n != 0 {
            return false;
        }
    }
    for (j, user) in lib.users.iter().enumerate() {
        if user.id as usize != j + 1 {
            return false;
        }
        for held in &user.borrowed_books {
            if *held == 0 || *held as usize > lib.books.len() {
                return false;
            }
        }
    }
    true
}

fn sample() -> Library {
    let mut lib = Library::new();
    lib.add_book(s("Dune"), s("Herbert"));
    lib.add_book(s("Echo"), s("First"));
    lib.add_book(s("Echo"), s("Second"));
    lib.add_user(s("Alice")).unwrap();
    lib.add_user(s("Bob")).unwrap();
    lib
}

#[test]
fn new_catalog_is_empty() {
    let lib = Library::new();
    assert!(lib.books.is_empty());
    assert!(lib.users.is_empty());
    assert!(in_order(&lib));
}

#[test]
fn add_book_counts_ids_from_one() {
    let mut lib = Library::new();
    assert_eq!(lib.add_book(s("Dune"), s("Herbert")), 1);
    assert_eq!(lib.add_book(s("Emma"), s("Austen")), 2);
    assert_eq!(lib.add_book(s("Dune"), s("Herbert")), 3);
    assert_eq!(
        lib.books,
        vec![
            Book { id: 1, title: s("Dune"), author: s("Herbert"), is_issued: false },
            Book { id: 2, title: s("Emma"), author: s("Austen"), is_issued: false },
            Book { id: 3, title: s("Dune"), author: s("Herbert"), is_issued: false },
        ]
    );
    assert!(lib.users.is_empty());
}

#[test]
fn add_book_takes_blank_fields() {
    let mut lib = Library::new();
    assert_eq!(lib.add_book(s(""), s("")), 1);
    assert_eq!(lib.books[0], Book { id: 1, title: s(""), author: s(""), is_issued: false });
}

#[test]
fn add_user_counts_ids_from_one() {
    let mut lib = Library::new();
    assert_eq!(lib.add_user(s("Alice")), Ok(1));
    assert_eq!(lib.add_user(s("Bob")), Ok(2));
    assert_eq!(
        lib.users,
        vec![
            User { id: 1, name: s("Alice"), borrowed_books: vec![] },
            User { id: 2, name: s("Bob"), borrowed_books: vec![] },
        ]
    );
    assert!(lib.books.is_empty());
}

#[test]
fn add_user_twice_is_refused_and_changes_nothing() {
    let mut lib = sample();
    lib.issue_book(s("Dune"), "Alice").unwrap();
    let before = lib.clone();
    assert_eq!(lib.add_user(s("Alice")), Err(LibraryError::DuplicateUser));
    assert_eq!(lib, before);
    assert_eq!(lib.add_user(s("Bob")), Err(LibraryError::DuplicateUser));
    assert_eq!(lib, before);
}

#[test]
fn user_names_are_case_sensitive() {
    let mut lib = Library::new();
    assert_eq!(lib.add_user(s("Alice")), Ok(1));
    assert_eq!(lib.add_user(s("alice")), Ok(2));
    assert_eq!(lib.issue_book(s("Dune"), "ALICE"), Err(LibraryError::UnknownUser));
}

#[test]
fn issue_to_unknown_user_changes_nothing() {
    let mut lib = sample();
    let before = lib.clone();
    assert_eq!(lib.issue_book(s("Dune"), "Carol"), Err(LibraryError::UnknownUser));
    assert_eq!(lib, before);
}

#[test]
fn unknown_user_is_reported_before_missing_title() {
    let mut lib = sample();
    assert_eq!(lib.issue_book(s("Nowhere"), "Carol"), Err(LibraryError::UnknownUser));
    assert_eq!(lib.return_book(s("Nowhere"), "Carol"), Err(LibraryError::UnknownUser));
}

#[test]
fn issue_of_missing_title_is_unavailable() {
    let mut lib = sample();
    let before = lib.clone();
    assert_eq!(lib.issue_book(s("Nowhere"), "Alice"), Err(LibraryError::BookUnavailable));
    assert_eq!(lib, before);
}

#[test]
fn issue_when_every_copy_is_out_is_unavailable() {
    let mut lib = sample();
    assert_eq!(lib.issue_book(s("Dune"), "Alice"), Ok(1));
    let before = lib.clone();
    assert_eq!(lib.issue_book(s("Dune"), "Bob"), Err(LibraryError::BookUnavailable));
    assert_eq!(lib, before);
}

#[test]
fn issue_then_return_scenario() {
    let mut lib = Library::new();
    lib.add_book(s("Dune"), s("Herbert"));
    lib.add_user(s("Alice")).unwrap();
    assert_eq!(lib.issue_book(s("Dune"), "Alice"), Ok(1));
    assert_eq!(lib.books[0].id, 1);
    assert!(lib.books[0].is_issued);
    assert_eq!(lib.users[0].borrowed_books, vec![1]);
    assert_eq!(lib.return_book(s("Dune"), "Alice"), Ok(1));
    assert_eq!(lib.books[0].id, 1);
    assert!(!lib.books[0].is_issued);
    assert_eq!(lib.users[0].borrowed_books, Vec::<u32>::new());
}

#[test]
fn issue_picks_the_first_copy_of_a_title() {
    let mut lib = Library::new();
    lib.add_book(s("Echo"), s("First"));
    lib.add_book(s("Echo"), s("Second"));
    lib.add_user(s("Alice")).unwrap();
    assert_eq!(lib.issue_book(s("Echo"), "Alice"), Ok(1));
    assert!(lib.books[0].is_issued);
    assert!(!lib.books[1].is_issued);
    assert_eq!(lib.users[0].borrowed_books, vec![1]);
}

#[test]
fn issue_picks_the_next_copy_when_the_first_is_out() {
    let mut lib = sample();
    assert_eq!(lib.issue_book(s("Echo"), "Alice"), Ok(2));
    assert_eq!(lib.issue_book(s("Echo"), "Bob"), Ok(3));
    assert!(!lib.books[0].is_issued);
    assert!(lib.books[1].is_issued);
    assert!(lib.books[2].is_issued);
    assert_eq!(lib.users[0].borrowed_books, vec![2]);
    assert_eq!(lib.users[1].borrowed_books, vec![3]);
    assert!(in_order(&lib));
}

#[test]
fn issue_appends_to_the_loans() {
    let mut lib = sample();
    assert_eq!(lib.issue_book(s("Echo"), "Alice"), Ok(2));
    assert_eq!(lib.issue_book(s("Dune"), "Alice"), Ok(1));
    assert_eq!(lib.issue_book(s("Echo"), "Alice"), Ok(3));
    assert_eq!(lib.users[0].borrowed_books, vec![2, 1, 3]);
    assert_eq!(lib.users[1].borrowed_books, Vec::<u32>::new());
}

#[test]
fn issue_then_return_restores_the_catalog() {
    let mut lib = sample();
    lib.issue_book(s("Dune"), "Bob").unwrap();
    let before = lib.clone();
    assert_eq!(lib.issue_book(s("Echo"), "Alice"), Ok(2));
    assert_ne!(lib, before);
    assert_eq!(lib.return_book(s("Echo"), "Alice"), Ok(2));
    assert_eq!(lib, before);
}

#[test]
fn return_by_unknown_user_changes_nothing() {
    let mut lib = sample();
    lib.issue_book(s("Dune"), "Alice").unwrap();
    let before = lib.clone();
    assert_eq!(lib.return_book(s("Dune"), "Carol"), Err(LibraryError::UnknownUser));
    assert_eq!(lib, before);
}

#[test]
fn return_of_a_book_on_the_shelf_is_not_issued() {
    let mut lib = sample();
    let before = lib.clone();
    assert_eq!(lib.return_book(s("Dune"), "Alice"), Err(LibraryError::BookNotIssued));
    assert_eq!(lib.return_book(s("Nowhere"), "Alice"), Err(LibraryError::BookNotIssued));
    assert_eq!(lib, before);
}

#[test]
fn return_by_another_user_is_refused() {
    let mut lib = sample();
    lib.issue_book(s("Dune"), "Alice").unwrap();
    let before = lib.clone();
    assert_eq!(lib.return_book(s("Dune"), "Bob"), Err(LibraryError::NotBorrowedByUser));
    assert_eq!(lib, before);
}

#[test]
fn return_looks_at_the_first_copy_that_is_out() {
    let mut lib = sample();
    assert_eq!(lib.issue_book(s("Echo"), "Alice"), Ok(2));
    assert_eq!(lib.issue_book(s("Echo"), "Bob"), Ok(3));
    let before = lib.clone();
    assert_eq!(lib.return_book(s("Echo"), "Bob"), Err(LibraryError::NotBorrowedByUser));
    assert_eq!(lib, before);
    assert_eq!(lib.return_book(s("Echo"), "Alice"), Ok(2));
    assert_eq!(lib.return_book(s("Echo"), "Bob"), Ok(3));
    assert_eq!(lib, sample());
}

#[test]
fn return_removes_the_id_by_value() {
    let mut lib = sample();
    lib.issue_book(s("Echo"), "Alice").unwrap();
    lib.issue_book(s("Dune"), "Alice").unwrap();
    lib.issue_book(s("Echo"), "Alice").unwrap();
    assert_eq!(lib.return_book(s("Dune"), "Alice"), Ok(1));
    assert_eq!(lib.users[0].borrowed_books, vec![2, 3]);
    assert!(!lib.books[0].is_issued);
    assert!(lib.books[1].is_issued);
    assert!(lib.books[2].is_issued);
    assert!(in_order(&lib));
}

#[test]
fn flags_and_loans_agree_after_every_step() {
    let mut lib = Library::new();
    assert!(in_order(&lib));
    lib.add_book(s("Dune"), s("Herbert"));
    assert!(in_order(&lib));
    lib.add_user(s("Alice")).unwrap();
    assert!(in_order(&lib));
    lib.add_book(s("Echo"), s("First"));
    lib.add_user(s("Bob")).unwrap();
    assert!(in_order(&lib));
    lib.issue_book(s("Dune"), "Bob").unwrap();
    assert!(in_order(&lib));
    assert_eq!(loans_of(&lib, 1), 1);
    assert_eq!(loans_of(&lib, 2), 0);
    lib.issue_book(s("Echo"), "Alice").unwrap();
    assert!(in_order(&lib));
    assert!(lib.issue_book(s("Echo"), "Bob").is_err());
    assert!(in_order(&lib));
    assert!(lib.return_book(s("Echo"), "Bob").is_err());
    assert!(in_order(&lib));
    lib.return_book(s("Dune"), "Bob").unwrap();
    assert!(in_order(&lib));
    assert_eq!(loans_of(&lib, 1), 0);
    assert_eq!(loans_of(&lib, 2), 1);
    lib.add_book(s("Emma"), s("Austen"));
    assert!(in_order(&lib));
}

#[test]
fn taken_names_act_on_the_first_user() {
    let mut lib = Library {
        books: vec![Book { id: 1, title: s("Dune"), author: s("Herbert"), is_issued: false }],
        users: vec![
            User { id: 1, name: s("Alice"), borrowed_books: vec![] },
            User { id: 2, name: s("Alice"), borrowed_books: vec![] },
        ],
    };
    assert_eq!(lib.issue_book(s("Dune"), "Alice"), Ok(1));
    assert_eq!(lib.users[0].borrowed_books, vec![1]);
    assert_eq!(lib.users[1].borrowed_books, Vec::<u32>::new());
}

#[test]
fn return_clears_the_flag_when_a_namesake_holds_the_book() {
    let mut lib = Library {
        books: vec![Book { id: 1, title: s("Dune"), author: s("Herbert"), is_issued: true }],
        users: vec![
            User { id: 1, name: s("Alice"), borrowed_books: vec![] },
            User { id: 2, name: s("Alice"), borrowed_books: vec![1] },
        ],
    };
    assert_eq!(lib.return_book(s("Dune"), "Alice"), Ok(1));
    assert!(!lib.books[0].is_issued);
    assert_eq!(lib.users[0].borrowed_books, Vec::<u32>::new());
    assert_eq!(lib.users[1].borrowed_books, vec![1]);
}

#[test]
fn display_of_an_empty_catalog_says_so() {
    let lib = Library::new();
    assert_eq!(lib.display_books(), Listing::NoBooks);
    let mut with_user = Library::new();
    with_user.add_user(s("Alice")).unwrap();
    assert_eq!(with_user.display_books(), Listing::NoBooks);
}

#[test]
fn display_lists_every_book_with_its_status() {
    let mut lib = sample();
    lib.issue_book(s("Echo"), "Alice").unwrap();
    let before = lib.clone();
    assert_eq!(
        lib.display_books(),
        Listing::Books(vec![
            BookRow { id: 1, title: s("Dune"), author: s("Herbert"), status: Status::Available },
            BookRow { id: 2, title: s("Echo"), author: s("First"), status: Status::Issued },
            BookRow { id: 3, title: s("Echo"), author: s("Second"), status: Status::Available },
        ])
    );
    assert_eq!(lib, before);
}

#[test]
fn status_labels() {
    assert_eq!(Status::Issued.label(), "Issued");
    assert_eq!(Status::Available.label(), "Available");
    assert_eq!(Status::from_flag(true), Status::Issued);
    assert_eq!(Status::from_flag(false), Status::Available);
}
