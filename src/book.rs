use vstd::prelude::*;

verus! {

/// A book as stored: plain value data identified by `id`.
#[derive(Clone, Debug)]
pub struct Book {
    pub id: u8,
    pub name: String,
    pub book_author: String,
    pub book_pub: u16,
}

/// The mathematical value of a `Book`: its text fields as character sequences.
pub struct BookView {
    pub id: u8,
    pub name: Seq<char>,
    pub book_author: Seq<char>,
    pub book_pub: u16,
}

impl View for Book {
    type V = BookView;

    open spec fn view(&self) -> BookView {
        BookView {
            id: self.id,
            name: self.name@,
            book_author: self.book_author@,
            book_pub: self.book_pub,
        }
    }
}

/// Why an operation on the store was refused.
#[derive(Clone, Copy, Debug, PartialEq, Eq, Structural)]
pub enum BookStoreError {
    /// The caller is not the store's admin identity.
    NotAuthorized,
    /// No book with the requested id exists.
    BookNotFound,
    /// A book with the requested id already exists.
    BookIdAlreadyExists,
}

} // verus!
