use vstd::prelude::*;

use crate::book::{Book, BookStoreError, BookView};
use crate::laws::{
    lemma_delete_keeps_ids_unique, lemma_register_keeps_ids_unique, lemma_update_keeps_ids_unique,
};

verus! {

/// The mathematical value of a `BookStore`.
pub struct StoreView {
    /// The identity allowed to change the store.
    pub admin: Seq<char>,
    /// The books, in the order the collection holds them.
    pub books: Seq<BookView>,
}

/// Some book in `books` carries `id`.
pub open spec fn has_id(books: Seq<BookView>, id: u8) -> bool {
    exists|k: int| 0 <= k < books.len() && #[trigger] books[k].id == id
}

/// No two positions of `books` carry the same id.
pub open spec fn ids_unique(books: Seq<BookView>) -> bool {
    forall|i: int, j: int|
        0 <= i < books.len() && 0 <= j < books.len() && i != j ==> #[trigger] books[i].id
            != #[trigger] books[j].id
}

/// The position of the book carrying `id`; meaningful when `has_id(books, id)`.
pub open spec fn index_of(books: Seq<BookView>, id: u8) -> int {
    choose|k: int| 0 <= k < books.len() && #[trigger] books[k].id == id
}

/// `books` with position `k` removed by moving the last book into its place.
pub open spec fn swap_removed(books: Seq<BookView>, k: int) -> Seq<BookView> {
    books.update(k, books.last()).drop_last()
}

/// The store that `new` builds for `admin`.
pub open spec fn fresh(admin: Seq<char>) -> StoreView {
    StoreView { admin, books: Seq::empty() }
}

/// What a lookup of `id` returns: the book, or `BookNotFound`.
pub open spec fn accessed(s: StoreView, id: u8) -> Result<BookView, BookStoreError> {
    if has_id(s.books, id) {
        Ok(s.books[index_of(s.books, id)])
    } else {
        Err(BookStoreError::BookNotFound)
    }
}

/// The store after a request to register a book, and the outcome.
/// Authorization is checked first, then that the id is new.
pub open spec fn registered(
    s: StoreView,
    caller: Seq<char>,
    name: Seq<char>,
    book_author: Seq<char>,
    book_pub: u16,
    book_id: u8,
) -> (StoreView, Result<(), BookStoreError>) {
    if caller != s.admin {
        (s, Err(BookStoreError::NotAuthorized))
    } else if has_id(s.books, book_id) {
        (s, Err(BookStoreError::BookIdAlreadyExists))
    } else {
        let b = BookView { id: book_id, name, book_author, book_pub };
        (StoreView { admin: s.admin, books: s.books.push(b) }, Ok(()))
    }
}

/// The store after a request to update a book, and the outcome.
/// Authorization is checked first, then that the id exists; the id itself stays.
pub open spec fn updated(
    s: StoreView,
    caller: Seq<char>,
    name: Seq<char>,
    book_author: Seq<char>,
    book_pub: u16,
    book_id: u8,
) -> (StoreView, Result<(), BookStoreError>) {
    if caller != s.admin {
        (s, Err(BookStoreError::NotAuthorized))
    } else if !has_id(s.books, book_id) {
        (s, Err(BookStoreError::BookNotFound))
    } else {
        let b = BookView { id: book_id, name, book_author, book_pub };
        let k = index_of(s.books, book_id);
        (StoreView { admin: s.admin, books: s.books.update(k, b) }, Ok(()))
    }
}

/// The store after a request to delete a book, and the outcome.
/// Authorization is checked first, then that the id exists; the last book
/// takes the place of the deleted one.
pub open spec fn deleted(s: StoreView, caller: Seq<char>, book_id: u8) -> (
    StoreView,
    Result<(), BookStoreError>,
) {
    if caller != s.admin {
        (s, Err(BookStoreError::NotAuthorized))
    } else if !has_id(s.books, book_id) {
        (s, Err(BookStoreError::BookNotFound))
    } else {
        let k = index_of(s.books, book_id);
        (StoreView { admin: s.admin, books: swap_removed(s.books, k) }, Ok(()))
    }
}

/// A collection of books that only its admin identity may change.
pub struct BookStore {
    books: Vec<Book>,
    admin_address: String,
}

impl View for BookStore {
    type V = StoreView;

    closed spec fn view(&self) -> StoreView {
        StoreView { admin: self.admin_address@, books: self.books@.map_values(|b: Book| b@) }
    }
}

impl BookStore {
    /// The store's invariant: book ids are unique.
    pub open spec fn wf(&self) -> bool {
        ids_unique(self@.books)
    }

    /// An empty store administered by `admin_address`.
    pub fn new(admin_address: String) -> (s: Self)
        ensures
            s@ == fresh(admin_address@),
            s.wf(),
    {
        let s = BookStore { books: Vec::new(), admin_address };
        assert(s@.books =~= Seq::<BookView>::empty());
        s
    }

    /// The identity allowed to change the store.
    pub fn admin_address(&self) -> (r: &str)
        ensures
            r@ == self@.admin,
    {
        self.admin_address.as_str()
    }

    /// The books, in the order the collection holds them.
    pub fn books(&self) -> (r: &Vec<Book>)
        ensures
            r@.map_values(|b: Book| b@) == self@.books,
    {
        &self.books
    }

    /// Whether `caller` is exactly the admin identity.
    fn is_admin(&self, caller: &str) -> (r: bool)
        ensures
            r == (caller@ == self@.admin),
    {
        let c: String = caller.to_owned();
        c == self.admin_address
    }

    /// The position of the book carrying `book_id`, if any.
    fn position(&self, book_id: u8) -> (r: Option<usize>)
        requires
            self.wf(),
        ensures
            match r {
                Some(k) => {
                    &&& has_id(self@.books, book_id)
                    &&& k < self@.books.len()
                    &&& k as int == index_of(self@.books, book_id)
                    &&& self@.books[k as int].id == book_id
                },
                None => !has_id(self@.books, book_id),
            },
    {
        let mut i: usize = 0;
        while i < self.books.len()
            invariant
                self.wf(),
                i <= self.books@.len(),
                self@.books.len() == self.books@.len(),
                forall|k: int| 0 <= k < i ==> #[trigger] self@.books[k].id != book_id,
            decreases self.books@.len() - i,
        {
            if self.books[i].id == book_id {
                assert(self@.books[i as int].id == book_id);
                assert(has_id(self@.books, book_id));
                return Some(i);
            }
            i = i + 1;
        }
        None
    }

    /// The book carrying `book_id`; open to any caller.
    pub fn access_book(&self, book_id: u8) -> (r: Result<&Book, BookStoreError>)
        requires
            self.wf(),
        ensures
            match r {
                Ok(b) => accessed(self@, book_id) == Ok::<BookView, BookStoreError>(b@),
                Err(e) => accessed(self@, book_id) == Err::<BookView, BookStoreError>(e),
            },
    {
        match self.position(book_id) {
            Some(k) => Ok(&self.books[k]),
            None => Err(BookStoreError::BookNotFound),
        }
    }

    /// Registers a new book at the end of the collection; only the admin may,
    /// and only under an id that no book carries yet.
    pub fn register_book(
        &mut self,
        caller: &str,
        name: String,
        book_author: String,
        book_pub: u16,
        book_id: u8,
    ) -> (r: Result<(), BookStoreError>)
        requires
            old(self).wf(),
        ensures
            final(self).wf(),
            (final(self)@, r) == registered(
                old(self)@,
                caller@,
                name@,
                book_author@,
                book_pub,
                book_id,
            ),
    {
        proof {
            lemma_register_keeps_ids_unique(self@, caller@, name@, book_author@, book_pub, book_id);
        }
        if !self.is_admin(caller) {
            return Err(BookStoreError::NotAuthorized);
        }
        if self.position(book_id).is_some() {
            return Err(BookStoreError::BookIdAlreadyExists);
        }
        let book = Book { id: book_id, name, book_author, book_pub };
        self.books.push(book);
        assert(self@.books =~= old(self)@.books.push(book@));
        Ok(())
    }

    /// Overwrites the name, author and publication year of the book carrying
    /// `book_id`; only the admin may.
    pub fn update_book(
        &mut self,
        caller: &str,
        name: String,
        book_author: String,
        book_pub: u16,
        book_id: u8,
    ) -> (r: Result<(), BookStoreError>)
        requires
            old(self).wf(),
        ensures
            final(self).wf(),
            (final(self)@, r) == updated(
                old(self)@,
                caller@,
                name@,
                book_author@,
                book_pub,
                book_id,
            ),
    {
        proof {
            lemma_update_keeps_ids_unique(self@, caller@, name@, book_author@, book_pub, book_id);
        }
        if !self.is_admin(caller) {
            return Err(BookStoreError::NotAuthorized);
        }
        match self.position(book_id) {
            None => Err(BookStoreError::BookNotFound),
            Some(k) => {
                let ghost b = BookView { id: book_id, name: name@, book_author: book_author@, book_pub };
                self.books[k].name = name;
                self.books[k].book_author = book_author;
                self.books[k].book_pub = book_pub;
                assert(self@.books =~= old(self)@.books.update(k as int, b));
                Ok(())
            },
        }
    }

    /// Removes the book carrying `book_id`, moving the last book into its
    /// place; only the admin may.
    pub fn delete_book(&mut self, caller: &str, book_id: u8) -> (r: Result<(), BookStoreError>)
        requires
            old(self).wf(),
        ensures
            final(self).wf(),
            (final(self)@, r) == deleted(old(self)@, caller@, book_id),
    {
        proof {
            lemma_delete_keeps_ids_unique(self@, caller@, book_id);
        }
        if !self.is_admin(caller) {
            return Err(BookStoreError::NotAuthorized);
        }
        match self.position(book_id) {
            None => Err(BookStoreError::BookNotFound),
            Some(k) => {
                self.books.swap_remove(k);
                assert(self@.books =~= swap_removed(old(self)@.books, k as int));
                Ok(())
            },
        }
    }
}

} // verus!
