use vstd::prelude::*;

use crate::book::{BookStoreError, BookView};
use crate::store::{
    accessed, deleted, fresh, has_id, ids_unique, index_of, registered, swap_removed, updated,
    StoreView,
};

verus! {

/// A successful or refused registration leaves book ids unique.
pub proof fn lemma_register_keeps_ids_unique(
    s: StoreView,
    caller: Seq<char>,
    name: Seq<char>,
    book_author: Seq<char>,
    book_pub: u16,
    book_id: u8,
)
    requires
        ids_unique(s.books),
    ensures
        ids_unique(registered(s, caller, name, book_author, book_pub, book_id).0.books),
{
    let t = registered(s, caller, name, book_author, book_pub, book_id).0;
    if caller == s.admin && !has_id(s.books, book_id) {
        assert forall|i: int, j: int|
            0 <= i < t.books.len() && 0 <= j < t.books.len() && i != j implies #[trigger] t.books[i].id
            != #[trigger] t.books[j].id by {
            if i == s.books.len() {
                assert(s.books[j].id != book_id);
            } else if j == s.books.len() {
                assert(s.books[i].id != book_id);
            }
        }
    }
}

/// A successful or refused update leaves book ids unique.
pub proof fn lemma_update_keeps_ids_unique(
    s: StoreView,
    caller: Seq<char>,
    name: Seq<char>,
    book_author: Seq<char>,
    book_pub: u16,
    book_id: u8,
)
    requires
        ids_unique(s.books),
    ensures
        ids_unique(updated(s, caller, name, book_author, book_pub, book_id).0.books),
{
    let t = updated(s, caller, name, book_author, book_pub, book_id).0;
    if caller == s.admin && has_id(s.books, book_id) {
        let k = index_of(s.books, book_id);
        assert forall|i: int, j: int|
            0 <= i < t.books.len() && 0 <= j < t.books.len() && i != j implies #[trigger] t.books[i].id
            != #[trigger] t.books[j].id by {
            assert(s.books[k].id == book_id);
            assert(s.books[i].id != s.books[j].id);
        }
    }
}

/// A successful or refused deletion leaves book ids unique.
pub proof fn lemma_delete_keeps_ids_unique(s: StoreView, caller: Seq<char>, book_id: u8)
    requires
        ids_unique(s.books),
    ensures
        ids_unique(deleted(s, caller, book_id).0.books),
{
    let t = deleted(s, caller, book_id).0;
    if caller == s.admin && has_id(s.books, book_id) {
        let k = index_of(s.books, book_id);
        let last = s.books.len() - 1;
        assert forall|i: int, j: int|
            0 <= i < t.books.len() && 0 <= j < t.books.len() && i != j implies #[trigger] t.books[i].id
            != #[trigger] t.books[j].id by {
            let oi = if i == k { last } else { i };
            let oj = if j == k { last } else { j };
            assert(t.books[i] == s.books[oi]);
            assert(t.books[j] == s.books[oj]);
            assert(s.books[oi].id != s.books[oj].id);
        }
    }
}

/// One request made to a store.
pub enum StoreOp {
    Register { caller: Seq<char>, name: Seq<char>, book_author: Seq<char>, book_pub: u16, book_id: u8 },
    Update { caller: Seq<char>, name: Seq<char>, book_author: Seq<char>, book_pub: u16, book_id: u8 },
    Delete { caller: Seq<char>, book_id: u8 },
    Access { book_id: u8 },
}

/// The store after one request.
pub open spec fn applied(s: StoreView, op: StoreOp) -> StoreView {
    match op {
        StoreOp::Register { caller, name, book_author, book_pub, book_id } => registered(
            s,
            caller,
            name,
            book_author,
            book_pub,
            book_id,
        ).0,
        StoreOp::Update { caller, name, book_author, book_pub, book_id } => updated(
            s,
            caller,
            name,
            book_author,
            book_pub,
            book_id,
        ).0,
        StoreOp::Delete { caller, book_id } => deleted(s, caller, book_id).0,
        StoreOp::Access { book_id } => s,
    }
}

/// The store after the requests of `ops`, in order.
pub open spec fn run(s: StoreView, ops: Seq<StoreOp>) -> StoreView
    decreases ops.len(),
{
    if ops.len() == 0 {
        s
    } else {
        applied(run(s, ops.drop_last()), ops.last())
    }
}

/// Whatever requests a freshly built store receives, in whatever order, no
/// two of its books ever share an id.
pub proof fn lemma_ids_unique_after_any_requests(admin: Seq<char>, ops: Seq<StoreOp>)
    ensures
        ids_unique(run(fresh(admin), ops).books),
    decreases ops.len(),
{
    if ops.len() > 0 {
        lemma_ids_unique_after_any_requests(admin, ops.drop_last());
        let s = run(fresh(admin), ops.drop_last());
        match ops.last() {
            StoreOp::Register { caller, name, book_author, book_pub, book_id } => {
                lemma_register_keeps_ids_unique(s, caller, name, book_author, book_pub, book_id);
            },
            StoreOp::Update { caller, name, book_author, book_pub, book_id } => {
                lemma_update_keeps_ids_unique(s, caller, name, book_author, book_pub, book_id);
            },
            StoreOp::Delete { caller, book_id } => {
                lemma_delete_keeps_ids_unique(s, caller, book_id);
            },
            StoreOp::Access { book_id } => {},
        }
    }
}

/// A registration by anyone but the admin is refused as unauthorized and
/// leaves the store exactly as it was.
pub proof fn lemma_register_by_stranger_changes_nothing(
    s: StoreView,
    caller: Seq<char>,
    name: Seq<char>,
    book_author: Seq<char>,
    book_pub: u16,
    book_id: u8,
)
    requires
        caller != s.admin,
    ensures
        registered(s, caller, name, book_author, book_pub, book_id) == (s, Err::<(), BookStoreError>(BookStoreError::NotAuthorized)),
{
}

/// A registration by the admin under an id already present is refused with
/// `BookIdAlreadyExists` and leaves the store exactly as it was.
pub proof fn lemma_register_duplicate_id_changes_nothing(
    s: StoreView,
    name: Seq<char>,
    book_author: Seq<char>,
    book_pub: u16,
    book_id: u8,
)
    requires
        has_id(s.books, book_id),
    ensures
        registered(s, s.admin, name, book_author, book_pub, book_id) == (s, Err::<(), BookStoreError>(BookStoreError::BookIdAlreadyExists)),
{
}

/// An update by the admin of an existing id succeeds; it rewrites the name,
/// author and year of that one book, keeps its id and position, and leaves
/// every other book and the admin identity as they were.
pub proof fn lemma_update_changes_only_that_book(
    s: StoreView,
    name: Seq<char>,
    book_author: Seq<char>,
    book_pub: u16,
    book_id: u8,
)
    requires
        ids_unique(s.books),
        has_id(s.books, book_id),
    ensures
        ({
            let (t, r) = updated(s, s.admin, name, book_author, book_pub, book_id);
            &&& r == Ok::<(), BookStoreError>(())
            &&& t.admin == s.admin
            &&& t.books.len() == s.books.len()
            &&& forall|i: int|
                0 <= i < s.books.len() ==> #[trigger] t.books[i] == if s.books[i].id == book_id {
                    BookView { id: book_id, name, book_author, book_pub }
                } else {
                    s.books[i]
                }
        }),
{
    let k = index_of(s.books, book_id);
    let t = updated(s, s.admin, name, book_author, book_pub, book_id).0;
    assert forall|i: int| 0 <= i < s.books.len() implies #[trigger] t.books[i] == if s.books[i].id
        == book_id {
        BookView { id: book_id, name, book_author, book_pub }
    } else {
        s.books[i]
    } by {
        assert(s.books[k].id == book_id);
        if i != k {
            assert(s.books[i].id != s.books[k].id);
        }
    }
}

/// An update of an id that no book carries is refused with `BookNotFound`
/// when the admin asks; an update by anyone else is refused as unauthorized,
/// whether or not the id exists. Neither changes the store.
pub proof fn lemma_update_refusals(
    s: StoreView,
    caller: Seq<char>,
    name: Seq<char>,
    book_author: Seq<char>,
    book_pub: u16,
    book_id: u8,
)
    ensures
        !has_id(s.books, book_id) ==> updated(s, s.admin, name, book_author, book_pub, book_id)
            == (s, Err::<(), BookStoreError>(BookStoreError::BookNotFound)),
        caller != s.admin ==> updated(s, caller, name, book_author, book_pub, book_id) == (s, Err::<(), BookStoreError>(BookStoreError::NotAuthorized)),
{
}

/// A deletion by the admin of an existing id succeeds; the store then holds
/// one book fewer, a lookup of that id finds nothing, and every other book
/// is still there.
pub proof fn lemma_delete_removes_exactly_that_book(s: StoreView, book_id: u8)
    requires
        ids_unique(s.books),
        has_id(s.books, book_id),
    ensures
        ({
            let (t, r) = deleted(s, s.admin, book_id);
            &&& r == Ok::<(), BookStoreError>(())
            &&& t.admin == s.admin
            &&& t.books.len() == s.books.len() - 1
            &&& !has_id(t.books, book_id)
            &&& accessed(t, book_id) == Err::<BookView, BookStoreError>(BookStoreError::BookNotFound)
            &&& forall|i: int|
                0 <= i < s.books.len() && s.books[i].id != book_id ==> t.books.contains(
                    #[trigger] s.books[i],
                )
        }),
{
    let k = index_of(s.books, book_id);
    let last = s.books.len() - 1;
    let t = deleted(s, s.admin, book_id).0;
    assert(s.books[k].id == book_id);
    assert(t.books == swap_removed(s.books, k));
    assert forall|j: int| 0 <= j < t.books.len() implies #[trigger] t.books[j].id != book_id by {
        let oj = if j == k { last } else { j };
        assert(t.books[j] == s.books[oj]);
        assert(oj != k);
        assert(s.books[oj].id != s.books[k].id);
    }
    assert forall|i: int| 0 <= i < s.books.len() && s.books[i].id != book_id implies t.books.contains(
        #[trigger] s.books[i],
    ) by {
        let j = if i == last { k } else { i };
        assert(t.books[j] == s.books[i]);
    }
}

/// A deletion of an id that no book carries leaves the store exactly as it
/// was, and when the admin asks it is refused with `BookNotFound`.
pub proof fn lemma_delete_missing_id_changes_nothing(s: StoreView, caller: Seq<char>, book_id: u8)
    requires
        !has_id(s.books, book_id),
    ensures
        deleted(s, caller, book_id).0 == s,
        deleted(s, s.admin, book_id).1 == Err::<(), BookStoreError>(BookStoreError::BookNotFound),
{
}

} // verus!
