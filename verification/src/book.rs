use ink_env::AccountId;
use vstd::prelude::*;
use vstd::set_lib::lemma_len_subset;

verus! {

/// What a book shows for `who`: an account that is not entered holds nothing.
pub open spec fn balance_of(book: Map<AccountId, nat>, who: AccountId) -> nat {
    if book.contains_key(who) {
        book[who]
    } else {
        0
    }
}

/// The book after `by` was added to the balance of `who`, if `who` is
/// entered: an account that is not entered stays out, and gains nothing.
pub open spec fn credited(book: Map<AccountId, nat>, who: AccountId, by: nat) -> Map<AccountId, nat> {
    if book.contains_key(who) {
        book.insert(who, book[who] + by)
    } else {
        book
    }
}

/// The book after `by` was taken from the balance of `who`, if `who` is
/// entered.
pub open spec fn debited(book: Map<AccountId, nat>, who: AccountId, by: nat) -> Map<AccountId, nat> {
    if book.contains_key(who) {
        book.insert(who, (book[who] - by) as nat)
    } else {
        book
    }
}

/// The sum of all balances in a book.
pub open spec fn tally(book: Map<AccountId, nat>) -> nat
    decreases book.dom().len(),
{
    if book.dom().finite() && book.dom().len() > 0 {
        let who = book.dom().choose();
        book[who] + tally(book.remove(who))
    } else {
        0
    }
}

/// The sum of a book can be taken from any of its entries: it is that
/// entry's balance and the sum of the rest.
pub proof fn lemma_tally_split(book: Map<AccountId, nat>, who: AccountId)
    requires
        book.dom().finite(),
        book.contains_key(who),
    ensures
        tally(book) == book[who] + tally(book.remove(who)),
    decreases book.dom().len(),
{
    let first = book.dom().choose();
    if first != who {
        lemma_tally_split(book.remove(first), who);
        lemma_tally_split(book.remove(who), first);
        assert(book.remove(first).remove(who) =~= book.remove(who).remove(first));
    }
}

/// Writing one balance changes the sum by the difference between the new
/// balance and what the book showed before.
pub proof fn lemma_tally_insert(book: Map<AccountId, nat>, who: AccountId, balance: nat)
    requires
        book.dom().finite(),
    ensures
        tally(book.insert(who, balance)) + balance_of(book, who) == tally(book) + balance,
{
    let written = book.insert(who, balance);
    lemma_tally_split(written, who);
    assert(written.remove(who) =~= book.remove(who));
    if book.contains_key(who) {
        lemma_tally_split(book, who);
    } else {
        assert(book.remove(who) =~= book);
    }
}

/// No account holds more than the whole book.
pub proof fn lemma_tally_bounds_entry(book: Map<AccountId, nat>, who: AccountId)
    requires
        book.dom().finite(),
    ensures
        balance_of(book, who) <= tally(book),
{
    if book.contains_key(who) {
        lemma_tally_split(book, who);
    }
}

/// A book whose accounts are all entered in a second book has room for one
/// more account whenever the second book knows an account that the first does
/// not.
pub proof fn lemma_room_beside(inner: Map<AccountId, nat>, outer: Map<AccountId, nat>, who: AccountId)
    requires
        outer.dom().finite(),
        inner.dom().subset_of(outer.dom()),
        outer.contains_key(who),
        !inner.contains_key(who),
    ensures
        inner.dom().finite(),
        inner.dom().len() < outer.dom().len(),
{
    lemma_len_subset(inner.dom(), outer.dom().remove(who));
}

} // verus!
