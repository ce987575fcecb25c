use crate::book::{balance_of, credited, debited};
use ink_env::AccountId;
use ink_storage::collections::HashMap;
use vstd::prelude::*;

verus! {

/// `ink_env::AccountId`, the name under which a principal acts. The library
/// never looks inside one: it carries it to a ledger and finds it there again.
#[verifier::external_type_specification]
#[verifier::external_body]
pub struct ExAccountId(ink_env::AccountId);

/// A book of balances, one entry to an account, kept in an
/// `ink_storage::collections::HashMap`. The map sits in a private field and
/// is reached through the wrappers below alone, so every ledger was made
/// empty and has since only been written to: it never gives an entry up.
#[verifier::external_body]
pub struct Ledger {
    book: HashMap<AccountId, u128>,
}

/// What a ledger holds: the accounts entered in it, each with its balance.
pub uninterp spec fn ledger_entries(ledger: Ledger) -> Map<AccountId, u128>;

/// The ledger in which nobody is entered.
pub open spec fn no_entries() -> Map<AccountId, u128> {
    Map::empty()
}

/// What a lookup in `entries` finds for `who`.
pub open spec fn entry_of(entries: Map<AccountId, u128>, who: AccountId) -> Option<u128> {
    if entries.contains_key(who) {
        Some(entries[who])
    } else {
        None
    }
}

/// What changing the entry of `who` in place leaves of `entries`, `balance`
/// being what the change makes of the balance found: an account that is not
/// entered stays out.
pub open spec fn modified(entries: Map<AccountId, u128>, who: AccountId, balance: u128) -> Map<
    AccountId,
    u128,
> {
    if entries.contains_key(who) {
        entries.insert(who, balance)
    } else {
        entries
    }
}

/// A balance that is raised by `by` where there is one, and is `by` where
/// there is none.
pub open spec fn raised_from(found: Option<u128>, by: u128) -> u128 {
    match found {
        Some(held) => (held + by) as u128,
        None => by,
    }
}

/// `entries` are finitely many, `n` in number.
pub open spec fn counts(entries: Map<AccountId, u128>, n: u32) -> bool {
    entries.dom().finite() && entries.dom().len() == n
}

/// Adds `by` to a balance in place.
fn raise(held: &mut u128, by: u128)
    requires
        *old(held) + by <= u128::MAX,
    ensures
        *final(held) == *old(held) + by,
{
    *held = *held + by;
}

/// Takes `by` from a balance in place.
fn lower(held: &mut u128, by: u128)
    requires
        by <= *old(held),
    ensures
        *final(held) == *old(held) - by,
{
    *held = *held - by;
}

impl View for Ledger {
    type V = Map<AccountId, nat>;

    /// The book as mathematics: the accounts entered, each with its balance
    /// as a natural number.
    open spec fn view(&self) -> Map<AccountId, nat> {
        Map::new(
            |who: AccountId| ledger_entries(*self).contains_key(who),
            |who: AccountId| ledger_entries(*self)[who] as nat,
        )
    }
}

impl Ledger {
    /// The largest number of accounts that a ledger takes.
    pub open spec fn capacity() -> nat {
        u32::MAX as nat
    }

    /// The book is finite and within its capacity.
    pub open spec fn wf(&self) -> bool {
        &&& self@.dom().finite()
        &&& self@.dom().len() <= Self::capacity()
    }

    /// A new account can be entered, or `who` is entered already.
    pub open spec fn takes(&self, who: AccountId) -> bool {
        self@.contains_key(who) || self@.dom().len() < Self::capacity()
    }

    /// `ink_storage::collections::HashMap::new`: the map it returns holds no
    /// entry.
    #[verifier::external_body]
    fn blank() -> (ledger: Ledger)
        ensures
            ledger_entries(ledger) == no_entries(),
    {
        Ledger { book: HashMap::new() }
    }

    /// `ink_storage::collections::HashMap::get`: the balance entered under
    /// `who`, or `None` where the map has no such key.
    #[verifier::external_body]
    fn lookup(&self, who: &AccountId) -> (found: Option<u128>)
        ensures
            found == entry_of(ledger_entries(*self), *who),
    {
        self.book.get(who).copied()
    }

    /// `ink_storage::collections::HashMap::insert`: afterwards `who` is
    /// entered with `balance`, and every other entry is as it was. A new key
    /// takes the next of the map's slots, which are counted in a `u32`; the
    /// map has never given a slot up, so it has as many as it has entries,
    /// and the count cannot run over while there are fewer than `u32::MAX`
    /// of them.
    #[verifier::external_body]
    fn write(&mut self, who: AccountId, balance: u128)
        requires
            ledger_entries(*old(self)).contains_key(who) || ledger_entries(*old(self)).dom().len()
                < u32::MAX,
        ensures
            ledger_entries(*final(self)) == ledger_entries(*old(self)).insert(who, balance),
    {
        self.book.insert(who, balance);
    }

    /// `ink_storage::collections::HashMap::entry` and `Entry::and_modify`,
    /// with `raise` as the change: where `who` is entered, `by` is added to
    /// the balance; where not, the map stays as it is.
    #[verifier::external_body]
    fn raise_entry(&mut self, who: AccountId, by: u128)
        requires
            ledger_entries(*old(self)).contains_key(who) ==> ledger_entries(*old(self))[who] + by
                <= u128::MAX,
        ensures
            ledger_entries(*final(self)) == modified(
                ledger_entries(*old(self)),
                who,
                (ledger_entries(*old(self))[who] + by) as u128,
            ),
    {
        self.book.entry(who).and_modify(|held| raise(held, by));
    }

    /// `ink_storage::collections::HashMap::entry` and `Entry::and_modify`,
    /// with `lower` as the change: where `who` is entered, `by` is taken
    /// from the balance; where not, the map stays as it is.
    #[verifier::external_body]
    fn lower_entry(&mut self, who: AccountId, by: u128)
        requires
            ledger_entries(*old(self)).contains_key(who) ==> by <= ledger_entries(*old(self))[who],
        ensures
            ledger_entries(*final(self)) == modified(
                ledger_entries(*old(self)),
                who,
                (ledger_entries(*old(self))[who] - by) as u128,
            ),
    {
        self.book.entry(who).and_modify(|held| lower(held, by));
    }

    /// `ink_storage::collections::HashMap::entry`, `Entry::and_modify` with
    /// `raise` as the change, and `Entry::or_insert`: where `who` is
    /// entered, `by` is added to the balance; where not, `who` is entered
    /// with `by`, which takes a new slot as in `write`.
    #[verifier::external_body]
    fn raise_or_enter(&mut self, who: AccountId, by: u128)
        requires
            ledger_entries(*old(self)).contains_key(who) ==> ledger_entries(*old(self))[who] + by
                <= u128::MAX,
            ledger_entries(*old(self)).contains_key(who) || ledger_entries(*old(self)).dom().len()
                < u32::MAX,
        ensures
            ledger_entries(*final(self)) == ledger_entries(*old(self)).insert(
                who,
                raised_from(entry_of(ledger_entries(*old(self)), who), by),
            ),
    {
        self.book.entry(who).and_modify(|held| raise(held, by)).or_insert(by);
    }

    /// `ink_storage::collections::HashMap::len`: the number of entries, of
    /// which there are finitely many.
    #[verifier::external_body]
    fn count(&self) -> (n: u32)
        ensures
            counts(ledger_entries(*self), n),
    {
        self.book.len()
    }

    /// An empty ledger.
    pub fn new() -> (ledger: Ledger)
        ensures
            ledger@ == Map::<AccountId, nat>::empty(),
            ledger.wf(),
    {
        let ledger = Ledger::blank();
        assert(ledger@ =~= Map::<AccountId, nat>::empty());
        ledger
    }

    /// The balance of `who`, which is zero for an account that was never
    /// entered.
    pub fn balance(&self, who: &AccountId) -> (held: u128)
        ensures
            held == balance_of(self@, *who),
    {
        match self.lookup(who) {
            Some(held) => held,
            None => 0,
        }
    }

    /// Whether `who` is entered in the ledger.
    pub fn knows(&self, who: &AccountId) -> (known: bool)
        ensures
            known == self@.contains_key(*who),
    {
        self.lookup(who).is_some()
    }

    /// Whether the ledger can enter an account that it does not know yet.
    pub fn has_room(&self) -> (room: bool)
        ensures
            room == (self@.dom().len() < Self::capacity()),
    {
        let n: u32 = self.count();
        assert(self@.dom() =~= ledger_entries(*self).dom());
        n < u32::MAX
    }

    /// Adds `by` to the balance of `who`, if `who` is entered. An account
    /// that is not entered is not entered by this, and gains nothing.
    pub fn credit(&mut self, who: AccountId, by: u128)
        requires
            old(self).wf(),
            balance_of(old(self)@, who) + by <= u128::MAX,
        ensures
            final(self).wf(),
            final(self)@ == credited(old(self)@, who, by as nat),
    {
        self.raise_entry(who, by);
        assert(self@ =~= credited(old(self)@, who, by as nat));
    }

    /// Takes `by` from the balance of `who`, if `who` is entered.
    pub fn debit(&mut self, who: AccountId, by: u128)
        requires
            old(self).wf(),
            by <= balance_of(old(self)@, who),
        ensures
            final(self).wf(),
            final(self)@ == debited(old(self)@, who, by as nat),
    {
        self.lower_entry(who, by);
        assert(self@ =~= debited(old(self)@, who, by as nat));
    }

    /// Adds `by` to the balance of `who`, and enters `who` with `by` if the
    /// account is not entered yet.
    pub fn credit_or_enter(&mut self, who: AccountId, by: u128)
        requires
            old(self).wf(),
            old(self).takes(who),
            balance_of(old(self)@, who) + by <= u128::MAX,
        ensures
            final(self).wf(),
            final(self)@ == old(self)@.insert(who, balance_of(old(self)@, who) + by as nat),
    {
        assert(self@.dom() =~= ledger_entries(*self).dom());
        self.raise_or_enter(who, by);
        assert(self@ =~= old(self)@.insert(who, balance_of(old(self)@, who) + by as nat));
    }

    /// Enters `who` with `balance`, in place of what the ledger showed for
    /// that account before.
    pub fn set(&mut self, who: AccountId, balance: u128)
        requires
            old(self).wf(),
            old(self).takes(who),
        ensures
            final(self)@ == old(self)@.insert(who, balance as nat),
            final(self).wf(),
    {
        assert(self@.dom() =~= ledger_entries(*self).dom());
        self.write(who, balance);
        assert(self@ =~= old(self)@.insert(who, balance as nat));
    }
}

} // verus!
