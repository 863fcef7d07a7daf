//! Routing of normalized events to per-instrument order books.
//!
//! [`Storage`] owns one [`OrderBook`] per instrument symbol, created lazily on
//! the first event for a previously unseen symbol, and is the exclusive
//! mutator of each book. Its abstract value is the map from symbol to book
//! view; an event only ever touches the entry of its own symbol.

use vstd::prelude::*;
use vstd::map::*;

use crate::internal::MdMessage;
use crate::order_book::{spec_on_snapshot, spec_on_update, BookView, OrderBook};

verus! {

/// Books keyed by instrument symbol.
pub struct Storage {
    pub books: Vec<(String, OrderBook)>,
}

/// No two entries share a symbol.
pub open spec fn keys_unique(s: Seq<(String, OrderBook)>) -> bool {
    forall|i: int, j: int| 0 <= i < j < s.len() ==> s[i].0@ != s[j].0@
}

/// Some entry carries symbol `k`.
pub open spec fn has_key(s: Seq<(String, OrderBook)>, k: Seq<char>) -> bool {
    exists|i: int| 0 <= i < s.len() && s[i].0@ == k
}

/// The symbol-to-book-view map the entry list represents.
pub open spec fn storage_map(s: Seq<(String, OrderBook)>) -> Map<Seq<char>, BookView>
    decreases s.len(),
{
    if s.len() == 0 {
        Map::empty()
    } else {
        storage_map(s.drop_last()).insert(s.last().0@, s.last().1@)
    }
}

/// A book with both sides empty.
pub open spec fn empty_book_view() -> BookView {
    BookView { bids: Map::empty(), asks: Map::empty() }
}

/// The view a message leaves a book in.
pub open spec fn spec_on_message(b: BookView, m: MdMessage) -> BookView {
    match m {
        MdMessage::L2Snapshot(s) => spec_on_snapshot(b, s),
        MdMessage::L2Increment(i) => spec_on_update(b, i),
    }
}

/// The book a symbol currently maps to, or an empty book for an unseen
/// symbol.
pub open spec fn spec_book_or_empty(st: Map<Seq<char>, BookView>, sym: Seq<char>) -> BookView {
    if st.dom().contains(sym) {
        st[sym]
    } else {
        empty_book_view()
    }
}

/// The storage map after one event: only the event's own symbol is
/// (re)bound, to its updated book.
pub open spec fn spec_on_event(st: Map<Seq<char>, BookView>, m: MdMessage) -> Map<
    Seq<char>,
    BookView,
> {
    st.insert(m.spec_symbol(), spec_on_message(spec_book_or_empty(st, m.spec_symbol()), m))
}

/// Membership in `storage_map` is exactly having an entry with that symbol.
pub proof fn lemma_storage_map_dom(s: Seq<(String, OrderBook)>)
    ensures
        forall|k: Seq<char>| #[trigger] storage_map(s).dom().contains(k) <==> has_key(s, k),
    decreases s.len(),
{
    if s.len() == 0 {
    } else {
        lemma_storage_map_dom(s.drop_last());
        assert forall|k: Seq<char>| #[trigger] storage_map(s).dom().contains(k) implies has_key(
            s,
            k,
        ) by {
            if k == s.last().0@ {
                assert(s[s.len() - 1].0@ == k);
            } else {
                assert(storage_map(s.drop_last()).dom().contains(k));
                let i = choose|i: int| 0 <= i < s.drop_last().len() && s.drop_last()[i].0@ == k;
                assert(s[i].0@ == k);
            }
        }
        assert forall|k: Seq<char>| has_key(s, k) implies #[trigger] storage_map(s).dom().contains(
            k,
        ) by {
            let i = choose|i: int| 0 <= i < s.len() && s[i].0@ == k;
            if i < s.len() - 1 {
                assert(s.drop_last()[i].0@ == k);
                assert(has_key(s.drop_last(), k));
                assert(storage_map(s.drop_last()).dom().contains(k));
            }
        }
    }
}

/// With unique symbols, the map value at an entry's symbol is that entry's
/// book.
pub proof fn lemma_storage_map_get(s: Seq<(String, OrderBook)>, i: int)
    requires
        keys_unique(s),
        0 <= i < s.len(),
    ensures
        storage_map(s).dom().contains(s[i].0@),
        storage_map(s)[s[i].0@] == s[i].1@,
    decreases s.len(),
{
    if i == s.len() - 1 {
    } else {
        assert(keys_unique(s.drop_last()));
        assert(s.drop_last()[i] == s[i]);
        lemma_storage_map_get(s.drop_last(), i);
        assert(s[i].0@ != s.last().0@);
    }
}

/// With unique symbols, replacing the book of entry `i` updates the map at
/// exactly that entry's symbol.
pub proof fn lemma_storage_map_update(s: Seq<(String, OrderBook)>, i: int, e: (String, OrderBook))
    requires
        keys_unique(s),
        0 <= i < s.len(),
        e.0@ == s[i].0@,
    ensures
        storage_map(s.update(i, e)) == storage_map(s).insert(e.0@, e.1@),
    decreases s.len(),
{
    let t = s.update(i, e);
    if i == s.len() - 1 {
        assert(t.drop_last() =~= s.drop_last());
        assert(t.last() == e);
        assert(storage_map(t) =~= storage_map(s).insert(e.0@, e.1@));
    } else {
        assert(keys_unique(s.drop_last()));
        assert(s.drop_last()[i] == s[i]);
        lemma_storage_map_update(s.drop_last(), i, e);
        assert(t.drop_last() =~= s.drop_last().update(i, e));
        assert(t.last() == s.last());
        assert(s[i].0@ != s.last().0@);
        assert(storage_map(t) =~= storage_map(s).insert(e.0@, e.1@));
    }
}

impl Storage {
    /// All books well formed and all symbols distinct.
    pub open spec fn wf(self) -> bool {
        &&& keys_unique(self.books@)
        &&& forall|i: int| 0 <= i < self.books@.len() ==> (#[trigger] self.books@[i].1).wf()
    }

    /// The symbol-to-book-view map this storage represents.
    pub open spec fn view(self) -> Map<Seq<char>, BookView> {
        storage_map(self.books@)
    }

    /// Empty storage: no instrument seen yet.
    pub fn new() -> (r: Self)
        ensures
            r.wf(),
            r@ == Map::<Seq<char>, BookView>::empty(),
    {
        Self { books: Vec::new() }
    }

    /// Index of the entry carrying `symbol`, if any.
    fn find(&self, symbol: &String) -> (r: Option<usize>)
        ensures
            match r {
                Option::Some(i) => i < self.books@.len() && self.books@[i as int].0@ == symbol@,
                Option::None => !has_key(self.books@, symbol@),
            },
    {
        let mut i: usize = 0;
        while i < self.books.len()
            invariant
                0 <= i <= self.books@.len(),
                forall|j: int| 0 <= j < i ==> self.books@[j].0@ != symbol@,
            decreases self.books@.len() - i,
        {
            if self.books[i].0 == *symbol {
                return Some(i);
            }
            i = i + 1;
        }
        None
    }

    /// Routes one normalized event to the book of its symbol, creating the
    /// book on first sight of the symbol. No other symbol's book changes.
    pub fn on_ws_update(&mut self, message: MdMessage)
        requires
            old(self).wf(),
        ensures
            final(self).wf(),
            final(self)@ == spec_on_event(old(self)@, message),
    {
        let symbol: String = match &message {
            MdMessage::L2Snapshot(s) => s.symbol.clone(),
            MdMessage::L2Increment(i) => i.symbol.clone(),
        };
        proof {
            lemma_storage_map_dom(self.books@);
        }
        match self.find(&symbol) {
            Some(i) => {
                proof {
                    lemma_storage_map_get(self.books@, i as int);
                }
                let mut entry = self.books.remove(i);
                match message {
                    MdMessage::L2Snapshot(s) => entry.1.process_snapshot(s),
                    MdMessage::L2Increment(u) => entry.1.process_update(u),
                }
                self.books.insert(i, entry);
                proof {
                    assert(self.books@ =~= old(self).books@.update(i as int, self.books@[i as int]));
                    lemma_storage_map_update(
                        old(self).books@,
                        i as int,
                        self.books@[i as int],
                    );
                    assert(final(self)@ =~= spec_on_event(old(self)@, message));
                }
            }
            None => {
                let mut ob = OrderBook::new();
                match message {
                    MdMessage::L2Snapshot(s) => ob.process_snapshot(s),
                    MdMessage::L2Increment(u) => ob.process_update(u),
                }
                self.books.push((symbol, ob));
                proof {
                    assert(self.books@.drop_last() =~= old(self).books@);
                    assert(final(self)@ =~= spec_on_event(old(self)@, message));
                }
            }
        }
    }

    /// Wholesale replacement of one symbol's book, used when a book is
    /// (re)seeded from a full snapshot fetched out of band.
    pub fn on_order_book(&mut self, symbol: String, order_book: OrderBook)
        requires
            old(self).wf(),
            order_book.wf(),
        ensures
            final(self).wf(),
            final(self)@ == old(self)@.insert(symbol@, order_book@),
    {
        proof {
            lemma_storage_map_dom(self.books@);
        }
        match self.find(&symbol) {
            Some(i) => {
                let mut entry = self.books.remove(i);
                entry.1.update_on_order_book(order_book);
                self.books.insert(i, entry);
                proof {
                    assert(self.books@ =~= old(self).books@.update(i as int, self.books@[i as int]));
                    lemma_storage_map_update(
                        old(self).books@,
                        i as int,
                        self.books@[i as int],
                    );
                    assert(final(self)@ =~= old(self)@.insert(symbol@, order_book@));
                }
            }
            None => {
                let mut ob = OrderBook::new();
                ob.update_on_order_book(order_book);
                self.books.push((symbol, ob));
                proof {
                    assert(self.books@.drop_last() =~= old(self).books@);
                    assert(final(self)@ =~= old(self)@.insert(symbol@, order_book@));
                }
            }
        }
    }
}

/// Routing isolation: an event for one symbol never changes what any other
/// symbol maps to.
pub proof fn lemma_routing_isolation(
    st: Map<Seq<char>, BookView>,
    m: MdMessage,
    other: Seq<char>,
)
    requires
        other != m.spec_symbol(),
    ensures
        spec_on_event(st, m).dom().contains(other) == st.dom().contains(other),
        st.dom().contains(other) ==> spec_on_event(st, m)[other] == st[other],
{
}

} // verus!
