use crate::error::InitError;
use crate::error::SourceKind;
use crate::loader::load_outcome;
use crate::loader::read_from_file;
use crate::loader::Source;
use crate::models::ClientModel;
use crate::models::ClientView;
use crate::models::InvoiceItemView;
use crate::models::InvoiceItemsModel;
use crate::models::InvoiceModel;
use crate::models::InvoiceView;
use vstd::prelude::*;
use vstd::rwlock::RwLock;
use vstd::rwlock::RwLockPredicate;

verus! {

/// The rule of a collection's lock: it keeps whatever records it is given.
/// Unique ids and references between collections are not enforced.
pub struct AnyRecords;

impl<T> RwLockPredicate<Vec<T>> for AnyRecords {
    open spec fn inv(self, records: Vec<T>) -> bool {
        true
    }
}

/// One collection of a store: the records of one kind, in the order in which
/// they were loaded, behind a reader-writer lock of its own.
///
/// The collection owns its records. They are reached through `with_read` and
/// `with_exclusive` alone, each of which lends them for the length of one
/// call and takes and gives back the lock itself.
pub struct Collection<T> {
    lock: RwLock<Vec<T>, AnyRecords>,
    loaded: Ghost<Vec<T>>,
}

impl<T> Collection<T> {
    /// The records that the collection was made with. What an access finds
    /// later is what the exclusive accesses before it have left.
    pub closed spec fn loaded(&self) -> Vec<T> {
        self.loaded@
    }

    pub(crate) fn new(records: Vec<T>) -> (collection: Self)
        ensures
            collection.loaded() == records,
    {
        let ghost loaded = records;
        Collection { lock: RwLock::new(records, Ghost(AnyRecords)), loaded: Ghost(loaded) }
    }

    /// Shared access: runs `body` once on the records and hands back what it
    /// returns. It waits while the collection is held exclusively; other
    /// readers do not make it wait, and the other collections play no part.
    /// The hold ends when `body` returns.
    pub fn with_read<R, F: FnOnce(&Vec<T>) -> R>(&self, body: F) -> (result: R)
        requires
            forall|records: &Vec<T>| body.requires((records,)),
        ensures
            exists|records: &Vec<T>| body.ensures((records,), result),
    {
        let hold = self.lock.acquire_read();
        let result = body(hold.borrow());
        hold.release_read();
        result
    }

    /// Exclusive access: runs `body` once on the records, keeps the records
    /// as `body` leaves them and hands back what it returns, whether that
    /// reports a success or a failure. It waits while the collection is held
    /// in either way; the other collections play no part. The hold ends when
    /// `body` returns.
    pub fn with_exclusive<R, F: FnOnce(&mut Vec<T>) -> R>(&self, body: F) -> (result: R)
        requires
            forall|records: &mut Vec<T>| body.requires((records,)),
        ensures
            exists|records: &mut Vec<T>| body.ensures((records,), result),
    {
        let (mut records, hold) = self.lock.acquire_write();
        let result = body(&mut records);
        hold.release_write(records);
        result
    }
}

/// The three sources of a store.
#[derive(Clone, Debug, PartialEq, Eq)]
pub struct Sources {
    pub clients: Source,
    pub invoices: Source,
    pub invoice_items: Source,
}

/// The records of the three collections.
pub ghost struct Dataset {
    pub clients: Seq<ClientView>,
    pub invoices: Seq<InvoiceView>,
    pub invoice_items: Seq<InvoiceItemView>,
}

/// What initialising gives: the records of all three sources, or the error of
/// the first source, in the order clients, invoices, invoice items, that
/// does not load.
pub open spec fn init_outcome(sources: Sources) -> Result<Dataset, InitError> {
    match load_outcome::<ClientModel>(sources.clients.content(), SourceKind::Clients) {
        Err(e) => Err(e),
        Ok(clients) => match load_outcome::<InvoiceModel>(
            sources.invoices.content(),
            SourceKind::Invoices,
        ) {
            Err(e) => Err(e),
            Ok(invoices) => match load_outcome::<InvoiceItemsModel>(
                sources.invoice_items.content(),
                SourceKind::InvoiceItems,
            ) {
                Err(e) => Err(e),
                Ok(invoice_items) => Ok(Dataset { clients, invoices, invoice_items }),
            },
        },
    }
}

/// The store: one collection for each kind of record, each with a lock of
/// its own. A store exists only fully loaded; `init` is the one way to make
/// one.
pub struct DataContext {
    pub clients: Collection<ClientModel>,
    pub invoices: Collection<InvoiceModel>,
    pub invoice_items: Collection<InvoiceItemsModel>,
}

impl DataContext {
    /// The records that the store was loaded with.
    pub open spec fn loaded(&self) -> Dataset {
        Dataset {
            clients: self.clients.loaded().deep_view(),
            invoices: self.invoices.loaded().deep_view(),
            invoice_items: self.invoice_items.loaded().deep_view(),
        }
    }

    /// Loads the three sources, each once, and builds the store from their
    /// records. If any source does not load, no store is built.
    pub fn init(sources: &Sources) -> (store: Result<DataContext, InitError>)
        ensures
            match store {
                Ok(s) => init_outcome(*sources) == Ok::<Dataset, InitError>(s.loaded()),
                Err(e) => init_outcome(*sources) == Err::<Dataset, InitError>(e),
            },
    {
        let clients = match read_from_file::<ClientModel>(&sources.clients, SourceKind::Clients) {
            Ok(records) => records,
            Err(e) => {
                return Err(e);
            },
        };
        let invoices = match read_from_file::<InvoiceModel>(
            &sources.invoices,
            SourceKind::Invoices,
        ) {
            Ok(records) => records,
            Err(e) => {
                return Err(e);
            },
        };
        let invoice_items = match read_from_file::<InvoiceItemsModel>(
            &sources.invoice_items,
            SourceKind::InvoiceItems,
        ) {
            Ok(records) => records,
            Err(e) => {
                return Err(e);
            },
        };
        Ok(
            DataContext {
                clients: Collection::new(clients),
                invoices: Collection::new(invoices),
                invoice_items: Collection::new(invoice_items),
            },
        )
    }
}

/// Loading is repeatable: sources with the same content give the same
/// outcome, so two stores initialised from them were loaded with collections
/// of the same length that hold equal records in the same order.
pub proof fn lemma_init_is_repeatable(first: Sources, second: Sources)
    requires
        first.clients.content() == second.clients.content(),
        first.invoices.content() == second.invoices.content(),
        first.invoice_items.content() == second.invoice_items.content(),
    ensures
        init_outcome(first) == init_outcome(second),
        init_outcome(first) matches Ok(a) ==> {
            &&& init_outcome(second) matches Ok(b)
            &&& a.clients.len() == b.clients.len()
            &&& a.invoices.len() == b.invoices.len()
            &&& a.invoice_items.len() == b.invoice_items.len()
            &&& forall|i: int| 0 <= i < a.clients.len() ==> a.clients[i] == b.clients[i]
            &&& forall|i: int| 0 <= i < a.invoices.len() ==> a.invoices[i] == b.invoices[i]
            &&& forall|i: int|
                0 <= i < a.invoice_items.len() ==> a.invoice_items[i] == b.invoice_items[i]
        },
{
}

/// Failure is total: initialising succeeds just when every one of the three
/// sources loads, and one source that is missing or malformed makes it
/// fail, with the error of the first such source.
pub proof fn lemma_init_is_all_or_nothing(sources: Sources)
    ensures
        init_outcome(sources) is Ok <==> {
            &&& load_outcome::<ClientModel>(sources.clients.content(), SourceKind::Clients) is Ok
            &&& load_outcome::<InvoiceModel>(sources.invoices.content(), SourceKind::Invoices) is Ok
            &&& load_outcome::<InvoiceItemsModel>(
                sources.invoice_items.content(),
                SourceKind::InvoiceItems,
            ) is Ok
        },
        init_outcome(sources) matches Err(e) ==> {
            ||| load_outcome::<ClientModel>(sources.clients.content(), SourceKind::Clients) == Err::<
                Seq<ClientView>,
                InitError,
            >(e)
            ||| load_outcome::<InvoiceModel>(sources.invoices.content(), SourceKind::Invoices)
                == Err::<Seq<InvoiceView>, InitError>(e)
            ||| load_outcome::<InvoiceItemsModel>(
                sources.invoice_items.content(),
                SourceKind::InvoiceItems,
            ) == Err::<Seq<InvoiceItemView>, InitError>(e)
        },
{
}

} // verus!
