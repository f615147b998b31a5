use invoice_store::db::DataContext;
use invoice_store::db::Sources;
use invoice_store::loader::Source;
use invoice_store::models::ClientModel;

fn store() -> DataContext {
    let clients = "ClientId,CompanyName,ContactName,ContactTitle,Phone,Email\nC1,Acme,Jane,CEO,555-0100,jane@acme.test\n";
    let invoices = "InvoiceId,InvoiceNumber,ClientId,InvoiceDate,DueDate\n1,INV-001,C1,2024-01-15,2024-02-14\n";
    let items = "ItemId,InvoiceId,ProductId,Description,Price\n1,1,100,Widget,9.99\n";
    DataContext::init(&Sources {
        clients: Source::Content(clients.as_bytes().to_vec()),
        invoices: Source::Content(invoices.as_bytes().to_vec()),
        invoice_items: Source::Content(items.as_bytes().to_vec()),
    })
    .unwrap()
}

fn numbered(n: usize) -> ClientModel {
    ClientModel {
        client_id: format!("N{}", n),
        company_name: "Initech".to_string(),
        contact_name: "Pat".to_string(),
        contact_title: "CTO".to_string(),
        phone: "555-0300".to_string(),
        email: "pat@initech.test".to_string(),
    }
}

#[test]
fn an_exclusive_append_is_seen_by_the_next_read() {
    let store = store();
    let before = store.clients.with_read(|records| records.len());
    let after = store.clients.with_exclusive(|records| {
        records.push(numbered(0));
        records.len()
    });
    assert_eq!(after, before + 1);
    let last = store.clients.with_read(|records| records.last().cloned());
    assert_eq!(last, Some(numbered(0)));
    assert_eq!(store.invoices.with_read(|records| records.len()), 1);
    assert_eq!(store.invoice_items.with_read(|records| records.len()), 1);
}

#[test]
fn a_read_hands_back_what_the_body_returns() {
    let store = store();
    let id = store.invoices.with_read(|records| records[0].invoice_id);
    assert_eq!(id, 1);
    let none: Option<i32> = store.invoices.with_read(|records| records.iter().map(|r| r.invoice_id).find(|id| *id == 9));
    assert_eq!(none, None);
}

#[test]
fn a_failing_body_releases_the_collection() {
    let store = store();
    let outcome: Result<(), String> = store.clients.with_exclusive(|records| {
        if records.len() < 10 {
            return Err("too few".to_string());
        }
        records.clear();
        Ok(())
    });
    assert_eq!(outcome, Err("too few".to_string()));
    assert_eq!(store.clients.with_read(|records| records.len()), 1);
    let outcome: Result<usize, String> = store.clients.with_exclusive(|records| {
        records.push(numbered(1));
        Ok(records.len())
    });
    assert_eq!(outcome, Ok(2));
}

#[test]
fn readers_share_a_collection() {
    let store = store();
    let total = store.clients.with_read(|outer| {
        let inner = store.clients.with_read(|inner| inner.len());
        outer.len() + inner
    });
    assert_eq!(total, 2);
}

#[test]
fn an_exclusive_hold_leaves_the_other_collections_free() {
    let store = store();
    let seen = store.invoices.with_exclusive(|invoices| {
        let clients = store.clients.with_read(|records| records.len());
        let items = store.invoice_items.with_exclusive(|records| {
            records.clear();
            records.len()
        });
        invoices.clear();
        (clients, items)
    });
    assert_eq!(seen, (1, 0));
    assert_eq!(store.invoices.with_read(|records| records.len()), 0);
    assert_eq!(store.clients.with_read(|records| records.len()), 1);
}

#[test]
fn every_exclusive_append_is_kept() {
    let store = store();
    let before = store.clients.with_read(|records| records.len());
    let appends = 400;
    for n in 0..appends {
        let length = store.clients.with_exclusive(|records| {
            records.push(numbered(n));
            records.len()
        });
        assert_eq!(length, before + n + 1);
    }
    let ids = store.clients.with_read(|records| {
        records.iter().skip(before).map(|record| record.client_id.clone()).collect::<Vec<_>>()
    });
    let expected: Vec<String> = (0..appends).map(|n| format!("N{}", n)).collect();
    assert_eq!(ids, expected);
    assert_eq!(store.clients.with_read(|records| records.len()), before + appends);
}

fn shareable<T: Send + Sync + 'static>() -> bool {
    true
}

#[test]
fn the_store_can_be_shared_between_threads() {
    assert!(shareable::<DataContext>());
}
