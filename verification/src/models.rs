use crate::cells::chrono_ymd;
use crate::cells::csv_i32;
use crate::cells::decode_i32;
use crate::cells::parse_ymd;
use crate::date::is_calendar_date;
use crate::date::CalendarDate;
use crate::date::Date;
use crate::decimal::is_decimal;
use crate::decimal::Decimal;
use crate::error::RowFault;
use crate::loader::Record;
use vstd::prelude::*;

verus! {

/// A client. The columns of its source are `ClientId`, `CompanyName`,
/// `ContactName`, `ContactTitle`, `Phone` and `Email`.
#[derive(Clone, Debug, PartialEq, Eq)]
pub struct ClientModel {
    pub client_id: String,
    pub company_name: String,
    pub contact_name: String,
    pub contact_title: String,
    pub phone: String,
    pub email: String,
}

/// An invoice. The columns of its source are `InvoiceId`, `InvoiceNumber`,
/// `ClientId`, `InvoiceDate` and `DueDate`.
#[derive(Clone, Debug, PartialEq, Eq)]
pub struct InvoiceModel {
    pub invoice_id: i32,
    pub invoice_number: String,
    pub client_id: String,
    pub invoice_date: Date,
    pub due_date: Date,
}

/// An item of an invoice. The columns of its source are `ItemId`,
/// `InvoiceId`, `ProductId`, `Description` and `Price`.
#[derive(Clone, Debug, PartialEq, Eq)]
pub struct InvoiceItemsModel {
    pub item_id: i32,
    pub invoice_id: i32,
    pub product_id: i32,
    pub description: String,
    /// The unit price, as the source writes it.
    pub price: Decimal,
}

pub ghost struct ClientView {
    pub client_id: Seq<char>,
    pub company_name: Seq<char>,
    pub contact_name: Seq<char>,
    pub contact_title: Seq<char>,
    pub phone: Seq<char>,
    pub email: Seq<char>,
}

pub ghost struct InvoiceView {
    pub invoice_id: int,
    pub invoice_number: Seq<char>,
    pub client_id: Seq<char>,
    pub invoice_date: CalendarDate,
    pub due_date: CalendarDate,
}

pub ghost struct InvoiceItemView {
    pub item_id: int,
    pub invoice_id: int,
    pub product_id: int,
    pub description: Seq<char>,
    pub price: Seq<char>,
}

impl DeepView for ClientModel {
    type V = ClientView;

    open spec fn deep_view(&self) -> ClientView {
        ClientView {
            client_id: self.client_id@,
            company_name: self.company_name@,
            contact_name: self.contact_name@,
            contact_title: self.contact_title@,
            phone: self.phone@,
            email: self.email@,
        }
    }
}

impl DeepView for InvoiceModel {
    type V = InvoiceView;

    open spec fn deep_view(&self) -> InvoiceView {
        InvoiceView {
            invoice_id: self.invoice_id as int,
            invoice_number: self.invoice_number@,
            client_id: self.client_id@,
            invoice_date: self.invoice_date.deep_view(),
            due_date: self.due_date.deep_view(),
        }
    }
}

impl DeepView for InvoiceItemsModel {
    type V = InvoiceItemView;

    open spec fn deep_view(&self) -> InvoiceItemView {
        InvoiceItemView {
            item_id: self.item_id as int,
            invoice_id: self.invoice_id as int,
            product_id: self.product_id as int,
            description: self.description@,
            price: self.price.deep_view(),
        }
    }
}

/// The date of a year, a month and a day, where they were read and the day
/// exists.
pub open spec fn date_of(parts: Option<(i32, u32, u32)>) -> Option<CalendarDate> {
    match parts {
        Some((year, month, day)) => if is_calendar_date(year as int, month as int, day as int) {
            Some(CalendarDate { year: year as int, month: month as int, day: day as int })
        } else {
            None
        },
        None => None,
    }
}

/// The invoice of the decoded cells, or the first column, in the order of
/// the fields, whose cell was not decoded.
pub open spec fn invoice_of(
    invoice_id: Option<i32>,
    invoice_number: Seq<char>,
    client_id: Seq<char>,
    invoice_date: Option<(i32, u32, u32)>,
    due_date: Option<(i32, u32, u32)>,
) -> Result<InvoiceView, RowFault> {
    if invoice_id is None {
        Err(RowFault::BadNumber(0))
    } else if date_of(invoice_date) is None {
        Err(RowFault::BadDate(3))
    } else if date_of(due_date) is None {
        Err(RowFault::BadDate(4))
    } else {
        Ok(
            InvoiceView {
                invoice_id: invoice_id->Some_0 as int,
                invoice_number,
                client_id,
                invoice_date: date_of(invoice_date)->Some_0,
                due_date: date_of(due_date)->Some_0,
            },
        )
    }
}

/// The invoice item of the decoded cells, or the first column, in the order
/// of the fields, whose cell was not decoded or, for the price, is no number
/// in decimal notation.
pub open spec fn invoice_item_of(
    item_id: Option<i32>,
    invoice_id: Option<i32>,
    product_id: Option<i32>,
    description: Seq<char>,
    price: Seq<char>,
) -> Result<InvoiceItemView, RowFault> {
    if item_id is None {
        Err(RowFault::BadNumber(0))
    } else if invoice_id is None {
        Err(RowFault::BadNumber(1))
    } else if product_id is None {
        Err(RowFault::BadNumber(2))
    } else if !is_decimal(price) {
        Err(RowFault::BadNumber(4))
    } else {
        Ok(
            InvoiceItemView {
                item_id: item_id->Some_0 as int,
                invoice_id: invoice_id->Some_0 as int,
                product_id: product_id->Some_0 as int,
                description,
                price,
            },
        )
    }
}

/// Makes the date of a year, a month and a day that were read, if the day
/// exists.
pub fn date_from(parts: Option<(i32, u32, u32)>) -> (date: Option<Date>)
    ensures
        date.deep_view() == date_of(parts),
{
    match parts {
        Some((year, month, day)) => Date::new(year, month, day),
        None => None,
    }
}

impl InvoiceModel {
    /// Puts an invoice together from its cells as they were decoded.
    pub fn assemble(
        invoice_id: Option<i32>,
        invoice_number: String,
        client_id: String,
        invoice_date: Option<(i32, u32, u32)>,
        due_date: Option<(i32, u32, u32)>,
    ) -> (invoice: Result<InvoiceModel, RowFault>)
        ensures
            match invoice {
                Ok(i) => invoice_of(
                    invoice_id,
                    invoice_number@,
                    client_id@,
                    invoice_date,
                    due_date,
                ) == Ok::<InvoiceView, RowFault>(i.deep_view()),
                Err(fault) => invoice_of(
                    invoice_id,
                    invoice_number@,
                    client_id@,
                    invoice_date,
                    due_date,
                ) == Err::<InvoiceView, RowFault>(fault),
            },
    {
        let id = match invoice_id {
            Some(id) => id,
            None => {
                return Err(RowFault::BadNumber(0));
            },
        };
        let date = match date_from(invoice_date) {
            Some(date) => date,
            None => {
                return Err(RowFault::BadDate(3));
            },
        };
        let due = match date_from(due_date) {
            Some(date) => date,
            None => {
                return Err(RowFault::BadDate(4));
            },
        };
        Ok(
            InvoiceModel {
                invoice_id: id,
                invoice_number,
                client_id,
                invoice_date: date,
                due_date: due,
            },
        )
    }
}

impl InvoiceItemsModel {
    /// Puts an invoice item together from its cells as they were decoded.
    pub fn assemble(
        item_id: Option<i32>,
        invoice_id: Option<i32>,
        product_id: Option<i32>,
        description: String,
        price: String,
    ) -> (item: Result<InvoiceItemsModel, RowFault>)
        ensures
            match item {
                Ok(i) => invoice_item_of(item_id, invoice_id, product_id, description@, price@)
                    == Ok::<InvoiceItemView, RowFault>(i.deep_view()),
                Err(fault) => invoice_item_of(
                    item_id,
                    invoice_id,
                    product_id,
                    description@,
                    price@,
                ) == Err::<InvoiceItemView, RowFault>(fault),
            },
    {
        let item = match item_id {
            Some(id) => id,
            None => {
                return Err(RowFault::BadNumber(0));
            },
        };
        let invoice = match invoice_id {
            Some(id) => id,
            None => {
                return Err(RowFault::BadNumber(1));
            },
        };
        let product = match product_id {
            Some(id) => id,
            None => {
                return Err(RowFault::BadNumber(2));
            },
        };
        let price = match Decimal::new(price) {
            Some(number) => number,
            None => {
                return Err(RowFault::BadNumber(4));
            },
        };
        Ok(
            InvoiceItemsModel {
                item_id: item,
                invoice_id: invoice,
                product_id: product,
                description,
                price,
            },
        )
    }
}

impl Record for ClientModel {
    open spec fn column_names() -> Seq<Seq<char>> {
        seq![
            "ClientId"@,
            "CompanyName"@,
            "ContactName"@,
            "ContactTitle"@,
            "Phone"@,
            "Email"@,
        ]
    }

    open spec fn decode_cells(cells: Seq<Seq<char>>) -> Result<ClientView, RowFault> {
        Ok(
            ClientView {
                client_id: cells[0],
                company_name: cells[1],
                contact_name: cells[2],
                contact_title: cells[3],
                phone: cells[4],
                email: cells[5],
            },
        )
    }

    fn columns() -> (names: Vec<String>) {
        let names = vec![
            "ClientId".to_owned(),
            "CompanyName".to_owned(),
            "ContactName".to_owned(),
            "ContactTitle".to_owned(),
            "Phone".to_owned(),
            "Email".to_owned(),
        ];
        assert(names.deep_view() =~= Self::column_names());
        names
    }

    fn from_cells(cells: &Vec<String>) -> (record: Result<Self, RowFault>) {
        assert(forall|c: int| 0 <= c < cells.len() ==> cells.deep_view()[c] == cells[c]@);
        Ok(
            ClientModel {
                client_id: cells[0].clone(),
                company_name: cells[1].clone(),
                contact_name: cells[2].clone(),
                contact_title: cells[3].clone(),
                phone: cells[4].clone(),
                email: cells[5].clone(),
            },
        )
    }
}

impl Record for InvoiceModel {
    open spec fn column_names() -> Seq<Seq<char>> {
        seq!["InvoiceId"@, "InvoiceNumber"@, "ClientId"@, "InvoiceDate"@, "DueDate"@]
    }

    open spec fn decode_cells(cells: Seq<Seq<char>>) -> Result<InvoiceView, RowFault> {
        invoice_of(
            csv_i32(cells[0]),
            cells[1],
            cells[2],
            chrono_ymd(cells[3]),
            chrono_ymd(cells[4]),
        )
    }

    fn columns() -> (names: Vec<String>) {
        let names = vec![
            "InvoiceId".to_owned(),
            "InvoiceNumber".to_owned(),
            "ClientId".to_owned(),
            "InvoiceDate".to_owned(),
            "DueDate".to_owned(),
        ];
        assert(names.deep_view() =~= Self::column_names());
        names
    }

    fn from_cells(cells: &Vec<String>) -> (record: Result<Self, RowFault>) {
        assert(forall|c: int| 0 <= c < cells.len() ==> cells.deep_view()[c] == cells[c]@);
        InvoiceModel::assemble(
            decode_i32(cells[0].as_str()),
            cells[1].clone(),
            cells[2].clone(),
            parse_ymd(cells[3].as_str()),
            parse_ymd(cells[4].as_str()),
        )
    }
}

impl Record for InvoiceItemsModel {
    open spec fn column_names() -> Seq<Seq<char>> {
        seq!["ItemId"@, "InvoiceId"@, "ProductId"@, "Description"@, "Price"@]
    }

    open spec fn decode_cells(cells: Seq<Seq<char>>) -> Result<InvoiceItemView, RowFault> {
        invoice_item_of(
            csv_i32(cells[0]),
            csv_i32(cells[1]),
            csv_i32(cells[2]),
            cells[3],
            cells[4],
        )
    }

    fn columns() -> (names: Vec<String>) {
        let names = vec![
            "ItemId".to_owned(),
            "InvoiceId".to_owned(),
            "ProductId".to_owned(),
            "Description".to_owned(),
            "Price".to_owned(),
        ];
        assert(names.deep_view() =~= Self::column_names());
        names
    }

    fn from_cells(cells: &Vec<String>) -> (record: Result<Self, RowFault>) {
        assert(forall|c: int| 0 <= c < cells.len() ==> cells.deep_view()[c] == cells[c]@);
        InvoiceItemsModel::assemble(
            decode_i32(cells[0].as_str()),
            decode_i32(cells[1].as_str()),
            decode_i32(cells[2].as_str()),
            cells[3].clone(),
            cells[4].clone(),
        )
    }
}

} // verus!
