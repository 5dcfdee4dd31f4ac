//! Invoice resources: the enumerations that type an invoice on the wire.

use vstd::prelude::*;
use crate::encoding::{XmlEventView, XmlWriter};

verus! {

/// Whether an invoice is payable or receivable.
#[derive(Clone, Copy, Debug, PartialEq, Eq, Structural)]
pub enum InvoiceType {
    AccountsPayable,
    AccountsReceivable,
}

impl Default for InvoiceType {
    /// New invoices default to receivable.
    fn default() -> (r: Self)
        ensures
            r == InvoiceType::AccountsReceivable,
    {
        InvoiceType::AccountsReceivable
    }
}

impl InvoiceType {
    /// The wire name of the invoice type.
    pub open spec fn spec_text(self) -> Seq<char> {
        match self {
            InvoiceType::AccountsPayable => "ACCPAY"@,
            InvoiceType::AccountsReceivable => "ACCREC"@,
        }
    }

    /// The XML events of the invoice type.
    pub open spec fn xml_events(self) -> Seq<XmlEventView> {
        seq![XmlEventView::Text(self.spec_text())]
    }

    /// Writes the invoice type's wire name.
    pub fn write(&self, xml: &mut XmlWriter)
        ensures
            final(xml)@ == old(xml)@ + self.xml_events(),
    {
        let ghost pre = xml@;
        match self {
            InvoiceType::AccountsPayable => xml.write("ACCPAY"),
            InvoiceType::AccountsReceivable => xml.write("ACCREC"),
        }
        proof {
            assert(xml@ =~= pre + self.xml_events());
        }
    }
}

/// The lifecycle state of an invoice.
#[derive(Clone, Copy, Debug, PartialEq, Eq, Structural)]
pub enum InvoiceStatus {
    Draft,
    Submitted,
    Deleted,
    Authorised,
    Paid,
    Voided,
}

impl InvoiceStatus {
    /// The wire name of the status.
    pub open spec fn spec_text(self) -> Seq<char> {
        match self {
            InvoiceStatus::Draft => "DRAFT"@,
            InvoiceStatus::Submitted => "SUBMITTED"@,
            InvoiceStatus::Deleted => "DELETED"@,
            InvoiceStatus::Authorised => "AUTHORISED"@,
            InvoiceStatus::Paid => "PAID"@,
            InvoiceStatus::Voided => "VOIDED"@,
        }
    }

    /// The XML events of the status.
    pub open spec fn xml_events(self) -> Seq<XmlEventView> {
        seq![XmlEventView::Text(self.spec_text())]
    }

    /// Writes the status's wire name.
    pub fn write(&self, xml: &mut XmlWriter)
        ensures
            final(xml)@ == old(xml)@ + self.xml_events(),
    {
        let ghost pre = xml@;
        match self {
            InvoiceStatus::Draft => xml.write("DRAFT"),
            InvoiceStatus::Submitted => xml.write("SUBMITTED"),
            InvoiceStatus::Deleted => xml.write("DELETED"),
            InvoiceStatus::Authorised => xml.write("AUTHORISED"),
            InvoiceStatus::Paid => xml.write("PAID"),
            InvoiceStatus::Voided => xml.write("VOIDED"),
        }
        proof {
            assert(xml@ =~= pre + self.xml_events());
        }
    }
}

/// How line amounts relate to tax.
#[derive(Clone, Copy, Debug, PartialEq, Eq, Structural)]
pub enum LineAmountType {
    Exclusive,
    Inclusive,
    NoTax,
}

impl LineAmountType {
    /// The wire name of the line-amount type.
    pub open spec fn spec_text(self) -> Seq<char> {
        match self {
            LineAmountType::Exclusive => "Exclusive"@,
            LineAmountType::Inclusive => "Inclusive"@,
            LineAmountType::NoTax => "NoTax"@,
        }
    }

    /// The XML events of the line-amount type.
    pub open spec fn xml_events(self) -> Seq<XmlEventView> {
        seq![XmlEventView::Text(self.spec_text())]
    }

    /// Writes the line-amount type's wire name.
    pub fn write(&self, xml: &mut XmlWriter)
        ensures
            final(xml)@ == old(xml)@ + self.xml_events(),
    {
        let ghost pre = xml@;
        match self {
            LineAmountType::Exclusive => xml.write("Exclusive"),
            LineAmountType::Inclusive => xml.write("Inclusive"),
            LineAmountType::NoTax => xml.write("NoTax"),
        }
        proof {
            assert(xml@ =~= pre + self.xml_events());
        }
    }
}

} // verus!
