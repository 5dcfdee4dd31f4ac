//! Payment resources: statuses, payment kinds, and the references by
//! which a payment names what it settles.

use vstd::prelude::*;
use crate::encoding::{spec_element, XmlEventView, XmlWriter};

verus! {

/// The lifecycle state of a payment.
#[derive(Clone, Copy, Debug, PartialEq, Eq, Structural)]
pub enum PaymentStatus {
    Authorised,
    Deleted,
}

impl PaymentStatus {
    /// The wire name of the status.
    pub open spec fn spec_text(self) -> Seq<char> {
        match self {
            PaymentStatus::Authorised => "AUTHORISED"@,
            PaymentStatus::Deleted => "DELETED"@,
        }
    }

    /// The XML events of the status.
    pub open spec fn xml_events(self) -> Seq<XmlEventView> {
        seq![XmlEventView::Text(self.spec_text())]
    }

    /// Writes the status's wire name.
    pub fn write(&self, xml: &mut XmlWriter)
        ensures
            final(xml)@ == old(xml)@ + self.xml_events(),
    {
        let ghost pre = xml@;
        match self {
            PaymentStatus::Authorised => xml.write("AUTHORISED"),
            PaymentStatus::Deleted => xml.write("DELETED"),
        }
        proof {
            assert(xml@ =~= pre + self.xml_events());
        }
    }
}

/// The kind of a payment: which side of the ledger it settles, and
/// whether it is a credit, overpayment or prepayment refund.
#[derive(Clone, Copy, Debug, PartialEq, Eq, Structural)]
pub enum PaymentType {
    AccountsReceivable,
    AccountsPayable,
    ARCredit,
    APCredit,
    AROverpayment,
    APOverpayment,
    ARPrepayment,
    APPrepayment,
}

impl PaymentType {
    /// The wire name of the payment kind.
    pub open spec fn spec_text(self) -> Seq<char> {
        match self {
            PaymentType::AccountsReceivable => "ACCRECPAYMENT"@,
            PaymentType::AccountsPayable => "ACCPAYPAYMENT"@,
            PaymentType::ARCredit => "ARCREDITPAYMENT"@,
            PaymentType::APCredit => "APCREDITPAYMENT"@,
            PaymentType::AROverpayment => "AROVERPAYMENTPAYMENT"@,
            PaymentType::APOverpayment => "APOVERPAYMENTPAYMENT"@,
            PaymentType::ARPrepayment => "ARPREPAYMENTPAYMENT"@,
            PaymentType::APPrepayment => "APPREPAYMENTPAYMENT"@,
        }
    }

    /// The XML events of the payment kind.
    pub open spec fn xml_events(self) -> Seq<XmlEventView> {
        seq![XmlEventView::Text(self.spec_text())]
    }

    /// Writes the payment kind's wire name.
    pub fn write(&self, xml: &mut XmlWriter)
        ensures
            final(xml)@ == old(xml)@ + self.xml_events(),
    {
        let ghost pre = xml@;
        match self {
            PaymentType::AccountsReceivable => xml.write("ACCRECPAYMENT"),
            PaymentType::AccountsPayable => xml.write("ACCPAYPAYMENT"),
            PaymentType::ARCredit => xml.write("ARCREDITPAYMENT"),
            PaymentType::APCredit => xml.write("APCREDITPAYMENT"),
            PaymentType::AROverpayment => xml.write("AROVERPAYMENTPAYMENT"),
            PaymentType::APOverpayment => xml.write("APOVERPAYMENTPAYMENT"),
            PaymentType::ARPrepayment => xml.write("ARPREPAYMENTPAYMENT"),
            PaymentType::APPrepayment => xml.write("APPREPAYMENTPAYMENT"),
        }
        proof {
            assert(xml@ =~= pre + self.xml_events());
        }
    }
}

/// The invoice a payment settles, by id or by number.
#[derive(Debug)]
pub enum PaymentInvoice {
    InvoiceId(String),
    InvoiceNumber(String),
}

impl PaymentInvoice {
    /// The XML events of the reference.
    pub open spec fn xml_events(self) -> Seq<XmlEventView> {
        match self {
            PaymentInvoice::InvoiceId(id) => spec_element("InvoiceID"@, id@),
            PaymentInvoice::InvoiceNumber(number) => spec_element("InvoiceNumber"@, number@),
        }
    }

    /// Writes the reference.
    pub fn write(&self, xml: &mut XmlWriter)
        ensures
            final(xml)@ == old(xml)@ + self.xml_events(),
    {
        let ghost pre = xml@;
        match self {
            PaymentInvoice::InvoiceId(id) => xml.element("InvoiceID", id.as_str()),
            PaymentInvoice::InvoiceNumber(number) => xml.element("InvoiceNumber", number.as_str()),
        }
        proof {
            assert(xml@ =~= pre + self.xml_events());
        }
    }
}

/// The credit note a payment refunds, by id or by number.  A reference by
/// number is written under the `CreditNumber` element, the name the wire
/// format uses.
#[derive(Debug)]
pub enum PaymentCreditNote {
    CreditNoteId(String),
    CreditNoteNumber(String),
}

impl PaymentCreditNote {
    /// The XML events of the reference.
    pub open spec fn xml_events(self) -> Seq<XmlEventView> {
        match self {
            PaymentCreditNote::CreditNoteId(id) => spec_element("CreditNoteID"@, id@),
            PaymentCreditNote::CreditNoteNumber(number) => spec_element("CreditNumber"@, number@),
        }
    }

    /// Writes the reference.
    pub fn write(&self, xml: &mut XmlWriter)
        ensures
            final(xml)@ == old(xml)@ + self.xml_events(),
    {
        let ghost pre = xml@;
        match self {
            PaymentCreditNote::CreditNoteId(id) => xml.element("CreditNoteID", id.as_str()),
            PaymentCreditNote::CreditNoteNumber(number) => xml.element(
                "CreditNumber",
                number.as_str(),
            ),
        }
        proof {
            assert(xml@ =~= pre + self.xml_events());
        }
    }
}

/// The prepayment a payment refunds.
#[derive(Debug)]
pub enum PaymentPrepayment {
    PrepaymentId(String),
}

impl PaymentPrepayment {
    /// The XML events of the reference.
    pub open spec fn xml_events(self) -> Seq<XmlEventView> {
        match self {
            PaymentPrepayment::PrepaymentId(id) => spec_element("PrepaymentID"@, id@),
        }
    }

    /// Writes the reference.
    pub fn write(&self, xml: &mut XmlWriter)
        ensures
            final(xml)@ == old(xml)@ + self.xml_events(),
    {
        let ghost pre = xml@;
        match self {
            PaymentPrepayment::PrepaymentId(id) => xml.element("PrepaymentID", id.as_str()),
        }
        proof {
            assert(xml@ =~= pre + self.xml_events());
        }
    }
}

/// The overpayment a payment refunds.
#[derive(Debug)]
pub enum PaymentOverpayment {
    OverpaymentId(String),
}

impl PaymentOverpayment {
    /// The XML events of the reference.
    pub open spec fn xml_events(self) -> Seq<XmlEventView> {
        match self {
            PaymentOverpayment::OverpaymentId(id) => spec_element("OverpaymentID"@, id@),
        }
    }

    /// Writes the reference.
    pub fn write(&self, xml: &mut XmlWriter)
        ensures
            final(xml)@ == old(xml)@ + self.xml_events(),
    {
        let ghost pre = xml@;
        match self {
            PaymentOverpayment::OverpaymentId(id) => xml.element("OverpaymentID", id.as_str()),
        }
        proof {
            assert(xml@ =~= pre + self.xml_events());
        }
    }
}

/// The account a payment is made from or to, by id or by code.
#[derive(Debug)]
pub enum PaymentAccount {
    AccountId(String),
    Code(String),
}

impl PaymentAccount {
    /// The XML events of the reference.
    pub open spec fn xml_events(self) -> Seq<XmlEventView> {
        match self {
            PaymentAccount::AccountId(id) => spec_element("AccountID"@, id@),
            PaymentAccount::Code(code) => spec_element("Code"@, code@),
        }
    }

    /// Writes the reference.
    pub fn write(&self, xml: &mut XmlWriter)
        ensures
            final(xml)@ == old(xml)@ + self.xml_events(),
    {
        let ghost pre = xml@;
        match self {
            PaymentAccount::AccountId(id) => xml.element("AccountID", id.as_str()),
            PaymentAccount::Code(code) => xml.element("Code", code.as_str()),
        }
        proof {
            assert(xml@ =~= pre + self.xml_events());
        }
    }
}

} // verus!
