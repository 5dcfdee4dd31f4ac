//! Contact resources: statuses, addresses, phones, and the parameter
//! shapes sent when creating or updating contacts.

use vstd::prelude::*;
use crate::encoding::{lemma_events_assoc, opt_bool_element, opt_string_element, spec_element, XmlEventView, XmlWriter};

verus! {

/// Whether a contact is active or archived.
#[derive(Clone, Copy, Debug, PartialEq, Eq, Structural)]
pub enum ContactStatus {
    Active,
    Archived,
}

impl ContactStatus {
    /// The wire name of the status.
    pub open spec fn spec_text(self) -> Seq<char> {
        match self {
            ContactStatus::Active => "ACTIVE"@,
            ContactStatus::Archived => "ARCHIVED"@,
        }
    }

    /// The XML events of the status: its wire name as character data.
    pub open spec fn xml_events(self) -> Seq<XmlEventView> {
        seq![XmlEventView::Text(self.spec_text())]
    }

    /// Writes the status's wire name.
    pub fn write(&self, xml: &mut XmlWriter)
        ensures
            final(xml)@ == old(xml)@ + self.xml_events(),
    {
        let ghost pre = xml@;
        match self {
            ContactStatus::Active => xml.write("ACTIVE"),
            ContactStatus::Archived => xml.write("ARCHIVED"),
        }
        proof {
            assert(xml@ =~= pre + self.xml_events());
        }
    }
}

/// The kind of a postal address.
#[derive(Clone, Copy, Debug, PartialEq, Eq, Structural)]
pub enum AddressType {
    POBox,
    Street,
    Delivery,
}

impl AddressType {
    /// The wire name of the address kind.
    pub open spec fn spec_text(self) -> Seq<char> {
        match self {
            AddressType::POBox => "POBOX"@,
            AddressType::Street => "STREET"@,
            AddressType::Delivery => "DELIVERY"@,
        }
    }

    /// The XML events of the address kind.
    pub open spec fn xml_events(self) -> Seq<XmlEventView> {
        seq![XmlEventView::Text(self.spec_text())]
    }

    /// Writes the address kind's wire name.
    pub fn write(&self, xml: &mut XmlWriter)
        ensures
            final(xml)@ == old(xml)@ + self.xml_events(),
    {
        let ghost pre = xml@;
        match self {
            AddressType::POBox => xml.write("POBOX"),
            AddressType::Street => xml.write("STREET"),
            AddressType::Delivery => xml.write("DELIVERY"),
        }
        proof {
            assert(xml@ =~= pre + self.xml_events());
        }
    }
}

/// The element written for a string field that is skipped when empty.
pub open spec fn opt_text_element(label: Seq<char>, text: Seq<char>) -> Seq<XmlEventView> {
    if text.len() == 0 {
        Seq::empty()
    } else {
        spec_element(label, text)
    }
}

/// A postal address of a contact.  Empty fields stay off the wire.
#[derive(Debug)]
pub struct Address {
    pub address_type: AddressType,
    pub address_line1: String,
    pub address_line2: String,
    pub address_line3: String,
    pub address_line4: String,
    pub city: String,
    pub region: String,
    pub postal_code: String,
    pub country: String,
    pub attention_to: String,
}

impl Address {
    /// The events of the address kind, wrapped in its element.
    pub open spec fn ev_kind(self) -> Seq<XmlEventView> {
        seq![XmlEventView::Start("AddressType"@)] + self.address_type.xml_events() + seq![
            XmlEventView::End,
        ]
    }

    /// The events of the four address lines, empty lines skipped.
    pub open spec fn ev_lines(self) -> Seq<XmlEventView> {
        opt_text_element("AddressLine1"@, self.address_line1@) + opt_text_element(
            "AddressLine2"@,
            self.address_line2@,
        ) + opt_text_element("AddressLine3"@, self.address_line3@) + opt_text_element(
            "AddressLine4"@,
            self.address_line4@,
        )
    }

    /// The events of the locality fields, empty fields skipped.
    pub open spec fn ev_locality(self) -> Seq<XmlEventView> {
        opt_text_element("City"@, self.city@) + opt_text_element("Region"@, self.region@)
            + opt_text_element("PostalCode"@, self.postal_code@) + opt_text_element(
            "Country"@,
            self.country@,
        ) + opt_text_element("AttentionTo"@, self.attention_to@)
    }

    /// The XML events of the address: the kind, then every non-empty
    /// field.
    pub open spec fn xml_events(self) -> Seq<XmlEventView> {
        self.ev_kind() + self.ev_lines() + self.ev_locality()
    }

    /// Writes one string field when it is non-empty.
    fn write_opt_text(xml: &mut XmlWriter, label: &str, text: &String)
        ensures
            final(xml)@ == old(xml)@ + opt_text_element(label@, text@),
    {
        let ghost pre = xml@;
        if !text.as_str().is_empty() {
            xml.element(label, text.as_str());
        }
        proof {
            assert(xml@ =~= pre + opt_text_element(label@, text@));
        }
    }

    /// Writes the address's elements.
    pub fn write(&self, xml: &mut XmlWriter)
        ensures
            final(xml)@ == old(xml)@ + self.xml_events(),
    {
        let ghost pre = xml@;
        xml.start_element("AddressType");
        self.address_type.write(xml);
        xml.end_element();
        let ghost c0 = xml@;
        proof {
            assert(c0 =~= pre + self.ev_kind());
        }
        Address::write_opt_text(xml, "AddressLine1", &self.address_line1);
        Address::write_opt_text(xml, "AddressLine2", &self.address_line2);
        Address::write_opt_text(xml, "AddressLine3", &self.address_line3);
        Address::write_opt_text(xml, "AddressLine4", &self.address_line4);
        let ghost c1 = xml@;
        proof {
            assert(c1 =~= c0 + self.ev_lines());
            assert(c1 =~= pre + (self.ev_kind() + self.ev_lines()));
        }
        Address::write_opt_text(xml, "City", &self.city);
        Address::write_opt_text(xml, "Region", &self.region);
        Address::write_opt_text(xml, "PostalCode", &self.postal_code);
        Address::write_opt_text(xml, "Country", &self.country);
        Address::write_opt_text(xml, "AttentionTo", &self.attention_to);
        proof {
            assert(xml@ =~= c1 + self.ev_locality());
            assert(xml@ =~= pre + self.xml_events());
        }
    }
}

/// The kind of a phone number.
#[derive(Clone, Copy, Debug, PartialEq, Eq, Structural)]
pub enum PhoneType {
    Default,
    DirectDial,
    Mobile,
    Fax,
}

impl PhoneType {
    /// The wire name of the phone kind.
    pub open spec fn spec_text(self) -> Seq<char> {
        match self {
            PhoneType::Default => "DEFAULT"@,
            PhoneType::DirectDial => "DDI"@,
            PhoneType::Mobile => "MOBILE"@,
            PhoneType::Fax => "FAX"@,
        }
    }

    /// The XML events of the phone kind.
    pub open spec fn xml_events(self) -> Seq<XmlEventView> {
        seq![XmlEventView::Text(self.spec_text())]
    }

    /// Writes the phone kind's wire name.
    pub fn write(&self, xml: &mut XmlWriter)
        ensures
            final(xml)@ == old(xml)@ + self.xml_events(),
    {
        let ghost pre = xml@;
        match self {
            PhoneType::Default => xml.write("DEFAULT"),
            PhoneType::DirectDial => xml.write("DDI"),
            PhoneType::Mobile => xml.write("MOBILE"),
            PhoneType::Fax => xml.write("FAX"),
        }
        proof {
            assert(xml@ =~= pre + self.xml_events());
        }
    }
}

/// A phone number of a contact.
#[derive(Debug)]
pub struct Phone {
    pub phone_type: PhoneType,
    pub phone_number: String,
    pub phone_area_code: String,
    pub phone_country_code: String,
}

impl Phone {
    /// The XML events of the phone: kind, number, area code, country code.
    pub open spec fn xml_events(self) -> Seq<XmlEventView> {
        seq![XmlEventView::Start("PhoneType"@)] + self.phone_type.xml_events() + seq![
            XmlEventView::End,
        ] + spec_element("PhoneNumber"@, self.phone_number@) + spec_element(
            "PhoneAreaCode"@,
            self.phone_area_code@,
        ) + spec_element("PhoneCountryCode"@, self.phone_country_code@)
    }

    /// Writes the phone's elements.
    pub fn write(&self, xml: &mut XmlWriter)
        ensures
            final(xml)@ == old(xml)@ + self.xml_events(),
    {
        let ghost pre = xml@;
        xml.start_element("PhoneType");
        self.phone_type.write(xml);
        xml.end_element();
        xml.element("PhoneNumber", self.phone_number.as_str());
        xml.element("PhoneAreaCode", self.phone_area_code.as_str());
        xml.element("PhoneCountryCode", self.phone_country_code.as_str());
        proof {
            assert(xml@ =~= pre + self.xml_events());
        }
    }
}

/// The reference by which an existing contact is named in a request.
#[derive(Debug, Default)]
pub struct ContactIdParams {
    pub contact_id: String,
}

impl ContactIdParams {
    /// The XML events of the reference: one `ContactID` element.
    pub open spec fn xml_events(self) -> Seq<XmlEventView> {
        spec_element("ContactID"@, self.contact_id@)
    }

    /// Writes the reference.
    pub fn write(&self, xml: &mut XmlWriter)
        ensures
            final(xml)@ == old(xml)@ + self.xml_events(),
    {
        let ghost pre = xml@;
        xml.element("ContactID", self.contact_id.as_str());
        proof {
            assert(xml@ =~= pre + self.xml_events());
        }
    }
}

/// The events of a sequence of addresses, each wrapped in an `Address`
/// element.
pub open spec fn address_items_events(items: Seq<Address>) -> Seq<XmlEventView>
    decreases items.len(),
{
    if items.len() == 0 {
        Seq::empty()
    } else {
        seq![XmlEventView::Start("Address"@)] + items[0].xml_events() + seq![XmlEventView::End]
            + address_items_events(items.drop_first())
    }
}

/// The events of a sequence of phones, each wrapped in a `Phone` element.
pub open spec fn phone_items_events(items: Seq<Phone>) -> Seq<XmlEventView>
    decreases items.len(),
{
    if items.len() == 0 {
        Seq::empty()
    } else {
        seq![XmlEventView::Start("Phone"@)] + items[0].xml_events() + seq![XmlEventView::End]
            + phone_items_events(items.drop_first())
    }
}

/// The parameters sent when creating or updating a contact.  Absent
/// fields stay off the wire.
#[derive(Debug, Default)]
pub struct ContactParams {
    pub contact_id: Option<String>,
    pub contact_number: Option<String>,
    pub account_number: Option<String>,
    pub contact_status: Option<ContactStatus>,
    pub name: Option<String>,
    pub first_name: Option<String>,
    pub last_name: Option<String>,
    pub email_address: Option<String>,
    pub skype_user_name: Option<String>,
    pub bank_account_details: Option<String>,
    pub tax_number: Option<String>,
    pub accounts_receivable_tax_type: Option<String>,
    pub accounts_payable_tax_type: Option<String>,
    pub addresses: Option<Vec<Address>>,
    pub phones: Option<Vec<Phone>>,
    pub is_supplier: Option<bool>,
    pub is_customer: Option<bool>,
}

impl ContactParams {
    /// The events of the identifying fields.
    pub open spec fn ev_ids(self) -> Seq<XmlEventView> {
        opt_string_element("ContactID"@, self.contact_id) + opt_string_element("ContactNumber"@, self.contact_number) + opt_string_element("AccountNumber"@, self.account_number)
    }

    /// The events of the status, when present.
    pub open spec fn ev_status(self) -> Seq<XmlEventView> {
        match self.contact_status {
            Some(st) => seq![XmlEventView::Start("ContactStatus"@)] + st.xml_events() + seq![
                XmlEventView::End,
            ],
            None => Seq::empty(),
        }
    }

    /// The events of the naming fields.
    pub open spec fn ev_names(self) -> Seq<XmlEventView> {
        opt_string_element("Name"@, self.name) + opt_string_element("FirstName"@, self.first_name) + opt_string_element("LastName"@, self.last_name) + opt_string_element("EmailAddress"@, self.email_address)
    }

    /// The events of the account and tax detail fields.
    pub open spec fn ev_details(self) -> Seq<XmlEventView> {
        opt_string_element("SkypeUserName"@, self.skype_user_name) + opt_string_element("BankAccountDetails"@, self.bank_account_details) + opt_string_element("TaxNumber"@, self.tax_number) + opt_string_element("AccountsReceivableTaxType"@, self.accounts_receivable_tax_type) + opt_string_element("AccountsPayableTaxType"@, self.accounts_payable_tax_type)
    }

    /// The events of the address list, when present.
    pub open spec fn ev_addresses(self) -> Seq<XmlEventView> {
        match self.addresses {
            Some(items) => seq![XmlEventView::Start("Addresses"@)] + address_items_events(items@)
                + seq![XmlEventView::End],
            None => Seq::empty(),
        }
    }

    /// The events of the phone list, when present.
    pub open spec fn ev_phones(self) -> Seq<XmlEventView> {
        match self.phones {
            Some(items) => seq![XmlEventView::Start("Phones"@)] + phone_items_events(items@) + seq![
                XmlEventView::End,
            ],
            None => Seq::empty(),
        }
    }

    /// The events of the role flags.
    pub open spec fn ev_roles(self) -> Seq<XmlEventView> {
        opt_bool_element("IsSupplier"@, self.is_supplier) + opt_bool_element(
            "IsCustomer"@,
            self.is_customer,
        )
    }

    /// The XML events of the parameters: every present field, in wire
    /// order.
    pub open spec fn xml_events(self) -> Seq<XmlEventView> {
        self.ev_ids() + self.ev_status() + self.ev_names() + self.ev_details()
            + self.ev_addresses() + self.ev_phones() + self.ev_roles()
    }

    /// Writes the identifying, status, naming and detail fields.
    fn write_front(&self, xml: &mut XmlWriter)
        ensures
            final(xml)@ == old(xml)@ + (self.ev_ids() + self.ev_status() + self.ev_names()
                + self.ev_details()),
    {
        let ghost pre = xml@;
        let ghost e1 = opt_string_element("ContactID"@, self.contact_id);
        let ghost e2 = opt_string_element("ContactNumber"@, self.contact_number);
        let ghost e3 = opt_string_element("AccountNumber"@, self.account_number);
        xml.element_opt("ContactID", &self.contact_id);
        xml.element_opt("ContactNumber", &self.contact_number);
        xml.element_opt("AccountNumber", &self.account_number);
        let ghost c1 = xml@;
        proof {
            lemma_events_assoc(pre, e1, e2);
            lemma_events_assoc(pre, e1 + e2, e3);
            assert(c1 == pre + self.ev_ids());
        }
        match &self.contact_status {
            Some(st) => {
                xml.start_element("ContactStatus");
                st.write(xml);
                xml.end_element();
                proof {
                    assert(xml@ =~= c1 + self.ev_status());
                }
            },
            None => {
                proof {
                    assert(xml@ =~= c1 + self.ev_status());
                }
            },
        }
        let ghost c2 = xml@;
        proof {
            lemma_events_assoc(pre, self.ev_ids(), self.ev_status());
            assert(c2 == pre + (self.ev_ids() + self.ev_status()));
        }
        let ghost e4 = opt_string_element("Name"@, self.name);
        let ghost e5 = opt_string_element("FirstName"@, self.first_name);
        let ghost e6 = opt_string_element("LastName"@, self.last_name);
        let ghost e7 = opt_string_element("EmailAddress"@, self.email_address);
        xml.element_opt("Name", &self.name);
        xml.element_opt("FirstName", &self.first_name);
        xml.element_opt("LastName", &self.last_name);
        xml.element_opt("EmailAddress", &self.email_address);
        let ghost c3 = xml@;
        proof {
            lemma_events_assoc(c2, e4, e5);
            lemma_events_assoc(c2, e4 + e5, e6);
            lemma_events_assoc(c2, (e4 + e5) + e6, e7);
            assert(c3 == c2 + self.ev_names());
            lemma_events_assoc(pre, self.ev_ids() + self.ev_status(), self.ev_names());
            assert(c3 == pre + (self.ev_ids() + self.ev_status() + self.ev_names()));
        }
        let ghost e8 = opt_string_element("SkypeUserName"@, self.skype_user_name);
        let ghost e9 = opt_string_element("BankAccountDetails"@, self.bank_account_details);
        let ghost e10 = opt_string_element("TaxNumber"@, self.tax_number);
        let ghost e11 = opt_string_element(
            "AccountsReceivableTaxType"@,
            self.accounts_receivable_tax_type,
        );
        let ghost e12 = opt_string_element(
            "AccountsPayableTaxType"@,
            self.accounts_payable_tax_type,
        );
        xml.element_opt("SkypeUserName", &self.skype_user_name);
        xml.element_opt("BankAccountDetails", &self.bank_account_details);
        xml.element_opt("TaxNumber", &self.tax_number);
        xml.element_opt("AccountsReceivableTaxType", &self.accounts_receivable_tax_type);
        xml.element_opt("AccountsPayableTaxType", &self.accounts_payable_tax_type);
        proof {
            lemma_events_assoc(c3, e8, e9);
            lemma_events_assoc(c3, e8 + e9, e10);
            lemma_events_assoc(c3, (e8 + e9) + e10, e11);
            lemma_events_assoc(c3, ((e8 + e9) + e10) + e11, e12);
            assert(xml@ == c3 + self.ev_details());
            lemma_events_assoc(
                pre,
                self.ev_ids() + self.ev_status() + self.ev_names(),
                self.ev_details(),
            );
            assert(xml@ == pre + (self.ev_ids() + self.ev_status() + self.ev_names()
                + self.ev_details()));
        }
    }

    /// Writes the address list, the phone list and the role flags.
    fn write_back(&self, xml: &mut XmlWriter)
        ensures
            final(xml)@ == old(xml)@ + (self.ev_addresses() + self.ev_phones() + self.ev_roles()),
    {
        let ghost pre = xml@;
        match &self.addresses {
            Some(items) => {
                xml.start_element("Addresses");
                write_address_items(xml, items);
                xml.end_element();
            },
            None => {},
        }
        let ghost c1 = xml@;
        proof {
            assert(c1 =~= pre + self.ev_addresses());
        }
        match &self.phones {
            Some(items) => {
                xml.start_element("Phones");
                write_phone_items(xml, items);
                xml.end_element();
            },
            None => {},
        }
        let ghost c2 = xml@;
        proof {
            assert(c2 =~= c1 + self.ev_phones());
            assert(c2 =~= pre + (self.ev_addresses() + self.ev_phones()));
        }
        xml.element_opt_bool("IsSupplier", &self.is_supplier);
        xml.element_opt_bool("IsCustomer", &self.is_customer);
        proof {
            assert(xml@ =~= c2 + self.ev_roles());
            assert(xml@ =~= pre + (self.ev_addresses() + self.ev_phones() + self.ev_roles()));
        }
    }

    /// Writes the parameters' elements.
    pub fn write(&self, xml: &mut XmlWriter)
        ensures
            final(xml)@ == old(xml)@ + self.xml_events(),
    {
        let ghost pre = xml@;
        self.write_front(xml);
        self.write_back(xml);
        proof {
            assert(xml@ =~= pre + self.xml_events());
        }
    }
}

/// Writes each address wrapped in an `Address` element.
#[verifier::rlimit(30)]
fn write_address_items(xml: &mut XmlWriter, items: &Vec<Address>)
    ensures
        final(xml)@ == old(xml)@ + address_items_events(items@),
{
    let n = items.len();
    let mut i: usize = 0;
    proof {
        assert(items@.skip(0) =~= items@);
    }
    while i < n
        invariant
            n == items@.len(),
            i <= n,
            old(xml)@ + address_items_events(items@) =~= xml@ + address_items_events(
                items@.skip(i as int),
            ),
        decreases n - i,
    {
        proof {
            assert(items@.skip(i as int)[0] == items@[i as int]);
            assert(items@.skip(i as int).drop_first() =~= items@.skip(i + 1));
        }
        xml.start_element("Address");
        items[i].write(xml);
        xml.end_element();
        i = i + 1;
    }
    proof {
        assert(address_items_events(items@.skip(n as int)) =~= Seq::<XmlEventView>::empty());
        assert(old(xml)@ + address_items_events(items@) =~= xml@);
    }
}

/// Writes each phone wrapped in a `Phone` element.
#[verifier::rlimit(30)]
fn write_phone_items(xml: &mut XmlWriter, items: &Vec<Phone>)
    ensures
        final(xml)@ == old(xml)@ + phone_items_events(items@),
{
    let n = items.len();
    let mut i: usize = 0;
    proof {
        assert(items@.skip(0) =~= items@);
    }
    while i < n
        invariant
            n == items@.len(),
            i <= n,
            old(xml)@ + phone_items_events(items@) =~= xml@ + phone_items_events(
                items@.skip(i as int),
            ),
        decreases n - i,
    {
        proof {
            assert(items@.skip(i as int)[0] == items@[i as int]);
            assert(items@.skip(i as int).drop_first() =~= items@.skip(i + 1));
        }
        xml.start_element("Phone");
        items[i].write(xml);
        xml.end_element();
        i = i + 1;
    }
    proof {
        assert(phone_items_events(items@.skip(n as int)) =~= Seq::<XmlEventView>::empty());
        assert(old(xml)@ + phone_items_events(items@) =~= xml@);
    }
}

/// A contact as the service reports it.
#[derive(Debug)]
pub struct Contact {
    pub contact_id: String,
    pub contact_status: ContactStatus,
    pub name: String,
    pub first_name: String,
    pub last_name: String,
    pub email_address: String,
    pub skype_user_name: String,
    pub bank_account_details: String,
    pub tax_number: String,
    pub accounts_receivable_tax_type: Option<String>,
    pub accounts_payable_tax_type: Option<String>,
    pub addresses: Vec<Address>,
    pub phones: Vec<Phone>,
    pub is_supplier: bool,
    pub is_customer: bool,
}

/// A list of contacts as the service reports it.
#[derive(Debug)]
pub struct Contacts {
    pub contacts: Vec<Contact>,
}

} // verus!
